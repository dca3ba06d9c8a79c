//! Onboarding: the non-interactive `openclaw onboard` command line and the
//! card wizard that drives the interactive one through a pseudo-terminal.

use vstd::prelude::*;
use vstd::utf8::encode_utf8;
use crate::agents::{agent_action_bytes, bytes_after, unknown_action, unknown_action_exec};
use crate::text::{
    concat, from_chars, has_prefix, iviews, join, join_exec, opt_view, owned, starts_with_seq,
    str_is, sviews, to_chars, views,
};
use crate::wizard::{
    after_mark, after_mark_exec, any_start, any_start_exec, body_prompt, body_prompt_exec,
    done_prompt, last_start, last_start_exec, outro_text_exec, prompt_key, render_screen, reports,
    screen_lines, trimmed_lines, vt_screen, PromptTracker, PromptView,
};

verus! {

/// Parameters of a non-interactive onboarding.
pub struct OnboardParams {
    pub auth_choice: String,
    pub api_key: String,
    pub custom_base_url: String,
    pub custom_model_id: String,
}

/// A wizard prompt as the onboarding UI shows it.
pub struct WizardPrompt {
    pub prompt_type: String,
    pub question: String,
    pub options: Vec<String>,
    pub selected: usize,
    pub checked: Vec<usize>,
    pub error: Option<String>,
}

impl View for WizardPrompt {
    type V = PromptView;

    open spec fn view(&self) -> PromptView {
        PromptView {
            kind: self.prompt_type@,
            question: self.question@,
            options: sviews(self.options@),
            selected: self.selected as int,
            checked: iviews(self.checked@),
            error: opt_view(self.error),
            current_value: None,
        }
    }
}

// ─── Screen parsing ─────────────────────────────────────────────────────────

/// The prompt the onboarding wizard shows on `screen` with the cursor on row
/// `cr`: done when an outro line is on screen and no active prompt is;
/// otherwise the last active prompt with the body below it; nothing when no
/// prompt is active.
pub open spec fn onboard_screen_prompt(screen: Seq<char>, cr: int) -> Option<PromptView> {
    let ts = trimmed_lines(screen);
    if any_start(ts, '└') && !any_start(ts, '◆') {
        Some(done_prompt(ts))
    } else {
        match last_start(ts, '◆') {
            Some(i) => Some(body_prompt(ts, after_mark(ts[i], '◆'), i + 1, cr, false)),
            None => None,
        }
    }
}

/// The onboarding prompt without the input value the agent wizard reports.
pub open spec fn without_value(p: PromptView) -> PromptView {
    PromptView { current_value: None, ..p }
}

fn from_agent_prompt(p: crate::agents::WizardPrompt) -> (r: WizardPrompt)
    ensures
        r@ == without_value(p@),
{
    WizardPrompt {
        prompt_type: p.prompt_type,
        question: p.question,
        options: p.options,
        selected: p.selected,
        checked: p.checked,
        error: p.error,
    }
}

/// Reads the current prompt off a rendered screen of the onboarding wizard.
pub fn parse_screen_for_prompt(screen_text: &str, cursor_row: u16) -> (r: Option<WizardPrompt>)
    ensures
        match (r, onboard_screen_prompt(screen_text@, cursor_row as int)) {
            (Some(p), Some(v)) => p@ == without_value(v),
            (None, None) => true,
            _ => false,
        },
{
    let ts = screen_lines(screen_text);
    if any_start_exec(&ts, '└') && !any_start_exec(&ts, '◆') {
        let q = outro_text_exec(&ts);
        let options: Vec<String> = Vec::new();
        let checked: Vec<usize> = Vec::new();
        proof {
            assert(sviews(options@) =~= Seq::<Seq<char>>::empty());
            assert(iviews(checked@) =~= Seq::<int>::empty());
        }
        return Some(
            WizardPrompt {
                prompt_type: owned("done"),
                question: from_chars(&q),
                options,
                selected: 0,
                checked,
                error: None,
            },
        );
    }
    match last_start_exec(&ts, '◆') {
        Some(idx) => {
            let q = after_mark_exec(&ts[idx], '◆');
            let p = body_prompt_exec(&ts, q, idx + 1, cursor_row, false);
            Some(from_agent_prompt(p))
        },
        None => None,
    }
}

// ─── Key actions ────────────────────────────────────────────────────────────

/// The bytes a wizard action sends to the onboarding terminal: as for the
/// agent wizard, and `y` / `n` besides.
pub open spec fn onboard_action_bytes(a: Seq<char>) -> Option<Seq<u8>> {
    if a == "enter"@ {
        Some(seq![13u8])
    } else if a == "space"@ {
        Some(seq![32u8])
    } else if a == "up"@ {
        Some(seq![0x1bu8, 91u8, 65u8])
    } else if a == "down"@ {
        Some(seq![0x1bu8, 91u8, 66u8])
    } else if a == "right"@ {
        Some(seq![0x1bu8, 91u8, 67u8])
    } else if a == "left"@ {
        Some(seq![0x1bu8, 91u8, 68u8])
    } else if a == "y"@ {
        Some(seq![121u8])
    } else if a == "n"@ {
        Some(seq![110u8])
    } else if has_prefix(a, "text:"@) {
        Some(encode_utf8(a.skip("text:"@.len() as int)))
    } else if has_prefix(a, "submit:"@) {
        Some(encode_utf8(a.skip("submit:"@.len() as int)).push(13u8))
    } else {
        None
    }
}

/// Maps a wizard action to the bytes written to the terminal.
pub fn action_to_bytes(action: &str) -> (r: Result<Vec<u8>, String>)
    ensures
        match (r, onboard_action_bytes(action@)) {
            (Ok(b), Some(e)) => b@ == e,
            (Err(m), None) => m@ == unknown_action(action@),
            _ => false,
        },
{
    let a = to_chars(action);
    if str_is(&a, "enter") {
        Ok(vec![13u8])
    } else if str_is(&a, "space") {
        Ok(vec![32u8])
    } else if str_is(&a, "up") {
        Ok(vec![0x1bu8, 91u8, 65u8])
    } else if str_is(&a, "down") {
        Ok(vec![0x1bu8, 91u8, 66u8])
    } else if str_is(&a, "right") {
        Ok(vec![0x1bu8, 91u8, 67u8])
    } else if str_is(&a, "left") {
        Ok(vec![0x1bu8, 91u8, 68u8])
    } else if str_is(&a, "y") {
        Ok(vec![121u8])
    } else if str_is(&a, "n") {
        Ok(vec![110u8])
    } else {
        let txt = to_chars("text:");
        let sub = to_chars("submit:");
        if starts_with_seq(&a, &txt) {
            Ok(bytes_after(&a, &txt, false))
        } else if starts_with_seq(&a, &sub) {
            Ok(bytes_after(&a, &sub, true))
        } else {
            Err(unknown_action_exec(&a))
        }
    }
}

} // verus!

verus! {

// ─── The wizard session ─────────────────────────────────────────────────────

/// What the onboarding wizard's reader has seen: all output of the terminal
/// so far, and the last prompt reported.
pub struct OnboardWizardSession {
    pub history: Vec<u8>,
    pub tracker: PromptTracker,
}

impl OnboardWizardSession {
    pub fn new() -> (r: Self)
        ensures
            r.history@.len() == 0,
            r.tracker.last is None,
    {
        OnboardWizardSession { history: Vec::new(), tracker: PromptTracker::new() }
    }

    /// Takes in output of the terminal.
    pub fn feed(&mut self, data: &[u8])
        ensures
            final(self).history@ == old(self).history@ + data@,
            final(self).tracker == old(self).tracker,
    {
        let mut i: usize = 0;
        while i < data.len()
            invariant
                i <= data@.len(),
                self.history@ == old(self).history@ + data@.take(i as int),
                self.tracker == old(self).tracker,
            decreases data@.len() - i,
        {
            self.history.push(data[i]);
            i = i + 1;
            assert(self.history@ =~= old(self).history@ + data@.take(i as int));
        }
        assert(data@.take(data@.len() as int) =~= data@);
    }

    /// Renders the screen and reads the prompt off it; the prompt is returned
    /// when there is one and it differs from the last one reported.
    pub fn refresh(&mut self) -> (r: (crate::agents::WizardScreen, Option<WizardPrompt>))
        ensures
            (r.0.text@, r.0.cursor_row) == vt_screen(
                old(self).history@,
                crate::agents::SCREEN_ROWS,
                crate::agents::SCREEN_COLS,
            ),
            final(self).history == old(self).history,
            match onboard_screen_prompt(r.0.text@, r.0.cursor_row as int) {
                Some(v) => {
                    let p = without_value(v);
                    &&& opt_view(final(self).tracker.last) == Some(prompt_key(p))
                    &&& (r.1 is Some <==> reports(opt_view(old(self).tracker.last), p))
                    &&& (r.1 matches Some(q) ==> q@ == p)
                },
                None => r.1 is None && final(self).tracker == old(self).tracker,
            },
    {
        let (text, cursor_row) = render_screen(
            self.history.as_slice(),
            crate::agents::SCREEN_ROWS,
            crate::agents::SCREEN_COLS,
        );
        let parsed = parse_screen_for_prompt(text.as_str(), cursor_row);
        let shown = match parsed {
            Some(p) => {
                let full = crate::agents::WizardPrompt {
                    prompt_type: p.prompt_type.clone(),
                    question: p.question.clone(),
                    options: p.options.clone(),
                    selected: p.selected,
                    checked: p.checked.clone(),
                    error: p.error.clone(),
                    current_value: None,
                };
                proof {
                    assert(full@ == p@);
                }
                if self.tracker.observe(&full) {
                    Some(p)
                } else {
                    None
                }
            },
            None => None,
        };
        (crate::agents::WizardScreen { text, cursor_row }, shown)
    }
}

// ─── The non-interactive command line ───────────────────────────────────────

/// The arguments of `openclaw onboard --non-interactive` for the parameters.
pub open spec fn onboard_args(auth: Seq<char>, key: Seq<char>, url: Seq<char>, model: Seq<char>) -> Seq<
    Seq<char>,
> {
    let base = seq![
        "openclaw"@,
        "onboard"@,
        "--non-interactive"@,
        "--auth-choice"@,
        auth,
        "--secret-input-mode"@,
        "plaintext"@,
    ];
    if auth == "anthropic-api-key"@ {
        base + seq!["--anthropic-api-key"@, key]
    } else if auth == "openai-api-key"@ {
        base + seq!["--openai-api-key"@, key]
    } else if auth == "custom-api-key"@ {
        base + seq!["--custom-api-key"@, key] + (if url.len() > 0 {
            seq!["--custom-base-url"@, url]
        } else {
            seq![]
        }) + (if model.len() > 0 {
            seq!["--custom-model-id"@, model]
        } else {
            seq![]
        }) + seq!["--custom-compatibility"@, "openai"@]
    } else {
        base
    }
}

/// An argument with a space in it, in single quotes.
pub open spec fn quote_arg(a: Seq<char>) -> Seq<char> {
    if a.contains(' ') {
        seq!['\''] + a + seq!['\'']
    } else {
        a
    }
}

/// The shell command line of a non-interactive onboarding.
pub open spec fn onboard_command_spec(p: OnboardParams) -> Seq<char> {
    join(
        onboard_args(p.auth_choice@, p.api_key@, p.custom_base_url@, p.custom_model_id@).map_values(
            |a: Seq<char>| quote_arg(a),
        ),
        seq![' '],
    )
}

fn push_str(v: &mut Vec<Vec<char>>, s: &str)
    ensures
        views(final(v)@) == views(old(v)@).push(s@),
{
    let ghost prev = v@;
    v.push(to_chars(s));
    assert(views(v@) =~= views(prev).push(s@));
}

fn push_chars(v: &mut Vec<Vec<char>>, s: &String)
    ensures
        views(final(v)@) == views(old(v)@).push(s@),
{
    let ghost prev = v@;
    v.push(to_chars(s.as_str()));
    assert(views(v@) =~= views(prev).push(s@));
}

/// The arguments of the onboarding command.
pub fn onboard_args_exec(p: &OnboardParams) -> (r: Vec<Vec<char>>)
    ensures
        views(r@) == onboard_args(p.auth_choice@, p.api_key@, p.custom_base_url@, p.custom_model_id@),
{
    let mut r: Vec<Vec<char>> = Vec::new();
    push_str(&mut r, "openclaw");
    push_str(&mut r, "onboard");
    push_str(&mut r, "--non-interactive");
    push_str(&mut r, "--auth-choice");
    push_chars(&mut r, &p.auth_choice);
    push_str(&mut r, "--secret-input-mode");
    push_str(&mut r, "plaintext");
    let ghost base = views(r@);
    let auth = to_chars(p.auth_choice.as_str());
    if str_is(&auth, "anthropic-api-key") {
        push_str(&mut r, "--anthropic-api-key");
        push_chars(&mut r, &p.api_key);
        assert(views(r@) =~= base + seq!["--anthropic-api-key"@, p.api_key@]);
    } else if str_is(&auth, "openai-api-key") {
        push_str(&mut r, "--openai-api-key");
        push_chars(&mut r, &p.api_key);
        assert(views(r@) =~= base + seq!["--openai-api-key"@, p.api_key@]);
    } else if str_is(&auth, "custom-api-key") {
        push_str(&mut r, "--custom-api-key");
        push_chars(&mut r, &p.api_key);
        let ghost s1 = views(r@);
        if to_chars(p.custom_base_url.as_str()).len() > 0 {
            push_str(&mut r, "--custom-base-url");
            push_chars(&mut r, &p.custom_base_url);
        }
        let ghost s2 = views(r@);
        if to_chars(p.custom_model_id.as_str()).len() > 0 {
            push_str(&mut r, "--custom-model-id");
            push_chars(&mut r, &p.custom_model_id);
        }
        let ghost s3 = views(r@);
        push_str(&mut r, "--custom-compatibility");
        push_str(&mut r, "openai");
        proof {
            let url = p.custom_base_url@;
            let model = p.custom_model_id@;
            assert(s1 =~= base + seq!["--custom-api-key"@, p.api_key@]);
            assert(s2 =~= s1 + (if url.len() > 0 {
                seq!["--custom-base-url"@, url]
            } else {
                seq![]
            }));
            assert(s3 =~= s2 + (if model.len() > 0 {
                seq!["--custom-model-id"@, model]
            } else {
                seq![]
            }));
            assert(views(r@) =~= s3 + seq!["--custom-compatibility"@, "openai"@]);
        }
    }
    r
}

/// The shell command line of a non-interactive onboarding: its arguments
/// joined by spaces, each one with a space in it single-quoted.
pub fn onboard_command(p: &OnboardParams) -> (r: String)
    ensures
        r@ == onboard_command_spec(*p),
{
    let args = onboard_args_exec(p);
    let ghost a = views(args@);
    let mut quoted: Vec<Vec<char>> = Vec::new();
    let mut i: usize = 0;
    while i < args.len()
        invariant
            i <= args@.len(),
            a == views(args@),
            views(quoted@) == a.take(i as int).map_values(|x: Seq<char>| quote_arg(x)),
        decreases args@.len() - i,
    {
        let arg = &args[i];
        let q = if crate::text::contains_char(arg, ' ') {
            let mut open: Vec<char> = Vec::new();
            open.push('\'');
            let mut w = concat(&open, arg);
            w.push('\'');
            assert(open@ =~= seq!['\'']);
            assert(w@ =~= seq!['\''] + arg@ + seq!['\'']);
            w
        } else {
            arg.clone()
        };
        assert(a[i as int] == arg@);
        assert(q@ == quote_arg(arg@));
        let ghost prev = quoted@;
        quoted.push(q);
        proof {
            assert(views(quoted@) =~= views(prev).push(quote_arg(a[i as int])));
            assert(a.take(i + 1).map_values(|x: Seq<char>| quote_arg(x)) =~= a.take(
                i as int,
            ).map_values(|x: Seq<char>| quote_arg(x)).push(quote_arg(a[i as int])));
        }
        i = i + 1;
    }
    assert(a.take(a.len() as int) =~= a);
    let sep = vec![' '];
    assert(sep@ =~= seq![' ']);
    from_chars(&join_exec(&quoted, &sep))
}

} // verus!

verus! {

// ─── Paths and commands ─────────────────────────────────────────────────────

/// The error of a failed onboarding: its exit code, -1 when it has none.
pub fn onboard_exit_error(code: Option<i32>) -> (r: String)
    ensures
        r@ == "onboard 退出码 "@ + crate::text::dec_signed(
            match code {
                Some(c) => c as int,
                None => -1,
            },
        ),
{
    let c: i32 = match code {
        Some(c) => c,
        None => -1,
    };
    from_chars(&concat(&to_chars("onboard 退出码 "), &crate::text::dec_i64(c as i64)))
}

/// The directories added in front of `PATH` for the embedded terminal: the
/// user's `~/.local/bin`, Homebrew's and `/usr/local/bin`, then the Node.js
/// bin directories found to hold `openclaw`.
pub fn extra_path_dirs(home: &str, found: Vec<String>) -> (r: Vec<String>)
    ensures
        sviews(r@) == seq![home@ + "/.local/bin"@, "/opt/homebrew/bin"@, "/usr/local/bin"@] + sviews(
            found@,
        ),
{
    let mut r: Vec<String> = Vec::new();
    r.push(from_chars(&concat(&to_chars(home), &to_chars("/.local/bin"))));
    r.push(owned("/opt/homebrew/bin"));
    r.push(owned("/usr/local/bin"));
    let ghost head = sviews(r@);
    let mut f = found;
    let ghost fv = f@;
    r.append(&mut f);
    assert(sviews(r@) =~= head + sviews(fv));
    r
}

/// The directories added in front of `PATH` for the card wizards on a Unix:
/// `~/.local/bin`, Homebrew's on macOS, `/usr/local/bin`, then the Node.js bin
/// directories found to hold `openclaw`.
pub fn wizard_extra_path_dirs(home: &str, macos: bool, found: Vec<String>) -> (r: Vec<String>)
    ensures
        sviews(r@) == seq![home@ + "/.local/bin"@] + (if macos {
            seq!["/opt/homebrew/bin"@]
        } else {
            seq![]
        }) + seq!["/usr/local/bin"@] + sviews(found@),
{
    let mut r: Vec<String> = Vec::new();
    r.push(from_chars(&concat(&to_chars(home), &to_chars("/.local/bin"))));
    if macos {
        r.push(owned("/opt/homebrew/bin"));
    }
    r.push(owned("/usr/local/bin"));
    let ghost head = sviews(r@);
    let mut f = found;
    let ghost fv = f@;
    r.append(&mut f);
    assert(sviews(r@) =~= head + sviews(fv));
    r
}

/// The directories added in front of `PATH` for the card wizards on
/// Windows: npm's and nvm's under `APPDATA` (when it is set), then the Node.js
/// directories found to hold `openclaw`.
pub fn windows_wizard_extra_path_dirs(appdata: &Option<String>, found: Vec<String>) -> (r: Vec<String>)
    ensures
        sviews(r@) == (match *appdata {
            Some(a) => seq![a@ + "\\npm"@, a@ + "\\nvm"@],
            None => Seq::<Seq<char>>::empty(),
        }) + sviews(found@),
{
    let mut r: Vec<String> = Vec::new();
    match appdata {
        Some(a) => {
            r.push(from_chars(&concat(&to_chars(a.as_str()), &to_chars("\\npm"))));
            r.push(from_chars(&concat(&to_chars(a.as_str()), &to_chars("\\nvm"))));
        },
        None => {},
    }
    let ghost head = sviews(r@);
    let mut f = found;
    let ghost fv = f@;
    r.append(&mut f);
    assert(sviews(r@) =~= head + sviews(fv));
    r
}

/// The directories of a `PATH`-like list joined with `sep`.
pub fn join_dirs(dirs: &Vec<String>, sep: char) -> (r: String)
    ensures
        r@ == join(sviews(dirs@), seq![sep]),
{
    let mut parts: Vec<Vec<char>> = Vec::new();
    let mut i: usize = 0;
    while i < dirs.len()
        invariant
            i <= dirs@.len(),
            views(parts@) == sviews(dirs@).take(i as int),
        decreases dirs@.len() - i,
    {
        let ghost prev = parts@;
        parts.push(to_chars(dirs[i].as_str()));
        assert(views(parts@) =~= views(prev).push(dirs@[i as int]@));
        assert(sviews(dirs@).take(i + 1) =~= sviews(dirs@).take(i as int).push(dirs@[i as int]@));
        i = i + 1;
    }
    assert(sviews(dirs@).take(dirs@.len() as int) =~= sviews(dirs@));
    let mut s: Vec<char> = Vec::new();
    s.push(sep);
    assert(s@ =~= seq![sep]);
    from_chars(&join_exec(&parts, &s))
}

/// The shell command that runs `command` with the extra directories in
/// front of `PATH`: `export PATH="<extra>:$PATH"; <command>`.
pub fn with_path_command(extra: &str, command: &str) -> (r: String)
    ensures
        r@ == "export PATH=\""@ + extra@ + ":$PATH\"; "@ + command@,
{
    let a = concat(&to_chars("export PATH=\""), &to_chars(extra));
    let b = concat(&a, &to_chars(":$PATH\"; "));
    from_chars(&concat(&b, &to_chars(command)))
}

/// The `PATH` for the wizard's process: the extra directories, the
/// separator, then the current `PATH`; the current one alone when there is
/// nothing extra and `keep_bare` asks for that.
pub fn full_path(extra: &str, sep: char, current: &str, keep_bare: bool) -> (r: String)
    ensures
        r@ == if keep_bare && extra@.len() == 0 {
            current@
        } else {
            extra@ + seq![sep] + current@
        },
{
    let e = to_chars(extra);
    if keep_bare && e.len() == 0 {
        return from_chars(&to_chars(current));
    }
    let mut m = e;
    m.push(sep);
    from_chars(&concat(&m, &to_chars(current)))
}

} // verus!

verus! {

// ─── Laws ───────────────────────────────────────────────────────────────────

/// Whether `flag` stands in `args` directly followed by `value`.
pub open spec fn flag_with(args: Seq<Seq<char>>, flag: Seq<char>, value: Seq<char>) -> bool {
    exists|i: int| 0 <= i && i + 1 < args.len() && #[trigger] args[i] == flag && args[i + 1] == value
}

/// For a custom endpoint, each field the user filled in is passed as its
/// flag followed by its value, whatever the other fields hold: the key
/// always, the base URL exactly when it is not empty, the model id exactly
/// when it is not empty; the endpoint is declared OpenAI-compatible, and no
/// other argument is added.
pub proof fn law_custom_fields_passed(key: Seq<char>, url: Seq<char>, model: Seq<char>)
    ensures
        flag_with(onboard_args("custom-api-key"@, key, url, model), "--auth-choice"@, "custom-api-key"@),
        flag_with(onboard_args("custom-api-key"@, key, url, model), "--custom-api-key"@, key),
        url.len() > 0 ==> flag_with(onboard_args("custom-api-key"@, key, url, model), "--custom-base-url"@, url),
        model.len() > 0 ==> flag_with(onboard_args("custom-api-key"@, key, url, model), "--custom-model-id"@, model),
        flag_with(onboard_args("custom-api-key"@, key, url, model), "--custom-compatibility"@, "openai"@),
        onboard_args("custom-api-key"@, key, url, model).len() == 11 + (if url.len() > 0 { 2int } else { 0 })
            + (if model.len() > 0 { 2int } else { 0 }),
        url.len() == 0 ==> forall|i: int| 0 <= i < onboard_args("custom-api-key"@, key, url, model).len()
            && #[trigger] onboard_args("custom-api-key"@, key, url, model)[i] == "--custom-base-url"@
            ==> "--custom-base-url"@ == key || "--custom-base-url"@ == model,
        model.len() == 0 ==> forall|i: int| 0 <= i < onboard_args("custom-api-key"@, key, url, model).len()
            && #[trigger] onboard_args("custom-api-key"@, key, url, model)[i] == "--custom-model-id"@
            ==> "--custom-model-id"@ == key || "--custom-model-id"@ == url,
{
    reveal_strlit("custom-api-key");
    reveal_strlit("anthropic-api-key");
    reveal_strlit("openai-api-key");
    reveal_strlit("openclaw");
    reveal_strlit("onboard");
    reveal_strlit("--non-interactive");
    reveal_strlit("--auth-choice");
    reveal_strlit("--secret-input-mode");
    reveal_strlit("plaintext");
    reveal_strlit("--custom-api-key");
    reveal_strlit("--custom-base-url");
    reveal_strlit("--custom-model-id");
    reveal_strlit("--custom-compatibility");
    reveal_strlit("openai");
    let a = onboard_args("custom-api-key"@, key, url, model);
    let head = seq![
        "openclaw"@,
        "onboard"@,
        "--non-interactive"@,
        "--auth-choice"@,
        "custom-api-key"@,
        "--secret-input-mode"@,
        "plaintext"@,
        "--custom-api-key"@,
        key,
    ];
    let mid = (if url.len() > 0 {
        seq!["--custom-base-url"@, url]
    } else {
        seq![]
    }) + (if model.len() > 0 {
        seq!["--custom-model-id"@, model]
    } else {
        seq![]
    });
    let tail = seq!["--custom-compatibility"@, "openai"@];
    let base = seq![
        "openclaw"@,
        "onboard"@,
        "--non-interactive"@,
        "--auth-choice"@,
        "custom-api-key"@,
        "--secret-input-mode"@,
        "plaintext"@,
    ];
    assert("custom-api-key"@.len() == 14);
    assert("anthropic-api-key"@.len() == 17);
    assert("custom-api-key"@ != "anthropic-api-key"@);
    assert("custom-api-key"@[0] != "openai-api-key"@[0]);
    assert("custom-api-key"@ != "openai-api-key"@);
    let ua = if url.len() > 0 {
        seq!["--custom-base-url"@, url]
    } else {
        seq![]
    };
    let ma = if model.len() > 0 {
        seq!["--custom-model-id"@, model]
    } else {
        seq![]
    };
    assert(a == base + seq!["--custom-api-key"@, key] + ua + ma + tail);
    assert(mid == ua + ma);
    assert(base + seq!["--custom-api-key"@, key] =~= head);
    assert(a =~= head + mid + tail);
    assert(a[3] == "--auth-choice"@ && a[4] == "custom-api-key"@);
    assert(a[7] == "--custom-api-key"@ && a[8] == key);
    if url.len() > 0 {
        assert(a[9] == "--custom-base-url"@ && a[10] == url);
    }
    if model.len() > 0 {
        let u: int = if url.len() > 0 { 2 } else { 0 };
        assert(a[9 + u] == "--custom-model-id"@ && a[10 + u] == model);
    }
    assert(a[a.len() - 2] == "--custom-compatibility"@ && a[a.len() - 1] == "openai"@);
    let fu = "--custom-base-url"@;
    let fm = "--custom-model-id"@;
    assert(fu[2] != "--non-interactive"@[2] && fm[2] != "--non-interactive"@[2]);
    assert(fu[9] != fm[9]);
    assert forall|k: int| 0 <= k < 8 implies #[trigger] head[k] != fu && head[k] != fm by {
        if k == 2 {
            assert(head[k] == "--non-interactive"@);
        } else {
            assert(head[k].len() != 17);
        }
    }
    assert(tail[0].len() != 17 && tail[1].len() != 17);
    assert forall|i: int| 0 <= i < a.len() && #[trigger] a[i] == fu && url.len() == 0
        implies fu == key || fu == model by {
        if i < 8 {
            assert(a[i] == head[i]);
        } else if i == 8 {
        } else if i < a.len() - 2 {
            assert(a[i] == mid[i - 9]);
            assert(mid =~= ma);
        } else {
            assert(a[i] == tail[i - (a.len() - 2)]);
        }
    }
    assert forall|i: int| 0 <= i < a.len() && #[trigger] a[i] == fm && model.len() == 0
        implies fm == key || fm == url by {
        if i < 8 {
            assert(a[i] == head[i]);
        } else if i == 8 {
        } else if i < a.len() - 2 {
            assert(a[i] == mid[i - 9]);
            assert(mid =~= ua);
        } else {
            assert(a[i] == tail[i - (a.len() - 2)]);
        }
    }
}

/// The keys a wizard action can name, in this order: enter, space, the
/// arrows up, down, right, left, then `y` and `n`.
pub open spec fn named_keys() -> Seq<Seq<char>> {
    seq!["enter"@, "space"@, "up"@, "down"@, "right"@, "left"@, "y"@, "n"@]
}

/// The ANSI cursor key sequence `ESC [ <final>`.
pub open spec fn cursor_key(final_byte: u8) -> Seq<u8> {
    seq![0x1bu8, 0x5bu8, final_byte]
}

proof fn lemma_named_keys_bytes()
    ensures
        forall|k: int| 0 <= k < 8 ==> #[trigger] onboard_action_bytes(named_keys()[k]) is Some,
        forall|k: int| 2 <= k < 6 ==> #[trigger] onboard_action_bytes(named_keys()[k]) == Some(
            cursor_key((65 + (k - 2)) as u8),
        ),
        onboard_action_bytes(named_keys()[0]) == Some(seq![13u8]),
        onboard_action_bytes(named_keys()[1]) == Some(seq![32u8]),
        onboard_action_bytes(named_keys()[6]) == Some(seq![121u8]),
        onboard_action_bytes(named_keys()[7]) == Some(seq![110u8]),
{
    reveal_strlit("enter");
    reveal_strlit("space");
    reveal_strlit("up");
    reveal_strlit("down");
    reveal_strlit("right");
    reveal_strlit("left");
    reveal_strlit("y");
    reveal_strlit("n");
    let ks = named_keys();
    assert(ks[0] == "enter"@ && ks[1] == "space"@ && ks[2] == "up"@ && ks[3] == "down"@);
    assert(ks[4] == "right"@ && ks[5] == "left"@ && ks[6] == "y"@ && ks[7] == "n"@);
    assert("enter"@[0] == 'e' && "space"@[0] == 's' && "up"@[0] == 'u' && "down"@[0] == 'd');
    assert("right"@[0] == 'r' && "left"@[0] == 'l' && "y"@[0] == 'y' && "n"@[0] == 'n');
    assert(cursor_key(65) =~= seq![0x1bu8, 91u8, 65u8]);
    assert(cursor_key(66) =~= seq![0x1bu8, 91u8, 66u8]);
    assert(cursor_key(67) =~= seq![0x1bu8, 91u8, 67u8]);
    assert(cursor_key(68) =~= seq![0x1bu8, 91u8, 68u8]);
}

/// Each arrow sends its own ANSI cursor key: up `ESC [ A`, down `ESC [ B`,
/// right `ESC [ C`, left `ESC [ D`; no two named keys send the same bytes;
/// and the onboarding wizard sends for every action the agent wizard knows
/// exactly what the agent wizard sends.
pub proof fn law_keys_distinct_and_shared(a: Seq<char>)
    ensures
        forall|k: int| 2 <= k < 6 ==> #[trigger] onboard_action_bytes(named_keys()[k]) == Some(
            cursor_key((65 + (k - 2)) as u8),
        ),
        forall|i: int, j: int|
            0 <= i < j < 8 ==> #[trigger] onboard_action_bytes(named_keys()[i]) != #[trigger] onboard_action_bytes(
                named_keys()[j],
            ),
        agent_action_bytes(a) is Some ==> onboard_action_bytes(a) == agent_action_bytes(a),
{
    lemma_named_keys_bytes();
    assert forall|i: int, j: int|
        0 <= i < j < 8 implies #[trigger] onboard_action_bytes(named_keys()[i]) != #[trigger] onboard_action_bytes(
            named_keys()[j],
        ) by {
        let bi = onboard_action_bytes(named_keys()[i]);
        let bj = onboard_action_bytes(named_keys()[j]);
        if 2 <= i < 6 && 2 <= j < 6 {
            assert(bi.unwrap()[2] != bj.unwrap()[2]);
        } else if 2 <= i < 6 || 2 <= j < 6 {
            assert(bi.unwrap().len() != bj.unwrap().len());
        } else {
            assert(bi.unwrap()[0] != bj.unwrap()[0]);
        }
    }
    reveal_strlit("enter");
    reveal_strlit("space");
    reveal_strlit("up");
    reveal_strlit("down");
    reveal_strlit("right");
    reveal_strlit("left");
    reveal_strlit("y");
    reveal_strlit("n");
    reveal_strlit("submit:");
    reveal_strlit("text:");
    if agent_action_bytes(a) is Some && has_prefix(a, "submit:"@) {
        assert(a.take(7)[0] == a[0]);
        assert(a[0] == 's');
        assert("y"@[0] == 'y' && "n"@[0] == 'n');
        assert(a != "y"@ && a != "n"@);
        assert(!has_prefix(a, "text:"@)) by {
            if has_prefix(a, "text:"@) {
                assert(a.take(5)[0] == 't');
            }
        }
    }
}

/// Typing and submitting agree: `submit:<t>` sends what `text:<t>` sends,
/// then what `enter` sends; `text:<t>` sends `t` in UTF-8.
pub proof fn law_submit_is_text_then_enter(t: Seq<char>)
    ensures
        onboard_action_bytes("text:"@ + t) == Some(encode_utf8(t)),
        onboard_action_bytes("submit:"@ + t) == Some(
            onboard_action_bytes("text:"@ + t).unwrap() + onboard_action_bytes("enter"@).unwrap(),
        ),
{
    reveal_strlit("enter");
    reveal_strlit("space");
    reveal_strlit("up");
    reveal_strlit("down");
    reveal_strlit("right");
    reveal_strlit("left");
    reveal_strlit("y");
    reveal_strlit("n");
    reveal_strlit("submit:");
    reveal_strlit("text:");
    let x = "text:"@ + t;
    let s = "submit:"@ + t;
    assert(x[0] == 't' && x[1] == 'e' && x[2] == 'x');
    assert(s[0] == 's' && s.len() >= 7);
    assert(x.take(5) =~= "text:"@);
    assert(x.skip(5) =~= t);
    assert(s.take(7) =~= "submit:"@);
    assert(s.skip(7) =~= t);
    assert(!has_prefix(s, "text:"@)) by {
        if has_prefix(s, "text:"@) {
            assert(s.take(5)[0] == 's');
        }
    }
    assert("enter"@[0] == 'e' && "space"@[0] == 's' && "up"@[0] == 'u' && "down"@[0] == 'd');
    assert("right"@[0] == 'r' && "left"@[0] == 'l' && "y"@[0] == 'y' && "n"@[0] == 'n');
    assert(x != "enter"@ && x != "space"@ && x != "up"@ && x != "down"@ && x != "right"@ && x
        != "left"@ && x != "y"@ && x != "n"@);
    assert(s != "enter"@ && s != "space"@ && s != "up"@ && s != "down"@ && s != "right"@ && s
        != "left"@ && s != "y"@ && s != "n"@);
    assert(encode_utf8(t).push(13u8) =~= encode_utf8(t) + seq![13u8]);
}

} // verus!
