//! Agents: the `openclaw agents add` wizard, driven through a pseudo-terminal
//! and read back with the screen parser of [`crate::wizard`], plus the naming
//! rules of agent workspaces.

use vstd::prelude::*;
use vstd::utf8::encode_utf8;
use crate::text::{
    char_is_alphanumeric, concat, from_chars, has_prefix, is_alnum, is_ascii_alnum, iviews, opt_view, slice_from,
    starts_with_seq, str_is, sviews, to_chars, utf8_bytes,
};
use crate::wizard::{
    any_contains, any_contains_exec, any_start, any_start_exec, body_prompt, body_prompt_exec,
    done_prompt, last_start, last_start_exec, outro_text_exec, screen_lines, strip_cursor,
    strip_cursor_exec, trimmed_lines, after_mark, after_mark_exec, PromptView, prompt_key,
    render_screen, reports, vt_screen, PromptTracker,
};

verus! {

/// An agent found on disk.
pub struct AgentInfo {
    pub name: String,
    pub workspace: String,
    pub description: Option<String>,
}

/// A wizard prompt as the UI shows it.
pub struct WizardPrompt {
    pub prompt_type: String,
    pub question: String,
    pub options: Vec<String>,
    pub selected: usize,
    pub checked: Vec<usize>,
    pub error: Option<String>,
    /// For input and password prompts: the value the TUI has already filled in.
    pub current_value: Option<String>,
}

impl View for WizardPrompt {
    type V = PromptView;

    open spec fn view(&self) -> PromptView {
        PromptView {
            kind: self.prompt_type@,
            question: self.question@,
            options: sviews(self.options@),
            selected: self.selected as int,
            checked: iviews(self.checked@),
            error: opt_view(self.error),
            current_value: opt_view(self.current_value),
        }
    }
}

} // verus!

verus! {

// ─── Screen parsing ─────────────────────────────────────────────────────────

/// Any option marker of a select or multiselect prompt.
pub open spec fn any_option_marker(ts: Seq<Seq<char>>) -> bool {
    any_contains(ts, '○') || any_contains(ts, '●') || any_contains(ts, '◻') || any_contains(ts, '◼')
}

/// The prompt the agent wizard shows on `screen` with the cursor on row `cr`.
///
/// The wizard is done when an outro line is on screen and neither an active
/// prompt nor an option marker is.  Otherwise the last active prompt gives the
/// question and its body starts below it; with no active prompt the question
/// is empty and the whole screen is the body.
pub open spec fn agent_screen_prompt(screen: Seq<char>, cr: int) -> PromptView {
    let ts = trimmed_lines(screen);
    if any_start(ts, '└') && !any_start(ts, '◆') && !any_option_marker(ts) {
        done_prompt(ts)
    } else {
        match last_start(ts, '◆') {
            Some(i) => body_prompt(ts, after_mark(ts[i], '◆'), i + 1, cr, true),
            None => body_prompt(ts, seq![], 0, cr, true),
        }
    }
}

/// The cursor glyphs (`█▉▊▋│`) removed from an input line, then trimmed.
pub fn strip_cursor_chars(s: &str) -> (r: String)
    ensures
        r@ == strip_cursor(s@),
{
    let v = strip_cursor_exec(&to_chars(s));
    from_chars(&v)
}

/// Reads the current prompt off a rendered screen of the agent wizard.
pub fn parse_screen_for_prompt(screen_text: &str, cursor_row: u16) -> (r: Option<WizardPrompt>)
    ensures
        r matches Some(p) && p@ == agent_screen_prompt(screen_text@, cursor_row as int),
{
    let ts = screen_lines(screen_text);
    let has_outro = any_start_exec(&ts, '└');
    if has_outro {
        let has_active = any_start_exec(&ts, '◆');
        let has_markers = any_contains_exec(&ts, '○') || any_contains_exec(&ts, '●')
            || any_contains_exec(&ts, '◻') || any_contains_exec(&ts, '◼');
        if !has_active && !has_markers {
            let q = outro_text_exec(&ts);
            let mut options: Vec<String> = Vec::new();
            let mut checked: Vec<usize> = Vec::new();
            proof {
                assert(sviews(options@) =~= Seq::<Seq<char>>::empty());
                assert(iviews(checked@) =~= Seq::<int>::empty());
            }
            return Some(
                WizardPrompt {
                    prompt_type: crate::text::owned("done"),
                    question: from_chars(&q),
                    options,
                    selected: 0,
                    checked,
                    error: None,
                    current_value: None,
                },
            );
        }
    }
    match last_start_exec(&ts, '◆') {
        Some(idx) => {
            let q = after_mark_exec(&ts[idx], '◆');
            Some(body_prompt_exec(&ts, q, idx + 1, cursor_row, true))
        },
        None => {
            let q: Vec<char> = Vec::new();
            assert(q@ =~= Seq::<char>::empty());
            Some(body_prompt_exec(&ts, q, 0, cursor_row, true))
        },
    }
}

} // verus!

verus! {

// ─── Shell quoting ──────────────────────────────────────────────────────────

/// A character that may stand unquoted in a shell word.
/// (`char::is_alphanumeric`, which on ASCII holds of letters and digits only.)
pub open spec fn is_plain_char(c: char) -> bool {
    (if c <= '\x7f' {
        is_ascii_alnum(c)
    } else {
        is_alnum(c)
    }) || c == '-' || c == '_'
}

/// `s` with each `'` written as `'\''`.
pub open spec fn escape_quotes(s: Seq<char>) -> Seq<char>
    decreases s.len(),
{
    if s.len() == 0 {
        seq![]
    } else if s.last() == '\'' {
        escape_quotes(s.drop_last()) + seq!['\'', '\\', '\'', '\'']
    } else {
        escape_quotes(s.drop_last()).push(s.last())
    }
}

/// The shell word for `s`: `s` itself when every character is alphanumeric,
/// `-` or `_`; otherwise `s` in single quotes with each `'` written `'\''`.
pub open spec fn shell_word(s: Seq<char>) -> Seq<char> {
    if forall|i: int| 0 <= i < s.len() ==> is_plain_char(#[trigger] s[i]) {
        s
    } else {
        seq!['\''] + escape_quotes(s) + seq!['\'']
    }
}

/// Quotes `s` for a POSIX shell command line.
pub fn shell_escape(s: &str) -> (r: String)
    ensures
        r@ == shell_word(s@),
{
    let c = to_chars(s);
    let mut plain = true;
    let mut i: usize = 0;
    while i < c.len()
        invariant
            i <= c@.len(),
            c@ == s@,
            plain == forall|j: int| 0 <= j < i ==> is_plain_char(#[trigger] c@[j]),
        decreases c@.len() - i,
    {
        let ch = c[i];
        if !(char_is_alphanumeric(ch) || ch == '-' || ch == '_') {
            plain = false;
        }
        i = i + 1;
    }
    if plain {
        return from_chars(&c);
    }
    let mut out: Vec<char> = Vec::new();
    out.push('\'');
    let mut k: usize = 0;
    while k < c.len()
        invariant
            k <= c@.len(),
            c@ == s@,
            out@ == seq!['\''] + escape_quotes(c@.take(k as int)),
        decreases c@.len() - k,
    {
        proof {
            assert(c@.take(k + 1).drop_last() =~= c@.take(k as int));
        }
        if c[k] == '\'' {
            out.push('\'');
            out.push('\\');
            out.push('\'');
            out.push('\'');
        } else {
            out.push(c[k]);
        }
        k = k + 1;
        assert(out@ =~= seq!['\''] + escape_quotes(c@.take(k as int)));
    }
    out.push('\'');
    assert(c@.take(c@.len() as int) =~= c@);
    from_chars(&out)
}

/// `t` put before what was read, when the reading succeeded.
pub open spec fn read_after(t: Seq<char>, o: Option<Seq<char>>) -> Option<Seq<char>> {
    match o {
        Some(x) => Some(t + x),
        None => None,
    }
}

/// How a POSIX shell reads one word, after quote removal, from `w`, outside
/// single quotes (`quoted` false) or inside them.  Outside quotes letters,
/// digits, `-` and `_` stand for themselves, `'` opens a quote and `\` keeps
/// the next character; any other character (a blank, an operator, the start
/// of an expansion) makes it something other than one plain word, and so
/// does a quote left open: then nothing.  Inside quotes every character
/// stands for itself up to the closing `'`.
pub open spec fn shell_read(w: Seq<char>, quoted: bool) -> Option<Seq<char>>
    decreases w.len(),
{
    if w.len() == 0 {
        if quoted {
            None
        } else {
            Some(Seq::empty())
        }
    } else {
        let c = w[0];
        let rest = w.drop_first();
        if quoted {
            if c == '\'' {
                shell_read(rest, false)
            } else {
                read_after(seq![c], shell_read(rest, true))
            }
        } else if c == '\'' {
            shell_read(rest, true)
        } else if c == '\\' {
            if rest.len() == 0 {
                None
            } else {
                read_after(seq![rest[0]], shell_read(rest.drop_first(), false))
            }
        } else if is_plain_char(c) {
            read_after(seq![c], shell_read(rest, false))
        } else {
            None
        }
    }
}

proof fn lemma_escape_quotes_concat(a: Seq<char>, b: Seq<char>)
    ensures
        escape_quotes(a + b) == escape_quotes(a) + escape_quotes(b),
    decreases b.len(),
{
    if b.len() == 0 {
        assert(a + b =~= a);
        assert(escape_quotes(a) + escape_quotes(b) =~= escape_quotes(a));
    } else {
        lemma_escape_quotes_concat(a, b.drop_last());
        assert((a + b).drop_last() =~= a + b.drop_last());
        assert((a + b).last() == b.last());
        if b.last() == '\'' {
            assert(escape_quotes(a) + escape_quotes(b) =~= escape_quotes(a) + escape_quotes(b.drop_last())
                + seq!['\'', '\\', '\'', '\'']);
        } else {
            assert(escape_quotes(a) + escape_quotes(b) =~= (escape_quotes(a) + escape_quotes(b.drop_last())).push(
                b.last(),
            ));
        }
    }
}

/// Inside quotes, the escaped text reads back as itself.
proof fn lemma_read_escaped(t: Seq<char>, tail: Seq<char>)
    ensures
        shell_read(escape_quotes(t) + tail, true) == read_after(t, shell_read(tail, true)),
    decreases t.len(),
{
    if t.len() == 0 {
        assert(escape_quotes(t) + tail =~= tail);
        match shell_read(tail, true) {
            Some(x) => assert(t + x =~= x),
            None => {},
        }
    } else {
        let c = t[0];
        let u = t.drop_first();
        lemma_escape_quotes_concat(seq![c], u);
        assert(seq![c] + u =~= t);
        lemma_read_escaped(u, tail);
        let x = escape_quotes(u) + tail;
        assert(seq![c].drop_last() =~= Seq::<char>::empty());
        assert(seq![c].last() == c);
        assert(escape_quotes(Seq::<char>::empty()) == Seq::<char>::empty());
        if c == '\'' {
            assert(escape_quotes(seq![c]) =~= seq!['\'', '\\', '\'', '\'']);
        } else {
            assert(escape_quotes(seq![c]) =~= seq![c]);
        }
        if c == '\'' {
            let w = escape_quotes(t) + tail;
            assert(w =~= seq!['\'', '\\', '\'', '\''] + x);
            assert(w.drop_first() =~= seq!['\\', '\'', '\''] + x);
            assert(w.drop_first().drop_first() =~= seq!['\'', '\''] + x);
            assert(w.drop_first().drop_first().drop_first() =~= seq!['\''] + x);
            assert((seq!['\''] + x).drop_first() =~= x);
            let w1 = w.drop_first();
            let w3 = w1.drop_first().drop_first();
            assert(w[0] == '\'' && w1[0] == '\\' && w1.drop_first()[0] == '\'' && w3[0] == '\'');
            assert(shell_read(w3, false) == shell_read(x, true));
            assert(shell_read(w1, false) == read_after(seq!['\''], shell_read(w3, false)));
            assert(shell_read(w, true) == shell_read(w1, false));
        } else {
            let w = escape_quotes(t) + tail;
            assert(w =~= seq![c] + x);
            assert(w.drop_first() =~= x);
            assert(w[0] == c);
            assert(shell_read(w, true) == read_after(seq![c], shell_read(x, true)));
        }
        match shell_read(tail, true) {
            Some(y) => assert(seq![c] + (u + y) =~= t + y),
            None => {},
        }
    }
}

/// Outside quotes, a word of plain characters reads back as itself.
proof fn lemma_read_plain(t: Seq<char>)
    requires
        forall|i: int| 0 <= i < t.len() ==> is_plain_char(#[trigger] t[i]),
    ensures
        shell_read(t, false) == Some(t),
    decreases t.len(),
{
    if t.len() > 0 {
        let u = t.drop_first();
        assert forall|i: int| 0 <= i < u.len() implies is_plain_char(#[trigger] u[i]) by {
            assert(u[i] == t[i + 1]);
        }
        lemma_read_plain(u);
        assert(is_plain_char(t[0]));
        assert(t[0] != '\'' && t[0] != '\\');
        assert(seq![t[0]] + u =~= t);
        assert(shell_read(t, false) == read_after(seq![t[0]], shell_read(u, false)));
    }
}

/// A POSIX shell reads the quoted word back as exactly `s`, as one word with
/// nothing expanded or cut; a name of letters, digits, `-` and `_` is left
/// as it is.
pub proof fn law_shell_word_reads_back(s: Seq<char>)
    requires
        s.len() > 0,
    ensures
        shell_read(shell_word(s), false) == Some(s),
        (forall|i: int| 0 <= i < s.len() ==> is_plain_char(#[trigger] s[i])) ==> shell_word(s) == s,
{
    if forall|i: int| 0 <= i < s.len() ==> is_plain_char(#[trigger] s[i]) {
        lemma_read_plain(s);
    } else {
        let w = shell_word(s);
        let close: Seq<char> = seq!['\''];
        assert(w =~= seq!['\''] + (escape_quotes(s) + close));
        assert(w.drop_first() =~= escape_quotes(s) + close);
        lemma_read_escaped(s, close);
        assert(close.drop_first() =~= Seq::<char>::empty());
        assert(shell_read(Seq::<char>::empty(), false) == Some(Seq::<char>::empty()));
        assert(s + Seq::<char>::empty() =~= s);
    }
}

// ─── Key actions ────────────────────────────────────────────────────────────

/// The bytes a wizard action sends to the agent wizard's terminal: `enter`,
/// `space` and the four arrows are keys; `submit:<text>` types the text and
/// presses enter; `text:<text>` types the text.  Anything else is unknown.
pub open spec fn agent_action_bytes(a: Seq<char>) -> Option<Seq<u8>> {
    if a == "enter"@ {
        Some(seq![13u8])
    } else if a == "space"@ {
        Some(seq![32u8])
    } else if a == "up"@ {
        Some(seq![0x1bu8, 91u8, 65u8])
    } else if a == "down"@ {
        Some(seq![0x1bu8, 91u8, 66u8])
    } else if a == "right"@ {
        Some(seq![0x1bu8, 91u8, 67u8])
    } else if a == "left"@ {
        Some(seq![0x1bu8, 91u8, 68u8])
    } else if has_prefix(a, "submit:"@) {
        Some(encode_utf8(a.skip("submit:"@.len() as int)).push(13u8))
    } else if has_prefix(a, "text:"@) {
        Some(encode_utf8(a.skip("text:"@.len() as int)))
    } else {
        None
    }
}

/// The error for an action that is not known.
pub open spec fn unknown_action(a: Seq<char>) -> Seq<char> {
    "未知 action："@ + a
}

pub fn unknown_action_exec(a: &Vec<char>) -> (r: String)
    ensures
        r@ == unknown_action(a@),
{
    from_chars(&concat(&to_chars("未知 action："), a))
}

/// The bytes after a prefix of `a`, with enter appended when `enter` holds.
pub fn bytes_after(a: &Vec<char>, p: &Vec<char>, enter: bool) -> (r: Vec<u8>)
    requires
        has_prefix(a@, p@),
    ensures
        enter ==> r@ == encode_utf8(a@.skip(p@.len() as int)).push(13u8),
        !enter ==> r@ == encode_utf8(a@.skip(p@.len() as int)),
{
    let rest = slice_from(a, p.len());
    let mut b = utf8_bytes(&rest);
    if enter {
        b.push(13u8);
    }
    b
}

/// Maps a wizard action to the bytes written to the terminal.
pub fn action_to_bytes(action: &str) -> (r: Result<Vec<u8>, String>)
    ensures
        match (r, agent_action_bytes(action@)) {
            (Ok(b), Some(e)) => b@ == e,
            (Err(m), None) => m@ == unknown_action(action@),
            _ => false,
        },
{
    let a = to_chars(action);
    if str_is(&a, "enter") {
        Ok(vec![13u8])
    } else if str_is(&a, "space") {
        Ok(vec![32u8])
    } else if str_is(&a, "up") {
        Ok(vec![0x1bu8, 91u8, 65u8])
    } else if str_is(&a, "down") {
        Ok(vec![0x1bu8, 91u8, 66u8])
    } else if str_is(&a, "right") {
        Ok(vec![0x1bu8, 91u8, 67u8])
    } else if str_is(&a, "left") {
        Ok(vec![0x1bu8, 91u8, 68u8])
    } else {
        let sub = to_chars("submit:");
        let txt = to_chars("text:");
        if starts_with_seq(&a, &sub) {
            Ok(bytes_after(&a, &sub, true))
        } else if starts_with_seq(&a, &txt) {
            Ok(bytes_after(&a, &txt, false))
        } else {
            Err(unknown_action_exec(&a))
        }
    }
}

} // verus!

verus! {

// ─── The wizard session ─────────────────────────────────────────────────────

/// Rows of the wizard's pseudo-terminal.
pub const SCREEN_ROWS: u16 = 30;

/// Columns of the wizard's pseudo-terminal.
pub const SCREEN_COLS: u16 = 120;

/// A rendered screen, as sent to the UI.
pub struct WizardScreen {
    pub text: String,
    pub cursor_row: u16,
}

/// What the agent wizard's reader has seen: all output of the terminal so
/// far, and the last prompt reported.
pub struct AgentWizardSession {
    pub history: Vec<u8>,
    pub tracker: PromptTracker,
}

impl AgentWizardSession {
    pub fn new() -> (r: Self)
        ensures
            r.history@.len() == 0,
            r.tracker.last is None,
    {
        AgentWizardSession { history: Vec::new(), tracker: PromptTracker::new() }
    }

    /// Takes in output of the terminal.
    pub fn feed(&mut self, data: &[u8])
        ensures
            final(self).history@ == old(self).history@ + data@,
            final(self).tracker == old(self).tracker,
    {
        let mut i: usize = 0;
        while i < data.len()
            invariant
                i <= data@.len(),
                self.history@ == old(self).history@ + data@.take(i as int),
                self.tracker == old(self).tracker,
            decreases data@.len() - i,
        {
            self.history.push(data[i]);
            i = i + 1;
            assert(self.history@ =~= old(self).history@ + data@.take(i as int));
        }
        assert(data@.take(data@.len() as int) =~= data@);
    }

    /// Renders the screen and reads the prompt off it; the prompt is returned
    /// when it differs from the last one reported.
    pub fn refresh(&mut self) -> (r: (WizardScreen, Option<WizardPrompt>))
        ensures
            (r.0.text@, r.0.cursor_row) == vt_screen(old(self).history@, SCREEN_ROWS, SCREEN_COLS),
            final(self).history == old(self).history,
            ({
                let p = agent_screen_prompt(r.0.text@, r.0.cursor_row as int);
                &&& opt_view(final(self).tracker.last) == Some(prompt_key(p))
                &&& (r.1 is Some <==> reports(opt_view(old(self).tracker.last), p))
                &&& (r.1 matches Some(q) ==> q@ == p)
            }),
    {
        let (text, cursor_row) = render_screen(self.history.as_slice(), SCREEN_ROWS, SCREEN_COLS);
        let parsed = parse_screen_for_prompt(text.as_str(), cursor_row);
        let shown = match parsed {
            Some(p) => {
                if self.tracker.observe(&p) {
                    Some(p)
                } else {
                    None
                }
            },
            None => None,
        };
        (WizardScreen { text, cursor_row }, shown)
    }
}

} // verus!

verus! {

// ─── Agent workspaces ───────────────────────────────────────────────────────

impl View for AgentInfo {
    type V = (Seq<char>, Seq<char>, Option<Seq<char>>);

    open spec fn view(&self) -> (Seq<char>, Seq<char>, Option<Seq<char>>) {
        (self.name@, self.workspace@, opt_view(self.description))
    }
}

/// The directory under `~/.openclaw` of the agent `work`: `workspace` for the
/// default agent (empty or `default`), `workspace-<work>` otherwise.
pub open spec fn agent_dir_name_spec(work: Seq<char>) -> Seq<char> {
    if work.len() == 0 || work == "default"@ {
        "workspace"@
    } else {
        "workspace-"@ + work
    }
}

pub fn agent_dir_name(work: &str) -> (r: String)
    ensures
        r@ == agent_dir_name_spec(work@),
{
    let w = to_chars(work);
    if w.len() == 0 || str_is(&w, "default") {
        crate::text::owned("workspace")
    } else {
        from_chars(&concat(&to_chars("workspace-"), &w))
    }
}

/// The agent whose workspace is the directory `dir` (the default agent for
/// `workspace`, `<work>` for `workspace-<work>`), when it holds `IDENTITY.md`.
pub open spec fn agent_of_dir(dir: Seq<char>, has_identity: bool) -> Option<
    (Seq<char>, Seq<char>, Option<Seq<char>>),
> {
    let work = if dir == "workspace"@ {
        Some(Seq::<char>::empty())
    } else if has_prefix(dir, "workspace-"@) {
        Some(dir.skip("workspace-"@.len() as int))
    } else {
        None
    };
    match work {
        Some(w) => if has_identity {
            Some((if w.len() == 0 { "default"@ } else { w }, w, None))
        } else {
            None
        },
        None => None,
    }
}

/// A directory entry of `~/.openclaw` as the agent listing sees it.
pub struct DirInfo {
    pub name: String,
    pub is_dir: bool,
    /// The directory holds `IDENTITY.md`.
    pub has_identity: bool,
}

pub fn agent_from_dir(dir: &str, has_identity: bool) -> (r: Option<AgentInfo>)
    ensures
        match (r, agent_of_dir(dir@, has_identity)) {
            (Some(a), Some(v)) => a@ == v,
            (None, None) => true,
            _ => false,
        },
{
    let d = to_chars(dir);
    let pre = to_chars("workspace-");
    let work: Vec<char> = if str_is(&d, "workspace") {
        let e: Vec<char> = Vec::new();
        assert(e@ =~= Seq::<char>::empty());
        e
    } else if starts_with_seq(&d, &pre) {
        slice_from(&d, pre.len())
    } else {
        return None;
    };
    if !has_identity {
        return None;
    }
    let name = if work.len() == 0 {
        crate::text::owned("default")
    } else {
        from_chars(&work)
    };
    Some(AgentInfo { name, workspace: from_chars(&work), description: None })
}

/// The agents of a listing of `~/.openclaw`, in listing order.
pub open spec fn agents_of(entries: Seq<(Seq<char>, bool, bool)>) -> Seq<
    (Seq<char>, Seq<char>, Option<Seq<char>>),
>
    decreases entries.len(),
{
    if entries.len() == 0 {
        seq![]
    } else {
        let e = entries.last();
        let prev = agents_of(entries.drop_last());
        if e.1 {
            match agent_of_dir(e.0, e.2) {
                Some(a) => prev.push(a),
                None => prev,
            }
        } else {
            prev
        }
    }
}

pub open spec fn dir_views(v: Seq<DirInfo>) -> Seq<(Seq<char>, bool, bool)> {
    v.map_values(|d: DirInfo| (d.name@, d.is_dir, d.has_identity))
}

pub open spec fn agent_views(v: Seq<AgentInfo>) -> Seq<(Seq<char>, Seq<char>, Option<Seq<char>>)> {
    v.map_values(|a: AgentInfo| a@)
}

/// The agents found among the entries of `~/.openclaw`.
pub fn collect_agents(entries: &Vec<DirInfo>) -> (r: Vec<AgentInfo>)
    ensures
        agent_views(r@) == agents_of(dir_views(entries@)),
{
    let mut r: Vec<AgentInfo> = Vec::new();
    let mut i: usize = 0;
    while i < entries.len()
        invariant
            i <= entries@.len(),
            agent_views(r@) == agents_of(dir_views(entries@).take(i as int)),
        decreases entries@.len() - i,
    {
        proof {
            assert(dir_views(entries@).take(i + 1).drop_last() =~= dir_views(entries@).take(
                i as int,
            ));
        }
        let e = &entries[i];
        if e.is_dir {
            match agent_from_dir(e.name.as_str(), e.has_identity) {
                Some(a) => {
                    let ghost prev = r@;
                    r.push(a);
                    assert(agent_views(r@) =~= agent_views(prev).push(a@));
                },
                None => {},
            }
        }
        i = i + 1;
    }
    assert(dir_views(entries@).take(entries@.len() as int) =~= dir_views(entries@));
    r
}

/// The files an agent workspace may hold.
pub open spec fn agent_file_names() -> Seq<Seq<char>> {
    seq!["IDENTITY.md"@, "USER.md"@, "SOUL.md"@]
}

pub fn agent_files() -> (r: Vec<String>)
    ensures
        sviews(r@) == agent_file_names(),
{
    let mut r: Vec<String> = Vec::new();
    r.push(crate::text::owned("IDENTITY.md"));
    r.push(crate::text::owned("USER.md"));
    r.push(crate::text::owned("SOUL.md"));
    assert(sviews(r@) =~= agent_file_names());
    r
}

/// Whether `name` is one of the agent files; only those may be read or written.
pub fn is_agent_file(name: &str) -> (r: bool)
    ensures
        r == agent_file_names().contains(name@),
{
    let n = to_chars(name);
    let r = str_is(&n, "IDENTITY.md") || str_is(&n, "USER.md") || str_is(&n, "SOUL.md");
    proof {
        if agent_file_names().contains(name@) {
            let k = choose|k: int| 0 <= k < 3 && agent_file_names()[k] == name@;
            assert(k == 0 || k == 1 || k == 2);
        }
        if r {
            if n@ == "IDENTITY.md"@ {
                assert(agent_file_names()[0] == name@);
            } else if n@ == "USER.md"@ {
                assert(agent_file_names()[1] == name@);
            } else {
                assert(agent_file_names()[2] == name@);
            }
        }
    }
    r
}

/// The error for a file name that is not an agent file.
pub fn bad_agent_file(name: &str) -> (r: String)
    ensures
        r@ == "不允许的文件名："@ + name@,
{
    from_chars(&concat(&to_chars("不允许的文件名："), &to_chars(name)))
}

} // verus!

verus! {

/// The command that adds an agent: `openclaw agents add <work>`, the work
/// name quoted for the shell.
pub fn agent_add_command(work: &str) -> (r: String)
    ensures
        r@ == "openclaw agents add "@ + shell_word(work@),
{
    from_chars(&concat(&to_chars("openclaw agents add "), &to_chars(shell_escape(work).as_str())))
}

} // verus!
