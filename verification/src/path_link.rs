//! Putting `openclaw` on the terminal's `PATH` after an installation on
//! macOS and Linux: a symbolic link in the first global bin directory that
//! takes one (`/usr/local/bin`, Homebrew's, then `~/.local/bin` with the
//! shell profile extended), or the bundled Node.js bin directory added to the
//! shell profile.  The runs, links and files are the app's; this machine says
//! what to do next.

use vstd::prelude::*;
use crate::text::{concat, from_chars, from_utf8_lossy, has_sub, owned, to_chars, trim, trim_chars, text_of};

verus! {

/// Whether the path `path` begins with the path `base`, whole components
/// only (`Path::starts_with`).
pub uninterp spec fn path_prefix(path: Seq<char>, base: Seq<char>) -> bool;

/// `std::path::Path::new(path).starts_with(base)`.
#[verifier::external_body]
fn path_starts_with(path: &str, base: &str) -> (r: bool)
    ensures
        r == path_prefix(path@, base@),
{
    std::path::Path::new(path).starts_with(base)
}

/// A path in a directory that is on every terminal's `PATH`.
pub open spec fn is_global(p: Seq<char>) -> bool {
    path_prefix(p, "/usr/local/bin"@) || path_prefix(p, "/usr/bin"@) || path_prefix(p, "/opt/homebrew/bin"@)
}

/// The path a `which` run printed, when it succeeded and printed one.
pub open spec fn which_path(success: bool, stdout: Seq<u8>) -> Option<Seq<char>> {
    if success && trim(text_of(stdout)).len() > 0 {
        Some(trim(text_of(stdout)))
    } else {
        None
    }
}

/// The profile line that puts `~/.local/bin` on `PATH`.
pub open spec fn local_export() -> Seq<char> {
    "export PATH=\"$HOME/.local/bin:$PATH\""@
}

/// The profile line that puts a directory on `PATH`.
pub open spec fn dir_export(dir: Seq<char>) -> Seq<char> {
    "export PATH=\""@ + dir + ":$PATH\""@
}

/// What the app is to do next.
pub enum LinkAction {
    Log(String),
    /// Run this command in the login shell; answer `Ran`.
    RunWhich(String),
    /// Replace the link (second) by a symbolic link to the file (first); answer `Answer`.
    Link(String, String),
    /// Whether this is a directory; answer `Answer`.
    CheckDir(String),
    /// Create this directory (and its parents).
    MakeDir(String),
    /// Find the bin directory of the bundled Node.js 22 that holds
    /// `openclaw`; answer `Found`.
    FindBundled,
    /// Read the shell profile; answer `Found` with its text.
    ReadProfile,
    /// Append this text to the shell profile; answer `Appended`.
    AppendProfile(String),
    /// Nothing more to do.
    Done,
}

pub enum LinkActionView {
    Log(Seq<char>),
    RunWhich(Seq<char>),
    Link(Seq<char>, Seq<char>),
    CheckDir(Seq<char>),
    MakeDir(Seq<char>),
    FindBundled,
    ReadProfile,
    AppendProfile(Seq<char>),
    Done,
}

pub open spec fn link_action_view(a: LinkAction) -> LinkActionView {
    match a {
        LinkAction::Log(s) => LinkActionView::Log(s@),
        LinkAction::RunWhich(s) => LinkActionView::RunWhich(s@),
        LinkAction::Link(a, b) => LinkActionView::Link(a@, b@),
        LinkAction::CheckDir(s) => LinkActionView::CheckDir(s@),
        LinkAction::MakeDir(s) => LinkActionView::MakeDir(s@),
        LinkAction::FindBundled => LinkActionView::FindBundled,
        LinkAction::ReadProfile => LinkActionView::ReadProfile,
        LinkAction::AppendProfile(s) => LinkActionView::AppendProfile(s@),
        LinkAction::Done => LinkActionView::Done,
    }
}

pub open spec fn link_views(v: Seq<LinkAction>) -> Seq<LinkActionView> {
    v.map_values(|a: LinkAction| link_action_view(a))
}

/// How appending to the profile went.
#[derive(Clone, Copy, PartialEq, Eq, Structural)]
pub enum AppendOutcome {
    Written,
    /// The file opened but the write failed.
    NotWritten,
    /// The file could not be opened.
    Unopened,
}

/// What the app answers.
pub enum LinkEvent {
    Begin,
    /// Whether the command succeeded, and its standard output.
    Ran(bool, Vec<u8>),
    Answer(bool),
    Found(Option<String>),
    Appended(AppendOutcome),
}

#[derive(Clone, Copy, PartialEq, Eq, Structural)]
pub enum LinkPhase {
    StartWhich,
    StartBundled,
    Which,
    LinkUsrLocal,
    HomebrewDir,
    LinkHomebrew,
    LinkLocal,
    ReadLocalProfile,
    AppendLocal,
    FindBundled,
    ReadBundledProfile,
    AppendBundled,
    Finished,
}

/// Putting `openclaw` on `PATH`, in progress.
pub struct LinkRun {
    pub phase: LinkPhase,
    /// The `which` command to run.
    pub which_cmd: String,
    /// The file or directory to put on `PATH`, once known.
    pub target: String,
    /// The shell profile's file name.
    pub profile: String,
    /// `~/.local/bin`.
    pub local_bin: String,
    /// `~/.local/bin/openclaw`.
    pub local_link: String,
}

/// The parts of a run that never change.
pub struct LinkSetting {
    pub which_cmd: Seq<char>,
    pub profile: Seq<char>,
    pub local_bin: Seq<char>,
    pub local_link: Seq<char>,
}

pub open spec fn setting(r: LinkRun) -> LinkSetting {
    LinkSetting { which_cmd: r.which_cmd@, profile: r.profile@, local_bin: r.local_bin@, local_link: r.local_link@ }
}

pub open spec fn link_event_view(e: LinkEvent) -> (int, bool, Seq<u8>, Option<Seq<char>>, AppendOutcome) {
    match e {
        LinkEvent::Begin => (0, false, seq![], None, AppendOutcome::Written),
        LinkEvent::Ran(ok, out) => (1, ok, out@, None, AppendOutcome::Written),
        LinkEvent::Answer(b) => (2, b, seq![], None, AppendOutcome::Written),
        LinkEvent::Found(o) => (3, false, seq![], crate::text::opt_view(o), AppendOutcome::Written),
        LinkEvent::Appended(o) => (4, false, seq![], None, o),
    }
}

pub open spec fn llog(s: Seq<char>) -> LinkActionView {
    LinkActionView::Log(s)
}

pub open spec fn try_local(t: Seq<char>, s: LinkSetting) -> (LinkPhase, Seq<char>, Seq<LinkActionView>) {
    (LinkPhase::LinkLocal, t, seq![LinkActionView::MakeDir(s.local_bin), LinkActionView::Link(t, s.local_link)])
}

pub open spec fn finish(t: Seq<char>, acts: Seq<LinkActionView>) -> (LinkPhase, Seq<char>, Seq<LinkActionView>) {
    (LinkPhase::Finished, t, acts.push(LinkActionView::Done))
}

/// The next phase and target, and the actions, for an event.  An event the
/// phase does not wait for changes nothing.
pub open spec fn link_next(
    phase: LinkPhase,
    t: Seq<char>,
    s: LinkSetting,
    ev: (int, bool, Seq<u8>, Option<Seq<char>>, AppendOutcome),
) -> (LinkPhase, Seq<char>, Seq<LinkActionView>) {
    if phase == LinkPhase::StartWhich && ev.0 == 0 {
        (LinkPhase::Which, t, seq![LinkActionView::RunWhich(s.which_cmd)])
    } else if phase == LinkPhase::StartBundled && ev.0 == 0 {
        (LinkPhase::FindBundled, t, seq![LinkActionView::FindBundled])
    } else if phase == LinkPhase::Which && ev.0 == 1 {
        match which_path(ev.1, ev.2) {
            None => finish(t, seq![llog("⚠ 无法定位 openclaw 二进制，请确认安装成功后手动添加到 PATH。"@)]),
            Some(p) => if is_global(p) {
                finish(p, seq![llog("openclaw 已在 "@ + p + "，终端可直接使用。"@)])
            } else {
                (
                    LinkPhase::LinkUsrLocal,
                    p,
                    seq![
                        llog("openclaw 位于 "@ + p + "，尝试软链到全局 PATH..."@),
                        LinkActionView::Link(p, "/usr/local/bin/openclaw"@),
                    ],
                )
            },
        }
    } else if phase == LinkPhase::LinkUsrLocal && ev.0 == 2 {
        if ev.1 {
            finish(t, seq![llog("已将 openclaw 软链到 /usr/local/bin/openclaw"@)])
        } else {
            (LinkPhase::HomebrewDir, t, seq![LinkActionView::CheckDir("/opt/homebrew/bin"@)])
        }
    } else if phase == LinkPhase::HomebrewDir && ev.0 == 2 {
        if ev.1 {
            (LinkPhase::LinkHomebrew, t, seq![LinkActionView::Link(t, "/opt/homebrew/bin/openclaw"@)])
        } else {
            try_local(t, s)
        }
    } else if phase == LinkPhase::LinkHomebrew && ev.0 == 2 {
        if ev.1 {
            finish(t, seq![llog("已将 openclaw 软链到 /opt/homebrew/bin/openclaw"@)])
        } else {
            try_local(t, s)
        }
    } else if phase == LinkPhase::LinkLocal && ev.0 == 2 {
        if ev.1 {
            (
                LinkPhase::ReadLocalProfile,
                t,
                seq![llog("已将 openclaw 软链到 "@ + s.local_link), LinkActionView::ReadProfile],
            )
        } else {
            finish(
                t,
                seq![
                    llog("⚠ 无法自动添加到 PATH，openclaw 位于："@ + t + "\n可手动执行：sudo ln -sf '"@ + t
                        + "' /usr/local/bin/openclaw"@),
                ],
            )
        }
    } else if phase == LinkPhase::ReadLocalProfile && ev.0 == 3 {
        match ev.3 {
            Some(c) if has_sub(c, ".local/bin"@) => finish(t, seq![]),
            _ => (
                LinkPhase::AppendLocal,
                t,
                seq![LinkActionView::AppendProfile("\n# Added by Oclaw\n"@ + local_export() + "\n"@)],
            ),
        }
    } else if phase == LinkPhase::AppendLocal && ev.0 == 4 {
        match ev.4 {
            AppendOutcome::Written => finish(
                t,
                seq![
                    llog("已自动将 ~/.local/bin 添加到 ~/"@ + s.profile + " 的 PATH 中。"@),
                    llog("⚠ 请关闭并重新打开终端窗口，使 PATH 配置生效后再执行 openclaw 命令。"@),
                ],
            ),
            AppendOutcome::NotWritten => finish(t, seq![]),
            AppendOutcome::Unopened => finish(
                t,
                seq![llog("⚠ 无法写入 ~/"@ + s.profile + "，请手动添加：\n"@ + local_export())],
            ),
        }
    } else if phase == LinkPhase::FindBundled && ev.0 == 3 {
        match ev.3 {
            Some(bin) => (
                LinkPhase::ReadBundledProfile,
                bin,
                seq![llog("内置 fnm Node.js 位于 "@ + bin + "，正在添加到终端 PATH..."@), LinkActionView::ReadProfile],
            ),
            None => finish(t, seq![llog("⚠ 未在内置 fnm 目录中找到 openclaw 二进制，请确认 npm 安装成功。"@)]),
        }
    } else if phase == LinkPhase::ReadBundledProfile && ev.0 == 3 {
        match ev.3 {
            Some(c) if has_sub(c, t) => finish(
                t,
                seq![llog("~/"@ + s.profile + " 已包含内置 Node.js PATH 配置，跳过。"@)],
            ),
            _ => (
                LinkPhase::AppendBundled,
                t,
                seq![LinkActionView::AppendProfile("\n# Added by Oclaw — bundled Node.js\n"@ + dir_export(t) + "\n"@)],
            ),
        }
    } else if phase == LinkPhase::AppendBundled && ev.0 == 4 {
        match ev.4 {
            AppendOutcome::Written => finish(
                t,
                seq![
                    llog("已将内置 Node.js 路径添加到 ~/"@ + s.profile + " 中。"@),
                    llog("重新打开终端后 node、npm、openclaw 等命令均可使用。"@),
                ],
            ),
            AppendOutcome::NotWritten => finish(t, seq![]),
            AppendOutcome::Unopened => finish(
                t,
                seq![llog("⚠ 无法写入 ~/"@ + s.profile + "，请手动添加以下内容：\n"@ + dir_export(t))],
            ),
        }
    } else {
        (phase, t, seq![])
    }
}

} // verus!

verus! {

fn lpush(v: &mut Vec<LinkAction>, a: LinkAction)
    ensures
        link_views(final(v)@) == link_views(old(v)@).push(link_action_view(a)),
{
    let ghost prev = v@;
    let ghost av = link_action_view(a);
    v.push(a);
    assert(link_views(v@) =~= link_views(prev).push(av));
}

fn msg(a: &str, b: &Vec<char>, c: &str) -> (r: String)
    ensures
        r@ == a@ + b@ + c@,
{
    from_chars(&concat(&concat(&to_chars(a), b), &to_chars(c)))
}

fn lstr(s: &str) -> (r: LinkAction)
    ensures
        link_action_view(r) == llog(s@),
{
    LinkAction::Log(owned(s))
}

fn local_export_exec() -> (r: Vec<char>)
    ensures
        r@ == local_export(),
{
    to_chars("export PATH=\"$HOME/.local/bin:$PATH\"")
}

fn dir_export_exec(dir: &Vec<char>) -> (r: Vec<char>)
    ensures
        r@ == dir_export(dir@),
{
    to_chars(crate::installer::path_export_line(from_chars(dir).as_str()).as_str())
}

impl LinkRun {
    /// Puts the `openclaw` that `which_cmd` finds on `PATH`.
    pub fn from_which(which_cmd: String, profile: String, local_bin: String, local_link: String) -> (r: Self)
        ensures
            r.phase == LinkPhase::StartWhich,
            r.which_cmd == which_cmd,
            r.profile == profile,
            r.local_bin == local_bin,
            r.local_link == local_link,
    {
        LinkRun { phase: LinkPhase::StartWhich, which_cmd, target: String::new(), profile, local_bin, local_link }
    }

    /// Adds the bundled Node.js bin directory to the shell profile.
    pub fn bundled(profile: String) -> (r: Self)
        ensures
            r.phase == LinkPhase::StartBundled,
            r.profile == profile,
    {
        LinkRun {
            phase: LinkPhase::StartBundled,
            which_cmd: String::new(),
            target: String::new(),
            profile,
            local_bin: String::new(),
            local_link: String::new(),
        }
    }

    fn push_try_local(&mut self, r: &mut Vec<LinkAction>)
        ensures
            setting(*final(self)) == setting(*old(self)),
            final(self).target == old(self).target,
            ({
                let (p, t, acts) = try_local(old(self).target@, setting(*old(self)));
                &&& final(self).phase == p
                &&& link_views(final(r)@) == link_views(old(r)@) + acts
            }),
    {
        let ghost prev = link_views(r@);
        lpush(r, LinkAction::MakeDir(self.local_bin.clone()));
        lpush(r, LinkAction::Link(self.target.clone(), self.local_link.clone()));
        self.phase = LinkPhase::LinkLocal;
        assert(link_views(r@) =~= prev + try_local(self.target@, setting(*self)).2);
    }

    fn finish_with(&mut self, r: &mut Vec<LinkAction>)
        ensures
            setting(*final(self)) == setting(*old(self)),
            final(self).target == old(self).target,
            final(self).phase == LinkPhase::Finished,
            link_views(final(r)@) == link_views(old(r)@).push(LinkActionView::Done),
    {
        lpush(r, LinkAction::Done);
        self.phase = LinkPhase::Finished;
    }

    /// Takes the app's answer and says what to do next.
    pub fn advance(&mut self, event: LinkEvent) -> (r: Vec<LinkAction>)
        ensures
            setting(*final(self)) == setting(*old(self)),
            ({
                let (p, t, acts) = link_next(old(self).phase, old(self).target@, setting(*old(self)), link_event_view(event));
                &&& final(self).phase == p
                &&& final(self).target@ == t
                &&& link_views(r@) == acts
            }),
    {
        let ghost ev = link_event_view(event);
        let mut r: Vec<LinkAction> = Vec::new();
        assert(link_views(r@) =~= Seq::<LinkActionView>::empty());
        match (self.phase, event) {
            (LinkPhase::StartWhich, LinkEvent::Begin) => {
                lpush(&mut r, LinkAction::RunWhich(self.which_cmd.clone()));
                self.phase = LinkPhase::Which;
            },
            (LinkPhase::StartBundled, LinkEvent::Begin) => {
                lpush(&mut r, LinkAction::FindBundled);
                self.phase = LinkPhase::FindBundled;
            },
            (LinkPhase::Which, LinkEvent::Ran(ok, out)) => {
                let text = from_utf8_lossy(out.as_slice());
                let p = trim_chars(&to_chars(text.as_str()));
                if !(ok && p.len() > 0) {
                    lpush(&mut r, lstr("⚠ 无法定位 openclaw 二进制，请确认安装成功后手动添加到 PATH。"));
                    self.finish_with(&mut r);
                } else {
                    let ps = from_chars(&p);
                    let global = path_starts_with(ps.as_str(), "/usr/local/bin") || path_starts_with(
                        ps.as_str(),
                        "/usr/bin",
                    ) || path_starts_with(ps.as_str(), "/opt/homebrew/bin");
                    if global {
                        lpush(&mut r, LinkAction::Log(msg("openclaw 已在 ", &p, "，终端可直接使用。")));
                        self.target = ps;
                        self.finish_with(&mut r);
                    } else {
                        lpush(&mut r, LinkAction::Log(msg("openclaw 位于 ", &p, "，尝试软链到全局 PATH...")));
                        lpush(&mut r, LinkAction::Link(ps.clone(), owned("/usr/local/bin/openclaw")));
                        self.target = ps;
                        self.phase = LinkPhase::LinkUsrLocal;
                    }
                }
            },
            (LinkPhase::LinkUsrLocal, LinkEvent::Answer(ok)) => {
                if ok {
                    lpush(&mut r, lstr("已将 openclaw 软链到 /usr/local/bin/openclaw"));
                    self.finish_with(&mut r);
                } else {
                    lpush(&mut r, LinkAction::CheckDir(owned("/opt/homebrew/bin")));
                    self.phase = LinkPhase::HomebrewDir;
                }
            },
            (LinkPhase::HomebrewDir, LinkEvent::Answer(is_dir)) => {
                if is_dir {
                    lpush(&mut r, LinkAction::Link(self.target.clone(), owned("/opt/homebrew/bin/openclaw")));
                    self.phase = LinkPhase::LinkHomebrew;
                } else {
                    self.push_try_local(&mut r);
                }
            },
            (LinkPhase::LinkHomebrew, LinkEvent::Answer(ok)) => {
                if ok {
                    lpush(&mut r, lstr("已将 openclaw 软链到 /opt/homebrew/bin/openclaw"));
                    self.finish_with(&mut r);
                } else {
                    self.push_try_local(&mut r);
                }
            },
            (LinkPhase::LinkLocal, LinkEvent::Answer(ok)) => {
                if ok {
                    let m = concat(&to_chars("已将 openclaw 软链到 "), &to_chars(self.local_link.as_str()));
                    lpush(&mut r, LinkAction::Log(from_chars(&m)));
                    lpush(&mut r, LinkAction::ReadProfile);
                    self.phase = LinkPhase::ReadLocalProfile;
                } else {
                    let t = to_chars(self.target.as_str());
                    let a = msg("⚠ 无法自动添加到 PATH，openclaw 位于：", &t, "\n可手动执行：sudo ln -sf '");
                    let b = msg(a.as_str(), &t, "' /usr/local/bin/openclaw");
                    proof {
                        assert(b@ =~= "⚠ 无法自动添加到 PATH，openclaw 位于："@ + self.target@
                            + "\n可手动执行：sudo ln -sf '"@ + self.target@ + "' /usr/local/bin/openclaw"@);
                    }
                    lpush(&mut r, LinkAction::Log(b));
                    self.finish_with(&mut r);
                }
            },
            (LinkPhase::ReadLocalProfile, LinkEvent::Found(content)) => {
                let has = match &content {
                    Some(c) => crate::text::contains_seq(&to_chars(c.as_str()), &to_chars(".local/bin")),
                    None => false,
                };
                if has {
                    self.finish_with(&mut r);
                } else {
                    let text = msg("\n# Added by Oclaw\n", &local_export_exec(), "\n");
                    lpush(&mut r, LinkAction::AppendProfile(text));
                    self.phase = LinkPhase::AppendLocal;
                }
            },
            (LinkPhase::AppendLocal, LinkEvent::Appended(o)) => {
                match o {
                    AppendOutcome::Written => {
                        let m = msg("已自动将 ~/.local/bin 添加到 ~/", &to_chars(self.profile.as_str()), " 的 PATH 中。");
                        lpush(&mut r, LinkAction::Log(m));
                        lpush(&mut r, lstr("⚠ 请关闭并重新打开终端窗口，使 PATH 配置生效后再执行 openclaw 命令。"));
                    },
                    AppendOutcome::NotWritten => {},
                    AppendOutcome::Unopened => {
                        let a = msg("⚠ 无法写入 ~/", &to_chars(self.profile.as_str()), "，请手动添加：\n");
                        lpush(&mut r, LinkAction::Log(from_chars(&concat(&to_chars(a.as_str()), &local_export_exec()))));
                    },
                }
                self.finish_with(&mut r);
            },
            (LinkPhase::FindBundled, LinkEvent::Found(found)) => {
                match found {
                    Some(bin) => {
                        let m = msg("内置 fnm Node.js 位于 ", &to_chars(bin.as_str()), "，正在添加到终端 PATH...");
                        lpush(&mut r, LinkAction::Log(m));
                        lpush(&mut r, LinkAction::ReadProfile);
                        self.target = bin;
                        self.phase = LinkPhase::ReadBundledProfile;
                    },
                    None => {
                        lpush(&mut r, lstr("⚠ 未在内置 fnm 目录中找到 openclaw 二进制，请确认 npm 安装成功。"));
                        self.finish_with(&mut r);
                    },
                }
            },
            (LinkPhase::ReadBundledProfile, LinkEvent::Found(content)) => {
                let t = to_chars(self.target.as_str());
                let has = match &content {
                    Some(c) => crate::text::contains_seq(&to_chars(c.as_str()), &t),
                    None => false,
                };
                if has {
                    let m = msg("~/", &to_chars(self.profile.as_str()), " 已包含内置 Node.js PATH 配置，跳过。");
                    lpush(&mut r, LinkAction::Log(m));
                    self.finish_with(&mut r);
                } else {
                    let text = msg("\n# Added by Oclaw — bundled Node.js\n", &dir_export_exec(&t), "\n");
                    lpush(&mut r, LinkAction::AppendProfile(text));
                    self.phase = LinkPhase::AppendBundled;
                }
            },
            (LinkPhase::AppendBundled, LinkEvent::Appended(o)) => {
                match o {
                    AppendOutcome::Written => {
                        let m = msg("已将内置 Node.js 路径添加到 ~/", &to_chars(self.profile.as_str()), " 中。");
                        lpush(&mut r, LinkAction::Log(m));
                        lpush(&mut r, lstr("重新打开终端后 node、npm、openclaw 等命令均可使用。"));
                    },
                    AppendOutcome::NotWritten => {},
                    AppendOutcome::Unopened => {
                        let t = to_chars(self.target.as_str());
                        let a = msg("⚠ 无法写入 ~/", &to_chars(self.profile.as_str()), "，请手动添加以下内容：\n");
                        lpush(&mut r, LinkAction::Log(from_chars(&concat(&to_chars(a.as_str()), &dir_export_exec(&t)))));
                    },
                }
                self.finish_with(&mut r);
            },
            _ => {},
        }
        r
    }
}

/// Putting `openclaw` on `PATH` ends with one `Done`, exactly when it
/// finishes.
pub proof fn law_link_done_when_finished(
    phase: LinkPhase,
    t: Seq<char>,
    s: LinkSetting,
    ev: (int, bool, Seq<u8>, Option<Seq<char>>, AppendOutcome),
)
    requires
        phase != LinkPhase::Finished,
    ensures
        ({
            let (p, t2, acts) = link_next(phase, t, s, ev);
            &&& (p == LinkPhase::Finished) == (acts.len() > 0 && acts.last() is Done)
            &&& forall|i: int| 0 <= i < acts.len() - 1 ==> !(acts[i] is Done)
        }),
{
}

/// A link is only ever made to the `openclaw` that was found, and the
/// profile is only ever extended after a link in `~/.local/bin` or for the
/// bundled Node.js.
pub proof fn law_links_point_at_target(
    phase: LinkPhase,
    t: Seq<char>,
    s: LinkSetting,
    ev: (int, bool, Seq<u8>, Option<Seq<char>>, AppendOutcome),
)
    ensures
        ({
            let (p, t2, acts) = link_next(phase, t, s, ev);
            forall|i: int| 0 <= i < acts.len() ==> (#[trigger] acts[i] matches LinkActionView::Link(a, b) ==> a == t2)
        }),
{
}

} // verus!

verus! {

// ─── Windows: the user PATH ─────────────────────────────────────────────────

/// What the installer reports after trying to add `openclaw`'s directories
/// to the user `PATH` on Windows (`added`: whether PowerShell managed it):
/// nothing when there were none to add; on failure each directory to add by
/// hand; then how to use fnm in PowerShell.
pub open spec fn windows_path_logs_spec(dirs: Seq<Seq<char>>, added: bool) -> Seq<Seq<char>> {
    (if dirs.len() == 0 {
        seq![]
    } else if added {
        seq!["已自动将 Node.js 和 openclaw 路径添加到用户 PATH（重启终端后生效）。"@]
    } else {
        seq!["⚠ 自动修改 PATH 失败，请手动将以下目录添加到系统 PATH 环境变量："@] + dirs.map_values(
            |d: Seq<char>| "  "@ + d,
        )
    }) + seq![
        Seq::<char>::empty(),
        "提示：如需在终端中使用 fnm 管理 Node 版本，请在 PowerShell 配置文件中添加："@,
        "  fnm env --use-on-cd | Out-String | Invoke-Expression"@,
    ]
}

pub fn windows_path_logs(dirs: &Vec<String>, added: bool) -> (r: Vec<String>)
    ensures
        crate::text::sviews(r@) == windows_path_logs_spec(crate::text::sviews(dirs@), added),
{
    let mut r: Vec<String> = Vec::new();
    let ghost ds = crate::text::sviews(dirs@);
    if dirs.len() > 0 {
        if added {
            r.push(owned("已自动将 Node.js 和 openclaw 路径添加到用户 PATH（重启终端后生效）。"));
        } else {
            r.push(owned("⚠ 自动修改 PATH 失败，请手动将以下目录添加到系统 PATH 环境变量："));
            let mut i: usize = 0;
            while i < dirs.len()
                invariant
                    i <= dirs@.len(),
                    ds == crate::text::sviews(dirs@),
                    crate::text::sviews(r@) == seq!["⚠ 自动修改 PATH 失败，请手动将以下目录添加到系统 PATH 环境变量："@]
                        + ds.take(i as int).map_values(|d: Seq<char>| "  "@ + d),
                decreases dirs@.len() - i,
            {
                let ghost prev = crate::text::sviews(r@);
                let line = from_chars(&concat(&to_chars("  "), &to_chars(dirs[i].as_str())));
                r.push(line);
                assert(crate::text::sviews(r@) =~= prev.push("  "@ + ds[i as int]));
                assert(ds.take(i + 1).map_values(|d: Seq<char>| "  "@ + d) =~= ds.take(i as int).map_values(
                    |d: Seq<char>| "  "@ + d,
                ).push("  "@ + ds[i as int]));
                i = i + 1;
            }
            assert(ds.take(dirs@.len() as int) =~= ds);
        }
    }
    let ghost head = crate::text::sviews(r@);
    r.push(String::new());
    r.push(owned("提示：如需在终端中使用 fnm 管理 Node 版本，请在 PowerShell 配置文件中添加："));
    r.push(owned("  fnm env --use-on-cd | Out-String | Invoke-Expression"));
    assert(crate::text::sviews(r@) =~= head + seq![
        Seq::<char>::empty(),
        "提示：如需在终端中使用 fnm 管理 Node 版本，请在 PowerShell 配置文件中添加："@,
        "  fnm env --use-on-cd | Out-String | Invoke-Expression"@,
    ]);
    assert(head =~= (if ds.len() == 0 {
        Seq::<Seq<char>>::empty()
    } else if added {
        seq!["已自动将 Node.js 和 openclaw 路径添加到用户 PATH（重启终端后生效）。"@]
    } else {
        seq!["⚠ 自动修改 PATH 失败，请手动将以下目录添加到系统 PATH 环境变量："@] + ds.map_values(
            |d: Seq<char>| "  "@ + d,
        )
    }));
    r
}

} // verus!
