//! Making Git available on Windows before npm runs: where to look for it,
//! how to get it (winget, then a portable MinGit download), and the `PATH`
//! the installer's commands run with.  The searches, downloads and runs are
//! the app's; the decisions are machines that say what to do next.

use vstd::prelude::*;
use crate::text::{concat, from_chars, has_sub, owned, to_chars, trim, trim_chars};

verus! {

// ─── Where Git may be ───────────────────────────────────────────────────────

/// The value of an environment variable, or a default when it is unset.
pub open spec fn or_default(v: Option<Seq<char>>, d: Seq<char>) -> Seq<char> {
    match v {
        Some(x) => x,
        None => d,
    }
}

/// The usual `cmd` directories of Git for Windows, in the order they are
/// tried: under `PROGRAMFILES` and `PROGRAMFILES(X86)` (with their usual
/// defaults), under `LOCALAPPDATA`, then scoop's under `USERPROFILE`.
pub open spec fn git_candidates(pf: Option<Seq<char>>, pf86: Option<Seq<char>>, local: Seq<char>, userprofile: Seq<char>) -> Seq<Seq<char>> {
    seq![
        or_default(pf, "C:\\Program Files"@) + "\\Git\\cmd"@,
        or_default(pf86, "C:\\Program Files (x86)"@) + "\\Git\\cmd"@,
        local + "\\Programs\\Git\\cmd"@,
        userprofile + "\\scoop\\shims"@,
        userprofile + "\\scoop\\apps\\git\\current\\cmd"@,
    ]
}

fn joined(a: &Vec<char>, b: &str) -> (r: String)
    ensures
        r@ == a@ + b@,
{
    from_chars(&concat(a, &to_chars(b)))
}

fn env_or(v: &Option<String>, d: &str) -> (r: Vec<char>)
    ensures
        r@ == or_default(crate::text::opt_view(*v), d@),
{
    match v {
        Some(x) => to_chars(x.as_str()),
        None => to_chars(d),
    }
}

pub fn git_cmd_candidates(pf: &Option<String>, pf86: &Option<String>, local: &str, userprofile: &str) -> (r: Vec<String>)
    ensures
        crate::text::sviews(r@) == git_candidates(
            crate::text::opt_view(*pf),
            crate::text::opt_view(*pf86),
            local@,
            userprofile@,
        ),
{
    let mut r: Vec<String> = Vec::new();
    let l = to_chars(local);
    let u = to_chars(userprofile);
    r.push(joined(&env_or(pf, "C:\\Program Files"), "\\Git\\cmd"));
    r.push(joined(&env_or(pf86, "C:\\Program Files (x86)"), "\\Git\\cmd"));
    r.push(joined(&l, "\\Programs\\Git\\cmd"));
    r.push(joined(&u, "\\scoop\\shims"));
    r.push(joined(&u, "\\scoop\\apps\\git\\current\\cmd"));
    assert(crate::text::sviews(r@) =~= git_candidates(
        crate::text::opt_view(*pf),
        crate::text::opt_view(*pf86),
        local@,
        userprofile@,
    ));
    r
}

/// A GitHub Desktop directory that holds a portable Git.
pub fn is_portable_git(name: &str) -> (r: bool)
    ensures
        r == crate::text::has_prefix(name@, "PortableGit"@),
{
    crate::text::starts_with_seq(&to_chars(name), &to_chars("PortableGit"))
}

/// The `git.exe` in a Git `cmd` directory.
pub open spec fn git_exe(dir: Seq<char>) -> Seq<char> {
    dir + "\\git.exe"@
}

pub fn git_exe_path(dir: &str) -> (r: String)
    ensures
        r@ == git_exe(dir@),
{
    joined(&to_chars(dir), "\\git.exe")
}

// ─── The PATH of the installer's commands ───────────────────────────────────

/// What the PATH decision needs to know next.
#[derive(Clone, Copy, Debug, PartialEq, Eq, Structural)]
pub enum PathProbe {
    /// Whether `git --version` runs.
    GitRuns,
    /// A Git directory in the usual places.
    FindGitDir,
}

/// `PATH` with a directory in front: `<dir>;<current>`.
pub open spec fn with_dir(dir: Seq<char>, current: Seq<char>) -> Seq<char> {
    dir + seq![';'] + current
}

/// The `PATH` for the installer's commands, or the probe to run first: the
/// remembered Git directory in front when `PATH` lacks it; else nothing to
/// change when `git` runs; else a Git directory found in the usual places in
/// front; else nothing.
pub open spec fn augmented_path_spec(
    current: Seq<char>,
    discovered: Option<Seq<char>>,
    git_runs: Option<bool>,
    found: Option<Option<Seq<char>>>,
) -> Result<Option<Seq<char>>, PathProbe> {
    match discovered {
        Some(d) if !has_sub(current, d) => Ok(Some(with_dir(d, current))),
        _ => match git_runs {
            None => Err(PathProbe::GitRuns),
            Some(true) => Ok(None),
            Some(false) => match found {
                None => Err(PathProbe::FindGitDir),
                Some(Some(d)) => Ok(Some(with_dir(d, current))),
                Some(None) => Ok(None),
            },
        },
    }
}

fn with_dir_exec(dir: &str, current: &str) -> (r: String)
    ensures
        r@ == with_dir(dir@, current@),
{
    let mut d = to_chars(dir);
    d.push(';');
    from_chars(&concat(&d, &to_chars(current)))
}

pub open spec fn opt_opt_view(o: Option<Option<String>>) -> Option<Option<Seq<char>>> {
    match o {
        Some(x) => Some(crate::text::opt_view(x)),
        None => None,
    }
}

pub fn augmented_path(
    current: &str,
    discovered: &Option<String>,
    git_runs: Option<bool>,
    found: &Option<Option<String>>,
) -> (r: Result<Option<String>, PathProbe>)
    ensures
        match (r, augmented_path_spec(current@, crate::text::opt_view(*discovered), git_runs, opt_opt_view(*found))) {
            (Ok(p), Ok(q)) => crate::text::opt_view(p) == q,
            (Err(a), Err(b)) => a == b,
            _ => false,
        },
{
    if let Some(d) = discovered {
        if !crate::text::contains_seq(&to_chars(current), &to_chars(d.as_str())) {
            return Ok(Some(with_dir_exec(d.as_str(), current)));
        }
    }
    match git_runs {
        None => Err(PathProbe::GitRuns),
        Some(true) => Ok(None),
        Some(false) => match found {
            None => Err(PathProbe::FindGitDir),
            Some(Some(d)) => Ok(Some(with_dir_exec(d.as_str(), current))),
            Some(None) => Ok(None),
        },
    }
}

} // verus!

verus! {

// ─── Downloading MinGit ─────────────────────────────────────────────────────

/// The download URLs of one MinGit release, with the name of each source.
pub open spec fn release_sources(tag: Seq<char>, ver: Seq<char>) -> Seq<(Seq<char>, Seq<char>)> {
    let file = "/MinGit-"@ + ver + "-64-bit.zip"@;
    seq![
        ("https://registry.npmmirror.com/-/binary/git-for-windows/v"@ + tag + file, "npmmirror 镜像"@),
        ("https://mirrors.huaweicloud.com/git-for-windows/v"@ + tag + file, "华为云镜像"@),
        ("https://github.com/git-for-windows/git/releases/download/v"@ + tag + file, "GitHub"@),
    ]
}

/// Every place MinGit is downloaded from, in the order they are tried: three
/// releases, each from three sources.
pub open spec fn mingit_sources() -> Seq<(Seq<char>, Seq<char>)> {
    release_sources("2.47.1.windows.1"@, "2.47.1"@) + release_sources("2.48.1.windows.1"@, "2.48.1"@)
        + release_sources("2.46.2.windows.1"@, "2.46.2"@)
}

fn push_pair(v: &mut Vec<(String, String)>, a: Vec<char>, b: &str)
    ensures
        crate::openclaw_http::pair_views(final(v)@) == crate::openclaw_http::pair_views(old(v)@).push(
            (a@, b@),
        ),
{
    let ghost prev = v@;
    let p = (from_chars(&a), owned(b));
    v.push(p);
    assert(crate::openclaw_http::pair_views(v@) =~= crate::openclaw_http::pair_views(prev).push(
        (a@, b@),
    ));
}

fn push_release(v: &mut Vec<(String, String)>, tag: &str, ver: &str)
    ensures
        crate::openclaw_http::pair_views(final(v)@) == crate::openclaw_http::pair_views(old(v)@)
            + release_sources(tag@, ver@),
{
    let ghost prev = crate::openclaw_http::pair_views(v@);
    let file = concat(&concat(&to_chars("/MinGit-"), &to_chars(ver)), &to_chars("-64-bit.zip"));
    let t = to_chars(tag);
    push_pair(
        v,
        concat(&concat(&to_chars("https://registry.npmmirror.com/-/binary/git-for-windows/v"), &t), &file),
        "npmmirror 镜像",
    );
    push_pair(
        v,
        concat(&concat(&to_chars("https://mirrors.huaweicloud.com/git-for-windows/v"), &t), &file),
        "华为云镜像",
    );
    push_pair(
        v,
        concat(&concat(&to_chars("https://github.com/git-for-windows/git/releases/download/v"), &t), &file),
        "GitHub",
    );
    assert(crate::openclaw_http::pair_views(v@) =~= prev + release_sources(tag@, ver@));
}

/// The download URLs of MinGit with their source names.
pub fn mingit_download_sources() -> (r: Vec<(String, String)>)
    ensures
        crate::openclaw_http::pair_views(r@) == mingit_sources(),
{
    let mut r: Vec<(String, String)> = Vec::new();
    assert(crate::openclaw_http::pair_views(r@) =~= Seq::<(Seq<char>, Seq<char>)>::empty());
    push_release(&mut r, "2.47.1.windows.1", "2.47.1");
    push_release(&mut r, "2.48.1.windows.1", "2.48.1");
    push_release(&mut r, "2.46.2.windows.1", "2.46.2");
    assert(crate::openclaw_http::pair_views(r@) =~= mingit_sources());
    r
}

/// The PowerShell command that downloads `url` into `zip` (TLS 1.2).
pub fn web_request_command(url: &str, zip: &str) -> (r: String)
    ensures
        r@ == "[Net.ServicePointManager]::SecurityProtocol=[Net.SecurityProtocolType]::Tls12;Invoke-WebRequest -Uri '"@
            + url@ + "' -OutFile '"@ + zip@ + "' -UseBasicParsing"@,
{
    let a = concat(
        &to_chars("[Net.ServicePointManager]::SecurityProtocol=[Net.SecurityProtocolType]::Tls12;Invoke-WebRequest -Uri '"),
        &to_chars(url),
    );
    let b = concat(&concat(&a, &to_chars("' -OutFile '")), &to_chars(zip));
    from_chars(&concat(&b, &to_chars("' -UseBasicParsing")))
}

/// The PowerShell command that unpacks `zip` into `dir`.
pub fn expand_archive_command(zip: &str, dir: &str) -> (r: String)
    ensures
        r@ == "Expand-Archive -Path '"@ + zip@ + "' -DestinationPath '"@ + dir@ + "' -Force"@,
{
    let a = concat(&to_chars("Expand-Archive -Path '"), &to_chars(zip));
    let b = concat(&concat(&a, &to_chars("' -DestinationPath '")), &to_chars(dir));
    from_chars(&concat(&b, &to_chars("' -Force")))
}

/// What the app is to do next for the download.
pub enum DownloadAction {
    Log(String),
    /// Download the URL with `curl.exe` into the zip file; answer `Curl`.
    Curl(String),
    /// Delete the zip file.
    RemoveZip,
    /// Download the URL with PowerShell into the zip file; answer `Fetched`.
    PowerShell(String),
    /// Unpack the zip file into the MinGit directory; answer `Extracted`.
    Extract,
    /// Delete the MinGit directory.
    RemoveDir,
    /// The download is over: whether MinGit's `git.exe` is there.
    Done(bool),
}

pub enum DownloadActionView {
    Log(Seq<char>),
    Curl(Seq<char>),
    RemoveZip,
    PowerShell(Seq<char>),
    Extract,
    RemoveDir,
    Done(bool),
}

pub open spec fn download_action_view(a: DownloadAction) -> DownloadActionView {
    match a {
        DownloadAction::Log(s) => DownloadActionView::Log(s@),
        DownloadAction::Curl(s) => DownloadActionView::Curl(s@),
        DownloadAction::RemoveZip => DownloadActionView::RemoveZip,
        DownloadAction::PowerShell(s) => DownloadActionView::PowerShell(s@),
        DownloadAction::Extract => DownloadActionView::Extract,
        DownloadAction::RemoveDir => DownloadActionView::RemoveDir,
        DownloadAction::Done(b) => DownloadActionView::Done(b),
    }
}

pub open spec fn download_views(v: Seq<DownloadAction>) -> Seq<DownloadActionView> {
    v.map_values(|a: DownloadAction| download_action_view(a))
}

/// How the `curl.exe` run went.
pub enum CurlOutcome {
    Succeeded,
    /// It failed; its standard error.
    Failed(String),
    /// It could not run; the error.
    Unavailable(String),
}

/// What the app answers.
pub enum DownloadEvent {
    /// Whether MinGit's `git.exe` is there already.
    Begin(bool),
    /// How curl went, and whether the zip file is now over 1 MB.
    Curl(CurlOutcome, bool),
    /// Whether the zip file is over 1 MB after PowerShell.
    Fetched(bool),
    /// Whether unpacking succeeded and `git.exe` is there.
    Extracted(bool),
}

#[derive(Clone, Copy, PartialEq, Eq, Structural)]
pub enum DownloadPhase {
    Start,
    /// Waiting for curl and the size check after it.
    Curl,
    /// Waiting for PowerShell and the size check after it.
    PowerShell,
    /// Waiting for the unpacking.
    Extract,
    Finished,
}

/// A download in progress: its phase and the source being tried.
pub struct MinGitDownload {
    pub phase: DownloadPhase,
    pub source: usize,
    /// The download URLs with their source names.
    pub sources: Vec<(String, String)>,
}

/// The abstract content of an event: its kind, the flag it carries, and for
/// curl the kind of outcome and its text.
pub open spec fn download_event_view(e: DownloadEvent) -> (int, bool, int, Seq<char>) {
    match e {
        DownloadEvent::Begin(b) => (0, b, 0, seq![]),
        DownloadEvent::Curl(o, b) => match o {
            CurlOutcome::Succeeded => (1, b, 0, seq![]),
            CurlOutcome::Failed(m) => (1, b, 1, m@),
            CurlOutcome::Unavailable(m) => (1, b, 2, m@),
        },
        DownloadEvent::Fetched(b) => (2, b, 0, seq![]),
        DownloadEvent::Extracted(b) => (3, b, 0, seq![]),
    }
}

pub open spec fn dlog(s: Seq<char>) -> DownloadActionView {
    DownloadActionView::Log(s)
}

/// Trying source `i`.
pub open spec fn try_source(i: int) -> Seq<DownloadActionView> {
    seq![dlog("  尝试 "@ + mingit_sources()[i].1 + "..."@), DownloadActionView::Curl(mingit_sources()[i].0)]
}

/// What a curl run is reported as.
pub open spec fn curl_logs(kind: int, text: Seq<char>) -> Seq<DownloadActionView> {
    if kind == 1 {
        if trim(text).len() > 0 {
            seq![dlog("    curl 失败："@ + trim(text))]
        } else {
            seq![]
        }
    } else if kind == 2 {
        seq![dlog("    curl 不可用："@ + text)]
    } else {
        seq![]
    }
}

/// The next phase and source, and the actions, for an event.  An event the
/// phase does not wait for changes nothing.
pub open spec fn download_next(phase: DownloadPhase, i: int, ev: (int, bool, int, Seq<char>)) -> (DownloadPhase, int, Seq<DownloadActionView>) {
    let n = mingit_sources().len();
    if phase == DownloadPhase::Start && ev.0 == 0 {
        if ev.1 {
            (DownloadPhase::Finished, i, seq![DownloadActionView::Done(true)])
        } else {
            (DownloadPhase::Curl, 0, seq![dlog("正在下载便携版 Git（MinGit，约 35MB，无需管理员权限）..."@)] + try_source(0))
        }
    } else if phase == DownloadPhase::Curl && ev.0 == 1 {
        if ev.1 {
            (
                DownloadPhase::Extract,
                i,
                curl_logs(ev.2, ev.3) + seq![
                    dlog("  ✓ 从 "@ + mingit_sources()[i].1 + " 下载成功"@),
                    dlog("下载完成，正在解压..."@),
                    DownloadActionView::Extract,
                ],
            )
        } else {
            (
                DownloadPhase::PowerShell,
                i,
                curl_logs(ev.2, ev.3) + seq![
                    DownloadActionView::RemoveZip,
                    DownloadActionView::PowerShell(mingit_sources()[i].0),
                ],
            )
        }
    } else if phase == DownloadPhase::PowerShell && ev.0 == 2 {
        if ev.1 {
            (
                DownloadPhase::Extract,
                i,
                seq![
                    dlog("  ✓ 从 "@ + mingit_sources()[i].1 + " 下载成功（PowerShell）"@),
                    dlog("下载完成，正在解压..."@),
                    DownloadActionView::Extract,
                ],
            )
        } else if i + 1 < n {
            (DownloadPhase::Curl, i + 1, seq![DownloadActionView::RemoveZip] + try_source(i + 1))
        } else {
            (
                DownloadPhase::Finished,
                i,
                seq![
                    DownloadActionView::RemoveZip,
                    dlog("所有下载源均失败，请检查网络连接。"@),
                    DownloadActionView::Done(false),
                ],
            )
        }
    } else if phase == DownloadPhase::Extract && ev.0 == 3 {
        if ev.1 {
            (
                DownloadPhase::Finished,
                i,
                seq![DownloadActionView::RemoveZip, dlog("✓ 便携版 Git 安装成功！"@), DownloadActionView::Done(true)],
            )
        } else {
            (
                DownloadPhase::Finished,
                i,
                seq![
                    DownloadActionView::RemoveZip,
                    dlog("解压失败。"@),
                    DownloadActionView::RemoveDir,
                    DownloadActionView::Done(false),
                ],
            )
        }
    } else {
        (phase, i, seq![])
    }
}

fn dpush(v: &mut Vec<DownloadAction>, a: DownloadAction)
    ensures
        download_views(final(v)@) == download_views(old(v)@).push(download_action_view(a)),
{
    let ghost prev = v@;
    let ghost av = download_action_view(a);
    v.push(a);
    assert(download_views(v@) =~= download_views(prev).push(av));
}

fn dlog_str(s: &str) -> (r: DownloadAction)
    ensures
        download_action_view(r) == dlog(s@),
{
    DownloadAction::Log(owned(s))
}

fn dlog_chars(s: Vec<char>) -> (r: DownloadAction)
    ensures
        download_action_view(r) == dlog(s@),
{
    DownloadAction::Log(from_chars(&s))
}

impl MinGitDownload {
    /// The sources are MinGit's, and the source tried is one of them.
    pub open spec fn wf(&self) -> bool {
        &&& crate::openclaw_http::pair_views(self.sources@) == mingit_sources()
        &&& self.source < mingit_sources().len()
    }

    pub fn new() -> (r: Self)
        ensures
            r.wf(),
            r.phase == DownloadPhase::Start,
            r.source == 0,
    {
        MinGitDownload { phase: DownloadPhase::Start, source: 0, sources: mingit_download_sources() }
    }

    fn push_try(&self, v: &mut Vec<DownloadAction>, i: usize)
        requires
            self.wf(),
            i < mingit_sources().len(),
        ensures
            download_views(final(v)@) == download_views(old(v)@) + try_source(i as int),
    {
        let ghost prev = download_views(v@);
        let ghost src = crate::openclaw_http::pair_views(self.sources@);
        assert(src[i as int] == (self.sources@[i as int].0@, self.sources@[i as int].1@));
        let m = concat(&concat(&to_chars("  尝试 "), &to_chars(self.sources[i].1.as_str())), &to_chars("..."));
        dpush(v, dlog_chars(m));
        dpush(v, DownloadAction::Curl(self.sources[i].0.clone()));
        assert(download_views(v@) =~= prev + try_source(i as int));
    }

    fn push_success(&self, v: &mut Vec<DownloadAction>, tail: &str)
        requires
            self.wf(),
        ensures
            download_views(final(v)@) == download_views(old(v)@) + seq![
                dlog("  ✓ 从 "@ + mingit_sources()[self.source as int].1 + tail@),
                dlog("下载完成，正在解压..."@),
                DownloadActionView::Extract,
            ],
    {
        let ghost prev = download_views(v@);
        let i = self.source;
        let ghost src = crate::openclaw_http::pair_views(self.sources@);
        assert(src[i as int] == (self.sources@[i as int].0@, self.sources@[i as int].1@));
        let m = concat(&concat(&to_chars("  ✓ 从 "), &to_chars(self.sources[i].1.as_str())), &to_chars(tail));
        dpush(v, dlog_chars(m));
        dpush(v, dlog_str("下载完成，正在解压..."));
        dpush(v, DownloadAction::Extract);
        assert(download_views(v@) =~= prev + seq![
            dlog("  ✓ 从 "@ + mingit_sources()[self.source as int].1 + tail@),
            dlog("下载完成，正在解压..."@),
            DownloadActionView::Extract,
        ]);
    }

    /// Takes the app's answer and says what to do next.
    pub fn advance(&mut self, event: DownloadEvent) -> (r: Vec<DownloadAction>)
        requires
            old(self).wf(),
        ensures
            final(self).wf(),
            ({
                let (p, i, acts) = download_next(old(self).phase, old(self).source as int, download_event_view(event));
                &&& final(self).phase == p
                &&& final(self).source == i
                &&& download_views(r@) == acts
            }),
    {
        let ghost ev = download_event_view(event);
        let mut r: Vec<DownloadAction> = Vec::new();
        assert(download_views(r@) =~= Seq::<DownloadActionView>::empty());
        let n = self.sources.len();
        proof {
            assert(crate::openclaw_http::pair_views(self.sources@).len() == self.sources@.len());
        }
        match (self.phase, event) {
            (DownloadPhase::Start, DownloadEvent::Begin(there)) => {
                if there {
                    dpush(&mut r, DownloadAction::Done(true));
                    self.phase = DownloadPhase::Finished;
                } else {
                    dpush(&mut r, dlog_str("正在下载便携版 Git（MinGit，约 35MB，无需管理员权限）..."));
                    self.push_try(&mut r, 0);
                    self.phase = DownloadPhase::Curl;
                    self.source = 0;
                }
            },
            (DownloadPhase::Curl, DownloadEvent::Curl(o, big)) => {
                let ghost before = download_views(r@);
                match o {
                    CurlOutcome::Succeeded => {},
                    CurlOutcome::Failed(m) => {
                        let t = trim_chars(&to_chars(m.as_str()));
                        if t.len() > 0 {
                            dpush(&mut r, dlog_chars(concat(&to_chars("    curl 失败："), &t)));
                        }
                    },
                    CurlOutcome::Unavailable(m) => {
                        dpush(&mut r, dlog_chars(concat(&to_chars("    curl 不可用："), &to_chars(m.as_str()))));
                    },
                }
                assert(download_views(r@) =~= before + curl_logs(ev.2, ev.3));
                if big {
                    self.push_success(&mut r, " 下载成功");
                    self.phase = DownloadPhase::Extract;
                } else {
                    let i = self.source;
                    let ghost src = crate::openclaw_http::pair_views(self.sources@);
                    assert(src[i as int] == (self.sources@[i as int].0@, self.sources@[i as int].1@));
                    dpush(&mut r, DownloadAction::RemoveZip);
                    dpush(&mut r, DownloadAction::PowerShell(self.sources[i].0.clone()));
                    self.phase = DownloadPhase::PowerShell;
                }
            },
            (DownloadPhase::PowerShell, DownloadEvent::Fetched(big)) => {
                if big {
                    self.push_success(&mut r, " 下载成功（PowerShell）");
                    self.phase = DownloadPhase::Extract;
                } else if self.source + 1 < n {
                    dpush(&mut r, DownloadAction::RemoveZip);
                    self.push_try(&mut r, self.source + 1);
                    self.source = self.source + 1;
                    self.phase = DownloadPhase::Curl;
                } else {
                    dpush(&mut r, DownloadAction::RemoveZip);
                    dpush(&mut r, dlog_str("所有下载源均失败，请检查网络连接。"));
                    dpush(&mut r, DownloadAction::Done(false));
                    self.phase = DownloadPhase::Finished;
                }
            },
            (DownloadPhase::Extract, DownloadEvent::Extracted(ok)) => {
                dpush(&mut r, DownloadAction::RemoveZip);
                if ok {
                    dpush(&mut r, dlog_str("✓ 便携版 Git 安装成功！"));
                    dpush(&mut r, DownloadAction::Done(true));
                } else {
                    dpush(&mut r, dlog_str("解压失败。"));
                    dpush(&mut r, DownloadAction::RemoveDir);
                    dpush(&mut r, DownloadAction::Done(false));
                }
                self.phase = DownloadPhase::Finished;
            },
            _ => {},
        }
        r
    }
}

} // verus!

verus! {

// ─── Making Git available ───────────────────────────────────────────────────

/// What the app is to do next to make Git available.
pub enum GitAction {
    Log(String),
    /// Check whether `git --version` runs; answer `Runs`.
    CheckGit,
    /// Search the usual places for a Git `cmd` directory; answer `Found`.
    FindGitDir,
    /// Look for a MinGit downloaded earlier into the app's data; answer `Found`.
    FindDownloaded,
    /// Install Git with winget; answer `Runs`.
    Winget,
    /// Look for Git's `cmd` directory under `PROGRAMFILES`; answer `Found`.
    FindDefault,
    /// Download MinGit; answer `Found` with its `cmd` directory.
    Download,
    /// Remember the Git directory for later commands.
    Remember(String),
    /// Point npm at this `git.exe` in `~/.npmrc`.
    ConfigureNpm(String),
    /// Over: whether Git is available.
    Done(bool),
}

pub enum GitActionView {
    Log(Seq<char>),
    CheckGit,
    FindGitDir,
    FindDownloaded,
    Winget,
    FindDefault,
    Download,
    Remember(Seq<char>),
    ConfigureNpm(Seq<char>),
    Done(bool),
}

pub open spec fn git_action_view(a: GitAction) -> GitActionView {
    match a {
        GitAction::Log(s) => GitActionView::Log(s@),
        GitAction::CheckGit => GitActionView::CheckGit,
        GitAction::FindGitDir => GitActionView::FindGitDir,
        GitAction::FindDownloaded => GitActionView::FindDownloaded,
        GitAction::Winget => GitActionView::Winget,
        GitAction::FindDefault => GitActionView::FindDefault,
        GitAction::Download => GitActionView::Download,
        GitAction::Remember(s) => GitActionView::Remember(s@),
        GitAction::ConfigureNpm(s) => GitActionView::ConfigureNpm(s@),
        GitAction::Done(b) => GitActionView::Done(b),
    }
}

pub open spec fn git_views(v: Seq<GitAction>) -> Seq<GitActionView> {
    v.map_values(|a: GitAction| git_action_view(a))
}

/// What the app answers.
pub enum GitEvent {
    Begin,
    /// Whether the command ran and succeeded.
    Runs(bool),
    /// The directory found, if any.
    Found(Option<String>),
}

#[derive(Clone, Copy, PartialEq, Eq, Structural)]
pub enum GitPhase {
    Start,
    CheckGit,
    FindDir,
    FindDownloaded,
    Winget,
    FindAfterWinget,
    FindDefault,
    Download,
    Finished,
}

pub open spec fn git_event_view(e: GitEvent) -> (int, bool, Option<Seq<char>>) {
    match e {
        GitEvent::Begin => (0, false, None),
        GitEvent::Runs(b) => (1, b, None),
        GitEvent::Found(d) => (2, false, crate::text::opt_view(d)),
    }
}

pub open spec fn glog(s: Seq<char>) -> GitActionView {
    GitActionView::Log(s)
}

/// Git found in `d`: remember it, point npm at it, done.
pub open spec fn use_dir(d: Seq<char>) -> Seq<GitActionView> {
    seq![GitActionView::Remember(d), GitActionView::ConfigureNpm(git_exe(d)), GitActionView::Done(true)]
}

pub open spec fn start_download() -> Seq<GitActionView> {
    seq![glog("正在尝试下载便携版 MinGit（无需管理员权限）..."@), GitActionView::Download]
}

pub open spec fn manual_install() -> Seq<GitActionView> {
    seq![
        glog(seq![]),
        glog("自动安装均失败，请手动安装 Git for Windows："@),
        glog("  下载地址：https://git-scm.com/download/win"@),
        glog("  安装时请勾选 \"Add to PATH\""@),
        glog("  安装完成后重新点击安装按钮即可。"@),
        GitActionView::Done(false),
    ]
}

/// The next phase and the actions for an event.  An event the phase does not
/// wait for changes nothing.
pub open spec fn git_next(phase: GitPhase, ev: (int, bool, Option<Seq<char>>)) -> (GitPhase, Seq<GitActionView>) {
    if phase == GitPhase::Start && ev.0 == 0 {
        (GitPhase::CheckGit, seq![GitActionView::CheckGit])
    } else if phase == GitPhase::CheckGit && ev.0 == 1 {
        if ev.1 {
            (GitPhase::Finished, seq![GitActionView::Done(true)])
        } else {
            (GitPhase::FindDir, seq![GitActionView::FindGitDir])
        }
    } else if phase == GitPhase::FindDir && ev.0 == 2 {
        match ev.2 {
            Some(d) => (GitPhase::Finished, seq![glog("在 "@ + d + " 发现 Git"@)] + use_dir(d)),
            None => (GitPhase::FindDownloaded, seq![GitActionView::FindDownloaded]),
        }
    } else if phase == GitPhase::FindDownloaded && ev.0 == 2 {
        match ev.2 {
            Some(d) => (GitPhase::Finished, seq![glog("发现已下载的 MinGit："@ + d)] + use_dir(d)),
            None => (
                GitPhase::Winget,
                seq![
                    glog(seq![]),
                    glog("⚠ 未检测到 Git，openclaw 的部分依赖需要 git 来安装。"@),
                    glog("正在尝试通过 winget 自动安装 Git for Windows..."@),
                    GitActionView::Winget,
                ],
            ),
        }
    } else if phase == GitPhase::Winget && ev.0 == 1 {
        if ev.1 {
            (GitPhase::FindAfterWinget, seq![glog("✓ Git for Windows 安装成功！"@), GitActionView::FindGitDir])
        } else {
            (
                GitPhase::Download,
                seq![glog("winget 自动安装失败（可能系统无 winget 或需要管理员权限）。"@)] + start_download(),
            )
        }
    } else if phase == GitPhase::FindAfterWinget && ev.0 == 2 {
        match ev.2 {
            Some(d) => (GitPhase::Finished, use_dir(d)),
            None => (GitPhase::FindDefault, seq![GitActionView::FindDefault]),
        }
    } else if phase == GitPhase::FindDefault && ev.0 == 2 {
        match ev.2 {
            Some(d) => (GitPhase::Finished, use_dir(d)),
            None => (GitPhase::Download, start_download()),
        }
    } else if phase == GitPhase::Download && ev.0 == 2 {
        match ev.2 {
            Some(d) => (GitPhase::Finished, use_dir(d)),
            None => (GitPhase::Finished, manual_install()),
        }
    } else {
        (phase, seq![])
    }
}

fn gpush(v: &mut Vec<GitAction>, a: GitAction)
    ensures
        git_views(final(v)@) == git_views(old(v)@).push(git_action_view(a)),
{
    let ghost prev = v@;
    let ghost av = git_action_view(a);
    v.push(a);
    assert(git_views(v@) =~= git_views(prev).push(av));
}

fn glog_str(s: &str) -> (r: GitAction)
    ensures
        git_action_view(r) == glog(s@),
{
    GitAction::Log(owned(s))
}

fn push_use_dir(v: &mut Vec<GitAction>, d: String)
    ensures
        git_views(final(v)@) == git_views(old(v)@) + use_dir(d@),
{
    let ghost prev = git_views(v@);
    let exe = git_exe_path(d.as_str());
    gpush(v, GitAction::Remember(d));
    gpush(v, GitAction::ConfigureNpm(exe));
    gpush(v, GitAction::Done(true));
    assert(git_views(v@) =~= prev + use_dir(d@));
}

fn push_start_download(v: &mut Vec<GitAction>)
    ensures
        git_views(final(v)@) == git_views(old(v)@) + start_download(),
{
    let ghost prev = git_views(v@);
    gpush(v, glog_str("正在尝试下载便携版 MinGit（无需管理员权限）..."));
    gpush(v, GitAction::Download);
    assert(git_views(v@) =~= prev + start_download());
}

/// Making Git available, in progress.
pub struct GitSetup {
    pub phase: GitPhase,
}

impl GitSetup {
    pub fn new() -> (r: Self)
        ensures
            r.phase == GitPhase::Start,
    {
        GitSetup { phase: GitPhase::Start }
    }

    /// Takes the app's answer and says what to do next.
    pub fn advance(&mut self, event: GitEvent) -> (r: Vec<GitAction>)
        ensures
            ({
                let (p, acts) = git_next(old(self).phase, git_event_view(event));
                &&& final(self).phase == p
                &&& git_views(r@) == acts
            }),
    {
        let mut r: Vec<GitAction> = Vec::new();
        assert(git_views(r@) =~= Seq::<GitActionView>::empty());
        match (self.phase, event) {
            (GitPhase::Start, GitEvent::Begin) => {
                gpush(&mut r, GitAction::CheckGit);
                self.phase = GitPhase::CheckGit;
            },
            (GitPhase::CheckGit, GitEvent::Runs(ok)) => {
                if ok {
                    gpush(&mut r, GitAction::Done(true));
                    self.phase = GitPhase::Finished;
                } else {
                    gpush(&mut r, GitAction::FindGitDir);
                    self.phase = GitPhase::FindDir;
                }
            },
            (GitPhase::FindDir, GitEvent::Found(found)) => {
                match found {
                    Some(d) => {
                        let m = concat(&concat(&to_chars("在 "), &to_chars(d.as_str())), &to_chars(" 发现 Git"));
                        gpush(&mut r, GitAction::Log(from_chars(&m)));
                        push_use_dir(&mut r, d);
                        self.phase = GitPhase::Finished;
                    },
                    None => {
                        gpush(&mut r, GitAction::FindDownloaded);
                        self.phase = GitPhase::FindDownloaded;
                    },
                }
            },
            (GitPhase::FindDownloaded, GitEvent::Found(found)) => {
                match found {
                    Some(d) => {
                        let m = concat(&to_chars("发现已下载的 MinGit："), &to_chars(d.as_str()));
                        gpush(&mut r, GitAction::Log(from_chars(&m)));
                        push_use_dir(&mut r, d);
                        self.phase = GitPhase::Finished;
                    },
                    None => {
                        gpush(&mut r, GitAction::Log(String::new()));
                        gpush(&mut r, glog_str("⚠ 未检测到 Git，openclaw 的部分依赖需要 git 来安装。"));
                        gpush(&mut r, glog_str("正在尝试通过 winget 自动安装 Git for Windows..."));
                        gpush(&mut r, GitAction::Winget);
                        self.phase = GitPhase::Winget;
                    },
                }
            },
            (GitPhase::Winget, GitEvent::Runs(ok)) => {
                if ok {
                    gpush(&mut r, glog_str("✓ Git for Windows 安装成功！"));
                    gpush(&mut r, GitAction::FindGitDir);
                    self.phase = GitPhase::FindAfterWinget;
                } else {
                    gpush(&mut r, glog_str("winget 自动安装失败（可能系统无 winget 或需要管理员权限）。"));
                    push_start_download(&mut r);
                    self.phase = GitPhase::Download;
                }
            },
            (GitPhase::FindAfterWinget, GitEvent::Found(found)) => {
                match found {
                    Some(d) => {
                        push_use_dir(&mut r, d);
                        self.phase = GitPhase::Finished;
                    },
                    None => {
                        gpush(&mut r, GitAction::FindDefault);
                        self.phase = GitPhase::FindDefault;
                    },
                }
            },
            (GitPhase::FindDefault, GitEvent::Found(found)) => {
                match found {
                    Some(d) => {
                        push_use_dir(&mut r, d);
                        self.phase = GitPhase::Finished;
                    },
                    None => {
                        push_start_download(&mut r);
                        self.phase = GitPhase::Download;
                    },
                }
            },
            (GitPhase::Download, GitEvent::Found(found)) => {
                match found {
                    Some(d) => {
                        push_use_dir(&mut r, d);
                    },
                    None => {
                        let ghost prev = git_views(r@);
                        gpush(&mut r, GitAction::Log(String::new()));
                        gpush(&mut r, glog_str("自动安装均失败，请手动安装 Git for Windows："));
                        gpush(&mut r, glog_str("  下载地址：https://git-scm.com/download/win"));
                        gpush(&mut r, glog_str("  安装时请勾选 \"Add to PATH\""));
                        gpush(&mut r, glog_str("  安装完成后重新点击安装按钮即可。"));
                        gpush(&mut r, GitAction::Done(false));
                        assert(git_views(r@) =~= prev + manual_install());
                    },
                }
                self.phase = GitPhase::Finished;
            },
            _ => {},
        }
        r
    }
}

// ─── Laws ───────────────────────────────────────────────────────────────────

/// Whenever a search or the download finds Git, the directory is remembered
/// and npm pointed at its `git.exe` before Git is reported available.
pub proof fn law_found_git_is_used(phase: GitPhase, d: Seq<char>)
    requires
        phase == GitPhase::FindDir || phase == GitPhase::FindDownloaded || phase
            == GitPhase::FindAfterWinget || phase == GitPhase::FindDefault || phase
            == GitPhase::Download,
    ensures
        ({
            let (p, acts) = git_next(phase, (2, false, Some(d)));
            &&& p == GitPhase::Finished
            &&& acts.len() >= 3
            &&& acts.subrange(acts.len() - 3, acts.len() as int) == use_dir(d)
        }),
{
    let (p, acts) = git_next(phase, (2, false, Some(d)));
    assert(acts.subrange(acts.len() - 3, acts.len() as int) =~= use_dir(d));
}

/// Making Git available ends with one `Done`, exactly when it finishes.
pub proof fn law_git_done_when_finished(phase: GitPhase, ev: (int, bool, Option<Seq<char>>))
    requires
        phase != GitPhase::Finished,
    ensures
        ({
            let (p, acts) = git_next(phase, ev);
            &&& (p == GitPhase::Finished) == (acts.len() > 0 && acts.last() is Done)
            &&& forall|i: int| 0 <= i < acts.len() - 1 ==> !(acts[i] is Done)
        }),
{
}

/// A download ends with one `Done`, exactly when it finishes, and never
/// tries a source past the last.
pub proof fn law_download_done_when_finished(phase: DownloadPhase, i: int, ev: (int, bool, int, Seq<char>))
    requires
        phase != DownloadPhase::Finished,
        0 <= i < mingit_sources().len(),
    ensures
        ({
            let (p, j, acts) = download_next(phase, i, ev);
            &&& (p == DownloadPhase::Finished) == (acts.len() > 0 && acts.last() is Done)
            &&& forall|k: int| 0 <= k < acts.len() - 1 ==> !(acts[k] is Done)
            &&& 0 <= j < mingit_sources().len()
        }),
{
}

} // verus!
