//! Installing OpenClaw: choosing how to get Node.js 22, and the course of an
//! installation as a machine that tells the app what to run next.
//!
//! Strategies, first that applies: a system nvm, a system fnm, a system
//! Node.js of major version 22 or more, else the app's bundled fnm (on
//! Windows a suitable system Node.js is checked first).

use vstd::prelude::*;
use crate::text::{
    concat, dec, dec_u64, first_index, from_chars, from_utf8_lossy, has_prefix, has_sub, owned, parse_u32,
    parse_u32_spec, slice, starts_with_seq, strip_lead, strip_lead_exec, to_chars, trim,
    trim_chars, text_of,
};

verus! {

/// The npmmirror Node.js mirror, for users who cannot reach nodejs.org.
pub open spec fn node_dist_mirror() -> Seq<char> {
    "https://npmmirror.com/mirrors/node"@
}

// ─── Detecting the environment ──────────────────────────────────────────────

/// How Node.js 22 is obtained.
#[derive(Clone, Copy, PartialEq, Eq, Structural)]
pub enum NodeStrategy {
    /// A system Node.js of this major version (at least 22); its npm is used.
    SystemNode(u32),
    /// The system fnm installs Node.js 22 and makes it the default.
    SystemFnm,
    /// The system nvm installs Node.js 22 and makes it the default.
    SystemNvm,
    /// The app's own fnm, in a directory of its own.
    BundledFnm,
}

/// The major version `node --version` printed: the text up to the first
/// `.`, after `v`s and whitespace are trimmed off.
pub open spec fn node_major(success: bool, stdout: Seq<u8>) -> Option<u32> {
    if !success {
        None
    } else {
        let t = strip_lead(trim(text_of(stdout)), 'v');
        parse_u32_spec(t.take(first_index(t, '.') as int))
    }
}

/// Reads the major version off the output of `node --version`.
pub fn detect_system_node_major(success: bool, stdout: &[u8]) -> (r: Option<u32>)
    ensures
        r == node_major(success, stdout@),
{
    if !success {
        return None;
    }
    let s = from_utf8_lossy(stdout);
    let t = strip_lead_exec(&trim_chars(&to_chars(s.as_str())), 'v');
    let mut k: usize = 0;
    while k < t.len() && t[k] != '.'
        invariant
            k <= t@.len(),
            forall|j: int| 0 <= j < k ==> t@[j] != '.',
        decreases t@.len() - k,
    {
        k = k + 1;
    }
    proof {
        crate::text::lemma_first_index_unique(t@, '.', k as int);
    }
    let head = slice(&t, 0, k);
    assert(head@ =~= t@.take(k as int));
    parse_u32(&head)
}

/// Whether `fnm --version` ran and succeeded (`None` when it could not run).
pub fn detect_system_fnm(ran: Option<bool>) -> (r: bool)
    ensures
        r == (ran == Some(true)),
{
    match ran {
        Some(ok) => ok,
        None => false,
    }
}

/// A probe of the environment.
#[derive(Clone, Copy, PartialEq, Eq, Structural)]
pub enum Probe {
    /// `node --version`.
    NodeMajor,
    /// Whether nvm is installed.
    Nvm,
    /// Whether fnm runs.
    Fnm,
}

/// The strategy for what the probes found, or the probe to run next (probes
/// run lazily, in order).
pub open spec fn strategy_next_spec(
    windows: bool,
    nvm: Option<bool>,
    fnm: Option<bool>,
    node: Option<Option<u32>>,
) -> Result<NodeStrategy, Probe> {
    if windows {
        match node {
            None => Err(Probe::NodeMajor),
            Some(Some(m)) if m >= 22 => Ok(NodeStrategy::SystemNode(m)),
            Some(_) => match nvm {
                None => Err(Probe::Nvm),
                Some(true) => Ok(NodeStrategy::SystemNvm),
                Some(false) => match fnm {
                    None => Err(Probe::Fnm),
                    Some(true) => Ok(NodeStrategy::SystemFnm),
                    Some(false) => Ok(NodeStrategy::BundledFnm),
                },
            },
        }
    } else {
        match nvm {
            None => Err(Probe::Nvm),
            Some(true) => Ok(NodeStrategy::SystemNvm),
            Some(false) => match fnm {
                None => Err(Probe::Fnm),
                Some(true) => Ok(NodeStrategy::SystemFnm),
                Some(false) => match node {
                    None => Err(Probe::NodeMajor),
                    Some(Some(m)) if m >= 22 => Ok(NodeStrategy::SystemNode(m)),
                    Some(_) => Ok(NodeStrategy::BundledFnm),
                },
            },
        }
    }
}

/// Chooses the installation strategy from the probes run so far.
pub fn detect_node_strategy(
    windows: bool,
    nvm: Option<bool>,
    fnm: Option<bool>,
    node: Option<Option<u32>>,
) -> (r: Result<NodeStrategy, Probe>)
    ensures
        r == strategy_next_spec(windows, nvm, fnm, node),
{
    let node_ok: Option<bool> = match node {
        None => None,
        Some(Some(m)) => Some(m >= 22),
        Some(None) => Some(false),
    };
    if windows {
        match node_ok {
            None => return Err(Probe::NodeMajor),
            Some(true) => {
                if let Some(Some(m)) = node {
                    return Ok(NodeStrategy::SystemNode(m));
                }
            },
            Some(false) => {},
        }
        match nvm {
            None => Err(Probe::Nvm),
            Some(true) => Ok(NodeStrategy::SystemNvm),
            Some(false) => match fnm {
                None => Err(Probe::Fnm),
                Some(true) => Ok(NodeStrategy::SystemFnm),
                Some(false) => Ok(NodeStrategy::BundledFnm),
            },
        }
    } else {
        match nvm {
            None => Err(Probe::Nvm),
            Some(true) => Ok(NodeStrategy::SystemNvm),
            Some(false) => match fnm {
                None => Err(Probe::Fnm),
                Some(true) => Ok(NodeStrategy::SystemFnm),
                Some(false) => match node {
                    None => Err(Probe::NodeMajor),
                    Some(Some(m)) => if m >= 22 {
                        Ok(NodeStrategy::SystemNode(m))
                    } else {
                        Ok(NodeStrategy::BundledFnm)
                    },
                    Some(None) => Ok(NodeStrategy::BundledFnm),
                },
            },
        }
    }
}

/// npm's notices and engine warnings: noise, not shown.
pub open spec fn npm_noise(line: Seq<char>) -> bool {
    has_prefix(trim(line), "npm notice"@) || has_prefix(trim(line), "npm warn EBADENGINE"@)
}

pub fn is_npm_noise(line: &str) -> (r: bool)
    ensures
        r == npm_noise(line@),
{
    let l = trim_chars(&to_chars(line));
    starts_with_seq(&l, &to_chars("npm notice")) || starts_with_seq(
        &l,
        &to_chars("npm warn EBADENGINE"),
    )
}

/// The Git directory found or downloaded at run time; the first one found
/// is kept for the rest of the run.
pub struct GitDirMemo {
    pub dir: Option<String>,
}

/// The directory remembered after offering `d`.
pub open spec fn remembered(dir: Option<Seq<char>>, d: Seq<char>) -> Option<Seq<char>> {
    if dir is None {
        Some(d)
    } else {
        dir
    }
}

impl GitDirMemo {
    pub fn new() -> (r: Self)
        ensures
            r.dir is None,
    {
        GitDirMemo { dir: None }
    }

    /// Remembers `dir` unless a directory is remembered already.
    pub fn remember_git_dir(&mut self, dir: &str)
        ensures
            crate::text::opt_view(final(self).dir) == remembered(
                crate::text::opt_view(old(self).dir),
                dir@,
            ),
    {
        if self.dir.is_none() {
            self.dir = Some(owned(dir));
        }
    }
}

/// Once a directory is remembered, later offers change nothing: the first
/// one wins.
pub proof fn law_first_git_dir_wins(dir: Option<Seq<char>>, first: Seq<char>, later: Seq<char>)
    ensures
        remembered(remembered(dir, first), later) == remembered(dir, first),
{
}

} // verus!

verus! {

// ─── The course of an installation ──────────────────────────────────────────

/// What the app is to do next.
pub enum InstallAction {
    /// Show a line in the installer's log.
    Log(String),
    /// Report a step's status (`running`, `done`, `error`).
    Step(String, String),
    /// Report a step's error.
    Error(String, String),
    /// Run a command in the login shell, streaming its output; answer `Ran`.
    RunShell(String),
    /// Run the bundled fnm with these arguments, streaming its output; answer `Ran`.
    RunFnm(Vec<String>),
    /// (Windows) make sure Git is there; answer `GitReady`.
    EnsureGit,
    /// Put the bundled Node.js on the terminal's PATH.
    SymlinkBundledFnm,
    /// Find `openclaw` with this command and put it on the PATH.
    SymlinkFromWhich(String),
    /// Write the marker that npm installed openclaw.
    WriteMarker,
    /// Check that `openclaw --version` runs; answer `Verified`.
    Verify,
    /// The installation is over.
    Finish(Result<(), String>),
}

/// The abstract content of an action.
pub enum ActionView {
    Log(Seq<char>),
    Step(Seq<char>, Seq<char>),
    Error(Seq<char>, Seq<char>),
    RunShell(Seq<char>),
    RunFnm(Seq<Seq<char>>),
    EnsureGit,
    SymlinkBundledFnm,
    SymlinkFromWhich(Seq<char>),
    WriteMarker,
    Verify,
    Finish(Result<(), Seq<char>>),
}

pub open spec fn action_view(a: InstallAction) -> ActionView {
    match a {
        InstallAction::Log(s) => ActionView::Log(s@),
        InstallAction::Step(a, b) => ActionView::Step(a@, b@),
        InstallAction::Error(a, b) => ActionView::Error(a@, b@),
        InstallAction::RunShell(s) => ActionView::RunShell(s@),
        InstallAction::RunFnm(v) => ActionView::RunFnm(crate::text::sviews(v@)),
        InstallAction::EnsureGit => ActionView::EnsureGit,
        InstallAction::SymlinkBundledFnm => ActionView::SymlinkBundledFnm,
        InstallAction::SymlinkFromWhich(s) => ActionView::SymlinkFromWhich(s@),
        InstallAction::WriteMarker => ActionView::WriteMarker,
        InstallAction::Verify => ActionView::Verify,
        InstallAction::Finish(r) => ActionView::Finish(
            match r {
                Ok(()) => Ok(()),
                Err(e) => Err(e@),
            },
        ),
    }
}

pub open spec fn actions_view(v: Seq<InstallAction>) -> Seq<ActionView> {
    v.map_values(|a: InstallAction| action_view(a))
}

/// Where an installation is.
#[derive(Clone, Copy, PartialEq, Eq, Structural)]
pub enum InstallPhase {
    Start,
    /// Waiting for the system fnm or nvm to install Node.js.
    NodeByManager,
    /// Waiting for the bundled fnm to install Node.js.
    NodeByBundled,
    /// Waiting for Git (Windows).
    Git,
    /// Waiting for npm to install openclaw.
    Npm,
    /// Waiting for the final check.
    Verify,
    Finished,
}

/// What the app answers.
pub enum InstallEvent {
    Begin,
    Ran(Result<(), String>),
    GitReady(bool),
    Verified(bool),
}

/// An installation in progress.
pub struct InstallRun {
    pub phase: InstallPhase,
    pub strategy: NodeStrategy,
    pub windows: bool,
    /// Node.js comes from the bundled fnm (chosen, or fallen back to).
    pub use_bundled: bool,
    pub fnm_dir: String,
    /// The path of `~/.nvm/nvm.sh`.
    pub nvm_sh: String,
}

pub open spec fn log(s: Seq<char>) -> ActionView {
    ActionView::Log(s)
}

pub open spec fn detection_logs(strategy: NodeStrategy, fnm_dir: Seq<char>) -> Seq<ActionView> {
    match strategy {
        NodeStrategy::SystemNode(v) => seq![
            log("检测到系统 Node.js v"@ + dec(v as nat) + "（>= 22），将直接使用系统 npm 安装。"@),
        ],
        NodeStrategy::SystemFnm => seq![
            log("检测到系统已安装 fnm，将使用系统 fnm 安装 Node.js 22 并设为默认版本。"@),
        ],
        NodeStrategy::SystemNvm => seq![
            log("检测到系统已安装 nvm，将使用系统 nvm 安装 Node.js 22 并设为默认版本。"@),
        ],
        NodeStrategy::BundledFnm => seq![
            log("未检测到系统 node 版本管理工具，将使用应用内置 fnm（独立隔离目录）安装 Node.js 22。"@),
            log("内置 fnm 目录："@ + fnm_dir),
            log("注意：此模式下在终端执行 `fnm ls` 不会显示这里安装的 node 版本，这是正常现象。"@),
        ],
    }
}

pub open spec fn bundled_node(fnm_dir: Seq<char>) -> Seq<ActionView> {
    seq![
        log("正在通过内置 fnm 安装 Node.js 22（首次下载约需 1~2 分钟）..."@),
        log("内置 fnm 目录："@ + fnm_dir),
        ActionView::RunFnm(seq!["install"@, "22"@]),
    ]
}

pub open spec fn fnm_install_cmd() -> Seq<char> {
    "fnm --node-dist-mirror https://npmmirror.com/mirrors/node install 22 && fnm default 22"@
}

pub open spec fn nvm_install_cmd(windows: bool, nvm_sh: Seq<char>) -> Seq<char> {
    if windows {
        "nvm install 22 && nvm use 22"@
    } else {
        "source '"@ + nvm_sh + "' && nvm install 22 && nvm alias default 22"@
    }
}

pub open spec fn npm_bin(windows: bool) -> Seq<char> {
    if windows {
        "npm.cmd"@
    } else {
        "npm"@
    }
}

pub open spec fn npm_run(strategy: NodeStrategy, windows: bool, use_bundled: bool, nvm_sh: Seq<char>) -> ActionView {
    if use_bundled || strategy is BundledFnm {
        ActionView::RunFnm(
            seq![
                "exec"@,
                "--using=22"@,
                "--"@,
                npm_bin(windows),
                "install"@,
                "-g"@,
                "openclaw"@,
                "--no-update-notifier"@,
                "--no-fund"@,
            ],
        )
    } else {
        match strategy {
            NodeStrategy::SystemNode(_) => ActionView::RunShell(
                "npm install -g openclaw --no-update-notifier --no-fund"@,
            ),
            NodeStrategy::SystemFnm => ActionView::RunShell(
                "fnm exec --using=22 -- "@ + npm_bin(windows)
                    + " install -g openclaw --no-update-notifier --no-fund"@,
            ),
            _ => ActionView::RunShell(
                if windows {
                    "npm install -g openclaw --no-update-notifier --no-fund"@
                } else {
                    "source '"@ + nvm_sh
                        + "' && nvm exec 22 npm install -g openclaw --no-update-notifier --no-fund"@
                },
            ),
        }
    }
}

pub open spec fn npm_start(strategy: NodeStrategy, windows: bool, use_bundled: bool, nvm_sh: Seq<char>) -> Seq<ActionView> {
    seq![
        ActionView::Step("install-openclaw"@, "running"@),
        log("正在通过 npm 全局安装 openclaw，请稍候..."@),
        npm_run(strategy, windows, use_bundled, nvm_sh),
    ]
}

/// After Node.js: Git on Windows, else npm.
pub open spec fn after_node(strategy: NodeStrategy, windows: bool, use_bundled: bool, nvm_sh: Seq<char>) -> (InstallPhase, Seq<ActionView>) {
    if windows {
        (InstallPhase::Git, seq![ActionView::EnsureGit])
    } else {
        (InstallPhase::Npm, npm_start(strategy, windows, use_bundled, nvm_sh))
    }
}

pub open spec fn post_install(strategy: NodeStrategy, use_bundled: bool) -> Seq<ActionView> {
    if use_bundled || strategy is BundledFnm {
        seq![ActionView::SymlinkBundledFnm]
    } else {
        match strategy {
            NodeStrategy::SystemNode(_) => seq![ActionView::SymlinkFromWhich("which openclaw"@)],
            NodeStrategy::SystemFnm => seq![
                ActionView::SymlinkFromWhich("fnm exec --using=22 -- which openclaw"@),
            ],
            _ => seq![log("nvm 已将 Node.js 22 设为默认版本，新终端中 node/npm/openclaw 均可直接使用。"@)],
        }
    }
}

pub open spec fn npm_failure(e: Seq<char>) -> Seq<ActionView> {
    seq![
        ActionView::Step("install-openclaw"@, "error"@),
        log(seq![]),
        log("npm 安装失败，常见原因及解决方法："@),
        log("  1. 缺少 Git：某些 npm 依赖需要 git。"@),
        log("     Windows 请安装 Git for Windows：https://git-scm.com/download/win"@),
        log("  2. 网络问题（大陆用户）：可尝试切换 npm 镜像源后重试"@),
        log("     npm config set registry https://registry.npmmirror.com"@),
        log("  3. 权限问题：尝试在终端手动执行 npm install -g openclaw"@),
        log("  4. 详细日志见 ~/.npm/_logs/ 目录下最新的 debug 文件"@),
        ActionView::Error("install-openclaw"@, e),
        ActionView::Finish(Err(e)),
    ]
}

pub open spec fn finale(verified: bool) -> Seq<ActionView> {
    seq![log(seq![]), log("OpenClaw 安装完成！"@)] + (if verified {
        seq![log("已验证 openclaw 命令可用。"@)]
    } else {
        seq![log("⚠ 当前终端环境尚未识别 openclaw 命令。"@), log("请关闭并重新打开终端窗口（使 PATH 生效），然后执行："@)]
    }) + seq![log("下一步：请在终端中运行 openclaw onboard 完成初始化配置。"@), ActionView::Finish(Ok(()))]
}

/// The message of a step that was cancelled.
pub open spec fn cancelled() -> Seq<char> {
    "已取消"@
}

/// Installing Node.js failed with `e`: the installation ends with it.
pub open spec fn node_failure(e: Seq<char>) -> Seq<ActionView> {
    seq![
        ActionView::Step("install-node"@, "error"@),
        ActionView::Error("install-node"@, e),
        ActionView::Finish(Err(e)),
    ]
}

pub open spec fn event_view(e: InstallEvent) -> (int, Result<(), Seq<char>>, bool) {
    match e {
        InstallEvent::Begin => (0, Ok(()), false),
        InstallEvent::Ran(r) => (1, match r {
            Ok(()) => Ok(()),
            Err(m) => Err(m@),
        }, false),
        InstallEvent::GitReady(b) => (2, Ok(()), b),
        InstallEvent::Verified(b) => (3, Ok(()), b),
    }
}

/// The next phase, whether Node.js now comes from the bundled fnm, and the
/// actions, for an event in a phase.  An event the phase does not wait for
/// changes nothing.  A system fnm or nvm that fails falls back to the
/// bundled fnm, unless the failure is the user's cancellation, which ends the
/// installation.
pub open spec fn install_next(
    phase: InstallPhase,
    strategy: NodeStrategy,
    windows: bool,
    use_bundled: bool,
    fnm_dir: Seq<char>,
    nvm_sh: Seq<char>,
    ev: (int, Result<(), Seq<char>>, bool),
) -> (InstallPhase, bool, Seq<ActionView>) {
    let step1 = "install-node"@;
    if phase == InstallPhase::Start && ev.0 == 0 {
        let head = detection_logs(strategy, fnm_dir) + seq![ActionView::Step(step1, "running"@)];
        match strategy {
            NodeStrategy::SystemNode(v) => {
                let (p, acts) = after_node(strategy, windows, false, nvm_sh);
                (
                    p,
                    false,
                    head + seq![
                        log("系统 Node.js v"@ + dec(v as nat) + " 满足要求（>= 22），跳过安装。"@),
                        ActionView::Step(step1, "done"@),
                    ] + acts,
                )
            },
            NodeStrategy::SystemFnm => (
                InstallPhase::NodeByManager,
                false,
                head + seq![
                    log("正在通过系统 fnm 安装 Node.js 22 并设为默认版本..."@),
                    ActionView::RunShell(fnm_install_cmd()),
                ],
            ),
            NodeStrategy::SystemNvm => (
                InstallPhase::NodeByManager,
                false,
                head + seq![
                    log("正在通过系统 nvm 安装 Node.js 22 并设为默认版本..."@),
                    ActionView::RunShell(nvm_install_cmd(windows, nvm_sh)),
                ],
            ),
            NodeStrategy::BundledFnm => (InstallPhase::NodeByBundled, true, head + bundled_node(fnm_dir)),
        }
    } else if phase == InstallPhase::NodeByManager && ev.0 == 1 {
        match ev.1 {
            Ok(()) => {
                let (p, acts) = after_node(strategy, windows, use_bundled, nvm_sh);
                (p, use_bundled, seq![ActionView::Step(step1, "done"@)] + acts)
            },
            Err(e) => if e == cancelled() {
                (InstallPhase::Finished, use_bundled, node_failure(e))
            } else {
                (
                InstallPhase::NodeByBundled,
                true,
                seq![
                    log(
                        (if strategy is SystemFnm {
                            "⚠ 系统 fnm 安装失败（"@
                        } else {
                            "⚠ 系统 nvm 安装失败（"@
                        }) + e + "），自动切换到内置 fnm..."@,
                    ),
                ] + bundled_node(fnm_dir),
                )
            },
        }
    } else if phase == InstallPhase::NodeByBundled && ev.0 == 1 {
        match ev.1 {
            Ok(()) => {
                let (p, acts) = after_node(strategy, windows, use_bundled, nvm_sh);
                (p, use_bundled, seq![ActionView::Step(step1, "done"@)] + acts)
            },
            Err(e) => (InstallPhase::Finished, use_bundled, node_failure(e)),
        }
    } else if phase == InstallPhase::Git && ev.0 == 2 {
        if ev.2 {
            (InstallPhase::Npm, use_bundled, npm_start(strategy, windows, use_bundled, nvm_sh))
        } else {
            (
                InstallPhase::Finished,
                use_bundled,
                seq![
                    ActionView::Step("ensure-git"@, "error"@),
                    ActionView::Error("ensure-git"@, "缺少 Git，无法继续安装 openclaw"@),
                    ActionView::Finish(Err("缺少 Git，请安装 Git for Windows 后重试"@)),
                ],
            )
        }
    } else if phase == InstallPhase::Npm && ev.0 == 1 {
        match ev.1 {
            Ok(()) => (
                InstallPhase::Verify,
                use_bundled,
                seq![ActionView::Step("install-openclaw"@, "done"@)] + post_install(strategy, use_bundled)
                    + seq![ActionView::WriteMarker, ActionView::Verify],
            ),
            Err(e) => (InstallPhase::Finished, use_bundled, npm_failure(e)),
        }
    } else if phase == InstallPhase::Verify && ev.0 == 3 {
        (InstallPhase::Finished, use_bundled, finale(ev.2))
    } else {
        (phase, use_bundled, seq![])
    }
}

} // verus!

verus! {

fn push_act(v: &mut Vec<InstallAction>, a: InstallAction)
    ensures
        actions_view(final(v)@) == actions_view(old(v)@).push(action_view(a)),
{
    let ghost prev = v@;
    let ghost av = action_view(a);
    v.push(a);
    assert(actions_view(v@) =~= actions_view(prev).push(av));
}

fn append_acts(v: &mut Vec<InstallAction>, w: Vec<InstallAction>)
    ensures
        actions_view(final(v)@) == actions_view(old(v)@) + actions_view(w@),
{
    let ghost prev = v@;
    let ghost wv = w@;
    let mut w = w;
    v.append(&mut w);
    assert(actions_view(v@) =~= actions_view(prev) + actions_view(wv));
}

fn lg(s: &str) -> (r: InstallAction)
    ensures
        action_view(r) == log(s@),
{
    InstallAction::Log(owned(s))
}

fn lg_chars(s: Vec<char>) -> (r: InstallAction)
    ensures
        action_view(r) == log(s@),
{
    InstallAction::Log(from_chars(&s))
}

fn step(a: &str, b: &str) -> (r: InstallAction)
    ensures
        action_view(r) == ActionView::Step(a@, b@),
{
    InstallAction::Step(owned(a), owned(b))
}

fn detection_logs_exec(strategy: NodeStrategy, fnm_dir: &String) -> (r: Vec<InstallAction>)
    ensures
        actions_view(r@) == detection_logs(strategy, fnm_dir@),
{
    let mut r: Vec<InstallAction> = Vec::new();
    match strategy {
        NodeStrategy::SystemNode(v) => {
            let m = concat(
                &concat(&to_chars("检测到系统 Node.js v"), &dec_u64(v as u64)),
                &to_chars("（>= 22），将直接使用系统 npm 安装。"),
            );
            push_act(&mut r, lg_chars(m));
        },
        NodeStrategy::SystemFnm => {
            push_act(&mut r, lg("检测到系统已安装 fnm，将使用系统 fnm 安装 Node.js 22 并设为默认版本。"));
        },
        NodeStrategy::SystemNvm => {
            push_act(&mut r, lg("检测到系统已安装 nvm，将使用系统 nvm 安装 Node.js 22 并设为默认版本。"));
        },
        NodeStrategy::BundledFnm => {
            push_act(
                &mut r,
                lg("未检测到系统 node 版本管理工具，将使用应用内置 fnm（独立隔离目录）安装 Node.js 22。"),
            );
            push_act(&mut r, lg_chars(concat(&to_chars("内置 fnm 目录："), &to_chars(fnm_dir.as_str()))));
            push_act(
                &mut r,
                lg("注意：此模式下在终端执行 `fnm ls` 不会显示这里安装的 node 版本，这是正常现象。"),
            );
        },
    }
    assert(actions_view(r@) =~= detection_logs(strategy, fnm_dir@));
    r
}

fn bundled_node_exec(fnm_dir: &String) -> (r: Vec<InstallAction>)
    ensures
        actions_view(r@) == bundled_node(fnm_dir@),
{
    let mut r: Vec<InstallAction> = Vec::new();
    push_act(&mut r, lg("正在通过内置 fnm 安装 Node.js 22（首次下载约需 1~2 分钟）..."));
    push_act(&mut r, lg_chars(concat(&to_chars("内置 fnm 目录："), &to_chars(fnm_dir.as_str()))));
    let mut args: Vec<String> = Vec::new();
    args.push(owned("install"));
    args.push(owned("22"));
    assert(crate::text::sviews(args@) =~= seq!["install"@, "22"@]);
    push_act(&mut r, InstallAction::RunFnm(args));
    assert(actions_view(r@) =~= bundled_node(fnm_dir@));
    r
}

fn npm_bin_chars(windows: bool) -> (r: Vec<char>)
    ensures
        r@ == npm_bin(windows),
{
    if windows {
        to_chars("npm.cmd")
    } else {
        to_chars("npm")
    }
}

fn npm_run_exec(strategy: NodeStrategy, windows: bool, use_bundled: bool, nvm_sh: &String) -> (r:
    InstallAction)
    ensures
        action_view(r) == npm_run(strategy, windows, use_bundled, nvm_sh@),
{
    let bundled = match strategy {
        NodeStrategy::BundledFnm => true,
        _ => false,
    };
    if use_bundled || bundled {
        let mut args: Vec<String> = Vec::new();
        args.push(owned("exec"));
        args.push(owned("--using=22"));
        args.push(owned("--"));
        args.push(from_chars(&npm_bin_chars(windows)));
        args.push(owned("install"));
        args.push(owned("-g"));
        args.push(owned("openclaw"));
        args.push(owned("--no-update-notifier"));
        args.push(owned("--no-fund"));
        assert(crate::text::sviews(args@) =~= seq![
            "exec"@,
            "--using=22"@,
            "--"@,
            npm_bin(windows),
            "install"@,
            "-g"@,
            "openclaw"@,
            "--no-update-notifier"@,
            "--no-fund"@,
        ]);
        return InstallAction::RunFnm(args);
    }
    match strategy {
        NodeStrategy::SystemNode(_) => InstallAction::RunShell(
            owned("npm install -g openclaw --no-update-notifier --no-fund"),
        ),
        NodeStrategy::SystemFnm => InstallAction::RunShell(
            from_chars(
                &concat(
                    &concat(&to_chars("fnm exec --using=22 -- "), &npm_bin_chars(windows)),
                    &to_chars(" install -g openclaw --no-update-notifier --no-fund"),
                ),
            ),
        ),
        _ => {
            if windows {
                InstallAction::RunShell(owned("npm install -g openclaw --no-update-notifier --no-fund"))
            } else {
                InstallAction::RunShell(
                    from_chars(
                        &concat(
                            &concat(&to_chars("source '"), &to_chars(nvm_sh.as_str())),
                            &to_chars(
                                "' && nvm exec 22 npm install -g openclaw --no-update-notifier --no-fund",
                            ),
                        ),
                    ),
                )
            }
        },
    }
}

fn npm_start_exec(strategy: NodeStrategy, windows: bool, use_bundled: bool, nvm_sh: &String) -> (r:
    Vec<InstallAction>)
    ensures
        actions_view(r@) == npm_start(strategy, windows, use_bundled, nvm_sh@),
{
    let mut r: Vec<InstallAction> = Vec::new();
    push_act(&mut r, step("install-openclaw", "running"));
    push_act(&mut r, lg("正在通过 npm 全局安装 openclaw，请稍候..."));
    push_act(&mut r, npm_run_exec(strategy, windows, use_bundled, nvm_sh));
    assert(actions_view(r@) =~= npm_start(strategy, windows, use_bundled, nvm_sh@));
    r
}

fn after_node_exec(strategy: NodeStrategy, windows: bool, use_bundled: bool, nvm_sh: &String) -> (r: (
    InstallPhase,
    Vec<InstallAction>,
))
    ensures
        (r.0, actions_view(r.1@)) == after_node(strategy, windows, use_bundled, nvm_sh@),
{
    if windows {
        let mut v: Vec<InstallAction> = Vec::new();
        push_act(&mut v, InstallAction::EnsureGit);
        assert(actions_view(v@) =~= seq![ActionView::EnsureGit]);
        (InstallPhase::Git, v)
    } else {
        (InstallPhase::Npm, npm_start_exec(strategy, windows, use_bundled, nvm_sh))
    }
}

fn post_install_exec(strategy: NodeStrategy, use_bundled: bool) -> (r: Vec<InstallAction>)
    ensures
        actions_view(r@) == post_install(strategy, use_bundled),
{
    let mut r: Vec<InstallAction> = Vec::new();
    let bundled = match strategy {
        NodeStrategy::BundledFnm => true,
        _ => false,
    };
    if use_bundled || bundled {
        push_act(&mut r, InstallAction::SymlinkBundledFnm);
    } else {
        match strategy {
            NodeStrategy::SystemNode(_) => {
                push_act(&mut r, InstallAction::SymlinkFromWhich(owned("which openclaw")));
            },
            NodeStrategy::SystemFnm => {
                push_act(
                    &mut r,
                    InstallAction::SymlinkFromWhich(owned("fnm exec --using=22 -- which openclaw")),
                );
            },
            _ => {
                push_act(
                    &mut r,
                    lg("nvm 已将 Node.js 22 设为默认版本，新终端中 node/npm/openclaw 均可直接使用。"),
                );
            },
        }
    }
    assert(actions_view(r@) =~= post_install(strategy, use_bundled));
    r
}

fn npm_failure_exec(e: String) -> (r: Vec<InstallAction>)
    ensures
        actions_view(r@) == npm_failure(e@),
{
    let mut r: Vec<InstallAction> = Vec::new();
    push_act(&mut r, step("install-openclaw", "error"));
    push_act(&mut r, InstallAction::Log(String::new()));
    push_act(&mut r, lg("npm 安装失败，常见原因及解决方法："));
    push_act(&mut r, lg("  1. 缺少 Git：某些 npm 依赖需要 git。"));
    push_act(&mut r, lg("     Windows 请安装 Git for Windows：https://git-scm.com/download/win"));
    push_act(&mut r, lg("  2. 网络问题（大陆用户）：可尝试切换 npm 镜像源后重试"));
    push_act(&mut r, lg("     npm config set registry https://registry.npmmirror.com"));
    push_act(&mut r, lg("  3. 权限问题：尝试在终端手动执行 npm install -g openclaw"));
    push_act(&mut r, lg("  4. 详细日志见 ~/.npm/_logs/ 目录下最新的 debug 文件"));
    push_act(&mut r, InstallAction::Error(owned("install-openclaw"), e.clone()));
    push_act(&mut r, InstallAction::Finish(Err(e)));
    assert(actions_view(r@) =~= npm_failure(e@));
    r
}

fn finale_exec(verified: bool) -> (r: Vec<InstallAction>)
    ensures
        actions_view(r@) == finale(verified),
{
    let mut r: Vec<InstallAction> = Vec::new();
    push_act(&mut r, InstallAction::Log(String::new()));
    push_act(&mut r, lg("OpenClaw 安装完成！"));
    if verified {
        push_act(&mut r, lg("已验证 openclaw 命令可用。"));
    } else {
        push_act(&mut r, lg("⚠ 当前终端环境尚未识别 openclaw 命令。"));
        push_act(&mut r, lg("请关闭并重新打开终端窗口（使 PATH 生效），然后执行："));
    }
    push_act(&mut r, lg("下一步：请在终端中运行 openclaw onboard 完成初始化配置。"));
    push_act(&mut r, InstallAction::Finish(Ok(())));
    assert(actions_view(r@) =~= finale(verified));
    r
}

impl InstallRun {
    pub fn new(strategy: NodeStrategy, windows: bool, fnm_dir: String, nvm_sh: String) -> (r: Self)
        ensures
            r.phase == InstallPhase::Start,
            r.strategy == strategy,
            r.windows == windows,
            !r.use_bundled,
            r.fnm_dir == fnm_dir,
            r.nvm_sh == nvm_sh,
    {
        InstallRun { phase: InstallPhase::Start, strategy, windows, use_bundled: false, fnm_dir, nvm_sh }
    }

    /// Takes the app's answer and says what to do next.
    pub fn advance(&mut self, event: InstallEvent) -> (r: Vec<InstallAction>)
        ensures
            ({
                let (p, b, acts) = install_next(
                    old(self).phase,
                    old(self).strategy,
                    old(self).windows,
                    old(self).use_bundled,
                    old(self).fnm_dir@,
                    old(self).nvm_sh@,
                    event_view(event),
                );
                &&& final(self).phase == p
                &&& final(self).use_bundled == b
                &&& actions_view(r@) == acts
                &&& final(self).strategy == old(self).strategy
                &&& final(self).windows == old(self).windows
                &&& final(self).fnm_dir == old(self).fnm_dir
                &&& final(self).nvm_sh == old(self).nvm_sh
            }),
    {
        let mut r: Vec<InstallAction> = Vec::new();
        let ghost ev = event_view(event);
        match (self.phase, event) {
            (InstallPhase::Start, InstallEvent::Begin) => {
                r = detection_logs_exec(self.strategy, &self.fnm_dir);
                push_act(&mut r, step("install-node", "running"));
                match self.strategy {
                    NodeStrategy::SystemNode(v) => {
                        let m = concat(
                            &concat(&to_chars("系统 Node.js v"), &dec_u64(v as u64)),
                            &to_chars(" 满足要求（>= 22），跳过安装。"),
                        );
                        push_act(&mut r, lg_chars(m));
                        push_act(&mut r, step("install-node", "done"));
                        let (p, acts) = after_node_exec(self.strategy, self.windows, false, &self.nvm_sh);
                        append_acts(&mut r, acts);
                        self.phase = p;
                        self.use_bundled = false;
                    },
                    NodeStrategy::SystemFnm => {
                        push_act(&mut r, lg("正在通过系统 fnm 安装 Node.js 22 并设为默认版本..."));
                        push_act(
                            &mut r,
                            InstallAction::RunShell(
                                owned(
                                    "fnm --node-dist-mirror https://npmmirror.com/mirrors/node install 22 && fnm default 22",
                                ),
                            ),
                        );
                        self.phase = InstallPhase::NodeByManager;
                        self.use_bundled = false;
                    },
                    NodeStrategy::SystemNvm => {
                        push_act(&mut r, lg("正在通过系统 nvm 安装 Node.js 22 并设为默认版本..."));
                        let cmd = if self.windows {
                            owned("nvm install 22 && nvm use 22")
                        } else {
                            from_chars(
                                &concat(
                                    &concat(&to_chars("source '"), &to_chars(self.nvm_sh.as_str())),
                                    &to_chars("' && nvm install 22 && nvm alias default 22"),
                                ),
                            )
                        };
                        push_act(&mut r, InstallAction::RunShell(cmd));
                        self.phase = InstallPhase::NodeByManager;
                        self.use_bundled = false;
                    },
                    NodeStrategy::BundledFnm => {
                        append_acts(&mut r, bundled_node_exec(&self.fnm_dir));
                        self.phase = InstallPhase::NodeByBundled;
                        self.use_bundled = true;
                    },
                }
            },
            (InstallPhase::NodeByManager, InstallEvent::Ran(res)) => {
                match res {
                    Ok(()) => {
                        push_act(&mut r, step("install-node", "done"));
                        let (p, acts) = after_node_exec(
                            self.strategy,
                            self.windows,
                            self.use_bundled,
                            &self.nvm_sh,
                        );
                        append_acts(&mut r, acts);
                        self.phase = p;
                    },
                    Err(e) => if crate::text::str_is(&to_chars(e.as_str()), "已取消") {
                        push_act(&mut r, step("install-node", "error"));
                        push_act(&mut r, InstallAction::Error(owned("install-node"), e.clone()));
                        push_act(&mut r, InstallAction::Finish(Err(e)));
                        self.phase = InstallPhase::Finished;
                    } else {
                        let head = match self.strategy {
                            NodeStrategy::SystemFnm => to_chars("⚠ 系统 fnm 安装失败（"),
                            _ => to_chars("⚠ 系统 nvm 安装失败（"),
                        };
                        let m = concat(
                            &concat(&head, &to_chars(e.as_str())),
                            &to_chars("），自动切换到内置 fnm..."),
                        );
                        push_act(&mut r, lg_chars(m));
                        append_acts(&mut r, bundled_node_exec(&self.fnm_dir));
                        self.phase = InstallPhase::NodeByBundled;
                        self.use_bundled = true;
                    },
                }
            },
            (InstallPhase::NodeByBundled, InstallEvent::Ran(res)) => {
                match res {
                    Ok(()) => {
                        push_act(&mut r, step("install-node", "done"));
                        let (p, acts) = after_node_exec(
                            self.strategy,
                            self.windows,
                            self.use_bundled,
                            &self.nvm_sh,
                        );
                        append_acts(&mut r, acts);
                        self.phase = p;
                    },
                    Err(e) => {
                        push_act(&mut r, step("install-node", "error"));
                        push_act(&mut r, InstallAction::Error(owned("install-node"), e.clone()));
                        push_act(&mut r, InstallAction::Finish(Err(e)));
                        self.phase = InstallPhase::Finished;
                    },
                }
            },
            (InstallPhase::Git, InstallEvent::GitReady(ok)) => {
                if ok {
                    r = npm_start_exec(self.strategy, self.windows, self.use_bundled, &self.nvm_sh);
                    self.phase = InstallPhase::Npm;
                } else {
                    push_act(&mut r, step("ensure-git", "error"));
                    push_act(
                        &mut r,
                        InstallAction::Error(owned("ensure-git"), owned("缺少 Git，无法继续安装 openclaw")),
                    );
                    push_act(&mut r, InstallAction::Finish(Err(owned("缺少 Git，请安装 Git for Windows 后重试"))));
                    self.phase = InstallPhase::Finished;
                }
            },
            (InstallPhase::Npm, InstallEvent::Ran(res)) => {
                match res {
                    Ok(()) => {
                        push_act(&mut r, step("install-openclaw", "done"));
                        append_acts(&mut r, post_install_exec(self.strategy, self.use_bundled));
                        push_act(&mut r, InstallAction::WriteMarker);
                        push_act(&mut r, InstallAction::Verify);
                        self.phase = InstallPhase::Verify;
                    },
                    Err(e) => {
                        r = npm_failure_exec(e);
                        self.phase = InstallPhase::Finished;
                    },
                }
            },
            (InstallPhase::Verify, InstallEvent::Verified(v)) => {
                r = finale_exec(v);
                self.phase = InstallPhase::Finished;
            },
            _ => {
                assert(actions_view(r@) =~= Seq::<ActionView>::empty());
            },
        }
        proof {
            let (p, b, acts) = install_next(
                old(self).phase,
                old(self).strategy,
                old(self).windows,
                old(self).use_bundled,
                old(self).fnm_dir@,
                old(self).nvm_sh@,
                ev,
            );
            assert(actions_view(r@) =~= acts);
        }
        r
    }
}

/// The log line after an installation ends: a cancelled one says so.
pub fn finish_log(result: &Result<(), String>) -> (r: Option<String>)
    ensures
        match result {
            Err(e) if e@ == "已取消"@ => r matches Some(m) && m@ == "安装已取消。"@,
            _ => r is None,
        },
{
    match result {
        Err(e) => {
            if crate::text::str_is(&to_chars(e.as_str()), "已取消") {
                Some(owned("安装已取消。"))
            } else {
                None
            }
        },
        Ok(()) => None,
    }
}

} // verus!

verus! {

// ─── Status ─────────────────────────────────────────────────────────────────

/// Whether OpenClaw is installed, and onboarded.
pub struct OpenclawInstallStatus {
    /// npm installed the package (its marker file exists and the command runs).
    pub npm_installed: bool,
    /// Onboarding is done (`~/.openclaw/openclaw.json` exists).
    pub onboarded: bool,
}

/// Whether `openclaw --version` must run to settle the status: only for a
/// marker file without an onboarding.
pub fn needs_command_check(onboarded: bool, flag_exists: bool) -> (r: bool)
    ensures
        r == (!onboarded && flag_exists),
{
    !onboarded && flag_exists
}

/// The installation status; `runs` is whether `openclaw --version` ran (only
/// read when the check was needed).  Also whether to remove a stale marker.
pub fn install_status(onboarded: bool, flag_exists: bool, runs: bool) -> (r: (OpenclawInstallStatus, bool))
    ensures
        r.0.onboarded == onboarded,
        r.0.npm_installed == (onboarded || (flag_exists && runs)),
        r.1 == (!onboarded && flag_exists && !runs),
{
    if onboarded {
        (OpenclawInstallStatus { npm_installed: true, onboarded }, false)
    } else if flag_exists {
        (OpenclawInstallStatus { npm_installed: runs, onboarded }, !runs)
    } else {
        (OpenclawInstallStatus { npm_installed: false, onboarded }, false)
    }
}

/// Lets one installation run at a time.
pub struct InstallGate {
    pub running: bool,
}

impl InstallGate {
    pub fn new() -> (r: Self)
        ensures
            !r.running,
    {
        InstallGate { running: false }
    }

    /// Starts an installation unless one is running.
    pub fn try_start(&mut self) -> (r: Result<(), String>)
        ensures
            old(self).running ==> (r matches Err(e) && e@ == "安装已在进行中"@) && final(self).running,
            !old(self).running ==> r is Ok && final(self).running,
    {
        if self.running {
            return Err(owned("安装已在进行中"));
        }
        self.running = true;
        Ok(())
    }

    /// The installation ended.
    pub fn finish(&mut self)
        ensures
            !final(self).running,
    {
        self.running = false;
    }
}

/// Whether the Node.js step of a version manager installs Node.js 22 and
/// leaves it the version used afterwards: fnm installs it and makes it the
/// default; nvm installs it and, on Windows, switches to it (`nvm use`),
/// elsewhere makes it the default (`nvm alias default`).
pub open spec fn installs_and_activates_22(strategy: NodeStrategy, windows: bool, cmd: Seq<char>) -> bool {
    match strategy {
        NodeStrategy::SystemFnm => has_sub(cmd, "install 22"@) && has_sub(cmd, "fnm default 22"@),
        NodeStrategy::SystemNvm => has_sub(cmd, "nvm install 22"@) && if windows {
            has_sub(cmd, "nvm use 22"@)
        } else {
            has_sub(cmd, "nvm alias default 22"@)
        },
        _ => false,
    }
}

/// With a system fnm or nvm, the installation begins by running one shell
/// command that installs Node.js 22 and leaves it the version the following
/// npm step runs on.
pub proof fn law_manager_step_activates_node22(
    strategy: NodeStrategy,
    windows: bool,
    use_bundled: bool,
    fnm_dir: Seq<char>,
    nvm_sh: Seq<char>,
)
    requires
        strategy is SystemFnm || strategy is SystemNvm,
    ensures
        ({
            let (p, b, acts) = install_next(
                InstallPhase::Start,
                strategy,
                windows,
                use_bundled,
                fnm_dir,
                nvm_sh,
                (0, Ok(()), false),
            );
            &&& p == InstallPhase::NodeByManager
            &&& acts.len() > 0
            &&& acts.last() matches ActionView::RunShell(c) && installs_and_activates_22(strategy, windows, c)
        }),
{
    reveal_strlit("fnm --node-dist-mirror https://npmmirror.com/mirrors/node install 22 && fnm default 22");
    reveal_strlit("install 22");
    reveal_strlit("fnm default 22");
    reveal_strlit("nvm install 22 && nvm use 22");
    reveal_strlit("nvm install 22");
    reveal_strlit("nvm use 22");
    reveal_strlit("' && nvm install 22 && nvm alias default 22");
    reveal_strlit("nvm alias default 22");
    reveal_strlit("source '");
    let (p, b, acts) = install_next(
        InstallPhase::Start,
        strategy,
        windows,
        use_bundled,
        fnm_dir,
        nvm_sh,
        (0, Ok(()), false),
    );
    if strategy is SystemFnm {
        let c = fnm_install_cmd();
        let p1 = "install 22"@;
        let p2 = "fnm default 22"@;
        assert(c.subrange(58int, 58int + p1.len()) =~= p1);
        assert(c.subrange(72int, 72int + p2.len()) =~= p2);
        assert(acts.last() == ActionView::RunShell(c));
    } else if windows {
        let c = nvm_install_cmd(windows, nvm_sh);
        let p1 = "nvm install 22"@;
        let p2 = "nvm use 22"@;
        assert(c.subrange(0int, 0int + p1.len()) =~= p1);
        assert(c.subrange(18int, 18int + p2.len()) =~= p2);
        assert(acts.last() == ActionView::RunShell(c));
    } else {
        let c = nvm_install_cmd(windows, nvm_sh);
        let k: int = 8 + nvm_sh.len() as int;
        let p1 = "nvm install 22"@;
        let p2 = "nvm alias default 22"@;
        assert(c.subrange(k + 5, k + 5 + p1.len()) =~= p1);
        assert(c.subrange(k + 23, k + 23 + p2.len()) =~= p2);
        assert(acts.last() == ActionView::RunShell(c));
    }
}

/// An installation ends with one `Finish`, exactly when it reaches its end.
pub proof fn law_finish_when_finished(
    phase: InstallPhase,
    strategy: NodeStrategy,
    windows: bool,
    use_bundled: bool,
    fnm_dir: Seq<char>,
    nvm_sh: Seq<char>,
    ev: (int, Result<(), Seq<char>>, bool),
)
    requires
        phase != InstallPhase::Finished,
    ensures
        ({
            let (p, b, acts) = install_next(phase, strategy, windows, use_bundled, fnm_dir, nvm_sh, ev);
            &&& (p == InstallPhase::Finished) == (acts.len() > 0 && acts.last() is Finish)
            &&& forall|i: int| 0 <= i < acts.len() - 1 ==> !(acts[i] is Finish)
        }),
{
    let (p, b, acts) = install_next(phase, strategy, windows, use_bundled, fnm_dir, nvm_sh, ev);
    assert(forall|i: int| 0 <= i < acts.len() - 1 ==> !(acts[i] is Finish));
}

} // verus!

verus! {

// ─── Shell profiles and npm settings ────────────────────────────────────────

/// The profile a shell reads: `.zshrc` for zsh, `.bash_profile` otherwise.
pub fn profile_name(shell: &str) -> (r: String)
    ensures
        r@ == if crate::text::has_sub(shell@, "zsh"@) {
            ".zshrc"@
        } else {
            ".bash_profile"@
        },
{
    if crate::text::contains_seq(&to_chars(shell), &to_chars("zsh")) {
        owned(".zshrc")
    } else {
        owned(".bash_profile")
    }
}

/// The profile line that puts a directory in front of `PATH`.
pub fn path_export_line(dir: &str) -> (r: String)
    ensures
        r@ == "export PATH=\""@ + dir@ + ":$PATH\""@,
{
    from_chars(&concat(&concat(&to_chars("export PATH=\""), &to_chars(dir)), &to_chars(":$PATH\"")))
}

/// The error of a command that exited with a failure code (-1 without one).
pub fn exit_code_error(code: Option<i32>) -> (r: String)
    ensures
        r@ == "进程退出码 "@ + crate::text::dec_signed(
            match code {
                Some(c) => c as int,
                None => -1,
            },
        ),
{
    let c: i32 = match code {
        Some(c) => c,
        None => -1,
    };
    from_chars(&concat(&to_chars("进程退出码 "), &crate::text::dec_i64(c as i64)))
}

/// `~/.npmrc` after pointing npm at Git: with a `git=` entry, every line
/// starting `git=` replaced by the new one and the text ending in one newline;
/// otherwise the new line appended.
pub enum NpmrcEdit {
    /// Write the whole file.
    Rewrite(String),
    /// Append this line (and a newline).
    Append(String),
}

/// The `git=` line for a Git executable, with forward slashes.
pub open spec fn git_line(git_exe: Seq<char>) -> Seq<char> {
    "git="@ + git_exe.map_values(|c: char| if c == '\\' { '/' } else { c })
}

/// The lines with every `git=` line replaced.
pub open spec fn replace_git_lines(ls: Seq<Seq<char>>, line: Seq<char>) -> Seq<Seq<char>> {
    ls.map_values(|l: Seq<char>| if has_prefix(l, "git="@) { line } else { l })
}

pub open spec fn npmrc_edit(existing: Seq<char>, git_exe: Seq<char>) -> (bool, Seq<char>) {
    if crate::text::has_sub(existing, "git="@) {
        (
            true,
            crate::text::trim_end(
                crate::text::join(
                    replace_git_lines(crate::text::lines(existing), git_line(git_exe)),
                    seq!['\n'],
                ),
            ) + seq!['\n'],
        )
    } else {
        (false, git_line(git_exe))
    }
}

fn forward_slashes(g: &Vec<char>) -> (r: Vec<char>)
    ensures
        r@ == g@.map_values(|c: char| if c == '\\' { '/' } else { c }),
{
    let mut fwd: Vec<char> = Vec::new();
    let mut i: usize = 0;
    while i < g.len()
        invariant
            i <= g@.len(),
            fwd@ == g@.map_values(|c: char| if c == '\\' { '/' } else { c }).take(i as int),
        decreases g@.len() - i,
    {
        let c = g[i];
        fwd.push(if c == '\\' { '/' } else { c });
        i = i + 1;
        assert(fwd@ =~= g@.map_values(|c: char| if c == '\\' { '/' } else { c }).take(i as int));
    }
    assert(g@.map_values(|c: char| if c == '\\' { '/' } else { c }).take(g@.len() as int)
        =~= g@.map_values(|c: char| if c == '\\' { '/' } else { c }));
    fwd
}

fn replace_git_lines_exec(ls: &Vec<Vec<char>>, line: &Vec<char>) -> (r: Vec<Vec<char>>)
    ensures
        crate::text::views(r@) == replace_git_lines(crate::text::views(ls@), line@),
{
    let mut out: Vec<Vec<char>> = Vec::new();
    let mut k: usize = 0;
    let prefix = to_chars("git=");
    while k < ls.len()
        invariant
            k <= ls@.len(),
            prefix@ == "git="@,
            crate::text::views(out@) == replace_git_lines(crate::text::views(ls@), line@).take(
                k as int,
            ),
        decreases ls@.len() - k,
    {
        let ghost prev = out@;
        let l = if starts_with_seq(&ls[k], &prefix) {
            line.clone()
        } else {
            ls[k].clone()
        };
        out.push(l);
        assert(crate::text::views(out@) =~= crate::text::views(prev).push(l@));
        assert(replace_git_lines(crate::text::views(ls@), line@).take(k + 1) =~= replace_git_lines(
            crate::text::views(ls@),
            line@,
        ).take(k as int).push(l@));
        k = k + 1;
    }
    assert(replace_git_lines(crate::text::views(ls@), line@).take(ls@.len() as int)
        =~= replace_git_lines(crate::text::views(ls@), line@));
    out
}

pub fn configure_npm_git(existing: &str, git_exe: &str) -> (r: NpmrcEdit)
    ensures
        match r {
            NpmrcEdit::Rewrite(t) => npmrc_edit(existing@, git_exe@) == (true, t@),
            NpmrcEdit::Append(l) => npmrc_edit(existing@, git_exe@) == (false, l@),
        },
{
    let fwd = forward_slashes(&to_chars(git_exe));
    let line = concat(&to_chars("git="), &fwd);
    let ex = to_chars(existing);
    if !crate::text::contains_seq(&ex, &to_chars("git=")) {
        return NpmrcEdit::Append(from_chars(&line));
    }
    let ls = crate::text::lines_of(&ex);
    let out = replace_git_lines_exec(&ls, &line);
    let mut nl: Vec<char> = Vec::new();
    nl.push('\n');
    assert(nl@ =~= seq!['\n']);
    let joined = crate::text::join_exec(&out, &nl);
    let mut t = crate::text::trim_end_exec(&joined);
    t.push('\n');
    NpmrcEdit::Rewrite(from_chars(&t))
}

/// The `git=` line for a Git executable.
pub fn npm_git_line(git_exe: &str) -> (r: String)
    ensures
        r@ == git_line(git_exe@),
{
    from_chars(&concat(&to_chars("git="), &forward_slashes(&to_chars(git_exe))))
}

/// The arguments of a run of the bundled fnm: its directory and the Node.js
/// mirror, then the command's own arguments.
pub fn fnm_args(fnm_dir: &str, args: &Vec<String>) -> (r: Vec<String>)
    ensures
        crate::text::sviews(r@) == seq!["--fnm-dir"@, fnm_dir@, "--node-dist-mirror"@, node_dist_mirror()]
            + crate::text::sviews(args@),
{
    let mut r: Vec<String> = Vec::new();
    r.push(owned("--fnm-dir"));
    r.push(owned(fnm_dir));
    r.push(owned("--node-dist-mirror"));
    r.push(owned("https://npmmirror.com/mirrors/node"));
    let ghost head = crate::text::sviews(r@);
    let mut i: usize = 0;
    while i < args.len()
        invariant
            i <= args@.len(),
            head == seq!["--fnm-dir"@, fnm_dir@, "--node-dist-mirror"@, node_dist_mirror()],
            crate::text::sviews(r@) == head + crate::text::sviews(args@).take(i as int),
        decreases args@.len() - i,
    {
        let ghost prev = r@;
        r.push(args[i].clone());
        assert(crate::text::sviews(r@) =~= crate::text::sviews(prev).push(args@[i as int]@));
        assert(crate::text::sviews(args@).take(i + 1) =~= crate::text::sviews(args@).take(i as int).push(
            args@[i as int]@,
        ));
        i = i + 1;
    }
    assert(crate::text::sviews(args@).take(args@.len() as int) =~= crate::text::sviews(args@));
    r
}

/// The PowerShell script that appends directories to the user's `PATH`,
/// skipping those it has already; each directory single-quoted with `'`
/// doubled.
pub open spec fn ps_quote(d: Seq<char>) -> Seq<char>
    decreases d.len(),
{
    if d.len() == 0 {
        seq![]
    } else if d.last() == '\'' {
        ps_quote(d.drop_last()) + seq!['\'', '\'']
    } else {
        ps_quote(d.drop_last()).push(d.last())
    }
}

pub open spec fn ps_path_script(quoted: Seq<Seq<char>>) -> Seq<char> {
    "$p = [Environment]::GetEnvironmentVariable('PATH','User'); $toAdd = @("@ + crate::text::join(
        quoted,
        seq![','],
    )
        + "); foreach($d in $toAdd){ if($p -and $p.Split(';') -contains $d){ continue }; if($p){ $p = \"$p;$d\" } else { $p = $d } }; [Environment]::SetEnvironmentVariable('PATH',$p,'User')"@
}

pub open spec fn ps_quoted(dirs: Seq<Seq<char>>) -> Seq<Seq<char>> {
    dirs.map_values(|d: Seq<char>| seq!['\''] + ps_quote(d) + seq!['\''])
}

fn ps_quote_exec(d: &Vec<char>) -> (r: Vec<char>)
    ensures
        r@ == seq!['\''] + ps_quote(d@) + seq!['\''],
{
    let mut r: Vec<char> = Vec::new();
    r.push('\'');
    let mut i: usize = 0;
    while i < d.len()
        invariant
            i <= d@.len(),
            r@ == seq!['\''] + ps_quote(d@.take(i as int)),
        decreases d@.len() - i,
    {
        proof {
            assert(d@.take(i + 1).drop_last() =~= d@.take(i as int));
        }
        if d[i] == '\'' {
            r.push('\'');
            r.push('\'');
        } else {
            r.push(d[i]);
        }
        i = i + 1;
        assert(r@ =~= seq!['\''] + ps_quote(d@.take(i as int)));
    }
    assert(d@.take(d@.len() as int) =~= d@);
    r.push('\'');
    r
}

pub fn add_to_user_path_script(dirs: &Vec<String>) -> (r: String)
    ensures
        r@ == ps_path_script(ps_quoted(crate::text::sviews(dirs@))),
{
    let mut parts: Vec<Vec<char>> = Vec::new();
    let mut i: usize = 0;
    while i < dirs.len()
        invariant
            i <= dirs@.len(),
            crate::text::views(parts@) == ps_quoted(crate::text::sviews(dirs@)).take(i as int),
        decreases dirs@.len() - i,
    {
        let ghost prev = parts@;
        let q = ps_quote_exec(&to_chars(dirs[i].as_str()));
        parts.push(q);
        assert(crate::text::views(parts@) =~= crate::text::views(prev).push(q@));
        assert(ps_quoted(crate::text::sviews(dirs@)).take(i + 1) =~= ps_quoted(
            crate::text::sviews(dirs@),
        ).take(i as int).push(q@));
        i = i + 1;
    }
    assert(ps_quoted(crate::text::sviews(dirs@)).take(dirs@.len() as int) =~= ps_quoted(
        crate::text::sviews(dirs@),
    ));
    let mut comma: Vec<char> = Vec::new();
    comma.push(',');
    assert(comma@ =~= seq![',']);
    let body = crate::text::join_exec(&parts, &comma);
    let head = to_chars("$p = [Environment]::GetEnvironmentVariable('PATH','User'); $toAdd = @(");
    let tail = to_chars("); foreach($d in $toAdd){ if($p -and $p.Split(';') -contains $d){ continue }; if($p){ $p = \"$p;$d\" } else { $p = $d } }; [Environment]::SetEnvironmentVariable('PATH',$p,'User')");
    from_chars(&concat(&concat(&head, &body), &tail))
}

} // verus!

verus! {

// ─── The login shell ────────────────────────────────────────────────────────

/// The login shell on Unix: `$SHELL` when it is set and exists, else
/// `/bin/zsh`, else `/bin/bash`, else `/bin/sh`.
pub open spec fn login_shell(env_shell: Option<Seq<char>>, env_shell_exists: bool, zsh: bool, bash: bool) -> Seq<char> {
    match env_shell {
        Some(s) if env_shell_exists => s,
        _ => if zsh {
            "/bin/zsh"@
        } else if bash {
            "/bin/bash"@
        } else {
            "/bin/sh"@
        },
    }
}

/// Picks the login shell from `$SHELL`, whether that path exists, and
/// whether `/bin/zsh` and `/bin/bash` exist.
pub fn pick_login_shell(env_shell: Option<String>, env_shell_exists: bool, zsh: bool, bash: bool) -> (r: String)
    ensures
        r@ == login_shell(
            match env_shell {
                Some(s) => Some(s@),
                None => None,
            },
            env_shell_exists,
            zsh,
            bash,
        ),
{
    match env_shell {
        Some(s) if env_shell_exists => s,
        _ => if zsh {
            owned("/bin/zsh")
        } else if bash {
            owned("/bin/bash")
        } else {
            owned("/bin/sh")
        },
    }
}

/// The shell on Windows: `%COMSPEC%`, else `cmd.exe`.
pub fn windows_login_shell(comspec: Option<String>) -> (r: String)
    ensures
        match comspec {
            Some(c) => r == c,
            None => r@ == "cmd.exe"@,
        },
{
    match comspec {
        Some(c) => c,
        None => owned("cmd.exe"),
    }
}

/// Whether a downloaded MinGit archive counts as complete: it exists and is
/// larger than 1,000,000 bytes (`size` is `None` when there is no file or
/// its size cannot be read).
pub fn zip_is_complete(size: Option<u64>) -> (r: bool)
    ensures
        r == (size matches Some(n) && n > 1_000_000),
{
    match size {
        Some(n) => n > 1_000_000,
        None => false,
    }
}

} // verus!
