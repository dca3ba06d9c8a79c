use claw_browser::installer::{
    add_to_user_path_script, configure_npm_git, detect_node_strategy, detect_system_fnm,
    detect_system_node_major, exit_code_error, finish_log, install_status, is_npm_noise,
    needs_command_check, path_export_line, pick_login_shell, profile_name, windows_login_shell, zip_is_complete, GitDirMemo, InstallAction, InstallEvent,
    InstallGate, InstallPhase, InstallRun, NodeStrategy, NpmrcEdit, Probe,
};

fn kinds(acts: &[InstallAction]) -> Vec<String> {
    acts.iter()
        .map(|a| match a {
            InstallAction::Log(_) => "log".to_string(),
            InstallAction::Step(s, st) => format!("step:{}:{}", s, st),
            InstallAction::Error(s, e) => format!("error:{}:{}", s, e),
            InstallAction::RunShell(c) => format!("shell:{}", c),
            InstallAction::RunFnm(args) => format!("fnm:{}", args.join(" ")),
            InstallAction::EnsureGit => "git".to_string(),
            InstallAction::SymlinkBundledFnm => "link-bundled".to_string(),
            InstallAction::SymlinkFromWhich(c) => format!("link:{}", c),
            InstallAction::WriteMarker => "marker".to_string(),
            InstallAction::Verify => "verify".to_string(),
            InstallAction::Finish(Ok(())) => "finish-ok".to_string(),
            InstallAction::Finish(Err(e)) => format!("finish-err:{}", e),
        })
        .collect()
}

fn logs(acts: &[InstallAction]) -> Vec<String> {
    acts.iter()
        .filter_map(|a| match a {
            InstallAction::Log(l) => Some(l.clone()),
            _ => None,
        })
        .collect()
}

#[test]
fn node_major_from_output() {
    assert_eq!(detect_system_node_major(true, b"v22.3.1\n"), Some(22));
    assert_eq!(detect_system_node_major(true, b"  v18.19.0 "), Some(18));
    assert_eq!(detect_system_node_major(true, b"vv20"), Some(20));
    assert_eq!(detect_system_node_major(true, b"+23.0.0"), Some(23));
    assert_eq!(detect_system_node_major(true, b"v.1"), None);
    assert_eq!(detect_system_node_major(true, b"node: not found"), None);
    assert_eq!(detect_system_node_major(true, b"v99999999999.0"), None);
    assert_eq!(detect_system_node_major(false, b"v22.0.0"), None);
    assert_eq!(detect_system_node_major(true, &[b'v', 0xff, b'1']), None);
}

#[test]
fn fnm_probe() {
    assert!(detect_system_fnm(Some(true)));
    assert!(!detect_system_fnm(Some(false)));
    assert!(!detect_system_fnm(None));
}

#[test]
fn unix_strategy_order() {
    assert!(detect_node_strategy(false, None, None, None) == Err(Probe::Nvm));
    assert!(detect_node_strategy(false, Some(true), None, None) == Ok(NodeStrategy::SystemNvm));
    assert!(detect_node_strategy(false, Some(false), None, None) == Err(Probe::Fnm));
    assert!(detect_node_strategy(false, Some(false), Some(true), None) == Ok(NodeStrategy::SystemFnm));
    assert!(detect_node_strategy(false, Some(false), Some(false), None) == Err(Probe::NodeMajor));
    assert!(detect_node_strategy(false, Some(false), Some(false), Some(Some(22))) == Ok(NodeStrategy::SystemNode(22)));
    assert!(detect_node_strategy(false, Some(false), Some(false), Some(Some(21))) == Ok(NodeStrategy::BundledFnm));
    assert!(detect_node_strategy(false, Some(false), Some(false), Some(None)) == Ok(NodeStrategy::BundledFnm));
}

#[test]
fn windows_strategy_order() {
    assert!(detect_node_strategy(true, None, None, None) == Err(Probe::NodeMajor));
    assert!(detect_node_strategy(true, None, None, Some(Some(24))) == Ok(NodeStrategy::SystemNode(24)));
    assert!(detect_node_strategy(true, None, None, Some(Some(20))) == Err(Probe::Nvm));
    assert!(detect_node_strategy(true, Some(true), None, Some(None)) == Ok(NodeStrategy::SystemNvm));
    assert!(detect_node_strategy(true, Some(false), None, Some(None)) == Err(Probe::Fnm));
    assert!(detect_node_strategy(true, Some(false), Some(false), Some(None)) == Ok(NodeStrategy::BundledFnm));
}

#[test]
fn npm_noise_lines() {
    assert!(is_npm_noise("  npm notice New minor version"));
    assert!(is_npm_noise("npm warn EBADENGINE Unsupported engine"));
    assert!(!is_npm_noise("npm warn deprecated x"));
    assert!(!is_npm_noise("added 10 packages"));
}

#[test]
fn git_dir_first_wins() {
    let mut m = GitDirMemo::new();
    assert!(m.dir.is_none());
    m.remember_git_dir("C:\\Git\\cmd");
    m.remember_git_dir("D:\\Other");
    assert_eq!(m.dir, Some("C:\\Git\\cmd".to_string()));
}

#[test]
fn system_node_on_unix_runs_npm_directly() {
    let mut run = InstallRun::new(NodeStrategy::SystemNode(22), false, "/d/fnm".to_string(), "/h/.nvm/nvm.sh".to_string());
    let a = run.advance(InstallEvent::Begin);
    assert_eq!(
        kinds(&a),
        vec![
            "log",
            "step:install-node:running",
            "log",
            "step:install-node:done",
            "step:install-openclaw:running",
            "log",
            "shell:npm install -g openclaw --no-update-notifier --no-fund"
        ]
    );
    assert_eq!(logs(&a)[0], "检测到系统 Node.js v22（>= 22），将直接使用系统 npm 安装。");
    assert_eq!(logs(&a)[1], "系统 Node.js v22 满足要求（>= 22），跳过安装。");
    assert!(run.phase == InstallPhase::Npm);
    let b = run.advance(InstallEvent::Ran(Ok(())));
    assert_eq!(kinds(&b), vec!["step:install-openclaw:done", "link:which openclaw", "marker", "verify"]);
    assert!(run.phase == InstallPhase::Verify);
    let c = run.advance(InstallEvent::Verified(true));
    assert_eq!(kinds(&c).last().unwrap(), "finish-ok");
    assert!(logs(&c).contains(&"已验证 openclaw 命令可用。".to_string()));
    assert!(run.phase == InstallPhase::Finished);
    assert!(run.advance(InstallEvent::Begin).is_empty());
}

#[test]
fn nvm_failure_falls_back_to_bundled_fnm() {
    let mut run = InstallRun::new(NodeStrategy::SystemNvm, false, "/d/fnm".to_string(), "/h/.nvm/nvm.sh".to_string());
    let a = run.advance(InstallEvent::Begin);
    assert_eq!(kinds(&a).last().unwrap(), "shell:source '/h/.nvm/nvm.sh' && nvm install 22 && nvm alias default 22");
    assert!(run.phase == InstallPhase::NodeByManager);
    let b = run.advance(InstallEvent::Ran(Err("exit 1".to_string())));
    assert_eq!(logs(&b)[0], "⚠ 系统 nvm 安装失败（exit 1），自动切换到内置 fnm...");
    assert_eq!(kinds(&b).last().unwrap(), "fnm:install 22");
    assert!(run.use_bundled);
    let c = run.advance(InstallEvent::Ran(Ok(())));
    assert_eq!(
        kinds(&c).last().unwrap(),
        "fnm:exec --using=22 -- npm install -g openclaw --no-update-notifier --no-fund"
    );
    let d = run.advance(InstallEvent::Ran(Ok(())));
    assert_eq!(kinds(&d), vec!["step:install-openclaw:done", "link-bundled", "marker", "verify"]);
}

#[test]
fn windows_fnm_waits_for_git() {
    let mut run = InstallRun::new(NodeStrategy::SystemFnm, true, "C:\\fnm".to_string(), String::new());
    let a = run.advance(InstallEvent::Begin);
    assert_eq!(
        kinds(&a).last().unwrap(),
        "shell:fnm --node-dist-mirror https://npmmirror.com/mirrors/node install 22 && fnm default 22"
    );
    let b = run.advance(InstallEvent::Ran(Ok(())));
    assert_eq!(kinds(&b), vec!["step:install-node:done", "git"]);
    assert!(run.phase == InstallPhase::Git);
    let c = run.advance(InstallEvent::GitReady(true));
    assert_eq!(
        kinds(&c).last().unwrap(),
        "shell:fnm exec --using=22 -- npm.cmd install -g openclaw --no-update-notifier --no-fund"
    );
    let d = run.advance(InstallEvent::Ran(Ok(())));
    assert_eq!(kinds(&d)[1], "link:fnm exec --using=22 -- which openclaw");
}

#[test]
fn missing_git_ends_the_run() {
    let mut run = InstallRun::new(NodeStrategy::SystemNode(22), true, String::new(), String::new());
    let a = run.advance(InstallEvent::Begin);
    assert_eq!(kinds(&a).last().unwrap(), "git");
    let b = run.advance(InstallEvent::GitReady(false));
    assert_eq!(
        kinds(&b),
        vec![
            "step:ensure-git:error",
            "error:ensure-git:缺少 Git，无法继续安装 openclaw",
            "finish-err:缺少 Git，请安装 Git for Windows 后重试"
        ]
    );
    assert!(run.phase == InstallPhase::Finished);
}

#[test]
fn bundled_failures_end_the_run() {
    let mut run = InstallRun::new(NodeStrategy::BundledFnm, false, "/d/fnm".to_string(), String::new());
    let a = run.advance(InstallEvent::Begin);
    assert_eq!(logs(&a)[1], "内置 fnm 目录：/d/fnm");
    assert_eq!(kinds(&a).last().unwrap(), "fnm:install 22");
    let b = run.advance(InstallEvent::Ran(Err("no network".to_string())));
    assert_eq!(
        kinds(&b),
        vec!["step:install-node:error", "error:install-node:no network", "finish-err:no network"]
    );
}

#[test]
fn npm_failure_explains() {
    let mut run = InstallRun::new(NodeStrategy::SystemNode(23), false, String::new(), String::new());
    run.advance(InstallEvent::Begin);
    let a = run.advance(InstallEvent::Ran(Err("exit 243".to_string())));
    let k = kinds(&a);
    assert_eq!(k[0], "step:install-openclaw:error");
    assert_eq!(k.len(), 11);
    assert_eq!(k[9], "error:install-openclaw:exit 243");
    assert_eq!(k[10], "finish-err:exit 243");
    assert_eq!(logs(&a)[1], "npm 安装失败，常见原因及解决方法：");
    let mut other = InstallRun::new(NodeStrategy::SystemNode(23), false, String::new(), String::new());
    other.advance(InstallEvent::Begin);
    other.advance(InstallEvent::Ran(Ok(())));
    let f = other.advance(InstallEvent::Verified(false));
    assert!(logs(&f).contains(&"⚠ 当前终端环境尚未识别 openclaw 命令。".to_string()));
}

#[test]
fn unexpected_events_change_nothing() {
    let mut run = InstallRun::new(NodeStrategy::SystemFnm, false, String::new(), String::new());
    assert!(run.advance(InstallEvent::Verified(true)).is_empty());
    assert!(run.phase == InstallPhase::Start);
}

#[test]
fn cancel_and_status() {
    assert_eq!(finish_log(&Err("已取消".to_string())), Some("安装已取消。".to_string()));
    assert_eq!(finish_log(&Err("x".to_string())), None);
    assert_eq!(finish_log(&Ok(())), None);
    assert!(needs_command_check(false, true));
    assert!(!needs_command_check(true, true));
    let (s, stale) = install_status(false, true, false);
    assert!(!s.npm_installed && !s.onboarded && stale);
    let (s2, stale2) = install_status(true, false, false);
    assert!(s2.npm_installed && s2.onboarded && !stale2);
    let (s3, _) = install_status(false, true, true);
    assert!(s3.npm_installed);
}

#[test]
fn one_install_at_a_time() {
    let mut g = InstallGate::new();
    assert_eq!(g.try_start(), Ok(()));
    assert_eq!(g.try_start(), Err("安装已在进行中".to_string()));
    g.finish();
    assert_eq!(g.try_start(), Ok(()));
}

#[test]
fn profile_lines() {
    assert_eq!(profile_name("/bin/zsh"), ".zshrc");
    assert_eq!(profile_name("/bin/bash"), ".bash_profile");
    assert_eq!(path_export_line("/h/.local/bin"), "export PATH=\"/h/.local/bin:$PATH\"");
    assert_eq!(exit_code_error(Some(1)), "进程退出码 1");
    assert_eq!(exit_code_error(None), "进程退出码 -1");
}

#[test]
fn npmrc_git_line() {
    match configure_npm_git("registry=x\n", "C:\\Program Files\\Git\\cmd\\git.exe") {
        NpmrcEdit::Append(l) => assert_eq!(l, "git=C:/Program Files/Git/cmd/git.exe"),
        _ => panic!("expected an append"),
    }
    match configure_npm_git("registry=x\r\ngit=old\ncolor=false\ngit=older\n\n", "D:\\g.exe") {
        NpmrcEdit::Rewrite(t) => assert_eq!(t, "registry=x\ngit=D:/g.exe\ncolor=false\ngit=D:/g.exe\n"),
        _ => panic!("expected a rewrite"),
    }
    match configure_npm_git("a=1\n xgit=2", "g") {
        NpmrcEdit::Rewrite(t) => assert_eq!(t, "a=1\n xgit=2\n"),
        _ => panic!("expected a rewrite"),
    }
}

#[test]
fn windows_path_script() {
    let s = add_to_user_path_script(&vec!["C:\\a".to_string(), "C:\\it's".to_string()]);
    assert!(s.starts_with("$p = [Environment]::GetEnvironmentVariable('PATH','User'); $toAdd = @('C:\\a','C:\\it''s'); foreach"));
    assert!(s.ends_with("[Environment]::SetEnvironmentVariable('PATH',$p,'User')"));
}

#[test]
fn cancel_during_system_fnm_ends_the_installation() {
    let mut run = InstallRun::new(NodeStrategy::SystemFnm, false, "/d/fnm".to_string(), "/h/.nvm/nvm.sh".to_string());
    run.advance(InstallEvent::Begin);
    assert!(run.phase == InstallPhase::NodeByManager);
    let b = run.advance(InstallEvent::Ran(Err("已取消".to_string())));
    assert_eq!(
        kinds(&b),
        vec!["step:install-node:error", "error:install-node:已取消", "finish-err:已取消"]
    );
    assert!(run.phase == InstallPhase::Finished);
    assert!(run.advance(InstallEvent::Ran(Ok(()))).is_empty());
}

#[test]
fn login_shell_choice() {
    assert_eq!(pick_login_shell(Some("/usr/bin/fish".to_string()), true, true, true), "/usr/bin/fish");
    assert_eq!(pick_login_shell(Some("/gone/fish".to_string()), false, true, true), "/bin/zsh");
    assert_eq!(pick_login_shell(None, false, false, true), "/bin/bash");
    assert_eq!(pick_login_shell(None, false, false, false), "/bin/sh");
    assert_eq!(windows_login_shell(Some("C:\\cmd.exe".to_string())), "C:\\cmd.exe");
    assert_eq!(windows_login_shell(None), "cmd.exe");
}

#[test]
fn mingit_zip_completeness() {
    assert!(!zip_is_complete(None));
    assert!(!zip_is_complete(Some(1_000_000)));
    assert!(zip_is_complete(Some(1_000_001)));
}
