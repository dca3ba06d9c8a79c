use claw_browser::path_link::{windows_path_logs, AppendOutcome, LinkAction, LinkEvent, LinkPhase, LinkRun};

fn k(acts: &[LinkAction]) -> Vec<String> {
    acts.iter()
        .map(|a| match a {
            LinkAction::Log(l) => format!("log:{}", l),
            LinkAction::RunWhich(c) => format!("which:{}", c),
            LinkAction::Link(s, d) => format!("link:{}->{}", d, s),
            LinkAction::CheckDir(d) => format!("dir?:{}", d),
            LinkAction::MakeDir(d) => format!("mkdir:{}", d),
            LinkAction::FindBundled => "find-bundled".to_string(),
            LinkAction::ReadProfile => "read-profile".to_string(),
            LinkAction::AppendProfile(t) => format!("append:{}", t),
            LinkAction::Done => "done".to_string(),
        })
        .collect()
}

fn which_run() -> LinkRun {
    LinkRun::from_which(
        "which openclaw".to_string(),
        ".zshrc".to_string(),
        "/h/.local/bin".to_string(),
        "/h/.local/bin/openclaw".to_string(),
    )
}

#[test]
fn global_install_needs_nothing() {
    let mut r = which_run();
    assert_eq!(k(&r.advance(LinkEvent::Begin)), vec!["which:which openclaw"]);
    let a = k(&r.advance(LinkEvent::Ran(true, b"/usr/local/bin/openclaw\n".to_vec())));
    assert_eq!(a, vec!["log:openclaw 已在 /usr/local/bin/openclaw，终端可直接使用。", "done"]);
    assert!(r.phase == LinkPhase::Finished);
}

#[test]
fn component_prefix_only() {
    let mut r = which_run();
    r.advance(LinkEvent::Begin);
    let a = k(&r.advance(LinkEvent::Ran(true, b"/usr/binx/openclaw".to_vec())));
    assert_eq!(a[0], "log:openclaw 位于 /usr/binx/openclaw，尝试软链到全局 PATH...");
    assert_eq!(a[1], "link:/usr/local/bin/openclaw->/usr/binx/openclaw");
}

#[test]
fn not_found() {
    let mut r = which_run();
    r.advance(LinkEvent::Begin);
    assert_eq!(
        k(&r.advance(LinkEvent::Ran(false, b"/x/openclaw".to_vec()))),
        vec!["log:⚠ 无法定位 openclaw 二进制，请确认安装成功后手动添加到 PATH。", "done"]
    );
    let mut e = which_run();
    e.advance(LinkEvent::Begin);
    assert_eq!(k(&e.advance(LinkEvent::Ran(true, b"  \n".to_vec())))[1], "done");
}

#[test]
fn link_fallbacks_to_local_bin() {
    let mut r = which_run();
    r.advance(LinkEvent::Begin);
    r.advance(LinkEvent::Ran(true, b"/n/bin/openclaw\n".to_vec()));
    assert_eq!(k(&r.advance(LinkEvent::Answer(false))), vec!["dir?:/opt/homebrew/bin"]);
    assert_eq!(k(&r.advance(LinkEvent::Answer(true))), vec!["link:/opt/homebrew/bin/openclaw->/n/bin/openclaw"]);
    assert_eq!(
        k(&r.advance(LinkEvent::Answer(false))),
        vec!["mkdir:/h/.local/bin", "link:/h/.local/bin/openclaw->/n/bin/openclaw"]
    );
    assert_eq!(
        k(&r.advance(LinkEvent::Answer(true))),
        vec!["log:已将 openclaw 软链到 /h/.local/bin/openclaw", "read-profile"]
    );
    assert_eq!(
        k(&r.advance(LinkEvent::Found(Some("alias x=y\n".to_string())))),
        vec!["append:\n# Added by Oclaw\nexport PATH=\"$HOME/.local/bin:$PATH\"\n"]
    );
    assert_eq!(
        k(&r.advance(LinkEvent::Appended(AppendOutcome::Written))),
        vec![
            "log:已自动将 ~/.local/bin 添加到 ~/.zshrc 的 PATH 中。",
            "log:⚠ 请关闭并重新打开终端窗口，使 PATH 配置生效后再执行 openclaw 命令。",
            "done"
        ]
    );
}

#[test]
fn profile_already_set_and_failures() {
    let mut r = which_run();
    r.advance(LinkEvent::Begin);
    r.advance(LinkEvent::Ran(true, b"/n/openclaw".to_vec()));
    r.advance(LinkEvent::Answer(false));
    r.advance(LinkEvent::Answer(false));
    r.advance(LinkEvent::Answer(true));
    assert_eq!(k(&r.advance(LinkEvent::Found(Some("PATH=~/.local/bin".to_string())))), vec!["done"]);

    let mut f = which_run();
    f.advance(LinkEvent::Begin);
    f.advance(LinkEvent::Ran(true, b"/n/openclaw".to_vec()));
    f.advance(LinkEvent::Answer(false));
    f.advance(LinkEvent::Answer(false));
    assert_eq!(
        k(&f.advance(LinkEvent::Answer(false))),
        vec![
            "log:⚠ 无法自动添加到 PATH，openclaw 位于：/n/openclaw\n可手动执行：sudo ln -sf '/n/openclaw' /usr/local/bin/openclaw",
            "done"
        ]
    );
}

#[test]
fn unopened_profile_is_reported() {
    let mut r = which_run();
    r.advance(LinkEvent::Begin);
    r.advance(LinkEvent::Ran(true, b"/n/openclaw".to_vec()));
    r.advance(LinkEvent::Answer(false));
    r.advance(LinkEvent::Answer(false));
    r.advance(LinkEvent::Answer(true));
    r.advance(LinkEvent::Found(None));
    assert_eq!(
        k(&r.advance(LinkEvent::Appended(AppendOutcome::Unopened))),
        vec!["log:⚠ 无法写入 ~/.zshrc，请手动添加：\nexport PATH=\"$HOME/.local/bin:$PATH\"", "done"]
    );
}

#[test]
fn bundled_node_on_path() {
    let mut r = LinkRun::bundled(".bash_profile".to_string());
    assert_eq!(k(&r.advance(LinkEvent::Begin)), vec!["find-bundled"]);
    assert_eq!(
        k(&r.advance(LinkEvent::Found(Some("/f/v22.1.0/installation/bin".to_string())))),
        vec!["log:内置 fnm Node.js 位于 /f/v22.1.0/installation/bin，正在添加到终端 PATH...", "read-profile"]
    );
    assert_eq!(
        k(&r.advance(LinkEvent::Found(None))),
        vec!["append:\n# Added by Oclaw — bundled Node.js\nexport PATH=\"/f/v22.1.0/installation/bin:$PATH\"\n"]
    );
    assert_eq!(
        k(&r.advance(LinkEvent::Appended(AppendOutcome::NotWritten))),
        vec!["done"]
    );
}

#[test]
fn bundled_node_skips_or_missing() {
    let mut r = LinkRun::bundled(".zshrc".to_string());
    r.advance(LinkEvent::Begin);
    r.advance(LinkEvent::Found(Some("/f/bin".to_string())));
    assert_eq!(
        k(&r.advance(LinkEvent::Found(Some("export PATH=\"/f/bin:$PATH\"".to_string())))),
        vec!["log:~/.zshrc 已包含内置 Node.js PATH 配置，跳过。", "done"]
    );
    let mut m = LinkRun::bundled(".zshrc".to_string());
    m.advance(LinkEvent::Begin);
    assert_eq!(
        k(&m.advance(LinkEvent::Found(None))),
        vec!["log:⚠ 未在内置 fnm 目录中找到 openclaw 二进制，请确认 npm 安装成功。", "done"]
    );
    assert!(m.advance(LinkEvent::Begin).is_empty());
}

#[test]
fn windows_path_reports() {
    let tail = vec![
        String::new(),
        "提示：如需在终端中使用 fnm 管理 Node 版本，请在 PowerShell 配置文件中添加：".to_string(),
        "  fnm env --use-on-cd | Out-String | Invoke-Expression".to_string(),
    ];
    assert_eq!(windows_path_logs(&vec![], false), tail);
    let ok = windows_path_logs(&vec!["C:\\a".to_string()], true);
    assert_eq!(ok[0], "已自动将 Node.js 和 openclaw 路径添加到用户 PATH（重启终端后生效）。");
    assert_eq!(ok.len(), 4);
    let failed = windows_path_logs(&vec!["C:\\a".to_string(), "C:\\b".to_string()], false);
    assert_eq!(failed[1], "  C:\\a");
    assert_eq!(failed[2], "  C:\\b");
    assert_eq!(failed[3..].to_vec(), tail);
}
