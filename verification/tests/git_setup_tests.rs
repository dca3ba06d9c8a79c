use claw_browser::git_setup::{
    augmented_path, expand_archive_command, git_cmd_candidates, git_exe_path, is_portable_git,
    mingit_download_sources, web_request_command, CurlOutcome, DownloadAction, DownloadEvent,
    DownloadPhase, GitAction, GitEvent, GitPhase, GitSetup, MinGitDownload, PathProbe,
};

fn gk(acts: &[GitAction]) -> Vec<String> {
    acts.iter()
        .map(|a| match a {
            GitAction::Log(l) => format!("log:{}", l),
            GitAction::CheckGit => "check".to_string(),
            GitAction::FindGitDir => "find".to_string(),
            GitAction::FindDownloaded => "find-downloaded".to_string(),
            GitAction::Winget => "winget".to_string(),
            GitAction::FindDefault => "find-default".to_string(),
            GitAction::Download => "download".to_string(),
            GitAction::Remember(d) => format!("remember:{}", d),
            GitAction::ConfigureNpm(g) => format!("npm:{}", g),
            GitAction::Done(b) => format!("done:{}", b),
        })
        .collect()
}

fn dk(acts: &[DownloadAction]) -> Vec<String> {
    acts.iter()
        .map(|a| match a {
            DownloadAction::Log(l) => format!("log:{}", l),
            DownloadAction::Curl(u) => format!("curl:{}", u),
            DownloadAction::RemoveZip => "rm-zip".to_string(),
            DownloadAction::PowerShell(u) => format!("ps:{}", u),
            DownloadAction::Extract => "extract".to_string(),
            DownloadAction::RemoveDir => "rm-dir".to_string(),
            DownloadAction::Done(b) => format!("done:{}", b),
        })
        .collect()
}

#[test]
fn candidates_with_defaults() {
    assert_eq!(
        git_cmd_candidates(&None, &None, "C:\\Users\\u\\AppData\\Local", "C:\\Users\\u"),
        vec![
            "C:\\Program Files\\Git\\cmd".to_string(),
            "C:\\Program Files (x86)\\Git\\cmd".to_string(),
            "C:\\Users\\u\\AppData\\Local\\Programs\\Git\\cmd".to_string(),
            "C:\\Users\\u\\scoop\\shims".to_string(),
            "C:\\Users\\u\\scoop\\apps\\git\\current\\cmd".to_string(),
        ]
    );
    let c = git_cmd_candidates(&Some("D:\\PF".to_string()), &Some("E:\\PF86".to_string()), "", "");
    assert_eq!(c[0], "D:\\PF\\Git\\cmd");
    assert_eq!(c[1], "E:\\PF86\\Git\\cmd");
    assert_eq!(c[2], "\\Programs\\Git\\cmd");
    assert!(is_portable_git("PortableGit-2.40"));
    assert!(!is_portable_git("portablegit"));
    assert_eq!(git_exe_path("C:\\G\\cmd"), "C:\\G\\cmd\\git.exe");
}

#[test]
fn path_for_commands() {
    let d = Some("C:\\G\\cmd".to_string());
    assert_eq!(augmented_path("C:\\W", &d, None, &None), Ok(Some("C:\\G\\cmd;C:\\W".to_string())));
    assert_eq!(augmented_path("C:\\G\\cmd;C:\\W", &d, None, &None), Err(PathProbe::GitRuns));
    assert_eq!(augmented_path("C:\\W", &None, Some(true), &None), Ok(None));
    assert_eq!(augmented_path("C:\\W", &None, Some(false), &None), Err(PathProbe::FindGitDir));
    assert_eq!(augmented_path("C:\\W", &None, Some(false), &Some(Some("X".to_string()))), Ok(Some("X;C:\\W".to_string())));
    assert_eq!(augmented_path("C:\\W", &None, Some(false), &Some(None)), Ok(None));
}

#[test]
fn download_sources_in_order() {
    let s = mingit_download_sources();
    assert_eq!(s.len(), 9);
    assert_eq!(
        s[0],
        (
            "https://registry.npmmirror.com/-/binary/git-for-windows/v2.47.1.windows.1/MinGit-2.47.1-64-bit.zip".to_string(),
            "npmmirror 镜像".to_string()
        )
    );
    assert_eq!(s[1].1, "华为云镜像");
    assert_eq!(
        s[5].0,
        "https://github.com/git-for-windows/git/releases/download/v2.48.1.windows.1/MinGit-2.48.1-64-bit.zip"
    );
    assert_eq!(s[8].0, "https://github.com/git-for-windows/git/releases/download/v2.46.2.windows.1/MinGit-2.46.2-64-bit.zip");
}

#[test]
fn powershell_commands() {
    assert_eq!(
        web_request_command("https://x/z.zip", "C:\\d\\mingit.zip"),
        "[Net.ServicePointManager]::SecurityProtocol=[Net.SecurityProtocolType]::Tls12;Invoke-WebRequest -Uri 'https://x/z.zip' -OutFile 'C:\\d\\mingit.zip' -UseBasicParsing"
    );
    assert_eq!(expand_archive_command("a.zip", "C:\\m"), "Expand-Archive -Path 'a.zip' -DestinationPath 'C:\\m' -Force");
}

#[test]
fn git_on_path_is_enough() {
    let mut g = GitSetup::new();
    assert_eq!(gk(&g.advance(GitEvent::Begin)), vec!["check"]);
    assert_eq!(gk(&g.advance(GitEvent::Runs(true))), vec!["done:true"]);
    assert!(g.phase == GitPhase::Finished);
    assert!(g.advance(GitEvent::Runs(false)).is_empty());
}

#[test]
fn git_found_in_usual_place() {
    let mut g = GitSetup::new();
    g.advance(GitEvent::Begin);
    assert_eq!(gk(&g.advance(GitEvent::Runs(false))), vec!["find"]);
    assert_eq!(
        gk(&g.advance(GitEvent::Found(Some("C:\\G\\cmd".to_string())))),
        vec!["log:在 C:\\G\\cmd 发现 Git", "remember:C:\\G\\cmd", "npm:C:\\G\\cmd\\git.exe", "done:true"]
    );
}

#[test]
fn git_from_earlier_download() {
    let mut g = GitSetup::new();
    g.advance(GitEvent::Begin);
    g.advance(GitEvent::Runs(false));
    assert_eq!(gk(&g.advance(GitEvent::Found(None))), vec!["find-downloaded"]);
    assert_eq!(
        gk(&g.advance(GitEvent::Found(Some("M".to_string())))),
        vec!["log:发现已下载的 MinGit：M", "remember:M", "npm:M\\git.exe", "done:true"]
    );
}

#[test]
fn git_by_winget_then_default_place() {
    let mut g = GitSetup::new();
    g.advance(GitEvent::Begin);
    g.advance(GitEvent::Runs(false));
    g.advance(GitEvent::Found(None));
    let w = gk(&g.advance(GitEvent::Found(None)));
    assert_eq!(w.last().unwrap(), "winget");
    assert_eq!(w[0], "log:");
    assert_eq!(gk(&g.advance(GitEvent::Runs(true))), vec!["log:✓ Git for Windows 安装成功！", "find"]);
    assert_eq!(gk(&g.advance(GitEvent::Found(None))), vec!["find-default"]);
    assert_eq!(
        gk(&g.advance(GitEvent::Found(Some("P\\Git\\cmd".to_string())))),
        vec!["remember:P\\Git\\cmd", "npm:P\\Git\\cmd\\git.exe", "done:true"]
    );
}

#[test]
fn git_download_then_manual() {
    let mut g = GitSetup::new();
    g.advance(GitEvent::Begin);
    g.advance(GitEvent::Runs(false));
    g.advance(GitEvent::Found(None));
    g.advance(GitEvent::Found(None));
    let a = gk(&g.advance(GitEvent::Runs(false)));
    assert_eq!(a, vec![
        "log:winget 自动安装失败（可能系统无 winget 或需要管理员权限）。",
        "log:正在尝试下载便携版 MinGit（无需管理员权限）...",
        "download"
    ]);
    let b = gk(&g.advance(GitEvent::Found(None)));
    assert_eq!(b.len(), 6);
    assert_eq!(b[1], "log:自动安装均失败，请手动安装 Git for Windows：");
    assert_eq!(b[5], "done:false");
    assert!(g.phase == GitPhase::Finished);
}

#[test]
fn download_already_there() {
    let mut d = MinGitDownload::new();
    assert_eq!(dk(&d.advance(DownloadEvent::Begin(true))), vec!["done:true"]);
    assert!(d.phase == DownloadPhase::Finished);
}

#[test]
fn download_by_curl() {
    let mut d = MinGitDownload::new();
    let a = dk(&d.advance(DownloadEvent::Begin(false)));
    assert_eq!(a[1], "log:  尝试 npmmirror 镜像...");
    assert!(a[2].starts_with("curl:https://registry.npmmirror.com/"));
    let b = dk(&d.advance(DownloadEvent::Curl(CurlOutcome::Succeeded, true)));
    assert_eq!(b, vec!["log:  ✓ 从 npmmirror 镜像 下载成功", "log:下载完成，正在解压...", "extract"]);
    let c = dk(&d.advance(DownloadEvent::Extracted(true)));
    assert_eq!(c, vec!["rm-zip", "log:✓ 便携版 Git 安装成功！", "done:true"]);
}

#[test]
fn download_falls_through_sources() {
    let mut d = MinGitDownload::new();
    d.advance(DownloadEvent::Begin(false));
    let a = dk(&d.advance(DownloadEvent::Curl(CurlOutcome::Failed("  curl: (6) host \n".to_string()), false)));
    assert_eq!(a[0], "log:    curl 失败：curl: (6) host");
    assert_eq!(a[1], "rm-zip");
    assert!(a[2].starts_with("ps:https://registry.npmmirror.com/"));
    let b = dk(&d.advance(DownloadEvent::Fetched(false)));
    assert_eq!(b[0], "rm-zip");
    assert_eq!(b[1], "log:  尝试 华为云镜像...");
    assert_eq!(d.source, 1);
    let c = dk(&d.advance(DownloadEvent::Curl(CurlOutcome::Unavailable("not found".to_string()), false)));
    assert_eq!(c[0], "log:    curl 不可用：not found");
    let e = dk(&d.advance(DownloadEvent::Fetched(true)));
    assert_eq!(e[0], "log:  ✓ 从 华为云镜像 下载成功（PowerShell）");
    let f = dk(&d.advance(DownloadEvent::Extracted(false)));
    assert_eq!(f, vec!["rm-zip", "log:解压失败。", "rm-dir", "done:false"]);
}

#[test]
fn download_gives_up_after_last_source() {
    let mut d = MinGitDownload::new();
    d.advance(DownloadEvent::Begin(false));
    let mut last = Vec::new();
    for _ in 0..9 {
        let a = d.advance(DownloadEvent::Curl(CurlOutcome::Failed(String::new()), false));
        assert_eq!(dk(&a)[0], "rm-zip");
        last = dk(&d.advance(DownloadEvent::Fetched(false)));
    }
    assert_eq!(last, vec!["rm-zip", "log:所有下载源均失败，请检查网络连接。", "done:false"]);
    assert_eq!(d.source, 8);
    assert!(d.phase == DownloadPhase::Finished);
}
