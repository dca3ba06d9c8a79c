use claw_browser::configure::{
    action_to_bytes as onboard_action_to_bytes, extra_path_dirs, full_path, join_dirs,
    onboard_command, onboard_exit_error, parse_screen_for_prompt as onboard_prompt,
    wizard_extra_path_dirs, with_path_command, OnboardParams, OnboardWizardSession,
};

fn params(auth: &str, key: &str, url: &str, model: &str) -> OnboardParams {
    OnboardParams {
        auth_choice: auth.to_string(),
        api_key: key.to_string(),
        custom_base_url: url.to_string(),
        custom_model_id: model.to_string(),
    }
}

#[test]
fn onboard_keys_include_yes_no() {
    assert_eq!(onboard_action_to_bytes("y").unwrap(), vec![b'y']);
    assert_eq!(onboard_action_to_bytes("n").unwrap(), vec![b'n']);
    assert_eq!(onboard_action_to_bytes("enter").unwrap(), vec![b'\r']);
    assert_eq!(onboard_action_to_bytes("left").unwrap(), vec![0x1b, b'[', b'D']);
    assert_eq!(onboard_action_to_bytes("text:ab").unwrap(), b"ab".to_vec());
    assert_eq!(onboard_action_to_bytes("submit:").unwrap(), vec![b'\r']);
    assert_eq!(onboard_action_to_bytes("Y").unwrap_err(), "未知 action：Y");
}

#[test]
fn onboard_prompt_done_ignores_option_markers() {
    let p = onboard_prompt("│  ○ a\n│  ● b\n└  Onboarding complete", 0).unwrap();
    assert_eq!(p.prompt_type, "done");
    assert_eq!(p.question, "Onboarding complete");
}

#[test]
fn onboard_prompt_none_without_active_prompt() {
    assert!(onboard_prompt("◇  Done\n│  x", 0).is_none());
    assert!(onboard_prompt("", 0).is_none());
}

#[test]
fn onboard_prompt_kinds() {
    let sel = onboard_prompt("◆  Provider\n│  ● OpenAI\n│  ○ Anthropic\n└", 1).unwrap();
    assert_eq!(sel.prompt_type, "select");
    assert_eq!(sel.options, vec!["OpenAI".to_string(), "Anthropic".to_string()]);
    assert_eq!(sel.selected, 0);
    let conf = onboard_prompt("◆  Ok?\n│  ○ yes / ● no\n└", 1).unwrap();
    assert_eq!(conf.prompt_type, "confirm");
    assert_eq!(conf.selected, 1);
    let pw = onboard_prompt("◆  Key\n│  ▪▪\n└", 1).unwrap();
    assert_eq!(pw.prompt_type, "password");
    let inp = onboard_prompt("◆  Url\n│  http://x\n│  please select one\n└", 1).unwrap();
    assert_eq!(inp.prompt_type, "input");
    assert_eq!(inp.error, Some("please select one".to_string()));
    let multi = onboard_prompt("◆  Skills\n│  ☐ a\n│  ☑ b\n└", 0).unwrap();
    assert_eq!(multi.prompt_type, "multiselect");
    assert_eq!(multi.checked, vec![1]);
    assert_eq!(multi.options, vec!["a".to_string(), "b".to_string()]);
}

#[test]
fn onboard_session_reports_changes_only() {
    let mut s = OnboardWizardSession::new();
    s.feed("◆  Provider\r\n│  ● OpenAI\r\n│  ○ Anthropic\r\n└".as_bytes());
    let (screen, p) = s.refresh();
    assert_eq!(screen.cursor_row, 3);
    let p = p.unwrap();
    assert_eq!(p.prompt_type, "select");
    assert_eq!(p.selected, 0);
    assert!(s.refresh().1.is_none());
    s.feed("\u{1b}[2J\u{1b}[H◇  Provider\r\n└  All set".as_bytes());
    let done = s.refresh().1.unwrap();
    assert_eq!(done.prompt_type, "done");
    assert_eq!(done.question, "All set");
}

#[test]
fn onboard_command_anthropic() {
    assert_eq!(
        onboard_command(&params("anthropic-api-key", "sk-1", "", "")),
        "openclaw onboard --non-interactive --auth-choice anthropic-api-key --secret-input-mode plaintext --anthropic-api-key sk-1"
    );
}

#[test]
fn onboard_command_openai_and_other() {
    assert_eq!(
        onboard_command(&params("openai-api-key", "k", "u", "m")),
        "openclaw onboard --non-interactive --auth-choice openai-api-key --secret-input-mode plaintext --openai-api-key k"
    );
    assert_eq!(
        onboard_command(&params("skip", "k", "", "")),
        "openclaw onboard --non-interactive --auth-choice skip --secret-input-mode plaintext"
    );
}

#[test]
fn onboard_command_custom_quotes_spaces() {
    assert_eq!(
        onboard_command(&params("custom-api-key", "a b", "http://h", "")),
        "openclaw onboard --non-interactive --auth-choice custom-api-key --secret-input-mode plaintext --custom-api-key 'a b' --custom-base-url http://h --custom-compatibility openai"
    );
    assert_eq!(
        onboard_command(&params("custom-api-key", "k", "", "m1")),
        "openclaw onboard --non-interactive --auth-choice custom-api-key --secret-input-mode plaintext --custom-api-key k --custom-model-id m1 --custom-compatibility openai"
    );
}

#[test]
fn onboard_exit_errors() {
    assert_eq!(onboard_exit_error(Some(2)), "onboard 退出码 2");
    assert_eq!(onboard_exit_error(Some(-9)), "onboard 退出码 -9");
    assert_eq!(onboard_exit_error(None), "onboard 退出码 -1");
}

#[test]
fn path_dirs() {
    assert_eq!(
        extra_path_dirs("/home/u", vec!["/n/bin".to_string()]),
        vec![
            "/home/u/.local/bin".to_string(),
            "/opt/homebrew/bin".to_string(),
            "/usr/local/bin".to_string(),
            "/n/bin".to_string()
        ]
    );
    assert_eq!(
        wizard_extra_path_dirs("/home/u", false, vec![]),
        vec!["/home/u/.local/bin".to_string(), "/usr/local/bin".to_string()]
    );
    assert_eq!(
        wizard_extra_path_dirs("/Users/u", true, vec![]),
        vec![
            "/Users/u/.local/bin".to_string(),
            "/opt/homebrew/bin".to_string(),
            "/usr/local/bin".to_string()
        ]
    );
}

#[test]
fn path_joining() {
    let dirs = vec!["/a".to_string(), "/b".to_string()];
    assert_eq!(join_dirs(&dirs, ':'), "/a:/b");
    assert_eq!(join_dirs(&vec![], ';'), "");
    assert_eq!(with_path_command("/a:/b", "openclaw onboard"), "export PATH=\"/a:/b:$PATH\"; openclaw onboard");
    assert_eq!(full_path("/a", ':', "/usr/bin", true), "/a:/usr/bin");
    assert_eq!(full_path("", ':', "/usr/bin", true), "/usr/bin");
    assert_eq!(full_path("", ':', "/usr/bin", false), ":/usr/bin");
}
