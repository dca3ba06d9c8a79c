use claw_browser::agents::{
    action_to_bytes, agent_add_command, agent_dir_name, agent_files, agent_from_dir, bad_agent_file,
    collect_agents, is_agent_file, parse_screen_for_prompt, shell_escape, strip_cursor_chars,
    AgentWizardSession, DirInfo,
};

#[test]
fn shell_escape_keeps_plain_words() {
    assert_eq!(shell_escape("work_1-a"), "work_1-a");
}

#[test]
fn shell_escape_quotes_spaces_and_quotes() {
    assert_eq!(shell_escape("my work"), "'my work'");
    assert_eq!(shell_escape("it's"), "'it'\\''s'");
}

#[test]
fn shell_escape_keeps_unicode_words_and_empty() {
    assert_eq!(shell_escape("工作"), "工作");
    assert_eq!(shell_escape(""), "");
    assert_eq!(shell_escape("a.b"), "'a.b'");
}

#[test]
fn action_to_bytes_keys() {
    assert_eq!(action_to_bytes("enter").unwrap(), vec![b'\r']);
    assert_eq!(action_to_bytes("space").unwrap(), vec![b' ']);
    assert_eq!(action_to_bytes("up").unwrap(), vec![0x1b, b'[', b'A']);
    assert_eq!(action_to_bytes("down").unwrap(), vec![0x1b, b'[', b'B']);
    assert_eq!(action_to_bytes("right").unwrap(), vec![0x1b, b'[', b'C']);
    assert_eq!(action_to_bytes("left").unwrap(), vec![0x1b, b'[', b'D']);
    assert_eq!(action_to_bytes("submit:hi").unwrap(), vec![b'h', b'i', b'\r']);
    assert_eq!(action_to_bytes("text:你").unwrap(), "你".as_bytes().to_vec());
    assert_eq!(action_to_bytes("bogus").unwrap_err(), "未知 action：bogus");
}

#[test]
fn action_to_bytes_has_no_yes_no_keys() {
    assert_eq!(action_to_bytes("y").unwrap_err(), "未知 action：y");
    assert_eq!(action_to_bytes("n").unwrap_err(), "未知 action：n");
}

#[test]
fn strip_cursor_chars_removes_blocks_and_trims() {
    assert_eq!(strip_cursor_chars("  bob\u{2588} "), "bob");
    assert_eq!(strip_cursor_chars("\u{2502} a\u{2589}b\u{258A}\u{258B}"), "ab");
    assert_eq!(strip_cursor_chars("\u{2588}"), "");
}

#[test]
fn prompt_done_screen() {
    let p = parse_screen_for_prompt("◇  Added\n└  Agent added.", 1).unwrap();
    assert_eq!(p.prompt_type, "done");
    assert_eq!(p.question, "Agent added.");
    assert!(p.options.is_empty());
    assert_eq!(p.error, None);
}

#[test]
fn prompt_done_without_text() {
    let p = parse_screen_for_prompt("◇  Added\n└", 1).unwrap();
    assert_eq!(p.prompt_type, "done");
    assert_eq!(p.question, "完成");
}

#[test]
fn prompt_outro_with_options_is_not_done() {
    let p = parse_screen_for_prompt("│  ○ a\n│  ● b\n└", 0).unwrap();
    assert_eq!(p.prompt_type, "select");
    assert_eq!(p.question, "");
    assert_eq!(p.options, vec!["a".to_string(), "b".to_string()]);
    assert_eq!(p.selected, 1);
}

#[test]
fn prompt_multiselect() {
    let screen = "◆  Pick skills\n│  ◻ alpha\n│  ◼ beta\n│  ◻ gamma\n└";
    let p = parse_screen_for_prompt(screen, 2).unwrap();
    assert_eq!(p.prompt_type, "multiselect");
    assert_eq!(p.question, "Pick skills");
    assert_eq!(p.options, vec!["alpha".to_string(), "beta".to_string(), "gamma".to_string()]);
    assert_eq!(p.checked, vec![1]);
    assert_eq!(p.selected, 1);
}

#[test]
fn prompt_multiselect_nearest_option() {
    let screen = "◆  Pick skills\n│  ◻ alpha\n│  ◼ beta\n│  ◻ gamma\n└";
    assert_eq!(parse_screen_for_prompt(screen, 7).unwrap().selected, 2);
    assert_eq!(parse_screen_for_prompt(screen, 0).unwrap().selected, 0);
}

#[test]
fn prompt_confirm() {
    let p = parse_screen_for_prompt("◆  Continue?\n│  ● Yes / ○ No\n└", 1).unwrap();
    assert_eq!(p.prompt_type, "confirm");
    assert_eq!(p.options, vec!["Yes".to_string(), "No".to_string()]);
    assert_eq!(p.selected, 0);
    let q = parse_screen_for_prompt("◆  Continue?\n│  ○ Yes / ● No\n└", 1).unwrap();
    assert_eq!(q.selected, 1);
}

#[test]
fn prompt_select_by_cursor_and_mark() {
    let screen = "◆  Model\n│  ● fast\n│  ○ slow\n└";
    let p = parse_screen_for_prompt(screen, 2).unwrap();
    assert_eq!(p.prompt_type, "select");
    assert_eq!(p.question, "Model");
    assert_eq!(p.options, vec!["fast".to_string(), "slow".to_string()]);
    assert_eq!(p.selected, 1);
    let q = parse_screen_for_prompt("◆  Model\n│  ○ fast\n│  ● slow\n└", 0).unwrap();
    assert_eq!(q.selected, 1);
}

#[test]
fn prompt_password() {
    let p = parse_screen_for_prompt("◆  API key\n│  ▪▪▪▪\n└", 1).unwrap();
    assert_eq!(p.prompt_type, "password");
    assert_eq!(p.question, "API key");
    assert_eq!(p.current_value, None);
}

#[test]
fn prompt_input_with_value() {
    let p = parse_screen_for_prompt("◆  Name\n│  bob\u{2588}\n└", 1).unwrap();
    assert_eq!(p.prompt_type, "input");
    assert_eq!(p.question, "Name");
    assert_eq!(p.current_value, Some("bob".to_string()));
}

#[test]
fn prompt_input_empty_value() {
    let p = parse_screen_for_prompt("◆  Name\n│  \u{2588}\n└", 1).unwrap();
    assert_eq!(p.prompt_type, "input");
    assert_eq!(p.current_value, None);
}

#[test]
fn prompt_error_line() {
    let p = parse_screen_for_prompt("◆  Name\n│  x\n│  Value is Required\n└", 1).unwrap();
    assert_eq!(p.prompt_type, "input");
    assert_eq!(p.error, Some("Value is Required".to_string()));
    assert_eq!(p.current_value, Some("x".to_string()));
}

#[test]
fn prompt_body_stops_at_next_marker() {
    let p = parse_screen_for_prompt("◆  Name\n│  first\n◇  Other\n│  ● a\n│  ○ b", 1).unwrap();
    assert_eq!(p.prompt_type, "input");
    assert_eq!(p.current_value, Some("first".to_string()));
}

#[test]
fn prompt_empty_screen_is_input() {
    let p = parse_screen_for_prompt("", 0).unwrap();
    assert_eq!(p.prompt_type, "input");
    assert_eq!(p.question, "");
    assert_eq!(p.current_value, None);
}

#[test]
fn session_reports_prompt_once() {
    let mut s = AgentWizardSession::new();
    s.feed("◆  Name\r\n│  bob\r\n└".as_bytes());
    let (screen, prompt) = s.refresh();
    assert!(screen.text.contains("Name"));
    assert_eq!(screen.cursor_row, 2);
    let p = prompt.unwrap();
    assert_eq!(p.prompt_type, "input");
    assert_eq!(p.question, "Name");
    assert_eq!(p.current_value, Some("bob".to_string()));
    let (_, again) = s.refresh();
    assert!(again.is_none());
    s.feed("\r\n◇  Done\r\n└  Agent added".as_bytes());
    let (_, same) = s.refresh();
    assert!(same.is_none());
}

#[test]
fn session_done_after_clear() {
    let mut s = AgentWizardSession::new();
    s.feed("\u{1b}[2J\u{1b}[H◇  Saved\r\n└  Agent added".as_bytes());
    let (_, p) = s.refresh();
    let p = p.unwrap();
    assert_eq!(p.prompt_type, "done");
    assert_eq!(p.question, "Agent added");
}

#[test]
fn agent_dirs() {
    assert_eq!(agent_dir_name(""), "workspace");
    assert_eq!(agent_dir_name("default"), "workspace");
    assert_eq!(agent_dir_name("work"), "workspace-work");
}

#[test]
fn agents_from_dirs() {
    let d = agent_from_dir("workspace", true).unwrap();
    assert_eq!(d.name, "default");
    assert_eq!(d.workspace, "");
    assert_eq!(d.description, None);
    let w = agent_from_dir("workspace-work", true).unwrap();
    assert_eq!(w.name, "work");
    assert_eq!(w.workspace, "work");
    assert!(agent_from_dir("workspace-work", false).is_none());
    assert!(agent_from_dir("skills", true).is_none());
}

#[test]
fn collect_agents_skips_files_and_others() {
    let entries = vec![
        DirInfo { name: "workspace".to_string(), is_dir: true, has_identity: true },
        DirInfo { name: "workspace-a".to_string(), is_dir: false, has_identity: true },
        DirInfo { name: "workspace-b".to_string(), is_dir: true, has_identity: false },
        DirInfo { name: "workspace-c".to_string(), is_dir: true, has_identity: true },
        DirInfo { name: "other".to_string(), is_dir: true, has_identity: true },
    ];
    let agents = collect_agents(&entries);
    let names: Vec<String> = agents.iter().map(|a| a.name.clone()).collect();
    assert_eq!(names, vec!["default".to_string(), "c".to_string()]);
}

#[test]
fn agent_file_names() {
    assert_eq!(
        agent_files(),
        vec!["IDENTITY.md".to_string(), "USER.md".to_string(), "SOUL.md".to_string()]
    );
    assert!(is_agent_file("SOUL.md"));
    assert!(!is_agent_file("soul.md"));
    assert!(!is_agent_file("../x"));
    assert_eq!(bad_agent_file("x.md"), "不允许的文件名：x.md");
}

#[test]
fn agent_add_command_quotes() {
    assert_eq!(agent_add_command("work"), "openclaw agents add work");
    assert_eq!(agent_add_command("a b"), "openclaw agents add 'a b'");
}

#[test]
fn strip_cursor_result_is_clean_and_stable() {
    let r = strip_cursor_chars("  work█ ");
    assert_eq!(r, "work");
    assert_eq!(strip_cursor_chars(&r), r);
    let r2 = strip_cursor_chars("│ a▉b ▊▋");
    assert_eq!(r2, "ab");
    assert_eq!(r2.trim(), r2);
    assert_eq!(strip_cursor_chars(&r2), r2);
}

#[test]
fn shell_escape_of_quote_and_backslash_reads_back() {
    // Under POSIX quote removal, 'a'\''b\' reads as a'b\ .
    assert_eq!(shell_escape("a'b\\"), "'a'\\''b\\'");
    assert_eq!(shell_escape("x;y"), "'x;y'");
}
