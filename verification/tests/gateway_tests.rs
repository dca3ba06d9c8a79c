use claw_browser::gateway::{
    gateway_step, no_shell_error_text, windows_gateway_result, GatewayStep, ShellOutcome,
    apply_gateway_config, can_apply_gateway_config, check_and_fix_gateway_config, failed_status,
    gateway_command, is_config_ok, judge_failure, read_config,
};
use claw_browser::json::{parse_json, JsonValue};

const FIXED_EMPTY: &str = r#"{"gateway":{"controlUi":{"allowedOrigins":["http://localhost:*","http://127.0.0.1:*"],"allowInsecureAuth":true},"http":{"endpoints":{"chatCompletions":{"enabled":true},"responses":{"enabled":true}}}}}"#;

fn to_serde(v: &JsonValue) -> serde_json::Value {
    match v {
        JsonValue::Null => serde_json::Value::Null,
        JsonValue::Bool(b) => serde_json::Value::Bool(*b),
        JsonValue::Number(n) => serde_json::Value::Number(n.clone()),
        JsonValue::Str(s) => serde_json::Value::String(s.clone()),
        JsonValue::Array(a) => serde_json::Value::Array(a.iter().map(to_serde).collect()),
        JsonValue::Object(o) => {
            let mut m = serde_json::Map::new();
            for (k, x) in o {
                m.insert(k.clone(), to_serde(x));
            }
            serde_json::Value::Object(m)
        }
    }
}

fn value(text: &str) -> serde_json::Value {
    serde_json::from_str(text).unwrap()
}

#[test]
fn missing_file_is_fixed() {
    let c = check_and_fix_gateway_config(None).unwrap();
    assert!(!c.status.already_ok);
    assert!(c.status.fixed);
    assert!(c.status.needs_restart);
    assert_eq!(c.status.error, None);
    let written = c.write.unwrap();
    assert_eq!(value(&written), value(FIXED_EMPTY));
    assert!(written.contains("\n  \"gateway\""));
}

#[test]
fn good_config_is_left_alone() {
    let c = check_and_fix_gateway_config(Some(FIXED_EMPTY)).unwrap();
    assert!(c.status.already_ok);
    assert!(!c.status.fixed);
    assert!(!c.status.needs_restart);
    assert!(c.write.is_none());
}

#[test]
fn unparsable_or_non_object_config_starts_empty() {
    for text in ["not json", "[1, 2]", "42", ""] {
        let c = check_and_fix_gateway_config(Some(text)).unwrap();
        assert!(c.status.fixed);
        assert_eq!(value(&c.write.unwrap()), value(FIXED_EMPTY));
    }
}

#[test]
fn partial_config_is_merged_keeping_user_fields() {
    let text = r#"{"other":1,"gateway":{"port":9,"controlUi":{"allowedOrigins":["http://localhost:*","x"],"allowInsecureAuth":false}}}"#;
    let c = check_and_fix_gateway_config(Some(text)).unwrap();
    assert!(c.status.fixed);
    let expected = r#"{"other":1,"gateway":{"port":9,"controlUi":{"allowedOrigins":["http://localhost:*","x","http://127.0.0.1:*"],"allowInsecureAuth":false},"http":{"endpoints":{"chatCompletions":{"enabled":true},"responses":{"enabled":true}}}}}"#;
    assert_eq!(value(&c.write.unwrap()), value(expected));
}

#[test]
fn unmergeable_config_gives_nothing() {
    assert!(check_and_fix_gateway_config(Some(r#"{"gateway":5}"#)).is_none());
    assert!(check_and_fix_gateway_config(Some(r#"{"gateway":{"controlUi":{"allowedOrigins":{}}}}"#)).is_none());
    assert!(!can_apply_gateway_config(&parse_json(r#"{"gateway":{"http":[]}}"#).unwrap()));
    assert!(can_apply_gateway_config(&parse_json(r#"{"gateway":{"http":{}}}"#).unwrap()));
    assert!(!can_apply_gateway_config(&parse_json("[]").unwrap()));
}

#[test]
fn config_ok_needs_every_flag() {
    assert!(is_config_ok(&parse_json(FIXED_EMPTY).unwrap()));
    let no_resp = r#"{"gateway":{"controlUi":{"allowedOrigins":["http://localhost:*","http://127.0.0.1:*"],"allowInsecureAuth":true},"http":{"endpoints":{"chatCompletions":{"enabled":true},"responses":{"enabled":"yes"}}}}}"#;
    assert!(!is_config_ok(&parse_json(no_resp).unwrap()));
    let one_origin = r#"{"gateway":{"controlUi":{"allowedOrigins":["http://localhost:*"],"allowInsecureAuth":true},"http":{"endpoints":{"chatCompletions":{"enabled":true},"responses":{"enabled":true}}}}}"#;
    assert!(!is_config_ok(&parse_json(one_origin).unwrap()));
    assert!(!is_config_ok(&parse_json("{}").unwrap()));
}

#[test]
fn apply_is_idempotent_and_makes_config_ok() {
    let mut cfg = parse_json(r#"{"a":[1],"gateway":{"controlUi":{}}}"#).unwrap();
    apply_gateway_config(&mut cfg);
    assert!(is_config_ok(&cfg));
    let mut again = parse_json(r#"{"a":[1],"gateway":{"controlUi":{}}}"#).unwrap();
    apply_gateway_config(&mut again);
    apply_gateway_config(&mut again);
    assert_eq!(to_serde(&again), to_serde(&cfg));
}

#[test]
fn read_config_defaults() {
    assert_eq!(to_serde(&read_config(None)), value("{}"));
    assert_eq!(to_serde(&read_config(Some("oops"))), value("{}"));
    assert_eq!(to_serde(&read_config(Some("[true]"))), value("[true]"));
}

#[test]
fn failure_status_and_commands() {
    let s = failed_status("boom".to_string());
    assert!(!s.already_ok && !s.fixed && !s.needs_restart);
    assert_eq!(s.error, Some("boom".to_string()));
    assert_eq!(gateway_command(""), "openclaw gateway");
    assert_eq!(gateway_command("restart"), "openclaw gateway restart");
    assert_eq!(judge_failure("zsh: command not found: openclaw", "out"), ("zsh: command not found: openclaw".to_string(), true));
    assert_eq!(judge_failure("", "port in use"), ("port in use".to_string(), false));
    assert_eq!(judge_failure("", "openclaw: not found"), ("openclaw: not found".to_string(), true));
}

fn cands(shell: Option<&str>, se: bool, z: bool, b: bool) -> Vec<(String, bool)> {
    claw_browser::gateway::shell_candidates(&shell.map(|s| s.to_string()), se, z, b)
        .into_iter()
        .map(|c| (c.path, c.login))
        .collect()
}

#[test]
fn shells_to_try() {
    assert_eq!(
        cands(Some("/usr/bin/fish"), true, true, true),
        vec![
            ("/usr/bin/fish".to_string(), true),
            ("/bin/zsh".to_string(), true),
            ("/bin/bash".to_string(), true),
            ("/bin/sh".to_string(), false)
        ]
    );
    assert_eq!(
        cands(Some("/bin//zsh"), true, true, false),
        vec![("/bin//zsh".to_string(), true), ("/bin/sh".to_string(), false)]
    );
    assert_eq!(
        cands(Some("/missing"), false, false, true),
        vec![("/bin/bash".to_string(), true), ("/bin/sh".to_string(), false)]
    );
    assert_eq!(cands(None, true, false, false), vec![("/bin/sh".to_string(), false)]);
}

#[test]
fn gateway_steps() {
    assert!(matches!(gateway_step("/bin/zsh", ShellOutcome::Succeeded), GatewayStep::Stop(Ok(()))));
    match gateway_step("/bin/zsh", ShellOutcome::Failed("zsh: command not found: openclaw".to_string(), String::new())) {
        GatewayStep::Next(m) => assert_eq!(m, "zsh: command not found: openclaw"),
        _ => panic!("expected to try the next shell"),
    }
    match gateway_step("/bin/zsh", ShellOutcome::Failed(String::new(), "gateway already running".to_string())) {
        GatewayStep::Stop(Err(m)) => assert_eq!(m, "gateway already running"),
        _ => panic!("expected to stop"),
    }
    match gateway_step("/bin/zsh", ShellOutcome::Unrunnable("Permission denied".to_string())) {
        GatewayStep::Next(m) => assert_eq!(m, "无法执行 /bin/zsh: Permission denied"),
        _ => panic!("expected to try the next shell"),
    }
    assert_eq!(windows_gateway_result(ShellOutcome::Succeeded), Ok(()));
    assert_eq!(
        windows_gateway_result(ShellOutcome::Failed("e".to_string(), "o".to_string())),
        Err("e".to_string())
    );
    assert_eq!(
        windows_gateway_result(ShellOutcome::Unrunnable("x".to_string())),
        Err("无法执行命令：x".to_string())
    );
}

#[test]
fn no_shell_tried_error_text() {
    assert_eq!(no_shell_error_text(), "未找到可用 shell");
}
