use claw_browser::json::{as_bool, as_str, clone_json, find_key, get_field, parse_json, put_key, take_key, JsonValue};
use claw_browser::openclaw_process::start_openclaw;
use claw_browser::order::{lex_less, sort_strings, stable_sort};
use claw_browser::text::{
    dec_i64, dec_u64, find_seq, join_exec, lines_of, parse_i32, parse_u32, strip_trail_exec,
    to_chars, trim_chars, trim_end_exec, utf8_bytes,
};
use claw_browser::wizard::{prompt_key_exec, PromptTracker};
use claw_browser::agents::WizardPrompt;

fn chars(s: &str) -> Vec<char> {
    s.chars().collect()
}

fn text(v: &[char]) -> String {
    v.iter().collect()
}

#[test]
fn number_parsing() {
    assert_eq!(parse_u32(&chars("42")), Some(42));
    assert_eq!(parse_u32(&chars("+7")), Some(7));
    assert_eq!(parse_u32(&chars("4294967295")), Some(u32::MAX));
    assert_eq!(parse_u32(&chars("4294967296")), None);
    assert_eq!(parse_u32(&chars("")), None);
    assert_eq!(parse_u32(&chars("-1")), None);
    assert_eq!(parse_u32(&chars("1a")), None);
    assert_eq!(parse_i32(&chars("-2147483648")), Some(i32::MIN));
    assert_eq!(parse_i32(&chars("2147483648")), None);
    assert_eq!(parse_i32(&chars("+12")), Some(12));
    assert_eq!(parse_i32(&chars("-")), None);
    assert_eq!(parse_i32(&chars(" 1")), None);
}

#[test]
fn decimal_text() {
    assert_eq!(text(&dec_u64(0)), "0");
    assert_eq!(text(&dec_u64(u64::MAX)), "18446744073709551615");
    assert_eq!(text(&dec_i64(-42)), "-42");
    assert_eq!(text(&dec_i64(i64::MIN)), "-9223372036854775808");
}

#[test]
fn trimming_and_lines() {
    assert_eq!(text(&trim_chars(&chars(" \t a b \n"))), "a b");
    assert_eq!(text(&trim_end_exec(&chars(" a \n\n"))), " a");
    assert_eq!(text(&strip_trail_exec(&chars("a;;;"), ';')), "a");
    let ls: Vec<String> = lines_of(&chars("a\r\nb\n\nc\n")).iter().map(|l| text(l)).collect();
    assert_eq!(ls, vec!["a", "b", "", "c"]);
    assert!(lines_of(&chars("")).is_empty());
    let last: Vec<String> = lines_of(&chars("a\r\nb\r")).iter().map(|l| text(l)).collect();
    assert_eq!(last, vec!["a", "b\r"]);
    assert_eq!(last, "a\r\nb\r".lines().collect::<Vec<_>>());
    let joined = join_exec(&vec![chars("x"), chars("y")], &chars(", "));
    assert_eq!(text(&joined), "x, y");
    assert_eq!(find_seq(&chars("ab\n---c"), &chars("\n---")), Some(2));
    assert_eq!(find_seq(&chars("abc"), &chars("d")), None);
    assert_eq!(utf8_bytes(&chars("é")), vec![0xc3, 0xa9]);
    assert_eq!(to_chars("中a"), vec!['中', 'a']);
}

#[test]
fn ordering() {
    assert!(lex_less(&chars("a"), &chars("b")));
    assert!(lex_less(&chars("a"), &chars("ab")));
    assert!(!lex_less(&chars("b"), &chars("ab")));
    assert!(!lex_less(&chars("a"), &chars("a")));
    assert!(lex_less(&chars("Z"), &chars("a")));
    let s = sort_strings(vec!["b".to_string(), "B".to_string(), "a".to_string(), "ab".to_string()]);
    assert_eq!(s, vec!["B", "a", "ab", "b"]);
    let v = stable_sort(vec![(chars("1"), 'x'), (chars("2"), 'y'), (chars("1"), 'z')], true);
    let tags: Vec<char> = v.iter().map(|p| p.1).collect();
    assert_eq!(tags, vec!['y', 'x', 'z']);
    let w = stable_sort(vec![(chars("1"), 'x'), (chars("2"), 'y'), (chars("1"), 'z')], false);
    let tags2: Vec<char> = w.iter().map(|p| p.1).collect();
    assert_eq!(tags2, vec!['x', 'z', 'y']);
}

#[test]
fn json_access() {
    let v = parse_json(r#"{"a":"s","b":true,"c":[1]}"#).unwrap();
    assert_eq!(as_str(get_field(&v, "a").unwrap()), Some(&"s".to_string()));
    assert_eq!(as_bool(get_field(&v, "b").unwrap()), Some(true));
    assert_eq!(as_bool(get_field(&v, "a").unwrap()), None);
    assert!(get_field(&v, "zz").is_none());
    assert!(parse_json("{").is_none());
    assert!(parse_json("  [1, 2.5, null] ").is_some());
    match clone_json(&v) {
        JsonValue::Object(o) => {
            assert_eq!(o.len(), 3);
            assert_eq!(find_key(&o, "c"), Some(2));
            assert_eq!(find_key(&o, "q"), None);
        }
        _ => panic!("expected an object"),
    }
}

#[test]
fn json_take_and_put() {
    let mut o = vec![("a".to_string(), JsonValue::Null), ("b".to_string(), JsonValue::Bool(false))];
    let (i, old) = take_key(&mut o, "a");
    assert_eq!(i, 0);
    assert!(matches!(old, Some(JsonValue::Null)));
    put_key(&mut o, i, "a", JsonValue::Bool(true));
    assert_eq!(o[0].0, "a");
    assert!(matches!(o[0].1, JsonValue::Bool(true)));
    let (j, none) = take_key(&mut o, "new");
    assert!(none.is_none());
    put_key(&mut o, j, "new", JsonValue::Null);
    assert_eq!(o.len(), 3);
    assert_eq!(o[2].0, "new");
}

#[test]
fn openclaw_start_rules() {
    assert_eq!(start_openclaw(true, Some("x".to_string())), Err("OpenClaw 已在运行".to_string()));
    assert_eq!(start_openclaw(false, Some("/e/index.js".to_string())), Ok("/e/index.js".to_string()));
    assert_eq!(
        start_openclaw(false, None),
        Err("请设置 OPENCLAW_ENTRY 环境变量指向 OpenClaw 入口脚本".to_string())
    );
}

fn prompt(kind: &str, err: Option<&str>, current: Option<&str>) -> WizardPrompt {
    WizardPrompt {
        prompt_type: kind.to_string(),
        question: "Q".to_string(),
        options: vec!["a\"b".to_string(), "c".to_string()],
        selected: 1,
        checked: vec![0, 1],
        error: err.map(|s| s.to_string()),
        current_value: current.map(|s| s.to_string()),
    }
}

#[test]
fn prompt_keys() {
    assert_eq!(prompt_key_exec(&prompt("select", None, None)), "select:Q:[\"a\\\"b\", \"c\"]:1:[0, 1]:None");
    assert_eq!(prompt_key_exec(&prompt("input", Some("bad"), None)), "input:Q:[\"a\\\"b\", \"c\"]:1:[0, 1]:Some(\"bad\")");
}

#[test]
fn tracker_reports_changes_once() {
    let mut t = PromptTracker::new();
    assert!(t.observe(&prompt("select", None, None)));
    assert!(!t.observe(&prompt("select", None, Some("typed"))));
    assert!(t.observe(&prompt("select", Some("e"), None)));
    assert!(t.observe(&prompt("select", None, None)));
}
