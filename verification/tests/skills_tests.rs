use claw_browser::json::{parse_json, JsonValue};
use claw_browser::skills::{
    list_skills, list_workspaces, new_skill_template, parse_frontmatter, register_in_config_text,
    register_skill_in_openclaw, skill_exists_error, skill_missing_error, token_from_config,
    validate_name, validate_workspace, DirEntry, SkillDir,
};

fn to_serde(v: &JsonValue) -> serde_json::Value {
    match v {
        JsonValue::Null => serde_json::Value::Null,
        JsonValue::Bool(b) => serde_json::Value::Bool(*b),
        JsonValue::Number(n) => serde_json::Value::Number(n.clone()),
        JsonValue::Str(s) => serde_json::Value::String(s.clone()),
        JsonValue::Array(a) => serde_json::Value::Array(a.iter().map(to_serde).collect()),
        JsonValue::Object(o) => {
            let mut m = serde_json::Map::new();
            for (k, x) in o {
                m.insert(k.clone(), to_serde(x));
            }
            serde_json::Value::Object(m)
        }
    }
}

fn value(text: &str) -> serde_json::Value {
    serde_json::from_str(text).unwrap()
}

fn s(x: &str) -> Option<String> {
    Some(x.to_string())
}

#[test]
fn frontmatter_fields() {
    let text = "---\nname: x\nversion: 1.0\ndescription: 描述这个技能\n---\n\n# x\n";
    assert_eq!(parse_frontmatter(text), (s("1.0"), s("描述这个技能")));
}

#[test]
fn frontmatter_missing_or_unclosed() {
    assert_eq!(parse_frontmatter("# title\nversion: 1"), (None, None));
    assert_eq!(parse_frontmatter("---\nversion: 1\n"), (None, None));
    assert_eq!(parse_frontmatter(""), (None, None));
}

#[test]
fn frontmatter_edge_cases() {
    assert_eq!(parse_frontmatter("---\nversion:  2 \n---"), (s("2"), None));
    assert_eq!(parse_frontmatter("---version: 3\n---"), (s("3"), None));
    assert_eq!(parse_frontmatter("---\nversion: 1\nversion: 2\n---"), (s("2"), None));
    assert_eq!(parse_frontmatter("---\n version: 1\ndescription:\n---"), (None, s("")));
    assert_eq!(parse_frontmatter("---\n---"), (None, None));
}

#[test]
fn names_guarded() {
    assert_eq!(validate_name("ok.md"), Ok(()));
    assert_eq!(validate_name(""), Err("无效的名称: \"\"".to_string()));
    assert_eq!(validate_name("a/b"), Err("无效的名称: \"a/b\"".to_string()));
    assert_eq!(validate_name("a\\b"), Err("无效的名称: \"a\\\\b\"".to_string()));
    assert_eq!(validate_name("..x"), Err("无效的名称: \"..x\"".to_string()));
    assert_eq!(validate_name("技能"), Ok(()));
}

#[test]
fn workspaces_guarded() {
    assert_eq!(validate_workspace("workspace"), Ok(()));
    assert_eq!(validate_workspace("workspace-dev"), Ok(()));
    assert_eq!(validate_workspace("ws"), Err("无效的 workspace 名称: \"ws\"".to_string()));
    assert_eq!(
        validate_workspace("workspace-../x"),
        Err("无效的 workspace 名称: \"workspace-../x\"".to_string())
    );
    assert!(validate_workspace("").is_err());
}

#[test]
fn template_text() {
    assert_eq!(
        new_skill_template("demo"),
        "---\nname: demo\nversion: 1.0\ndescription: 描述这个技能的用途\n---\n\n# demo\n\n> 在这里描述这个技能的功能、使用场景和操作方式。\n"
    );
    assert_eq!(parse_frontmatter(&new_skill_template("demo")), (s("1.0"), s("描述这个技能的用途")));
}

#[test]
fn register_adds_entry_and_exec() {
    let mut cfg = parse_json(r#"{"skills":{"entries":{}},"tools":{"alsoAllow":["read"]},"x":1}"#).unwrap();
    register_skill_in_openclaw(&mut cfg);
    assert_eq!(
        to_serde(&cfg),
        value(r#"{"skills":{"entries":{"claw-browser-control":{"enabled":true}}},"tools":{"alsoAllow":["read","exec"]},"x":1}"#)
    );
    let once = to_serde(&cfg);
    register_skill_in_openclaw(&mut cfg);
    assert_eq!(to_serde(&cfg), once);
}

#[test]
fn register_leaves_missing_sections_and_existing_entries() {
    let mut cfg = parse_json(r#"{"skills":{"entries":{"claw-browser-control":{"enabled":false}}},"tools":{"alsoAllow":"exec"}}"#).unwrap();
    let before = to_serde(&cfg);
    register_skill_in_openclaw(&mut cfg);
    assert_eq!(to_serde(&cfg), before);
    let mut other = parse_json("[1]").unwrap();
    register_skill_in_openclaw(&mut other);
    assert_eq!(to_serde(&other), value("[1]"));
}

#[test]
fn register_text() {
    let out = register_in_config_text(r#"{"tools":{"alsoAllow":[]}}"#).unwrap();
    assert_eq!(value(&out), value(r#"{"tools":{"alsoAllow":["exec"]}}"#));
    assert!(out.contains("\n"));
    assert!(register_in_config_text("{bad").is_err());
}

#[test]
fn gateway_token() {
    assert_eq!(token_from_config(r#"{"gateway":{"auth":{"token":"abc"}}}"#), Ok("abc".to_string()));
    let missing = Err("openclaw.json 中未找到 gateway.auth.token".to_string());
    assert_eq!(token_from_config(r#"{"gateway":{"auth":{"token":""}}}"#), missing);
    assert_eq!(token_from_config(r#"{"gateway":{"auth":{"token":7}}}"#), missing);
    assert_eq!(token_from_config("{}"), missing);
    let e = token_from_config("nope").unwrap_err();
    assert!(e.contains("line 1"));
}

#[test]
fn workspaces_sorted_or_default() {
    let d = |n: &str, dir: bool| DirEntry { name: n.to_string(), is_dir: dir };
    let es = vec![d("workspace-b", true), d("workspace-z", false), d("workspace", true), d("other", true), d("workspace-a", true)];
    assert_eq!(
        list_workspaces(es),
        vec!["workspace".to_string(), "workspace-a".to_string(), "workspace-b".to_string()]
    );
    assert_eq!(list_workspaces(vec![d("x", true)]), vec!["workspace".to_string()]);
    assert_eq!(list_workspaces(vec![]), vec!["workspace".to_string()]);
}

#[test]
fn skills_listed_and_described() {
    let dirs = vec![
        SkillDir {
            name: "b".to_string(),
            is_dir: true,
            skill_md: s("---\nversion: 2\n---"),
            files: vec!["z.md".to_string(), "SKILL.md".to_string(), "a.txt".to_string()],
        },
        SkillDir { name: "".to_string(), is_dir: true, skill_md: None, files: vec![] },
        SkillDir { name: "a".to_string(), is_dir: true, skill_md: None, files: vec![] },
        SkillDir { name: "f.txt".to_string(), is_dir: false, skill_md: None, files: vec![] },
    ];
    let skills = list_skills(dirs);
    assert_eq!(skills.len(), 2);
    assert_eq!(skills[0].name, "a");
    assert_eq!(skills[0].version, None);
    assert!(skills[0].files.is_empty());
    assert_eq!(skills[1].name, "b");
    assert_eq!(skills[1].version, s("2"));
    assert_eq!(skills[1].description, None);
    assert_eq!(skills[1].files, vec!["SKILL.md".to_string(), "a.txt".to_string(), "z.md".to_string()]);
}

#[test]
fn skill_errors() {
    assert_eq!(skill_exists_error("x"), "技能 'x' 已存在");
    assert_eq!(skill_missing_error("x"), "技能 'x' 不存在");
}
