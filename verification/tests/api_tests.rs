use claw_browser::api::{
    back_script, check_paused, click_script, default_extract_limit, default_wait_timeout,
    eval_answer, extract_answer, extract_script, extract_text_answer, extract_text_script,
    forward_script, handle_navigate, highlight_script, internal_err, mutation_target,
    navigate_script, no_active_tab, page_info_answer, page_info_script, require_tab,
    scroll_script, select_script, snapshot_answer, type_script, wait_check_script, wait_step,
    AiPaused, EvalResponse, NavigateAction, NavigateBody, ScrollBody, WaitBody, WaitStep,
};
use claw_browser::json::JsonValue;

fn to_serde(v: &JsonValue) -> serde_json::Value {
    match v {
        JsonValue::Null => serde_json::Value::Null,
        JsonValue::Bool(b) => serde_json::Value::Bool(*b),
        JsonValue::Number(n) => serde_json::Value::Number(n.clone()),
        JsonValue::Str(s) => serde_json::Value::String(s.clone()),
        JsonValue::Array(a) => serde_json::Value::Array(a.iter().map(to_serde).collect()),
        JsonValue::Object(o) => {
            let mut m = serde_json::Map::new();
            for (k, x) in o {
                m.insert(k.clone(), to_serde(x));
            }
            serde_json::Value::Object(m)
        }
    }
}

fn value(text: &str) -> serde_json::Value {
    serde_json::from_str(text).unwrap()
}

fn ok_with(v: Option<JsonValue>) -> EvalResponse {
    EvalResponse { ok: true, value: v, error: None }
}

fn failed(e: Option<&str>) -> EvalResponse {
    EvalResponse { ok: false, value: None, error: e.map(|s| s.to_string()) }
}

#[test]
fn defaults() {
    assert_eq!(default_wait_timeout(), 10000);
    assert_eq!(default_extract_limit(), 50);
    assert!(!AiPaused::new().paused);
}

#[test]
fn paused_and_tab_errors() {
    let e = check_paused(true).unwrap_err();
    assert_eq!(e.status, 503);
    assert_eq!(e.body.error, "AI is paused. Human operator is in control. Please wait for resume.");
    assert!(check_paused(false).is_ok());
    let n = no_active_tab();
    assert_eq!(n.status, 400);
    assert_eq!(n.body.error, "No active tab");
    let i = internal_err("x".to_string());
    assert_eq!((i.status, i.body.error), (500, "x".to_string()));
    assert_eq!(require_tab(&Some("t1".to_string())).ok(), Some("t1".to_string()));
    assert_eq!(require_tab(&None).err().map(|e| e.status), Some(400));
}

#[test]
fn mutation_target_order() {
    assert_eq!(mutation_target(true, &None).err().map(|e| e.status), Some(503));
    assert_eq!(mutation_target(true, &Some("t".to_string())).err().map(|e| e.status), Some(503));
    assert_eq!(mutation_target(false, &None).err().map(|e| e.status), Some(400));
    assert_eq!(mutation_target(false, &Some("t".to_string())).ok(), Some("t".to_string()));
}

#[test]
fn navigate_routes() {
    let body = || NavigateBody { url: "https://a.b/?q=\"x\"".to_string() };
    match handle_navigate(false, &Some("tab-1".to_string()), body()) {
        Ok(NavigateAction::Eval { label, script }) => {
            assert_eq!(label, "tab-1");
            assert_eq!(script, "window.location.href = \"https://a.b/?q=\\\"x\\\"\";");
        }
        _ => panic!("expected an eval"),
    }
    match handle_navigate(false, &None, body()) {
        Ok(NavigateAction::OpenTab(p)) => assert_eq!(p.url, "https://a.b/?q=\"x\""),
        _ => panic!("expected a new tab"),
    }
    assert_eq!(handle_navigate(true, &None, body()).err().map(|e| e.status), Some(503));
}

#[test]
fn scripts_quote_their_arguments() {
    assert_eq!(navigate_script("u"), "window.location.href = \"u\";");
    assert_eq!(
        click_script("a\"b\\c\n\u{1}中"),
        "(function(){var el=document.querySelector(\"a\\\"b\\\\c\\n\\u0001中\");if(el)el.click();})();"
    );
    assert_eq!(
        select_script("s", "v"),
        "(function(){var el=document.querySelector(\"s\");if(el){el.value=\"v\";el.dispatchEvent(new Event('change',{bubbles:true}));}})();"
    );
    assert_eq!(highlight_script("h"), "window.__clawBridge&&window.__clawBridge.highlight(\"h\");");
    assert_eq!(wait_check_script("w"), "!!document.querySelector(\"w\")");
    assert_eq!(extract_script(".n", 30), "JSON.stringify(window.__clawBridge.extractContent(\".n\",30))");
    assert_eq!(extract_text_script(&Some("article".to_string())), "window.__clawBridge.extractText(\"article\")");
    assert_eq!(extract_text_script(&None), "window.__clawBridge.extractText(null)");
    assert_eq!(page_info_script(), "JSON.stringify({url:location.href,title:document.title,readyState:document.readyState})");
    assert_eq!(back_script(), "history.back()");
    assert_eq!(forward_script(), "history.forward()");
}

#[test]
fn type_script_text() {
    let expected = "(function(){\nvar el=document.querySelector(\"#i\");\nif(!el)return;\nel.focus();\nvar proto=el instanceof HTMLTextAreaElement?HTMLTextAreaElement.prototype:HTMLInputElement.prototype;\nvar desc=Object.getOwnPropertyDescriptor(proto,'value');\nvar newVal=false?(el.value||'')+\"hi\":\"hi\";\nif(desc&&desc.set){desc.set.call(el,newVal);}else{el.value=newVal;}\n['input','change'].forEach(function(t){el.dispatchEvent(new Event(t,{bubbles:true}));});\n})();";
    assert_eq!(type_script("#i", "hi", false), expected);
    assert!(type_script("#i", "hi", true).contains("var newVal=true?(el.value||'')+\"hi\":\"hi\";"));
}

#[test]
fn scroll_scripts() {
    let by_sel = ScrollBody { selector: Some("#s".to_string()), x: Some(5), y: Some(6) };
    assert_eq!(
        scroll_script(&by_sel),
        "var __el=document.querySelector(\"#s\");if(__el)__el.scrollIntoView({behavior:'smooth',block:'center'});"
    );
    let by_pos = ScrollBody { selector: None, x: None, y: Some(800) };
    assert_eq!(scroll_script(&by_pos), "window.scrollTo({top:800,left:window.scrollX,behavior:'smooth'});");
    let neg = ScrollBody { selector: None, x: Some(-3), y: None };
    assert_eq!(scroll_script(&neg), "window.scrollTo({top:window.scrollY,left:-3,behavior:'smooth'});");
}

#[test]
fn eval_answers() {
    let a = eval_answer(Some(ok_with(Some(JsonValue::Bool(true)))), "ignored");
    assert!(a.ok);
    assert!(matches!(a.value, Some(JsonValue::Bool(true))));
    let b = eval_answer(None, "garbage");
    assert!(!b.ok);
    assert!(b.value.is_none());
    assert_eq!(b.error, Some("failed to parse eval result: garbage".to_string()));
}

#[test]
fn page_info_answers() {
    let text = r#"{"url":"u","title":"t","readyState":"complete"}"#;
    let v = page_info_answer(Ok(ok_with(Some(JsonValue::Str(text.to_string()))))).ok().unwrap();
    assert_eq!(to_serde(&v), value(text));
    let bad = page_info_answer(Ok(ok_with(Some(JsonValue::Str("nope".to_string()))))).ok().unwrap();
    assert_eq!(to_serde(&bad), serde_json::Value::Null);
    let none = page_info_answer(Ok(ok_with(None))).ok().unwrap();
    assert_eq!(to_serde(&none), value("{}"));
    let direct = page_info_answer(Ok(ok_with(Some(JsonValue::Bool(false))))).ok().unwrap();
    assert_eq!(to_serde(&direct), value("false"));
    let e = page_info_answer(Ok(failed(Some("boom")))).err().unwrap();
    assert_eq!((e.status, e.body.error), (500, "boom".to_string()));
    let e2 = page_info_answer(Ok(failed(None))).err().unwrap();
    assert_eq!(e2.body.error, "");
    let e3 = page_info_answer(Err("eval timeout".to_string())).err().unwrap();
    assert_eq!((e3.status, e3.body.error), (500, "eval timeout".to_string()));
}

#[test]
fn extract_answers() {
    let v = extract_answer(Ok(ok_with(Some(JsonValue::Str(r#"[{"text":"a"}]"#.to_string()))))).ok().unwrap();
    assert_eq!(to_serde(&v), value(r#"{"items":[{"text":"a"}]}"#));
    let bad = extract_answer(Ok(ok_with(Some(JsonValue::Str("x".to_string()))))).ok().unwrap();
    assert_eq!(to_serde(&bad), value(r#"{"items":[]}"#));
    let none = extract_answer(Ok(ok_with(None))).ok().unwrap();
    assert_eq!(to_serde(&none), value(r#"{"items":[]}"#));
    assert_eq!(extract_answer(Ok(failed(Some("f")))).err().unwrap().body.error, "f");
}

#[test]
fn extract_text_answers() {
    let s = extract_text_answer(Ok(ok_with(Some(JsonValue::Str("hello".to_string()))))).ok().unwrap();
    assert_eq!(to_serde(&s), value(r#"{"text":"hello"}"#));
    let arr = JsonValue::Array(vec![JsonValue::Number(serde_json::Number::from(1)), JsonValue::Str("a".to_string())]);
    let n = extract_text_answer(Ok(ok_with(Some(arr)))).ok().unwrap();
    assert_eq!(to_serde(&n), value(r#"{"text":"[1,\"a\"]"}"#));
    let none = extract_text_answer(Ok(ok_with(None))).ok().unwrap();
    assert_eq!(to_serde(&none), value(r#"{"text":""}"#));
    assert_eq!(extract_text_answer(Err("x".to_string())).err().unwrap().status, 500);
}

#[test]
fn snapshot_answers() {
    let v = snapshot_answer(r#"{"meta":{"url":"u"},"elements":[1]}"#);
    assert_eq!(to_serde(&v), value(r#"{"meta":{"url":"u"},"elements":[1]}"#));
    let f = snapshot_answer("<html>");
    assert_eq!(to_serde(&f), value(r#"{"meta":{},"elements":[],"_parseError":true}"#));
}

#[test]
fn wait_polls() {
    let body = WaitBody { selector: "#x".to_string(), timeout: 1500 };
    assert!(matches!(wait_step(Some(ok_with(Some(JsonValue::Bool(true)))), true, &body), WaitStep::Found));
    assert!(matches!(wait_step(Some(ok_with(Some(JsonValue::Bool(false)))), false, &body), WaitStep::Again));
    assert!(matches!(wait_step(None, false, &body), WaitStep::Again));
    assert!(matches!(wait_step(Some(failed(None)), false, &body), WaitStep::Again));
    match wait_step(Some(ok_with(Some(JsonValue::Str("true".to_string())))), true, &body) {
        WaitStep::TimedOut(e) => {
            assert_eq!(e.status, 408);
            assert_eq!(e.body.error, "element '#x' not found within 1500 ms");
        }
        _ => panic!("expected a timeout"),
    }
}

#[test]
fn scroll_keeps_both_coordinates_when_none_given() {
    let none = ScrollBody { selector: None, x: None, y: None };
    assert_eq!(
        scroll_script(&none),
        "window.scrollTo({top:window.scrollY,left:window.scrollX,behavior:'smooth'});"
    );
}
