use claw_browser::webview::{
    chrome_user_agent, Platform,
    click_log_line, decide_navigation, decode_fragment, dom_snapshot_script, eval_wrapper_script,
    init_script, navigation_decision, webview_not_found, NavDecision, UrlParts,
};

#[test]
fn ordinary_pages_load() {
    assert!(matches!(decide_navigation("https://example.com/a?b=1#c"), NavDecision::Allow));
    assert!(matches!(decide_navigation("not a url"), NavDecision::Allow));
    assert!(matches!(decide_navigation("claw://other#eyJhIjoxfQ=="), NavDecision::Allow));
}

#[test]
fn click_reports() {
    match decide_navigation("claw://webview-click?label=tab-1&x=10&y=-4&tag=A%20B") {
        NavDecision::Click { label, x, y, tag } => {
            assert_eq!(label, "tab-1");
            assert_eq!((x, y), (10, -4));
            assert_eq!(tag, "A B");
        }
        _ => panic!("expected a click"),
    }
    match decide_navigation("claw://webview-click?x=abc&y=+7&y=8") {
        NavDecision::Click { label, x, y, tag } => {
            assert_eq!(label, "");
            assert_eq!((x, y), (0, 8));
            assert_eq!(tag, "");
        }
        _ => panic!("expected a click"),
    }
}

#[test]
fn snapshot_and_eval_reports() {
    match decide_navigation("claw://dom-snapshot#eyJhIjoxfQ==") {
        NavDecision::Snapshot(s) => assert_eq!(s, Some("{\"a\":1}".to_string())),
        _ => panic!("expected a snapshot"),
    }
    match decide_navigation("claw://eval-result#Pz8-") {
        NavDecision::EvalResult(s) => assert_eq!(s, Some("??>".to_string())),
        _ => panic!("expected an eval result"),
    }
    assert!(matches!(decide_navigation("claw://eval-result#!!!"), NavDecision::EvalResult(None)));
    assert!(matches!(decide_navigation("claw://dom-snapshot"), NavDecision::Snapshot(None)));
}

#[test]
fn decision_from_parts() {
    let parts = UrlParts {
        scheme: "claw".to_string(),
        host: Some("webview-click".to_string()),
        fragment: None,
        query: vec![("x".to_string(), "3".to_string()), ("x".to_string(), "5".to_string())],
    };
    match navigation_decision(&parts) {
        NavDecision::Click { x, .. } => assert_eq!(x, 5),
        _ => panic!("expected a click"),
    }
    let https = UrlParts { scheme: "https".to_string(), host: Some("dom-snapshot".to_string()), fragment: None, query: vec![] };
    assert!(matches!(navigation_decision(&https), NavDecision::Allow));
}

#[test]
fn fragments_decode() {
    assert_eq!(decode_fragment("eyJhIjoxfQ=="), Some("{\"a\":1}".to_string()));
    assert_eq!(decode_fragment("5Lit5paH"), Some("中文".to_string()));
    assert_eq!(decode_fragment("Pz8-"), Some("??>".to_string()));
    assert_eq!(decode_fragment("_w=="), None);
    assert_eq!(decode_fragment("abc"), None);
    assert_eq!(decode_fragment(""), Some(String::new()));
}

#[test]
fn log_and_errors() {
    assert_eq!(click_log_line("t", 1, -2, "DIV"), "Webview 't' clicked at (1, -2) on DIV");
    assert_eq!(webview_not_found("x"), "webview 'x' not found");
}

#[test]
fn injected_scripts() {
    assert_eq!(init_script("S", "B;; \n", "X", "tab\"1"), "S\nB;\nX\nwindow.__clawBridgeLabel=\"tab\\\"1\";");
    assert_eq!(init_script("", "", "", "t"), "\n;\n\nwindow.__clawBridgeLabel=\"t\";");
    let w = eval_wrapper_script("1+\"a\"");
    assert!(w.starts_with("(function(__s){\ntry{var __r=eval(__s);"));
    assert!(w.ends_with("window.location.assign('claw://eval-result#'+__b);})(\"1+\\\"a\\\"\");"));
    let d = dom_snapshot_script();
    assert!(d.starts_with("\n(function(){\n  var ctx = window.__clawBridge"));
    assert!(d.contains("window.location.assign('claw://dom-snapshot#' + b64);"));
}

#[test]
fn user_agents() {
    assert_eq!(
        chrome_user_agent(Platform::Linux),
        "Mozilla/5.0 (X11; Linux x86_64) AppleWebKit/537.36 (KHTML, like Gecko) Chrome/131.0.0.0 Safari/537.36"
    );
    assert!(chrome_user_agent(Platform::Windows).contains("Windows NT 10.0; Win64; x64"));
    assert!(chrome_user_agent(Platform::MacOs).contains("Macintosh; Intel Mac OS X 10_15_7"));
}
