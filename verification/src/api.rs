//! The HTTP API through which OpenClaw drives the browser: what each route
//! answers, and the JavaScript it runs in the active tab.

use vstd::prelude::*;
use crate::json::{jview, lemma_jview, JView, JsonValue};
use crate::text::{concat, dec, dec_i64, dec_u64, from_chars, owned, to_chars};

verus! {

// ─── Quoting for JavaScript ─────────────────────────────────────────────────

pub open spec fn hex_digit(d: nat) -> char {
    if d < 10 {
        crate::text::digit(d)
    } else if d == 10 {
        'a'
    } else if d == 11 {
        'b'
    } else if d == 12 {
        'c'
    } else if d == 13 {
        'd'
    } else if d == 14 {
        'e'
    } else {
        'f'
    }
}

/// How JSON writes a character inside a string: `"` and `\` escaped with a
/// backslash, the short escapes for backspace, form feed, newline, carriage
/// return and tab, `\u00XX` (lowercase hex) for the other control
/// characters, and every other character as it is.
pub open spec fn json_escape(c: char) -> Seq<char> {
    if c == '"' {
        seq!['\\', '"']
    } else if c == '\\' {
        seq!['\\', '\\']
    } else if c == '\u{8}' {
        seq!['\\', 'b']
    } else if c == '\u{c}' {
        seq!['\\', 'f']
    } else if c == '\n' {
        seq!['\\', 'n']
    } else if c == '\r' {
        seq!['\\', 'r']
    } else if c == '\t' {
        seq!['\\', 't']
    } else if (c as u32) < 0x20 {
        seq!['\\', 'u', '0', '0', hex_digit((c as nat) / 16), hex_digit((c as nat) % 16)]
    } else {
        seq![c]
    }
}

pub open spec fn json_escape_all(s: Seq<char>) -> Seq<char>
    decreases s.len(),
{
    if s.len() == 0 {
        seq![]
    } else {
        json_escape_all(s.drop_last()) + json_escape(s.last())
    }
}

/// A string as a JSON (and JavaScript) string literal.
pub open spec fn json_quote(s: Seq<char>) -> Seq<char> {
    seq!['"'] + json_escape_all(s) + seq!['"']
}

/// `serde_json::to_string` of a `&str`: the string in double quotes with the
/// escapes of `json_escape`; writing a string into memory does not fail.
#[verifier::external_body]
pub(crate) fn to_js_str(s: &str) -> (r: String)
    ensures
        r@ == json_quote(s@),
{
    match serde_json::to_string(s) {
        Ok(t) => t,
        Err(_) => String::from("\"\""),
    }
}

// ─── Shared state ───────────────────────────────────────────────────────────

/// Which webview is the active tab, if any.
pub struct ActiveTabLabel {
    pub label: Option<String>,
}

/// Whether the AI is paused (a human is in control).
pub struct AiPaused {
    pub paused: bool,
}

impl AiPaused {
    pub fn new() -> (r: Self)
        ensures
            !r.paused,
    {
        AiPaused { paused: false }
    }
}

// ─── Requests and answers ───────────────────────────────────────────────────

pub struct NavigateBody {
    pub url: String,
}

pub struct ClickBody {
    pub selector: String,
}

pub struct TypeBody {
    pub selector: String,
    pub text: String,
    /// Append to the current value instead of replacing it.
    pub append: bool,
}

pub struct ScrollBody {
    /// Scroll this element into view (before x/y).
    pub selector: Option<String>,
    pub x: Option<i32>,
    pub y: Option<i32>,
}

pub struct SelectBody {
    pub selector: String,
    pub value: String,
}

pub struct EvalBody {
    pub script: String,
}

pub struct HighlightBody {
    pub selector: String,
}

pub struct WaitBody {
    pub selector: String,
    /// Milliseconds to wait at most.
    pub timeout: u64,
}

pub struct ExtractBody {
    pub selector: String,
    pub limit: u32,
}

pub struct ExtractTextBody {
    /// The container to read; the whole body when absent.
    pub selector: Option<String>,
}

/// What the page answered to an evaluation.
pub struct EvalResponse {
    pub ok: bool,
    pub value: Option<JsonValue>,
    pub error: Option<String>,
}

pub struct ErrorResponse {
    pub error: String,
}

/// Asks the UI to open a tab when there is none to navigate.
pub struct ApiOpenTabPayload {
    pub url: String,
}

/// An error answer: the HTTP status and its body.
pub struct ApiError {
    pub status: u16,
    pub body: ErrorResponse,
}

pub fn default_wait_timeout() -> (r: u64)
    ensures
        r == 10000,
{
    10000
}

pub fn default_extract_limit() -> (r: u32)
    ensures
        r == 50,
{
    50
}

pub open spec fn paused_message() -> Seq<char> {
    "AI is paused. Human operator is in control. Please wait for resume."@
}

/// While the AI is paused, the routes that change the page answer 503.
pub fn check_paused(paused: bool) -> (r: Result<(), ApiError>)
    ensures
        paused <==> r is Err,
        r matches Err(e) ==> e.status == 503 && e.body.error@ == paused_message(),
{
    if paused {
        Err(
            ApiError {
                status: 503,
                body: ErrorResponse {
                    error: owned("AI is paused. Human operator is in control. Please wait for resume."),
                },
            },
        )
    } else {
        Ok(())
    }
}

/// The answer when there is no active tab: 400.
pub fn no_active_tab() -> (r: ApiError)
    ensures
        r.status == 400,
        r.body.error@ == "No active tab"@,
{
    ApiError { status: 400, body: ErrorResponse { error: owned("No active tab") } }
}

/// The answer to a failure of the page or the bridge: 500 with its message.
pub fn internal_err(e: String) -> (r: ApiError)
    ensures
        r.status == 500,
        r.body.error == e,
{
    ApiError { status: 500, body: ErrorResponse { error: e } }
}

/// The active tab, or the 400 answer.
pub fn require_tab(label: &Option<String>) -> (r: Result<String, ApiError>)
    ensures
        match (r, label) {
            (Ok(l), Some(x)) => l == x,
            (Err(e), None) => e.status == 400 && e.body.error@ == "No active tab"@,
            _ => false,
        },
{
    match label {
        Some(l) => Ok(l.clone()),
        None => Err(no_active_tab()),
    }
}

} // verus!

verus! {

// ─── Scripts ────────────────────────────────────────────────────────────────

fn around(a: &str, b: &Vec<char>, c: &str) -> (r: Vec<char>)
    ensures
        r@ == a@ + b@ + c@,
{
    concat(&concat(&to_chars(a), b), &to_chars(c))
}

fn quoted(s: &str) -> (r: Vec<char>)
    ensures
        r@ == json_quote(s@),
{
    to_chars(to_js_str(s).as_str())
}

pub open spec fn navigate_script_spec(url: Seq<char>) -> Seq<char> {
    "window.location.href = "@ + json_quote(url) + ";"@
}

/// Sends the active tab to `url`.
pub fn navigate_script(url: &str) -> (r: String)
    ensures
        r@ == navigate_script_spec(url@),
{
    from_chars(&around("window.location.href = ", &quoted(url), ";"))
}

pub open spec fn click_script_spec(sel: Seq<char>) -> Seq<char> {
    "(function(){var el=document.querySelector("@ + json_quote(sel) + ");if(el)el.click();})();"@
}

/// Clicks the first element matching a selector.
pub fn click_script(sel: &str) -> (r: String)
    ensures
        r@ == click_script_spec(sel@),
{
    from_chars(
        &around("(function(){var el=document.querySelector(", &quoted(sel), ");if(el)el.click();})();"),
    )
}

pub open spec fn bool_text(b: bool) -> Seq<char> {
    if b {
        "true"@
    } else {
        "false"@
    }
}

pub open spec fn type_script_spec(sel: Seq<char>, text: Seq<char>, append: bool) -> Seq<char> {
    "(function(){\nvar el=document.querySelector("@ + json_quote(sel)
        + ");\nif(!el)return;\nel.focus();\nvar proto=el instanceof HTMLTextAreaElement?HTMLTextAreaElement.prototype:HTMLInputElement.prototype;\nvar desc=Object.getOwnPropertyDescriptor(proto,'value');\nvar newVal="@
        + bool_text(append) + "?(el.value||'')+"@ + json_quote(text) + ":"@ + json_quote(text)
        + ";\nif(desc&&desc.set){desc.set.call(el,newVal);}else{el.value=newVal;}\n['input','change'].forEach(function(t){el.dispatchEvent(new Event(t,{bubbles:true}));});\n})();"@
}

/// Fills an input or text area and fires `input` and `change`, so that the
/// page's framework sees the new value.
pub fn type_script(sel: &str, text: &str, append: bool) -> (r: String)
    ensures
        r@ == type_script_spec(sel@, text@, append),
{
    let s = quoted(sel);
    let t = quoted(text);
    let b = if append {
        to_chars("true")
    } else {
        to_chars("false")
    };
    let mut r = around("(function(){\nvar el=document.querySelector(", &s, ");\nif(!el)return;\nel.focus();\nvar proto=el instanceof HTMLTextAreaElement?HTMLTextAreaElement.prototype:HTMLInputElement.prototype;\nvar desc=Object.getOwnPropertyDescriptor(proto,'value');\nvar newVal=");
    r = concat(&r, &b);
    r = concat(&r, &to_chars("?(el.value||'')+"));
    r = concat(&r, &t);
    r = concat(&r, &to_chars(":"));
    r = concat(&r, &t);
    r = concat(&r, &to_chars(";\nif(desc&&desc.set){desc.set.call(el,newVal);}else{el.value=newVal;}\n['input','change'].forEach(function(t){el.dispatchEvent(new Event(t,{bubbles:true}));});\n})();"));
    from_chars(&r)
}

pub open spec fn scroll_script_spec(sel: Option<Seq<char>>, x: Option<i32>, y: Option<i32>) -> Seq<char> {
    match sel {
        Some(s) => "var __el=document.querySelector("@ + json_quote(s)
            + ");if(__el)__el.scrollIntoView({behavior:'smooth',block:'center'});"@,
        None => "window.scrollTo({top:"@ + coord_text(y, "window.scrollY"@) + ",left:"@
            + coord_text(x, "window.scrollX"@) + ",behavior:'smooth'});"@,
    }
}

/// A coordinate as script text: the number given, else the page's current
/// position (`current`).
pub open spec fn coord_text(v: Option<i32>, current: Seq<char>) -> Seq<char> {
    match v {
        Some(n) => crate::text::dec_signed(n as int),
        None => current,
    }
}

fn coord_text_exec(v: Option<i32>, current: &str) -> (r: Vec<char>)
    ensures
        r@ == coord_text(v, current@),
{
    match v {
        Some(n) => dec_i64(n as i64),
        None => to_chars(current),
    }
}

/// Scrolls an element into view, or the page to a position; a coordinate not
/// given stays where the page is.
pub fn scroll_script(body: &ScrollBody) -> (r: String)
    ensures
        r@ == scroll_script_spec(crate::text::opt_view(body.selector), body.x, body.y),
{
    match &body.selector {
        Some(s) => from_chars(
            &around(
                "var __el=document.querySelector(",
                &quoted(s.as_str()),
                ");if(__el)__el.scrollIntoView({behavior:'smooth',block:'center'});",
            ),
        ),
        None => {
            let mut r = around("window.scrollTo({top:", &coord_text_exec(body.y, "window.scrollY"), ",left:");
            r = concat(&r, &coord_text_exec(body.x, "window.scrollX"));
            r = concat(&r, &to_chars(",behavior:'smooth'});"));
            from_chars(&r)
        },
    }
}

pub open spec fn select_script_spec(sel: Seq<char>, value: Seq<char>) -> Seq<char> {
    "(function(){var el=document.querySelector("@ + json_quote(sel) + ");if(el){el.value="@
        + json_quote(value) + ";el.dispatchEvent(new Event('change',{bubbles:true}));}})();"@
}

/// Picks a value in a `<select>` and fires `change`.
pub fn select_script(sel: &str, value: &str) -> (r: String)
    ensures
        r@ == select_script_spec(sel@, value@),
{
    let mut r = around("(function(){var el=document.querySelector(", &quoted(sel), ");if(el){el.value=");
    r = concat(&r, &quoted(value));
    r = concat(&r, &to_chars(";el.dispatchEvent(new Event('change',{bubbles:true}));}})();"));
    from_chars(&r)
}

pub open spec fn highlight_script_spec(sel: Seq<char>) -> Seq<char> {
    "window.__clawBridge&&window.__clawBridge.highlight("@ + json_quote(sel) + ");"@
}

/// Outlines the element for a moment, through the page bridge.
pub fn highlight_script(sel: &str) -> (r: String)
    ensures
        r@ == highlight_script_spec(sel@),
{
    from_chars(&around("window.__clawBridge&&window.__clawBridge.highlight(", &quoted(sel), ");"))
}

pub open spec fn wait_check_script_spec(sel: Seq<char>) -> Seq<char> {
    "!!document.querySelector("@ + json_quote(sel) + ")"@
}

/// Whether an element matches the selector.
pub fn wait_check_script(sel: &str) -> (r: String)
    ensures
        r@ == wait_check_script_spec(sel@),
{
    from_chars(&around("!!document.querySelector(", &quoted(sel), ")"))
}

pub open spec fn extract_script_spec(sel: Seq<char>, limit: u32) -> Seq<char> {
    "JSON.stringify(window.__clawBridge.extractContent("@ + json_quote(sel) + ","@ + dec(
        limit as nat,
    ) + "))"@
}

/// Reads up to `limit` items matching the selector, as JSON text.
pub fn extract_script(sel: &str, limit: u32) -> (r: String)
    ensures
        r@ == extract_script_spec(sel@, limit),
{
    let mut r = around("JSON.stringify(window.__clawBridge.extractContent(", &quoted(sel), ",");
    r = concat(&r, &dec_u64(limit as u64));
    r = concat(&r, &to_chars("))"));
    from_chars(&r)
}

pub open spec fn extract_text_script_spec(sel: Option<Seq<char>>) -> Seq<char> {
    "window.__clawBridge.extractText("@ + match sel {
        Some(s) => json_quote(s),
        None => "null"@,
    } + ")"@
}

/// Reads the readable text of a region, or of the whole page.
pub fn extract_text_script(sel: &Option<String>) -> (r: String)
    ensures
        r@ == extract_text_script_spec(crate::text::opt_view(*sel)),
{
    let arg = match sel {
        Some(s) => quoted(s.as_str()),
        None => to_chars("null"),
    };
    from_chars(&around("window.__clawBridge.extractText(", &arg, ")"))
}

pub open spec fn page_info_script_spec() -> Seq<char> {
    "JSON.stringify({url:location.href,title:document.title,readyState:document.readyState})"@
}

/// Reads the page's URL, title and ready state, as JSON text.
pub fn page_info_script() -> (r: String)
    ensures
        r@ == page_info_script_spec(),
{
    owned("JSON.stringify({url:location.href,title:document.title,readyState:document.readyState})")
}

pub fn back_script() -> (r: String)
    ensures
        r@ == "history.back()"@,
{
    owned("history.back()")
}

pub fn forward_script() -> (r: String)
    ensures
        r@ == "history.forward()"@,
{
    owned("history.forward()")
}

} // verus!

verus! {

// ─── What the routes answer ─────────────────────────────────────────────────

/// What `/navigate` does: run a script in the active tab, or ask the UI to
/// open a tab at the URL.
pub enum NavigateAction {
    Eval { label: String, script: String },
    OpenTab(ApiOpenTabPayload),
}

/// `/navigate`: refused while paused; navigates the active tab, or opens one.
pub fn handle_navigate(paused: bool, label: &Option<String>, body: NavigateBody) -> (r: Result<
    NavigateAction,
    ApiError,
>)
    ensures
        paused ==> (r matches Err(e) && e.status == 503),
        !paused ==> match (r, label) {
            (Ok(NavigateAction::Eval { label: l, script }), Some(x)) => l == x && script@
                == navigate_script_spec(body.url@),
            (Ok(NavigateAction::OpenTab(p)), None) => p.url == body.url,
            _ => false,
        },
{
    check_paused(paused)?;
    match label {
        Some(l) => Ok(
            NavigateAction::Eval { label: l.clone(), script: navigate_script(body.url.as_str()) },
        ),
        None => Ok(NavigateAction::OpenTab(ApiOpenTabPayload { url: body.url })),
    }
}

/// The tab a route that changes the page works on: refused while paused
/// (503), then without an active tab (400).
pub fn mutation_target(paused: bool, label: &Option<String>) -> (r: Result<String, ApiError>)
    ensures
        paused ==> (r matches Err(e) && e.status == 503 && e.body.error@ == paused_message()),
        !paused ==> match (r, label) {
            (Ok(l), Some(x)) => l == x,
            (Err(e), None) => e.status == 400 && e.body.error@ == "No active tab"@,
            _ => false,
        },
{
    check_paused(paused)?;
    require_tab(label)
}

/// The empty object `{}`.
pub fn empty_object() -> (r: JsonValue)
    ensures
        jview(r) == JView::Object(seq![]),
{
    let o: Vec<(String, JsonValue)> = Vec::new();
    proof {
        lemma_jview(JsonValue::Object(o));
        assert(crate::json::ents(o@) =~= Seq::<(Seq<char>, JView)>::empty());
    }
    JsonValue::Object(o)
}

/// The empty array `[]`.
pub fn empty_array() -> (r: JsonValue)
    ensures
        jview(r) == JView::Array(seq![]),
{
    let a: Vec<JsonValue> = Vec::new();
    proof {
        lemma_jview(JsonValue::Array(a));
        assert(crate::json::vals(a@) =~= Seq::<JView>::empty());
    }
    JsonValue::Array(a)
}

/// An object of one entry.
pub fn single_entry(k: &str, v: JsonValue) -> (r: JsonValue)
    ensures
        jview(r) == JView::Object(seq![(k@, jview(v))]),
{
    let mut o: Vec<(String, JsonValue)> = Vec::new();
    let ghost vv = jview(v);
    o.push((owned(k), v));
    proof {
        lemma_jview(JsonValue::Object(o));
        assert(crate::json::ents(o@) =~= seq![(k@, vv)]);
    }
    JsonValue::Object(o)
}

/// `/eval`: the page's answer, or an error answer when it could not be read.
pub fn eval_answer(parsed: Option<EvalResponse>, raw: &str) -> (r: EvalResponse)
    ensures
        match parsed {
            Some(p) => r == p,
            None => !r.ok && r.value is None && (r.error matches Some(e) && e@
                == "failed to parse eval result: "@ + raw@),
        },
{
    match parsed {
        Some(p) => p,
        None => EvalResponse {
            ok: false,
            value: None,
            error: Some(from_chars(&concat(&to_chars("failed to parse eval result: "), &to_chars(raw)))),
        },
    }
}

/// The value a JSON text parses to, else `fallback`.
pub open spec fn parsed_or(text: Seq<char>, fallback: JView) -> JView {
    match crate::json::json_parse(text) {
        Ok(v) => v,
        Err(_) => fallback,
    }
}

/// The value of a successful evaluation: a string is parsed as JSON (else
/// `on_bad_text`), another value stays, no value gives `when_none`.
pub open spec fn eval_value(value: Option<JView>, on_bad_text: JView, when_none: JView) -> JView {
    match value {
        Some(JView::Str(s)) => parsed_or(s, on_bad_text),
        Some(v) => v,
        None => when_none,
    }
}

pub open spec fn opt_jview(o: Option<JsonValue>) -> Option<JView> {
    match o {
        Some(v) => Some(jview(v)),
        None => None,
    }
}

fn value_of(value: Option<JsonValue>, on_bad_text: JsonValue, when_none: JsonValue) -> (r: JsonValue)
    ensures
        jview(r) == eval_value(opt_jview(value), jview(on_bad_text), jview(when_none)),
{
    match value {
        Some(JsonValue::Str(s)) => match crate::json::parse_json(s.as_str()) {
            Some(v) => v,
            None => on_bad_text,
        },
        Some(v) => {
            proof {
                lemma_jview(v);
            }
            v
        },
        None => when_none,
    }
}

fn failed_eval(error: Option<String>) -> (r: ApiError)
    ensures
        r.status == 500,
        r.body.error@ == match error {
            Some(e) => e@,
            None => Seq::<char>::empty(),
        },
{
    match error {
        Some(e) => internal_err(e),
        None => internal_err(String::new()),
    }
}

/// `/page-info`: the page's `{url, title, readyState}`; a text that is not
/// JSON gives `null`, no value `{}`.
pub fn page_info_answer(parsed: Result<EvalResponse, String>) -> (r: Result<JsonValue, ApiError>)
    ensures
        match parsed {
            Err(e) => r matches Err(a) && a.status == 500 && a.body.error == e,
            Ok(p) => if p.ok {
                r matches Ok(v) && jview(v) == eval_value(
                    opt_jview(p.value),
                    JView::Null,
                    JView::Object(seq![]),
                )
            } else {
                r matches Err(a) && a.status == 500 && a.body.error@ == match p.error {
                    Some(e) => e@,
                    None => Seq::<char>::empty(),
                }
            },
        },
{
    let p = match parsed {
        Ok(p) => p,
        Err(e) => return Err(internal_err(e)),
    };
    if p.ok {
        Ok(value_of(p.value, JsonValue::Null, empty_object()))
    } else {
        Err(failed_eval(p.error))
    }
}

/// `/extract`: `{"items": …}` with the items the page found; a text that is
/// not JSON, or no value, gives `[]`.
pub fn extract_answer(parsed: Result<EvalResponse, String>) -> (r: Result<JsonValue, ApiError>)
    ensures
        match parsed {
            Err(e) => r matches Err(a) && a.status == 500 && a.body.error == e,
            Ok(p) => if p.ok {
                r matches Ok(v) && jview(v) == JView::Object(
                    seq![
                        (
                            "items"@,
                            eval_value(opt_jview(p.value), JView::Array(seq![]), JView::Array(seq![])),
                        ),
                    ],
                )
            } else {
                r matches Err(a) && a.status == 500 && a.body.error@ == match p.error {
                    Some(e) => e@,
                    None => Seq::<char>::empty(),
                }
            },
        },
{
    let p = match parsed {
        Ok(p) => p,
        Err(e) => return Err(internal_err(e)),
    };
    if p.ok {
        let items = value_of(p.value, empty_array(), empty_array());
        Ok(single_entry("items", items))
    } else {
        Err(failed_eval(p.error))
    }
}

/// The text of a successful evaluation: a string as it is, another value as
/// compact JSON, no value as the empty text.
pub open spec fn eval_text(value: Option<JView>) -> Seq<char> {
    match value {
        Some(JView::Str(s)) => s,
        Some(v) => crate::json::json_compact(v),
        None => Seq::<char>::empty(),
    }
}

/// `/extract-text`: `{"text": …}` with the text the page read.
pub fn extract_text_answer(parsed: Result<EvalResponse, String>) -> (r: Result<JsonValue, ApiError>)
    ensures
        match parsed {
            Err(e) => r matches Err(a) && a.status == 500 && a.body.error == e,
            Ok(p) => if p.ok {
                r matches Ok(v) && jview(v) == JView::Object(
                    seq![("text"@, JView::Str(eval_text(opt_jview(p.value))))],
                )
            } else {
                r matches Err(a) && a.status == 500 && a.body.error@ == match p.error {
                    Some(e) => e@,
                    None => Seq::<char>::empty(),
                }
            },
        },
{
    let p = match parsed {
        Ok(p) => p,
        Err(e) => return Err(internal_err(e)),
    };
    if p.ok {
        let text: String = match p.value {
            Some(JsonValue::Str(s)) => s,
            Some(v) => {
                proof {
                    lemma_jview(v);
                }
                crate::json::to_compact(&v)
            },
            None => String::new(),
        };
        Ok(single_entry("text", JsonValue::Str(text)))
    } else {
        Err(failed_eval(p.error))
    }
}

/// The answer to `/snapshot` when the page's text is not JSON.
pub open spec fn snapshot_fallback() -> JView {
    JView::Object(
        seq![
            ("_parseError"@, JView::Bool(true)),
            ("elements"@, JView::Array(seq![])),
            ("meta"@, JView::Object(seq![])),
        ],
    )
}

/// `/snapshot`: the page context the bridge sent, or an empty one marked
/// `_parseError`.
pub fn snapshot_answer(text: &str) -> (r: JsonValue)
    ensures
        jview(r) == parsed_or(text@, snapshot_fallback()),
{
    match crate::json::parse_json(text) {
        Some(v) => v,
        None => {
            let mut o: Vec<(String, JsonValue)> = Vec::new();
            o.push((owned("_parseError"), JsonValue::Bool(true)));
            let ea = empty_array();
            let eo = empty_object();
            let ghost (va, vo) = (jview(ea), jview(eo));
            o.push((owned("elements"), ea));
            o.push((owned("meta"), eo));
            proof {
                lemma_jview(JsonValue::Object(o));
                assert(crate::json::ents(o@) =~= seq![
                    ("_parseError"@, JView::Bool(true)),
                    ("elements"@, va),
                    ("meta"@, vo),
                ]);
            }
            JsonValue::Object(o)
        },
    }
}

/// One poll of `/wait`.
pub enum WaitStep {
    /// The element is there.
    Found,
    /// Poll again after a pause.
    Again,
    /// The time is up.
    TimedOut(ApiError),
}

/// The page answered that the element is there.
pub open spec fn found(parsed: Option<EvalResponse>) -> bool {
    parsed matches Some(p) && p.ok && opt_jview(p.value) == Some(JView::Bool(true))
}

pub open spec fn timeout_message(sel: Seq<char>, timeout: u64) -> Seq<char> {
    "element '"@ + sel + "' not found within "@ + dec(timeout as nat) + " ms"@
}

/// Decides a poll of `/wait` from the page's answer and whether the deadline
/// has passed.
pub fn wait_step(parsed: Option<EvalResponse>, past_deadline: bool, body: &WaitBody) -> (r: WaitStep)
    ensures
        found(parsed) ==> r is Found,
        !found(parsed) && !past_deadline ==> r is Again,
        !found(parsed) && past_deadline ==> (r matches WaitStep::TimedOut(e) && e.status == 408
            && e.body.error@ == timeout_message(body.selector@, body.timeout)),
{
    let yes = match &parsed {
        Some(p) => p.ok && match &p.value {
            Some(JsonValue::Bool(b)) => *b,
            Some(v) => {
                proof {
                    lemma_jview(*v);
                }
                false
            },
            None => false,
        },
        None => false,
    };
    if yes {
        return WaitStep::Found;
    }
    if !past_deadline {
        return WaitStep::Again;
    }
    let mut m = around("element '", &to_chars(body.selector.as_str()), "' not found within ");
    m = concat(&m, &dec_u64(body.timeout));
    m = concat(&m, &to_chars(" ms"));
    WaitStep::TimedOut(ApiError { status: 408, body: ErrorResponse { error: from_chars(&m) } })
}

} // verus!

verus! {

// ─── Laws ───────────────────────────────────────────────────────────────────

/// Scrolling: with a selector the script scrolls that element into view and
/// does not depend on the coordinates.  Without one, the script sets `top`
/// to the given y (its decimal text) and `left` to the given x, each
/// whatever the other coordinate is; a coordinate not given stays where the
/// page is (`window.scrollY`, `window.scrollX`).
pub proof fn law_scroll_coordinates(
    sel: Seq<char>,
    x: Option<i32>,
    y: Option<i32>,
    x2: Option<i32>,
    y2: Option<i32>,
)
    ensures
        scroll_script_spec(Some(sel), x, y) == scroll_script_spec(Some(sel), x2, y2),
        ({
            let s = scroll_script_spec(None, x, y);
            let top = match y {
                Some(v) => crate::text::dec_signed(v as int),
                None => "window.scrollY"@,
            };
            let left = match x {
                Some(v) => crate::text::dec_signed(v as int),
                None => "window.scrollX"@,
            };
            let head = "window.scrollTo({top:"@ + top + ",left:"@;
            let tail = ",left:"@ + left + ",behavior:'smooth'});"@;
            &&& head.len() <= s.len() && s.take(head.len() as int) == head
            &&& tail.len() <= s.len() && s.skip(s.len() - tail.len()) == tail
        }),
{
    let s = scroll_script_spec(None, x, y);
    let top = match y {
        Some(v) => crate::text::dec_signed(v as int),
        None => "window.scrollY"@,
    };
    let left = match x {
        Some(v) => crate::text::dec_signed(v as int),
        None => "window.scrollX"@,
    };
    let a = "window.scrollTo({top:"@;
    let b = ",left:"@;
    let c = ",behavior:'smooth'});"@;
    assert(s == a + top + b + left + c);
    assert(s.take((a + top + b).len() as int) =~= a + top + b);
    assert(s.skip(s.len() - (b + left + c).len()) =~= b + left + c);
}

} // verus!
