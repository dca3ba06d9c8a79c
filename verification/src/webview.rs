//! Tab webviews: the scripts injected into pages, and how the app reads the
//! `claw://` navigations by which the page bridge reports back.

use vstd::prelude::*;
use vstd::utf8::{decode_utf8, valid_utf8};
use base64::Engine;
use crate::openclaw_http::pair_views;
use crate::text::{
    concat, from_chars, opt_view, owned, parse_i32, parse_i32_spec, str_is, strip_trail,
    strip_trail_exec, to_chars, trim_end, trail_ws, char_is_ws, is_ws,
};

verus! {

// ─── URLs ───────────────────────────────────────────────────────────────────

/// The parts of a URL the navigation handler reads.
pub struct UrlParts {
    pub scheme: String,
    pub host: Option<String>,
    pub fragment: Option<String>,
    /// The query's pairs, percent- and plus-decoded, in order.
    pub query: Vec<(String, String)>,
}

/// What `url::Url::parse` makes of a text: its scheme, host, fragment and
/// decoded query pairs; nothing when it is not a URL.
pub uninterp spec fn url_parts(text: Seq<char>) -> Option<
    (Seq<char>, Option<Seq<char>>, Option<Seq<char>>, Seq<(Seq<char>, Seq<char>)>),
>;

/// `url::Url::parse`, then `scheme`, `host_str`, `fragment` and `query_pairs`.
#[verifier::external_body]
pub(crate) fn parse_url(text: &str) -> (r: Option<UrlParts>)
    ensures
        match r {
            Some(p) => url_parts(text@) == Some(
                (p.scheme@, opt_view(p.host), opt_view(p.fragment), pair_views(p.query@)),
            ),
            None => url_parts(text@) is None,
        },
{
    match url::Url::parse(text) {
        Ok(u) => {
            let mut query = Vec::new();
            for (k, v) in u.query_pairs() {
                query.push((k.into_owned(), v.into_owned()));
            }
            let host = u.host_str().map(String::from);
            let fragment = u.fragment().map(String::from);
            Some(UrlParts { scheme: u.scheme().to_string(), host, fragment, query })
        },
        Err(_) => None,
    }
}

// ─── Decoding the bridge's reports ──────────────────────────────────────────

/// What the `STANDARD` engine of `base64` decodes a text to; nothing when it
/// is not canonical padded base64.
pub uninterp spec fn b64_decode(text: Seq<char>) -> Option<Seq<u8>>;

/// `base64::engine::general_purpose::STANDARD.decode`.
#[verifier::external_body]
fn base64_decode(text: &str) -> (r: Option<Vec<u8>>)
    ensures
        match r {
            Some(b) => b64_decode(text@) == Some(b@),
            None => b64_decode(text@) is None,
        },
{
    match base64::engine::general_purpose::STANDARD.decode(text.as_bytes()) {
        Ok(b) => Some(b),
        Err(_) => None,
    }
}

/// `String::from_utf8`: the text the bytes encode, when they are UTF-8.
#[verifier::external_body]
fn string_from_utf8(b: Vec<u8>) -> (r: Option<String>)
    ensures
        match r {
            Some(s) => valid_utf8(b@) && s@ == decode_utf8(b@),
            None => !valid_utf8(b@),
        },
{
    match String::from_utf8(b) {
        Ok(s) => Some(s),
        Err(_) => None,
    }
}

/// The URL-safe alphabet turned back into the standard one (`-` to `+`,
/// `_` to `/`).
pub open spec fn unsafe_alphabet(frag: Seq<char>) -> Seq<char> {
    frag.map_values(|c: char| if c == '-' { '+' } else if c == '_' { '/' } else { c })
}

/// The text a fragment carries: URL-safe base64 of UTF-8.
pub open spec fn fragment_text(frag: Seq<char>) -> Option<Seq<char>> {
    match b64_decode(unsafe_alphabet(frag)) {
        Some(b) => if valid_utf8(b) {
            Some(decode_utf8(b))
        } else {
            None
        },
        None => None,
    }
}

/// Decodes the fragment of a report.
pub fn decode_fragment(frag: &str) -> (r: Option<String>)
    ensures
        opt_view(r) == fragment_text(frag@),
{
    let f = to_chars(frag);
    let mut g: Vec<char> = Vec::new();
    let mut i: usize = 0;
    while i < f.len()
        invariant
            i <= f@.len(),
            g@ == unsafe_alphabet(f@).take(i as int),
        decreases f@.len() - i,
    {
        let c = f[i];
        let d = if c == '-' {
            '+'
        } else if c == '_' {
            '/'
        } else {
            c
        };
        g.push(d);
        i = i + 1;
        assert(g@ =~= unsafe_alphabet(f@).take(i as int));
    }
    assert(unsafe_alphabet(f@).take(f@.len() as int) =~= unsafe_alphabet(f@));
    let text = from_chars(&g);
    match base64_decode(text.as_str()) {
        Some(b) => string_from_utf8(b),
        None => None,
    }
}

// ─── Navigations ────────────────────────────────────────────────────────────

/// What to do with a navigation of a tab.
pub enum NavDecision {
    /// An ordinary page: let it load.
    Allow,
    /// The page reported a click.
    Click { label: String, x: i32, y: i32, tag: String },
    /// The page sent its DOM snapshot (nothing when the report did not decode).
    Snapshot(Option<String>),
    /// The page sent the result of an evaluation.
    EvalResult(Option<String>),
}

/// The value of the last pair with key `k`.
pub open spec fn query_value(q: Seq<(Seq<char>, Seq<char>)>, k: Seq<char>) -> Option<Seq<char>>
    decreases q.len(),
{
    if q.len() == 0 {
        None
    } else if q.last().0 == k {
        Some(q.last().1)
    } else {
        query_value(q.drop_last(), k)
    }
}

/// A coordinate of a click report: the number given, 0 when absent or not a number.
pub open spec fn coord(q: Seq<(Seq<char>, Seq<char>)>, k: Seq<char>) -> i32 {
    match query_value(q, k) {
        Some(v) => match parse_i32_spec(v) {
            Some(n) => n,
            None => 0,
        },
        None => 0,
    }
}

pub open spec fn text_or_empty(v: Option<Seq<char>>) -> Seq<char> {
    match v {
        Some(t) => t,
        None => seq![],
    }
}

fn query_value_exec(q: &Vec<(String, String)>, k: &str) -> (r: Option<String>)
    ensures
        opt_view(r) == query_value(pair_views(q@), k@),
{
    let kc = to_chars(k);
    let mut i = q.len();
    assert(pair_views(q@).take(i as int) =~= pair_views(q@));
    while i > 0
        invariant
            i <= q@.len(),
            kc@ == k@,
            query_value(pair_views(q@), k@) == query_value(pair_views(q@).take(i as int), k@),
        decreases i,
    {
        proof {
            assert(pair_views(q@).take(i as int).drop_last() =~= pair_views(q@).take(i - 1));
        }
        if crate::text::same_chars(&to_chars(q[i - 1].0.as_str()), &kc) {
            return Some(q[i - 1].1.clone());
        }
        i = i - 1;
    }
    None
}

fn coord_exec(q: &Vec<(String, String)>, k: &str) -> (r: i32)
    ensures
        r == coord(pair_views(q@), k@),
{
    match query_value_exec(q, k) {
        Some(v) => match parse_i32(&to_chars(v.as_str())) {
            Some(n) => n,
            None => 0,
        },
        None => 0,
    }
}

pub open spec fn nav_decision_view(d: NavDecision) -> (int, Seq<char>, i32, i32, Seq<char>, Option<Seq<char>>) {
    match d {
        NavDecision::Allow => (0, seq![], 0, 0, seq![], None),
        NavDecision::Click { label, x, y, tag } => (1, label@, x, y, tag@, None),
        NavDecision::Snapshot(s) => (2, seq![], 0, 0, seq![], opt_view(s)),
        NavDecision::EvalResult(s) => (3, seq![], 0, 0, seq![], opt_view(s)),
    }
}

/// The report a fragment carries, nothing without a fragment.
pub open spec fn report(fragment: Option<Seq<char>>) -> Option<Seq<char>> {
    match fragment {
        Some(f) => fragment_text(f),
        None => None,
    }
}

/// What a navigation to a URL with these parts means: anything but the
/// `claw` scheme, or a `claw` host the bridge does not use, loads; the
/// bridge's click, snapshot and eval-result reports are read and not loaded.
pub open spec fn navigation(
    scheme: Seq<char>,
    host: Option<Seq<char>>,
    fragment: Option<Seq<char>>,
    q: Seq<(Seq<char>, Seq<char>)>,
) -> (int, Seq<char>, i32, i32, Seq<char>, Option<Seq<char>>) {
    if scheme != "claw"@ {
        (0, seq![], 0, 0, seq![], None)
    } else if host == Some("webview-click"@) {
        (
            1,
            text_or_empty(query_value(q, "label"@)),
            coord(q, "x"@),
            coord(q, "y"@),
            text_or_empty(query_value(q, "tag"@)),
            None,
        )
    } else if host == Some("dom-snapshot"@) {
        (2, seq![], 0, 0, seq![], report(fragment))
    } else if host == Some("eval-result"@) {
        (3, seq![], 0, 0, seq![], report(fragment))
    } else {
        (0, seq![], 0, 0, seq![], None)
    }
}

fn host_is(host: &Option<String>, name: &str) -> (r: bool)
    ensures
        r == (opt_view(*host) == Some(name@)),
{
    match host {
        Some(h) => str_is(&to_chars(h.as_str()), name),
        None => false,
    }
}

fn report_exec(fragment: &Option<String>) -> (r: Option<String>)
    ensures
        opt_view(r) == report(opt_view(*fragment)),
{
    match fragment {
        Some(f) => decode_fragment(f.as_str()),
        None => None,
    }
}

/// Decides a navigation from the parts of its URL.
pub fn navigation_decision(parts: &UrlParts) -> (r: NavDecision)
    ensures
        nav_decision_view(r) == navigation(
            parts.scheme@,
            opt_view(parts.host),
            opt_view(parts.fragment),
            pair_views(parts.query@),
        ),
{
    if !str_is(&to_chars(parts.scheme.as_str()), "claw") {
        return NavDecision::Allow;
    }
    if host_is(&parts.host, "webview-click") {
        let label = match query_value_exec(&parts.query, "label") {
            Some(l) => l,
            None => String::new(),
        };
        let tag = match query_value_exec(&parts.query, "tag") {
            Some(t) => t,
            None => String::new(),
        };
        NavDecision::Click {
            label,
            x: coord_exec(&parts.query, "x"),
            y: coord_exec(&parts.query, "y"),
            tag,
        }
    } else if host_is(&parts.host, "dom-snapshot") {
        NavDecision::Snapshot(report_exec(&parts.fragment))
    } else if host_is(&parts.host, "eval-result") {
        NavDecision::EvalResult(report_exec(&parts.fragment))
    } else {
        NavDecision::Allow
    }
}

/// Decides a navigation to a URL given as text (a text that is not a URL loads).
pub fn decide_navigation(url: &str) -> (r: NavDecision)
    ensures
        match url_parts(url@) {
            Some((scheme, host, fragment, q)) => nav_decision_view(r) == navigation(
                scheme,
                host,
                fragment,
                q,
            ),
            None => r is Allow,
        },
{
    match parse_url(url) {
        Some(parts) => navigation_decision(&parts),
        None => NavDecision::Allow,
    }
}

/// The line the app prints for a click report.
pub open spec fn click_log(label: Seq<char>, x: i32, y: i32, tag: Seq<char>) -> Seq<char> {
    "Webview '"@ + label + "' clicked at ("@ + crate::text::dec_signed(x as int) + ", "@
        + crate::text::dec_signed(y as int) + ") on "@ + tag
}

pub fn click_log_line(label: &str, x: i32, y: i32, tag: &str) -> (r: String)
    ensures
        r@ == click_log(label@, x, y, tag@),
{
    let mut m = concat(&to_chars("Webview '"), &to_chars(label));
    m = concat(&m, &to_chars("' clicked at ("));
    m = concat(&m, &crate::text::dec_i64(x as i64));
    m = concat(&m, &to_chars(", "));
    m = concat(&m, &crate::text::dec_i64(y as i64));
    m = concat(&m, &to_chars(") on "));
    m = concat(&m, &to_chars(tag));
    from_chars(&m)
}

} // verus!

verus! {

// ─── Injected scripts ───────────────────────────────────────────────────────

/// The script every tab starts with: the stealth patches, the page bridge
/// (its trailing `;` and whitespace trimmed, one `;` put back), the site
/// helpers, then the tab's label for the bridge.
pub open spec fn init_script_spec(stealth: Seq<char>, bridge: Seq<char>, site: Seq<char>, label: Seq<char>) -> Seq<char> {
    stealth + "\n"@ + strip_trail(trim_end(bridge), ';') + ";\n"@ + site
        + "\nwindow.__clawBridgeLabel="@ + crate::wizard::debug_quoted(label) + ";"@
}

pub fn init_script(stealth: &str, bridge: &str, site: &str, label: &str) -> (r: String)
    ensures
        r@ == init_script_spec(stealth@, bridge@, site@, label@),
{
    let b = strip_trail_exec(&crate::text::trim_end_exec(&to_chars(bridge)), ';');
    let mut m = concat(&to_chars(stealth), &to_chars("\n"));
    m = concat(&m, &b);
    m = concat(&m, &to_chars(";\n"));
    m = concat(&m, &to_chars(site));
    m = concat(&m, &to_chars("\nwindow.__clawBridgeLabel="));
    m = concat(&m, &to_chars(crate::wizard::debug_str(label).as_str()));
    m = concat(&m, &to_chars(";"));
    from_chars(&m)
}

pub open spec fn eval_wrapper_head() -> Seq<char> {
    "(function(__s){\ntry{var __r=eval(__s);var __o=JSON.stringify({ok:true,value:__r!==undefined?__r:null});}\ncatch(e){var __o=JSON.stringify({ok:false,error:e.message});}\nvar __b=btoa(unescape(encodeURIComponent(__o))).replace(/\\+/g,'-').replace(/\\//g,'_');\nwindow.location.assign('claw://eval-result#'+__b);})("@
}

/// Runs a script in the page and reports its result (or error) back through
/// a `claw://eval-result` navigation.
pub fn eval_wrapper_script(script: &str) -> (r: String)
    ensures
        r@ == eval_wrapper_head() + crate::api::json_quote(script@) + ");"@,
{
    let q = to_chars(crate::api::to_js_str(script).as_str());
    let m = concat(&to_chars("(function(__s){\ntry{var __r=eval(__s);var __o=JSON.stringify({ok:true,value:__r!==undefined?__r:null});}\ncatch(e){var __o=JSON.stringify({ok:false,error:e.message});}\nvar __b=btoa(unescape(encodeURIComponent(__o))).replace(/\\+/g,'-').replace(/\\//g,'_');\nwindow.location.assign('claw://eval-result#'+__b);})("), &q);
    from_chars(&concat(&m, &to_chars(");")))
}

/// Sends the page context (through the bridge when it is there) back through
/// a `claw://dom-snapshot` navigation.
pub fn dom_snapshot_script() -> (r: String)
    ensures
        r@ == "\n(function(){\n  var ctx = window.__clawBridge && window.__clawBridge.getPageContext\n    ? window.__clawBridge.getPageContext()\n    : { meta: { url: location.href, title: document.title,\n                viewport: { w: innerWidth, h: innerHeight },\n                scroll: { y: 0, maxY: 0 } },\n        elements: [] };\n  var json = JSON.stringify(ctx);\n  var b64 = btoa(unescape(encodeURIComponent(json))).replace(/\\+/g,'-').replace(/\\//g,'_');\n  window.location.assign('claw://dom-snapshot#' + b64);\n})();\n"@,
{
    owned("\n(function(){\n  var ctx = window.__clawBridge && window.__clawBridge.getPageContext\n    ? window.__clawBridge.getPageContext()\n    : { meta: { url: location.href, title: document.title,\n                viewport: { w: innerWidth, h: innerHeight },\n                scroll: { y: 0, maxY: 0 } },\n        elements: [] };\n  var json = JSON.stringify(ctx);\n  var b64 = btoa(unescape(encodeURIComponent(json))).replace(/\\+/g,'-').replace(/\\//g,'_');\n  window.location.assign('claw://dom-snapshot#' + b64);\n})();\n")
}

/// The error when a webview label is unknown.
pub fn webview_not_found(label: &str) -> (r: String)
    ensures
        r@ == "webview '"@ + label@ + "' not found"@,
{
    from_chars(&concat(&concat(&to_chars("webview '"), &to_chars(label)), &to_chars("' not found")))
}

} // verus!

verus! {

// ─── The tabs' user agent ───────────────────────────────────────────────────

/// The platform the app runs on.
#[derive(Clone, Copy, PartialEq, Eq, Structural)]
pub enum Platform {
    Windows,
    MacOs,
    Linux,
}

/// The Chromium user agent the tabs present, for the platform.
pub open spec fn chrome_user_agent_spec(p: Platform) -> Seq<char> {
    match p {
        Platform::Windows => "Mozilla/5.0 (Windows NT 10.0; Win64; x64) AppleWebKit/537.36 (KHTML, like Gecko) Chrome/131.0.0.0 Safari/537.36"@,
        Platform::MacOs => "Mozilla/5.0 (Macintosh; Intel Mac OS X 10_15_7) AppleWebKit/537.36 (KHTML, like Gecko) Chrome/131.0.0.0 Safari/537.36"@,
        Platform::Linux => "Mozilla/5.0 (X11; Linux x86_64) AppleWebKit/537.36 (KHTML, like Gecko) Chrome/131.0.0.0 Safari/537.36"@,
    }
}

pub fn chrome_user_agent(p: Platform) -> (r: String)
    ensures
        r@ == chrome_user_agent_spec(p),
{
    match p {
        Platform::Windows => owned("Mozilla/5.0 (Windows NT 10.0; Win64; x64) AppleWebKit/537.36 (KHTML, like Gecko) Chrome/131.0.0.0 Safari/537.36"),
        Platform::MacOs => owned("Mozilla/5.0 (Macintosh; Intel Mac OS X 10_15_7) AppleWebKit/537.36 (KHTML, like Gecko) Chrome/131.0.0.0 Safari/537.36"),
        Platform::Linux => owned("Mozilla/5.0 (X11; Linux x86_64) AppleWebKit/537.36 (KHTML, like Gecko) Chrome/131.0.0.0 Safari/537.36"),
    }
}

} // verus!
