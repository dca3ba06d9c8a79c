//! The OpenClaw HTTP API: resolving a request to `POST /v1/responses`, and
//! reading the streamed answer (server-sent events) into text deltas.

use vstd::prelude::*;
use crate::json::{as_str, field, get_field, jget, jview, lemma_jview, json_parse, JView, JsonValue};
use crate::text::{
    concat, first_index, from_chars, from_utf8_lossy, has_prefix, has_sub, owned, slice, slice_from,
    str_is, strip_prefix_exec, strip_trail, strip_trail_exec, to_chars, trim, trim_chars,
    text_of,
};

verus! {

/// Where the OpenClaw gateway listens by default.
pub open spec fn default_api_base() -> Seq<char> {
    "http://127.0.0.1:18789"@
}

/// Parameters of a request to the responses API.
pub struct OpenclawV1Params {
    pub base_url: Option<String>,
    pub token: Option<String>,
    pub session_key: Option<String>,
    pub model: Option<String>,
    pub input: String,
    pub stream: bool,
}

/// The default of `stream`.
pub fn default_true() -> (r: bool)
    ensures
        r,
{
    true
}

// ─── Reading events ─────────────────────────────────────────────────────────

/// The kind of a message: `tool` for function and tool calls, `thought`
/// otherwise.
pub open spec fn message_kind(json_type: Seq<char>) -> Seq<char> {
    if has_sub(json_type, "function_call"@) || has_sub(json_type, "tool_call"@) {
        "tool"@
    } else {
        "thought"@
    }
}

/// A non-empty string value.
pub open spec fn nonempty_str(v: Option<JView>) -> Option<Seq<char>> {
    match v {
        Some(JView::Str(s)) => if s.len() > 0 {
            Some(s)
        } else {
            None
        },
        _ => None,
    }
}

/// The first element of an array.
pub open spec fn first_of(v: Option<JView>) -> Option<JView> {
    match v {
        Some(JView::Array(a)) => if a.len() > 0 {
            Some(a[0])
        } else {
            None
        },
        _ => None,
    }
}

/// `choices[0].delta.content` of a chat-completions chunk.
pub open spec fn chat_content(o: Seq<(Seq<char>, JView)>) -> Option<Seq<char>> {
    match first_of(jget(o, "choices"@)) {
        Some(choice) => match field(choice, "delta"@) {
            Some(JView::Object(d)) => nonempty_str(jget(d, "content"@)),
            _ => None,
        },
        None => None,
    }
}

/// The (kind, text) an event's JSON object carries: its kind from its `type`
/// (or the SSE event type when it has none); its text from a non-empty
/// `delta`, else `choices[0].delta.content`, else `text`, else `content`.
pub open spec fn sse_delta(event_type: Seq<char>, v: JView) -> Option<(Seq<char>, Seq<char>)> {
    match v {
        JView::Object(o) => {
            let json_type = match jget(o, "type"@) {
                Some(JView::Str(t)) => t,
                _ => event_type,
            };
            let kind = message_kind(json_type);
            match nonempty_str(jget(o, "delta"@)) {
                Some(d) => Some((kind, d)),
                None => match chat_content(o) {
                    Some(c) => Some((kind, c)),
                    None => match nonempty_str(jget(o, "text"@)) {
                        Some(t) => Some((kind, t)),
                        None => match nonempty_str(jget(o, "content"@)) {
                            Some(c) => Some((kind, c)),
                            None => None,
                        },
                    },
                },
            }
        },
        _ => None,
    }
}

/// What a `data:` payload of an event says: nothing for an empty payload,
/// `[DONE]` or text that is not JSON.
pub open spec fn sse_data(event_type: Seq<char>, data: Seq<char>) -> Option<(Seq<char>, Seq<char>)> {
    let d = trim(data);
    if d.len() == 0 || d == "[DONE]"@ {
        None
    } else {
        match json_parse(d) {
            Ok(v) => sse_delta(event_type, v),
            Err(_) => None,
        }
    }
}

pub open spec fn pair_view(r: Option<(String, String)>) -> Option<(Seq<char>, Seq<char>)> {
    match r {
        Some((a, b)) => Some((a@, b@)),
        None => None,
    }
}

fn nonempty_field(o: &JsonValue, k: &str) -> (r: Option<String>)
    ensures
        match (r, o) {
            (Some(s), JsonValue::Object(_)) => nonempty_str(field(jview(*o), k@)) == Some(s@),
            (None, JsonValue::Object(_)) => nonempty_str(field(jview(*o), k@)) is None,
            _ => true,
        },
{
    match get_field(o, k) {
        Some(x) => {
            proof {
                lemma_jview(*x);
            }
            match as_str(x) {
                Some(s) => if to_chars(s.as_str()).len() > 0 {
                    Some(s.clone())
                } else {
                    None
                },
                None => None,
            }
        },
        None => None,
    }
}

fn chat_content_exec(o: &JsonValue) -> (r: Option<String>)
    requires
        o is Object,
    ensures
        match jview(*o) {
            JView::Object(es) => match r {
                Some(s) => chat_content(es) == Some(s@),
                None => chat_content(es) is None,
            },
            _ => false,
        },
{
    proof {
        lemma_jview(*o);
    }
    let choices = match get_field(o, "choices") {
        Some(c) => c,
        None => return None,
    };
    proof {
        lemma_jview(*choices);
    }
    let choice = match choices {
        JsonValue::Array(a) => {
            if a.len() == 0 {
                return None;
            }
            &a[0]
        },
        _ => return None,
    };
    let delta = match get_field(choice, "delta") {
        Some(d) => d,
        None => return None,
    };
    proof {
        lemma_jview(*delta);
    }
    match delta {
        JsonValue::Object(_) => nonempty_field(delta, "content"),
        _ => None,
    }
}

/// The message an event's JSON value carries, for an event of type `event_type`.
pub fn classify_sse(event_type: &str, v: &JsonValue) -> (r: Option<(String, String)>)
    ensures
        pair_view(r) == sse_delta(event_type@, jview(*v)),
{
    proof {
        lemma_jview(*v);
    }
    match v {
        JsonValue::Object(_) => {},
        _ => return None,
    }
    let json_type: Vec<char> = match get_field(v, "type") {
        Some(JsonValue::Str(t)) => to_chars(t.as_str()),
        Some(x) => {
            proof {
                lemma_jview(*x);
            }
            to_chars(event_type)
        },
        None => to_chars(event_type),
    };
    let kind = if crate::text::contains_seq(&json_type, &to_chars("function_call"))
        || crate::text::contains_seq(&json_type, &to_chars("tool_call")) {
        owned("tool")
    } else {
        owned("thought")
    };
    if let Some(d) = nonempty_field(v, "delta") {
        return Some((kind, d));
    }
    if let Some(c) = chat_content_exec(v) {
        return Some((kind, c));
    }
    if let Some(t) = nonempty_field(v, "text") {
        return Some((kind, t));
    }
    if let Some(c) = nonempty_field(v, "content") {
        return Some((kind, c));
    }
    None
}

/// Extracts (kind, delta text) from the payload of an SSE `data:` line.
pub fn parse_sse_data(event_type: &str, data: &str) -> (r: Option<(String, String)>)
    ensures
        pair_view(r) == sse_data(event_type@, data@),
{
    let d = trim_chars(&to_chars(data));
    if d.len() == 0 || str_is(&d, "[DONE]") {
        return None;
    }
    let text = from_chars(&d);
    match crate::json::parse_json(text.as_str()) {
        Some(v) => classify_sse(event_type, &v),
        None => None,
    }
}

} // verus!

verus! {

// ─── The event stream ───────────────────────────────────────────────────────

/// Index of the first byte `b` in `s`, or `s.len()` when there is none.
pub open spec fn first_byte(s: Seq<u8>, b: u8) -> nat
    decreases s.len(),
{
    if s.len() == 0 {
        0
    } else if s[0] == b {
        0
    } else {
        1 + first_byte(s.drop_first(), b)
    }
}

proof fn lemma_first_byte_unique(s: Seq<u8>, b: u8, k: int)
    requires
        0 <= k <= s.len(),
        forall|j: int| 0 <= j < k ==> s[j] != b,
        k < s.len() ==> s[k] == b,
    ensures
        first_byte(s, b) == k,
    decreases s.len(),
{
    if k > 0 {
        assert forall|j: int| 0 <= j < k - 1 implies s.drop_first()[j] != b by {
            assert(s.drop_first()[j] == s[j + 1]);
        }
        if k < s.len() {
            assert(s.drop_first()[k - 1] == s[k]);
        }
        lemma_first_byte_unique(s.drop_first(), b, k - 1);
    }
}

/// One line of the stream: an empty line ends an event (its type is
/// forgotten), `event:` sets the type, `data:` carries a payload; other
/// lines (`id:`, `retry:`) are ignored.  Gives the event type after the line
/// and the message of the line, if any.
pub open spec fn sse_line(ev: Seq<char>, line: Seq<char>) -> (Seq<char>, Option<(Seq<char>, Seq<char>)>) {
    if line.len() == 0 {
        (seq![], None)
    } else if has_prefix(line, "event:"@) {
        (trim(line.skip("event:"@.len() as int)), None)
    } else if has_prefix(line, "data:"@) {
        (ev, sse_data(ev, line.skip("data:"@.len() as int)))
    } else {
        (ev, None)
    }
}

/// Reads the complete lines off the front of a buffer: the bytes left (an
/// unfinished line), the event type after them, and their messages in order.
pub open spec fn drain_lines(buf: Seq<u8>, ev: Seq<char>) -> (Seq<u8>, Seq<char>, Seq<(Seq<char>, Seq<char>)>)
    decreases buf.len(),
{
    let k = first_byte(buf, 10u8);
    if k < buf.len() {
        let line = trim(text_of(buf.take((k + 1) as int)));
        let (ev2, m) = sse_line(ev, line);
        let (rest, ev3, ms) = drain_lines(buf.skip((k + 1) as int), ev2);
        (
            rest,
            ev3,
            match m {
                Some(x) => seq![x] + ms,
                None => ms,
            },
        )
    } else {
        (buf, ev, seq![])
    }
}

proof fn lemma_first_byte(s: Seq<u8>, b: u8)
    ensures
        first_byte(s, b) <= s.len(),
        forall|j: int| 0 <= j < first_byte(s, b) ==> s[j] != b,
        first_byte(s, b) < s.len() ==> s[first_byte(s, b) as int] == b,
    decreases s.len(),
{
    if s.len() > 0 && s[0] != b {
        lemma_first_byte(s.drop_first(), b);
        assert forall|j: int| 0 <= j < first_byte(s, b) implies s[j] != b by {
            if j > 0 {
                assert(s[j] == s.drop_first()[j - 1]);
            }
        }
        if first_byte(s, b) < s.len() {
            assert(s[first_byte(s, b) as int] == s.drop_first()[first_byte(s.drop_first(), b) as int]);
        }
    }
}

/// Draining `s + t` drains `s` first, then what it left with `t`.
proof fn lemma_drain_append(s: Seq<u8>, t: Seq<u8>, ev: Seq<char>)
    ensures
        ({
            let (r1, e1, m1) = drain_lines(s, ev);
            let (r2, e2, m2) = drain_lines(r1 + t, e1);
            drain_lines(s + t, ev) == (r2, e2, m1 + m2)
        }),
    decreases s.len(),
{
    let k = first_byte(s, 10u8);
    lemma_first_byte(s, 10u8);
    if k < s.len() {
        assert forall|j: int| 0 <= j < k implies (s + t)[j] != 10u8 by {
            assert((s + t)[j] == s[j]);
        }
        assert((s + t)[k as int] == s[k as int]);
        lemma_first_byte_unique(s + t, 10u8, k as int);
        assert((s + t).take((k + 1) as int) =~= s.take((k + 1) as int));
        assert((s + t).skip((k + 1) as int) =~= s.skip((k + 1) as int) + t);
        let line = trim(text_of(s.take((k + 1) as int)));
        let (ev2, m) = sse_line(ev, line);
        lemma_drain_append(s.skip((k + 1) as int), t, ev2);
        let (r1, e1, m1) = drain_lines(s.skip((k + 1) as int), ev2);
        let (r2, e2, m2) = drain_lines(r1 + t, e1);
        match m {
            Some(x) => {
                assert(seq![x] + (m1 + m2) =~= (seq![x] + m1) + m2);
            },
            None => {},
        }
    } else {
        assert(Seq::<(Seq<char>, Seq<char>)>::empty() + drain_lines(s + t, ev).2 =~= drain_lines(
            s + t,
            ev,
        ).2);
    }
}

/// How the response is cut into chunks does not matter: feeding `a` and
/// then `b` leaves the decoder as feeding `a + b` at once, and gives the
/// same messages in the same order.
pub proof fn law_chunking_does_not_matter(buf: Seq<u8>, ev: Seq<char>, a: Seq<u8>, b: Seq<u8>)
    ensures
        ({
            let (r1, e1, m1) = drain_lines(buf + a, ev);
            let (r2, e2, m2) = drain_lines(r1 + b, e1);
            drain_lines(buf + (a + b), ev) == (r2, e2, m1 + m2)
        }),
{
    lemma_drain_append(buf + a, b, ev);
    assert(buf + (a + b) =~= (buf + a) + b);
}

pub open spec fn pair_views(v: Seq<(String, String)>) -> Seq<(Seq<char>, Seq<char>)> {
    v.map_values(|p: (String, String)| (p.0@, p.1@))
}

/// The reader of a response stream: bytes of an unfinished line, and the type
/// of the event being read.
pub struct SseDecoder {
    pub buf: Vec<u8>,
    pub event_type: String,
}

fn line_message(ev: &String, line: &Vec<char>) -> (r: (String, Option<(String, String)>))
    ensures
        (r.0@, pair_view(r.1)) == sse_line(ev@, line@),
{
    if line.len() == 0 {
        return (String::new(), None);
    }
    match strip_prefix_exec(line, "event:") {
        Some(rest) => (from_chars(&trim_chars(&rest)), None),
        None => match strip_prefix_exec(line, "data:") {
            Some(rest) => {
                let d = from_chars(&rest);
                (ev.clone(), parse_sse_data(ev.as_str(), d.as_str()))
            },
            None => (ev.clone(), None),
        },
    }
}

impl SseDecoder {
    pub fn new() -> (r: Self)
        ensures
            r.buf@.len() == 0,
            r.event_type@.len() == 0,
    {
        SseDecoder { buf: Vec::new(), event_type: String::new() }
    }

    /// Takes in a chunk of the response; gives the messages of the lines it
    /// completes.
    pub fn feed(&mut self, chunk: &[u8]) -> (r: Vec<(String, String)>)
        ensures
            ({
                let (rest, ev, ms) = drain_lines(old(self).buf@ + chunk@, old(self).event_type@);
                &&& final(self).buf@ == rest
                &&& final(self).event_type@ == ev
                &&& pair_views(r@) == ms
            }),
    {
        let mut i: usize = 0;
        while i < chunk.len()
            invariant
                i <= chunk@.len(),
                self.buf@ == old(self).buf@ + chunk@.take(i as int),
                self.event_type == old(self).event_type,
            decreases chunk@.len() - i,
        {
            self.buf.push(chunk[i]);
            i = i + 1;
            assert(self.buf@ =~= old(self).buf@ + chunk@.take(i as int));
        }
        assert(chunk@.take(chunk@.len() as int) =~= chunk@);
        let ghost total = drain_lines(self.buf@, self.event_type@);
        let mut out: Vec<(String, String)> = Vec::new();
        loop
            invariant
                total == drain_lines(old(self).buf@ + chunk@, old(self).event_type@),
                total == ({
                    let (rest, ev, ms) = drain_lines(self.buf@, self.event_type@);
                    (rest, ev, pair_views(out@) + ms)
                }),
            decreases self.buf@.len(),
        {
            let n = self.buf.len();
            let mut pos: usize = 0;
            while pos < n && self.buf[pos] != 10u8
                invariant
                    n == self.buf@.len(),
                    pos <= n,
                    forall|j: int| 0 <= j < pos ==> self.buf@[j] != 10u8,
                decreases n - pos,
            {
                pos = pos + 1;
            }
            proof {
                lemma_first_byte_unique(self.buf@, 10u8, pos as int);
            }
            if pos == n {
                proof {
                    assert(drain_lines(self.buf@, self.event_type@) == (
                        self.buf@,
                        self.event_type@,
                        Seq::<(Seq<char>, Seq<char>)>::empty(),
                    ));
                    assert(pair_views(out@) + Seq::<(Seq<char>, Seq<char>)>::empty() =~= pair_views(
                        out@,
                    ));
                    assert(total.0 == self.buf@);
                    assert(total.1 == self.event_type@);
                    assert(total.2 == pair_views(out@));
                }
                return out;
            }
            let ghost b0 = self.buf@;
            let raw: Vec<u8> = self.buf.clone();
            let line_bytes = slice_bytes(&raw, 0, pos + 1);
            let rest = slice_bytes(&raw, pos + 1, n);
            let text = from_utf8_lossy(line_bytes.as_slice());
            let line = trim_chars(&to_chars(text.as_str()));
            let (ev2, m) = line_message(&self.event_type, &line);
            proof {
                assert(line_bytes@ =~= b0.take(pos + 1));
                assert(rest@ =~= b0.skip(pos + 1));
            }
            self.buf = rest;
            self.event_type = ev2;
            match m {
                Some(x) => {
                    let ghost prev = out@;
                    out.push(x);
                    proof {
                        let (r2, e2, ms2) = drain_lines(self.buf@, self.event_type@);
                        assert(pair_views(out@) =~= pair_views(prev).push((x.0@, x.1@)));
                        assert(pair_views(out@) + ms2 =~= pair_views(prev) + (seq![(x.0@, x.1@)]
                            + ms2));
                    }
                },
                None => {},
            }
        }
    }

    /// The message of a last line left without a line ending, when it is a
    /// `data:` line.
    pub fn finish(&self) -> (r: Option<(String, String)>)
        ensures
            ({
                let line = trim(text_of(self.buf@));
                pair_view(r) == if self.buf@.len() > 0 && has_prefix(line, "data:"@) {
                    sse_data(self.event_type@, line.skip("data:"@.len() as int))
                } else {
                    None
                }
            }),
    {
        if self.buf.len() == 0 {
            return None;
        }
        let text = from_utf8_lossy(self.buf.as_slice());
        let line = trim_chars(&to_chars(text.as_str()));
        match strip_prefix_exec(&line, "data:") {
            Some(rest) => {
                let d = from_chars(&rest);
                parse_sse_data(self.event_type.as_str(), d.as_str())
            },
            None => None,
        }
    }
}

/// The bytes of `s` in `[a, b)`.
pub fn slice_bytes(s: &Vec<u8>, a: usize, b: usize) -> (r: Vec<u8>)
    requires
        a <= b <= s@.len(),
    ensures
        r@ == s@.subrange(a as int, b as int),
{
    let mut r: Vec<u8> = Vec::new();
    let mut i = a;
    while i < b
        invariant
            a <= i <= b <= s@.len(),
            r@ == s@.subrange(a as int, i as int),
        decreases b - i,
    {
        r.push(s[i]);
        i = i + 1;
    }
    r
}

/// The message of a whole (not streamed) response: what it says as one
/// event's payload, else its trimmed text as a thought when that is not empty.
pub open spec fn plain_message(text: Seq<char>) -> Option<(Seq<char>, Seq<char>)> {
    match sse_data(seq![], text) {
        Some(m) => Some(m),
        None => if trim(text).len() > 0 {
            Some(("thought"@, trim(text)))
        } else {
            None
        },
    }
}

pub fn plain_response_message(text: &str) -> (r: Option<(String, String)>)
    ensures
        pair_view(r) == plain_message(text@),
{
    let empty = String::new();
    match parse_sse_data(empty.as_str(), text) {
        Some(m) => Some(m),
        None => {
            let t = trim_chars(&to_chars(text));
            if t.len() > 0 {
                Some((owned("thought"), from_chars(&t)))
            } else {
                None
            }
        },
    }
}

} // verus!

verus! {

// ─── Requests ───────────────────────────────────────────────────────────────

/// A request to the responses API, resolved from its parameters.
pub struct V1Request {
    pub url: String,
    pub token: String,
    pub session_key: String,
    pub model: String,
    /// `{"input": …, "model": …, "stream": …}`.
    pub body: JsonValue,
}

/// The base URL, the default one when none is given.
pub open spec fn base_of(base: Option<Seq<char>>) -> Seq<char> {
    match base {
        Some(b) => b,
        None => default_api_base(),
    }
}

/// The first given value that is not blank, trimmed.
pub open spec fn first_filled(a: Option<Seq<char>>, b: Option<Seq<char>>) -> Option<Seq<char>> {
    match a {
        Some(x) if trim(x).len() > 0 => Some(trim(x)),
        _ => match b {
            Some(y) if trim(y).len() > 0 => Some(trim(y)),
            _ => None,
        },
    }
}

pub open spec fn missing_token_error() -> Seq<char> {
    "缺少 token：请传入 token 或设置环境变量 OPENCLAW_BEARER_TOKEN"@
}

fn filled(a: &Option<String>) -> (r: Option<Vec<char>>)
    ensures
        match (r, crate::text::opt_view(*a)) {
            (Some(t), Some(x)) => trim(x).len() > 0 && t@ == trim(x),
            (None, Some(x)) => trim(x).len() == 0,
            (None, None) => true,
            _ => false,
        },
{
    match a {
        Some(x) => {
            let t = trim_chars(&to_chars(x.as_str()));
            if t.len() > 0 {
                Some(t)
            } else {
                None
            }
        },
        None => None,
    }
}

fn base_chars(base: &Option<String>) -> (r: Vec<char>)
    ensures
        r@ == base_of(crate::text::opt_view(*base)),
{
    match base {
        Some(b) => to_chars(b.as_str()),
        None => to_chars("http://127.0.0.1:18789"),
    }
}

/// The URL that tells whether the gateway is up: the base without trailing
/// slashes, then `/`.
pub fn alive_url(base: &Option<String>) -> (r: String)
    ensures
        r@ == strip_trail(base_of(crate::text::opt_view(*base)), '/') + "/"@,
{
    from_chars(&concat(&strip_trail_exec(&base_chars(base), '/'), &to_chars("/")))
}

/// Resolves a request from its parameters and the environment's
/// `OPENCLAW_BEARER_TOKEN`, `OPENCLAW_SESSION_KEY` and `OPENCLAW_MODEL`.
pub fn resolve_v1_request(
    params: &OpenclawV1Params,
    env_token: &Option<String>,
    env_session: &Option<String>,
    env_model: &Option<String>,
) -> (r: Result<V1Request, String>)
    ensures
        match first_filled(
            crate::text::opt_view(params.token),
            crate::text::opt_view(*env_token),
        ) {
            None => r matches Err(e) && e@ == missing_token_error(),
            Some(tok) => r matches Ok(q) && {
                let model = match params.model {
                    Some(m) => m@,
                    None => match *env_model {
                        Some(m) => m@,
                        None => "minimax-cn/MiniMax-M2.5"@,
                    },
                };
                &&& q.url@ == strip_trail(base_of(crate::text::opt_view(params.base_url)), '/')
                    + "/v1/responses"@
                &&& q.token@ == tok
                &&& q.session_key@ == match first_filled(
                    crate::text::opt_view(params.session_key),
                    crate::text::opt_view(*env_session),
                ) {
                    Some(s) => s,
                    None => "agent:main:main2"@,
                }
                &&& q.model@ == model
                &&& jview(q.body) == JView::Object(
                    seq![
                        ("input"@, JView::Str(params.input@)),
                        ("model"@, JView::Str(model)),
                        ("stream"@, JView::Bool(params.stream)),
                    ],
                )
            },
        },
{
    let url = from_chars(
        &concat(&strip_trail_exec(&base_chars(&params.base_url), '/'), &to_chars("/v1/responses")),
    );
    let token = match filled(&params.token) {
        Some(t) => t,
        None => match filled(env_token) {
            Some(t) => t,
            None => {
                return Err(owned("缺少 token：请传入 token 或设置环境变量 OPENCLAW_BEARER_TOKEN"));
            },
        },
    };
    let session = match filled(&params.session_key) {
        Some(s) => s,
        None => match filled(env_session) {
            Some(s) => s,
            None => to_chars("agent:main:main2"),
        },
    };
    let model: String = match &params.model {
        Some(m) => m.clone(),
        None => match env_model {
            Some(m) => m.clone(),
            None => owned("minimax-cn/MiniMax-M2.5"),
        },
    };
    let mut body: Vec<(String, JsonValue)> = Vec::new();
    body.push((owned("input"), JsonValue::Str(params.input.clone())));
    body.push((owned("model"), JsonValue::Str(model.clone())));
    body.push((owned("stream"), JsonValue::Bool(params.stream)));
    proof {
        lemma_jview(JsonValue::Object(body));
        assert(crate::json::ents(body@) =~= seq![
            ("input"@, JView::Str(params.input@)),
            ("model"@, JView::Str(model@)),
            ("stream"@, JView::Bool(params.stream)),
        ]);
    }
    Ok(
        V1Request {
            url,
            token: from_chars(&token),
            session_key: from_chars(&session),
            model,
            body: JsonValue::Object(body),
        },
    )
}

/// The `Authorization` header of a request: `Bearer <token>`.
pub fn bearer(token: &str) -> (r: String)
    ensures
        r@ == "Bearer "@ + token@,
{
    from_chars(&concat(&to_chars("Bearer "), &to_chars(token)))
}

} // verus!
