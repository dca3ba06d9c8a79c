//! The gateway section of `~/.openclaw/openclaw.json`: whether it lets this
//! app in, and the merge that adds what it lacks without touching anything else.

use vstd::prelude::*;
use crate::json::{
    arr_ok, arr_or_empty, entries_of, field, jget, jview, key_index, lemma_jview,
    lemma_key_index, lemma_take_put, lemma_upsert_get, lemma_upsert_other, lemma_upsert_same,
    obj_ok, obj_or_empty, parse_json, put_key, at_key, take_key, to_pretty, upsert, vals, as_bool,
    get_field, json_parse, json_pretty, JView, JsonValue,
};
use crate::text::owned;

verus! {

/// The origins the gateway's control UI must allow.
pub open spec fn origin_local() -> Seq<char> {
    "http://localhost:*"@
}

pub open spec fn origin_loopback() -> Seq<char> {
    "http://127.0.0.1:*"@
}

// ─── Checking ───────────────────────────────────────────────────────────────

/// The array holds the string `s`.
pub open spec fn holds_str(a: Seq<JView>, s: Seq<char>) -> bool {
    a.contains(JView::Str(s))
}

/// The flag is present and `true`.
pub open spec fn is_true(x: Option<JView>) -> bool {
    x == Some(JView::Bool(true))
}

/// The gateway section allows both local origins, allows insecure auth, and
/// enables the chat-completions and responses endpoints.
pub open spec fn config_ok(cfg: JView) -> bool {
    let g = field(cfg, "gateway"@);
    let cu = at_key(g, "controlUi"@);
    let eps = at_key(at_key(g, "http"@), "endpoints"@);
    &&& g is Some
    &&& (at_key(cu, "allowedOrigins"@) matches Some(JView::Array(a)) && holds_str(a, origin_local())
        && holds_str(a, origin_loopback()))
    &&& is_true(at_key(cu, "allowInsecureAuth"@))
    &&& is_true(at_key(at_key(eps, "chatCompletions"@), "enabled"@))
    &&& is_true(at_key(at_key(eps, "responses"@), "enabled"@))
}

fn flag_true(v: Option<&JsonValue>) -> (r: bool)
    ensures
        r == is_true(match v {
            Some(x) => Some(jview(*x)),
            None => None,
        }),
{
    match v {
        Some(x) => as_bool(x) == Some(true),
        None => false,
    }
}

fn step<'a>(v: Option<&'a JsonValue>, k: &str) -> (r: Option<&'a JsonValue>)
    ensures
        match r {
            Some(x) => at_key(
                match v {
                    Some(y) => Some(jview(*y)),
                    None => None,
                },
                k@,
            ) == Some(jview(*x)),
            None => at_key(
                match v {
                    Some(y) => Some(jview(*y)),
                    None => None,
                },
                k@,
            ) is None,
        },
{
    match v {
        Some(x) => get_field(x, k),
        None => None,
    }
}

fn array_has_str(a: &Vec<JsonValue>, s: &str) -> (r: bool)
    ensures
        r == holds_str(vals(a@), s@),
{
    let sc = crate::text::to_chars(s);
    let mut i: usize = 0;
    while i < a.len()
        invariant
            i <= a@.len(),
            sc@ == s@,
            forall|j: int| 0 <= j < i ==> vals(a@)[j] != JView::Str(s@),
        decreases a@.len() - i,
    {
        match &a[i] {
            JsonValue::Str(t) => {
                if crate::text::same_chars(&crate::text::to_chars(t.as_str()), &sc) {
                    assert(vals(a@)[i as int] == JView::Str(s@));
                    return true;
                }
            },
            _ => {},
        }
        i = i + 1;
    }
    false
}

/// Whether the gateway configuration lets this app in.
pub fn is_config_ok(cfg: &JsonValue) -> (r: bool)
    ensures
        r == config_ok(jview(*cfg)),
{
    let g = get_field(cfg, "gateway");
    if g.is_none() {
        return false;
    }
    let cu = step(g, "controlUi");
    let origins_ok = match step(cu, "allowedOrigins") {
        Some(JsonValue::Array(a)) => {
            proof {
                lemma_jview(JsonValue::Array(*a));
            }
            array_has_str(a, "http://localhost:*") && array_has_str(a, "http://127.0.0.1:*")
        },
        Some(x) => {
            proof {
                lemma_jview(*x);
            }
            false
        },
        None => false,
    };
    let insecure_ok = flag_true(step(cu, "allowInsecureAuth"));
    let eps = step(step(g, "http"), "endpoints");
    let chat_ok = flag_true(step(step(eps, "chatCompletions"), "enabled"));
    let responses_ok = flag_true(step(step(eps, "responses"), "enabled"));
    origins_ok && insecure_ok && chat_ok && responses_ok
}

// ─── Merging ────────────────────────────────────────────────────────────────

/// The value that is there, else `d`.
pub open spec fn keep_or(x: Option<JView>, d: JView) -> JView {
    match x {
        Some(v) => v,
        None => d,
    }
}

/// `s` appended unless the array already holds it.
pub open spec fn add_origin(a: Seq<JView>, s: Seq<char>) -> Seq<JView> {
    if holds_str(a, s) {
        a
    } else {
        a.push(JView::Str(s))
    }
}

pub open spec fn origins_fix(x: Option<JView>) -> JView {
    JView::Array(add_origin(add_origin(arr_or_empty(x), origin_local()), origin_loopback()))
}

pub open spec fn flag_fix(x: Option<JView>) -> JView {
    keep_or(x, JView::Bool(true))
}

pub open spec fn enable_fix(x: Option<JView>) -> JView {
    JView::Object(upsert(obj_or_empty(x), "enabled"@, |v: Option<JView>| flag_fix(v)))
}

pub open spec fn endpoints_fix(x: Option<JView>) -> JView {
    JView::Object(
        upsert(
            upsert(obj_or_empty(x), "chatCompletions"@, |v: Option<JView>| enable_fix(v)),
            "responses"@,
            |v: Option<JView>| enable_fix(v),
        ),
    )
}

pub open spec fn http_fix(x: Option<JView>) -> JView {
    JView::Object(upsert(obj_or_empty(x), "endpoints"@, |v: Option<JView>| endpoints_fix(v)))
}

pub open spec fn control_fix(x: Option<JView>) -> JView {
    JView::Object(
        upsert(
            upsert(obj_or_empty(x), "allowedOrigins"@, |v: Option<JView>| origins_fix(v)),
            "allowInsecureAuth"@,
            |v: Option<JView>| flag_fix(v),
        ),
    )
}

pub open spec fn gateway_fix(x: Option<JView>) -> JView {
    JView::Object(
        upsert(
            upsert(obj_or_empty(x), "controlUi"@, |v: Option<JView>| control_fix(v)),
            "http"@,
            |v: Option<JView>| http_fix(v),
        ),
    )
}

/// The configuration with what the gateway needs merged in: missing sections
/// are added as empty objects, missing flags as `true`, missing origins are
/// appended; everything already there stays.
pub open spec fn applied(cfg: JView) -> JView {
    JView::Object(upsert(entries_of(cfg), "gateway"@, |v: Option<JView>| gateway_fix(v)))
}

/// The sections the merge descends into are objects (or absent) and the
/// origins are an array (or absent); the merge unwraps them as such.
pub open spec fn fixable(cfg: JView) -> bool {
    let g = field(cfg, "gateway"@);
    let cu = at_key(g, "controlUi"@);
    let h = at_key(g, "http"@);
    let eps = at_key(h, "endpoints"@);
    &&& cfg matches JView::Object(_)
    &&& obj_ok(g)
    &&& obj_ok(cu)
    &&& arr_ok(at_key(cu, "allowedOrigins"@))
    &&& obj_ok(h)
    &&& obj_ok(eps)
    &&& obj_ok(at_key(eps, "chatCompletions"@))
    &&& obj_ok(at_key(eps, "responses"@))
}

fn opt_jview(x: &Option<JsonValue>) -> (r: Ghost<Option<JView>>)
    ensures
        r@ == match x {
            Some(v) => Some(jview(*v)),
            None => None::<JView>,
        },
{
    Ghost(
        match x {
            Some(v) => Some(jview(*v)),
            None => None,
        },
    )
}

/// The entries of an optional object, none when absent.
fn entries_or_empty(x: Option<JsonValue>) -> (r: Vec<(String, JsonValue)>)
    requires
        obj_ok(
            match x {
                Some(v) => Some(jview(v)),
                None => None,
            },
        ),
    ensures
        crate::json::ents(r@) == obj_or_empty(
            match x {
                Some(v) => Some(jview(v)),
                None => None,
            },
        ),
        forall|k: Seq<char>|
            #![trigger jget(crate::json::ents(r@), k)]
            at_key(oview(x), k) == jget(crate::json::ents(r@), k),
{
    match x {
        Some(JsonValue::Object(o)) => {
            proof {
                lemma_jview(JsonValue::Object(o));
            }
            o
        },
        Some(v) => {
            proof {
                lemma_jview(v);
            }
            Vec::new()
        },
        None => {
            let r: Vec<(String, JsonValue)> = Vec::new();
            assert(crate::json::ents(r@) =~= Seq::<(Seq<char>, JView)>::empty());
            r
        },
    }
}

pub open spec fn oview(x: Option<JsonValue>) -> Option<JView> {
    match x {
        Some(v) => Some(jview(v)),
        None => None,
    }
}

fn fix_flag(x: Option<JsonValue>) -> (r: JsonValue)
    ensures
        jview(r) == flag_fix(oview(x)),
{
    match x {
        Some(v) => v,
        None => JsonValue::Bool(true),
    }
}

fn fix_enabled(x: Option<JsonValue>) -> (r: JsonValue)
    requires
        obj_ok(oview(x)),
    ensures
        jview(r) == enable_fix(oview(x)),
{
    let mut o = entries_or_empty(x);
    let ghost o0 = o@;
    assert(at_key(oview(x), "enabled"@) == jget(crate::json::ents(o0), "enabled"@));
    let (i, cur) = take_key(&mut o, "enabled");
    let ghost mid = o@;
    let nv = fix_flag(cur);
    put_key(&mut o, i, "enabled", nv);
    proof {
        lemma_take_put(o0, "enabled"@, i as int, mid, crate::json::ents(o@), jview(nv), |v: Option<JView>| flag_fix(v));
        lemma_jview(JsonValue::Object(o));
    }
    JsonValue::Object(o)
}

} // verus!

verus! {

pub open spec fn endpoints_ok(x: Option<JView>) -> bool {
    obj_ok(x) && obj_ok(at_key(x, "chatCompletions"@)) && obj_ok(at_key(x, "responses"@))
}

pub open spec fn http_ok(x: Option<JView>) -> bool {
    obj_ok(x) && endpoints_ok(at_key(x, "endpoints"@))
}

pub open spec fn control_ok(x: Option<JView>) -> bool {
    obj_ok(x) && arr_ok(at_key(x, "allowedOrigins"@))
}

pub open spec fn gateway_ok(x: Option<JView>) -> bool {
    obj_ok(x) && control_ok(at_key(x, "controlUi"@)) && http_ok(at_key(x, "http"@))
}

fn fix_endpoints(x: Option<JsonValue>) -> (r: JsonValue)
    requires
        endpoints_ok(oview(x)),
    ensures
        jview(r) == endpoints_fix(oview(x)),
{
    let ghost xv = oview(x);
    let mut o = entries_or_empty(x);
    let ghost o0 = o@;
    assert(at_key(oview(x), "chatCompletions"@) == jget(crate::json::ents(o0), "chatCompletions"@));
    let (i, cur) = take_key(&mut o, "chatCompletions");
    let ghost mid = o@;
    let nv = fix_enabled(cur);
    put_key(&mut o, i, "chatCompletions", nv);
    let ghost f1 = |v: Option<JView>| enable_fix(v);
    proof {
        lemma_take_put(o0, "chatCompletions"@, i as int, mid, crate::json::ents(o@), jview(nv), f1);
        reveal_strlit("chatCompletions");
        reveal_strlit("responses");
        assert("chatCompletions"@.len() != "responses"@.len());
        lemma_upsert_other(crate::json::ents(o0), "chatCompletions"@, f1, "responses"@);
    }
    let ghost o1 = o@;
    assert(at_key(oview(x), "responses"@) == jget(crate::json::ents(o0), "responses"@));
    let (j, cur2) = take_key(&mut o, "responses");
    let ghost mid2 = o@;
    let nv2 = fix_enabled(cur2);
    put_key(&mut o, j, "responses", nv2);
    proof {
        lemma_take_put(o1, "responses"@, j as int, mid2, crate::json::ents(o@), jview(nv2), |v: Option<JView>| enable_fix(v));
        lemma_jview(JsonValue::Object(o));
    }
    JsonValue::Object(o)
}

fn fix_http(x: Option<JsonValue>) -> (r: JsonValue)
    requires
        http_ok(oview(x)),
    ensures
        jview(r) == http_fix(oview(x)),
{
    let mut o = entries_or_empty(x);
    let ghost o0 = o@;
    assert(at_key(oview(x), "endpoints"@) == jget(crate::json::ents(o0), "endpoints"@));
    let (i, cur) = take_key(&mut o, "endpoints");
    let ghost mid = o@;
    let nv = fix_endpoints(cur);
    put_key(&mut o, i, "endpoints", nv);
    proof {
        lemma_take_put(o0, "endpoints"@, i as int, mid, crate::json::ents(o@), jview(nv), |v: Option<JView>| endpoints_fix(v));
        lemma_jview(JsonValue::Object(o));
    }
    JsonValue::Object(o)
}

fn push_origin(a: &mut Vec<JsonValue>, s: &str)
    ensures
        vals(final(a)@) == add_origin(vals(old(a)@), s@),
{
    if !array_has_str(a, s) {
        let ghost prev = a@;
        a.push(JsonValue::Str(owned(s)));
        assert(vals(a@) =~= vals(prev).push(JView::Str(s@)));
    }
}

fn fix_origins(x: Option<JsonValue>) -> (r: JsonValue)
    requires
        arr_ok(oview(x)),
    ensures
        jview(r) == origins_fix(oview(x)),
{
    let mut a: Vec<JsonValue> = match x {
        Some(JsonValue::Array(a)) => {
            proof {
                lemma_jview(JsonValue::Array(a));
            }
            a
        },
        Some(v) => {
            proof {
                lemma_jview(v);
            }
            Vec::new()
        },
        None => {
            let a: Vec<JsonValue> = Vec::new();
            assert(vals(a@) =~= Seq::<JView>::empty());
            a
        },
    };
    push_origin(&mut a, "http://localhost:*");
    push_origin(&mut a, "http://127.0.0.1:*");
    proof {
        lemma_jview(JsonValue::Array(a));
    }
    JsonValue::Array(a)
}

fn fix_control(x: Option<JsonValue>) -> (r: JsonValue)
    requires
        control_ok(oview(x)),
    ensures
        jview(r) == control_fix(oview(x)),
{
    let mut o = entries_or_empty(x);
    let ghost o0 = o@;
    assert(at_key(oview(x), "allowedOrigins"@) == jget(crate::json::ents(o0), "allowedOrigins"@));
    let (i, cur) = take_key(&mut o, "allowedOrigins");
    let ghost mid = o@;
    let nv = fix_origins(cur);
    put_key(&mut o, i, "allowedOrigins", nv);
    let ghost f1 = |v: Option<JView>| origins_fix(v);
    proof {
        lemma_take_put(o0, "allowedOrigins"@, i as int, mid, crate::json::ents(o@), jview(nv), f1);
    }
    let ghost o1 = o@;
    assert(at_key(oview(x), "allowInsecureAuth"@) == jget(crate::json::ents(o0), "allowInsecureAuth"@));
    let (j, cur2) = take_key(&mut o, "allowInsecureAuth");
    let ghost mid2 = o@;
    let nv2 = fix_flag(cur2);
    put_key(&mut o, j, "allowInsecureAuth", nv2);
    proof {
        lemma_take_put(o1, "allowInsecureAuth"@, j as int, mid2, crate::json::ents(o@), jview(nv2), |v: Option<JView>| flag_fix(v));
        lemma_jview(JsonValue::Object(o));
    }
    JsonValue::Object(o)
}

fn fix_gateway(x: Option<JsonValue>) -> (r: JsonValue)
    requires
        gateway_ok(oview(x)),
    ensures
        jview(r) == gateway_fix(oview(x)),
{
    let mut o = entries_or_empty(x);
    let ghost o0 = o@;
    assert(at_key(oview(x), "controlUi"@) == jget(crate::json::ents(o0), "controlUi"@));
    let (i, cur) = take_key(&mut o, "controlUi");
    let ghost mid = o@;
    let nv = fix_control(cur);
    put_key(&mut o, i, "controlUi", nv);
    let ghost f1 = |v: Option<JView>| control_fix(v);
    proof {
        lemma_take_put(o0, "controlUi"@, i as int, mid, crate::json::ents(o@), jview(nv), f1);
        reveal_strlit("controlUi");
        reveal_strlit("http");
        assert("controlUi"@.len() != "http"@.len());
        lemma_upsert_other(crate::json::ents(o0), "controlUi"@, f1, "http"@);
    }
    let ghost o1 = o@;
    assert(at_key(oview(x), "http"@) == jget(crate::json::ents(o0), "http"@));
    let (j, cur2) = take_key(&mut o, "http");
    let ghost mid2 = o@;
    let nv2 = fix_http(cur2);
    put_key(&mut o, j, "http", nv2);
    proof {
        lemma_take_put(o1, "http"@, j as int, mid2, crate::json::ents(o@), jview(nv2), |v: Option<JView>| http_fix(v));
        lemma_jview(JsonValue::Object(o));
    }
    JsonValue::Object(o)
}

/// Merges what the gateway needs into the configuration, keeping every
/// field that is already there.
pub fn apply_gateway_config(cfg: &mut JsonValue)
    requires
        fixable(jview(*old(cfg))),
    ensures
        jview(*final(cfg)) == applied(jview(*old(cfg))),
{
    let mut taken = JsonValue::Null;
    std::mem::swap(&mut taken, cfg);
    proof {
        lemma_jview(taken);
    }
    let mut o = match taken {
        JsonValue::Object(o) => o,
        _ => Vec::new(),
    };
    let ghost o0 = o@;
    assert(field(jview(*old(cfg)), "gateway"@) == jget(crate::json::ents(o0), "gateway"@));
    let (i, cur) = take_key(&mut o, "gateway");
    let ghost mid = o@;
    let nv = fix_gateway(cur);
    put_key(&mut o, i, "gateway", nv);
    proof {
        lemma_take_put(o0, "gateway"@, i as int, mid, crate::json::ents(o@), jview(nv), |v: Option<JView>| gateway_fix(v));
        lemma_jview(JsonValue::Object(o));
    }
    *cfg = JsonValue::Object(o);
}

} // verus!

verus! {

// ─── What the merge guarantees ──────────────────────────────────────────────

pub open spec fn idem(f: spec_fn(Option<JView>) -> JView) -> bool {
    forall|y: Option<JView>| #[trigger] f(Some(f(y))) == f(y)
}

proof fn lemma_upsert_idem(o: Seq<(Seq<char>, JView)>, k: Seq<char>, f: spec_fn(Option<JView>) -> JView)
    requires
        idem(f),
    ensures
        upsert(upsert(o, k, f), k, f) == upsert(o, k, f),
{
    lemma_upsert_get(o, k, f);
    let y = jget(o, k);
    assert(f(Some(f(y))) == f(y));
    lemma_upsert_same(upsert(o, k, f), k, f);
}

proof fn lemma_upsert2_idem(
    o: Seq<(Seq<char>, JView)>,
    k1: Seq<char>,
    f1: spec_fn(Option<JView>) -> JView,
    k2: Seq<char>,
    f2: spec_fn(Option<JView>) -> JView,
)
    requires
        k1 != k2,
        idem(f1),
        idem(f2),
    ensures
        upsert(upsert(upsert(upsert(o, k1, f1), k2, f2), k1, f1), k2, f2) == upsert(
            upsert(o, k1, f1),
            k2,
            f2,
        ),
{
    let u1 = upsert(o, k1, f1);
    let u = upsert(u1, k2, f2);
    lemma_upsert_get(o, k1, f1);
    lemma_upsert_other(u1, k2, f2, k1);
    let y1 = jget(o, k1);
    assert(f1(Some(f1(y1))) == f1(y1));
    lemma_upsert_same(u, k1, f1);
    lemma_upsert_get(u1, k2, f2);
    let y2 = jget(u1, k2);
    assert(f2(Some(f2(y2))) == f2(y2));
    lemma_upsert_same(u, k2, f2);
}

proof fn lemma_flag_idem()
    ensures
        idem(|v: Option<JView>| flag_fix(v)),
{
}

proof fn lemma_push_keeps(a: Seq<JView>, x: JView, y: JView)
    requires
        a.contains(y),
    ensures
        a.push(x).contains(y),
{
    let i = choose|i: int| 0 <= i < a.len() && a[i] == y;
    assert(a.push(x)[i] == y);
}

proof fn lemma_add_origin(a: Seq<JView>, s: Seq<char>, t: Seq<char>)
    ensures
        holds_str(add_origin(a, s), s),
        holds_str(a, t) ==> holds_str(add_origin(a, s), t),
{
    if !holds_str(a, s) {
        assert(a.push(JView::Str(s))[a.len() as int] == JView::Str(s));
        if holds_str(a, t) {
            lemma_push_keeps(a, JView::Str(s), JView::Str(t));
        }
    }
}

proof fn lemma_origins(x: Option<JView>)
    ensures
        origins_fix(x) matches JView::Array(a) && holds_str(a, origin_local()) && holds_str(
            a,
            origin_loopback(),
        ),
        origins_fix(Some(origins_fix(x))) == origins_fix(x),
{
    let a0 = arr_or_empty(x);
    let a1 = add_origin(a0, origin_local());
    let a2 = add_origin(a1, origin_loopback());
    lemma_add_origin(a0, origin_local(), origin_loopback());
    lemma_add_origin(a1, origin_loopback(), origin_local());
    lemma_add_origin(a2, origin_local(), origin_loopback());
}

proof fn lemma_origins_idem()
    ensures
        idem(|v: Option<JView>| origins_fix(v)),
{
    assert forall|y: Option<JView>| origins_fix(Some(origins_fix(y))) == origins_fix(y) by {
        lemma_origins(y);
    }
}

proof fn lemma_enable_idem()
    ensures
        idem(|v: Option<JView>| enable_fix(v)),
{
    lemma_flag_idem();
    assert forall|y: Option<JView>| enable_fix(Some(enable_fix(y))) == enable_fix(y) by {
        lemma_upsert_idem(obj_or_empty(y), "enabled"@, |v: Option<JView>| flag_fix(v));
    }
}

proof fn lemma_distinct_keys()
    ensures
        "chatCompletions"@ != "responses"@,
        "allowedOrigins"@ != "allowInsecureAuth"@,
        "controlUi"@ != "http"@,
{
    reveal_strlit("chatCompletions");
    reveal_strlit("responses");
    reveal_strlit("allowedOrigins");
    reveal_strlit("allowInsecureAuth");
    reveal_strlit("controlUi");
    reveal_strlit("http");
    assert("chatCompletions"@.len() != "responses"@.len());
    assert("allowedOrigins"@.len() != "allowInsecureAuth"@.len());
    assert("controlUi"@.len() != "http"@.len());
}

proof fn lemma_endpoints_idem()
    ensures
        idem(|v: Option<JView>| endpoints_fix(v)),
{
    lemma_enable_idem();
    lemma_distinct_keys();
    assert forall|y: Option<JView>| endpoints_fix(Some(endpoints_fix(y))) == endpoints_fix(y) by {
        lemma_upsert2_idem(
            obj_or_empty(y),
            "chatCompletions"@,
            |v: Option<JView>| enable_fix(v),
            "responses"@,
            |v: Option<JView>| enable_fix(v),
        );
    }
}

proof fn lemma_http_idem()
    ensures
        idem(|v: Option<JView>| http_fix(v)),
{
    lemma_endpoints_idem();
    assert forall|y: Option<JView>| http_fix(Some(http_fix(y))) == http_fix(y) by {
        lemma_upsert_idem(obj_or_empty(y), "endpoints"@, |v: Option<JView>| endpoints_fix(v));
    }
}

proof fn lemma_control_idem()
    ensures
        idem(|v: Option<JView>| control_fix(v)),
{
    lemma_origins_idem();
    lemma_flag_idem();
    lemma_distinct_keys();
    assert forall|y: Option<JView>| control_fix(Some(control_fix(y))) == control_fix(y) by {
        lemma_upsert2_idem(
            obj_or_empty(y),
            "allowedOrigins"@,
            |v: Option<JView>| origins_fix(v),
            "allowInsecureAuth"@,
            |v: Option<JView>| flag_fix(v),
        );
    }
}

proof fn lemma_gateway_idem()
    ensures
        idem(|v: Option<JView>| gateway_fix(v)),
{
    lemma_control_idem();
    lemma_http_idem();
    lemma_distinct_keys();
    assert forall|y: Option<JView>| gateway_fix(Some(gateway_fix(y))) == gateway_fix(y) by {
        lemma_upsert2_idem(
            obj_or_empty(y),
            "controlUi"@,
            |v: Option<JView>| control_fix(v),
            "http"@,
            |v: Option<JView>| http_fix(v),
        );
    }
}

/// Merging twice is merging once: a configuration the merge has fixed is
/// left as it is.
pub proof fn law_apply_idempotent(cfg: JView)
    requires
        fixable(cfg),
    ensures
        applied(applied(cfg)) == applied(cfg),
{
    lemma_gateway_idem();
    lemma_upsert_idem(entries_of(cfg), "gateway"@, |v: Option<JView>| gateway_fix(v));
}

/// The merge touches no top-level field but `gateway`.
pub proof fn law_apply_keeps_other_fields(cfg: JView, k: Seq<char>)
    requires
        fixable(cfg),
        k != "gateway"@,
    ensures
        field(applied(cfg), k) == field(cfg, k),
{
    lemma_upsert_other(entries_of(cfg), "gateway"@, |v: Option<JView>| gateway_fix(v), k);
}

/// Absent, or `true`.
pub open spec fn flag_ok(x: Option<JView>) -> bool {
    x is None || x == Some(JView::Bool(true))
}

/// The flags the gateway needs are absent or already `true`.
pub open spec fn flags_compatible(cfg: JView) -> bool {
    let g = field(cfg, "gateway"@);
    let eps = at_key(at_key(g, "http"@), "endpoints"@);
    &&& flag_ok(at_key(at_key(g, "controlUi"@), "allowInsecureAuth"@))
    &&& flag_ok(at_key(at_key(eps, "chatCompletions"@), "enabled"@))
    &&& flag_ok(at_key(at_key(eps, "responses"@), "enabled"@))
}

proof fn lemma_obj_get(y: Option<JView>, k: Seq<char>)
    ensures
        jget(obj_or_empty(y), k) == at_key(y, k),
{
    match y {
        Some(JView::Object(o)) => {},
        _ => {
            assert(key_index(obj_or_empty(y), k) is None);
        },
    }
}

/// Reading back a key that a one-key merge step wrote.
proof fn lemma_fix1_get(y: Option<JView>, k: Seq<char>, f: spec_fn(Option<JView>) -> JView)
    ensures
        at_key(Some(JView::Object(upsert(obj_or_empty(y), k, f))), k) == Some(f(at_key(y, k))),
{
    lemma_upsert_get(obj_or_empty(y), k, f);
    lemma_obj_get(y, k);
}

/// Reading back the keys that a two-key merge step wrote.
proof fn lemma_fix2_get(
    y: Option<JView>,
    k1: Seq<char>,
    f1: spec_fn(Option<JView>) -> JView,
    k2: Seq<char>,
    f2: spec_fn(Option<JView>) -> JView,
)
    requires
        k1 != k2,
    ensures
        at_key(Some(JView::Object(upsert(upsert(obj_or_empty(y), k1, f1), k2, f2))), k1) == Some(
            f1(at_key(y, k1)),
        ),
        at_key(Some(JView::Object(upsert(upsert(obj_or_empty(y), k1, f1), k2, f2))), k2) == Some(
            f2(at_key(y, k2)),
        ),
{
    let o = obj_or_empty(y);
    lemma_obj_get(y, k1);
    lemma_obj_get(y, k2);
    lemma_upsert_get(o, k1, f1);
    lemma_upsert_other(upsert(o, k1, f1), k2, f2, k1);
    lemma_upsert_other(o, k1, f1, k2);
    lemma_upsert_get(upsert(o, k1, f1), k2, f2);
}

/// After the merge the gateway lets this app in, exactly when the flags it
/// needs were absent or already `true` (a flag set to anything else is kept).
pub proof fn law_apply_makes_config_ok(cfg: JView)
    requires
        fixable(cfg),
    ensures
        config_ok(applied(cfg)) == flags_compatible(cfg),
{
    lemma_distinct_keys();
    let g = field(cfg, "gateway"@);
    lemma_upsert_get(entries_of(cfg), "gateway"@, |v: Option<JView>| gateway_fix(v));
    assert(field(applied(cfg), "gateway"@) == Some(gateway_fix(g)));
    lemma_fix2_get(g, "controlUi"@, |v: Option<JView>| control_fix(v), "http"@, |v: Option<JView>| http_fix(v));
    let c = at_key(g, "controlUi"@);
    lemma_fix2_get(
        c,
        "allowedOrigins"@,
        |v: Option<JView>| origins_fix(v),
        "allowInsecureAuth"@,
        |v: Option<JView>| flag_fix(v),
    );
    lemma_origins(at_key(c, "allowedOrigins"@));
    let h = at_key(g, "http"@);
    lemma_fix1_get(h, "endpoints"@, |v: Option<JView>| endpoints_fix(v));
    let e = at_key(h, "endpoints"@);
    lemma_fix2_get(
        e,
        "chatCompletions"@,
        |v: Option<JView>| enable_fix(v),
        "responses"@,
        |v: Option<JView>| enable_fix(v),
    );
    lemma_fix1_get(at_key(e, "chatCompletions"@), "enabled"@, |v: Option<JView>| flag_fix(v));
    lemma_fix1_get(at_key(e, "responses"@), "enabled"@, |v: Option<JView>| flag_fix(v));
}

/// After the merge the configuration can be merged again.
pub proof fn law_applied_is_fixable(cfg: JView)
    requires
        fixable(cfg),
    ensures
        fixable(applied(cfg)),
{
    lemma_distinct_keys();
    let g = field(cfg, "gateway"@);
    lemma_upsert_get(entries_of(cfg), "gateway"@, |v: Option<JView>| gateway_fix(v));
    lemma_fix2_get(g, "controlUi"@, |v: Option<JView>| control_fix(v), "http"@, |v: Option<JView>| http_fix(v));
    let c = at_key(g, "controlUi"@);
    lemma_fix2_get(
        c,
        "allowedOrigins"@,
        |v: Option<JView>| origins_fix(v),
        "allowInsecureAuth"@,
        |v: Option<JView>| flag_fix(v),
    );
    let h = at_key(g, "http"@);
    lemma_fix1_get(h, "endpoints"@, |v: Option<JView>| endpoints_fix(v));
    let e = at_key(h, "endpoints"@);
    lemma_fix2_get(
        e,
        "chatCompletions"@,
        |v: Option<JView>| enable_fix(v),
        "responses"@,
        |v: Option<JView>| enable_fix(v),
    );
}

} // verus!

verus! {

// ─── Checking and fixing the file ───────────────────────────────────────────

fn obj_or_absent(v: Option<&JsonValue>) -> (r: bool)
    ensures
        r == obj_ok(
            match v {
                Some(x) => Some(jview(*x)),
                None => None,
            },
        ),
{
    match v {
        Some(x) => {
            proof {
                lemma_jview(*x);
            }
            match x {
                JsonValue::Object(_) => true,
                _ => false,
            }
        },
        None => true,
    }
}

fn arr_or_absent(v: Option<&JsonValue>) -> (r: bool)
    ensures
        r == arr_ok(
            match v {
                Some(x) => Some(jview(*x)),
                None => None,
            },
        ),
{
    match v {
        Some(x) => {
            proof {
                lemma_jview(*x);
            }
            match x {
                JsonValue::Array(_) => true,
                _ => false,
            }
        },
        None => true,
    }
}

/// Whether the merge can descend into the configuration as it is.
pub fn can_apply_gateway_config(cfg: &JsonValue) -> (r: bool)
    ensures
        r == fixable(jview(*cfg)),
{
    proof {
        lemma_jview(*cfg);
    }
    let is_obj = match cfg {
        JsonValue::Object(_) => true,
        _ => false,
    };
    if !is_obj {
        return false;
    }
    let g = get_field(cfg, "gateway");
    let cu = step(g, "controlUi");
    let h = step(g, "http");
    let eps = step(h, "endpoints");
    obj_or_absent(g) && obj_or_absent(cu) && arr_or_absent(step(cu, "allowedOrigins"))
        && obj_or_absent(h) && obj_or_absent(eps) && obj_or_absent(step(eps, "chatCompletions"))
        && obj_or_absent(step(eps, "responses"))
}

/// What the check of the gateway configuration found and did.
pub struct GatewayConfigStatus {
    /// The configuration was right already.
    pub already_ok: bool,
    /// The configuration was fixed (and written).
    pub fixed: bool,
    /// The gateway must restart to see the change.
    pub needs_restart: bool,
    pub error: Option<String>,
}

/// The result of checking the configuration: the status, and the text to
/// write back to `openclaw.json` when it was fixed.
pub struct GatewayCheck {
    pub status: GatewayConfigStatus,
    pub write: Option<String>,
}

/// The configuration read from the file: what it parses to, an empty object
/// when it is absent or not JSON.
pub open spec fn read_config_spec(existing: Option<Seq<char>>) -> JView {
    match existing {
        Some(t) => match json_parse(t) {
            Ok(v) => v,
            Err(_) => JView::Object(seq![]),
        },
        None => JView::Object(seq![]),
    }
}

/// A value that is not an object replaced by an empty object.
pub open spec fn as_object(v: JView) -> JView {
    match v {
        JView::Object(_) => v,
        _ => JView::Object(seq![]),
    }
}

pub fn read_config(existing: Option<&str>) -> (r: JsonValue)
    ensures
        jview(r) == read_config_spec(
            match existing {
                Some(t) => Some(t@),
                None => None,
            },
        ),
{
    let empty = || -> (e: JsonValue)
        ensures
            jview(e) == JView::Object(seq![]),
        {
            let o: Vec<(String, JsonValue)> = Vec::new();
            proof {
                lemma_jview(JsonValue::Object(o));
                assert(crate::json::ents(o@) =~= Seq::<(Seq<char>, JView)>::empty());
            }
            JsonValue::Object(o)
        };
    match existing {
        Some(t) => match parse_json(t) {
            Some(v) => v,
            None => empty(),
        },
        None => empty(),
    }
}

/// Checks the gateway configuration held in `openclaw.json` (`None` when the
/// file does not exist) and fixes it when needed.  Nothing comes back when the
/// configuration needs fixing but holds a section of a kind the merge cannot
/// descend into.
pub fn check_and_fix_gateway_config(existing: Option<&str>) -> (r: Option<GatewayCheck>)
    ensures
        ({
            let cfg = read_config_spec(
                match existing {
                    Some(t) => Some(t@),
                    None => None,
                },
            );
            if config_ok(cfg) {
                r matches Some(c) && c.status == (GatewayConfigStatus {
                    already_ok: true,
                    fixed: false,
                    needs_restart: false,
                    error: None,
                }) && c.write is None
            } else if fixable(as_object(cfg)) {
                r matches Some(c) && c.status == (GatewayConfigStatus {
                    already_ok: false,
                    fixed: true,
                    needs_restart: true,
                    error: None,
                }) && (c.write matches Some(w) && w@ == json_pretty(applied(as_object(cfg))))
            } else {
                r is None
            }
        }),
{
    let mut cfg = read_config(existing);
    if is_config_ok(&cfg) {
        return Some(
            GatewayCheck {
                status: GatewayConfigStatus {
                    already_ok: true,
                    fixed: false,
                    needs_restart: false,
                    error: None,
                },
                write: None,
            },
        );
    }
    proof {
        lemma_jview(cfg);
    }
    let is_obj = match &cfg {
        JsonValue::Object(_) => true,
        _ => false,
    };
    if !is_obj {
        let o: Vec<(String, JsonValue)> = Vec::new();
        proof {
            lemma_jview(JsonValue::Object(o));
            assert(crate::json::ents(o@) =~= Seq::<(Seq<char>, JView)>::empty());
        }
        cfg = JsonValue::Object(o);
    }
    if !can_apply_gateway_config(&cfg) {
        return None;
    }
    apply_gateway_config(&mut cfg);
    let text = to_pretty(&cfg);
    Some(
        GatewayCheck {
            status: GatewayConfigStatus {
                already_ok: false,
                fixed: true,
                needs_restart: true,
                error: None,
            },
            write: Some(text),
        },
    )
}

/// The status reported when reading or writing the file failed.
pub fn failed_status(e: String) -> (r: GatewayConfigStatus)
    ensures
        r == (GatewayConfigStatus { already_ok: false, fixed: false, needs_restart: false, error: Some(e) }),
{
    GatewayConfigStatus { already_ok: false, fixed: false, needs_restart: false, error: Some(e) }
}

// ─── Running `openclaw gateway` ─────────────────────────────────────────────

/// The shell command for a gateway subcommand: `openclaw gateway`, followed by
/// the subcommand when there is one.
pub open spec fn gateway_command_spec(subcmd: Seq<char>) -> Seq<char> {
    if subcmd.len() == 0 {
        "openclaw gateway"@
    } else {
        "openclaw gateway "@ + subcmd
    }
}

pub fn gateway_command(subcmd: &str) -> (r: String)
    ensures
        r@ == gateway_command_spec(subcmd@),
{
    let s = crate::text::to_chars(subcmd);
    if s.len() == 0 {
        owned("openclaw gateway")
    } else {
        crate::text::from_chars(&crate::text::concat(&crate::text::to_chars("openclaw gateway "), &s))
    }
}

/// The message of a failed run: its standard error, else its standard output.
pub open spec fn failure_message(stderr: Seq<char>, stdout: Seq<char>) -> Seq<char> {
    if stderr.len() > 0 {
        stderr
    } else {
        stdout
    }
}

/// A failure that means the shell did not find `openclaw`, so the next shell
/// is worth a try.
pub open spec fn is_not_found(msg: Seq<char>) -> bool {
    crate::text::has_sub(msg, "command not found"@) || crate::text::has_sub(msg, "not found"@)
}

/// What to make of a run that failed: the message, and whether to try the
/// next shell.
pub fn judge_failure(stderr: &str, stdout: &str) -> (r: (String, bool))
    ensures
        r.0@ == failure_message(stderr@, stdout@),
        r.1 == is_not_found(failure_message(stderr@, stdout@)),
{
    let e = crate::text::to_chars(stderr);
    let msg = if e.len() > 0 {
        e
    } else {
        crate::text::to_chars(stdout)
    };
    let retry = crate::text::contains_seq(&msg, &crate::text::to_chars("command not found"))
        || crate::text::contains_seq(&msg, &crate::text::to_chars("not found"));
    (crate::text::from_chars(&msg), retry)
}

} // verus!

verus! {

// ─── Which shell runs `openclaw gateway` ────────────────────────────────────

/// Whether two paths are the same path, component by component
/// (`PathBuf`'s `==`).
pub uninterp spec fn path_eq(a: Seq<char>, b: Seq<char>) -> bool;

/// `std::path::PathBuf::from(a) == std::path::PathBuf::from(b)`.
#[verifier::external_body]
fn same_path(a: &str, b: &str) -> (r: bool)
    ensures
        r == path_eq(a@, b@),
{
    std::path::PathBuf::from(a) == std::path::PathBuf::from(b)
}

/// A shell to try, and whether to run it as a login shell.
pub struct ShellCandidate {
    pub path: String,
    pub login: bool,
}

pub open spec fn cand_views(v: Seq<ShellCandidate>) -> Seq<(Seq<char>, bool)> {
    v.map_values(|c: ShellCandidate| (c.path@, c.login))
}

/// `c` with the login shell `p` added, unless it is there already.
pub open spec fn add_shell(c: Seq<(Seq<char>, bool)>, p: Seq<char>, exists: bool) -> Seq<(Seq<char>, bool)> {
    if exists && !(exists|i: int| 0 <= i < c.len() && path_eq(#[trigger] c[i].0, p)) {
        c.push((p, true))
    } else {
        c
    }
}

/// The shells to try, in order: `$SHELL` when it exists, then zsh and bash
/// when they exist and are not that one, all as login shells; then `/bin/sh`
/// as a plain shell.
pub open spec fn shell_candidates_spec(shell: Option<Seq<char>>, shell_exists: bool, zsh_exists: bool, bash_exists: bool) -> Seq<(Seq<char>, bool)> {
    let c0 = match shell {
        Some(s) if shell_exists => seq![(s, true)],
        _ => seq![],
    };
    add_shell(add_shell(c0, "/bin/zsh"@, zsh_exists), "/bin/bash"@, bash_exists).push(("/bin/sh"@, false))
}

fn add_shell_exec(c: &mut Vec<ShellCandidate>, p: &str, exists: bool)
    ensures
        cand_views(final(c)@) == add_shell(cand_views(old(c)@), p@, exists),
{
    if !exists {
        return;
    }
    let ghost cv = cand_views(c@);
    let mut i: usize = 0;
    while i < c.len()
        invariant
            i <= c@.len(),
            cv == cand_views(c@),
            c@ == old(c)@,
            forall|j: int| 0 <= j < i ==> !path_eq(#[trigger] cv[j].0, p@),
        decreases c@.len() - i,
    {
        if same_path(c[i].path.as_str(), p) {
            assert(path_eq(cv[i as int].0, p@));
            return;
        }
        i = i + 1;
    }
    let ghost prev = c@;
    c.push(ShellCandidate { path: owned(p), login: true });
    assert(cand_views(c@) =~= cand_views(prev).push((p@, true)));
}

pub fn shell_candidates(shell: &Option<String>, shell_exists: bool, zsh_exists: bool, bash_exists: bool) -> (r: Vec<ShellCandidate>)
    ensures
        cand_views(r@) == shell_candidates_spec(crate::text::opt_view(*shell), shell_exists, zsh_exists, bash_exists),
{
    let mut c: Vec<ShellCandidate> = Vec::new();
    match shell {
        Some(s) => {
            if shell_exists {
                c.push(ShellCandidate { path: s.clone(), login: true });
            }
        },
        None => {},
    }
    assert(cand_views(c@) =~= match crate::text::opt_view(*shell) {
        Some(s) if shell_exists => seq![(s, true)],
        _ => Seq::<(Seq<char>, bool)>::empty(),
    });
    add_shell_exec(&mut c, "/bin/zsh", zsh_exists);
    add_shell_exec(&mut c, "/bin/bash", bash_exists);
    let ghost prev = c@;
    c.push(ShellCandidate { path: owned("/bin/sh"), login: false });
    assert(cand_views(c@) =~= cand_views(prev).push(("/bin/sh"@, false)));
    c
}

/// How a run of `openclaw gateway` in a shell went.
pub enum ShellOutcome {
    Succeeded,
    /// It failed: its standard error and standard output.
    Failed(String, String),
    /// The shell could not be started: the error.
    Unrunnable(String),
}

/// What to do after a run: stop with a result, or try the next shell with
/// this as the error so far.
pub enum GatewayStep {
    Stop(Result<(), String>),
    Next(String),
}

/// The error before any shell was tried.
pub open spec fn no_shell_error() -> Seq<char> {
    "未找到可用 shell"@
}

/// The error that stands when no shell could be tried at all; each
/// `GatewayStep::Next` replaces it.
pub fn no_shell_error_text() -> (r: String)
    ensures
        r@ == no_shell_error(),
{
    String::from_str("未找到可用 shell")
}

/// The step after a run in `shell`: success stops; a failure that means
/// `openclaw` was not found tries the next shell, any other failure stops
/// with its message; a shell that cannot start tries the next one.
pub fn gateway_step(shell: &str, outcome: ShellOutcome) -> (r: GatewayStep)
    ensures
        match outcome {
            ShellOutcome::Succeeded => r matches GatewayStep::Stop(Ok(())),
            ShellOutcome::Failed(e, o) => if is_not_found(failure_message(e@, o@)) {
                r matches GatewayStep::Next(m) && m@ == failure_message(e@, o@)
            } else {
                r matches GatewayStep::Stop(Err(m)) && m@ == failure_message(e@, o@)
            },
            ShellOutcome::Unrunnable(err) => r matches GatewayStep::Next(m) && m@ == "无法执行 "@ + shell@ + ": "@
                + err@,
        },
{
    match outcome {
        ShellOutcome::Succeeded => GatewayStep::Stop(Ok(())),
        ShellOutcome::Failed(e, o) => {
            let (m, retry) = judge_failure(e.as_str(), o.as_str());
            if retry {
                GatewayStep::Next(m)
            } else {
                GatewayStep::Stop(Err(m))
            }
        },
        ShellOutcome::Unrunnable(err) => {
            let a = crate::text::concat(&crate::text::to_chars("无法执行 "), &crate::text::to_chars(shell));
            let b = crate::text::concat(&crate::text::concat(&a, &crate::text::to_chars(": ")), &crate::text::to_chars(err.as_str()));
            GatewayStep::Next(crate::text::from_chars(&b))
        },
    }
}

/// The result of the one run of `openclaw gateway` on Windows (`cmd /C`).
pub fn windows_gateway_result(outcome: ShellOutcome) -> (r: Result<(), String>)
    ensures
        match outcome {
            ShellOutcome::Succeeded => r is Ok,
            ShellOutcome::Failed(e, o) => r matches Err(m) && m@ == failure_message(e@, o@),
            ShellOutcome::Unrunnable(err) => r matches Err(m) && m@ == "无法执行命令："@ + err@,
        },
{
    match outcome {
        ShellOutcome::Succeeded => Ok(()),
        ShellOutcome::Failed(e, o) => Err(judge_failure(e.as_str(), o.as_str()).0),
        ShellOutcome::Unrunnable(err) => Err(crate::text::from_chars(
            &crate::text::concat(&crate::text::to_chars("无法执行命令："), &crate::text::to_chars(err.as_str())),
        )),
    }
}

} // verus!

verus! {

/// Merging the allowed origins keeps those already there, in order, adds
/// each required origin only when it is missing (never a duplicate), and
/// leaves both required origins allowed.
pub proof fn law_origins_merge(a: Seq<JView>)
    ensures
        ({
            let b = add_origin(add_origin(a, origin_local()), origin_loopback());
            &&& b.take(a.len() as int) == a
            &&& b.len() == a.len() + (if holds_str(a, origin_local()) { 0int } else { 1int }) + (if holds_str(
                a,
                origin_loopback(),
            ) {
                0int
            } else {
                1int
            })
            &&& holds_str(b, origin_local())
            &&& holds_str(b, origin_loopback())
        }),
{
    reveal_strlit("http://localhost:*");
    reveal_strlit("http://127.0.0.1:*");
    let a1 = add_origin(a, origin_local());
    let b = add_origin(a1, origin_loopback());
    assert(origin_local() != origin_loopback()) by {
        assert(origin_local()[7] != origin_loopback()[7]);
    }
    if !holds_str(a, origin_local()) {
        assert(a1.last() == JView::Str(origin_local()));
    }
    assert(holds_str(a1, origin_local()));
    if holds_str(a1, origin_local()) && !holds_str(a1, origin_loopback()) {
        let i = choose|i: int| 0 <= i < a1.len() && a1[i] == JView::Str(origin_local());
        assert(b[i] == a1[i]);
    }
    assert(holds_str(b, origin_local()));
    if !holds_str(a1, origin_loopback()) {
        assert(b.last() == JView::Str(origin_loopback()));
    }
    if holds_str(a, origin_loopback()) {
        let i = choose|i: int| 0 <= i < a.len() && a[i] == JView::Str(origin_loopback());
        assert(a1[i] == a[i]);
    } else if holds_str(a1, origin_loopback()) {
        let i = choose|i: int| 0 <= i < a1.len() && a1[i] == JView::Str(origin_loopback());
        if i < a.len() {
            assert(a[i] == a1[i]);
        }
    }
    assert(b.take(a.len() as int) =~= a);
}

} // verus!
