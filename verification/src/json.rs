//! JSON documents: a value type of the library's own, its abstract view, and
//! the `serde_json` calls that parse and print it.

use vstd::prelude::*;
use crate::text::{from_chars, to_chars};

verus! {

#[verifier::external_type_specification]
#[verifier::external_body]
pub struct ExNumber(serde_json::Number);

/// A JSON value.  Numbers are kept as `serde_json` holds them; object entries
/// keep their order.
pub enum JsonValue {
    Null,
    Bool(bool),
    Number(serde_json::Number),
    Str(String),
    Array(Vec<JsonValue>),
    Object(Vec<(String, JsonValue)>),
}

/// The abstract content of a JSON value.
pub enum JView {
    Null,
    Bool(bool),
    Number(serde_json::Number),
    Str(Seq<char>),
    Array(Seq<JView>),
    Object(Seq<(Seq<char>, JView)>),
}

pub open spec fn jview(v: JsonValue) -> JView
    decreases v, 0nat,
{
    match v {
        JsonValue::Null => JView::Null,
        JsonValue::Bool(b) => JView::Bool(b),
        JsonValue::Number(n) => JView::Number(n),
        JsonValue::Str(s) => JView::Str(s@),
        JsonValue::Array(a) => JView::Array(jviews(a@, a@.len())),
        JsonValue::Object(o) => JView::Object(jentries(o@, o@.len())),
    }
}

/// The views of the first `n` values.
pub open spec fn jviews(a: Seq<JsonValue>, n: nat) -> Seq<JView>
    decreases a, n,
{
    if n == 0 || n > a.len() {
        seq![]
    } else {
        jviews(a, (n - 1) as nat).push(jview(a[n - 1]))
    }
}

/// The views of the first `n` entries.
pub open spec fn jentries(o: Seq<(String, JsonValue)>, n: nat) -> Seq<(Seq<char>, JView)>
    decreases o, n,
{
    if n == 0 || n > o.len() {
        seq![]
    } else {
        jentries(o, (n - 1) as nat).push((o[n - 1].0@, jview(o[n - 1].1)))
    }
}

} // verus!

verus! {

#[verifier::external_type_specification]
#[verifier::external_body]
pub struct ExValue(serde_json::Value);

#[verifier::external_type_specification]
#[verifier::external_body]
#[verifier::reject_recursive_types(K)]
#[verifier::reject_recursive_types(V)]
pub struct ExMap<K, V>(serde_json::Map<K, V>);

// ─── Views ──────────────────────────────────────────────────────────────────

/// The views of a vector of values.
pub open spec fn vals(a: Seq<JsonValue>) -> Seq<JView> {
    a.map_values(|x: JsonValue| jview(x))
}

/// The views of a vector of object entries.
pub open spec fn ents(o: Seq<(String, JsonValue)>) -> Seq<(Seq<char>, JView)> {
    o.map_values(|e: (String, JsonValue)| (e.0@, jview(e.1)))
}

pub proof fn lemma_jviews(a: Seq<JsonValue>, n: nat)
    requires
        n <= a.len(),
    ensures
        jviews(a, n) == vals(a).take(n as int),
    decreases n,
{
    if n > 0 {
        lemma_jviews(a, (n - 1) as nat);
        assert(jviews(a, n) =~= vals(a).take(n as int));
    } else {
        assert(jviews(a, n) =~= vals(a).take(n as int));
    }
}

pub proof fn lemma_jentries(o: Seq<(String, JsonValue)>, n: nat)
    requires
        n <= o.len(),
    ensures
        jentries(o, n) == ents(o).take(n as int),
    decreases n,
{
    if n > 0 {
        lemma_jentries(o, (n - 1) as nat);
        assert(jentries(o, n) =~= ents(o).take(n as int));
    } else {
        assert(jentries(o, n) =~= ents(o).take(n as int));
    }
}

/// The view of an array or object is the sequence of its elements' views.
pub proof fn lemma_jview(v: JsonValue)
    ensures
        v matches JsonValue::Array(a) ==> jview(v) == JView::Array(vals(a@)),
        v matches JsonValue::Object(o) ==> jview(v) == JView::Object(ents(o@)),
{
    match v {
        JsonValue::Array(a) => {
            lemma_jviews(a@, a@.len());
            assert(vals(a@).take(a@.len() as int) =~= vals(a@));
        },
        JsonValue::Object(o) => {
            lemma_jentries(o@, o@.len());
            assert(ents(o@).take(o@.len() as int) =~= ents(o@));
        },
        _ => {},
    }
}

// ─── Looking things up ──────────────────────────────────────────────────────

/// Index of the first entry with key `k`.
pub open spec fn key_index(o: Seq<(Seq<char>, JView)>, k: Seq<char>) -> Option<int>
    decreases o.len(),
{
    if o.len() == 0 {
        None
    } else if o[0].0 == k {
        Some(0)
    } else {
        match key_index(o.drop_first(), k) {
            Some(i) => Some(i + 1),
            None => None,
        }
    }
}

pub proof fn lemma_key_index(o: Seq<(Seq<char>, JView)>, k: Seq<char>)
    ensures
        key_index(o, k) matches Some(i) ==> 0 <= i < o.len() && o[i].0 == k && forall|j: int|
            0 <= j < i ==> o[j].0 != k,
        key_index(o, k) is None ==> forall|j: int| 0 <= j < o.len() ==> o[j].0 != k,
    decreases o.len(),
{
    if o.len() > 0 && o[0].0 != k {
        lemma_key_index(o.drop_first(), k);
        assert forall|j: int| 1 <= j < o.len() implies o[j].0 == o.drop_first()[j - 1].0 by {}
    }
}

pub proof fn lemma_key_index_unique(o: Seq<(Seq<char>, JView)>, k: Seq<char>, i: int)
    requires
        0 <= i <= o.len(),
        forall|j: int| 0 <= j < i ==> o[j].0 != k,
        i < o.len() ==> o[i].0 == k,
    ensures
        key_index(o, k) == (if i < o.len() {
            Some(i)
        } else {
            None::<int>
        }),
    decreases o.len(),
{
    if o.len() > 0 && i > 0 {
        assert forall|j: int| 0 <= j < i - 1 implies o.drop_first()[j].0 != k by {
            assert(o.drop_first()[j] == o[j + 1]);
        }
        if i < o.len() {
            assert(o.drop_first()[i - 1] == o[i]);
        }
        lemma_key_index_unique(o.drop_first(), k, i - 1);
    }
}

/// The value of the first entry with key `k`.
pub open spec fn jget(o: Seq<(Seq<char>, JView)>, k: Seq<char>) -> Option<JView> {
    match key_index(o, k) {
        Some(i) => Some(o[i].1),
        None => None,
    }
}

/// `Value::get(k)`: the value at key `k` of an object, nothing for anything else.
pub open spec fn field(v: JView, k: Seq<char>) -> Option<JView> {
    match v {
        JView::Object(o) => jget(o, k),
        _ => None,
    }
}

/// Finds key `k` among the entries of an object.
pub fn find_key(o: &Vec<(String, JsonValue)>, k: &str) -> (r: Option<usize>)
    ensures
        match (r, key_index(ents(o@), k@)) {
            (Some(i), Some(j)) => i == j,
            (None, None) => true,
            _ => false,
        },
        r matches Some(i) ==> i < o@.len(),
{
    let kc = to_chars(k);
    let mut i: usize = 0;
    while i < o.len()
        invariant
            i <= o@.len(),
            kc@ == k@,
            forall|j: int| 0 <= j < i ==> ents(o@)[j].0 != k@,
        decreases o@.len() - i,
    {
        if crate::text::same_chars(&to_chars(o[i].0.as_str()), &kc) {
            proof {
                lemma_key_index_unique(ents(o@), k@, i as int);
            }
            return Some(i);
        }
        i = i + 1;
    }
    proof {
        lemma_key_index_unique(ents(o@), k@, o@.len() as int);
    }
    None
}

/// `Value::get(k)` on a value.
pub fn get_field<'a>(v: &'a JsonValue, k: &str) -> (r: Option<&'a JsonValue>)
    ensures
        match r {
            Some(x) => field(jview(*v), k@) == Some(jview(*x)),
            None => field(jview(*v), k@) is None,
        },
{
    proof {
        lemma_jview(*v);
    }
    match v {
        JsonValue::Object(o) => {
            match find_key(o, k) {
                Some(i) => Some(&o[i].1),
                None => None,
            }
        },
        _ => None,
    }
}

/// `Value::as_str`.
pub fn as_str<'a>(v: &'a JsonValue) -> (r: Option<&'a String>)
    ensures
        match (r, jview(*v)) {
            (Some(s), JView::Str(t)) => s@ == t,
            (None, JView::Str(_)) => false,
            (Some(_), _) => false,
            (None, _) => true,
        },
{
    match v {
        JsonValue::Str(s) => Some(s),
        _ => None,
    }
}

/// `Value::as_bool`.
pub fn as_bool(v: &JsonValue) -> (r: Option<bool>)
    ensures
        match jview(*v) {
            JView::Bool(b) => r == Some(b),
            _ => r is None,
        },
{
    match v {
        JsonValue::Bool(b) => Some(*b),
        _ => None,
    }
}

// ─── serde_json ─────────────────────────────────────────────────────────────

/// Converts a `serde_json::Value` into the library's value, variant by
/// variant; objects keep `serde_json::Map`'s iteration order.
#[verifier::external_body]
fn json_of(v: &serde_json::Value) -> JsonValue {
    match v {
        serde_json::Value::Null => JsonValue::Null,
        serde_json::Value::Bool(b) => JsonValue::Bool(*b),
        serde_json::Value::Number(n) => JsonValue::Number(n.clone()),
        serde_json::Value::String(s) => JsonValue::Str(s.clone()),
        serde_json::Value::Array(a) => JsonValue::Array(json_of_array(a)),
        serde_json::Value::Object(m) => JsonValue::Object(json_of_object(m)),
    }
}

/// Converts the elements of a `serde_json` array, in order.
#[verifier::external_body]
fn json_of_array(a: &Vec<serde_json::Value>) -> Vec<JsonValue> {
    let mut out = Vec::new();
    for x in a {
        out.push(json_of(x));
    }
    out
}

/// Converts the entries of a `serde_json::Map`, in its iteration order.
#[verifier::external_body]
fn json_of_object(m: &serde_json::Map<String, serde_json::Value>) -> Vec<(String, JsonValue)> {
    let mut out = Vec::new();
    for (k, x) in m {
        out.push((k.clone(), json_of(x)));
    }
    out
}

/// Converts the library's value into a `serde_json::Value`, variant by variant.
#[verifier::external_body]
fn serde_of(v: &JsonValue) -> serde_json::Value {
    match v {
        JsonValue::Null => serde_json::Value::Null,
        JsonValue::Bool(b) => serde_json::Value::Bool(*b),
        JsonValue::Number(n) => serde_json::Value::Number(n.clone()),
        JsonValue::Str(s) => serde_json::Value::String(s.clone()),
        JsonValue::Array(a) => serde_json::Value::Array(serde_of_array(a)),
        JsonValue::Object(o) => serde_json::Value::Object(serde_of_object(o)),
    }
}

/// Converts the elements of an array, in order.
#[verifier::external_body]
fn serde_of_array(a: &Vec<JsonValue>) -> Vec<serde_json::Value> {
    let mut out = Vec::new();
    for x in a {
        out.push(serde_of(x));
    }
    out
}

/// Inserts the entries of an object into a `serde_json::Map`, in order.
#[verifier::external_body]
fn serde_of_object(o: &Vec<(String, JsonValue)>) -> serde_json::Map<String, serde_json::Value> {
    let mut m = serde_json::Map::new();
    for (k, x) in o {
        m.insert(k.clone(), serde_of(x));
    }
    m
}

/// What `serde_json::from_str::<Value>` makes of a text: the value it parses,
/// or the message (`Display`) of the error when the text is not one JSON
/// document.
pub uninterp spec fn json_parse(text: Seq<char>) -> Result<JView, Seq<char>>;

/// `serde_json::from_str::<serde_json::Value>`, with the error's message.
#[verifier::external_body]
pub(crate) fn parse_json_checked(text: &str) -> (r: Result<JsonValue, String>)
    ensures
        match r {
            Ok(v) => json_parse(text@) == Ok::<JView, Seq<char>>(jview(v)),
            Err(e) => json_parse(text@) == Err::<JView, Seq<char>>(e@),
        },
{
    match serde_json::from_str::<serde_json::Value>(text) {
        Ok(v) => Ok(json_of(&v)),
        Err(e) => Err(e.to_string()),
    }
}

/// The value a text parses to, if it is JSON.
pub fn parse_json(text: &str) -> (r: Option<JsonValue>)
    ensures
        match r {
            Some(v) => json_parse(text@) == Ok::<JView, Seq<char>>(jview(v)),
            None => json_parse(text@) is Err,
        },
{
    match parse_json_checked(text) {
        Ok(v) => Some(v),
        Err(_) => None,
    }
}

/// What `serde_json::to_string_pretty` writes for a value (two-space
/// indentation; object keys in `serde_json::Map` order).
pub uninterp spec fn json_pretty(v: JView) -> Seq<char>;

/// `serde_json::to_string_pretty` of a value; serialising a `Value` does not fail.
#[verifier::external_body]
pub(crate) fn to_pretty(v: &JsonValue) -> (r: String)
    ensures
        r@ == json_pretty(jview(*v)),
{
    serde_json::to_string_pretty(&serde_of(v)).unwrap_or_default()
}

/// What `serde_json::to_string` (the `Display` of a `Value`) writes for a value.
pub uninterp spec fn json_compact(v: JView) -> Seq<char>;

/// `serde_json::to_string` of a value; serialising a `Value` does not fail.
#[verifier::external_body]
pub(crate) fn to_compact(v: &JsonValue) -> (r: String)
    ensures
        r@ == json_compact(jview(*v)),
{
    serde_json::to_string(&serde_of(v)).unwrap_or_default()
}

} // verus!

verus! {

// ─── Editing objects ────────────────────────────────────────────────────────

/// The entries of an object, none for anything else.
pub open spec fn entries_of(v: JView) -> Seq<(Seq<char>, JView)> {
    match v {
        JView::Object(o) => o,
        _ => seq![],
    }
}

/// The entries of an object given as optional (`entry(..).or_insert(json!({}))`).
pub open spec fn obj_or_empty(x: Option<JView>) -> Seq<(Seq<char>, JView)> {
    match x {
        Some(JView::Object(o)) => o,
        _ => seq![],
    }
}

/// The elements of an array given as optional (`entry(..).or_insert(json!([]))`).
pub open spec fn arr_or_empty(x: Option<JView>) -> Seq<JView> {
    match x {
        Some(JView::Array(a)) => a,
        _ => seq![],
    }
}

/// Absent or an object.
pub open spec fn obj_ok(x: Option<JView>) -> bool {
    x is None || x matches Some(JView::Object(_))
}

/// Absent or an array.
pub open spec fn arr_ok(x: Option<JView>) -> bool {
    x is None || x matches Some(JView::Array(_))
}

/// The value at key `k` of an optional object.
pub open spec fn at_key(x: Option<JView>, k: Seq<char>) -> Option<JView> {
    match x {
        Some(v) => field(v, k),
        None => None,
    }
}

/// `entry(k)` on an object, then `f` of what is there: the entry is replaced
/// in place when the key is present, appended otherwise.
pub open spec fn upsert(
    o: Seq<(Seq<char>, JView)>,
    k: Seq<char>,
    f: spec_fn(Option<JView>) -> JView,
) -> Seq<(Seq<char>, JView)> {
    match key_index(o, k) {
        Some(i) => o.update(i, (k, f(Some(o[i].1)))),
        None => o.push((k, f(None))),
    }
}

/// After `upsert`, the key holds what `f` made of its former value.
pub proof fn lemma_upsert_get(o: Seq<(Seq<char>, JView)>, k: Seq<char>, f: spec_fn(Option<JView>) -> JView)
    ensures
        jget(upsert(o, k, f), k) == Some(f(jget(o, k))),
{
    lemma_key_index(o, k);
    let u = upsert(o, k, f);
    match key_index(o, k) {
        Some(i) => {
            lemma_key_index_unique(u, k, i);
        },
        None => {
            lemma_key_index_unique(u, k, o.len() as int);
        },
    }
}

/// `upsert` leaves the other keys as they were.
pub proof fn lemma_upsert_other(
    o: Seq<(Seq<char>, JView)>,
    k: Seq<char>,
    f: spec_fn(Option<JView>) -> JView,
    k2: Seq<char>,
)
    requires
        k2 != k,
    ensures
        jget(upsert(o, k, f), k2) == jget(o, k2),
        key_index(upsert(o, k, f), k2) == key_index(o, k2),
{
    lemma_key_index(o, k);
    lemma_key_index(o, k2);
    let u = upsert(o, k, f);
    match key_index(o, k2) {
        Some(j) => {
            lemma_key_index_unique(u, k2, j);
        },
        None => {
            assert forall|j: int| 0 <= j < u.len() implies u[j].0 != k2 by {}
            lemma_key_index_unique(u, k2, u.len() as int);
        },
    }
}

/// `upsert` changes nothing when `f` keeps the value already there.
pub proof fn lemma_upsert_same(o: Seq<(Seq<char>, JView)>, k: Seq<char>, f: spec_fn(Option<JView>) -> JView)
    requires
        jget(o, k) is Some,
        f(jget(o, k)) == jget(o, k)->0,
    ensures
        upsert(o, k, f) == o,
{
    lemma_key_index(o, k);
    let i = key_index(o, k)->0;
    assert(upsert(o, k, f) =~= o);
}

/// Removes the entry with key `k`, if any, giving its position and value.
pub fn take_key(o: &mut Vec<(String, JsonValue)>, k: &str) -> (r: (usize, Option<JsonValue>))
    ensures
        match key_index(ents(old(o)@), k@) {
            Some(i) => r.0 == i && r.1 == Some(old(o)@[i].1) && final(o)@ == old(o)@.remove(i),
            None => r.0 == old(o)@.len() && r.1 is None && final(o)@ == old(o)@,
        },
        r.0 <= final(o)@.len(),
        match r.1 {
            Some(v) => jget(ents(old(o)@), k@) == Some(jview(v)),
            None => jget(ents(old(o)@), k@) is None,
        },
{
    proof {
        lemma_key_index(ents(o@), k@);
    }
    match find_key(o, k) {
        Some(i) => {
            let e = o.remove(i);
            (i, Some(e.1))
        },
        None => (o.len(), None),
    }
}

/// Puts an entry `k: v` at position `i`.
pub fn put_key(o: &mut Vec<(String, JsonValue)>, i: usize, k: &str, v: JsonValue)
    requires
        i <= old(o)@.len(),
    ensures
        ents(final(o)@) == ents(old(o)@).insert(i as int, (k@, jview(v))),
{
    let ghost prev = o@;
    let key = crate::text::owned(k);
    o.insert(i, (key, v));
    assert(ents(o@) =~= ents(prev).insert(i as int, (k@, jview(v))));
}

/// Taking an entry out and putting it back with a new value is `upsert`.
pub proof fn lemma_take_put(
    o: Seq<(String, JsonValue)>,
    k: Seq<char>,
    i: int,
    mid: Seq<(String, JsonValue)>,
    fin: Seq<(Seq<char>, JView)>,
    nv: JView,
    f: spec_fn(Option<JView>) -> JView,
)
    requires
        match key_index(ents(o), k) {
            Some(j) => i == j && mid == o.remove(j) && nv == f(Some(jview(o[j].1))),
            None => i == o.len() && mid == o && nv == f(None),
        },
        fin == ents(mid).insert(i, (k, nv)),
    ensures
        fin == upsert(ents(o), k, f),
{
    lemma_key_index(ents(o), k);
    match key_index(ents(o), k) {
        Some(j) => {
            assert(fin =~= upsert(ents(o), k, f));
        },
        None => {
            assert(fin =~= upsert(ents(o), k, f));
        },
    }
}

} // verus!

verus! {

/// `get_mut(k)` on an object, then `f` of what is there; nothing happens when
/// the key is absent.
pub open spec fn modify(o: Seq<(Seq<char>, JView)>, k: Seq<char>, f: spec_fn(JView) -> JView) -> Seq<
    (Seq<char>, JView),
> {
    match key_index(o, k) {
        Some(i) => o.update(i, (k, f(o[i].1))),
        None => o,
    }
}

pub proof fn lemma_modify_get(o: Seq<(Seq<char>, JView)>, k: Seq<char>, f: spec_fn(JView) -> JView)
    ensures
        jget(modify(o, k, f), k) == match jget(o, k) {
            Some(v) => Some(f(v)),
            None => None::<JView>,
        },
{
    lemma_key_index(o, k);
    match key_index(o, k) {
        Some(i) => {
            lemma_key_index_unique(modify(o, k, f), k, i);
        },
        None => {},
    }
}

pub proof fn lemma_modify_other(
    o: Seq<(Seq<char>, JView)>,
    k: Seq<char>,
    f: spec_fn(JView) -> JView,
    k2: Seq<char>,
)
    requires
        k2 != k,
    ensures
        jget(modify(o, k, f), k2) == jget(o, k2),
        key_index(modify(o, k, f), k2) == key_index(o, k2),
{
    lemma_key_index(o, k);
    lemma_key_index(o, k2);
    let u = modify(o, k, f);
    match key_index(o, k2) {
        Some(j) => {
            lemma_key_index_unique(u, k2, j);
        },
        None => {
            lemma_key_index_unique(u, k2, u.len() as int);
        },
    }
}

pub proof fn lemma_modify_same(o: Seq<(Seq<char>, JView)>, k: Seq<char>, f: spec_fn(JView) -> JView)
    requires
        jget(o, k) matches Some(v) ==> f(v) == v,
    ensures
        modify(o, k, f) == o,
{
    lemma_key_index(o, k);
    assert(modify(o, k, f) =~= o);
}

/// Taking an entry out and putting it back changed is `modify`.
pub proof fn lemma_take_modify(
    o: Seq<(String, JsonValue)>,
    k: Seq<char>,
    i: int,
    mid: Seq<(String, JsonValue)>,
    fin: Seq<(Seq<char>, JView)>,
    f: spec_fn(JView) -> JView,
)
    requires
        match key_index(ents(o), k) {
            Some(j) => i == j && mid == o.remove(j) && exists|nv: JView|
                nv == f(jview(o[j].1)) && fin == ents(mid).insert(i, (k, nv)),
            None => mid == o && fin == ents(o),
        },
    ensures
        fin == modify(ents(o), k, f),
{
    lemma_key_index(ents(o), k);
    match key_index(ents(o), k) {
        Some(j) => {
            assert(fin =~= modify(ents(o), k, f));
        },
        None => {},
    }
}

} // verus!

verus! {

/// `<serde_json::Number as Clone>::clone`, which the crate derives: the copy
/// is the same number.
#[verifier::external_body]
fn clone_number(n: &serde_json::Number) -> (r: serde_json::Number)
    ensures
        r == *n,
{
    n.clone()
}

/// A copy of a value.
pub fn clone_json(v: &JsonValue) -> (r: JsonValue)
    ensures
        jview(r) == jview(*v),
    decreases v,
{
    proof {
        lemma_jview(*v);
    }
    match v {
        JsonValue::Null => JsonValue::Null,
        JsonValue::Bool(b) => JsonValue::Bool(*b),
        JsonValue::Number(n) => JsonValue::Number(clone_number(n)),
        JsonValue::Str(s) => JsonValue::Str(s.clone()),
        JsonValue::Array(a) => {
            let mut out: Vec<JsonValue> = Vec::new();
            let mut i: usize = 0;
            while i < a.len()
                invariant
                    i <= a@.len(),
                    *v == JsonValue::Array(*a),
                    vals(out@) == vals(a@).take(i as int),
                decreases a@.len() - i,
            {
                proof {
                    assert(decreases_to!(*v => (*v)->Array_0));
                    assert(decreases_to!(*a => a@));
                    assert(decreases_to!(a@ => a@[i as int]));
                }
                let x = clone_json(&a[i]);
                let ghost prev = out@;
                out.push(x);
                assert(vals(out@) =~= vals(prev).push(jview(a@[i as int])));
                assert(vals(a@).take(i + 1) =~= vals(a@).take(i as int).push(jview(a@[i as int])));
                i = i + 1;
            }
            assert(vals(a@).take(a@.len() as int) =~= vals(a@));
            proof {
                lemma_jview(JsonValue::Array(out));
            }
            JsonValue::Array(out)
        },
        JsonValue::Object(o) => {
            let mut out: Vec<(String, JsonValue)> = Vec::new();
            let mut i: usize = 0;
            while i < o.len()
                invariant
                    i <= o@.len(),
                    *v == JsonValue::Object(*o),
                    ents(out@) == ents(o@).take(i as int),
                decreases o@.len() - i,
            {
                proof {
                    assert(decreases_to!(*v => (*v)->Object_0));
                    assert(decreases_to!(*o => o@));
                    assert(decreases_to!(o@ => o@[i as int]));
                    assert(decreases_to!(o@[i as int] => o@[i as int].1));
                }
                let x = clone_json(&o[i].1);
                let k = o[i].0.clone();
                let ghost prev = out@;
                out.push((k, x));
                assert(ents(out@) =~= ents(prev).push((o@[i as int].0@, jview(o@[i as int].1))));
                assert(ents(o@).take(i + 1) =~= ents(o@).take(i as int).push(
                    (o@[i as int].0@, jview(o@[i as int].1)),
                ));
                i = i + 1;
            }
            assert(ents(o@).take(o@.len() as int) =~= ents(o@));
            proof {
                lemma_jview(JsonValue::Object(out));
            }
            JsonValue::Object(out)
        },
    }
}

} // verus!
