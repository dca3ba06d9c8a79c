//! Skills: the frontmatter of `SKILL.md`, the guards on names taken from the
//! UI, and the registration of the built-in skill in `openclaw.json`.

use vstd::prelude::*;
use crate::json::{
    entries_of, field, jget, jview, key_index, lemma_jview, lemma_key_index, lemma_take_put,
    lemma_take_modify, lemma_modify_get, lemma_modify_other, lemma_modify_same, modify,
    lemma_upsert_get, lemma_upsert_other, lemma_upsert_same, put_key, take_key, upsert, vals,
    JView, JsonValue,
};
use crate::text::{
    concat, contains_char, contains_seq, find_from, find_seq, from_chars, has_prefix, has_sub,
    lines, lines_of, opt_view, owned, slice, slice_from, starts_with_seq, str_is, strip_prefix_exec,
    to_chars, trim, trim_chars, views,
};
use crate::wizard::{debug_quoted, debug_str};

verus! {

/// A skill and what its `SKILL.md` says of it.
pub struct SkillMeta {
    /// The directory name, which is the skill's key.
    pub name: String,
    pub version: Option<String>,
    pub description: Option<String>,
    /// The files in the skill's directory.
    pub files: Vec<String>,
}

// ─── Frontmatter ────────────────────────────────────────────────────────────

/// The text between a leading `---` and the next `\n---`.
pub open spec fn frontmatter_block(t: Seq<char>) -> Option<Seq<char>> {
    if has_prefix(t, "---"@) {
        let s = t.skip("---"@.len() as int);
        match find_from(s, "\n---"@, 0) {
            Some(e) => Some(s.take(e)),
            None => None,
        }
    } else {
        None
    }
}

/// The `version:` and `description:` values among the lines, the last of each
/// winning, trimmed.
pub open spec fn fm_fields(ls: Seq<Seq<char>>) -> (Option<Seq<char>>, Option<Seq<char>>)
    decreases ls.len(),
{
    if ls.len() == 0 {
        (None, None)
    } else {
        let (v, d) = fm_fields(ls.drop_last());
        let l = ls.last();
        if has_prefix(l, "version:"@) {
            (Some(trim(l.skip("version:"@.len() as int))), d)
        } else if has_prefix(l, "description:"@) {
            (v, Some(trim(l.skip("description:"@.len() as int))))
        } else {
            (v, d)
        }
    }
}

/// The (version, description) a `SKILL.md` declares in its frontmatter.
pub open spec fn frontmatter(t: Seq<char>) -> (Option<Seq<char>>, Option<Seq<char>>) {
    match frontmatter_block(t) {
        Some(b) => fm_fields(lines(b)),
        None => (None, None),
    }
}

/// Extracts (version, description) from a YAML frontmatter block `---\n...\n---`.
pub fn parse_frontmatter(text: &str) -> (r: (Option<String>, Option<String>))
    ensures
        (opt_view(r.0), opt_view(r.1)) == frontmatter(text@),
{
    let t = to_chars(text);
    let rest = match strip_prefix_exec(&t, "---") {
        Some(s) => s,
        None => return (None, None),
    };
    let end = match find_seq(&rest, &to_chars("\n---")) {
        Some(e) => e,
        None => return (None, None),
    };
    let block = slice(&rest, 0, end);
    assert(block@ =~= rest@.take(end as int));
    let ls = lines_of(&block);
    let mut version: Option<String> = None;
    let mut description: Option<String> = None;
    let mut i: usize = 0;
    while i < ls.len()
        invariant
            i <= ls@.len(),
            (opt_view(version), opt_view(description)) == fm_fields(views(ls@).take(i as int)),
        decreases ls@.len() - i,
    {
        proof {
            assert(views(ls@).take(i + 1).drop_last() =~= views(ls@).take(i as int));
        }
        let l = &ls[i];
        match strip_prefix_exec(l, "version:") {
            Some(v) => {
                version = Some(from_chars(&trim_chars(&v)));
            },
            None => match strip_prefix_exec(l, "description:") {
                Some(d) => {
                    description = Some(from_chars(&trim_chars(&d)));
                },
                None => {},
            },
        }
        i = i + 1;
    }
    assert(views(ls@).take(ls@.len() as int) =~= views(ls@));
    (version, description)
}

// ─── Name guards ────────────────────────────────────────────────────────────

/// A name that cannot leave its directory: not empty, no `/`, no `\`, no `..`.
pub open spec fn safe_name(n: Seq<char>) -> bool {
    n.len() > 0 && !n.contains('/') && !n.contains('\\') && !has_sub(n, ".."@)
}

fn is_safe_name(n: &Vec<char>) -> (r: bool)
    ensures
        r == safe_name(n@),
{
    n.len() > 0 && !contains_char(n, '/') && !contains_char(n, '\\') && !contains_seq(
        n,
        &to_chars(".."),
    )
}

/// Guards a skill or file name taken from the UI.
pub fn validate_name(name: &str) -> (r: Result<(), String>)
    ensures
        safe_name(name@) <==> r is Ok,
        r matches Err(e) ==> e@ == "无效的名称: "@ + debug_quoted(name@),
{
    if !is_safe_name(&to_chars(name)) {
        let d = debug_str(name);
        return Err(from_chars(&concat(&to_chars("无效的名称: "), &to_chars(d.as_str()))));
    }
    Ok(())
}

/// A workspace name: a safe name that is `workspace` or starts with `workspace-`.
pub open spec fn workspace_name(n: Seq<char>) -> bool {
    safe_name(n) && (n == "workspace"@ || has_prefix(n, "workspace-"@))
}

/// Guards a workspace name taken from the UI.
pub fn validate_workspace(name: &str) -> (r: Result<(), String>)
    ensures
        workspace_name(name@) <==> r is Ok,
        r matches Err(e) ==> e@ == "无效的 workspace 名称: "@ + debug_quoted(name@),
{
    let n = to_chars(name);
    if !is_safe_name(&n) || !(str_is(&n, "workspace") || starts_with_seq(&n, &to_chars("workspace-"))) {
        let d = debug_str(name);
        return Err(
            from_chars(&concat(&to_chars("无效的 workspace 名称: "), &to_chars(d.as_str()))),
        );
    }
    Ok(())
}

/// The `SKILL.md` a new skill starts with.
pub open spec fn skill_template(name: Seq<char>) -> Seq<char> {
    "---\nname: "@ + name + "\nversion: 1.0\ndescription: 描述这个技能的用途\n---\n\n# "@ + name
        + "\n\n> 在这里描述这个技能的功能、使用场景和操作方式。\n"@
}

pub fn new_skill_template(name: &str) -> (r: String)
    ensures
        r@ == skill_template(name@),
{
    let n = to_chars(name);
    let a = concat(&to_chars("---\nname: "), &n);
    let b = concat(&a, &to_chars("\nversion: 1.0\ndescription: 描述这个技能的用途\n---\n\n# "));
    let c = concat(&b, &n);
    let d = concat(&c, &to_chars("\n\n> 在这里描述这个技能的功能、使用场景和操作方式。\n"));
    from_chars(&d)
}

proof fn lemma_find_first(s: Seq<char>, p: Seq<char>, i: int, e: int)
    requires
        0 <= i <= e,
        e + p.len() <= s.len(),
        s.subrange(e, e + p.len()) == p,
        forall|j: int| i <= j < e ==> #[trigger] s.subrange(j, j + p.len()) != p,
    ensures
        find_from(s, p, i) == Some(e),
    decreases e - i,
{
    if i < e {
        lemma_find_first(s, p, i + 1, e);
    }
}

/// A new skill's `SKILL.md` declares version 1.0 and the placeholder
/// description, and the skill listing reads them back (for a name without a
/// line break).
pub proof fn law_new_skill_frontmatter(name: Seq<char>)
    requires
        !name.contains('\n'),
    ensures
        frontmatter(skill_template(name)) == (Some("1.0"@), Some("描述这个技能的用途"@)),
{
    reveal_strlit("---\nname: ");
    reveal_strlit("\nversion: 1.0\ndescription: 描述这个技能的用途\n---\n\n# ");
    reveal_strlit("\n\n> 在这里描述这个技能的功能、使用场景和操作方式。\n");
    reveal_strlit("---");
    reveal_strlit("\n---");
    reveal_strlit("version:");
    reveal_strlit("description:");
    reveal_strlit("1.0");
    reveal_strlit("描述这个技能的用途");
    reveal_strlit("version: 1.0\ndescription: 描述这个技能的用途");
    reveal_strlit("description: 描述这个技能的用途");
    reveal_strlit("version: 1.0");
    let n = name.len() as int;
    let p1 = "---\nname: "@;
    let p2 = "\nversion: 1.0\ndescription: 描述这个技能的用途\n---\n\n# "@;
    let t = skill_template(name);
    assert(t.take(3) =~= "---"@);
    assert(has_prefix(t, "---"@));
    let s = t.skip(3);
    assert forall|j: int| 0 <= j < n implies name[j] != '\n' by {
        if name[j] == '\n' {
            assert(name.contains('\n'));
        }
    }
    assert forall|j: int| 0 <= j < s.len() implies #[trigger] s[j] == (if j < 7 {
        p1[j + 3]
    } else if j < 7 + n {
        name[j - 7]
    } else if j < 7 + n + p2.len() {
        p2[j - 7 - n]
    } else {
        t[j + 3]
    }) by {}
    let e = 7 + n + 36;
    assert(s.subrange(e, e + 4) =~= "\n---"@);
    assert forall|j: int| 0 <= j < e implies #[trigger] s.subrange(j, j + 4) != "\n---"@ by {
        if s.subrange(j, j + 4) == "\n---"@ {
            assert(s.subrange(j, j + 4)[0] == '\n');
            assert(s.subrange(j, j + 4)[1] == '-');
            assert(s[j] == '\n');
            assert(s[j + 1] == '-');
        }
    }
    lemma_find_first(s, "\n---"@, 0, e);
    let block = s.take(e);
    assert(frontmatter_block(t) == Some(block));
    // The lines of the block.
    crate::text::lemma_first_index_unique(block, '\n', 0);
    let b1 = block.skip(1);
    assert forall|j: int| 0 <= j < 6 + n implies b1[j] != '\n' by {
        assert(b1[j] == s[j + 1]);
    }
    assert(b1[6 + n] == s[7 + n]);
    crate::text::lemma_first_index_unique(b1, '\n', 6 + n);
    let b2 = b1.skip(7 + n);
    assert(b2 =~= "version: 1.0\ndescription: 描述这个技能的用途"@);
    crate::text::lemma_first_index_unique(b2, '\n', 12);
    let b3 = b2.skip(13);
    assert(b3 =~= "description: 描述这个技能的用途"@);
    crate::text::lemma_first_index_unique(b3, '\n', b3.len() as int);
    let l1 = crate::text::strip_cr(b1.take(6 + n));
    let l2 = b2.take(12);
    assert(l2 =~= "version: 1.0"@);
    assert(lines(b3) =~= seq![b3]);
    assert(block.take(0) =~= Seq::<char>::empty());
    assert(crate::text::strip_cr(l2) == l2);
    assert(lines(b2) =~= seq![crate::text::strip_cr(l2)] + lines(b3));
    assert(lines(b1) =~= seq![l1] + lines(b2));
    assert(lines(block) =~= seq![crate::text::strip_cr(block.take(0))] + lines(b1));
    let ls = lines(block);
    assert(ls =~= seq![Seq::<char>::empty(), l1, l2, b3]);
    // The fields.
    assert(l1[0] == 'n');
    if has_prefix(l1, "version:"@) {
        assert(l1.take(8)[0] == "version:"@[0]);
    }
    if has_prefix(l1, "description:"@) {
        assert(l1.take(12)[0] == "description:"@[0]);
    }
    assert(!has_prefix(Seq::<char>::empty(), "version:"@));
    assert(!has_prefix(Seq::<char>::empty(), "description:"@));
    assert(has_prefix(l2, "version:"@)) by {
        assert(l2.take(8) =~= "version:"@);
    }
    assert(!has_prefix(b3, "version:"@)) by {
        assert(b3[0] != "version:"@[0]);
    }
    assert(has_prefix(b3, "description:"@)) by {
        assert(b3.take(12) =~= "description:"@);
    }
    let v = l2.skip(8);
    let d = b3.skip(12);
    crate::text::lemma_lead_ws_unique(v, 1);
    crate::text::lemma_trail_ws_unique(v.skip(1), 0);
    assert(trim(v) =~= "1.0"@);
    crate::text::lemma_lead_ws_unique(d, 1);
    crate::text::lemma_trail_ws_unique(d.skip(1), 0);
    assert(trim(d) =~= "描述这个技能的用途"@);
    assert(ls.drop_last() =~= seq![Seq::<char>::empty(), l1, l2]);
    assert(ls.drop_last().drop_last() =~= seq![Seq::<char>::empty(), l1]);
    assert(ls.drop_last().drop_last().drop_last() =~= seq![Seq::<char>::empty()]);
    assert(ls.drop_last().drop_last().drop_last().drop_last() =~= Seq::<Seq<char>>::empty());
    let e0 = Seq::<char>::empty();
    assert(seq![e0].drop_last() =~= Seq::<Seq<char>>::empty());
    assert(seq![e0, l1].drop_last() =~= seq![e0]);
    assert(seq![e0, l1, l2].drop_last() =~= seq![e0, l1]);
    assert(seq![e0, l1, l2, b3].drop_last() =~= seq![e0, l1, l2]);
    assert(fm_fields(Seq::<Seq<char>>::empty()) == (None::<Seq<char>>, None::<Seq<char>>));
    assert(seq![e0].last() == e0);
    assert(fm_fields(seq![e0]) == (None::<Seq<char>>, None::<Seq<char>>));
    assert(seq![e0, l1].last() == l1);
    assert(fm_fields(seq![e0, l1]) == (None::<Seq<char>>, None::<Seq<char>>));
    assert(seq![e0, l1, l2].last() == l2);
    assert(fm_fields(seq![e0, l1, l2]) == (Some(trim(v)), None::<Seq<char>>));
    assert(seq![e0, l1, l2, b3].last() == b3);
}

} // verus!

verus! {

// ─── Registering the built-in skill ─────────────────────────────────────────

/// The name of the skill this app ships.
pub open spec fn builtin_skill_name() -> Seq<char> {
    "claw-browser-control"@
}

/// The entry that enables a skill: `{"enabled": true}`.
pub open spec fn enabled_entry() -> JView {
    JView::Object(seq![("enabled"@, JView::Bool(true))])
}

pub open spec fn entries_fix(v: JView) -> JView {
    match v {
        JView::Object(es) => JView::Object(
            if key_index(es, builtin_skill_name()) is Some {
                es
            } else {
                es.push((builtin_skill_name(), enabled_entry()))
            },
        ),
        _ => v,
    }
}

pub open spec fn skills_fix(v: JView) -> JView {
    match v {
        JView::Object(ss) => JView::Object(
            crate::json::modify(ss, "entries"@, |e: JView| entries_fix(e)),
        ),
        _ => v,
    }
}

pub open spec fn allow_fix(v: JView) -> JView {
    match v {
        JView::Array(xs) => JView::Array(
            if xs.contains(JView::Str("exec"@)) {
                xs
            } else {
                xs.push(JView::Str("exec"@))
            },
        ),
        _ => v,
    }
}

pub open spec fn tools_fix(v: JView) -> JView {
    match v {
        JView::Object(ts) => JView::Object(
            crate::json::modify(ts, "alsoAllow"@, |a: JView| allow_fix(a)),
        ),
        _ => v,
    }
}

/// The configuration with the built-in skill registered: enabled under
/// `skills.entries` unless an entry for it exists, and `exec` added to
/// `tools.alsoAllow`; each only where that object or array exists already.
pub open spec fn registered(cfg: JView) -> JView {
    match cfg {
        JView::Object(o) => JView::Object(
            crate::json::modify(
                crate::json::modify(o, "skills"@, |s: JView| skills_fix(s)),
                "tools"@,
                |t: JView| tools_fix(t),
            ),
        ),
        _ => cfg,
    }
}

fn enabled_entry_exec() -> (r: JsonValue)
    ensures
        jview(r) == enabled_entry(),
{
    let mut o: Vec<(String, JsonValue)> = Vec::new();
    o.push((owned("enabled"), JsonValue::Bool(true)));
    proof {
        lemma_jview(JsonValue::Object(o));
        assert(crate::json::ents(o@) =~= seq![("enabled"@, JView::Bool(true))]);
    }
    JsonValue::Object(o)
}

fn fix_entries(v: JsonValue) -> (r: JsonValue)
    ensures
        jview(r) == entries_fix(jview(v)),
{
    proof {
        lemma_jview(v);
    }
    match v {
        JsonValue::Object(es) => {
            let mut es = es;
            let ghost e0 = es@;
            if crate::json::find_key(&es, "claw-browser-control").is_none() {
                let en = enabled_entry_exec();
                es.push((owned("claw-browser-control"), en));
                assert(crate::json::ents(es@) =~= crate::json::ents(e0).push(
                    (builtin_skill_name(), enabled_entry()),
                ));
            }
            proof {
                lemma_jview(JsonValue::Object(es));
            }
            JsonValue::Object(es)
        },
        other => other,
    }
}

fn fix_allow(v: JsonValue) -> (r: JsonValue)
    ensures
        jview(r) == allow_fix(jview(v)),
{
    proof {
        lemma_jview(v);
    }
    match v {
        JsonValue::Array(xs) => {
            let mut xs = xs;
            let ghost x0 = xs@;
            if !has_exec(&xs) {
                xs.push(JsonValue::Str(owned("exec")));
                assert(vals(xs@) =~= vals(x0).push(JView::Str("exec"@)));
            }
            proof {
                lemma_jview(JsonValue::Array(xs));
            }
            JsonValue::Array(xs)
        },
        other => other,
    }
}

fn has_exec(xs: &Vec<JsonValue>) -> (r: bool)
    ensures
        r == vals(xs@).contains(JView::Str("exec"@)),
{
    let target = to_chars("exec");
    let mut i: usize = 0;
    while i < xs.len()
        invariant
            i <= xs@.len(),
            target@ == "exec"@,
            forall|j: int| 0 <= j < i ==> vals(xs@)[j] != JView::Str("exec"@),
        decreases xs@.len() - i,
    {
        match &xs[i] {
            JsonValue::Str(s) => {
                if crate::text::same_chars(&to_chars(s.as_str()), &target) {
                    assert(vals(xs@)[i as int] == JView::Str("exec"@));
                    return true;
                }
            },
            _ => {},
        }
        i = i + 1;
    }
    false
}

/// `get_mut(k)` on an object, changed by `fix`: the shared step of the fixes.
fn modify_key(o: &mut Vec<(String, JsonValue)>, k: &str, which: u8)
    requires
        which < 4,
    ensures
        crate::json::ents(final(o)@) == crate::json::modify(
            crate::json::ents(old(o)@),
            k@,
            fix_of(which),
        ),
    decreases which, 1nat,
{
    let ghost o0 = o@;
    let (i, cur) = take_key(o, k);
    let ghost mid = o@;
    match cur {
        Some(v) => {
            let nv = match which {
                0 => fix_entries(v),
                1 => fix_skills(v),
                2 => fix_allow(v),
                _ => fix_tools(v),
            };
            put_key(o, i, k, nv);
            proof {
                assert(jview(nv) == fix_of(which)(jview(o0[i as int].1)));
                lemma_take_modify(o0, k@, i as int, mid, crate::json::ents(o@), fix_of(which));
            }
        },
        None => {
            proof {
                lemma_take_modify(o0, k@, i as int, mid, crate::json::ents(o@), fix_of(which));
            }
        },
    }
}

/// The fixes by number.
pub open spec fn fix_of(which: u8) -> spec_fn(JView) -> JView {
    if which == 0 {
        |v: JView| entries_fix(v)
    } else if which == 1 {
        |v: JView| skills_fix(v)
    } else if which == 2 {
        |v: JView| allow_fix(v)
    } else {
        |v: JView| tools_fix(v)
    }
}

fn fix_skills(v: JsonValue) -> (r: JsonValue)
    ensures
        jview(r) == skills_fix(jview(v)),
    decreases 0u8, 2nat,
{
    proof {
        lemma_jview(v);
    }
    match v {
        JsonValue::Object(ss) => {
            let mut ss = ss;
            modify_key(&mut ss, "entries", 0);
            proof {
                lemma_jview(JsonValue::Object(ss));
            }
            JsonValue::Object(ss)
        },
        other => other,
    }
}

fn fix_tools(v: JsonValue) -> (r: JsonValue)
    ensures
        jview(r) == tools_fix(jview(v)),
    decreases 2u8, 2nat,
{
    proof {
        lemma_jview(v);
    }
    match v {
        JsonValue::Object(ts) => {
            let mut ts = ts;
            modify_key(&mut ts, "alsoAllow", 2);
            proof {
                lemma_jview(JsonValue::Object(ts));
            }
            JsonValue::Object(ts)
        },
        other => other,
    }
}

/// Registers the built-in skill in the configuration of `openclaw.json`.
pub fn register_skill_in_openclaw(cfg: &mut JsonValue)
    ensures
        jview(*final(cfg)) == registered(jview(*old(cfg))),
{
    let mut taken = JsonValue::Null;
    std::mem::swap(&mut taken, cfg);
    proof {
        lemma_jview(taken);
    }
    match taken {
        JsonValue::Object(o) => {
            let mut o = o;
            modify_key(&mut o, "skills", 1);
            modify_key(&mut o, "tools", 3);
            proof {
                lemma_jview(JsonValue::Object(o));
            }
            *cfg = JsonValue::Object(o);
        },
        other => {
            *cfg = other;
        },
    }
}

} // verus!

verus! {

pub open spec fn idem1(f: spec_fn(JView) -> JView) -> bool {
    forall|v: JView| #[trigger] f(f(v)) == f(v)
}

proof fn lemma_modify_idem(o: Seq<(Seq<char>, JView)>, k: Seq<char>, f: spec_fn(JView) -> JView)
    requires
        idem1(f),
    ensures
        modify(modify(o, k, f), k, f) == modify(o, k, f),
{
    lemma_modify_get(o, k, f);
    match jget(o, k) {
        Some(v) => {
            assert(f(f(v)) == f(v));
        },
        None => {},
    }
    lemma_modify_same(modify(o, k, f), k, f);
}

proof fn lemma_entries_idem()
    ensures
        idem1(|v: JView| entries_fix(v)),
{
    assert forall|v: JView| entries_fix(entries_fix(v)) == entries_fix(v) by {
        match v {
            JView::Object(es) => {
                if key_index(es, builtin_skill_name()) is None {
                    lemma_key_index(es, builtin_skill_name());
                    let pushed = es.push((builtin_skill_name(), enabled_entry()));
                    crate::json::lemma_key_index_unique(pushed, builtin_skill_name(), es.len() as int);
                }
            },
            _ => {},
        }
    }
}

proof fn lemma_allow_idem()
    ensures
        idem1(|v: JView| allow_fix(v)),
{
    assert forall|v: JView| allow_fix(allow_fix(v)) == allow_fix(v) by {
        match v {
            JView::Array(xs) => {
                if !xs.contains(JView::Str("exec"@)) {
                    assert(xs.push(JView::Str("exec"@))[xs.len() as int] == JView::Str("exec"@));
                }
            },
            _ => {},
        }
    }
}

proof fn lemma_skills_idem()
    ensures
        idem1(|v: JView| skills_fix(v)),
{
    lemma_entries_idem();
    assert forall|v: JView| skills_fix(skills_fix(v)) == skills_fix(v) by {
        match v {
            JView::Object(ss) => {
                lemma_modify_idem(ss, "entries"@, |e: JView| entries_fix(e));
            },
            _ => {},
        }
    }
}

proof fn lemma_tools_idem()
    ensures
        idem1(|v: JView| tools_fix(v)),
{
    lemma_allow_idem();
    assert forall|v: JView| tools_fix(tools_fix(v)) == tools_fix(v) by {
        match v {
            JView::Object(ts) => {
                lemma_modify_idem(ts, "alsoAllow"@, |a: JView| allow_fix(a));
            },
            _ => {},
        }
    }
}

/// Registering twice is registering once.
pub proof fn law_register_idempotent(cfg: JView)
    ensures
        registered(registered(cfg)) == registered(cfg),
{
    match cfg {
        JView::Object(o) => {
            reveal_strlit("skills");
            reveal_strlit("tools");
            assert("skills"@.len() != "tools"@.len());
            lemma_skills_idem();
            lemma_tools_idem();
            let sf = |s: JView| skills_fix(s);
            let tf = |t: JView| tools_fix(t);
            let m1 = modify(o, "skills"@, sf);
            let m = modify(m1, "tools"@, tf);
            lemma_modify_get(o, "skills"@, sf);
            lemma_modify_other(m1, "tools"@, tf, "skills"@);
            match jget(o, "skills"@) {
                Some(v) => {
                    assert(sf(sf(v)) == sf(v));
                },
                None => {},
            }
            lemma_modify_same(m, "skills"@, sf);
            lemma_modify_get(m1, "tools"@, tf);
            match jget(m1, "tools"@) {
                Some(v) => {
                    assert(tf(tf(v)) == tf(v));
                },
                None => {},
            }
            lemma_modify_same(m, "tools"@, tf);
        },
        _ => {},
    }
}

/// Registering touches no top-level field but `skills` and `tools`.
pub proof fn law_register_keeps_other_fields(cfg: JView, k: Seq<char>)
    requires
        k != "skills"@,
        k != "tools"@,
    ensures
        field(registered(cfg), k) == field(cfg, k),
{
    match cfg {
        JView::Object(o) => {
            let m1 = modify(o, "skills"@, |s: JView| skills_fix(s));
            lemma_modify_other(o, "skills"@, |s: JView| skills_fix(s), k);
            lemma_modify_other(m1, "tools"@, |t: JView| tools_fix(t), k);
        },
        _ => {},
    }
}

} // verus!

verus! {

// ─── openclaw.json as text ──────────────────────────────────────────────────

/// The text of `openclaw.json` after registering the built-in skill, or the
/// parse error of the text it had.
pub fn register_in_config_text(content: &str) -> (r: Result<String, String>)
    ensures
        match (r, crate::json::json_parse(content@)) {
            (Ok(t), Ok(v)) => t@ == crate::json::json_pretty(registered(v)),
            (Err(e), Err(m)) => e@ == m,
            _ => false,
        },
{
    match crate::json::parse_json_checked(content) {
        Ok(v) => {
            let mut cfg = v;
            register_skill_in_openclaw(&mut cfg);
            Ok(crate::json::to_pretty(&cfg))
        },
        Err(e) => Err(e),
    }
}

/// `gateway.auth.token` of the configuration, when it is a non-empty string.
pub open spec fn gateway_token(cfg: JView) -> Option<Seq<char>> {
    match crate::json::at_key(crate::json::at_key(field(cfg, "gateway"@), "auth"@), "token"@) {
        Some(JView::Str(t)) => if t.len() > 0 {
            Some(t)
        } else {
            None
        },
        _ => None,
    }
}

/// The error when the configuration has no gateway token.
pub open spec fn no_token_error() -> Seq<char> {
    "openclaw.json 中未找到 gateway.auth.token"@
}

/// Reads `gateway.auth.token` from the text of `openclaw.json`.
pub fn token_from_config(content: &str) -> (r: Result<String, String>)
    ensures
        match crate::json::json_parse(content@) {
            Err(m) => r matches Err(e) && e@ == m,
            Ok(v) => match gateway_token(v) {
                Some(t) => r matches Ok(s) && s@ == t,
                None => r matches Err(e) && e@ == no_token_error(),
            },
        },
{
    let cfg = match crate::json::parse_json_checked(content) {
        Ok(v) => v,
        Err(e) => return Err(e),
    };
    let g = crate::json::get_field(&cfg, "gateway");
    let a = match g {
        Some(x) => crate::json::get_field(x, "auth"),
        None => None,
    };
    let t = match a {
        Some(x) => crate::json::get_field(x, "token"),
        None => None,
    };
    match t {
        Some(JsonValue::Str(s)) => {
            if to_chars(s.as_str()).len() > 0 {
                Ok(s.clone())
            } else {
                Err(owned("openclaw.json 中未找到 gateway.auth.token"))
            }
        },
        Some(x) => {
            proof {
                lemma_jview(*x);
            }
            Err(owned("openclaw.json 中未找到 gateway.auth.token"))
        },
        None => Err(owned("openclaw.json 中未找到 gateway.auth.token")),
    }
}

} // verus!

verus! {

// ─── Listings ───────────────────────────────────────────────────────────────

/// An entry of a directory listing: its name (empty when it is not UTF-8)
/// and whether it is a directory.
pub struct DirEntry {
    pub name: String,
    pub is_dir: bool,
}

/// A directory named `workspace` or `workspace-<name>`.
pub open spec fn is_workspace_dir(name: Seq<char>, is_dir: bool) -> bool {
    is_dir && (name == "workspace"@ || has_prefix(name, "workspace-"@))
}

/// The workspace directories among the entries, in listing order.
pub open spec fn workspace_names(es: Seq<DirEntry>) -> Seq<Seq<char>>
    decreases es.len(),
{
    if es.len() == 0 {
        seq![]
    } else if is_workspace_dir(es.last().name@, es.last().is_dir) {
        workspace_names(es.drop_last()).push(es.last().name@)
    } else {
        workspace_names(es.drop_last())
    }
}

/// The workspaces of `~/.openclaw`: its workspace directories sorted by name,
/// or `workspace` alone when there is none.
pub fn list_workspaces(entries: Vec<DirEntry>) -> (r: Vec<String>)
    ensures
        workspace_names(entries@).len() == 0 ==> crate::text::sviews(r@) == seq!["workspace"@],
        workspace_names(entries@).len() > 0 ==> crate::order::permutes(
            crate::text::sviews(r@),
            workspace_names(entries@),
        ),
        crate::order::sorted_by(crate::text::sviews(r@), false),
        r@.len() > 0,
{
    let ghost es = entries@;
    let mut names: Vec<String> = Vec::new();
    let mut i: usize = 0;
    while i < entries.len()
        invariant
            i <= entries@.len(),
            es == entries@,
            crate::text::sviews(names@) == workspace_names(es.take(i as int)),
        decreases entries@.len() - i,
    {
        proof {
            assert(es.take(i + 1).drop_last() =~= es.take(i as int));
        }
        let e = &entries[i];
        let n = to_chars(e.name.as_str());
        if e.is_dir && (str_is(&n, "workspace") || starts_with_seq(&n, &to_chars("workspace-"))) {
            let ghost prev = names@;
            names.push(e.name.clone());
            assert(crate::text::sviews(names@) =~= crate::text::sviews(prev).push(e.name@));
        }
        i = i + 1;
    }
    assert(es.take(es.len() as int) =~= es);
    let ghost found = names@;
    let sorted = crate::order::sort_strings(names);
    if sorted.len() == 0 {
        let mut d: Vec<String> = Vec::new();
        d.push(owned("workspace"));
        proof {
            assert(crate::text::sviews(d@) =~= seq!["workspace"@]);
        }
        return d;
    }
    proof {
        let p = choose|p: Seq<int>|
            crate::order::is_perm(p, found.len() as int) && sorted@.len() == found.len() && forall|
                i: int,
            | 0 <= i < sorted@.len() ==> #[trigger] sorted@[i] == found[p[i]];
        assert forall|i: int| 0 <= i < sorted@.len() implies #[trigger] crate::text::sviews(
            sorted@,
        )[i] == crate::text::sviews(found)[p[i]] by {
            assert(sorted@[i] == found[p[i]]);
        }
    }
    sorted
}

} // verus!

verus! {

/// A directory of the skills folder as the listing sees it.
pub struct SkillDir {
    /// The directory name (empty when it is not UTF-8).
    pub name: String,
    pub is_dir: bool,
    /// The text of its `SKILL.md`, when that file exists.
    pub skill_md: Option<String>,
    /// The names of the regular files in it.
    pub files: Vec<String>,
}

/// The names of the skills.
pub open spec fn skill_names(ms: Seq<SkillMeta>) -> Seq<Seq<char>> {
    ms.map_values(|m: SkillMeta| m.name@)
}

/// The skill directories among the entries, in listing order.
pub open spec fn skill_dirs(ds: Seq<SkillDir>) -> Seq<SkillDir>
    decreases ds.len(),
{
    if ds.len() == 0 {
        seq![]
    } else if ds.last().is_dir && ds.last().name@.len() > 0 {
        skill_dirs(ds.drop_last()).push(ds.last())
    } else {
        skill_dirs(ds.drop_last())
    }
}

/// `m` describes the skill directory `d`: its name, what the frontmatter of
/// its `SKILL.md` declares, and its files sorted.
pub open spec fn describes(m: SkillMeta, d: SkillDir) -> bool {
    &&& m.name@ == d.name@
    &&& (opt_view(m.version), opt_view(m.description)) == match d.skill_md {
        Some(t) => frontmatter(t@),
        None => (None, None),
    }
    &&& crate::order::permutes(crate::text::sviews(m.files@), crate::text::sviews(d.files@))
    &&& crate::order::sorted_by(crate::text::sviews(m.files@), false)
}

fn describe(d: SkillDir) -> (m: SkillMeta)
    ensures
        describes(m, d),
{
    let (version, description) = match &d.skill_md {
        Some(t) => parse_frontmatter(t.as_str()),
        None => (None, None),
    };
    let ghost fs = d.files@;
    let files = crate::order::sort_strings(d.files);
    proof {
        let p = choose|p: Seq<int>|
            crate::order::is_perm(p, fs.len() as int) && files@.len() == fs.len() && forall|i: int|
                0 <= i < files@.len() ==> #[trigger] files@[i] == fs[p[i]];
        assert forall|i: int| 0 <= i < files@.len() implies #[trigger] crate::text::sviews(
            files@,
        )[i] == crate::text::sviews(fs)[p[i]] by {
            assert(files@[i] == fs[p[i]]);
        }
        assert(crate::order::is_perm(p, crate::text::sviews(fs).len() as int));
        assert(crate::order::permutes(crate::text::sviews(files@), crate::text::sviews(fs)));
    }
    let ghost nm = d.name@;
    let r = SkillMeta { name: d.name, version, description, files };
    assert(r.name@ == nm);
    r
}

/// The skills of a workspace: its skill directories described, sorted by
/// name, directories with equal names keeping their order.
pub fn list_skills(dirs: Vec<SkillDir>) -> (r: Vec<SkillMeta>)
    ensures
        ({
            let sd = skill_dirs(dirs@);
            exists|p: Seq<int>|
                {
                    &&& crate::order::is_perm(p, sd.len() as int)
                    &&& r@.len() == sd.len()
                    &&& forall|i: int| 0 <= i < r@.len() ==> describes(#[trigger] r@[i], sd[p[i]])
                    &&& crate::order::sorted_by(skill_names(r@), false)
                }
        }),
{
    let ghost ds = dirs@;
    let n = dirs.len();
    let mut src = dirs;
    let mut pairs: Vec<(Vec<char>, SkillMeta)> = Vec::new();
    let ghost mut picked: Seq<SkillDir> = seq![];
    let mut k: usize = 0;
    while k < n
        invariant
            n == ds.len(),
            k <= n,
            src@ == ds.skip(k as int),
            picked == skill_dirs(ds.take(k as int)),
            pairs@.len() == picked.len(),
            forall|i: int|
                0 <= i < pairs@.len() ==> describes((#[trigger] pairs@[i]).1, picked[i])
                    && pairs@[i].0@ == picked[i].name@,
        decreases n - k,
    {
        let d = src.remove(0);
        assert(d == ds[k as int]);
        assert(src@ =~= ds.skip(k + 1));
        proof {
            assert(ds.take(k + 1).drop_last() =~= ds.take(k as int));
        }
        if d.is_dir && to_chars(d.name.as_str()).len() > 0 {
            let key = to_chars(d.name.as_str());
            proof {
                picked = picked.push(d);
            }
            let m = describe(d);
            pairs.push((key, m));
        }
        k = k + 1;
    }
    assert(ds.take(ds.len() as int) =~= ds);
    let sorted = crate::order::stable_sort(pairs, false);
    let ghost ps = pairs@;
    let ghost p = choose|p: Seq<int>|
        {
            &&& crate::order::is_perm(p, ps.len() as int)
            &&& sorted@.len() == ps.len()
            &&& forall|i: int| 0 <= i < sorted@.len() ==> #[trigger] sorted@[i] == ps[p[i]]
            &&& crate::order::sorted_by(crate::order::keys(sorted@), false)
            &&& forall|i: int, j: int|
                0 <= i < j < sorted@.len() && sorted@[i].0@ == sorted@[j].0@ ==> #[trigger] p[i]
                    < #[trigger] p[j]
        };
    let m = sorted.len();
    let mut src2 = sorted;
    let ghost srt = src2@;
    let mut out: Vec<SkillMeta> = Vec::new();
    let mut j: usize = 0;
    while j < m
        invariant
            m == srt.len(),
            j <= m,
            src2@ == srt.skip(j as int),
            out@.len() == j,
            forall|i: int| 0 <= i < j ==> #[trigger] out@[i] == srt[i].1,
        decreases m - j,
    {
        let x = src2.remove(0);
        assert(x == srt[j as int]);
        assert(src2@ =~= srt.skip(j + 1));
        out.push(x.1);
        j = j + 1;
    }
    proof {
        assert forall|i: int| 0 <= i < out@.len() implies describes(
            #[trigger] out@[i],
            picked[p[i]],
        ) by {
            assert(srt[i] == ps[p[i]]);
        }
        assert forall|i: int| 0 <= i < out@.len() implies #[trigger] skill_names(out@)[i]
            == crate::order::keys(srt)[i] by {
            assert(srt[i] == ps[p[i]]);
        }
        assert(skill_names(out@) =~= crate::order::keys(srt));
    }
    out
}

} // verus!

verus! {

/// The error when a new skill's directory exists.
pub fn skill_exists_error(name: &str) -> (r: String)
    ensures
        r@ == "技能 '"@ + name@ + "' 已存在"@,
{
    from_chars(&concat(&concat(&to_chars("技能 '"), &to_chars(name)), &to_chars("' 已存在")))
}

/// The error when a skill to delete does not exist.
pub fn skill_missing_error(name: &str) -> (r: String)
    ensures
        r@ == "技能 '"@ + name@ + "' 不存在"@,
{
    from_chars(&concat(&concat(&to_chars("技能 '"), &to_chars(name)), &to_chars("' 不存在")))
}

} // verus!
