//! Reading a clack-style terminal wizard off a rendered screen.
//!
//! The TUI marks its parts with box-drawing glyphs: `◆` an active prompt,
//! `◇` a finished one, `│` a body line, `└` the outro, `●`/`○` radio options
//! and `◻`/`◼` (or `☐`/`☑`) checkbox options.  Everything here works on the
//! screen's lines after `str::trim`.

use vstd::prelude::*;
use crate::agents::WizardPrompt;
use crate::text::{
    contains_char, contains_seq, first_is, from_chars, has_sub, join, join_exec, lines, lines_of,
    lower, owned, remove_char, remove_char_exec, lemma_remove_char, lemma_remove_absent, lemma_trim, starts_with_char, strip_lead, strip_lead_exec,
    to_chars, to_lowercase, trim, trim_chars, views, sviews, iviews, opt_view, concat, dec, dec_u64,
    same_chars,
};

verus! {

/// The abstract content of a parsed prompt.
pub struct PromptView {
    pub kind: Seq<char>,
    pub question: Seq<char>,
    pub options: Seq<Seq<char>>,
    pub selected: int,
    pub checked: Seq<int>,
    pub error: Option<Seq<char>>,
    pub current_value: Option<Seq<char>>,
}

/// The screen's lines, each trimmed.
pub open spec fn trimmed_lines(screen: Seq<char>) -> Seq<Seq<char>> {
    lines(screen).map_values(|l: Seq<char>| trim(l))
}

/// Some line starts with `c`.
pub open spec fn any_start(ts: Seq<Seq<char>>, c: char) -> bool {
    exists|i: int| 0 <= i < ts.len() && starts_with_char(#[trigger] ts[i], c)
}

/// Some line contains `c`.
pub open spec fn any_contains(ts: Seq<Seq<char>>, c: char) -> bool {
    exists|i: int| 0 <= i < ts.len() && (#[trigger] ts[i]).contains(c)
}

/// The text after a leading run of `c`, trimmed.
pub open spec fn after_mark(t: Seq<char>, c: char) -> Seq<char> {
    trim(strip_lead(t, c))
}

/// The texts of the outro lines, in order.
pub open spec fn outro_pieces(ts: Seq<Seq<char>>) -> Seq<Seq<char>>
    decreases ts.len(),
{
    if ts.len() == 0 {
        seq![]
    } else if starts_with_char(ts.last(), '└') {
        outro_pieces(ts.drop_last()).push(after_mark(ts.last(), '└'))
    } else {
        outro_pieces(ts.drop_last())
    }
}

/// The text of a finished wizard: the outro texts joined by a space, or
/// `完成` when they are empty.
pub open spec fn outro_text(ts: Seq<Seq<char>>) -> Seq<char> {
    let t = join(outro_pieces(ts), seq![' ']);
    if t.len() == 0 {
        "完成"@
    } else {
        t
    }
}

/// The prompt a finished wizard shows.
pub open spec fn done_prompt(ts: Seq<Seq<char>>) -> PromptView {
    PromptView {
        kind: "done"@,
        question: outro_text(ts),
        options: seq![],
        selected: 0,
        checked: seq![],
        error: None,
        current_value: None,
    }
}

/// Index of the last line that starts with `c`.
pub open spec fn last_start(ts: Seq<Seq<char>>, c: char) -> Option<int>
    decreases ts.len(),
{
    if ts.len() == 0 {
        None
    } else if starts_with_char(ts.last(), c) {
        Some(ts.len() - 1)
    } else {
        last_start(ts.drop_last(), c)
    }
}

/// A line that ends a prompt body.
pub open spec fn is_stop(t: Seq<char>) -> bool {
    starts_with_char(t, '└') || starts_with_char(t, '◆') || starts_with_char(t, '◇')
}

/// The first line at or after `i` that ends the body (or the number of lines).
pub open spec fn stop_at(ts: Seq<Seq<char>>, i: int) -> int
    decreases ts.len() - i,
{
    if i >= ts.len() {
        ts.len() as int
    } else if is_stop(ts[i]) && !starts_with_char(ts[i], '│') {
        i
    } else {
        stop_at(ts, i + 1)
    }
}

/// A body text that reports a validation error.
pub open spec fn is_error_text(c: Seq<char>) -> bool {
    has_sub(lower(c), "please select"@) || has_sub(lower(c), "required"@)
}

/// The body lines in `[start, end)` that are not error reports, with their rows.
pub open spec fn body_entries(ts: Seq<Seq<char>>, start: int, end: int) -> Seq<(int, Seq<char>)>
    decreases end - start,
{
    if end <= start {
        seq![]
    } else {
        let prev = body_entries(ts, start, end - 1);
        let t = ts[end - 1];
        if starts_with_char(t, '│') && !is_error_text(after_mark(t, '│')) {
            prev.push((end - 1, after_mark(t, '│')))
        } else {
            prev
        }
    }
}

/// The last error report among the body lines in `[start, end)`.
pub open spec fn body_error(ts: Seq<Seq<char>>, start: int, end: int) -> Option<Seq<char>>
    decreases end - start,
{
    if end <= start {
        None
    } else {
        let t = ts[end - 1];
        if starts_with_char(t, '│') && is_error_text(after_mark(t, '│')) {
            Some(after_mark(t, '│'))
        } else {
            body_error(ts, start, end - 1)
        }
    }
}

/// A checkbox line (`multi`) or a radio line.
pub open spec fn is_marked(c: Seq<char>, multi: bool) -> bool {
    if multi {
        c.contains('◻') || c.contains('◼') || c.contains('☐') || c.contains('☑')
    } else {
        c.contains('●') || c.contains('○')
    }
}

/// A ticked checkbox (`multi`) or the chosen radio option.
pub open spec fn is_on(c: Seq<char>, multi: bool) -> bool {
    if multi {
        c.contains('◼') || c.contains('☑')
    } else {
        c.contains('●')
    }
}

/// The option text: the line without its markers, trimmed.
pub open spec fn option_text(c: Seq<char>, multi: bool) -> Seq<char> {
    if multi {
        trim(remove_char(remove_char(remove_char(remove_char(c, '◻'), '◼'), '☐'), '☑'))
    } else {
        trim(remove_char(remove_char(c, '●'), '○'))
    }
}

/// The option lines among `es`, as (row, marked on, text), those with an empty
/// text left out.
pub open spec fn options_of(es: Seq<(int, Seq<char>)>, multi: bool) -> Seq<(int, bool, Seq<char>)>
    decreases es.len(),
{
    if es.len() == 0 {
        seq![]
    } else {
        let prev = options_of(es.drop_last(), multi);
        let e = es.last();
        if is_marked(e.1, multi) && option_text(e.1, multi).len() > 0 {
            prev.push((e.0, is_on(e.1, multi), option_text(e.1, multi)))
        } else {
            prev
        }
    }
}

/// The texts of the options.
pub open spec fn option_texts(m: Seq<(int, bool, Seq<char>)>) -> Seq<Seq<char>> {
    m.map_values(|o: (int, bool, Seq<char>)| o.2)
}

/// The indices of the options marked on, in order.
pub open spec fn on_indices(m: Seq<(int, bool, Seq<char>)>) -> Seq<int>
    decreases m.len(),
{
    if m.len() == 0 {
        seq![]
    } else if m.last().1 {
        on_indices(m.drop_last()).push(m.len() - 1)
    } else {
        on_indices(m.drop_last())
    }
}

/// The last option among the first `n` on the cursor row, else 0.
pub open spec fn cursor_option(m: Seq<(int, bool, Seq<char>)>, cr: int, n: int) -> int
    decreases n,
{
    if n <= 0 {
        0
    } else if m[n - 1].0 == cr {
        n - 1
    } else {
        cursor_option(m, cr, n - 1)
    }
}

pub open spec fn dist(a: int, b: int) -> int {
    if a >= b {
        a - b
    } else {
        b - a
    }
}

/// The first option among the first `n` nearest to the cursor row, with its distance.
pub open spec fn nearest_option(m: Seq<(int, bool, Seq<char>)>, cr: int, n: int) -> (int, int)
    decreases n,
{
    if n <= 0 {
        (0, usize::MAX as int)
    } else {
        let (s, d) = nearest_option(m, cr, n - 1);
        let di = dist(m[n - 1].0, cr);
        if di < d {
            (n - 1, di)
        } else {
            (s, d)
        }
    }
}

/// The highlighted checkbox: the one on the cursor row; when that gives the
/// first option and the cursor is below the top row, the nearest one.
pub open spec fn multi_selected(m: Seq<(int, bool, Seq<char>)>, cr: int) -> int {
    let e = cursor_option(m, cr, m.len() as int);
    if e == 0 && cr > 0 {
        nearest_option(m, cr, m.len() as int).0
    } else {
        e
    }
}

/// The highlighted radio option among the first `n`: the one on the cursor
/// row, else the first marked one while nothing later is chosen.
pub open spec fn radio_selected(m: Seq<(int, bool, Seq<char>)>, cr: int, n: int) -> int
    decreases n,
{
    if n <= 0 {
        0
    } else {
        let s = radio_selected(m, cr, n - 1);
        if m[n - 1].0 == cr {
            n - 1
        } else if m[n - 1].1 && s == 0 {
            n - 1
        } else {
            s
        }
    }
}

/// A one-line Yes/No choice.
pub open spec fn is_confirm_line(l: Seq<char>) -> bool {
    &&& (has_sub(l, "Yes"@) || has_sub(l, "yes"@))
    &&& (has_sub(l, "No"@) || has_sub(l, "no"@))
    &&& (l.contains('○') || l.contains('●'))
}

/// The cursor glyphs a TUI draws in an input line removed, then trimmed.
pub open spec fn strip_cursor(s: Seq<char>) -> Seq<char> {
    trim(
        remove_char(
            remove_char(
                remove_char(remove_char(remove_char(s, '\u{2588}'), '\u{2589}'), '\u{258A}'),
                '\u{258B}',
            ),
            '\u{2502}',
        ),
    )
}

/// Whether `s` holds none of the cursor glyphs.
pub open spec fn no_cursor_glyph(s: Seq<char>) -> bool {
    &&& !s.contains('\u{2588}')
    &&& !s.contains('\u{2589}')
    &&& !s.contains('\u{258A}')
    &&& !s.contains('\u{258B}')
    &&& !s.contains('\u{2502}')
}

/// A cleaned input value holds no cursor glyph, has nothing left to trim,
/// and cleaning it again changes nothing.
pub proof fn law_strip_cursor_clean(s: Seq<char>)
    ensures
        no_cursor_glyph(strip_cursor(s)),
        trim(strip_cursor(s)) == strip_cursor(s),
        strip_cursor(strip_cursor(s)) == strip_cursor(s),
{
    let s1 = remove_char(s, '\u{2588}');
    let s2 = remove_char(s1, '\u{2589}');
    let s3 = remove_char(s2, '\u{258A}');
    let s4 = remove_char(s3, '\u{258B}');
    let s5 = remove_char(s4, '\u{2502}');
    lemma_remove_char(s, '\u{2588}');
    lemma_remove_char(s1, '\u{2589}');
    lemma_remove_char(s2, '\u{258A}');
    lemma_remove_char(s3, '\u{258B}');
    lemma_remove_char(s4, '\u{2502}');
    lemma_trim(s5);
    let r = strip_cursor(s);
    assert(r == trim(s5));
    assert forall|i: int| 0 <= i < r.len() implies no_glyph_char(#[trigger] r[i]) by {
        let c = r[i];
        // Each removal keeps only characters of the text before it.
        assert(s5.contains(c));
        let j5 = choose|j: int| 0 <= j < s5.len() && s5[j] == c;
        let j4 = choose|j: int| 0 <= j < s4.len() && s4[j] == c;
        let j3 = choose|j: int| 0 <= j < s3.len() && s3[j] == c;
        let j2 = choose|j: int| 0 <= j < s2.len() && s2[j] == c;
        let j1 = choose|j: int| 0 <= j < s1.len() && s1[j] == c;
    }
    assert(no_cursor_glyph(r)) by {
        if !no_cursor_glyph(r) {
            let j = choose|j: int| 0 <= j < r.len() && !no_glyph_char(r[j]);
            assert(no_glyph_char(r[j]));
        }
    }
    lemma_remove_absent(r, '\u{2588}');
    lemma_remove_absent(r, '\u{2589}');
    lemma_remove_absent(r, '\u{258A}');
    lemma_remove_absent(r, '\u{258B}');
    lemma_remove_absent(r, '\u{2502}');
}

/// A character that is not a cursor glyph.
pub open spec fn no_glyph_char(c: char) -> bool {
    c != '\u{2588}' && c != '\u{2589}' && c != '\u{258A}' && c != '\u{258B}' && c != '\u{2502}'
}

/// The prompt whose body starts at line `start`, for a question `q`.
/// `with_value` asks for the current value of an input prompt.
pub open spec fn body_prompt(
    ts: Seq<Seq<char>>,
    q: Seq<char>,
    start: int,
    cr: int,
    with_value: bool,
) -> PromptView {
    let stop = stop_at(ts, start);
    let es = body_entries(ts, start, stop);
    let err = body_error(ts, start, stop);
    let m = options_of(es, true);
    let r = options_of(es, false);
    if m.len() >= 2 {
        PromptView {
            kind: "multiselect"@,
            question: q,
            options: option_texts(m),
            selected: multi_selected(m, cr),
            checked: on_indices(m),
            error: err,
            current_value: None,
        }
    } else if es.len() == 1 && is_confirm_line(es[0].1) {
        PromptView {
            kind: "confirm"@,
            question: q,
            options: seq!["Yes"@, "No"@],
            selected: if has_sub(es[0].1, "● Yes"@) || has_sub(es[0].1, "● yes"@) {
                0
            } else {
                1
            },
            checked: seq![],
            error: err,
            current_value: None,
        }
    } else if r.len() >= 2 {
        PromptView {
            kind: "select"@,
            question: q,
            options: option_texts(r),
            selected: radio_selected(r, cr, r.len() as int),
            checked: seq![],
            error: err,
            current_value: None,
        }
    } else if exists|i: int| 0 <= i < es.len() && (#[trigger] es[i]).1.contains('▪') {
        PromptView {
            kind: "password"@,
            question: q,
            options: seq![],
            selected: 0,
            checked: seq![],
            error: err,
            current_value: None,
        }
    } else {
        PromptView {
            kind: "input"@,
            question: q,
            options: seq![],
            selected: 0,
            checked: seq![],
            error: err,
            current_value: if with_value && es.len() > 0 && strip_cursor(es[0].1).len() > 0 {
                Some(strip_cursor(es[0].1))
            } else {
                None
            },
        }
    }
}

} // verus!

verus! {

// ─── Executable scanning ────────────────────────────────────────────────────

/// The screen's lines, each trimmed.
pub fn screen_lines(screen: &str) -> (ts: Vec<Vec<char>>)
    ensures
        views(ts@) == trimmed_lines(screen@),
{
    let cs = to_chars(screen);
    let ls = lines_of(&cs);
    let mut ts: Vec<Vec<char>> = Vec::new();
    let mut i: usize = 0;
    while i < ls.len()
        invariant
            i <= ls@.len(),
            views(ls@) == lines(screen@),
            ts@.len() == i,
            forall|j: int| 0 <= j < i ==> (#[trigger] ts@[j])@ == trim(ls@[j]@),
        decreases ls@.len() - i,
    {
        let t = trim_chars(&ls[i]);
        ts.push(t);
        i = i + 1;
    }
    proof {
        assert forall|j: int| 0 <= j < ts@.len() implies #[trigger] views(ts@)[j]
            == trimmed_lines(screen@)[j] by {
            assert(lines(screen@)[j] == ls@[j]@);
        }
        assert(views(ts@) =~= trimmed_lines(screen@));
    }
    ts
}

pub fn any_start_exec(ts: &Vec<Vec<char>>, c: char) -> (r: bool)
    ensures
        r == any_start(views(ts@), c),
{
    let mut i: usize = 0;
    while i < ts.len()
        invariant
            i <= ts@.len(),
            forall|j: int| 0 <= j < i ==> !starts_with_char(#[trigger] views(ts@)[j], c),
        decreases ts@.len() - i,
    {
        if first_is(&ts[i], c) {
            assert(starts_with_char(views(ts@)[i as int], c));
            return true;
        }
        i = i + 1;
    }
    false
}

pub fn any_contains_exec(ts: &Vec<Vec<char>>, c: char) -> (r: bool)
    ensures
        r == any_contains(views(ts@), c),
{
    let mut i: usize = 0;
    while i < ts.len()
        invariant
            i <= ts@.len(),
            forall|j: int| 0 <= j < i ==> !(#[trigger] views(ts@)[j]).contains(c),
        decreases ts@.len() - i,
    {
        if contains_char(&ts[i], c) {
            assert(views(ts@)[i as int].contains(c));
            return true;
        }
        i = i + 1;
    }
    false
}

pub fn after_mark_exec(t: &Vec<char>, c: char) -> (r: Vec<char>)
    ensures
        r@ == after_mark(t@, c),
{
    let s = strip_lead_exec(t, c);
    trim_chars(&s)
}

pub fn outro_text_exec(ts: &Vec<Vec<char>>) -> (r: Vec<char>)
    ensures
        r@ == outro_text(views(ts@)),
{
    let mut pieces: Vec<Vec<char>> = Vec::new();
    let mut i: usize = 0;
    while i < ts.len()
        invariant
            i <= ts@.len(),
            views(pieces@) == outro_pieces(views(ts@).take(i as int)),
        decreases ts@.len() - i,
    {
        proof {
            assert(views(ts@).take(i + 1).drop_last() =~= views(ts@).take(i as int));
        }
        if first_is(&ts[i], '└') {
            let p = after_mark_exec(&ts[i], '└');
            let ghost prev = pieces@;
            pieces.push(p);
            assert(views(pieces@) =~= views(prev).push(p@));
        }
        i = i + 1;
    }
    assert(views(ts@).take(ts@.len() as int) =~= views(ts@));
    let sep = vec![' '];
    assert(sep@ =~= seq![' ']);
    let t = join_exec(&pieces, &sep);
    if t.len() == 0 {
        to_chars("完成")
    } else {
        t
    }
}

pub fn last_start_exec(ts: &Vec<Vec<char>>, c: char) -> (r: Option<usize>)
    ensures
        r matches Some(k) ==> last_start(views(ts@), c) == Some(k as int) && k < ts@.len(),
        r is None ==> last_start(views(ts@), c) is None,
{
    let mut i: usize = ts.len();
    assert(views(ts@).take(i as int) =~= views(ts@));
    while i > 0
        invariant
            i <= ts@.len(),
            last_start(views(ts@), c) == last_start(views(ts@).take(i as int), c),
        decreases i,
    {
        proof {
            assert(views(ts@).take(i as int).drop_last() =~= views(ts@).take(i - 1));
        }
        if first_is(&ts[i - 1], c) {
            return Some(i - 1);
        }
        i = i - 1;
    }
    None
}

pub fn stop_at_exec(ts: &Vec<Vec<char>>, start: usize) -> (r: usize)
    requires
        start <= ts@.len(),
    ensures
        r as int == stop_at(views(ts@), start as int),
        start <= r <= ts@.len(),
{
    let mut i = start;
    while i < ts.len()
        invariant
            start <= i <= ts@.len(),
            stop_at(views(ts@), start as int) == stop_at(views(ts@), i as int),
        decreases ts@.len() - i,
    {
        let t = &ts[i];
        if (first_is(t, '└') || first_is(t, '◆') || first_is(t, '◇')) && !first_is(t, '│') {
            return i;
        }
        i = i + 1;
    }
    i
}

} // verus!

verus! {

pub open spec fn eviews(es: Seq<(usize, Vec<char>)>) -> Seq<(int, Seq<char>)> {
    es.map_values(|e: (usize, Vec<char>)| (e.0 as int, e.1@))
}

pub open spec fn oviews(m: Seq<(usize, bool, Vec<char>)>) -> Seq<(int, bool, Seq<char>)> {
    m.map_values(|o: (usize, bool, Vec<char>)| (o.0 as int, o.1, o.2@))
}

pub fn is_error_text_exec(c: &Vec<char>) -> (r: bool)
    ensures
        r == is_error_text(c@),
{
    let s = from_chars(c);
    let low = to_lowercase(s.as_str());
    let lc = to_chars(low.as_str());
    contains_seq(&lc, &to_chars("please select")) || contains_seq(&lc, &to_chars("required"))
}

/// The body of a prompt: its entries and its last error report.
pub fn scan_body(ts: &Vec<Vec<char>>, start: usize, stop: usize) -> (r: (
    Vec<(usize, Vec<char>)>,
    Option<Vec<char>>,
))
    requires
        start <= stop <= ts@.len(),
    ensures
        eviews(r.0@) == body_entries(views(ts@), start as int, stop as int),
        r.1 matches Some(e) ==> body_error(views(ts@), start as int, stop as int) == Some(e@),
        r.1 is None ==> body_error(views(ts@), start as int, stop as int) is None,
        forall|j: int| 0 <= j < r.0@.len() ==> (#[trigger] r.0@[j]).0 < stop,
{
    let mut es: Vec<(usize, Vec<char>)> = Vec::new();
    let mut err: Option<Vec<char>> = None;
    let mut i = start;
    while i < stop
        invariant
            start <= i <= stop <= ts@.len(),
            eviews(es@) == body_entries(views(ts@), start as int, i as int),
            err matches Some(e) ==> body_error(views(ts@), start as int, i as int) == Some(e@),
            err is None ==> body_error(views(ts@), start as int, i as int) is None,
            forall|j: int| 0 <= j < es@.len() ==> (#[trigger] es@[j]).0 < i,
        decreases stop - i,
    {
        let t = &ts[i];
        if first_is(t, '│') {
            let content = after_mark_exec(t, '│');
            if is_error_text_exec(&content) {
                err = Some(content);
            } else {
                let ghost prev = es@;
                es.push((i, content));
                assert(eviews(es@) =~= eviews(prev).push((i as int, content@)));
            }
        }
        i = i + 1;
    }
    (es, err)
}

pub fn is_marked_exec(c: &Vec<char>, multi: bool) -> (r: bool)
    ensures
        r == is_marked(c@, multi),
{
    if multi {
        contains_char(c, '◻') || contains_char(c, '◼') || contains_char(c, '☐') || contains_char(
            c,
            '☑',
        )
    } else {
        contains_char(c, '●') || contains_char(c, '○')
    }
}

pub fn is_on_exec(c: &Vec<char>, multi: bool) -> (r: bool)
    ensures
        r == is_on(c@, multi),
{
    if multi {
        contains_char(c, '◼') || contains_char(c, '☑')
    } else {
        contains_char(c, '●')
    }
}

pub fn option_text_exec(c: &Vec<char>, multi: bool) -> (r: Vec<char>)
    ensures
        r@ == option_text(c@, multi),
{
    if multi {
        let a = remove_char_exec(c, '◻');
        let b = remove_char_exec(&a, '◼');
        let d = remove_char_exec(&b, '☐');
        let e = remove_char_exec(&d, '☑');
        trim_chars(&e)
    } else {
        let a = remove_char_exec(c, '●');
        let b = remove_char_exec(&a, '○');
        trim_chars(&b)
    }
}

/// The option lines among the body entries.
pub fn options_exec(es: &Vec<(usize, Vec<char>)>, multi: bool) -> (m: Vec<(usize, bool, Vec<char>)>)
    ensures
        oviews(m@) == options_of(eviews(es@), multi),
        forall|j: int|
            0 <= j < m@.len() ==> exists|k: int| 0 <= k < es@.len() && (#[trigger] m@[j]).0 == (
            #[trigger] es@[k]).0,
{
    let mut m: Vec<(usize, bool, Vec<char>)> = Vec::new();
    let mut i: usize = 0;
    while i < es.len()
        invariant
            i <= es@.len(),
            oviews(m@) == options_of(eviews(es@).take(i as int), multi),
            forall|j: int|
                0 <= j < m@.len() ==> exists|k: int| 0 <= k < es@.len() && (#[trigger] m@[j]).0 == (
                #[trigger] es@[k]).0,
        decreases es@.len() - i,
    {
        proof {
            assert(eviews(es@).take(i + 1).drop_last() =~= eviews(es@).take(i as int));
        }
        let e = &es[i];
        if is_marked_exec(&e.1, multi) {
            let text = option_text_exec(&e.1, multi);
            if text.len() > 0 {
                let on = is_on_exec(&e.1, multi);
                let ghost prev = m@;
                m.push((e.0, on, text));
                assert(oviews(m@) =~= oviews(prev).push((e.0 as int, on, text@)));
                assert(m@[m@.len() - 1].0 == es@[i as int].0);
            }
        }
        i = i + 1;
    }
    assert(eviews(es@).take(es@.len() as int) =~= eviews(es@));
    m
}

pub fn option_strings(m: &Vec<(usize, bool, Vec<char>)>) -> (r: Vec<String>)
    ensures
        sviews(r@) == option_texts(oviews(m@)),
{
    let mut r: Vec<String> = Vec::new();
    let mut i: usize = 0;
    while i < m.len()
        invariant
            i <= m@.len(),
            sviews(r@) == option_texts(oviews(m@)).take(i as int),
        decreases m@.len() - i,
    {
        let s = from_chars(&m[i].2);
        let ghost prev = r@;
        r.push(s);
        proof {
            assert(sviews(r@) =~= sviews(prev).push(s@));
            assert(option_texts(oviews(m@)).take(i + 1) =~= option_texts(oviews(m@)).take(
                i as int,
            ).push(m@[i as int].2@));
        }
        i = i + 1;
    }
    assert(option_texts(oviews(m@)).take(m@.len() as int) =~= option_texts(oviews(m@)));
    r
}

pub fn on_indices_exec(m: &Vec<(usize, bool, Vec<char>)>) -> (r: Vec<usize>)
    ensures
        iviews(r@) == on_indices(oviews(m@)),
{
    let mut r: Vec<usize> = Vec::new();
    let mut i: usize = 0;
    while i < m.len()
        invariant
            i <= m@.len(),
            iviews(r@) == on_indices(oviews(m@).take(i as int)),
        decreases m@.len() - i,
    {
        proof {
            assert(oviews(m@).take(i + 1).drop_last() =~= oviews(m@).take(i as int));
        }
        if m[i].1 {
            let ghost prev = r@;
            r.push(i);
            assert(iviews(r@) =~= iviews(prev).push(
                i as int,
            ));
        }
        i = i + 1;
    }
    assert(oviews(m@).take(m@.len() as int) =~= oviews(m@));
    r
}

} // verus!

verus! {

pub fn multi_selected_exec(m: &Vec<(usize, bool, Vec<char>)>, cr: u16) -> (r: usize)
    ensures
        r as int == multi_selected(oviews(m@), cr as int),
{
    let ghost ov = oviews(m@);
    let c = cr as usize;
    let mut selected: usize = 0;
    let mut i: usize = 0;
    while i < m.len()
        invariant
            i <= m@.len(),
            ov == oviews(m@),
            c == cr,
            selected as int == cursor_option(ov, c as int, i as int),
        decreases m@.len() - i,
    {
        if m[i].0 == c {
            selected = i;
        }
        i = i + 1;
    }
    if selected == 0 && c > 0 {
        let mut min_dist: usize = usize::MAX;
        let mut k: usize = 0;
        while k < m.len()
            invariant
                k <= m@.len(),
                ov == oviews(m@),
                c == cr,
                (selected as int, min_dist as int) == nearest_option(ov, c as int, k as int),
            decreases m@.len() - k,
        {
            let row = m[k].0;
            let d = if row >= c {
                row - c
            } else {
                c - row
            };
            if d < min_dist {
                min_dist = d;
                selected = k;
            }
            k = k + 1;
        }
    }
    selected
}

pub fn radio_selected_exec(m: &Vec<(usize, bool, Vec<char>)>, cr: u16) -> (r: usize)
    ensures
        r as int == radio_selected(oviews(m@), cr as int, m@.len() as int),
{
    let ghost ov = oviews(m@);
    let c = cr as usize;
    let mut selected: usize = 0;
    let mut i: usize = 0;
    while i < m.len()
        invariant
            i <= m@.len(),
            ov == oviews(m@),
            c == cr,
            selected as int == radio_selected(ov, c as int, i as int),
        decreases m@.len() - i,
    {
        if m[i].0 == c {
            selected = i;
        } else if m[i].1 && selected == 0 {
            selected = i;
        }
        i = i + 1;
    }
    selected
}

pub fn is_confirm_line_exec(l: &Vec<char>) -> (r: bool)
    ensures
        r == is_confirm_line(l@),
{
    (contains_seq(l, &to_chars("Yes")) || contains_seq(l, &to_chars("yes"))) && (contains_seq(
        l,
        &to_chars("No"),
    ) || contains_seq(l, &to_chars("no"))) && (contains_char(l, '○') || contains_char(l, '●'))
}

pub fn strip_cursor_exec(s: &Vec<char>) -> (r: Vec<char>)
    ensures
        r@ == strip_cursor(s@),
{
    let a = remove_char_exec(s, '\u{2588}');
    let b = remove_char_exec(&a, '\u{2589}');
    let c = remove_char_exec(&b, '\u{258A}');
    let d = remove_char_exec(&c, '\u{258B}');
    let e = remove_char_exec(&d, '\u{2502}');
    trim_chars(&e)
}

pub fn any_entry_contains(es: &Vec<(usize, Vec<char>)>, c: char) -> (r: bool)
    ensures
        r == exists|i: int| 0 <= i < eviews(es@).len() && (#[trigger] eviews(es@)[i]).1.contains(c),
{
    let mut i: usize = 0;
    while i < es.len()
        invariant
            i <= es@.len(),
            forall|j: int| 0 <= j < i ==> !(#[trigger] eviews(es@)[j]).1.contains(c),
        decreases es@.len() - i,
    {
        if contains_char(&es[i].1, c) {
            assert(eviews(es@)[i as int].1.contains(c));
            return true;
        }
        i = i + 1;
    }
    false
}

} // verus!

verus! {

fn no_indices() -> (r: Vec<usize>)
    ensures
        iviews(r@) == Seq::<int>::empty(),
        r@.len() == 0,
{
    let r: Vec<usize> = Vec::new();
    assert(iviews(r@) =~= Seq::<int>::empty());
    r
}

fn no_strings() -> (r: Vec<String>)
    ensures
        sviews(r@) == Seq::<Seq<char>>::empty(),
{
    let r: Vec<String> = Vec::new();
    assert(sviews(r@) =~= Seq::<Seq<char>>::empty());
    r
}

/// The prompt whose body starts at line `start`.
pub fn body_prompt_exec(
    ts: &Vec<Vec<char>>,
    q: Vec<char>,
    start: usize,
    cr: u16,
    with_value: bool,
) -> (r: WizardPrompt)
    requires
        start <= ts@.len(),
    ensures
        r@ == body_prompt(views(ts@), q@, start as int, cr as int, with_value),
{
    let stop = stop_at_exec(ts, start);
    let (es, err) = scan_body(ts, start, stop);
    let ghost ev = eviews(es@);
    let error = match err {
        Some(e) => Some(from_chars(&e)),
        None => None,
    };
    let question = from_chars(&q);
    let m = options_exec(&es, true);
    if m.len() >= 2 {
        let options = option_strings(&m);
        let selected = multi_selected_exec(&m, cr);
        let checked = on_indices_exec(&m);
        return WizardPrompt {
            prompt_type: owned("multiselect"),
            question,
            options,
            selected,
            checked,
            error,
            current_value: None,
        };
    }
    if es.len() == 1 && is_confirm_line_exec(&es[0].1) {
        let l = &es[0].1;
        let selected: usize = if contains_seq(l, &to_chars("● Yes")) || contains_seq(
            l,
            &to_chars("● yes"),
        ) {
            0
        } else {
            1
        };
        let mut options: Vec<String> = Vec::new();
        options.push(owned("Yes"));
        options.push(owned("No"));
        proof {
            assert(sviews(options@) =~= seq!["Yes"@, "No"@]);
            assert(ev[0].1 == l@);
        }
        return WizardPrompt {
            prompt_type: owned("confirm"),
            question,
            options,
            selected,
            checked: no_indices(),
            error,
            current_value: None,
        };
    }
    let radio = options_exec(&es, false);
    if radio.len() >= 2 {
        let options = option_strings(&radio);
        let selected = radio_selected_exec(&radio, cr);
        return WizardPrompt {
            prompt_type: owned("select"),
            question,
            options,
            selected,
            checked: no_indices(),
            error,
            current_value: None,
        };
    }
    if any_entry_contains(&es, '▪') {
        return WizardPrompt {
            prompt_type: owned("password"),
            question,
            options: no_strings(),
            selected: 0,
            checked: no_indices(),
            error,
            current_value: None,
        };
    }
    let current_value = if with_value && es.len() > 0 {
        let v = strip_cursor_exec(&es[0].1);
        assert(ev[0].1 == es@[0].1@);
        if v.len() > 0 {
            Some(from_chars(&v))
        } else {
            None
        }
    } else {
        None
    };
    WizardPrompt {
        prompt_type: owned("input"),
        question,
        options: no_strings(),
        selected: 0,
        checked: no_indices(),
        error,
        current_value,
    }
}

} // verus!

verus! {

// ─── Rendering the terminal ─────────────────────────────────────────────────

/// What a fresh `vt100::Parser` of `rows` × `cols` (no scrollback) shows after
/// processing `bytes`: the screen's text contents and the cursor's row.
pub uninterp spec fn vt_screen(bytes: Seq<u8>, rows: u16, cols: u16) -> (Seq<char>, u16);

/// Renders a byte stream with `vt100`: `Parser::new(rows, cols, 0)`, then
/// `process(bytes)`; returns `screen().contents()` and the row of
/// `screen().cursor_position()`.  The parser consumes its input one byte at a
/// time, so the result depends on the whole stream and on nothing else.
/// Only the wizards' fixed terminal is admitted: on a grid of one column
/// `vt100` subtracts a double-width character's width from the column count
/// and overflows, so narrow grids are left out.
#[verifier::external_body]
pub(crate) fn render_screen(bytes: &[u8], rows: u16, cols: u16) -> (r: (String, u16))
    requires
        rows == crate::agents::SCREEN_ROWS,
        cols == crate::agents::SCREEN_COLS,
    ensures
        (r.0@, r.1) == vt_screen(bytes@, rows, cols),
{
    let mut parser = vt100::Parser::new(rows, cols, 0);
    parser.process(bytes);
    let screen = parser.screen();
    (screen.contents(), screen.cursor_position().0)
}

// ─── Telling prompts apart ──────────────────────────────────────────────────

/// What `format!("{:?}", s)` gives for a string: `s` in double quotes with
/// `char::escape_debug` applied to its characters.
pub uninterp spec fn debug_quoted(s: Seq<char>) -> Seq<char>;

/// `format!("{:?}", s)` for a `&str`.
#[verifier::external_body]
pub(crate) fn debug_str(s: &str) -> (r: String)
    ensures
        r@ == debug_quoted(s@),
{
    format!("{:?}", s)
}

pub open spec fn comma() -> Seq<char> {
    seq![',', ' ']
}

/// `{:?}` of a `Vec<String>`.
pub open spec fn list_debug(xs: Seq<Seq<char>>) -> Seq<char> {
    seq!['['] + join(xs.map_values(|x: Seq<char>| debug_quoted(x)), comma()) + seq![']']
}

/// `{:?}` of a `Vec<usize>`.
pub open spec fn index_list_debug(xs: Seq<int>) -> Seq<char> {
    seq!['['] + join(xs.map_values(|x: int| dec(x as nat)), comma()) + seq![']']
}

/// `{:?}` of an `Option<String>`.
pub open spec fn option_debug(e: Option<Seq<char>>) -> Seq<char> {
    match e {
        None => "None"@,
        Some(s) => "Some("@ + debug_quoted(s) + seq![')'],
    }
}

/// The key that tells two prompts apart:
/// `"{type}:{question}:{options:?}:{selected}:{checked:?}:{error:?}"`.
pub open spec fn prompt_key(p: PromptView) -> Seq<char> {
    p.kind + seq![':'] + p.question + seq![':'] + list_debug(p.options) + seq![':'] + dec(
        p.selected as nat,
    ) + seq![':'] + index_list_debug(p.checked) + seq![':'] + option_debug(p.error)
}

fn wrap(open: char, body: &Vec<char>, close: char) -> (r: Vec<char>)
    ensures
        r@ == seq![open] + body@ + seq![close],
{
    let mut a: Vec<char> = Vec::new();
    a.push(open);
    let mut r = concat(&a, body);
    r.push(close);
    assert(a@ =~= seq![open]);
    r
}

pub fn list_debug_exec(xs: &Vec<String>) -> (r: Vec<char>)
    ensures
        r@ == list_debug(sviews(xs@)),
{
    let mut parts: Vec<Vec<char>> = Vec::new();
    let mut i: usize = 0;
    while i < xs.len()
        invariant
            i <= xs@.len(),
            views(parts@) == sviews(xs@).take(i as int).map_values(|x: Seq<char>| debug_quoted(x)),
        decreases xs@.len() - i,
    {
        let d = debug_str(xs[i].as_str());
        let ghost prev = parts@;
        parts.push(to_chars(d.as_str()));
        proof {
            assert(views(parts@) =~= views(prev).push(debug_quoted(xs@[i as int]@)));
            assert(sviews(xs@).take(i + 1).map_values(|x: Seq<char>| debug_quoted(x))
                =~= sviews(xs@).take(i as int).map_values(|x: Seq<char>| debug_quoted(x)).push(
                debug_quoted(xs@[i as int]@),
            ));
        }
        i = i + 1;
    }
    assert(sviews(xs@).take(xs@.len() as int) =~= sviews(xs@));
    let sep = vec![',', ' '];
    assert(sep@ =~= comma());
    wrap('[', &join_exec(&parts, &sep), ']')
}

pub fn index_list_debug_exec(xs: &Vec<usize>) -> (r: Vec<char>)
    ensures
        r@ == index_list_debug(iviews(xs@)),
{
    let mut parts: Vec<Vec<char>> = Vec::new();
    let mut i: usize = 0;
    while i < xs.len()
        invariant
            i <= xs@.len(),
            views(parts@) == iviews(xs@).take(i as int).map_values(|x: int| dec(x as nat)),
        decreases xs@.len() - i,
    {
        let d = dec_u64(xs[i] as u64);
        let ghost prev = parts@;
        parts.push(d);
        proof {
            assert(views(parts@) =~= views(prev).push(dec(xs@[i as int] as nat)));
            assert(iviews(xs@).take(i + 1).map_values(|x: int| dec(x as nat)) =~= iviews(
                xs@,
            ).take(i as int).map_values(|x: int| dec(x as nat)).push(dec(xs@[i as int] as nat)));
        }
        i = i + 1;
    }
    assert(iviews(xs@).take(xs@.len() as int) =~= iviews(xs@));
    let sep = vec![',', ' '];
    assert(sep@ =~= comma());
    wrap('[', &join_exec(&parts, &sep), ']')
}

pub fn option_debug_exec(e: &Option<String>) -> (r: Vec<char>)
    ensures
        r@ == option_debug(opt_view(*e)),
{
    match e {
        None => to_chars("None"),
        Some(s) => {
            let d = to_chars(debug_str(s.as_str()).as_str());
            let mut r = concat(&to_chars("Some("), &d);
            r.push(')');
            r
        },
    }
}

/// The key of a prompt, from its parts.
pub fn prompt_key_exec(p: &WizardPrompt) -> (r: String)
    ensures
        r@ == prompt_key(p@),
{
    let mut k = to_chars(p.prompt_type.as_str());
    k.push(':');
    k = concat(&k, &to_chars(p.question.as_str()));
    k.push(':');
    k = concat(&k, &list_debug_exec(&p.options));
    k.push(':');
    k = concat(&k, &dec_u64(p.selected as u64));
    k.push(':');
    k = concat(&k, &index_list_debug_exec(&p.checked));
    k.push(':');
    k = concat(&k, &option_debug_exec(&p.error));
    from_chars(&k)
}

/// Remembers the key of the last prompt shown, so that a screen redrawn with
/// the same prompt is not reported twice.
pub struct PromptTracker {
    pub last: Option<String>,
}

/// A prompt is reported when its key differs from the last one reported.
pub open spec fn reports(last: Option<Seq<char>>, p: PromptView) -> bool {
    last != Some(prompt_key(p))
}

impl PromptTracker {
    pub fn new() -> (r: Self)
        ensures
            r.last is None,
    {
        PromptTracker { last: None }
    }

    /// Whether `p` is to be reported; the tracker then remembers `p`.
    pub fn observe(&mut self, p: &WizardPrompt) -> (r: bool)
        ensures
            r == reports(opt_view(old(self).last), p@),
            opt_view(final(self).last) == Some(prompt_key(p@)),
    {
        let key = prompt_key_exec(p);
        let differs = match &self.last {
            Some(k) => !same_chars(&to_chars(k.as_str()), &to_chars(key.as_str())),
            None => true,
        };
        self.last = Some(key);
        differs
    }
}

/// A prompt just reported is not reported again while the screen keeps
/// showing it.
pub proof fn law_prompt_reported_once(p: PromptView)
    ensures
        !reports(Some(prompt_key(p)), p),
{
}

} // verus!
