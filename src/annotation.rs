//! Flattening of ruby markup: wrapper tags are dropped and each reading
//! segment is either deleted or rendered inline in the reading style.

use vstd::prelude::*;
use crate::style::{reading_on, reading_off, reading_on_str, reading_off_str};
use crate::text::{chars_of, string_of};

verus! {

pub open spec fn ruby_open() -> Seq<char> {
    "<ruby>"@
}

pub open spec fn ruby_close() -> Seq<char> {
    "</ruby>"@
}

pub open spec fn rt_open() -> Seq<char> {
    "<rt>"@
}

pub open spec fn rt_close() -> Seq<char> {
    "</rt>"@
}

pub open spec fn starts_with(s: Seq<char>, p: Seq<char>) -> bool {
    p.len() <= s.len() && s.take(p.len() as int) == p
}

/// `s` with every occurrence of `pat` deleted, found left to right without
/// overlap.
pub open spec fn removed(s: Seq<char>, pat: Seq<char>) -> Seq<char>
    decreases s.len(),
{
    if s.len() == 0 {
        s
    } else if pat.len() > 0 && starts_with(s, pat) {
        removed(s.skip(pat.len() as int), pat)
    } else {
        seq![s[0]] + removed(s.skip(1), pat)
    }
}

/// Where `t` is a reading followed by a closing `</rt>`, the length of that
/// reading (the nearest closing tag wins).
pub open spec fn reading_len(t: Seq<char>) -> Option<nat>
    decreases t.len(),
{
    if starts_with(t, rt_close()) {
        Some(0)
    } else if t.len() == 0 {
        None
    } else {
        shifted(reading_len(t.skip(1)), 1)
    }
}

pub open spec fn shifted(o: Option<nat>, d: nat) -> Option<nat> {
    match o {
        Some(n) => Some(n + d),
        None => None,
    }
}

/// What a reading segment becomes: the reading in the reading style, or
/// nothing.
pub open spec fn rendered_reading(reading: Seq<char>, furigana: bool) -> Seq<char> {
    if furigana {
        reading_on() + reading + reading_off()
    } else {
        Seq::empty()
    }
}

pub proof fn lemma_reading_len_bound(t: Seq<char>)
    requires
        reading_len(t) is Some,
    ensures
        reading_len(t)->0 + rt_close().len() <= t.len(),
    decreases t.len(),
{
    if !starts_with(t, rt_close()) {
        lemma_reading_len_bound(t.skip(1));
    }
}

/// `s` with each well-formed reading segment `<rt>R</rt>` replaced by
/// `rendered_reading(R, furigana)`, scanning left to right; an opening tag
/// without a closing tag stays as it is.
pub open spec fn readings_rendered(s: Seq<char>, furigana: bool) -> Seq<char>
    decreases s.len(),
{
    if s.len() == 0 {
        s
    } else if starts_with(s, rt_open()) && reading_len(s.skip(rt_open().len() as int)) is Some {
        let k = rt_open().len() as int;
        let n = reading_len(s.skip(k))->0;
        proof {
            reveal_strlit("<rt>");
            lemma_reading_len_bound(s.skip(k));
        }
        rendered_reading(s.subrange(k, k + n), furigana) + readings_rendered(
            s.skip(k + n + rt_close().len()),
            furigana,
        )
    } else {
        seq![s[0]] + readings_rendered(s.skip(1), furigana)
    }
}

/// The display text of one raw field.
pub open spec fn normalized(s: Seq<char>, furigana: bool) -> Seq<char> {
    readings_rendered(removed(removed(s, ruby_open()), ruby_close()), furigana)
}

/// Whether `p` occurs somewhere in `s`.
pub open spec fn occurs_in(s: Seq<char>, p: Seq<char>) -> bool {
    exists|i: int| 0 <= i <= s.len() && #[trigger] starts_with(s.skip(i), p)
}

/// Whether `s` holds no `<`.
pub open spec fn free_of_tags(s: Seq<char>) -> bool {
    forall|i: int| 0 <= i < s.len() ==> #[trigger] s[i] != '<'
}

proof fn lemma_absent_in_tail(s: Seq<char>, p: Seq<char>)
    requires
        s.len() > 0,
        !occurs_in(s, p),
    ensures
        !starts_with(s, p),
        !occurs_in(s.skip(1), p),
{
    assert(s.skip(0) =~= s);
    assert(starts_with(s.skip(0), p) == starts_with(s, p));
    if occurs_in(s.skip(1), p) {
        let i = choose|i: int| 0 <= i <= s.skip(1).len() && #[trigger] starts_with(s.skip(1).skip(i), p);
        assert(s.skip(1).skip(i) =~= s.skip(i + 1));
        assert(starts_with(s.skip(i + 1), p));
    }
}

proof fn lemma_removed_absent(s: Seq<char>, pat: Seq<char>)
    requires
        !occurs_in(s, pat),
    ensures
        removed(s, pat) == s,
    decreases s.len(),
{
    if s.len() > 0 {
        lemma_absent_in_tail(s, pat);
        lemma_removed_absent(s.skip(1), pat);
        assert(seq![s[0]] + s.skip(1) =~= s);
    }
}

proof fn lemma_readings_absent(s: Seq<char>, furigana: bool)
    requires
        !occurs_in(s, rt_open()),
    ensures
        readings_rendered(s, furigana) == s,
    decreases s.len(),
{
    if s.len() > 0 {
        lemma_absent_in_tail(s, rt_open());
        lemma_readings_absent(s.skip(1), furigana);
        assert(seq![s[0]] + s.skip(1) =~= s);
    }
}

/// Text that holds no ruby tag and no reading tag is left unchanged by
/// normalisation, with or without furigana.
pub proof fn lemma_normalize_plain_text(s: Seq<char>, furigana: bool)
    requires
        !occurs_in(s, ruby_open()),
        !occurs_in(s, ruby_close()),
        !occurs_in(s, rt_open()),
    ensures
        normalized(s, furigana) == s,
{
    lemma_removed_absent(s, ruby_open());
    lemma_removed_absent(s, ruby_close());
    lemma_readings_absent(s, furigana);
}

proof fn lemma_removed_plain_prefix(a: Seq<char>, b: Seq<char>, pat: Seq<char>)
    requires
        free_of_tags(a),
        pat.len() > 0,
        pat[0] == '<',
    ensures
        removed(a + b, pat) == a + removed(b, pat),
    decreases a.len(),
{
    let s = a + b;
    if a.len() == 0 {
        assert(s =~= b);
        assert(a + removed(b, pat) =~= removed(b, pat));
    } else {
        assert(s[0] == a[0]);
        if pat.len() <= s.len() {
            assert(s.take(pat.len() as int)[0] != pat[0]);
        }
        assert(s.skip(1) =~= a.skip(1) + b);
        lemma_removed_plain_prefix(a.skip(1), b, pat);
        assert(seq![a[0]] + (a.skip(1) + removed(b, pat)) =~= a + removed(b, pat));
    }
}

proof fn lemma_removed_match(x: Seq<char>, pat: Seq<char>)
    requires
        pat.len() > 0,
    ensures
        removed(pat + x, pat) == removed(x, pat),
{
    let s = pat + x;
    assert(s.take(pat.len() as int) =~= pat);
    assert(s.skip(pat.len() as int) =~= x);
}

proof fn lemma_removed_mismatch(m: Seq<char>, x: Seq<char>, pat: Seq<char>, k: int)
    requires
        0 <= k < m.len(),
        k < pat.len(),
        m[k] != pat[k],
        pat[0] == '<',
        free_of_tags(m.skip(1)),
    ensures
        removed(m + x, pat) == m + removed(x, pat),
{
    let s = m + x;
    if pat.len() <= s.len() {
        assert(s.take(pat.len() as int)[k] != pat[k]);
    }
    assert(s.skip(1) =~= m.skip(1) + x);
    lemma_removed_plain_prefix(m.skip(1), x, pat);
    assert(seq![m[0]] + (m.skip(1) + removed(x, pat)) =~= m + removed(x, pat));
}

proof fn lemma_readings_plain_prefix(a: Seq<char>, b: Seq<char>, furigana: bool)
    requires
        free_of_tags(a),
    ensures
        readings_rendered(a + b, furigana) == a + readings_rendered(b, furigana),
    decreases a.len(),
{
    reveal_strlit("<rt>");
    let s = a + b;
    if a.len() == 0 {
        assert(s =~= b);
        assert(a + readings_rendered(b, furigana) =~= readings_rendered(b, furigana));
    } else {
        assert(s[0] == a[0]);
        if 4 <= s.len() {
            assert(s.take(4)[0] != rt_open()[0]);
        }
        assert(s.skip(1) =~= a.skip(1) + b);
        lemma_readings_plain_prefix(a.skip(1), b, furigana);
        assert(seq![a[0]] + (a.skip(1) + readings_rendered(b, furigana)) =~= a
            + readings_rendered(b, furigana));
    }
}

proof fn lemma_reading_len_plain(r: Seq<char>, x: Seq<char>)
    requires
        free_of_tags(r),
    ensures
        reading_len(r + rt_close() + x) == Some(r.len()),
    decreases r.len(),
{
    reveal_strlit("</rt>");
    let t = r + rt_close() + x;
    if r.len() == 0 {
        assert(t.take(5) =~= rt_close());
    } else {
        assert(t[0] == r[0]);
        assert(t.take(5)[0] != rt_close()[0]);
        assert(t.skip(1) =~= r.skip(1) + rt_close() + x);
        lemma_reading_len_plain(r.skip(1), x);
    }
}

/// A field holding one ruby-annotated base text: normalisation keeps the text
/// around it and the base text as they are and puts the reading after the
/// base text, in the reading style with furigana and not at all without.
pub proof fn lemma_reading_round_trip(
    before: Seq<char>,
    base: Seq<char>,
    reading: Seq<char>,
    after: Seq<char>,
    furigana: bool,
)
    requires
        free_of_tags(before),
        free_of_tags(base),
        free_of_tags(reading),
        free_of_tags(after),
    ensures
        normalized(
            before + ruby_open() + base + rt_open() + reading + rt_close() + ruby_close() + after,
            furigana,
        ) == before + base + rendered_reading(reading, furigana) + after,
{
    reveal_strlit("<ruby>");
    reveal_strlit("</ruby>");
    reveal_strlit("<rt>");
    reveal_strlit("</rt>");
    let ro = ruby_open();
    let rc = ruby_close();
    let to = rt_open();
    let tc = rt_close();
    let s = before + ro + base + to + reading + tc + rc + after;
    assert(s =~= before + (ro + (base + (to + (reading + (tc + (rc + after)))))));
    assert(free_of_tags(to.skip(1)));
    assert(free_of_tags(tc.skip(1)));
    assert(free_of_tags(rc.skip(1)));
    assert(free_of_tags(ro.skip(1)));
    let e: Seq<char> = Seq::empty();
    assert(after + e =~= after);
    // dropping `<ruby>`
    lemma_removed_plain_prefix(before, ro + (base + (to + (reading + (tc + (rc + after))))), ro);
    lemma_removed_match(base + (to + (reading + (tc + (rc + after)))), ro);
    lemma_removed_plain_prefix(base, to + (reading + (tc + (rc + after))), ro);
    lemma_removed_mismatch(to, reading + (tc + (rc + after)), ro, 2);
    lemma_removed_plain_prefix(reading, tc + (rc + after), ro);
    lemma_removed_mismatch(tc, rc + after, ro, 1);
    lemma_removed_mismatch(rc, after, ro, 1);
    lemma_removed_plain_prefix(after, e, ro);
    let s1 = before + (base + (to + (reading + (tc + (rc + after))))) ;
    assert(removed(s, ro) == s1);
    // dropping `</ruby>`
    lemma_removed_plain_prefix(before, base + (to + (reading + (tc + (rc + after)))), rc);
    lemma_removed_plain_prefix(base, to + (reading + (tc + (rc + after))), rc);
    lemma_removed_mismatch(to, reading + (tc + (rc + after)), rc, 1);
    lemma_removed_plain_prefix(reading, tc + (rc + after), rc);
    lemma_removed_mismatch(tc, rc + after, rc, 3);
    lemma_removed_match(after, rc);
    lemma_removed_plain_prefix(after, e, rc);
    let s2 = before + (base + (to + (reading + (tc + after))));
    assert(removed(s1, rc) == s2);
    // rendering the reading
    lemma_readings_plain_prefix(before, base + (to + (reading + (tc + after))), furigana);
    lemma_readings_plain_prefix(base, to + (reading + (tc + after)), furigana);
    let t = to + (reading + (tc + after));
    assert(t.take(4) =~= to);
    assert(t.skip(4) =~= reading + tc + after);
    lemma_reading_len_plain(reading, after);
    lemma_reading_len_bound(t.skip(4));
    assert(t.subrange(4, 4 + reading.len() as int) =~= reading);
    assert(t.skip(4 + reading.len() as int + 5) =~= after + e);
    lemma_readings_plain_prefix(after, e, furigana);
    assert(readings_rendered(e, furigana) == e);
    assert(before + (base + (rendered_reading(reading, furigana) + (after + e))) =~= before + base
        + rendered_reading(reading, furigana) + after);
}

/// Whether `s` holds no escape character.
pub open spec fn free_of_escapes(s: Seq<char>) -> bool {
    forall|i: int| 0 <= i < s.len() ==> #[trigger] s[i] != '\x1b'
}

proof fn lemma_styled_span_once(pre: Seq<char>, reading: Seq<char>, after: Seq<char>)
    requires
        free_of_escapes(pre),
        free_of_escapes(reading),
        free_of_escapes(after),
    ensures
        ({
            let span = reading_on() + reading + reading_off();
            let t = pre + span + after;
            forall|q: int|
                0 <= q <= t.len() && #[trigger] starts_with(t.skip(q), span) ==> q == pre.len()
        }),
{
    reveal_strlit("\x1b[4m");
    reveal_strlit("\x1b[24m");
    let on = reading_on();
    let off = reading_off();
    let span = on + reading + off;
    let t = pre + span + after;
    let p = pre.len() as int;
    assert forall|q: int| 0 <= q <= t.len() && #[trigger] starts_with(t.skip(q), span) implies q
        == p by {
        assert(t.skip(q).take(span.len() as int)[0] == span[0]);
        assert(t[q] == '\x1b');
        if q < p {
            assert(t[q] == pre[q]);
        } else if p < q < p + 4 {
            assert(t[q] == on[q - p]);
        } else if p + 4 <= q < p + 4 + reading.len() {
            assert(t[q] == reading[q - p - 4]);
        } else if q == p + 4 + reading.len() {
            assert(t.skip(q).take(span.len() as int)[2] == span[2]);
            assert(t[q + 2] == off[2]);
        } else if p + 4 + reading.len() < q < p + span.len() {
            assert(t[q] == off[q - p - 4 - reading.len()]);
        } else if q >= p + span.len() {
            assert(t[q] == after[q - p - span.len()]);
        }
    }
}

/// With furigana, a field holding one ruby-annotated base text shows the
/// styled reading exactly once, right after the base text, and taking that
/// span out leaves the text around it and the base text.
pub proof fn lemma_reading_span_once(
    before: Seq<char>,
    base: Seq<char>,
    reading: Seq<char>,
    after: Seq<char>,
)
    requires
        free_of_tags(before),
        free_of_tags(base),
        free_of_tags(reading),
        free_of_tags(after),
        free_of_escapes(before),
        free_of_escapes(base),
        free_of_escapes(reading),
        free_of_escapes(after),
    ensures
        ({
            let t = normalized(
                before + ruby_open() + base + rt_open() + reading + rt_close() + ruby_close()
                    + after,
                true,
            );
            let span = reading_on() + reading + reading_off();
            let p = (before.len() + base.len()) as int;
            &&& starts_with(t.skip(p), span)
            &&& forall|q: int| 0 <= q <= t.len() && #[trigger] starts_with(t.skip(q), span) ==> q == p
            &&& t.take(p) + t.skip(p + span.len()) == before + base + after
        }),
{
    lemma_reading_round_trip(before, base, reading, after, true);
    let pre = before + base;
    assert forall|i: int| 0 <= i < pre.len() implies #[trigger] pre[i] != '\x1b' by {
        if i < before.len() {
            assert(pre[i] == before[i]);
        } else {
            assert(pre[i] == base[i - before.len()]);
        }
    }
    lemma_styled_span_once(pre, reading, after);
    let span = reading_on() + reading + reading_off();
    let t = pre + span + after;
    let p = pre.len() as int;
    assert(t.skip(p).take(span.len() as int) =~= span);
    assert(t.take(p) + t.skip(p + span.len()) =~= before + base + after);
}

/// Whether `pat` occurs in `v` at position `i`.
fn occurs_at(v: &Vec<char>, i: usize, pat: &Vec<char>) -> (r: bool)
    requires
        i <= v.len(),
    ensures
        r == starts_with(v@.skip(i as int), pat@),
{
    if pat.len() > v.len() - i {
        return false;
    }
    let mut k: usize = 0;
    while k < pat.len()
        invariant
            k <= pat.len(),
            i + pat.len() <= v.len(),
            forall|m: int| 0 <= m < k ==> v@[i + m] == pat@[m],
        decreases pat.len() - k,
    {
        if v[i + k] != pat[k] {
            assert(v@.skip(i as int).take(pat.len() as int)[k as int] != pat@[k as int]);
            return false;
        }
        k = k + 1;
    }
    assert(v@.skip(i as int).take(pat.len() as int) =~= pat@);
    true
}

fn remove_all(v: &Vec<char>, pat: &Vec<char>) -> (r: Vec<char>)
    ensures
        r@ == removed(v@, pat@),
{
    let mut r: Vec<char> = Vec::new();
    let mut i: usize = 0;
    assert(v@.skip(0) =~= v@);
    assert(r@ + removed(v@, pat@) =~= removed(v@, pat@));
    while i < v.len()
        invariant
            i <= v.len(),
            removed(v@, pat@) == r@ + removed(v@.skip(i as int), pat@),
        decreases v.len() - i,
    {
        let ghost rest = v@.skip(i as int);
        if pat.len() > 0 && occurs_at(v, i, pat) {
            assert(rest.skip(pat.len() as int) =~= v@.skip(i + pat.len()));
            i = i + pat.len();
        } else {
            assert(rest.skip(1) =~= v@.skip(i + 1));
            assert(rest[0] == v@[i as int]);
            let ghost before = r@;
            r.push(v[i]);
            assert(before + (seq![v@[i as int]] + removed(v@.skip(i + 1), pat@)) =~= r@ + removed(
                v@.skip(i + 1),
                pat@,
            ));
            i = i + 1;
        }
    }
    assert(v@.skip(i as int) =~= Seq::<char>::empty());
    assert(r@ + Seq::<char>::empty() =~= r@);
    r
}


/// The position of the closing tag of the reading that starts at `start`, if
/// there is one.
fn find_reading_end(v: &Vec<char>, start: usize, close: &Vec<char>) -> (r: Option<usize>)
    requires
        start <= v.len(),
        close@ == rt_close(),
    ensures
        match reading_len(v@.skip(start as int)) {
            Some(n) => r == Some((start + n) as usize),
            None => r is None,
        },
{
    let mut j: usize = start;
    while j <= v.len()
        invariant
            start <= j <= v.len() + 1,
            close@ == rt_close(),
            j <= v.len() ==> reading_len(v@.skip(start as int)) == shifted(
                reading_len(v@.skip(j as int)),
                (j - start) as nat,
            ),
            j > v.len() ==> reading_len(v@.skip(start as int)) is None,
        decreases v.len() + 1 - j,
    {
        if occurs_at(v, j, close) {
            return Some(j);
        }
        if j == v.len() {
            return None;
        }
        assert(v@.skip(j as int).skip(1) =~= v@.skip(j + 1));
        j = j + 1;
    }
    None
}

fn render_readings(v: &Vec<char>, furigana: bool) -> (r: Vec<char>)
    ensures
        r@ == readings_rendered(v@, furigana),
{
    let open = chars_of("<rt>");
    let close = chars_of("</rt>");
    proof {
        reveal_strlit("<rt>");
        reveal_strlit("</rt>");
    }
    let mut r: Vec<char> = Vec::new();
    let mut i: usize = 0;
    assert(v@.skip(0) =~= v@);
    assert(r@ + readings_rendered(v@, furigana) =~= readings_rendered(v@, furigana));
    while i < v.len()
        invariant
            i <= v.len(),
            rt_open().len() == 4,
            rt_close().len() == 5,
            open@ == rt_open(),
            close@ == rt_close(),
            readings_rendered(v@, furigana) == r@ + readings_rendered(v@.skip(i as int), furigana),
        decreases v.len() - i,
    {
        let ghost rest = v@.skip(i as int);
        let mut end: Option<usize> = None;
        if occurs_at(v, i, &open) {
            assert(rest.skip(4) =~= v@.skip(i + 4));
            end = find_reading_end(v, i + 4, &close);
        }
        match end {
            Some(e) => {
                proof {
                    lemma_reading_len_bound(v@.skip(i + 4));
                }
                let ghost before = r@;
                if furigana {
                    r.extend_from_slice(chars_of(reading_on_str()).as_slice());
                    let mut k: usize = i + 4;
                    while k < e
                        invariant
                            i + 4 <= k <= e,
                            e + 5 <= v.len(),
                            r@ == before + reading_on() + v@.subrange(i + 4, k as int),
                        decreases e - k,
                    {
                        r.push(v[k]);
                        assert(v@.subrange(i + 4, k + 1) =~= v@.subrange(i + 4, k as int).push(v@[k as int]));
                        k = k + 1;
                    }
                    r.extend_from_slice(chars_of(reading_off_str()).as_slice());
                }
                assert(rest.subrange(4, (e - i) as int) =~= v@.subrange(i + 4, e as int));
                assert(rest.skip((e - i) + 5) =~= v@.skip(e + 5));
                assert(before + (rendered_reading(v@.subrange(i + 4, e as int), furigana)
                    + readings_rendered(v@.skip(e + 5), furigana)) =~= r@ + readings_rendered(
                    v@.skip(e + 5),
                    furigana,
                ));
                i = e + 5;
            },
            None => {
                assert(rest.skip(1) =~= v@.skip(i + 1));
                assert(rest[0] == v@[i as int]);
                let ghost before = r@;
                r.push(v[i]);
                assert(before + (seq![v@[i as int]] + readings_rendered(v@.skip(i + 1), furigana))
                    =~= r@ + readings_rendered(v@.skip(i + 1), furigana));
                i = i + 1;
            },
        }
    }
    assert(v@.skip(i as int) =~= Seq::<char>::empty());
    assert(r@ + Seq::<char>::empty() =~= r@);
    r
}

/// Flattens the ruby markup of one raw field: `<ruby>` and `</ruby>` are
/// dropped, and each reading segment `<rt>R</rt>` becomes `R` in the reading
/// style when `furigana` is set, and nothing otherwise.
pub fn normalize(raw: &str, furigana: bool) -> (r: String)
    ensures
        r@ == normalized(raw@, furigana),
{
    let v = chars_of(raw);
    let without_open = remove_all(&v, &chars_of("<ruby>"));
    let without_close = remove_all(&without_open, &chars_of("</ruby>"));
    string_of(&render_readings(&without_close, furigana))
}

} // verus!
