//! The text of the two regular expressions that find the looked-up word in
//! normalised text: the exact pattern and the kanji-skeleton pattern.

use vstd::prelude::*;
use crate::style::{reading_on, reading_off, reading_on_str, reading_off_str};
use crate::text::{chars_of, push_char, push_str};

verus! {

/// One character as a pattern: `[` is escaped, everything else stands as is.
pub open spec fn escaped_char(c: char) -> Seq<char> {
    if c == '[' {
        seq!['\\', '[']
    } else {
        seq![c]
    }
}

/// `s` with every `[` preceded by a backslash.
pub open spec fn escaped_brackets(s: Seq<char>) -> Seq<char>
    decreases s.len(),
{
    if s.len() == 0 {
        s
    } else {
        escaped_brackets(s.drop_last()) + escaped_char(s.last())
    }
}

/// A reading-style span: the reading style's start, the shortest run of
/// characters, the reading style's end.
pub open spec fn reading_span_pattern() -> Seq<char> {
    escaped_brackets(reading_on() + ".*?"@ + reading_off())
}

/// One character of either kana syllabary.
pub open spec fn kana_class_pattern() -> Seq<char> {
    r"(\p{Script=Katakana}|\p{Script=Hiragana})"@
}

/// The shortest run of kana.
pub open spec fn kana_run_pattern() -> Seq<char> {
    kana_class_pattern() + "*?"@
}

/// The characters that the regex syntax gives a meaning of their own.
pub open spec fn is_meta(c: char) -> bool {
    c == '\\' || c == '.' || c == '+' || c == '*' || c == '?' || c == '(' || c == ')' || c == '|'
        || c == '[' || c == ']' || c == '{' || c == '}' || c == '^' || c == '$' || c == '#' || c
        == '&' || c == '-' || c == '~'
}

/// A pattern that matches exactly the character `c`.
pub open spec fn literal_char(c: char) -> Seq<char> {
    if is_meta(c) {
        seq!['\\', c]
    } else {
        seq![c]
    }
}

/// One character of the word, then optionally one reading-style span.
pub open spec fn exact_unit(c: char) -> Seq<char> {
    literal_char(c) + "("@ + reading_span_pattern() + ")?"@
}

/// One kanji of the skeleton, then optionally a run of kana, then optionally
/// one reading-style span.
pub open spec fn skeleton_unit(c: char) -> Seq<char> {
    literal_char(c) + "("@ + kana_run_pattern() + ")?("@ + reading_span_pattern() + ")?"@
}

pub open spec fn exact_units(w: Seq<char>) -> Seq<char>
    decreases w.len(),
{
    if w.len() == 0 {
        Seq::empty()
    } else {
        exact_units(w.drop_last()) + exact_unit(w.last())
    }
}

pub open spec fn skeleton_units(w: Seq<char>) -> Seq<char>
    decreases w.len(),
{
    if w.len() == 0 {
        Seq::empty()
    } else {
        skeleton_units(w.drop_last()) + skeleton_unit(w.last())
    }
}

/// The exact pattern of `word`: its units, each character taken literally, in order, captured as `word`.
pub open spec fn exact_pattern(word: Seq<char>) -> Seq<char> {
    "(?<word>"@ + exact_units(word) + ")"@
}

/// The skeleton pattern of a kanji skeleton: its units in order, captured as
/// `word`.
pub open spec fn skeleton_pattern(skeleton: Seq<char>) -> Seq<char> {
    "(?<word>"@ + skeleton_units(skeleton) + ")"@
}

/// After escaping, every `[` is preceded by a backslash, so none opens a
/// character class.
pub proof fn lemma_brackets_escaped(s: Seq<char>)
    ensures
        forall|i: int|
            0 <= i < escaped_brackets(s).len() && #[trigger] escaped_brackets(s)[i] == '['
                ==> i > 0 && escaped_brackets(s)[i - 1] == '\\',
    decreases s.len(),
{
    if s.len() > 0 {
        lemma_brackets_escaped(s.drop_last());
        let p = escaped_brackets(s.drop_last());
        let e = escaped_brackets(s);
        assert(e == p + escaped_char(s.last()));
        assert forall|i: int| 0 <= i < e.len() && #[trigger] e[i] == '[' implies i > 0 && e[i - 1]
            == '\\' by {
            if i < p.len() {
                assert(e[i] == p[i]);
                assert(e[i - 1] == p[i - 1]);
            } else if s.last() == '[' {
                assert(i == p.len() + 1);
            }
        }
    }
}

/// Every `[` of the reading-style span pattern is escaped.
pub proof fn lemma_reading_span_escaped()
    ensures
        forall|i: int|
            0 <= i < reading_span_pattern().len() && #[trigger] reading_span_pattern()[i] == '['
                ==> i > 0 && reading_span_pattern()[i - 1] == '\\',
{
    lemma_brackets_escaped(reading_on() + ".*?"@ + reading_off());
}

/// Whether `c` has a meaning of its own in the regex syntax.
pub fn is_meta_character(c: char) -> (r: bool)
    ensures
        r == is_meta(c),
{
    c == '\\' || c == '.' || c == '+' || c == '*' || c == '?' || c == '(' || c == ')' || c == '|'
        || c == '[' || c == ']' || c == '{' || c == '}' || c == '^' || c == '$' || c == '#' || c
        == '&' || c == '-' || c == '~'
}

fn push_literal(r: &mut String, c: char)
    ensures
        final(r)@ == old(r)@ + literal_char(c),
{
    if is_meta_character(c) {
        push_char(r, '\\');
    }
    push_char(r, c);
    assert(final(r)@ =~= old(r)@ + literal_char(c));
}

/// Escapes every `[` of `s` with a backslash.
pub fn escape_brackets(s: &str) -> (r: String)
    ensures
        r@ == escaped_brackets(s@),
{
    let v = chars_of(s);
    let mut r = String::new();
    let mut i: usize = 0;
    while i < v.len()
        invariant
            i <= v.len(),
            v@ == s@,
            r@ == escaped_brackets(v@.take(i as int)),
        decreases v.len() - i,
    {
        assert(v@.take(i + 1).drop_last() =~= v@.take(i as int));
        if v[i] == '[' {
            push_char(&mut r, '\\');
            push_char(&mut r, '[');
            assert(r@ =~= escaped_brackets(v@.take(i as int)) + seq!['\\', '[']);
        } else {
            push_char(&mut r, v[i]);
        }
        i = i + 1;
    }
    assert(v@.take(i as int) =~= v@);
    r
}

/// The text of a reading-style span pattern.
pub fn reading_span() -> (r: String)
    ensures
        r@ == reading_span_pattern(),
{
    let mut raw = String::new();
    push_str(&mut raw, reading_on_str());
    push_str(&mut raw, ".*?");
    push_str(&mut raw, reading_off_str());
    escape_brackets(raw.as_str())
}

/// The exact pattern of `word`.
pub fn word_pattern(word: &str) -> (r: String)
    ensures
        r@ == exact_pattern(word@),
{
    let v = chars_of(word);
    let span = reading_span();
    let mut r = String::new();
    push_str(&mut r, "(?<word>");
    let mut i: usize = 0;
    assert(v@.take(0) =~= Seq::<char>::empty());
    assert(r@ =~= "(?<word>"@ + exact_units(v@.take(0)));
    while i < v.len()
        invariant
            i <= v.len(),
            v@ == word@,
            span@ == reading_span_pattern(),
            r@ == "(?<word>"@ + exact_units(v@.take(i as int)),
        decreases v.len() - i,
    {
        assert(v@.take(i + 1).drop_last() =~= v@.take(i as int));
        push_literal(&mut r, v[i]);
        push_str(&mut r, "(");
        push_str(&mut r, span.as_str());
        push_str(&mut r, ")?");
        assert(r@ =~= "(?<word>"@ + exact_units(v@.take(i + 1)));
        i = i + 1;
    }
    assert(v@.take(i as int) =~= v@);
    push_str(&mut r, ")");
    r
}

/// The skeleton pattern of `skeleton`.
pub fn kanji_only_pattern(skeleton: &str) -> (r: String)
    ensures
        r@ == skeleton_pattern(skeleton@),
{
    let v = chars_of(skeleton);
    let span = reading_span();
    let mut r = String::new();
    push_str(&mut r, "(?<word>");
    let mut i: usize = 0;
    assert(v@.take(0) =~= Seq::<char>::empty());
    assert(r@ =~= "(?<word>"@ + skeleton_units(v@.take(0)));
    while i < v.len()
        invariant
            i <= v.len(),
            v@ == skeleton@,
            span@ == reading_span_pattern(),
            r@ == "(?<word>"@ + skeleton_units(v@.take(i as int)),
        decreases v.len() - i,
    {
        assert(v@.take(i + 1).drop_last() =~= v@.take(i as int));
        push_literal(&mut r, v[i]);
        push_str(&mut r, "(");
        push_str(&mut r, r"(\p{Script=Katakana}|\p{Script=Hiragana})");
        push_str(&mut r, "*?");
        push_str(&mut r, ")?(");
        push_str(&mut r, span.as_str());
        push_str(&mut r, ")?");
        assert(r@ =~= "(?<word>"@ + skeleton_units(v@.take(i + 1)));
        i = i + 1;
    }
    assert(v@.take(i as int) =~= v@);
    push_str(&mut r, ")");
    r
}

} // verus!
