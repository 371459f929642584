//! One example sentence with its context and source, and the rendering of its
//! fields under the display options.

use vstd::prelude::*;
use crate::annotation::{normalize, normalized};
use crate::highlight::{Highlighter, highlighted, skeleton_pattern_of};
use crate::matcher::{PatternError, pattern_compiles};
use crate::pattern::{exact_pattern, kana_class_pattern};
use crate::text::push_str;

verus! {

/// An example sentence: the sentences before and after it and the title of
/// its source, each possibly absent.
pub struct Excerpt {
    pub prev: Option<String>,
    pub sentence: Option<String>,
    pub next: Option<String>,
    pub source: Option<String>,
}

/// The text of an optional field; an absent field is empty.
pub open spec fn field_text(f: Option<String>) -> Seq<char> {
    match f {
        Some(s) => s@,
        None => Seq::empty(),
    }
}

/// The display text of an excerpt: the three sentences run together, then the
/// source on a line of its own where there is one.
pub open spec fn excerpt_text(e: Excerpt) -> Seq<char> {
    field_text(e.prev) + field_text(e.sentence) + field_text(e.next) + match e.source {
        Some(s) => seq!['\n'] + s@,
        None => Seq::empty(),
    }
}

fn push_field(out: &mut String, f: &Option<String>)
    ensures
        final(out)@ == old(out)@ + field_text(*f),
{
    match f {
        Some(s) => push_str(out, s.as_str()),
        None => {
            assert(old(out)@ + Seq::<char>::empty() =~= old(out)@);
        },
    }
}

impl Excerpt {
    /// The display text of this excerpt.
    pub fn render(&self) -> (r: String)
        ensures
            r@ == excerpt_text(*self),
    {
        let mut out = String::new();
        push_field(&mut out, &self.prev);
        push_field(&mut out, &self.sentence);
        push_field(&mut out, &self.next);
        match &self.source {
            Some(s) => {
                push_str(&mut out, "\n");
                push_str(&mut out, s.as_str());
                proof {
                    reveal_strlit("\n");
                }
                assert(out@ =~= excerpt_text(*self));
            },
            None => {
                assert(out@ =~= excerpt_text(*self));
            },
        }
        out
    }
}

/// The display text of one raw field: normalised, then highlighted where
/// `emphasize` is set.
pub open spec fn field_rendered(
    exact: Seq<char>,
    skeleton: Option<Seq<char>>,
    furigana: bool,
    emphasize: bool,
    raw: Seq<char>,
) -> Seq<char> {
    if emphasize {
        highlighted(exact, skeleton, normalized(raw, furigana))
    } else {
        normalized(raw, furigana)
    }
}

/// The display options of a run and the compiled patterns of its word.
pub struct Renderer {
    pub furigana: bool,
    pub emphasize: bool,
    pub highlighter: Highlighter,
}

impl Renderer {
    pub open spec fn exact_view(&self) -> Seq<char> {
        self.highlighter.exact_view()
    }

    pub open spec fn skeleton_view(&self) -> Option<Seq<char>> {
        self.highlighter.skeleton_view()
    }

    /// Compiles the patterns of `word` for a run with these options.
    pub fn new(word: &str, furigana: bool, emphasize: bool) -> (r: Result<Renderer, PatternError>)
        ensures
            r is Ok <==> (pattern_compiles(exact_pattern(word@)) && pattern_compiles(
                kana_class_pattern(),
            ) && (skeleton_pattern_of(word@) matches Some(k) ==> pattern_compiles(k))),
            r matches Ok(d) ==> d.furigana == furigana && d.emphasize == emphasize
                && d.exact_view() == exact_pattern(word@) && d.skeleton_view()
                == skeleton_pattern_of(word@),
            r matches Err(e) ==> e.pattern@ == (if !pattern_compiles(exact_pattern(word@)) {
                exact_pattern(word@)
            } else if !pattern_compiles(kana_class_pattern()) {
                kana_class_pattern()
            } else {
                skeleton_pattern_of(word@)->0
            }),
    {
        match Highlighter::new(word) {
            Ok(highlighter) => Ok(Renderer { furigana, emphasize, highlighter }),
            Err(e) => Err(e),
        }
    }

    /// The display text of one raw field.
    pub fn render_field(&self, raw: &str) -> (r: String)
        ensures
            r@ == field_rendered(
                self.exact_view(),
                self.skeleton_view(),
                self.furigana,
                self.emphasize,
                raw@,
            ),
    {
        let n = normalize(raw, self.furigana);
        if self.emphasize {
            self.highlighter.highlight(n.as_str())
        } else {
            n
        }
    }

    fn render_option(&self, f: &Option<String>) -> (r: Option<String>)
        ensures
            r is Some <==> f is Some,
            r matches Some(t) ==> t@ == field_rendered(
                self.exact_view(),
                self.skeleton_view(),
                self.furigana,
                self.emphasize,
                f->0@,
            ),
    {
        match f {
            Some(s) => Some(self.render_field(s.as_str())),
            None => None,
        }
    }

    /// The excerpt with each present field rendered; absent fields stay
    /// absent.
    pub fn render_excerpt(&self, raw: &Excerpt) -> (r: Excerpt)
        ensures
            r.prev is Some <==> raw.prev is Some,
            r.sentence is Some <==> raw.sentence is Some,
            r.next is Some <==> raw.next is Some,
            r.source is Some <==> raw.source is Some,
            r.prev matches Some(t) ==> t@ == field_rendered(
                self.exact_view(),
                self.skeleton_view(),
                self.furigana,
                self.emphasize,
                raw.prev->0@,
            ),
            r.sentence matches Some(t) ==> t@ == field_rendered(
                self.exact_view(),
                self.skeleton_view(),
                self.furigana,
                self.emphasize,
                raw.sentence->0@,
            ),
            r.next matches Some(t) ==> t@ == field_rendered(
                self.exact_view(),
                self.skeleton_view(),
                self.furigana,
                self.emphasize,
                raw.next->0@,
            ),
            r.source matches Some(t) ==> t@ == field_rendered(
                self.exact_view(),
                self.skeleton_view(),
                self.furigana,
                self.emphasize,
                raw.source->0@,
            ),
    {
        Excerpt {
            prev: self.render_option(&raw.prev),
            sentence: self.render_option(&raw.sentence),
            next: self.render_option(&raw.next),
            source: self.render_option(&raw.source),
        }
    }
}

/// An excerpt without any field renders as the empty text.
pub proof fn lemma_absent_fields_render_empty(e: Excerpt)
    requires
        e.prev is None,
        e.sentence is None,
        e.next is None,
        e.source is None,
    ensures
        excerpt_text(e) == Seq::<char>::empty(),
{
    assert(excerpt_text(e) =~= Seq::<char>::empty());
}

} // verus!
