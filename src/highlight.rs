//! Highlighting of the looked-up word in normalised text: the exact pattern
//! first, and the kanji-skeleton pattern only where the exact one finds
//! nothing. Only the leftmost match is highlighted.

use vstd::prelude::*;
use crate::matcher::{
    Matcher, PatternError, finds_match, first_replaced, pattern_compiles, regex_is_match,
    regex_replace_first,
};
use crate::pattern::{
    exact_pattern, skeleton_pattern, kana_class_pattern, word_pattern, kanji_only_pattern,
};
use crate::style::{highlight_on, highlight_off, highlight_on_str, highlight_off_str};
use crate::text::{chars_of, push_char, push_str};

verus! {

/// Whether `c` belongs to either kana syllabary, by the regex engine's Unicode
/// script tables.
pub open spec fn is_kana_char(c: char) -> bool {
    finds_match(kana_class_pattern(), seq![c])
}

/// The word with every kana removed.
pub open spec fn kanji_skeleton(w: Seq<char>) -> Seq<char>
    decreases w.len(),
{
    if w.len() == 0 {
        w
    } else if is_kana_char(w.last()) {
        kanji_skeleton(w.drop_last())
    } else {
        kanji_skeleton(w.drop_last()).push(w.last())
    }
}

/// What a match is replaced by: the captured word in the highlight style.
pub open spec fn highlight_template() -> Seq<char> {
    highlight_on() + "$word"@ + highlight_off()
}

/// `text` highlighted with an exact pattern and an optional skeleton pattern:
/// the skeleton pattern is used only where the exact one matches nowhere, and
/// text that neither matches comes back unchanged.
pub open spec fn highlighted(exact: Seq<char>, skeleton: Option<Seq<char>>, text: Seq<char>) -> Seq<char> {
    if finds_match(exact, text) {
        first_replaced(exact, text, highlight_template())
    } else {
        match skeleton {
            Some(k) => if finds_match(k, text) {
                first_replaced(k, text, highlight_template())
            } else {
                text
            },
            None => text,
        }
    }
}

/// Where the exact pattern matches, the result is its replacement whatever
/// the skeleton pattern is: the skeleton pattern is not consulted.
pub proof fn lemma_exact_match_precedence(
    exact: Seq<char>,
    skeleton: Option<Seq<char>>,
    other: Option<Seq<char>>,
    text: Seq<char>,
)
    requires
        finds_match(exact, text),
    ensures
        highlighted(exact, skeleton, text) == first_replaced(exact, text, highlight_template()),
        highlighted(exact, skeleton, text) == highlighted(exact, other, text),
{
}

/// The skeleton pattern of a word, or none where the word is all kana.
pub open spec fn skeleton_pattern_of(word: Seq<char>) -> Option<Seq<char>> {
    if kanji_skeleton(word).len() == 0 {
        None
    } else {
        Some(skeleton_pattern(kanji_skeleton(word)))
    }
}

/// Tells kana from other characters.
pub struct KanaClassifier {
    class: Matcher,
}

impl KanaClassifier {
    pub closed spec fn wf(&self) -> bool {
        self.class@ == kana_class_pattern()
    }

    /// Compiles the kana class.
    pub fn new() -> (r: Result<KanaClassifier, PatternError>)
        ensures
            r is Ok <==> pattern_compiles(kana_class_pattern()),
            r matches Ok(k) ==> k.wf(),
            r matches Err(e) ==> e.pattern@ == kana_class_pattern(),
    {
        match Matcher::new(r"(\p{Script=Katakana}|\p{Script=Hiragana})") {
            Ok(class) => Ok(KanaClassifier { class }),
            Err(e) => Err(e),
        }
    }

    /// Whether `c` is a hiragana or katakana character.
    pub fn is_kana(&self, c: char) -> (r: bool)
        requires
            self.wf(),
        ensures
            r == is_kana_char(c),
    {
        let mut s = String::new();
        push_char(&mut s, c);
        assert(s@ =~= seq![c]);
        regex_is_match(&self.class, s.as_str())
    }

    /// `word` with every kana removed.
    pub fn kanji_skeleton(&self, word: &str) -> (r: String)
        requires
            self.wf(),
        ensures
            r@ == kanji_skeleton(word@),
    {
        let v = chars_of(word);
        let mut r = String::new();
        let mut i: usize = 0;
        while i < v.len()
            invariant
                i <= v.len(),
                self.wf(),
                v@ == word@,
                r@ == kanji_skeleton(v@.take(i as int)),
            decreases v.len() - i,
        {
            assert(v@.take(i + 1).drop_last() =~= v@.take(i as int));
            if !self.is_kana(v[i]) {
                push_char(&mut r, v[i]);
            }
            i = i + 1;
        }
        assert(v@.take(i as int) =~= v@);
        r
    }
}

/// The two compiled patterns of one looked-up word.
pub struct Highlighter {
    exact: Matcher,
    skeleton: Option<Matcher>,
}

impl Highlighter {
    pub closed spec fn exact_view(&self) -> Seq<char> {
        self.exact@
    }

    pub closed spec fn skeleton_view(&self) -> Option<Seq<char>> {
        match self.skeleton {
            Some(m) => Some(m@),
            None => None,
        }
    }

    /// Compiles the exact pattern of `word`, then the kana class, then the
    /// skeleton pattern where the word has a kanji skeleton; the first
    /// pattern that the regex engine rejects is the error.
    pub fn new(word: &str) -> (r: Result<Highlighter, PatternError>)
        ensures
            r is Ok <==> (pattern_compiles(exact_pattern(word@)) && pattern_compiles(
                kana_class_pattern(),
            ) && (skeleton_pattern_of(word@) matches Some(k) ==> pattern_compiles(k))),
            r matches Ok(h) ==> h.exact_view() == exact_pattern(word@) && h.skeleton_view()
                == skeleton_pattern_of(word@),
            r matches Err(e) ==> e.pattern@ == (if !pattern_compiles(exact_pattern(word@)) {
                exact_pattern(word@)
            } else if !pattern_compiles(kana_class_pattern()) {
                kana_class_pattern()
            } else {
                skeleton_pattern_of(word@)->0
            }),
    {
        let exact = match Matcher::new(word_pattern(word).as_str()) {
            Ok(m) => m,
            Err(e) => {
                return Err(e);
            },
        };
        let classifier = match KanaClassifier::new() {
            Ok(k) => k,
            Err(e) => {
                return Err(e);
            },
        };
        let skeleton = classifier.kanji_skeleton(word);
        if skeleton.as_str().is_empty() {
            return Ok(Highlighter { exact, skeleton: None });
        }
        match Matcher::new(kanji_only_pattern(skeleton.as_str()).as_str()) {
            Ok(m) => Ok(Highlighter { exact, skeleton: Some(m) }),
            Err(e) => Err(e),
        }
    }

    /// Highlights the leftmost match of the exact pattern in `text`, or, where
    /// there is none, the leftmost match of the skeleton pattern.
    pub fn highlight(&self, text: &str) -> (r: String)
        ensures
            r@ == highlighted(self.exact_view(), self.skeleton_view(), text@),
    {
        let mut template = String::new();
        push_str(&mut template, highlight_on_str());
        push_str(&mut template, "$word");
        push_str(&mut template, highlight_off_str());
        if regex_is_match(&self.exact, text) {
            regex_replace_first(&self.exact, text, template.as_str())
        } else {
            match &self.skeleton {
                Some(k) => regex_replace_first(k, text, template.as_str()),
                None => text.to_owned(),
            }
        }
    }
}

} // verus!
