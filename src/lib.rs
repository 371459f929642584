//! Example-sentence rendering for Japanese dictionary lookups: ruby annotations
//! are flattened into terminal text and the looked-up word is highlighted, even
//! where reading annotations interrupt it or the sentence inflects it.

pub mod annotation;
pub mod excerpt;
pub mod extract;
pub mod highlight;
pub mod matcher;
pub mod pattern;
pub mod style;
pub mod text;

pub use annotation::normalize;
pub use excerpt::{Excerpt, Renderer};
pub use extract::{extract_examples, render_all, Css, PageLayout, SelectorError};
pub use highlight::{Highlighter, KanaClassifier};
pub use matcher::{Matcher, PatternError};
pub use pattern::{escape_brackets, kanji_only_pattern, reading_span, word_pattern};
pub use style::{highlight_off_str, highlight_on_str, reading_off_str, reading_on_str};
