use yourei::{
    escape_brackets, kanji_only_pattern, normalize, reading_span, word_pattern, Excerpt,
    Highlighter, KanaClassifier, Matcher, Renderer,
};

const UL: &str = "\x1b[4m";
const NL: &str = "\x1b[24m";
const GREEN: &str = "\x1b[32m";
const RESET: &str = "\x1b[0m";

fn excerpt(prev: Option<&str>, sentence: Option<&str>, next: Option<&str>, source: Option<&str>) -> Excerpt {
    Excerpt {
        prev: prev.map(String::from),
        sentence: sentence.map(String::from),
        next: next.map(String::from),
        source: source.map(String::from),
    }
}

#[test]
fn normalize_leaves_plain_text_unchanged() {
    let plain = "猫が好きだ。";
    assert_eq!(normalize(plain, true), plain);
    assert_eq!(normalize(plain, false), plain);
    let once = normalize("<ruby>猫<rt>ねこ</rt></ruby>が好き", false);
    assert_eq!(normalize(&once, false), once);
}

#[test]
fn normalize_reading_with_furigana() {
    let r = normalize("今日<ruby>猫<rt>ねこ</rt></ruby>を見た", true);
    assert_eq!(r, format!("今日猫{UL}ねこ{NL}を見た"));
}

#[test]
fn normalize_reading_without_furigana() {
    let r = normalize("今日<ruby>猫<rt>ねこ</rt></ruby>を見た", false);
    assert_eq!(r, "今日猫を見た");
}

#[test]
fn normalize_several_readings() {
    let r = normalize("<ruby>日<rt>に</rt>本<rt>ほん</rt></ruby>", true);
    assert_eq!(r, format!("日{UL}に{NL}本{UL}ほん{NL}"));
}

#[test]
fn normalize_unterminated_reading_stays_literal() {
    assert_eq!(normalize("<ruby>猫<rt>ねこ</ruby>", true), "猫<rt>ねこ");
}

#[test]
fn normalize_reading_across_lines() {
    assert_eq!(normalize("猫<rt>ね\nこ</rt>", true), format!("猫{UL}ね\nこ{NL}"));
    assert_eq!(normalize("猫<rt>ね\nこ</rt>", false), "猫");
}

#[test]
fn escape_brackets_escapes_each_bracket() {
    assert_eq!(escape_brackets("a[b[c"), "a\\[b\\[c");
    assert_eq!(escape_brackets("abc"), "abc");
}

#[test]
fn reading_span_is_escaped() {
    assert_eq!(reading_span(), "\x1b\\[4m.*?\x1b\\[24m");
}

#[test]
fn word_pattern_text() {
    let span = reading_span();
    assert_eq!(word_pattern("猫"), format!("(?<word>猫({span})?)"));
    assert_eq!(word_pattern("日本"), format!("(?<word>日({span})?本({span})?)"));
}

#[test]
fn kanji_only_pattern_text() {
    let span = reading_span();
    let kana = r"(\p{Script=Katakana}|\p{Script=Hiragana})*?";
    assert_eq!(kanji_only_pattern("食"), format!("(?<word>食({kana})?({span})?)"));
}

#[test]
fn escaped_patterns_compile() {
    let m = Matcher::new(&word_pattern("日本")).ok().expect("exact pattern compiles");
    assert!(m.pattern().contains("\x1b\\[4m"));
    assert!(Matcher::new(&kanji_only_pattern("日本")).is_ok());
}

#[test]
fn unescaped_bracket_is_rejected() {
    let raw = format!("(?<word>猫({UL}.*?{NL})?)");
    let e = Matcher::new(&raw).err().expect("a bare [ opens an unclosed class");
    assert_eq!(e.pattern, raw);
}

#[test]
fn query_metacharacters_are_literal() {
    let span = reading_span();
    assert_eq!(word_pattern("a.("), format!("(?<word>a({span})?\\.({span})?\\(({span})?)"));
    let r = Renderer::new("(猫)", false, true).ok().expect("escaped word compiles");
    assert_eq!(r.render_field("(猫)と猫"), format!("{GREEN}(猫){RESET}と猫"));
    let h = Highlighter::new("a.b").ok().expect("escaped word compiles");
    assert_eq!(h.highlight("axb"), "axb");
    assert_eq!(h.highlight("xa.b"), format!("x{GREEN}a.b{RESET}"));
}

#[test]
fn unmatched_field_is_unchanged() {
    let h = Highlighter::new("食べる").ok().expect("patterns compile");
    assert_eq!(h.highlight("いぬ"), "いぬ");
    let h = Highlighter::new("ねこ").ok().expect("patterns compile");
    assert_eq!(h.highlight("いぬ"), "いぬ");
}

#[test]
fn kana_classification() {
    let k = KanaClassifier::new().ok().expect("kana class compiles");
    assert!(k.is_kana('あ'));
    assert!(k.is_kana('ア'));
    assert!(!k.is_kana('猫'));
    assert!(!k.is_kana('a'));
    assert!(!k.is_kana('['));
}

#[test]
fn kanji_skeleton_drops_kana() {
    let k = KanaClassifier::new().ok().expect("kana class compiles");
    assert_eq!(k.kanji_skeleton("食べる"), "食");
    assert_eq!(k.kanji_skeleton("お見舞い"), "見舞");
    assert_eq!(k.kanji_skeleton("する"), "");
}

#[test]
fn exact_match_highlighted() {
    let h = Highlighter::new("猫").ok().expect("patterns compile");
    assert_eq!(h.highlight("黒い猫が好き"), format!("黒い{GREEN}猫{RESET}が好き"));
}

#[test]
fn exact_match_takes_precedence_over_skeleton() {
    let h = Highlighter::new("見る").ok().expect("patterns compile");
    assert_eq!(h.highlight("見たり見るり"), format!("見たり{GREEN}見る{RESET}り"));
}

#[test]
fn exact_match_across_reading_span() {
    let h = Highlighter::new("日本").ok().expect("patterns compile");
    let text = format!("日{UL}に{NL}本へ");
    assert_eq!(h.highlight(&text), format!("{GREEN}日{UL}に{NL}本{RESET}へ"));
}

#[test]
fn skeleton_fallback_on_inflected_form() {
    let exact = Matcher::new(&word_pattern("食べる")).ok().expect("compiles");
    assert!(!exact.pattern().is_empty());
    let h = Highlighter::new("食べる").ok().expect("patterns compile");
    assert_eq!(h.highlight("パンを食べた"), format!("パンを{GREEN}食{RESET}べた"));
}

#[test]
fn skeleton_absorbs_kana_between_kanji() {
    let h = Highlighter::new("見舞う").ok().expect("patterns compile");
    assert_eq!(h.highlight("お見まい舞った"), format!("お{GREEN}見まい舞{RESET}った"));
    assert_eq!(h.highlight("友を見舞った"), format!("友を{GREEN}見舞{RESET}った"));
}

#[test]
fn kana_only_word_has_no_fallback() {
    let h = Highlighter::new("する").ok().expect("patterns compile");
    assert_eq!(h.highlight("勉強した"), "勉強した");
    assert_eq!(h.highlight("勉強する"), format!("勉強{GREEN}する{RESET}"));
}

#[test]
fn only_the_first_occurrence_is_highlighted() {
    let h = Highlighter::new("猫").ok().expect("patterns compile");
    assert_eq!(h.highlight("猫"), format!("{GREEN}猫{RESET}"));
    assert_eq!(h.highlight("猫と猫"), format!("{GREEN}猫{RESET}と猫"));
}

#[test]
fn absent_fields_render_empty() {
    assert_eq!(excerpt(None, None, None, None).render(), "");
}

#[test]
fn render_joins_fields_and_source_line() {
    let e = excerpt(Some("前。"), Some("文。"), Some("後。"), Some("出典"));
    assert_eq!(e.render(), "前。文。後。\n出典");
    let e = excerpt(None, Some("文。"), None, None);
    assert_eq!(e.render(), "文。");
}

#[test]
fn end_to_end_single_excerpt() {
    let r = Renderer::new("猫", true, true).ok().expect("patterns compile");
    let raw = excerpt(None, Some("<ruby>猫<rt>ねこ</rt></ruby>が好きだ"), None, None);
    let done = r.render_excerpt(&raw);
    assert!(done.prev.is_none() && done.next.is_none() && done.source.is_none());
    let sentence = format!("{GREEN}猫{UL}ねこ{NL}{RESET}が好きだ");
    assert_eq!(done.sentence.as_deref(), Some(sentence.as_str()));
    assert_eq!(done.render(), sentence);
}

#[test]
fn render_field_without_emphasis() {
    let r = Renderer::new("猫", false, false).ok().expect("patterns compile");
    assert_eq!(r.render_field("<ruby>猫<rt>ねこ</rt></ruby>が好きだ"), "猫が好きだ");
}

#[test]
fn metacharacter_set() {
    for c in ['\\', '.', '+', '*', '?', '(', ')', '|', '[', ']', '{', '}', '^', '$', '#', '&', '-', '~'] {
        assert!(yourei::pattern::is_meta_character(c));
    }
    for c in ['%', '/', '!', '"', 'e', '猫', 'ね'] {
        assert!(!yourei::pattern::is_meta_character(c));
    }
}
