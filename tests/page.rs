use yourei::{extract_examples, render_all, Css, Excerpt, PageLayout, Renderer};

const UL: &str = "\x1b[4m";
const NL: &str = "\x1b[24m";
const GREEN: &str = "\x1b[32m";
const RESET: &str = "\x1b[0m";

const PAGE: &str = "<html><body><ul class=\"sentence-list\">\
<li id=\"sentence-1\"><span class=\"prev-sentence\">前。</span>\
<span class=\"the-sentence\"><ruby>猫<rt>ねこ</rt></ruby>が好きだ</span>\
<span class=\"next-sentence\">後。</span>\
<div class=\"sentence-source-title\"><a>本の名前</a></div></li>\
<li id=\"sentence-2\"><span class=\"the-sentence\">犬がいる</span></li>\
</ul><ul class=\"other\"><li id=\"sentence-3\"><span class=\"the-sentence\">無視</span></li></ul>\
</body></html>";

#[test]
fn raw_examples_in_page_order() {
    let layout = PageLayout::new().ok().expect("selectors parse");
    let raws = layout.raw_examples(PAGE);
    assert_eq!(raws.len(), 2);
    assert_eq!(raws[0].prev.as_deref(), Some("前。"));
    assert_eq!(raws[0].sentence.as_deref(), Some("<ruby>猫<rt>ねこ</rt></ruby>が好きだ"));
    assert_eq!(raws[0].next.as_deref(), Some("後。"));
    assert_eq!(raws[0].source.as_deref(), Some("本の名前"));
    assert!(raws[1].prev.is_none() && raws[1].next.is_none() && raws[1].source.is_none());
    assert_eq!(raws[1].sentence.as_deref(), Some("犬がいる"));
}

#[test]
fn extract_and_render_page() {
    let layout = PageLayout::new().ok().expect("selectors parse");
    let renderer = Renderer::new("猫", true, true).ok().expect("patterns compile");
    let done = extract_examples(PAGE, &layout, &renderer);
    assert_eq!(done.len(), 2);
    assert_eq!(
        done[0].render(),
        format!("前。{GREEN}猫{UL}ねこ{NL}{RESET}が好きだ後。\n本の名前")
    );
    assert_eq!(done[1].render(), "犬がいる");
}

#[test]
fn render_all_keeps_order_and_absence() {
    let renderer = Renderer::new("犬", false, true).ok().expect("patterns compile");
    let raws = vec![
        Excerpt { prev: None, sentence: None, next: None, source: None },
        Excerpt {
            prev: None,
            sentence: Some(String::from("<ruby>犬<rt>いぬ</rt></ruby>だ")),
            next: None,
            source: Some(String::from("出典")),
        },
    ];
    let done = render_all(&renderer, &raws);
    assert_eq!(done.len(), 2);
    assert_eq!(done[0].render(), "");
    assert_eq!(done[1].render(), format!("{GREEN}犬{RESET}だ\n出典"));
}

#[test]
fn empty_page_has_no_examples() {
    let layout = PageLayout::new().ok().expect("selectors parse");
    let renderer = Renderer::new("猫", false, false).ok().expect("patterns compile");
    assert!(extract_examples("", &layout, &renderer).is_empty());
}

#[test]
fn malformed_selector_is_an_error() {
    let e = Css::parse("ul >").err().expect("incomplete selector");
    assert_eq!(e.css, "ul >");
    assert!(Css::parse(".the-sentence").is_ok());
}
