//! Locating the examples on a result page, through the `scraper` crate, and
//! rendering them.

use vstd::prelude::*;
use scraper::{ElementRef, Html, Selector};
use crate::excerpt::{Excerpt, Renderer, field_rendered};

verus! {

#[verifier::external_type_specification]
#[verifier::external_body]
pub struct ExHtml(scraper::Html);

#[verifier::external_type_specification]
#[verifier::external_body]
pub struct ExSelector(scraper::Selector);

#[verifier::external_type_specification]
#[verifier::external_body]
pub struct ExElementRef<'a>(scraper::ElementRef<'a>);

/// Whether `css` is a selector group that the CSS parser accepts.
pub uninterp spec fn selector_parses(css: Seq<char>) -> bool;

/// How many elements of the document parsed from `page` the selector group
/// `css` matches.
pub uninterp spec fn document_matches(page: Seq<char>, css: Seq<char>) -> nat;

/// How many descendants of the element at `path` the selector group `css`
/// matches. A path names an element by steps `(css, j)`: the first step is the
/// `j`-th element of the document that `css` matches, in the order in which
/// the document's tree holds its nodes; each further step is the `j`-th
/// matching descendant of the element reached so far, in document order.
pub uninterp spec fn element_matches(
    page: Seq<char>,
    path: Seq<(Seq<char>, nat)>,
    css: Seq<char>,
) -> nat;

/// The markup of the children of the element at `path`.
pub uninterp spec fn element_inner_html(page: Seq<char>, path: Seq<(Seq<char>, nat)>) -> Seq<char>;

/// A parsed page with the text it was parsed from; only `parse_document`
/// makes one.
pub struct Page {
    text: Ghost<Seq<char>>,
    doc: Html,
}

impl View for Page {
    type V = Seq<char>;

    closed spec fn view(&self) -> Seq<char> {
        self.text@
    }
}

/// A parsed selector group with its text; only `parse_selector` makes one.
pub struct Css {
    text: Ghost<Seq<char>>,
    sel: Selector,
}

impl View for Css {
    type V = Seq<char>;

    closed spec fn view(&self) -> Seq<char> {
        self.text@
    }
}

/// An element of a parsed page with the path that reaches it. Only the
/// selecting functions below make elements, each from the match that its path
/// names.
pub struct Element<'a> {
    page: Ghost<Seq<char>>,
    path: Ghost<Seq<(Seq<char>, nat)>>,
    node: ElementRef<'a>,
}

impl<'a> Element<'a> {
    pub closed spec fn page_view(&self) -> Seq<char> {
        self.page@
    }

    pub closed spec fn path_view(&self) -> Seq<(Seq<char>, nat)> {
        self.path@
    }
}

/// Relies on `scraper::Html::parse_document`: any text parses, malformed
/// markup being repaired.
#[verifier::external_body]
fn parse_document(html: &str) -> (r: Page)
    ensures
        r@ == html@,
{
    Page { text: Ghost(html@), doc: Html::parse_document(html) }
}

/// Relies on `scraper::Selector::parse`: whether the text is a selector group
/// depends on the text alone.
#[verifier::external_body]
fn parse_selector(css: &str) -> (r: Option<Css>)
    ensures
        r is Some <==> selector_parses(css@),
        r matches Some(c) ==> c@ == css@,
{
    match Selector::parse(css) {
        Ok(sel) => Some(Css { text: Ghost(css@), sel }),
        Err(_) => None,
    }
}

/// Relies on `scraper::Html::select`: the elements of the document that match,
/// in the order in which the document's tree holds its nodes; the `j`-th is
/// the element at path `[(css, j)]`.
#[verifier::external_body]
fn select_in_document<'a>(page: &'a Page, css: &Css) -> (r: Vec<Element<'a>>)
    ensures
        r.len() == document_matches(page@, css@),
        forall|j: int|
            0 <= j < r.len() ==> (#[trigger] r@[j]).page_view() == page@ && r@[j].path_view()
                == seq![(css@, j as nat)],
{
    page.doc.select(&css.sel).enumerate().map(
        |(j, node)| Element { page: page.text, path: Ghost(seq![(css.text@, j as nat)]), node },
    ).collect()
}

/// Relies on `scraper::ElementRef::select`: the descendants of the element
/// that match, in document order; the `j`-th extends the element's path by
/// `(css, j)`.
#[verifier::external_body]
fn select_in_element<'a>(element: &Element<'a>, css: &Css) -> (r: Vec<Element<'a>>)
    ensures
        r.len() == element_matches(element.page_view(), element.path_view(), css@),
        forall|j: int|
            0 <= j < r.len() ==> (#[trigger] r@[j]).page_view() == element.page_view()
                && r@[j].path_view() == element.path_view().push((css@, j as nat)),
{
    element.node.select(&css.sel).enumerate().map(
        |(j, node)| Element {
            page: element.page,
            path: Ghost(element.path@.push((css.text@, j as nat))),
            node,
        },
    ).collect()
}

/// Relies on `scraper::ElementRef::inner_html`: the markup of the element's
/// children.
#[verifier::external_body]
fn inner_html(element: &Element<'_>) -> (r: String)
    ensures
        r@ == element_inner_html(element.page_view(), element.path_view()),
{
    element.node.inner_html()
}

/// A selector that the CSS parser rejected.
pub struct SelectorError {
    pub css: String,
}

impl Css {
    /// Parses a selector group; fails exactly when the CSS parser rejects it.
    pub fn parse(css: &str) -> (r: Result<Css, SelectorError>)
        ensures
            r is Ok <==> selector_parses(css@),
            r matches Ok(c) ==> c@ == css@,
            r matches Err(e) ==> e.css@ == css@,
    {
        match parse_selector(css) {
            Some(c) => Ok(c),
            None => Err(SelectorError { css: css.to_owned() }),
        }
    }
}

pub open spec fn item_css() -> Seq<char> {
    "ul.sentence-list > [id^=\"sentence-\"]"@
}

pub open spec fn prev_css() -> Seq<char> {
    ".prev-sentence"@
}

pub open spec fn sentence_css() -> Seq<char> {
    ".the-sentence"@
}

pub open spec fn next_css() -> Seq<char> {
    ".next-sentence"@
}

pub open spec fn source_css() -> Seq<char> {
    ".sentence-source-title > *"@
}

/// The number of examples on the page.
pub open spec fn page_item_count(html: Seq<char>) -> nat {
    document_matches(html, item_css())
}

/// The path of the `i`-th example of the page.
pub open spec fn item_path(i: nat) -> Seq<(Seq<char>, nat)> {
    seq![(item_css(), i)]
}

/// The part of the `i`-th example that `css` locates: the inner markup of its
/// first matching descendant, or none where there is none.
pub open spec fn page_field(html: Seq<char>, i: nat, css: Seq<char>) -> Option<Seq<char>> {
    if element_matches(html, item_path(i), css) == 0 {
        None
    } else {
        Some(element_inner_html(html, item_path(i).push((css, 0))))
    }
}

pub open spec fn opt_view(o: Option<String>) -> Option<Seq<char>> {
    match o {
        Some(s) => Some(s@),
        None => None,
    }
}

/// Whether `e` holds the four parts of the `i`-th example of the page.
pub open spec fn is_page_example(html: Seq<char>, i: nat, e: Excerpt) -> bool {
    &&& opt_view(e.prev) == page_field(html, i, prev_css())
    &&& opt_view(e.sentence) == page_field(html, i, sentence_css())
    &&& opt_view(e.next) == page_field(html, i, next_css())
    &&& opt_view(e.source) == page_field(html, i, source_css())
}

/// The selectors that locate the examples of a result page and their parts.
pub struct PageLayout {
    item: Css,
    prev: Css,
    sentence: Css,
    next: Css,
    source: Css,
}

/// The inner markup of the first descendant of `element` that `css` matches.
fn first_inner_html(element: &Element<'_>, css: &Css) -> (r: Option<String>)
    ensures
        r is None <==> element_matches(element.page_view(), element.path_view(), css@) == 0,
        r matches Some(s) ==> s@ == element_inner_html(
            element.page_view(),
            element.path_view().push((css@, 0)),
        ),
{
    let found = select_in_element(element, css);
    if found.len() == 0 {
        None
    } else {
        Some(inner_html(&found[0]))
    }
}

impl PageLayout {
    pub closed spec fn wf(&self) -> bool {
        &&& self.item@ == item_css()
        &&& self.prev@ == prev_css()
        &&& self.sentence@ == sentence_css()
        &&& self.next@ == next_css()
        &&& self.source@ == source_css()
    }

    /// Parses the selectors of the result page's layout.
    pub fn new() -> (r: Result<PageLayout, SelectorError>)
        ensures
            r is Ok <==> (selector_parses(item_css()) && selector_parses(prev_css())
                && selector_parses(sentence_css()) && selector_parses(next_css())
                && selector_parses(source_css())),
            r matches Ok(l) ==> l.wf(),
            r matches Err(e) ==> !selector_parses(e.css@),
    {
        let item = match Css::parse("ul.sentence-list > [id^=\"sentence-\"]") {
            Ok(s) => s,
            Err(e) => {
                return Err(e);
            },
        };
        let prev = match Css::parse(".prev-sentence") {
            Ok(s) => s,
            Err(e) => {
                return Err(e);
            },
        };
        let sentence = match Css::parse(".the-sentence") {
            Ok(s) => s,
            Err(e) => {
                return Err(e);
            },
        };
        let next = match Css::parse(".next-sentence") {
            Ok(s) => s,
            Err(e) => {
                return Err(e);
            },
        };
        let source = match Css::parse(".sentence-source-title > *") {
            Ok(s) => s,
            Err(e) => {
                return Err(e);
            },
        };
        Ok(PageLayout { item, prev, sentence, next, source })
    }

    /// The raw markup of each example of the page, in page order: for each
    /// part, the inner markup of the first element of the example that holds
    /// it.
    pub fn raw_examples(&self, html: &str) -> (r: Vec<Excerpt>)
        requires
            self.wf(),
        ensures
            r.len() == page_item_count(html@),
            forall|i: int| 0 <= i < r.len() ==> is_page_example(html@, i as nat, #[trigger] r@[i]),
    {
        let page = parse_document(html);
        let items = select_in_document(&page, &self.item);
        let mut out: Vec<Excerpt> = Vec::new();
        let mut i: usize = 0;
        while i < items.len()
            invariant
                i <= items.len(),
                self.wf(),
                page@ == html@,
                items.len() == page_item_count(html@),
                forall|j: int|
                    0 <= j < items.len() ==> (#[trigger] items@[j]).page_view() == html@
                        && items@[j].path_view() == item_path(j as nat),
                out.len() == i,
                forall|j: int| 0 <= j < i ==> is_page_example(html@, j as nat, #[trigger] out@[j]),
            decreases items.len() - i,
        {
            let example = &items[i];
            out.push(
                Excerpt {
                    prev: first_inner_html(&example, &self.prev),
                    sentence: first_inner_html(&example, &self.sentence),
                    next: first_inner_html(&example, &self.next),
                    source: first_inner_html(&example, &self.source),
                },
            );
            i = i + 1;
        }
        out
    }
}

/// Whether `done` is the raw field `raw` rendered by `renderer`: absent where
/// it is absent.
pub open spec fn renders(renderer: Renderer, raw: Option<Seq<char>>, done: Option<String>) -> bool {
    match raw {
        Some(s) => done is Some && done->0@ == field_rendered(
            renderer.exact_view(),
            renderer.skeleton_view(),
            renderer.furigana,
            renderer.emphasize,
            s,
        ),
        None => done is None,
    }
}

/// Whether `done` is `raw` with each present field rendered by `renderer`.
pub open spec fn rendered_from(renderer: Renderer, raw: Excerpt, done: Excerpt) -> bool {
    &&& renders(renderer, opt_view(raw.prev), done.prev)
    &&& renders(renderer, opt_view(raw.sentence), done.sentence)
    &&& renders(renderer, opt_view(raw.next), done.next)
    &&& renders(renderer, opt_view(raw.source), done.source)
}

/// Each excerpt rendered, in order.
pub fn render_all(renderer: &Renderer, raws: &Vec<Excerpt>) -> (r: Vec<Excerpt>)
    ensures
        r.len() == raws.len(),
        forall|i: int| 0 <= i < r.len() ==> rendered_from(*renderer, #[trigger] raws@[i], r@[i]),
{
    let mut out: Vec<Excerpt> = Vec::new();
    let mut i: usize = 0;
    while i < raws.len()
        invariant
            i <= raws.len(),
            out.len() == i,
            forall|j: int| 0 <= j < i ==> rendered_from(*renderer, #[trigger] raws@[j], out@[j]),
        decreases raws.len() - i,
    {
        out.push(renderer.render_excerpt(&raws[i]));
        i = i + 1;
    }
    out
}

/// The examples of a result page, located by `layout` and rendered by
/// `renderer`, in page order.
pub fn extract_examples(html: &str, layout: &PageLayout, renderer: &Renderer) -> (r: Vec<Excerpt>)
    requires
        layout.wf(),
    ensures
        r.len() == page_item_count(html@),
        forall|i: int|
            0 <= i < r.len() ==> {
                &&& renders(*renderer, page_field(html@, i as nat, prev_css()), #[trigger] r@[i].prev)
                &&& renders(*renderer, page_field(html@, i as nat, sentence_css()), r@[i].sentence)
                &&& renders(*renderer, page_field(html@, i as nat, next_css()), r@[i].next)
                &&& renders(*renderer, page_field(html@, i as nat, source_css()), r@[i].source)
            },
{
    let raws = layout.raw_examples(html);
    let out = render_all(renderer, &raws);
    assert forall|i: int| 0 <= i < out.len() implies {
        &&& renders(*renderer, page_field(html@, i as nat, prev_css()), #[trigger] out@[i].prev)
        &&& renders(*renderer, page_field(html@, i as nat, sentence_css()), out@[i].sentence)
        &&& renders(*renderer, page_field(html@, i as nat, next_css()), out@[i].next)
        &&& renders(*renderer, page_field(html@, i as nat, source_css()), out@[i].source)
    } by {
        assert(is_page_example(html@, i as nat, raws@[i]));
        assert(rendered_from(*renderer, raws@[i], out@[i]));
    }
    out
}

} // verus!
