use vstd::prelude::*;
use vstd::string::*;

verus! {

broadcast use vstd::string::group_string_axioms;

#[verifier::external_type_specification]
#[verifier::external_body]
pub struct ExHtml(scraper::Html);

/// A parsed HTML document together with the text it was parsed from.
///
/// Only [`Document::parse`] builds one, so `tree` is always the parse of `source`.
pub struct Document {
    source: String,
    tree: scraper::Html,
}

impl View for Document {
    type V = Seq<char>;

    closed spec fn view(&self) -> Seq<char> {
        self.source@
    }
}

/// What the library reads of one element that a CSS selector matched: its descendant
/// text nodes in document order, and the value of the attribute that the selection
/// asked for (`None` when it has none; a selection that reads no attribute asks for
/// the empty name).
#[derive(Debug, Clone)]
pub struct Scraped {
    pub texts: Vec<String>,
    pub attr: Option<String>,
}

/// The plain view of a [`Scraped`] element.
#[verifier::ext_equal]
pub struct ScrapedView {
    pub texts: Seq<Seq<char>>,
    pub attr: Option<Seq<char>>,
}

/// One step down a document: the match number `index`, counted from 0, of `selector`
/// inside the element reached so far (inside the whole document for the first step).
#[derive(Debug, Clone)]
pub struct Step {
    pub selector: String,
    pub index: usize,
}

/// The characters of each string, in order.
pub open spec fn strings_view(v: Seq<String>) -> Seq<Seq<char>> {
    v.map_values(|s: String| s@)
}

/// The characters of an optional string.
pub open spec fn opt_string_view(o: Option<String>) -> Option<Seq<char>> {
    match o {
        Some(s) => Some(s@),
        None => None,
    }
}

impl View for Scraped {
    type V = ScrapedView;

    open spec fn view(&self) -> ScrapedView {
        ScrapedView { texts: strings_view(self.texts@), attr: opt_string_view(self.attr) }
    }
}

impl View for Step {
    type V = (Seq<char>, nat);

    open spec fn view(&self) -> (Seq<char>, nat) {
        (self.selector@, self.index as nat)
    }
}

/// The views of a path of steps.
pub open spec fn steps_view(v: Seq<Step>) -> Seq<(Seq<char>, nat)> {
    v.map_values(|s: Step| s@)
}

/// The views of an optional list of matches.
pub open spec fn matches_view(o: Option<Vec<Scraped>>) -> Option<Seq<ScrapedView>> {
    match o {
        Some(v) => Some(v@.map_values(|e: Scraped| e@)),
        None => None,
    }
}

/// What scraper gives back when `html` is parsed as a document and the elements
/// matching `selector` are taken in the order `Html::select` yields them, each with its
/// text nodes and its attribute named `attr`; `None` when `selector` does not parse.
pub uninterp spec fn document_matches(html: Seq<char>, selector: Seq<char>, attr: Seq<char>) -> Option<
    Seq<ScrapedView>,
>;

/// What scraper gives back when `html` is parsed as a document, the element that the
/// steps of `path` reach is found (the first step among `Html::select`'s matches, each
/// later step among `ElementRef::select`'s matches inside the element reached), and the
/// elements inside it that match `selector` are read as in [`document_matches`]; `None`
/// when a selector does not parse or a step has no match of its number.
pub uninterp spec fn nested_matches(
    html: Seq<char>,
    path: Seq<(Seq<char>, nat)>,
    selector: Seq<char>,
    attr: Seq<char>,
) -> Option<Seq<ScrapedView>>;

/// The parse of `html` as a document.
///
/// Trusted: `scraper::Html::parse_document`, kept beside a copy of `html`; the
/// contract says only that the copy is `html`.
#[verifier::external_body]
fn parse_html(html: &str) -> (res: Document)
    ensures
        res@ == html@,
{
    Document { source: html.to_string(), tree: scraper::Html::parse_document(html) }
}

/// The elements of `doc` that match `selector`.
///
/// Trusted: `scraper::Selector::parse` and `scraper::Html::select` on the parsed tree,
/// with `ElementRef::text` and `Element::attr` read from each match. The result depends
/// on the source text and the two other arguments alone (the crate is built with
/// ordered attributes), so it is named [`document_matches`]; nothing more is stated.
#[verifier::external_body]
pub(crate) fn select_document(doc: &Document, selector: &str, attr: &str) -> (res: Option<Vec<Scraped>>)
    ensures
        matches_view(res) == document_matches(doc@, selector@, attr@),
{
    let selector = scraper::Selector::parse(selector).ok()?;
    let found = doc.tree.select(&selector).map(|e| Scraped {
        texts: e.text().map(String::from).collect(),
        attr: e.value().attr(attr).map(String::from),
    });
    Some(found.collect())
}

/// The elements inside the element of `doc` that `path` reaches which match `selector`.
///
/// Trusted: `scraper::Selector::parse`, `Html::select` for the first step,
/// `ElementRef::select` for each later one and for `selector`, taking the match of each
/// step's number with `Iterator::nth`, and `ElementRef::text` and `Element::attr` read
/// from each match. The result is named [`nested_matches`]; nothing more is stated.
#[verifier::external_body]
pub(crate) fn select_nested(doc: &Document, path: &Vec<Step>, selector: &str, attr: &str) -> (res: Option<Vec<Scraped>>)
    requires
        path.len() > 0,
    ensures
        matches_view(res) == nested_matches(doc@, steps_view(path@), selector@, attr@),
{
    let first = scraper::Selector::parse(&path[0].selector).ok()?;
    let mut scope = doc.tree.select(&first).nth(path[0].index)?;
    for step in path.iter().skip(1) {
        scope = scope.select(&scraper::Selector::parse(&step.selector).ok()?).nth(step.index)?;
    }
    let selector = scraper::Selector::parse(selector).ok()?;
    let found = scope.select(&selector).map(|e| Scraped {
        texts: e.text().map(String::from).collect(),
        attr: e.value().attr(attr).map(String::from),
    });
    Some(found.collect())
}

impl Document {
    /// The parse of `html` as a document.
    pub fn parse(html: &str) -> (res: Document)
        ensures
            res@ == html@,
    {
        parse_html(html)
    }
}

/// `path` with one more step: the match number `index` of `selector`.
pub fn path_to(path: &Vec<Step>, selector: &str, index: usize) -> (res: Vec<Step>)
    ensures
        steps_view(res@) == steps_view(path@).push((selector@, index as nat)),
{
    let mut res: Vec<Step> = Vec::new();
    for i in 0..path.len()
        invariant
            steps_view(res@) == steps_view(path@).take(i as int),
    {
        let step = Step { selector: path[i].selector.clone(), index: path[i].index };
        res.push(step);
        assert(steps_view(path@).take(i + 1) == steps_view(path@).take(i as int).push(path@[i as int]@));
    }
    assert(steps_view(path@).take(path.len() as int) == steps_view(path@));
    res.push(Step { selector: String::from_str(selector), index: index });
    res
}

} // verus!
