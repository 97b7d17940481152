//! CSS selection on HTML documents, computed by the `scraper` crate.

use vstd::prelude::*;

verus! {

/// An element matched by a selector: the values of the attributes asked
/// for, in the order asked, and its text.
#[derive(Clone, Debug)]
pub struct SelectedElement {
    pub attrs: Vec<Option<String>>,
    pub text: String,
}

/// What the logic reads of a matched element.
pub type ElementView = (Seq<Option<Seq<char>>>, Seq<char>);

/// The view of an optional string.
pub open spec fn opt_view(o: Option<String>) -> Option<Seq<char>> {
    match o {
        Some(s) => Some(s@),
        None => None,
    }
}

/// The view of a matched element.
pub open spec fn element_view(e: SelectedElement) -> ElementView {
    (e.attrs@.map_values(|a: Option<String>| opt_view(a)), e.text@)
}

/// The views of matched elements.
pub open spec fn element_views(v: Seq<SelectedElement>) -> Seq<ElementView> {
    v.map_values(|e: SelectedElement| element_view(e))
}

/// The elements of the document `html` (parsed by `Html::parse_document`)
/// that match the CSS selector `selector`, in document order: for each, the
/// value of each attribute named in `attrs` (`Element::attr`) and its text
/// (the text nodes below it, joined). `None` where `Selector::parse`
/// rejects the selector.
pub uninterp spec fn selected_elements(html: Seq<char>, selector: Seq<char>, attrs: Seq<
    Seq<char>,
>) -> Option<Seq<ElementView>>;

/// Parses `html`, parses `selector`, and converts each matched element to
/// plain values (`Html::parse_document`, `Selector::parse`, `Html::select`,
/// `Element::attr`, `ElementRef::text`). Each element carries one value per
/// requested attribute, since the conversion maps over `attrs`.
#[verifier::external_body]
pub(crate) fn html_select(html: &str, selector: &str, attrs: &Vec<String>) -> (r: Option<Vec<SelectedElement>>)
    ensures
        match r {
            Some(v) => selected_elements(html@, selector@, crate::text::string_views(attrs@))
                == Some(element_views(v@)) && forall|i: int|
                0 <= i < v@.len() ==> #[trigger] v@[i].attrs@.len() == attrs@.len(),
            None => selected_elements(html@, selector@, crate::text::string_views(attrs@)) is None,
        },
{
    let sel = scraper::Selector::parse(selector).ok()?;
    let doc = scraper::Html::parse_document(html);
    Some(doc.select(&sel).map(|e| SelectedElement {
        attrs: attrs.iter().map(|a| e.value().attr(a).map(|v| v.to_string())).collect(),
        text: e.text().collect(),
    }).collect())
}

} // verus!
