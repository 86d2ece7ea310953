//! Reading markup with the `regex` and `scraper` crates. What the two
//! engines return is not proved here: each result is given a name, and the
//! contracts of the page parsers speak of those names.

use crate::text::views;
use vstd::prelude::*;

verus! {

/// What is read of one element of a parsed document.
pub struct Element {
    /// The text nodes below the element, joined in document order.
    pub text: String,
    /// The markup of what the element holds.
    pub inner_html: String,
    /// The value of the attribute that was asked for, if the element has it.
    pub attr: Option<String>,
}

/// An [`Element`] as sequences of characters.
pub struct ElementView {
    pub text: Seq<char>,
    pub inner_html: Seq<char>,
    pub attr: Option<Seq<char>>,
}

impl View for Element {
    type V = ElementView;

    open spec fn view(&self) -> ElementView {
        ElementView {
            text: self.text@,
            inner_html: self.inner_html@,
            attr: match self.attr {
                Some(a) => Some(a@),
                None => None,
            },
        }
    }
}

/// One element that an outer selector matched: for each inner selector, in
/// the order given, the elements below it that the inner selector matches.
pub struct Fragment {
    pub matches: Vec<Vec<Element>>,
}

impl View for Fragment {
    type V = Seq<Seq<ElementView>>;

    open spec fn view(&self) -> Seq<Seq<ElementView>> {
        self.matches@.map_values(|group: Vec<Element>| group@.map_values(|e: Element| e@))
    }
}

/// The views of a list of fragments.
pub open spec fn fragment_list_views(fragments: Seq<Fragment>) -> Seq<Seq<Seq<ElementView>>> {
    fragments.map_values(|f: Fragment| f@)
}

/// The views of the fragments of a selection, where its selectors were
/// accepted.
pub open spec fn fragment_views(fragments: Option<Vec<Fragment>>) -> Option<
    Seq<Seq<Seq<ElementView>>>,
> {
    match fragments {
        Some(list) => Some(fragment_list_views(list@)),
        None => None,
    }
}

/// The views of the groups of one match of a pattern.
pub open spec fn group_views(groups: Vec<Option<&str>>) -> Seq<Option<Seq<char>>> {
    groups@.map_values(
        |g: Option<&str>|
            match g {
                Some(s) => Some(s@),
                None => None,
            },
    )
}

/// The views of the matches of a pattern.
pub open spec fn match_views(matches: Seq<Vec<Option<&str>>>) -> Seq<Seq<Option<Seq<char>>>> {
    matches.map_values(|groups: Vec<Option<&str>>| group_views(groups))
}

/// The views of the matches of a pattern, where it was accepted.
pub open spec fn capture_views(matches: Option<Vec<Vec<Option<&str>>>>) -> Option<
    Seq<Seq<Option<Seq<char>>>>,
> {
    match matches {
        Some(list) => Some(match_views(list@)),
        None => None,
    }
}

/// The matches of the regular expression `pattern` in `text`, from the left
/// and not overlapping: for each match its groups, the whole match first, a
/// group that took no part being `None`. `None` if `pattern` is not a
/// regular expression that the engine accepts.
pub uninterp spec fn regex_captures(pattern: Seq<char>, text: Seq<char>) -> Option<
    Seq<Seq<Option<Seq<char>>>>,
>;

/// For each element of the document `html` that the selector `outer`
/// matches, and for each selector of `inner`, what is read of the elements
/// below it that this selector matches, `attr` being the attribute asked
/// for. `None` if one of the selectors is not accepted.
pub uninterp spec fn selection(
    html: Seq<char>,
    outer: Seq<char>,
    inner: Seq<Seq<char>>,
    attr: Seq<char>,
) -> Option<Seq<Seq<Seq<ElementView>>>>;

/// Compiles `pattern` with `regex::Regex::new` and walks `text` with
/// `Regex::captures_iter`, handing out the groups of each match as slices of
/// `text`. The contract only names the result.
#[verifier::external_body]
pub(crate) fn captures_all<'h>(pattern: &str, text: &'h str) -> (r: Option<
    Vec<Vec<Option<&'h str>>>,
>)
    ensures
        capture_views(r) == regex_captures(pattern@, text@),
{
    let re = regex::Regex::new(pattern).ok()?;
    Some(
        re.captures_iter(text).map(|caps| caps.iter().map(|g| g.map(|m| m.as_str())).collect())
            .collect(),
    )
}

/// Parses `html` with `scraper::Html::parse_document`, compiles the
/// selectors with `Selector::parse`, and walks `Html::select` and, below each
/// element found, `ElementRef::select`; of each inner element it keeps
/// `text()`, `inner_html()` and `attr(attr)`. The contract only names the
/// result.
#[verifier::external_body]
pub(crate) fn select_nested(html: &str, outer: &str, inner: &Vec<&str>, attr: &str) -> (r: Option<
    Vec<Fragment>,
>)
    ensures
        fragment_views(r) == selection(html@, outer@, views(inner@), attr@),
{
    let outer = scraper::Selector::parse(outer).ok()?;
    let inner: Vec<_> = inner.iter().map(|css| scraper::Selector::parse(css).ok()).collect::<
        Option<_>,
    >()?;
    let document = scraper::Html::parse_document(html);
    Some(
        document.select(&outer).map(|el| Fragment {
            matches: inner.iter().map(|sel| el.select(sel).map(|m| Element {
                text: m.text().collect(),
                inner_html: m.inner_html(),
                attr: m.attr(attr).map(String::from),
            }).collect()).collect(),
        }).collect(),
    )
}

} // verus!
