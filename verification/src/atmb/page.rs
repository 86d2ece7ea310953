//! The three kinds of page of the directory: the country page that lists
//! the states, the page of one state that lists its locations, and the page
//! of one location.

use crate::atmb::markup::{
    captures_all, fragment_list_views, match_views, regex_captures, select_nested, selection,
    Element, ElementView, Fragment,
};
use crate::atmb::model::{
    is_digit, mailbox_views, valid_zip, Address, AddressView, Mailbox, MailboxView,
};
use crate::atmb::BASE_URL;
use crate::seqs::{lemma_try_map_first_err, lemma_try_map_ok, try_map};
use crate::text::{
    find, find_in, is_whitespace, lemma_find_from, lemma_remove_whitespace, lemma_split_at_first,
    push_without_whitespace, remove_first, remove_whitespace, split, split_str, to_chars, tokens,
    tokens_of, views,
};
use vstd::prelude::*;
use vstd::string::*;

verus! {

/// Why a page could not be read.
#[derive(Clone, Copy, Debug, PartialEq, Eq, Structural)]
pub enum ParseError {
    /// A pattern or a selector of this library was not accepted by its
    /// engine.
    Engine,
    /// A match for a state does not consist of a link and a name.
    CaptureShape,
    /// The country page lists no state.
    NoState,
    /// A listing has no title.
    NoTitle { listing: usize },
    /// A listing has no price.
    NoPrice { listing: usize },
    /// A listing has no address.
    NoAddress { listing: usize },
    /// The address of a listing is not made of two lines.
    AddressSplit { listing: usize },
    /// A listing has no button to choose a plan.
    NoPlanButton { listing: usize },
    /// The button of a listing has no link.
    NoPlanLink { listing: usize },
    /// The second address line of a location gives no state and ZIP code,
    /// or a ZIP code that no address may have.
    Zip,
    /// The page of a location has no address block.
    NoDetail,
    /// The address block of a location has an unexpected number of lines.
    LineCount { found: usize },
}

/// The pattern of one state on the country page: the link, then the name.
pub const STATE_LINK_PATTERN: &'static str = "<a class='theme-simple-link' href='(.*?)'>(.*?)</a>";

/// A state as the country page lists it.
#[derive(Debug)]
pub struct StateHtmlInfo<'a> {
    sub_url: &'a str,
    name: &'a str,
}

/// The link and the name of a state.
pub struct StateLink {
    pub url: Seq<char>,
    pub name: Seq<char>,
}

impl<'a> View for StateHtmlInfo<'a> {
    type V = StateLink;

    closed spec fn view(&self) -> StateLink {
        StateLink { url: self.sub_url@, name: self.name@ }
    }
}

impl<'a> StateHtmlInfo<'a> {
    /// A state with the path of its page and its name.
    pub fn new(sub_url: &'a str, name: &'a str) -> (r: Self)
        ensures
            r@ == (StateLink { url: sub_url@, name: name@ }),
    {
        StateHtmlInfo { sub_url, name }
    }

    /// The path of the page of the state.
    pub fn url(&self) -> (r: &str)
        ensures
            r@ == self@.url,
    {
        self.sub_url
    }

    /// The name of the state.
    pub fn name(&self) -> (r: &str)
        ensures
            r@ == self@.name,
    {
        self.name
    }
}

/// The country page: the states that it lists, in its order.
#[derive(Debug)]
pub struct CountryPage<'a> {
    pub states: Vec<StateHtmlInfo<'a>>,
}

/// The state that one match of the pattern gives: a match has three groups,
/// the whole match, the link and the name.
pub open spec fn state_of_match(groups: Seq<Option<Seq<char>>>) -> Result<StateLink, ParseError> {
    if groups.len() == 3 && groups[1] is Some && groups[2] is Some {
        Ok(StateLink { url: groups[1]->0, name: groups[2]->0 })
    } else {
        Err(ParseError::CaptureShape)
    }
}

/// The states that the matches of the pattern give: the first match of
/// another shape is an error, and so is a page without any match.
pub open spec fn states_of_matches(matches: Seq<Seq<Option<Seq<char>>>>) -> Result<
    Seq<StateLink>,
    ParseError,
> {
    match try_map(matches, |i: int, groups: Seq<Option<Seq<char>>>| state_of_match(groups)) {
        Err(e) => Err(e),
        Ok(states) => if states.len() == 0 {
            Err(ParseError::NoState)
        } else {
            Ok(states)
        },
    }
}

/// A country page without a single match is an error, whatever else it
/// holds; and a country page that is read lists as many states as there are
/// matches, at least one.
pub proof fn lemma_country_page_lists_a_state(matches: Seq<Seq<Option<Seq<char>>>>)
    ensures
        matches.len() == 0 ==> states_of_matches(matches) == Err::<Seq<StateLink>, _>(
            ParseError::NoState,
        ),
        states_of_matches(matches) matches Ok(states) ==> states.len() == matches.len()
            && matches.len() > 0,
{
    lemma_try_map_ok(matches, |i: int, groups: Seq<Option<Seq<char>>>| state_of_match(groups));
}

impl<'a> View for CountryPage<'a> {
    type V = Seq<StateLink>;

    open spec fn view(&self) -> Seq<StateLink> {
        self.states@.map_values(|s: StateHtmlInfo<'a>| s@)
    }
}

/// The view of a country page that was read, or the error.
pub open spec fn country_view<'a>(r: Result<CountryPage<'a>, ParseError>) -> Result<
    Seq<StateLink>,
    ParseError,
> {
    match r {
        Ok(page) => Ok(page@),
        Err(e) => Err(e),
    }
}

impl<'a> CountryPage<'a> {
    /// Reads the states from the matches of [`STATE_LINK_PATTERN`] in the
    /// page.
    pub fn from_captures(matches: Vec<Vec<Option<&'a str>>>) -> (r: Result<Self, ParseError>)
        ensures
            country_view(r) == states_of_matches(match_views(matches@)),
    {
        let ghost all = match_views(matches@);
        let ghost f = |i: int, groups: Seq<Option<Seq<char>>>| state_of_match(groups);
        let mut states: Vec<StateHtmlInfo<'a>> = Vec::new();
        let mut i: usize = 0;
        while i < matches.len()
            invariant
                i <= matches.len(),
                all == match_views(matches@),
                f == |i: int, groups: Seq<Option<Seq<char>>>| state_of_match(groups),
                states.len() == i,
                forall|j: int|
                    0 <= j < i ==> #[trigger] f(j, all[j]) == Ok::<StateLink, ParseError>(
                        states[j]@,
                    ),
            decreases matches.len() - i,
        {
            let groups = &matches[i];
            if groups.len() != 3 {
                proof {
                    lemma_try_map_first_err(all, f, i as int);
                }
                return Err(ParseError::CaptureShape);
            }
            match (groups[1], groups[2]) {
                (Some(sub_url), Some(name)) => {
                    states.push(StateHtmlInfo::new(sub_url, name));
                },
                _ => {
                    proof {
                        lemma_try_map_first_err(all, f, i as int);
                    }
                    return Err(ParseError::CaptureShape);
                },
            }
            i += 1;
        }
        proof {
            lemma_try_map_ok(all, f);
            let page = CountryPage { states };
            assert(try_map(all, f)->Ok_0 =~= page@);
        }
        if states.len() == 0 {
            return Err(ParseError::NoState);
        }
        Ok(CountryPage { states })
    }

    /// Reads the states that the country page lists.
    pub fn parse_html(html: &'a str) -> (r: Result<Self, ParseError>)
        ensures
            match regex_captures(STATE_LINK_PATTERN@, html@) {
                Some(matches) => country_view(r) == states_of_matches(matches),
                None => r is Err && r->Err_0 == ParseError::Engine,
            },
    {
        match captures_all(STATE_LINK_PATTERN, html) {
            Some(matches) => Self::from_captures(matches),
            None => Err(ParseError::Engine),
        }
    }
}

/// The selector of one listing on the page of a state.
pub const LOCATION_CONTAINER_SELECTOR: &'static str = "div[class=\"theme-location-item\"]";

/// The selector of the title within a listing.
pub const LOCATION_TITLE_SELECTOR: &'static str = "h3[class=\"t-title\"]";

/// The selector of the price within a listing.
pub const LOCATION_PRICE_SELECTOR: &'static str = "div[class=\"t-price\"]";

/// The selector of the address within a listing.
pub const LOCATION_ADDRESS_SELECTOR: &'static str = "div[class=\"t-addr\"]";

/// The selector of the button that leads to the page of the location.
pub const LOCATION_PLAN_SELECTOR: &'static str = "a[class~=\"gt-plan\"]";

/// The attribute that holds the link of a button.
pub const LINK_ATTRIBUTE: &'static str = "href";

/// The mark between the two lines of an address.
pub const LINE_BREAK: &'static str = "<br>";

/// The words in front of a price.
pub const PRICE_PREFIX: &'static str = "Starting from";

/// The two lines of an address: what stands before the first line break,
/// and what stands between it and the next one, or the end.
pub open spec fn address_lines(address: Seq<char>) -> Option<(Seq<char>, Seq<char>)> {
    let lines = split(address, LINE_BREAK@);
    if lines.len() >= 2 {
        Some((lines[0], lines[1]))
    } else {
        None
    }
}

/// The city of a second address line: what stands before its first comma.
pub open spec fn city_of(line2: Seq<char>) -> Seq<char> {
    split(line2, seq![','])[0]
}

/// What stands between the first comma of a second address line and the
/// next one, or the end.
pub open spec fn after_city(line2: Seq<char>) -> Option<Seq<char>> {
    let parts = split(line2, seq![',']);
    if parts.len() >= 2 {
        Some(parts[1])
    } else {
        None
    }
}

/// The state of a second address line: the first token after the city.
pub open spec fn state_of(line2: Seq<char>) -> Option<Seq<char>> {
    match after_city(line2) {
        Some(rest) => if tokens(rest).len() >= 1 {
            Some(tokens(rest)[0])
        } else {
            None
        },
        None => None,
    }
}

/// The ZIP code of a second address line: the second token after the city,
/// up to its first hyphen; and the extension, which is what stands between
/// that hyphen and the next one, or the end.
pub open spec fn zip_of(line2: Seq<char>) -> Option<(Seq<char>, Option<Seq<char>>)> {
    match after_city(line2) {
        Some(rest) => if tokens(rest).len() >= 2 {
            let parts = split(tokens(rest)[1], seq!['-']);
            Some(
                (
                    parts[0],
                    if parts.len() >= 2 {
                        Some(parts[1])
                    } else {
                        None
                    },
                ),
            )
        } else {
            None
        },
        None => None,
    }
}

/// A price in compact form: without the leftmost [`PRICE_PREFIX`] and
/// without whitespace.
pub open spec fn compact_price(price: Seq<char>) -> Seq<char> {
    remove_whitespace(remove_first(price, PRICE_PREFIX@))
}

/// An address has two lines where it holds a line break, and only there.
/// The first line is then what stands before the leftmost line break.
pub proof fn lemma_address_lines(address: Seq<char>)
    ensures
        match find(address, LINE_BREAK@) {
            Some(i) => address_lines(address) == Some(
                (address.take(i), split(address.skip(i + LINE_BREAK@.len()), LINE_BREAK@)[0]),
            ),
            None => address_lines(address) is None,
        },
{
    reveal_strlit("<br>");
    lemma_split_at_first(address, LINE_BREAK@);
}

/// A compact price holds no whitespace.
pub proof fn lemma_price_has_no_whitespace(price: Seq<char>)
    ensures
        forall|i: int|
            0 <= i < compact_price(price).len() ==> !is_whitespace(
                #[trigger] compact_price(price)[i],
            ),
{
    lemma_remove_whitespace(remove_first(price, PRICE_PREFIX@));
}

/// Of a price that begins with [`PRICE_PREFIX`], the compact form is what
/// follows the prefix, without its whitespace: the prefix is taken away
/// once.
pub proof fn lemma_price_loses_its_prefix(rest: Seq<char>)
    ensures
        compact_price(PRICE_PREFIX@ + rest) == remove_whitespace(rest),
{
    let price = PRICE_PREFIX@ + rest;
    let n = PRICE_PREFIX@.len() as int;
    assert(price.subrange(0, n) =~= PRICE_PREFIX@);
    assert(price.take(0) + price.skip(n) =~= rest);
}

/// A location as the page of a state lists it.
#[derive(Debug)]
pub struct LocationHtmlInfo {
    name: String,
    /// The street.
    line1: String,
    /// The city, the state and the ZIP code.
    line2: String,
    price: String,
    link: String,
}

/// A [`LocationHtmlInfo`] as sequences of characters.
pub struct LocationView {
    pub name: Seq<char>,
    pub line1: Seq<char>,
    pub line2: Seq<char>,
    pub price: Seq<char>,
    pub link: Seq<char>,
}

impl View for LocationHtmlInfo {
    type V = LocationView;

    closed spec fn view(&self) -> LocationView {
        LocationView {
            name: self.name@,
            line1: self.line1@,
            line2: self.line2@,
            price: self.price@,
            link: self.link@,
        }
    }
}

impl Clone for LocationHtmlInfo {
    fn clone(&self) -> (r: Self)
        ensures
            r == *self,
    {
        LocationHtmlInfo {
            name: self.name.clone(),
            line1: self.line1.clone(),
            line2: self.line2.clone(),
            price: self.price.clone(),
            link: self.link.clone(),
        }
    }
}

/// The address that a location gives, if its second line holds a ZIP code
/// that an address may have.
pub open spec fn address_of(location: LocationView) -> Result<AddressView, ParseError> {
    match zip_of(location.line2) {
        Some((zip, zip4)) => if valid_zip(zip, zip4) {
            Ok(
                AddressView {
                    line1: location.line1,
                    city: city_of(location.line2),
                    state: state_of(location.line2).unwrap(),
                    zip,
                    zip4,
                },
            )
        } else {
            Err(ParseError::Zip)
        },
        None => Err(ParseError::Zip),
    }
}

/// An address that a location gives obeys the rule on ZIP codes, and so
/// does the address of a mailbox that a location gives.
pub proof fn lemma_address_of_wf(location: LocationView)
    ensures
        address_of(location) matches Ok(address) ==> address.wf(),
        mailbox_of(location) matches Ok(mailbox) ==> mailbox.address.wf(),
{
}

/// The mailbox that a location gives.
pub open spec fn mailbox_of(location: LocationView) -> Result<MailboxView, ParseError> {
    match address_of(location) {
        Ok(address) => Ok(
            MailboxView {
                name: location.name,
                address,
                link: location.link,
                price: compact_price(location.price),
            },
        ),
        Err(e) => Err(e),
    }
}

/// The view of an address that was read, or the error.
pub open spec fn address_view(r: Result<Address, ParseError>) -> Result<AddressView, ParseError> {
    match r {
        Ok(a) => Ok(a@),
        Err(e) => Err(e),
    }
}

/// The view of a mailbox that was read, or the error.
pub open spec fn mailbox_view(r: Result<Mailbox, ParseError>) -> Result<MailboxView, ParseError> {
    match r {
        Ok(m) => Ok(m@),
        Err(e) => Err(e),
    }
}

/// The views of two optional slices.
pub open spec fn slice_pair_view(r: Option<(&str, Option<&str>)>) -> Option<
    (Seq<char>, Option<Seq<char>>),
> {
    match r {
        Some((a, Some(b))) => Some((a@, Some(b@))),
        Some((a, None)) => Some((a@, None)),
        None => None,
    }
}

/// Whether a ZIP code and its extension are what an address may have.
pub fn zip_is_valid(zip: &str, zip4: Option<&str>) -> (b: bool)
    ensures
        b == valid_zip(
            zip@,
            match zip4 {
                Some(ext) => Some(ext@),
                None => None,
            },
        ),
{
    if zip.unicode_len() == 0 {
        return false;
    }
    match zip4 {
        Some(ext) => {
            let digits = to_chars(ext);
            if digits.len() != 4 {
                return false;
            }
            let mut i: usize = 0;
            while i < 4
                invariant
                    i <= 4,
                    zip4 == Some(ext),
                    zip@.len() > 0,
                    digits@ == ext@,
                    digits.len() == 4,
                    forall|j: int| 0 <= j < i ==> is_digit(#[trigger] ext@[j]),
                decreases 4 - i,
            {
                let c = digits[i];
                if !('0' <= c && c <= '9') {
                    return false;
                }
                i += 1;
            }
            true
        },
        None => true,
    }
}

impl LocationHtmlInfo {
    /// A location with the texts that its listing shows.
    pub fn new(name: String, line1: String, line2: String, price: String, link: String) -> (r:
        Self)
        ensures
            r@ == (LocationView {
                name: name@,
                line1: line1@,
                line2: line2@,
                price: price@,
                link: link@,
            }),
    {
        LocationHtmlInfo { name, line1, line2, price, link }
    }

    /// What follows the city on the second line, up to the next comma.
    fn after_city(&self) -> (r: Option<&str>)
        ensures
            match r {
                Some(rest) => after_city(self@.line2) == Some(rest@),
                None => after_city(self@.line2) is None,
            },
    {
        proof {
            reveal_strlit(",");
            assert(","@ =~= seq![',']);
        }
        let parts = split_str(self.line2.as_str(), ",");
        if parts.len() >= 2 {
            Some(parts[1])
        } else {
            None
        }
    }

    /// The city: what stands before the first comma of the second line.
    pub fn parse_city(&self) -> (r: Option<&str>)
        ensures
            r is Some,
            r->0@ == city_of(self@.line2),
    {
        proof {
            reveal_strlit(",");
            assert(","@ =~= seq![',']);
        }
        let parts = split_str(self.line2.as_str(), ",");
        assert(views(parts@).len() == parts.len());
        Some(parts[0])
    }

    /// The state: the first token after the city, if there is one.
    pub fn parse_state(&self) -> (r: Option<&str>)
        ensures
            match r {
                Some(state) => state_of(self@.line2) == Some(state@),
                None => state_of(self@.line2) is None,
            },
    {
        match self.after_city() {
            Some(rest) => {
                let toks = tokens_of(rest);
                if toks.len() >= 1 {
                    Some(toks[0])
                } else {
                    None
                }
            },
            None => None,
        }
    }

    /// The ZIP code and its extension: the second token after the city, if
    /// there is one, split at its hyphens.
    pub fn parse_zip(&self) -> (r: Option<(&str, Option<&str>)>)
        ensures
            slice_pair_view(r) == zip_of(self@.line2),
    {
        match self.after_city() {
            Some(rest) => {
                let toks = tokens_of(rest);
                if toks.len() >= 2 {
                    proof {
                        reveal_strlit("-");
                        assert("-"@ =~= seq!['-']);
                    }
                    let parts = split_str(toks[1], "-");
                    if parts.len() >= 2 {
                        Some((parts[0], Some(parts[1])))
                    } else {
                        Some((parts[0], None))
                    }
                } else {
                    None
                }
            },
            None => None,
        }
    }

    /// The price in compact form: without the words in front of it and
    /// without whitespace.
    pub fn price(&self) -> (r: String)
        ensures
            r@ == compact_price(self@.price),
    {
        let chars = to_chars(self.price.as_str());
        let prefix = to_chars(PRICE_PREFIX);
        let mut r = String::new();
        match find_in(&chars, &prefix, 0) {
            Some(i) => {
                proof {
                    lemma_find_from(chars@, prefix@, 0);
                    let kept = chars@.take(i as int) + chars@.skip(i + prefix.len());
                    Seq::filter_distributes_over_add(
                        chars@.take(i as int),
                        chars@.skip(i + prefix.len()),
                        |c: char| !is_whitespace(c),
                    );
                    assert(chars@.subrange(i + prefix.len(), chars.len() as int) =~= chars@.skip(
                        i + prefix.len(),
                    ));
                }
                push_without_whitespace(&mut r, &chars, 0, i);
                push_without_whitespace(&mut r, &chars, i + prefix.len(), chars.len());
            },
            None => {
                assert(chars@.subrange(0, chars.len() as int) =~= chars@);
                push_without_whitespace(&mut r, &chars, 0, chars.len());
            },
        }
        r
    }

    /// The address of the location. A second line without a state and a ZIP
    /// code, or with a ZIP code that no address may have, is an error.
    pub fn into_address(self) -> (r: Result<Address, ParseError>)
        ensures
            address_view(r) == address_of(self@),
            r matches Ok(address) ==> address.wf(),
    {
        let (zip, zip4) = match self.parse_zip() {
            Some((zip, zip4)) => {
                if !zip_is_valid(zip, zip4) {
                    return Err(ParseError::Zip);
                }
                (
                    zip.to_owned(),
                    match zip4 {
                        Some(ext) => Some(ext.to_owned()),
                        None => None,
                    },
                )
            },
            None => {
                return Err(ParseError::Zip);
            },
        };
        let city = self.parse_city().unwrap().to_owned();
        let state = self.parse_state().unwrap().to_owned();
        Ok(Address { city, state, zip, zip4, line1: self.line1 })
    }

    /// The mailbox of the location: its address, and its price in compact
    /// form.
    pub fn into_mailbox(self) -> (r: Result<Mailbox, ParseError>)
        ensures
            mailbox_view(r) == mailbox_of(self@),
            r matches Ok(mailbox) ==> mailbox.address.wf(),
    {
        let address = match self.clone().into_address() {
            Ok(address) => address,
            Err(e) => {
                return Err(e);
            },
        };
        let price = self.price();
        Ok(Mailbox { address, price, name: self.name, link: self.link })
    }
}

/// The first element that the selector at place `k` matched in a fragment.
pub open spec fn first_match(fragment: Seq<Seq<ElementView>>, k: int) -> Option<ElementView> {
    if 0 <= k < fragment.len() && fragment[k].len() > 0 {
        Some(fragment[k][0])
    } else {
        None
    }
}

/// The selectors that are applied within a listing: title, price, address
/// and button, in this order.
pub open spec fn listing_selectors() -> Seq<Seq<char>> {
    seq![
        LOCATION_TITLE_SELECTOR@,
        LOCATION_PRICE_SELECTOR@,
        LOCATION_ADDRESS_SELECTOR@,
        LOCATION_PLAN_SELECTOR@,
    ]
}

/// The location that the listing at place `i` of a page gives. The title,
/// the price, the address and its two lines, the button and its link are
/// looked for in this order, and the first one missing is the error.
pub open spec fn listing_of(i: int, fragment: Seq<Seq<ElementView>>) -> Result<
    LocationView,
    ParseError,
> {
    let listing = i as usize;
    match first_match(fragment, 0) {
        None => Err(ParseError::NoTitle { listing }),
        Some(title) => match first_match(fragment, 1) {
            None => Err(ParseError::NoPrice { listing }),
            Some(price) => match first_match(fragment, 2) {
                None => Err(ParseError::NoAddress { listing }),
                Some(address) => match address_lines(address.inner_html) {
                    None => Err(ParseError::AddressSplit { listing }),
                    Some((line1, line2)) => match first_match(fragment, 3) {
                        None => Err(ParseError::NoPlanButton { listing }),
                        Some(button) => match button.attr {
                            None => Err(ParseError::NoPlanLink { listing }),
                            Some(href) => Ok(
                                LocationView {
                                    name: title.text,
                                    line1,
                                    line2,
                                    price: price.text,
                                    link: BASE_URL@ + href,
                                },
                            ),
                        },
                    },
                },
            },
        },
    }
}

/// The locations that the listings of a page give, or the error of the
/// first listing that gives none.
pub open spec fn listings_of(fragments: Seq<Seq<Seq<ElementView>>>) -> Result<
    Seq<LocationView>,
    ParseError,
> {
    try_map(fragments, |i: int, fragment: Seq<Seq<ElementView>>| listing_of(i, fragment))
}

/// The mailboxes that the locations of a page give, or the error of the
/// first location that gives none.
pub open spec fn mailboxes_of(locations: Seq<LocationView>) -> Result<
    Seq<MailboxView>,
    ParseError,
> {
    try_map(locations, |i: int, location: LocationView| mailbox_of(location))
}

/// The page of a state: the locations that it lists, in its order.
pub struct StatePage {
    locations: Vec<LocationHtmlInfo>,
}

impl View for StatePage {
    type V = Seq<LocationView>;

    closed spec fn view(&self) -> Seq<LocationView> {
        self.locations@.map_values(|l: LocationHtmlInfo| l@)
    }
}

/// The view of a location that was read, or the error.
pub open spec fn location_view(r: Result<LocationHtmlInfo, ParseError>) -> Result<
    LocationView,
    ParseError,
> {
    match r {
        Ok(l) => Ok(l@),
        Err(e) => Err(e),
    }
}

/// The view of a page of a state that was read, or the error.
pub open spec fn state_view(r: Result<StatePage, ParseError>) -> Result<
    Seq<LocationView>,
    ParseError,
> {
    match r {
        Ok(page) => Ok(page@),
        Err(e) => Err(e),
    }
}

/// The views of the mailboxes that were read, or the error.
pub open spec fn mailboxes_view(r: Result<Vec<Mailbox>, ParseError>) -> Result<
    Seq<MailboxView>,
    ParseError,
> {
    match r {
        Ok(list) => Ok(mailbox_views(list@)),
        Err(e) => Err(e),
    }
}

/// The first element that the selector at place `k` matched in a fragment.
pub fn first_element(fragment: &Fragment, k: usize) -> (r: Option<&Element>)
    ensures
        match r {
            Some(e) => first_match(fragment@, k as int) == Some(e@),
            None => first_match(fragment@, k as int) is None,
        },
{
    if k < fragment.matches.len() && fragment.matches[k].len() > 0 {
        Some(&fragment.matches[k][0])
    } else {
        None
    }
}

impl LocationHtmlInfo {
    /// Reads the listing at place `listing` of a page.
    pub fn from_fragment(listing: usize, fragment: &Fragment) -> (r: Result<Self, ParseError>)
        ensures
            location_view(r) == listing_of(listing as int, fragment@),
    {
        let title = match first_element(fragment, 0) {
            Some(e) => e.text.clone(),
            None => {
                return Err(ParseError::NoTitle { listing });
            },
        };
        let price = match first_element(fragment, 1) {
            Some(e) => e.text.clone(),
            None => {
                return Err(ParseError::NoPrice { listing });
            },
        };
        let address = match first_element(fragment, 2) {
            Some(e) => &e.inner_html,
            None => {
                return Err(ParseError::NoAddress { listing });
            },
        };
        let (line1, line2) = match StatePage::split_address(address.as_str()) {
            Some(lines) => lines,
            None => {
                return Err(ParseError::AddressSplit { listing });
            },
        };
        let plan_link = match first_element(fragment, 3) {
            Some(e) => match &e.attr {
                Some(href) => href,
                None => {
                    return Err(ParseError::NoPlanLink { listing });
                },
            },
            None => {
                return Err(ParseError::NoPlanButton { listing });
            },
        };
        let mut link = BASE_URL.to_owned();
        link.append(plan_link.as_str());
        Ok(
            LocationHtmlInfo {
                name: title,
                line1: line1.to_owned(),
                line2: line2.to_owned(),
                price,
                link,
            },
        )
    }
}

impl StatePage {
    /// How many locations the page lists.
    pub fn len(&self) -> (n: usize)
        ensures
            n == self@.len(),
    {
        self.locations.len()
    }

    /// The two lines of an address: the pieces before and after its first
    /// line break.
    pub fn split_address(address: &str) -> (r: Option<(&str, &str)>)
        ensures
            match r {
                Some((line1, line2)) => address_lines(address@) == Some((line1@, line2@)),
                None => address_lines(address@) is None,
            },
    {
        let lines = split_str(address, LINE_BREAK);
        if lines.len() >= 2 {
            Some((lines[0], lines[1]))
        } else {
            None
        }
    }

    /// Reads the locations from the listings of the page: the elements that
    /// [`LOCATION_CONTAINER_SELECTOR`] matches, each with what the
    /// selectors of [`listing_selectors`] match below it.
    pub fn from_fragments(fragments: &Vec<Fragment>) -> (r: Result<Self, ParseError>)
        ensures
            state_view(r) == listings_of(fragment_list_views(fragments@)),
    {
        let ghost all = fragment_list_views(fragments@);
        let ghost f = |i: int, fragment: Seq<Seq<ElementView>>| listing_of(i, fragment);
        let mut locations: Vec<LocationHtmlInfo> = Vec::new();
        let mut i: usize = 0;
        while i < fragments.len()
            invariant
                i <= fragments.len(),
                all == fragment_list_views(fragments@),
                f == |i: int, fragment: Seq<Seq<ElementView>>| listing_of(i, fragment),
                locations.len() == i,
                forall|j: int|
                    0 <= j < i ==> #[trigger] f(j, all[j]) == Ok::<LocationView, ParseError>(
                        locations[j]@,
                    ),
            decreases fragments.len() - i,
        {
            match LocationHtmlInfo::from_fragment(i, &fragments[i]) {
                Ok(location) => {
                    locations.push(location);
                },
                Err(e) => {
                    proof {
                        lemma_try_map_first_err(all, f, i as int);
                    }
                    return Err(e);
                },
            }
            i += 1;
        }
        proof {
            lemma_try_map_ok(all, f);
            let page = StatePage { locations };
            assert(try_map(all, f)->Ok_0 =~= page@);
        }
        Ok(StatePage { locations })
    }

    /// Reads the locations that the page of a state lists.
    pub fn parse_html(html: &str) -> (r: Result<Self, ParseError>)
        ensures
            match selection(
                html@,
                LOCATION_CONTAINER_SELECTOR@,
                listing_selectors(),
                LINK_ATTRIBUTE@,
            ) {
                Some(fragments) => state_view(r) == listings_of(fragments),
                None => r is Err && r->Err_0 == ParseError::Engine,
            },
    {
        let inner = vec![
            LOCATION_TITLE_SELECTOR,
            LOCATION_PRICE_SELECTOR,
            LOCATION_ADDRESS_SELECTOR,
            LOCATION_PLAN_SELECTOR,
        ];
        assert(views(inner@) =~= listing_selectors());
        match select_nested(html, LOCATION_CONTAINER_SELECTOR, &inner, LINK_ATTRIBUTE) {
            Some(fragments) => Self::from_fragments(&fragments),
            None => Err(ParseError::Engine),
        }
    }

    /// The mailboxes of the locations of the page, in its order, or the
    /// error of the first location that gives none.
    pub fn to_mailboxes(&self) -> (r: Result<Vec<Mailbox>, ParseError>)
        ensures
            mailboxes_view(r) == mailboxes_of(self@),
    {
        let ghost f = |i: int, location: LocationView| mailbox_of(location);
        let mut mailboxes: Vec<Mailbox> = Vec::new();
        let mut i: usize = 0;
        while i < self.locations.len()
            invariant
                i <= self.locations.len(),
                f == |i: int, location: LocationView| mailbox_of(location),
                mailboxes.len() == i,
                forall|j: int|
                    0 <= j < i ==> #[trigger] f(j, self@[j]) == Ok::<MailboxView, ParseError>(
                        mailboxes[j]@,
                    ),
            decreases self.locations.len() - i,
        {
            match self.locations[i].clone().into_mailbox() {
                Ok(mailbox) => {
                    mailboxes.push(mailbox);
                },
                Err(e) => {
                    proof {
                        lemma_try_map_first_err(self@, f, i as int);
                    }
                    return Err(e);
                },
            }
            i += 1;
        }
        proof {
            lemma_try_map_ok(self@, f);
            assert(try_map(self@, f)->Ok_0 =~= mailbox_views(mailboxes@));
        }
        Ok(mailboxes)
    }
}

/// The selector of the address block on the page of a location.
pub const LOCATION_DETAIL_SELECTOR: &'static str = "div[class=\"t-sec1\"] div[class=\"t-text\"]";

/// The selector of one line within the address block.
pub const DETAIL_LINE_SELECTOR: &'static str = "div";

/// The page of a location: its street address.
pub struct LocationDetailPage {
    /// The street.
    line1: String,
    /// The unit, the suite and the like.
    line2: Option<String>,
}

/// A [`LocationDetailPage`] as sequences of characters.
pub struct DetailView {
    pub line1: Seq<char>,
    pub line2: Option<Seq<char>>,
}

impl DetailView {
    /// The two parts of the street address in one line.
    pub open spec fn street(self) -> Seq<char> {
        match self.line2 {
            Some(line2) => self.line1 + seq![' '] + line2,
            None => self.line1,
        }
    }
}

impl View for LocationDetailPage {
    type V = DetailView;

    closed spec fn view(&self) -> DetailView {
        DetailView {
            line1: self.line1@,
            line2: match self.line2 {
                Some(s) => Some(s@),
                None => None,
            },
        }
    }
}

/// The views of a list of strings.
pub open spec fn string_views(lines: Seq<String>) -> Seq<Seq<char>> {
    lines.map_values(|s: String| s@)
}

/// The lines of the address block: the texts of the elements that
/// [`DETAIL_LINE_SELECTOR`] matches below the first element that
/// [`LOCATION_DETAIL_SELECTOR`] matches, but for the empty ones. `None` if
/// the page has no such block.
pub open spec fn detail_lines(fragments: Seq<Seq<Seq<ElementView>>>) -> Option<Seq<Seq<char>>> {
    if fragments.len() == 0 {
        None
    } else if fragments[0].len() == 0 {
        Some(Seq::empty())
    } else {
        Some(
            fragments[0][0].map_values(|e: ElementView| e.text).filter(
                |line: Seq<char>| line.len() > 0,
            ),
        )
    }
}

/// What the lines of the address block say. The street stands on the second
/// line; a block of five lines has one more line of it, a block of six lines
/// two more. A block of another length is not understood.
pub open spec fn detail_of_lines(lines: Seq<Seq<char>>) -> Result<DetailView, ParseError> {
    if lines.len() == 4 {
        Ok(DetailView { line1: lines[1], line2: None })
    } else if lines.len() == 5 {
        Ok(DetailView { line1: lines[1], line2: Some(lines[2]) })
    } else if lines.len() == 6 {
        Ok(DetailView { line1: lines[1], line2: Some(lines[2] + seq![' '] + lines[3]) })
    } else {
        Err(ParseError::LineCount { found: lines.len() as usize })
    }
}

/// What the address block of a page says, or why it says nothing.
pub open spec fn detail_of_fragments(fragments: Seq<Seq<Seq<ElementView>>>) -> Result<
    DetailView,
    ParseError,
> {
    match detail_lines(fragments) {
        Some(lines) => detail_of_lines(lines),
        None => Err(ParseError::NoDetail),
    }
}

/// The street of an address block. A block of four lines gives its second
/// line as it is; one of five lines gives the second and the third line
/// with a space between them; one of six lines gives the second, the third
/// and the fourth line with spaces between them. A block of any other
/// length gives an error.
pub proof fn lemma_street_of_lines(lines: Seq<Seq<char>>)
    ensures
        lines.len() == 4 ==> detail_of_lines(lines) is Ok && detail_of_lines(lines)->Ok_0.street()
            == lines[1],
        lines.len() == 5 ==> detail_of_lines(lines) is Ok && detail_of_lines(lines)->Ok_0.street()
            == lines[1] + seq![' '] + lines[2],
        lines.len() == 6 ==> detail_of_lines(lines) is Ok && detail_of_lines(lines)->Ok_0.street()
            == lines[1] + seq![' '] + lines[2] + seq![' '] + lines[3],
        !(4 <= lines.len() <= 6) ==> detail_of_lines(lines) is Err,
{
    if lines.len() == 6 {
        assert(lines[1] + seq![' '] + (lines[2] + seq![' '] + lines[3]) =~= lines[1] + seq![' ']
            + lines[2] + seq![' '] + lines[3]);
    }
}

/// The view of a page of a location that was read, or the error.
pub open spec fn detail_view(r: Result<LocationDetailPage, ParseError>) -> Result<
    DetailView,
    ParseError,
> {
    match r {
        Ok(page) => Ok(page@),
        Err(e) => Err(e),
    }
}

/// The lines of the address block of a page, see [`detail_lines`].
pub fn lines_of_fragments(fragments: &Vec<Fragment>) -> (r: Option<Vec<String>>)
    ensures
        match r {
            Some(lines) => detail_lines(fragment_list_views(fragments@)) == Some(
                string_views(lines@),
            ),
            None => detail_lines(fragment_list_views(fragments@)) is None,
        },
{
    if fragments.len() == 0 {
        return None;
    }
    let block = &fragments[0];
    let mut lines: Vec<String> = Vec::new();
    if block.matches.len() == 0 {
        return Some(lines);
    }
    let divs = &block.matches[0];
    let ghost texts = block@[0].map_values(|e: ElementView| e.text);
    let ghost keep = |line: Seq<char>| line.len() > 0;
    let mut i: usize = 0;
    while i < divs.len()
        invariant
            i <= divs.len(),
            texts.len() == divs.len(),
            forall|j: int| 0 <= j < divs.len() ==> texts[j] == divs[j].text@,
            keep == |line: Seq<char>| line.len() > 0,
            string_views(lines@) == texts.take(i as int).filter(keep),
        decreases divs.len() - i,
    {
        proof {
            assert(texts.take(i + 1) =~= texts.take(i as int).push(texts[i as int]));
            texts.take(i as int).lemma_filter_push(texts[i as int], keep);
        }
        if !divs[i].text.as_str().is_empty() {
            lines.push(divs[i].text.clone());
        }
        i += 1;
    }
    assert(texts.take(divs.len() as int) =~= texts);
    Some(lines)
}

impl LocationDetailPage {
    /// Reads the street address from the lines of the address block.
    pub fn from_lines(lines: &Vec<String>) -> (r: Result<Self, ParseError>)
        ensures
            detail_view(r) == detail_of_lines(string_views(lines@)),
    {
        let line2 = if lines.len() == 4 {
            None
        } else if lines.len() == 5 {
            Some(lines[2].clone())
        } else if lines.len() == 6 {
            proof {
                reveal_strlit(" ");
                assert(" "@ =~= seq![' ']);
            }
            let mut joined = lines[2].clone();
            joined.append(" ");
            joined.append(lines[3].as_str());
            Some(joined)
        } else {
            return Err(ParseError::LineCount { found: lines.len() });
        };
        Ok(LocationDetailPage { line1: lines[1].clone(), line2 })
    }

    /// Reads the street address from the page of a location.
    pub fn parse_html(html: &str) -> (r: Result<Self, ParseError>)
        ensures
            match selection(
                html@,
                LOCATION_DETAIL_SELECTOR@,
                seq![DETAIL_LINE_SELECTOR@],
                LINK_ATTRIBUTE@,
            ) {
                Some(fragments) => detail_view(r) == detail_of_fragments(fragments),
                None => r is Err && r->Err_0 == ParseError::Engine,
            },
    {
        let inner = vec![DETAIL_LINE_SELECTOR];
        assert(views(inner@) =~= seq![DETAIL_LINE_SELECTOR@]);
        match select_nested(html, LOCATION_DETAIL_SELECTOR, &inner, LINK_ATTRIBUTE) {
            Some(fragments) => match lines_of_fragments(&fragments) {
                Some(lines) => Self::from_lines(&lines),
                None => Err(ParseError::NoDetail),
            },
            None => Err(ParseError::Engine),
        }
    }

    /// The street address in one line.
    pub fn street(&self) -> (r: String)
        ensures
            r@ == self@.street(),
    {
        match &self.line2 {
            Some(line2) => {
                proof {
                    reveal_strlit(" ");
                }
                let mut r = self.line1.clone();
                r.append(" ");
                r.append(line2.as_str());
                r
            },
            None => self.line1.clone(),
        }
    }
}

} // verus!
