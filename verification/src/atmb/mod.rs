//! The directory site: its pages, what is read from them, and how the
//! results of the three stages of a crawl are put together. A stage fetches
//! many pages at a time; what it hands over here is, for each page that it
//! asked for, what came of it: the page, or `None` where the page could not
//! be fetched or read.

use crate::atmb::model::{mailbox_views, AddressView, Mailbox, MailboxView};
use crate::atmb::page::{
    mailbox_of, mailboxes_of, DetailView, LocationDetailPage, LocationView, StatePage,
};
use crate::seqs::{lemma_try_map_ok, present, take_present};
use crate::text::{matches_at, starts_with, to_chars};
use vstd::prelude::*;
use vstd::string::*;

pub mod markup;
pub mod model;
pub mod page;

verus! {

/// The origin of the directory site.
pub const BASE_URL: &'static str = "https://www.anytimemailbox.com";

/// The path of the page that lists the states.
pub const US_HOME_PAGE_URL: &'static str = "/l/usa";

/// The scheme by which a full address is told from a path.
pub const URL_SCHEME: &'static str = "http";

/// How many pages of states are fetched at a time.
pub const STATE_PAGE_CONCURRENCY: usize = 5;

/// How many pages of locations are fetched at a time.
pub const DETAIL_PAGE_CONCURRENCY: usize = 10;

/// How often a page that could not be fetched is asked for again.
pub const FETCH_RETRIES: usize = 3;

/// Why a crawl was given up.
#[derive(Clone, Copy, Debug, PartialEq, Eq, Structural)]
pub enum CrawlError {
    /// The page of some state could not be fetched or read.
    MissingStates,
    /// Fewer mailboxes came out of the pages of the states than they list.
    MissingMailboxes,
    /// The page of some location could not be fetched or read.
    MissingDetails,
}

/// The address to ask for: `url_path` itself where it is a full address,
/// else the path below [`BASE_URL`].
pub open spec fn resolved(url_path: Seq<char>) -> Seq<char> {
    if starts_with(url_path, URL_SCHEME@) {
        url_path
    } else {
        BASE_URL@ + url_path
    }
}

/// The address to ask for, given a full address or a path of the site.
pub fn resolve_url(url_path: &str) -> (url: String)
    ensures
        url@ == resolved(url_path@),
{
    let chars = to_chars(url_path);
    let scheme = to_chars(URL_SCHEME);
    if matches_at(&chars, &scheme, 0) {
        url_path.to_owned()
    } else {
        let mut url = BASE_URL.to_owned();
        url.append(url_path);
        url
    }
}

/// The views of a list of pages of states.
pub open spec fn page_views(pages: Seq<StatePage>) -> Seq<Seq<LocationView>> {
    pages.map_values(|p: StatePage| p@)
}

/// How many locations the pages list in all.
pub open spec fn listed(pages: Seq<Seq<LocationView>>) -> nat
    decreases pages.len(),
{
    if pages.len() == 0 {
        0
    } else {
        listed(pages.drop_last()) + pages.last().len()
    }
}

/// The mailboxes of one page, or none at all where one of its locations
/// gives no mailbox.
pub open spec fn converted_page(page: Seq<LocationView>) -> Seq<MailboxView> {
    match mailboxes_of(page) {
        Ok(mailboxes) => mailboxes,
        Err(_) => Seq::empty(),
    }
}

/// The mailboxes of the pages, in the order of the pages, each page giving
/// all of its mailboxes or none.
pub open spec fn converted(pages: Seq<Seq<LocationView>>) -> Seq<MailboxView>
    decreases pages.len(),
{
    if pages.len() == 0 {
        Seq::empty()
    } else {
        converted(pages.drop_last()) + converted_page(pages.last())
    }
}

/// Never do more mailboxes come out of the pages than the pages list, and
/// as many come out only where every page gives its mailboxes: one location
/// that gives none makes the counts differ.
pub proof fn lemma_count_mismatch(pages: Seq<Seq<LocationView>>)
    ensures
        converted(pages).len() <= listed(pages),
        converted(pages).len() == listed(pages) <==> forall|i: int|
            0 <= i < pages.len() ==> mailboxes_of(#[trigger] pages[i]) is Ok,
    decreases pages.len(),
{
    if pages.len() > 0 {
        let rest = pages.drop_last();
        let page = pages.last();
        lemma_count_mismatch(rest);
        lemma_try_map_ok(page, |i: int, location: LocationView| mailbox_of(location));
        assert(forall|i: int| 0 <= i < rest.len() ==> rest[i] == pages[i]);
    }
}

/// The pages of the states, if every one of them was fetched and read.
pub fn collect_state_pages(outcomes: Vec<Option<StatePage>>) -> (r: Result<
    Vec<StatePage>,
    CrawlError,
>)
    ensures
        match r {
            Ok(pages) => pages@ == present(outcomes@) && pages.len() == outcomes.len(),
            Err(e) => e == CrawlError::MissingStates && present(outcomes@).len()
                != outcomes.len(),
        },
{
    let expected = outcomes.len();
    let pages = take_present(outcomes);
    if pages.len() == expected {
        Ok(pages)
    } else {
        Err(CrawlError::MissingStates)
    }
}

/// The mailboxes of all the pages, if as many came out as the pages list.
pub fn collect_mailboxes(pages: &Vec<StatePage>) -> (r: Result<Vec<Mailbox>, CrawlError>)
    ensures
        match r {
            Ok(mailboxes) => mailbox_views(mailboxes@) == converted(page_views(pages@))
                && mailboxes.len() == listed(page_views(pages@)),
            Err(e) => e == CrawlError::MissingMailboxes && converted(page_views(pages@)).len()
                != listed(page_views(pages@)),
        },
{
    let ghost all = page_views(pages@);
    let mut total: Option<usize> = Some(0);
    let mut mailboxes: Vec<Mailbox> = Vec::new();
    let mut i: usize = 0;
    while i < pages.len()
        invariant
            i <= pages.len(),
            all == page_views(pages@),
            match total {
                Some(t) => t == listed(all.take(i as int)),
                None => listed(all.take(i as int)) > usize::MAX,
            },
            mailbox_views(mailboxes@) == converted(all.take(i as int)),
        decreases pages.len() - i,
    {
        let page = &pages[i];
        assert(all.take(i + 1).drop_last() =~= all.take(i as int));
        total =
        match total {
            Some(t) => t.checked_add(page.len()),
            None => None,
        };
        match page.to_mailboxes() {
            Ok(mut found) => {
                mailboxes.append(&mut found);
            },
            Err(_) => {
                assert(mailbox_views(mailboxes@) + Seq::<MailboxView>::empty() =~= mailbox_views(
                    mailboxes@,
                ));
            },
        }
        i += 1;
    }
    assert(all.take(pages.len() as int) =~= all);
    assert(mailbox_views(mailboxes@).len() == mailboxes.len());
    match total {
        Some(t) => if mailboxes.len() == t {
            Ok(mailboxes)
        } else {
            Err(CrawlError::MissingMailboxes)
        },
        None => Err(CrawlError::MissingMailboxes),
    }
}

/// A mailbox with the street of its address taken from the page of its
/// location, and all else as it was.
pub open spec fn with_street(mailbox: MailboxView, detail: DetailView) -> MailboxView {
    MailboxView {
        name: mailbox.name,
        address: AddressView {
            line1: detail.street(),
            city: mailbox.address.city,
            state: mailbox.address.state,
            zip: mailbox.address.zip,
            zip4: mailbox.address.zip4,
        },
        link: mailbox.link,
        price: mailbox.price,
    }
}

/// Puts the street that the page of the location gives in place of the one
/// that the page of the state gave.
pub fn update_street(mailbox: Mailbox, detail: &LocationDetailPage) -> (r: Mailbox)
    ensures
        r@ == with_street(mailbox@, detail@),
        mailbox.address.wf() ==> r.address.wf(),
{
    let mut mailbox = mailbox;
    mailbox.address.line1 = detail.street();
    mailbox
}

/// The mailboxes with their streets, if the page of every location was
/// fetched and read.
pub fn collect_detailed(outcomes: Vec<Option<Mailbox>>) -> (r: Result<Vec<Mailbox>, CrawlError>)
    ensures
        match r {
            Ok(mailboxes) => mailboxes@ == present(outcomes@) && mailboxes.len()
                == outcomes.len(),
            Err(e) => e == CrawlError::MissingDetails && present(outcomes@).len()
                != outcomes.len(),
        },
{
    let expected = outcomes.len();
    let mailboxes = take_present(outcomes);
    if mailboxes.len() == expected {
        Ok(mailboxes)
    } else {
        Err(CrawlError::MissingDetails)
    }
}

} // verus!
