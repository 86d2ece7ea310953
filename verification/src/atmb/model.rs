//! Addresses and mailboxes.

use vstd::prelude::*;
use vstd::string::*;

verus! {

/// A postal address in the United States.
#[derive(Debug, Hash, PartialEq, Eq)]
pub struct Address {
    pub line1: String,
    pub city: String,
    pub state: String,
    pub zip: String,
    pub zip4: Option<String>,
}

/// An [`Address`] as sequences of characters.
pub struct AddressView {
    pub line1: Seq<char>,
    pub city: Seq<char>,
    pub state: Seq<char>,
    pub zip: Seq<char>,
    pub zip4: Option<Seq<char>>,
}

/// The view of an optional string.
pub open spec fn opt_view(s: Option<String>) -> Option<Seq<char>> {
    match s {
        Some(t) => Some(t@),
        None => None,
    }
}

/// An ASCII decimal digit.
pub open spec fn is_digit(c: char) -> bool {
    '0' <= c <= '9'
}

/// A ZIP code is not empty, and its extension, where there is one, is four
/// digits.
pub open spec fn valid_zip(zip: Seq<char>, zip4: Option<Seq<char>>) -> bool {
    &&& zip.len() > 0
    &&& zip4 matches Some(ext) ==> ext.len() == 4 && forall|i: int|
        0 <= i < 4 ==> is_digit(#[trigger] ext[i])
}

/// The ZIP code alone, or the ZIP code, a hyphen and the extension.
pub open spec fn full_zip(zip: Seq<char>, zip4: Option<Seq<char>>) -> Seq<char> {
    match zip4 {
        Some(ext) => zip + seq!['-'] + ext,
        None => zip,
    }
}

impl View for Address {
    type V = AddressView;

    open spec fn view(&self) -> AddressView {
        AddressView {
            line1: self.line1@,
            city: self.city@,
            state: self.state@,
            zip: self.zip@,
            zip4: opt_view(self.zip4),
        }
    }
}

impl AddressView {
    /// The address obeys the rule on ZIP codes.
    pub open spec fn wf(self) -> bool {
        valid_zip(self.zip, self.zip4)
    }

    /// The ZIP code with its extension, see [`full_zip`].
    pub open spec fn full_zip(self) -> Seq<char> {
        full_zip(self.zip, self.zip4)
    }
}

impl Clone for Address {
    fn clone(&self) -> (r: Self)
        ensures
            r == *self,
    {
        Address {
            line1: self.line1.clone(),
            city: self.city.clone(),
            state: self.state.clone(),
            zip: self.zip.clone(),
            zip4: match &self.zip4 {
                Some(ext) => Some(ext.clone()),
                None => None,
            },
        }
    }
}

impl Address {
    /// The address obeys the rule on ZIP codes.
    pub open spec fn wf(&self) -> bool {
        self@.wf()
    }

    /// The ZIP code alone, or the ZIP code, a hyphen and the extension.
    pub fn full_zip(&self) -> (r: String)
        ensures
            r@ == self@.full_zip(),
    {
        match &self.zip4 {
            Some(zip4) => {
                let mut r = self.zip.clone();
                proof {
                    reveal_strlit("-");
                }
                r.append("-");
                r.append(zip4.as_str());
                r
            },
            None => self.zip.clone(),
        }
    }

    /// Whether the two addresses hold the same text.
    pub fn same(&self, other: &Address) -> (b: bool)
        ensures
            b == (self@ == other@),
    {
        let zip4 = match (&self.zip4, &other.zip4) {
            (Some(a), Some(b)) => *a == *b,
            (None, None) => true,
            _ => false,
        };
        zip4 && self.line1 == other.line1 && self.city == other.city && self.state == other.state
            && self.zip == other.zip
    }
}

/// What the directory tells of one mailbox.
#[derive(Debug, Hash, PartialEq, Eq)]
pub struct Mailbox {
    pub name: String,
    pub address: Address,
    pub link: String,
    pub price: String,
}

/// A [`Mailbox`] as sequences of characters.
pub struct MailboxView {
    pub name: Seq<char>,
    pub address: AddressView,
    pub link: Seq<char>,
    pub price: Seq<char>,
}

impl View for Mailbox {
    type V = MailboxView;

    open spec fn view(&self) -> MailboxView {
        MailboxView {
            name: self.name@,
            address: self.address@,
            link: self.link@,
            price: self.price@,
        }
    }
}

/// The views of a list of mailboxes.
pub open spec fn mailbox_views(mailboxes: Seq<Mailbox>) -> Seq<MailboxView> {
    mailboxes.map_values(|m: Mailbox| m@)
}

impl Clone for Mailbox {
    fn clone(&self) -> (r: Self)
        ensures
            r == *self,
    {
        Mailbox {
            name: self.name.clone(),
            address: self.address.clone(),
            link: self.link.clone(),
            price: self.price.clone(),
        }
    }
}

impl Mailbox {
    /// Whether the two mailboxes hold the same text.
    pub fn same(&self, other: &Mailbox) -> (b: bool)
        ensures
            b == (self@ == other@),
    {
        self.name == other.name && self.address.same(&other.address) && self.link == other.link
            && self.price == other.price
    }
}

} // verus!
