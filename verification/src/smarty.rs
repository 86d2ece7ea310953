//! The address-validation service: what is asked of it, what is read from
//! its answer, and the bookkeeping that spreads the lookups over several
//! accounts, each of which allows only so many.

use crate::atmb::model::{Address, AddressView};
use crate::seqs::{lemma_try_map_first_err, lemma_try_map_ok, try_map};
use crate::text::{ascii_lowercase, lowercase_is, split, split_str, views};
use vstd::prelude::*;
use vstd::std_specs::convert::TryFromSpecImpl;
use vstd::string::*;

verus! {

/// How many lookups an account allows before it counts as used up.
pub const LOOKUP_QUOTA: u32 = 1000;

/// How many addresses are looked up at a time.
pub const LOOKUP_CONCURRENCY: usize = 10;

/// Whether an address is that of a commercial mail receiving agency.
#[derive(Debug, Clone, Copy, PartialEq, Eq, PartialOrd, Ord, Structural)]
pub enum YesOrNo {
    N,
    Y,
}

/// Whether mail is delivered to a residence or to a business.
#[derive(Debug, Clone, Copy, PartialEq, Eq, PartialOrd, Ord, Structural)]
pub enum Rdi {
    Residential,
    Commercial,
    Unknown,
}

/// The flag that a text stands for, whatever the case of its letters.
pub open spec fn yes_or_no_of(value: Seq<char>) -> Option<YesOrNo> {
    if ascii_lowercase(value) == "y"@ {
        Some(YesOrNo::Y)
    } else if ascii_lowercase(value) == "n"@ {
        Some(YesOrNo::N)
    } else {
        None
    }
}

/// The kind of delivery that a text stands for, whatever the case of its
/// letters; the empty text stands for [`Rdi::Unknown`].
pub open spec fn rdi_of(value: Seq<char>) -> Option<Rdi> {
    if ascii_lowercase(value) == "residential"@ {
        Some(Rdi::Residential)
    } else if ascii_lowercase(value) == "commercial"@ {
        Some(Rdi::Commercial)
    } else if ascii_lowercase(value) == ""@ {
        Some(Rdi::Unknown)
    } else {
        None
    }
}

impl TryFrom<String> for YesOrNo {
    type Error = String;

    /// Reads the flag from a text, and hands the text back where it stands
    /// for none.
    fn try_from(value: String) -> (r: Result<Self, String>)
        ensures
            match r {
                Ok(flag) => yes_or_no_of(value@) == Some(flag),
                Err(text) => yes_or_no_of(value@) is None && text == value,
            },
    {
        if lowercase_is(value.as_str(), "y") {
            Ok(YesOrNo::Y)
        } else if lowercase_is(value.as_str(), "n") {
            Ok(YesOrNo::N)
        } else {
            Err(value)
        }
    }
}

impl TryFromSpecImpl<String> for YesOrNo {
    open spec fn obeys_try_from_spec() -> bool {
        true
    }

    open spec fn try_from_spec(value: String) -> Result<Self, String> {
        match yes_or_no_of(value@) {
            Some(flag) => Ok(flag),
            None => Err(value),
        }
    }
}

impl TryFrom<String> for Rdi {
    type Error = String;

    /// Reads the kind of delivery from a text, and hands the text back
    /// where it stands for none.
    fn try_from(value: String) -> (r: Result<Self, String>)
        ensures
            match r {
                Ok(rdi) => rdi_of(value@) == Some(rdi),
                Err(text) => rdi_of(value@) is None && text == value,
            },
    {
        if lowercase_is(value.as_str(), "residential") {
            Ok(Rdi::Residential)
        } else if lowercase_is(value.as_str(), "commercial") {
            Ok(Rdi::Commercial)
        } else if lowercase_is(value.as_str(), "") {
            Ok(Rdi::Unknown)
        } else {
            Err(value)
        }
    }
}

impl TryFromSpecImpl<String> for Rdi {
    open spec fn obeys_try_from_spec() -> bool {
        true
    }

    open spec fn try_from_spec(value: String) -> Result<Self, String> {
        match rdi_of(value@) {
            Some(rdi) => Ok(rdi),
            None => Err(value),
        }
    }
}

/// What the service tells of an address.
#[derive(Debug, Clone, Copy, PartialEq, Eq, Structural)]
pub struct AdditionalInfo {
    pub cmra: YesOrNo,
    pub rdi: Rdi,
}

impl AdditionalInfo {
    /// Whether the address is that of a commercial mail receiving agency.
    pub fn is_cmra(&self) -> (b: bool)
        ensures
            b == (self.cmra == YesOrNo::Y),
    {
        self.cmra == YesOrNo::Y
    }

    /// Whether mail to the address is delivered to a residence.
    pub fn is_residential(&self) -> (b: bool)
        ensures
            b == (self.rdi == Rdi::Residential),
    {
        self.rdi == Rdi::Residential
    }
}

/// How an address is to be matched.
#[derive(Debug, Clone, Copy, PartialEq, Eq, Structural)]
pub enum MatchStrategy {
    Strict,
    Invalid,
    Enhanced,
}

/// What is asked of the service about one address.
#[derive(Debug)]
pub struct Lookup {
    pub street: String,
    pub city: String,
    pub state: String,
    pub zipcode: String,
    pub match_strategy: MatchStrategy,
}

/// A [`Lookup`] as sequences of characters.
pub struct LookupView {
    pub street: Seq<char>,
    pub city: Seq<char>,
    pub state: Seq<char>,
    pub zipcode: Seq<char>,
    pub match_strategy: MatchStrategy,
}

impl View for Lookup {
    type V = LookupView;

    open spec fn view(&self) -> LookupView {
        LookupView {
            street: self.street@,
            city: self.city@,
            state: self.state@,
            zipcode: self.zipcode@,
            match_strategy: self.match_strategy,
        }
    }
}

/// The lookup for an address: its fields, the ZIP code with its extension,
/// and the enhanced way of matching.
pub open spec fn lookup_of(address: AddressView) -> LookupView {
    LookupView {
        street: address.line1,
        city: address.city,
        state: address.state,
        zipcode: address.full_zip(),
        match_strategy: MatchStrategy::Enhanced,
    }
}

impl Lookup {
    /// The lookup for an address.
    pub fn from_address(address: Address) -> (r: Self)
        ensures
            r@ == lookup_of(address@),
    {
        Lookup {
            zipcode: address.full_zip(),
            street: address.line1,
            city: address.city,
            state: address.state,
            match_strategy: MatchStrategy::Enhanced,
        }
    }
}

/// What is read of one candidate that the service returns for an address.
#[derive(Debug)]
pub struct Candidate {
    pub dpv_cmra: String,
    pub rdi: String,
}

/// Why the answer of the service tells nothing of an address.
#[derive(Debug, Clone, Copy, PartialEq, Eq, Structural)]
pub enum InquiryError {
    /// The service returned no candidate.
    NoResults,
    /// The flag of the first candidate is neither yes nor no.
    Cmra,
    /// The kind of delivery of the first candidate is not known.
    Rdi,
}

/// What the flag and the kind of delivery of the first candidate say.
pub open spec fn info_of(dpv_cmra: Seq<char>, rdi: Seq<char>) -> Result<
    AdditionalInfo,
    InquiryError,
> {
    match yes_or_no_of(dpv_cmra) {
        None => Err(InquiryError::Cmra),
        Some(cmra) => match rdi_of(rdi) {
            None => Err(InquiryError::Rdi),
            Some(rdi) => Ok(AdditionalInfo { cmra, rdi }),
        },
    }
}

impl TryFrom<Vec<Candidate>> for AdditionalInfo {
    type Error = InquiryError;

    /// Reads the first candidate; the others are not looked at. No
    /// candidate at all is an error.
    fn try_from(results: Vec<Candidate>) -> (r: Result<Self, InquiryError>)
        ensures
            r == if results@.len() == 0 {
                Err(InquiryError::NoResults)
            } else {
                info_of(results@[0].dpv_cmra@, results@[0].rdi@)
            },
    {
        if results.len() == 0 {
            return Err(InquiryError::NoResults);
        }
        let candidate = &results[0];
        let cmra = match YesOrNo::try_from(candidate.dpv_cmra.clone()) {
            Ok(cmra) => cmra,
            Err(_) => {
                return Err(InquiryError::Cmra);
            },
        };
        let rdi = match Rdi::try_from(candidate.rdi.clone()) {
            Ok(rdi) => rdi,
            Err(_) => {
                return Err(InquiryError::Rdi);
            },
        };
        Ok(AdditionalInfo { cmra, rdi })
    }
}

impl TryFromSpecImpl<Vec<Candidate>> for AdditionalInfo {
    open spec fn obeys_try_from_spec() -> bool {
        true
    }

    open spec fn try_from_spec(results: Vec<Candidate>) -> Result<Self, InquiryError> {
        if results@.len() == 0 {
            Err(InquiryError::NoResults)
        } else {
            info_of(results@[0].dpv_cmra@, results@[0].rdi@)
        }
    }
}

/// Whether an account with so many lookups counts as used up: it does once
/// it has made more than [`LOOKUP_QUOTA`].
pub open spec fn exceeded(lookups: nat) -> bool {
    lookups > LOOKUP_QUOTA
}

/// The bookkeeping of one account: how many lookups went to it.
#[derive(Debug)]
pub struct ClientState {
    lookups: u32,
}

impl Default for ClientState {
    /// An account to which no lookup went yet.
    fn default() -> (r: Self)
        ensures
            r.lookups() == 0,
    {
        ClientState { lookups: 0 }
    }
}

impl ClientState {
    /// How many lookups went to the account.
    pub closed spec fn lookups(&self) -> nat {
        self.lookups as nat
    }

    /// Whether the account counts as used up.
    pub fn is_exceeded(&self) -> (b: bool)
        ensures
            b == exceeded(self.lookups()),
    {
        self.lookups > LOOKUP_QUOTA
    }
}

/// The first account, at or after place `from`, that is not used up.
pub open spec fn first_open_from(lookups: Seq<nat>, from: int) -> Option<int>
    decreases lookups.len() - from,
{
    if from < 0 || from >= lookups.len() {
        None
    } else if !exceeded(lookups[from]) {
        Some(from)
    } else {
        first_open_from(lookups, from + 1)
    }
}

/// The first account that is not used up.
pub open spec fn first_open(lookups: Seq<nat>) -> Option<int> {
    first_open_from(lookups, 0)
}

/// The counts after one more lookup: it goes to the first account that is
/// not used up; where all are, nothing changes.
pub open spec fn booked(lookups: Seq<nat>) -> Seq<nat> {
    match first_open(lookups) {
        Some(i) => lookups.update(i, lookups[i] + 1),
        None => lookups,
    }
}

/// `first_open_from` returns an account that is not used up, every account
/// between `from` and it is used up, and it returns `None` only where every
/// account from `from` on is used up.
pub proof fn lemma_first_open_from(lookups: Seq<nat>, from: int)
    requires
        0 <= from,
    ensures
        match first_open_from(lookups, from) {
            Some(i) => from <= i < lookups.len() && !exceeded(lookups[i]) && forall|j: int|
                from <= j < i ==> exceeded(#[trigger] lookups[j]),
            None => forall|j: int| from <= j < lookups.len() ==> exceeded(#[trigger] lookups[j]),
        },
    decreases lookups.len() - from,
{
    if from < lookups.len() && exceeded(lookups[from]) {
        lemma_first_open_from(lookups, from + 1);
    }
}

/// The counts after `k` more lookups.
pub open spec fn booked_times(lookups: Seq<nat>, k: nat) -> Seq<nat>
    decreases k,
{
    if k == 0 {
        lookups
    } else {
        booked(booked_times(lookups, (k - 1) as nat))
    }
}

/// How many of the first `k` lookups go to the account at place `slot`,
/// where the accounts start unused: each account takes one lookup more
/// than [`LOOKUP_QUOTA`] before the next one is asked.
pub open spec fn share(k: nat, slot: int) -> nat {
    let per = LOOKUP_QUOTA + 1;
    if k <= slot * per {
        0
    } else if k >= (slot + 1) * per {
        per as nat
    } else {
        (k - slot * per) as nat
    }
}

/// The counts of `slots` accounts after `k` lookups, where the accounts
/// start unused.
pub open spec fn rotated(slots: nat, k: nat) -> Seq<nat> {
    Seq::new(slots, |i: int| share(k, i))
}

/// Accounts are used one after the other. Starting with `slots` unused
/// accounts, lookup number `k`, counted from 0, goes to account
/// `k / (LOOKUP_QUOTA + 1)`: each account serves `LOOKUP_QUOTA + 1` lookups,
/// then the next one takes over. Once `slots * (LOOKUP_QUOTA + 1)` lookups
/// are made, no account is left, and the counts no longer change.
pub proof fn lemma_rotation(slots: nat, k: nat)
    ensures
        booked_times(rotated(slots, 0), k) == rotated(slots, k),
        first_open(rotated(slots, k)) == if k < slots * (LOOKUP_QUOTA + 1) {
            Some(k as int / (LOOKUP_QUOTA + 1))
        } else {
            None
        },
        k >= slots * (LOOKUP_QUOTA + 1) ==> booked(rotated(slots, k)) == rotated(slots, k),
    decreases k,
{
    assert(LOOKUP_QUOTA + 1 == 1001);
    let now = rotated(slots, k);
    lemma_first_open_from(now, 0);
    if k < slots * 1001 {
        assert(!exceeded(now[k as int / 1001]));
    }
    if k > 0 {
        let before = rotated(slots, (k - 1) as nat);
        lemma_rotation(slots, (k - 1) as nat);
        if k - 1 < slots * 1001 {
            let at = (k - 1) / 1001;
            assert(before.update(at, before[at] + 1) =~= now);
        } else {
            assert(before =~= now);
        }
    }
}

/// The accounts of the service, each with the count of its lookups.
pub struct SmartyClientProxy {
    state: Vec<ClientState>,
}

/// Why no bookkeeping could be set up.
#[derive(Debug, Clone, Copy, PartialEq, Eq, Structural)]
pub enum PoolError {
    /// There is no account at all.
    NoCredentials,
    /// A piece of the configuration is not an identifier, an equals sign and
    /// a secret.
    Malformed { pair: usize },
}

/// The identifier and the secret of one piece of the configuration: what
/// stands before its first equals sign, and what stands between that and
/// the next one, or the end.
pub open spec fn credential_of(i: int, pair: Seq<char>) -> Result<
    (Seq<char>, Seq<char>),
    PoolError,
> {
    let parts = split(pair, seq!['=']);
    if parts.len() >= 2 {
        Ok((parts[0], parts[1]))
    } else {
        Err(PoolError::Malformed { pair: i as usize })
    }
}

/// The accounts that a configuration names: its pieces between commas,
/// each an identifier and a secret.
pub open spec fn credentials_of(config: Seq<char>) -> Result<
    Seq<(Seq<char>, Seq<char>)>,
    PoolError,
> {
    try_map(split(config, seq![',']), |i: int, pair: Seq<char>| credential_of(i, pair))
}

/// The views of a list of accounts.
pub open spec fn credential_views(pairs: Seq<(String, String)>) -> Seq<(Seq<char>, Seq<char>)> {
    pairs.map_values(|p: (String, String)| (p.0@, p.1@))
}

impl View for SmartyClientProxy {
    type V = Seq<nat>;

    closed spec fn view(&self) -> Seq<nat> {
        self.state@.map_values(|s: ClientState| s.lookups())
    }
}

impl SmartyClientProxy {
    /// The bookkeeping for `slots` accounts, none of which has been asked
    /// yet.
    pub fn new(slots: usize) -> (r: Result<Self, PoolError>)
        ensures
            match r {
                Ok(proxy) => slots > 0 && proxy@ == rotated(slots as nat, 0),
                Err(e) => slots == 0 && e == PoolError::NoCredentials,
            },
    {
        if slots == 0 {
            return Err(PoolError::NoCredentials);
        }
        let mut state: Vec<ClientState> = Vec::new();
        while state.len() < slots
            invariant
                state.len() <= slots,
                forall|i: int| 0 <= i < state.len() ==> (#[trigger] state@[i]).lookups == 0,
            decreases slots - state.len(),
        {
            state.push(ClientState::default());
        }
        let proxy = SmartyClientProxy { state };
        Ok(proxy)
    }

    /// Reads the accounts from a configuration of the form
    /// `ID1=SECRET1,ID2=SECRET2`.
    pub fn credentials(config: &str) -> (r: Result<Vec<(String, String)>, PoolError>)
        ensures
            match r {
                Ok(pairs) => credentials_of(config@) == Ok::<_, PoolError>(
                    credential_views(pairs@),
                ),
                Err(e) => credentials_of(config@) == Err::<Seq<(Seq<char>, Seq<char>)>, _>(e),
            },
    {
        proof {
            reveal_strlit(",");
            reveal_strlit("=");
            assert(","@ =~= seq![',']);
        }
        let pieces = split_str(config, ",");
        let ghost all = split(config@, seq![',']);
        let ghost f = |i: int, pair: Seq<char>| credential_of(i, pair);
        let mut pairs: Vec<(String, String)> = Vec::new();
        let mut i: usize = 0;
        while i < pieces.len()
            invariant
                i <= pieces.len(),
                all == views(pieces@),
                all == split(config@, seq![',']),
                "="@ == seq!['='],
                f == |i: int, pair: Seq<char>| credential_of(i, pair),
                pairs.len() == i,
                forall|j: int|
                    0 <= j < i ==> #[trigger] f(j, all[j]) == Ok::<_, PoolError>(
                        (pairs[j].0@, pairs[j].1@),
                    ),
            decreases pieces.len() - i,
        {
            let parts = split_str(pieces[i], "=");
            if parts.len() < 2 {
                proof {
                    lemma_try_map_first_err(all, f, i as int);
                }
                return Err(PoolError::Malformed { pair: i });
            }
            pairs.push((parts[0].to_owned(), parts[1].to_owned()));
            i += 1;
        }
        proof {
            lemma_try_map_ok(all, f);
            assert(try_map(all, f)->Ok_0 =~= credential_views(pairs@));
        }
        Ok(pairs)
    }

    /// How many accounts there are.
    pub fn slots(&self) -> (n: usize)
        ensures
            n == self@.len(),
    {
        self.state.len()
    }

    /// The first account that is not used up.
    pub fn get_client_id(&self) -> (r: Option<usize>)
        ensures
            match r {
                Some(i) => first_open(self@) == Some(i as int),
                None => first_open(self@) is None,
            },
    {
        let mut i: usize = 0;
        while i < self.state.len()
            invariant
                i <= self.state.len(),
                first_open(self@) == first_open_from(self@, i as int),
            decreases self.state.len() - i,
        {
            if !self.state[i].is_exceeded() {
                return Some(i);
            }
            i += 1;
        }
        None
    }

    /// Counts one more lookup for the account at place `idx`.
    fn update_state(&mut self, idx: usize)
        requires
            idx < old(self)@.len(),
            !exceeded(old(self)@[idx as int]),
        ensures
            final(self)@ == old(self)@.update(idx as int, old(self)@[idx as int] + 1),
    {
        let lookups = self.state[idx].lookups;
        self.state.set(idx, ClientState { lookups: lookups + 1 });
    }

    /// Picks the account for the next lookup, and counts the lookup for it:
    /// the first account that is not used up. `None` where every account is
    /// used up; nothing is counted then.
    pub fn next_client(&mut self) -> (r: Option<usize>)
        ensures
            match r {
                Some(i) => first_open(old(self)@) == Some(i as int),
                None => first_open(old(self)@) is None,
            },
            final(self)@ == booked(old(self)@),
    {
        match self.get_client_id() {
            Some(idx) => {
                proof {
                    lemma_first_open_from(self@, 0);
                }
                self.update_state(idx);
                Some(idx)
            },
            None => None,
        }
    }
}

} // verus!
