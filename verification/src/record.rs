//! The rows of the result: a mailbox together with what the service told of
//! its address.

use crate::atmb::model::{Mailbox, MailboxView};
use crate::seqs::{present, take_present};
use crate::smarty::{AdditionalInfo, Rdi, YesOrNo};
use vstd::prelude::*;

verus! {

/// One row of the result.
#[derive(Debug)]
pub struct Record {
    name: String,
    street: String,
    city: String,
    state: String,
    zip: String,
    price: String,
    link: String,
    pub rdi: Rdi,
    pub cmra: YesOrNo,
}

/// A [`Record`] as sequences of characters.
pub struct RecordView {
    pub name: Seq<char>,
    pub street: Seq<char>,
    pub city: Seq<char>,
    pub state: Seq<char>,
    pub zip: Seq<char>,
    pub price: Seq<char>,
    pub link: Seq<char>,
    pub rdi: Rdi,
    pub cmra: YesOrNo,
}

impl View for Record {
    type V = RecordView;

    closed spec fn view(&self) -> RecordView {
        RecordView {
            name: self.name@,
            street: self.street@,
            city: self.city@,
            state: self.state@,
            zip: self.zip@,
            price: self.price@,
            link: self.link@,
            rdi: self.rdi,
            cmra: self.cmra,
        }
    }
}

/// The row for a mailbox: its fields, with the ZIP code and its extension in
/// one, and what the service told.
pub open spec fn record_of(mailbox: MailboxView, info: AdditionalInfo) -> RecordView {
    RecordView {
        name: mailbox.name,
        street: mailbox.address.line1,
        city: mailbox.address.city,
        state: mailbox.address.state,
        zip: mailbox.address.full_zip(),
        price: mailbox.price,
        link: mailbox.link,
        rdi: info.rdi,
        cmra: info.cmra,
    }
}

impl Record {
    /// The name of the mailbox.
    pub fn name(&self) -> (r: &str)
        ensures
            r@ == self@.name,
    {
        self.name.as_str()
    }

    /// The street of its address.
    pub fn street(&self) -> (r: &str)
        ensures
            r@ == self@.street,
    {
        self.street.as_str()
    }

    /// The city of its address.
    pub fn city(&self) -> (r: &str)
        ensures
            r@ == self@.city,
    {
        self.city.as_str()
    }

    /// The state of its address.
    pub fn state(&self) -> (r: &str)
        ensures
            r@ == self@.state,
    {
        self.state.as_str()
    }

    /// The ZIP code of its address, with the extension where there is one.
    pub fn zip(&self) -> (r: &str)
        ensures
            r@ == self@.zip,
    {
        self.zip.as_str()
    }

    /// The price of the mailbox.
    pub fn price(&self) -> (r: &str)
        ensures
            r@ == self@.price,
    {
        self.price.as_str()
    }

    /// The address of the page of the mailbox.
    pub fn link(&self) -> (r: &str)
        ensures
            r@ == self@.link,
    {
        self.link.as_str()
    }

    /// The row for a mailbox and what the service told of its address.
    pub fn from_mailbox_and_info(mailbox: Mailbox, info: AdditionalInfo) -> (r: Self)
        ensures
            r@ == record_of(mailbox@, info),
    {
        Record {
            zip: mailbox.address.full_zip(),
            name: mailbox.name,
            street: mailbox.address.line1,
            city: mailbox.address.city,
            state: mailbox.address.state,
            price: mailbox.price,
            link: mailbox.link,
            rdi: info.rdi,
            cmra: info.cmra,
        }
    }
}

/// The views of a list of rows.
pub open spec fn record_views(records: Seq<Record>) -> Seq<RecordView> {
    records.map_values(|r: Record| r@)
}

/// The views of a list of mailboxes with what the service told of each.
pub open spec fn pair_views(pairs: Seq<(Mailbox, AdditionalInfo)>) -> Seq<
    (MailboxView, AdditionalInfo),
> {
    pairs.map_values(|p: (Mailbox, AdditionalInfo)| (p.0@, p.1))
}

/// The place, at or after `from`, of the first pair that holds `mailbox`.
pub open spec fn position_from(
    pairs: Seq<(MailboxView, AdditionalInfo)>,
    mailbox: MailboxView,
    from: int,
) -> Option<int>
    decreases pairs.len() - from,
{
    if from < 0 || from >= pairs.len() {
        None
    } else if pairs[from].0 == mailbox {
        Some(from)
    } else {
        position_from(pairs, mailbox, from + 1)
    }
}

/// The place of the first pair that holds `mailbox`.
pub open spec fn position(
    pairs: Seq<(MailboxView, AdditionalInfo)>,
    mailbox: MailboxView,
) -> Option<int> {
    position_from(pairs, mailbox, 0)
}

/// The pairs with each mailbox kept once: at the place where it first
/// stands, with what the service told of it last.
pub open spec fn merged(pairs: Seq<(MailboxView, AdditionalInfo)>) -> Seq<
    (MailboxView, AdditionalInfo),
>
    decreases pairs.len(),
{
    if pairs.len() == 0 {
        Seq::empty()
    } else {
        let rest = merged(pairs.drop_last());
        match position(rest, pairs.last().0) {
            Some(i) => rest.update(i, pairs.last()),
            None => rest.push(pairs.last()),
        }
    }
}

/// `position_from` returns a pair that holds the mailbox, no pair between
/// `from` and it does, and it returns `None` only where no pair from `from`
/// on does.
pub proof fn lemma_position_from(
    pairs: Seq<(MailboxView, AdditionalInfo)>,
    mailbox: MailboxView,
    from: int,
)
    requires
        0 <= from,
    ensures
        match position_from(pairs, mailbox, from) {
            Some(i) => from <= i < pairs.len() && pairs[i].0 == mailbox && forall|j: int|
                from <= j < i ==> (#[trigger] pairs[j]).0 != mailbox,
            None => forall|j: int| from <= j < pairs.len() ==> (#[trigger] pairs[j]).0 != mailbox,
        },
    decreases pairs.len() - from,
{
    if from < pairs.len() && pairs[from].0 != mailbox {
        lemma_position_from(pairs, mailbox, from + 1);
    }
}

/// After merging no mailbox stands twice, every mailbox that stood there
/// still does, and no pair was added.
pub proof fn lemma_merged_keeps_each_once(pairs: Seq<(MailboxView, AdditionalInfo)>)
    ensures
        forall|i: int, j: int|
            0 <= i < j < merged(pairs).len() ==> (#[trigger] merged(pairs)[i]).0 != (
            #[trigger] merged(pairs)[j]).0,
        forall|i: int|
            0 <= i < pairs.len() ==> position(merged(pairs), (#[trigger] pairs[i]).0) is Some,
        merged(pairs).len() <= pairs.len(),
    decreases pairs.len(),
{
    if pairs.len() > 0 {
        let before = pairs.drop_last();
        let rest = merged(before);
        let last = pairs.last();
        let now = merged(pairs);
        lemma_merged_keeps_each_once(before);
        lemma_position_from(rest, last.0, 0);
        assert forall|i: int| 0 <= i < pairs.len() implies position(
            now,
            (#[trigger] pairs[i]).0,
        ) is Some by {
            let key = pairs[i].0;
            lemma_position_from(now, key, 0);
            if i < before.len() {
                assert(before[i] == pairs[i]);
                lemma_position_from(rest, key, 0);
                let at = position(rest, key)->0;
                assert(now[at].0 == key);
            } else {
                match position(rest, last.0) {
                    Some(at) => {
                        assert(now[at].0 == key);
                    },
                    None => {
                        assert(now[rest.len() as int].0 == key);
                    },
                }
            }
        }
    }
}

/// The place of the first pair that holds `mailbox`.
pub fn position_of(pairs: &Vec<(Mailbox, AdditionalInfo)>, mailbox: &Mailbox) -> (r: Option<usize>)
    ensures
        match r {
            Some(i) => position(pair_views(pairs@), mailbox@) == Some(i as int) && i < pairs.len(),
            None => position(pair_views(pairs@), mailbox@) is None,
        },
{
    let mut i: usize = 0;
    while i < pairs.len()
        invariant
            i <= pairs.len(),
            position(pair_views(pairs@), mailbox@) == position_from(
                pair_views(pairs@),
                mailbox@,
                i as int,
            ),
        decreases pairs.len() - i,
    {
        if pairs[i].0.same(mailbox) {
            return Some(i);
        }
        i += 1;
    }
    None
}

/// What the service told of the mailboxes, each mailbox kept once. An entry
/// of `outcomes` is `None` where the service told nothing of a mailbox; such
/// a mailbox is left out.
pub fn merge_inquiries(outcomes: Vec<Option<(Mailbox, AdditionalInfo)>>) -> (r: Vec<
    (Mailbox, AdditionalInfo),
>)
    ensures
        pair_views(r@) == merged(pair_views(present(outcomes@))),
{
    let found = take_present(outcomes);
    let ghost all = pair_views(found@);
    let mut r: Vec<(Mailbox, AdditionalInfo)> = Vec::new();
    for pair in it: found
        invariant
            all == pair_views(it.seq()),
            pair_views(r@) == merged(all.take(it.index() as int)),
    {
        assert(all.take(it.index() + 1).drop_last() =~= all.take(it.index() as int));
        match position_of(&r, &pair.0) {
            Some(i) => {
                r.set(i, pair);
            },
            None => {
                r.push(pair);
            },
        }
    }
    assert(all.take(all.len() as int) =~= all);
    r
}

/// The row for a mailbox, unless its address is that of a commercial mail
/// receiving agency: such a mailbox has no row.
pub open spec fn row_of(pair: (MailboxView, AdditionalInfo)) -> Option<RecordView> {
    if pair.1.cmra == YesOrNo::Y {
        None
    } else {
        Some(record_of(pair.0, pair.1))
    }
}

/// The rows for the mailboxes, in their order.
pub open spec fn rows_of(pairs: Seq<(MailboxView, AdditionalInfo)>) -> Seq<RecordView> {
    pairs.filter_map(|p: (MailboxView, AdditionalInfo)| row_of(p))
}

/// No row is that of a commercial mail receiving agency, and there are no
/// more rows than mailboxes.
pub proof fn lemma_rows_exclude_agencies(pairs: Seq<(MailboxView, AdditionalInfo)>)
    ensures
        forall|i: int|
            0 <= i < rows_of(pairs).len() ==> (#[trigger] rows_of(pairs)[i]).cmra == YesOrNo::N,
        rows_of(pairs).len() <= pairs.len(),
    decreases pairs.len(),
{
    let f = |p: (MailboxView, AdditionalInfo)| row_of(p);
    if pairs.len() == 0 {
        assert(rows_of(pairs) =~= Seq::<RecordView>::empty()) by {
            reveal(Seq::filter_map);
        }
    } else {
        let rest = pairs.drop_last();
        lemma_rows_exclude_agencies(rest);
        pairs.lemma_filter_map_take_succ(f, pairs.len() - 1);
    }
}

/// The rows of the result: one for each mailbox whose address is not that of
/// a commercial mail receiving agency.
pub fn build_records(enriched: Vec<(Mailbox, AdditionalInfo)>) -> (records: Vec<Record>)
    ensures
        record_views(records@) == rows_of(pair_views(enriched@)),
{
    let ghost all = pair_views(enriched@);
    let ghost f = |p: (MailboxView, AdditionalInfo)| row_of(p);
    let mut records: Vec<Record> = Vec::new();
    for pair in it: enriched
        invariant
            all == pair_views(it.seq()),
            f == |p: (MailboxView, AdditionalInfo)| row_of(p),
            record_views(records@) == all.take(it.index() as int).filter_map(f),
    {
        proof {
            all.lemma_filter_map_take_succ(f, it.index() as int);
        }
        let (mailbox, info) = pair;
        if !info.is_cmra() {
            records.push(Record::from_mailbox_and_info(mailbox, info));
        }
    }
    assert(all.take(all.len() as int) =~= all);
    records
}

/// The place of a row in the result: rows whose address is not that of a
/// commercial mail receiving agency come first; among those of one kind,
/// residential addresses come before commercial ones, and those come before
/// the ones of which nothing is known.
pub open spec fn rank(cmra: YesOrNo, rdi: Rdi) -> int {
    (match cmra {
        YesOrNo::N => 0int,
        YesOrNo::Y => 3int,
    }) + (match rdi {
        Rdi::Residential => 0int,
        Rdi::Commercial => 1int,
        Rdi::Unknown => 2int,
    })
}

/// The rows of rank `k`, in their order.
pub open spec fn with_rank(records: Seq<RecordView>, k: int) -> Seq<RecordView> {
    records.filter(|r: RecordView| rank(r.cmra, r.rdi) == k)
}

/// The rows of the ranks below `k` by rising rank, those of one rank in the
/// order that they had.
pub open spec fn below_rank(records: Seq<RecordView>, k: nat) -> Seq<RecordView>
    decreases k,
{
    if k == 0 {
        Seq::empty()
    } else {
        below_rank(records, (k - 1) as nat) + with_rank(records, k - 1)
    }
}

/// The rows by rising rank, those of one rank in the order that they had.
/// There are six ranks.
pub open spec fn by_rank(records: Seq<RecordView>) -> Seq<RecordView> {
    below_rank(records, 6)
}

/// The rows of the ranks below `k` all have a rank below `k`, and stand by
/// rising rank.
pub proof fn lemma_below_rank_sorted(records: Seq<RecordView>, k: nat)
    ensures
        forall|i: int|
            0 <= i < below_rank(records, k).len() ==> rank(
                (#[trigger] below_rank(records, k)[i]).cmra,
                below_rank(records, k)[i].rdi,
            ) < k,
        forall|i: int, j: int|
            0 <= i <= j < below_rank(records, k).len() ==> rank(
                (#[trigger] below_rank(records, k)[i]).cmra,
                below_rank(records, k)[i].rdi,
            ) <= rank(
                (#[trigger] below_rank(records, k)[j]).cmra,
                below_rank(records, k)[j].rdi,
            ),
    decreases k,
{
    if k > 0 {
        let low = below_rank(records, (k - 1) as nat);
        let same = with_rank(records, k - 1);
        let keep = |r: RecordView| rank(r.cmra, r.rdi) == k - 1;
        lemma_below_rank_sorted(records, (k - 1) as nat);
        assert forall|i: int| 0 <= i < same.len() implies rank(
            (#[trigger] same[i]).cmra,
            same[i].rdi,
        ) == k - 1 by {
            records.lemma_filter_pred(keep, i);
        }
    }
}

/// Sorted rows stand by rising rank.
pub proof fn lemma_by_rank_sorted(records: Seq<RecordView>)
    ensures
        forall|i: int, j: int|
            0 <= i <= j < by_rank(records).len() ==> rank(
                (#[trigger] by_rank(records)[i]).cmra,
                by_rank(records)[i].rdi,
            ) <= rank((#[trigger] by_rank(records)[j]).cmra, by_rank(records)[j].rdi),
{
    lemma_below_rank_sorted(records, 6);
}

/// The rows of the ranks below `k`, as a multiset, are the rows whose rank
/// is below `k`.
proof fn lemma_below_rank_push(records: Seq<RecordView>, row: RecordView, k: nat)
    ensures
        below_rank(records.push(row), k).to_multiset() == if rank(row.cmra, row.rdi) < k {
            below_rank(records, k).to_multiset().insert(row)
        } else {
            below_rank(records, k).to_multiset()
        },
    decreases k,
{
    broadcast use vstd::multiset::group_multiset_axioms;

    if k == 0 {
    } else {
        let keep = |r: RecordView| rank(r.cmra, r.rdi) == k - 1;
        lemma_below_rank_push(records, row, (k - 1) as nat);
        records.lemma_filter_push(row, keep);
        vstd::seq_lib::lemma_multiset_commutative(
            below_rank(records, (k - 1) as nat),
            with_rank(records, k - 1),
        );
        vstd::seq_lib::lemma_multiset_commutative(
            below_rank(records.push(row), (k - 1) as nat),
            with_rank(records.push(row), k - 1),
        );
        vstd::seq_lib::to_multiset_build(with_rank(records, k - 1), row);
        assert(below_rank(records.push(row), k).to_multiset() =~= if rank(row.cmra, row.rdi) < k {
            below_rank(records, k).to_multiset().insert(row)
        } else {
            below_rank(records, k).to_multiset()
        });
    }
}

/// Sorting neither adds a row nor loses one.
pub proof fn lemma_by_rank_permutes(records: Seq<RecordView>)
    ensures
        by_rank(records).to_multiset() == records.to_multiset(),
    decreases records.len(),
{
    if records.len() == 0 {
        reveal_with_fuel(below_rank, 7);
        assert(by_rank(records) =~= records) by {
            assert forall|k: int| with_rank(records, k) =~= records by {
                reveal(Seq::filter);
            }
        }
    } else {
        let rest = records.drop_last();
        let row = records.last();
        assert(records =~= rest.push(row));
        lemma_by_rank_permutes(rest);
        lemma_below_rank_push(rest, row, 6);
        vstd::seq_lib::to_multiset_build(rest, row);
    }
}

impl Record {
    /// The rank of the row, see [`rank`].
    pub fn rank(&self) -> (k: usize)
        ensures
            k == rank(self@.cmra, self@.rdi),
            k < 6,
    {
        let first: usize = match self.cmra {
            YesOrNo::N => 0,
            YesOrNo::Y => 3,
        };
        let second: usize = match self.rdi {
            Rdi::Residential => 0,
            Rdi::Commercial => 1,
            Rdi::Unknown => 2,
        };
        first + second
    }
}

/// Sorts the rows by rank; rows of one rank stay in the order that they had.
pub fn sort_records(records: Vec<Record>) -> (sorted: Vec<Record>)
    ensures
        record_views(sorted@) == by_rank(record_views(records@)),
{
    let ghost all = record_views(records@);
    let mut buckets: Vec<Vec<Record>> = Vec::new();
    while buckets.len() < 6
        invariant
            buckets.len() <= 6,
            forall|k: int| 0 <= k < buckets.len() ==> (#[trigger] buckets[k]).len() == 0,
        decreases 6 - buckets.len(),
    {
        buckets.push(Vec::new());
    }
    for record in it: records
        invariant
            all == record_views(it.seq()),
            buckets.len() == 6,
            forall|k: int|
                0 <= k < 6 ==> record_views(#[trigger] buckets[k]@) == with_rank(
                    all.take(it.index() as int),
                    k,
                ),
    {
        let ghost before = buckets@;
        let ghost done = all.take(it.index() as int);
        let k = record.rank();
        proof {
            assert(all.take(it.index() + 1) =~= done.push(record@));
            assert forall|j: int| 0 <= j < 6 implies with_rank(done.push(record@), j) == if j
                == k {
                with_rank(done, j).push(record@)
            } else {
                with_rank(done, j)
            } by {
                done.lemma_filter_push(record@, |r: RecordView| rank(r.cmra, r.rdi) == j);
            }
        }
        let mut bucket = Vec::new();
        std::mem::swap(&mut bucket, &mut buckets[k]);
        bucket.push(record);
        buckets.set(k, bucket);
        assert(record_views(buckets[k as int]@) =~= record_views(before[k as int]@).push(record@));
    }
    assert(all.take(all.len() as int) =~= all);
    let mut sorted: Vec<Record> = Vec::new();
    let mut k: usize = 0;
    while k < 6
        invariant
            k <= 6,
            buckets.len() == 6,
            forall|j: int| k <= j < 6 ==> record_views(#[trigger] buckets[j]@) == with_rank(all, j),
            record_views(sorted@) == below_rank(all, k as nat),
        decreases 6 - k,
    {
        let mut bucket = Vec::new();
        std::mem::swap(&mut bucket, &mut buckets[k]);
        sorted.append(&mut bucket);
        k += 1;
    }
    sorted
}

} // verus!
