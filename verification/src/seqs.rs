//! Sequences mapped item by item, where an item may fail.

use vstd::prelude::*;

verus! {

/// `f` applied to each item of `s` with its index: the results in order, or
/// the error of the first item on which `f` fails.
pub open spec fn try_map<A, B, E>(s: Seq<A>, f: spec_fn(int, A) -> Result<B, E>) -> Result<
    Seq<B>,
    E,
>
    decreases s.len(),
{
    if s.len() == 0 {
        Ok(Seq::empty())
    } else {
        match try_map(s.drop_last(), f) {
            Err(e) => Err(e),
            Ok(done) => match f(s.len() - 1, s.last()) {
                Ok(b) => Ok(done.push(b)),
                Err(e) => Err(e),
            },
        }
    }
}

/// A successful `try_map` holds the result of every item, and `try_map`
/// succeeds where `f` does on every item.
pub proof fn lemma_try_map_ok<A, B, E>(s: Seq<A>, f: spec_fn(int, A) -> Result<B, E>)
    ensures
        try_map(s, f) matches Ok(v) ==> v.len() == s.len() && forall|i: int|
            0 <= i < s.len() ==> f(i, s[i]) == Ok::<B, E>(#[trigger] v[i]),
        (forall|i: int| 0 <= i < s.len() ==> (#[trigger] f(i, s[i])) is Ok) ==> try_map(s, f) is Ok,
    decreases s.len(),
{
    if s.len() > 0 {
        let t = s.drop_last();
        lemma_try_map_ok(t, f);
    }
}

/// Once a prefix of `s` has failed, `s` fails with the same error.
pub proof fn lemma_try_map_prefix<A, B, E>(
    s: Seq<A>,
    f: spec_fn(int, A) -> Result<B, E>,
    n: int,
)
    requires
        0 <= n <= s.len(),
        try_map(s.take(n), f) is Err,
    ensures
        try_map(s, f) == try_map(s.take(n), f),
    decreases s.len() - n,
{
    if n < s.len() {
        assert(s.take(n + 1).drop_last() =~= s.take(n));
        lemma_try_map_prefix(s, f, n + 1);
    } else {
        assert(s.take(n) =~= s);
    }
}

/// `try_map` fails with the error of the first item on which `f` fails.
pub proof fn lemma_try_map_first_err<A, B, E>(
    s: Seq<A>,
    f: spec_fn(int, A) -> Result<B, E>,
    i: int,
)
    requires
        0 <= i < s.len(),
        f(i, s[i]) is Err,
        forall|j: int| 0 <= j < i ==> (#[trigger] f(j, s[j])) is Ok,
    ensures
        try_map(s, f) == Err::<Seq<B>, E>(f(i, s[i])->Err_0),
{
    let p = s.take(i);
    lemma_try_map_ok(p, f);
    assert(s.take(i + 1).drop_last() =~= p);
    lemma_try_map_prefix(s, f, i + 1);
}

/// The items of `s` that are there, in order.
pub open spec fn present<T>(s: Seq<Option<T>>) -> Seq<T> {
    s.filter_map(|o: Option<T>| o)
}

/// No more items are there than places, and as many only where none is
/// missing.
pub proof fn lemma_present_len<T>(s: Seq<Option<T>>)
    ensures
        present(s).len() <= s.len(),
        present(s).len() == s.len() <==> forall|i: int|
            0 <= i < s.len() ==> (#[trigger] s[i]) is Some,
    decreases s.len(),
{
    reveal(Seq::filter_map);
    if s.len() > 0 {
        let t = s.drop_last();
        lemma_present_len(t);
        assert(forall|i: int| 0 <= i < t.len() ==> t[i] == s[i]);
    }
}

/// Takes the items that are there out of `items`, in order.
pub fn take_present<T>(items: Vec<Option<T>>) -> (r: Vec<T>)
    ensures
        r@ == present(items@),
{
    let ghost f = |o: Option<T>| o;
    let ghost all = items@;
    let mut r: Vec<T> = Vec::new();
    for item in it: items
        invariant
            it.seq() == all,
            f == |o: Option<T>| o,
            r@ == all.take(it.index() as int).filter_map(f),
    {
        proof {
            all.lemma_filter_map_take_succ(f, it.index() as int);
        }
        match item {
            Some(t) => {
                r.push(t);
            },
            None => {},
        }
    }
    assert(all.take(all.len() as int) =~= all);
    r
}

} // verus!
