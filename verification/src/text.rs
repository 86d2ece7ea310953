//! Character-level text operations: searching, splitting, tokenising and
//! filtering. Each is stated over `Seq<char>` and computed on `Vec<char>`.

use vstd::prelude::*;
use vstd::string::*;

verus! {

/// The characters with the Unicode `White_Space` property.
pub open spec fn is_whitespace(c: char) -> bool {
    let u = c as u32;
    ||| 0x09 <= u <= 0x0D
    ||| u == 0x20
    ||| u == 0x85
    ||| u == 0xA0
    ||| u == 0x1680
    ||| 0x2000 <= u <= 0x200A
    ||| u == 0x2028
    ||| u == 0x2029
    ||| u == 0x202F
    ||| u == 0x205F
    ||| u == 0x3000
}

/// Whether `c` has the Unicode `White_Space` property.
pub fn char_is_whitespace(c: char) -> (b: bool)
    ensures
        b == is_whitespace(c),
{
    let u: u32 = c as u32;
    (0x09 <= u && u <= 0x0D) || u == 0x20 || u == 0x85 || u == 0xA0 || u == 0x1680 || (0x2000 <= u
        && u <= 0x200A) || u == 0x2028 || u == 0x2029 || u == 0x202F || u == 0x205F || u == 0x3000
}

/// `pat` occurs in `s` starting at index `i`.
pub open spec fn occurs_at(s: Seq<char>, pat: Seq<char>, i: int) -> bool {
    &&& 0 <= i
    &&& i + pat.len() <= s.len()
    &&& s.subrange(i, i + pat.len()) == pat
}

/// The start of the leftmost occurrence of `pat` in `s` at or after `from`.
pub open spec fn find_from(s: Seq<char>, pat: Seq<char>, from: int) -> Option<int>
    decreases s.len() - from + 1,
{
    if from < 0 || from + pat.len() > s.len() {
        None
    } else if occurs_at(s, pat, from) {
        Some(from)
    } else {
        find_from(s, pat, from + 1)
    }
}

/// The start of the leftmost occurrence of `pat` in `s`.
pub open spec fn find(s: Seq<char>, pat: Seq<char>) -> Option<int> {
    find_from(s, pat, 0)
}

/// `find_from` returns an occurrence, no occurrence lies between `from` and
/// it, and it returns `None` only when there is no occurrence from `from` on.
pub proof fn lemma_find_from(s: Seq<char>, pat: Seq<char>, from: int)
    requires
        0 <= from,
    ensures
        match find_from(s, pat, from) {
            Some(i) => from <= i && occurs_at(s, pat, i) && forall|j: int|
                from <= j < i ==> !occurs_at(s, pat, j),
            None => forall|j: int| from <= j ==> !occurs_at(s, pat, j),
        },
    decreases s.len() - from + 1,
{
    if from + pat.len() > s.len() {
    } else if occurs_at(s, pat, from) {
    } else {
        lemma_find_from(s, pat, from + 1);
    }
}

/// Searching `s` from `from` is searching the suffix `s.skip(from)`.
pub proof fn lemma_find_from_skip(s: Seq<char>, pat: Seq<char>, from: int)
    requires
        0 <= from <= s.len(),
    ensures
        find(s.skip(from), pat) == match find_from(s, pat, from) {
            Some(i) => Some(i - from),
            None => None,
        },
{
    lemma_find_from_skip_at(s, pat, from, from);
}

/// Searching `s` from `at` is searching `s.skip(from)` from `at - from`.
proof fn lemma_find_from_skip_at(s: Seq<char>, pat: Seq<char>, from: int, at: int)
    requires
        0 <= from <= at,
        from <= s.len(),
    ensures
        find_from(s.skip(from), pat, at - from) == match find_from(s, pat, at) {
            Some(i) => Some(i - from),
            None => None,
        },
    decreases s.len() - at + 1,
{
    let t = s.skip(from);
    if at + pat.len() > s.len() {
    } else {
        assert(t.subrange(at - from, at - from + pat.len()) == s.subrange(at, at + pat.len()));
        if occurs_at(s, pat, at) {
        } else {
            lemma_find_from_skip_at(s, pat, from, at + 1);
        }
    }
}

/// The pieces of `s` between the occurrences of `sep`, found from the left
/// and not overlapping. An empty separator leaves `s` in one piece.
pub open spec fn split(s: Seq<char>, sep: Seq<char>) -> Seq<Seq<char>>
    decreases s.len(),
{
    match find(s, sep) {
        Some(i) if sep.len() > 0 && 0 <= i && i + sep.len() <= s.len() => seq![s.take(i)] + split(
            s.skip(i + sep.len()),
            sep,
        ),
        _ => seq![s],
    }
}

/// How many characters at the start of `s` are whitespace (`white`) or are
/// not (`!white`).
pub open spec fn leading(s: Seq<char>, white: bool) -> nat
    decreases s.len(),
{
    if s.len() > 0 && is_whitespace(s[0]) == white {
        1 + leading(s.skip(1), white)
    } else {
        0
    }
}

/// No more characters are counted than `s` has.
pub proof fn lemma_leading_bound(s: Seq<char>, white: bool)
    ensures
        leading(s, white) <= s.len(),
    decreases s.len(),
{
    if s.len() > 0 && is_whitespace(s[0]) == white {
        lemma_leading_bound(s.skip(1), white);
    }
}

/// The maximal runs of characters of `s` that hold no whitespace, in order.
pub open spec fn tokens(s: Seq<char>) -> Seq<Seq<char>>
    decreases s.len(),
{
    let a = leading(s, true) as int;
    let b = leading(s.skip(a), false) as int;
    if b == 0 {
        seq![]
    } else {
        proof {
            lemma_leading_bound(s, true);
            lemma_leading_bound(s.skip(a), false);
        }
        seq![s.subrange(a, a + b)] + tokens(s.skip(a + b))
    }
}

/// `s` without the leftmost occurrence of `pat`, if there is one.
pub open spec fn remove_first(s: Seq<char>, pat: Seq<char>) -> Seq<char> {
    match find(s, pat) {
        Some(i) => s.take(i) + s.skip(i + pat.len()),
        None => s,
    }
}

/// `s` without its whitespace characters.
pub open spec fn remove_whitespace(s: Seq<char>) -> Seq<char> {
    s.filter(|c: char| !is_whitespace(c))
}

/// `s` begins with `prefix`.
pub open spec fn starts_with(s: Seq<char>, prefix: Seq<char>) -> bool {
    occurs_at(s, prefix, 0)
}

/// The lower-case form of an ASCII capital letter; any other character is
/// left as it is.
pub open spec fn ascii_lower(c: char) -> char {
    if 'A' <= c <= 'Z' {
        ((c as u8) + 32) as char
    } else {
        c
    }
}

/// `s` with each ASCII capital letter in lower case.
pub open spec fn ascii_lowercase(s: Seq<char>) -> Seq<char> {
    s.map_values(|c: char| ascii_lower(c))
}

/// Where `sep` does not occur in `s`, `s` stays in one piece; else the
/// first piece is what stands before the leftmost occurrence, and the other
/// pieces are those of what stands behind it.
pub proof fn lemma_split_at_first(s: Seq<char>, sep: Seq<char>)
    requires
        sep.len() > 0,
    ensures
        match find(s, sep) {
            Some(i) => 0 <= i && i + sep.len() <= s.len() && split(s, sep) == seq![s.take(i)]
                + split(s.skip(i + sep.len()), sep),
            None => split(s, sep) == seq![s],
        },
        split(s, sep).len() >= 2 <==> find(s, sep) is Some,
{
    lemma_find_from(s, sep, 0);
}

/// Nothing of what `remove_whitespace` leaves is whitespace.
pub proof fn lemma_remove_whitespace(s: Seq<char>)
    ensures
        forall|i: int|
            0 <= i < remove_whitespace(s).len() ==> !is_whitespace(
                #[trigger] remove_whitespace(s)[i],
            ),
        remove_whitespace(s).len() <= s.len(),
{
    let keep = |c: char| !is_whitespace(c);
    s.lemma_filter_len(keep);
    assert forall|i: int| 0 <= i < s.filter(keep).len() implies !is_whitespace(
        #[trigger] s.filter(keep)[i],
    ) by {
        s.lemma_filter_pred(keep, i);
    }
}

/// The views of a sequence of string slices.
pub open spec fn views(parts: Seq<&str>) -> Seq<Seq<char>> {
    parts.map_values(|p: &str| p@)
}

/// The characters of a string slice, in order.
pub fn to_chars(s: &str) -> (v: Vec<char>)
    ensures
        v@ == s@,
{
    let mut v: Vec<char> = Vec::new();
    for c in it: s.chars()
        invariant
            v@ == it.seq().take(it.index() as int),
            it.seq() == s@,
    {
        v.push(c);
    }
    v
}

/// Whether `pat` occurs in `s` at index `i`.
pub fn matches_at(s: &Vec<char>, pat: &Vec<char>, i: usize) -> (b: bool)
    ensures
        b == occurs_at(s@, pat@, i as int),
{
    if pat.len() > s.len() || i > s.len() - pat.len() {
        return false;
    }
    let mut k: usize = 0;
    while k < pat.len()
        invariant
            k <= pat.len(),
            i + pat.len() <= s.len(),
            forall|j: int| 0 <= j < k ==> s@[i + j] == pat@[j],
        decreases pat.len() - k,
    {
        if s[i + k] != pat[k] {
            return false;
        }
        k += 1;
    }
    assert(s@.subrange(i as int, i + pat.len()) =~= pat@);
    true
}

/// The start of the leftmost occurrence of `pat` in `s` at or after `from`.
pub fn find_in(s: &Vec<char>, pat: &Vec<char>, from: usize) -> (r: Option<usize>)
    ensures
        match r {
            Some(i) => find_from(s@, pat@, from as int) == Some(i as int),
            None => find_from(s@, pat@, from as int) is None,
        },
{
    if pat.len() > s.len() {
        return None;
    }
    if pat.len() == 0 {
        assert(from <= s.len() ==> s@.subrange(from as int, from as int) =~= pat@);
        return if from <= s.len() {
            Some(from)
        } else {
            None
        };
    }
    let last: usize = s.len() - pat.len();
    let mut i: usize = from;
    while i <= last
        invariant
            last + pat.len() == s.len(),
            pat.len() > 0,
            from <= i,
            find_from(s@, pat@, from as int) == find_from(s@, pat@, i as int),
        decreases last + 1 - i,
    {
        if matches_at(s, pat, i) {
            return Some(i);
        }
        i += 1;
    }
    None
}

/// Splits `s` at every occurrence of `sep`; the pieces borrow from `s`.
pub fn split_str<'a>(s: &'a str, sep: &str) -> (parts: Vec<&'a str>)
    ensures
        views(parts@) == split(s@, sep@),
{
    let chars = to_chars(s);
    let pat = to_chars(sep);
    let n: usize = chars.len();
    let mut parts: Vec<&'a str> = Vec::new();
    if pat.len() == 0 {
        parts.push(s);
        return parts;
    }
    let mut start: usize = 0;
    assert(s@.skip(0) =~= s@);
    loop
        invariant
            chars@ == s@,
            pat@ == sep@,
            pat.len() > 0,
            n == chars.len(),
            start <= n,
            split(s@, sep@) == views(parts@) + split(s@.skip(start as int), sep@),
        decreases n - start,
    {
        let ghost rest = s@.skip(start as int);
        proof {
            lemma_find_from(s@, sep@, start as int);
            lemma_find_from_skip(s@, sep@, start as int);
        }
        match find_in(&chars, &pat, start) {
            Some(i) => {
                parts.push(s.substring_char(start, i));
                proof {
                    assert(rest.take(i - start) =~= s@.subrange(start as int, i as int));
                    assert(rest.skip(i - start + sep@.len()) =~= s@.skip(i + sep@.len()));
                }
                start = i + pat.len();
            },
            None => {
                parts.push(s.substring_char(start, n));
                return parts;
            },
        }
    }
}

/// How many characters of `s` from `from` on are whitespace (`white`) or
/// are not (`!white`), up to the first of the other kind.
pub fn count_leading(s: &Vec<char>, from: usize, white: bool) -> (k: usize)
    requires
        from <= s.len(),
    ensures
        k == leading(s@.skip(from as int), white),
        from + k <= s.len(),
{
    let mut i: usize = from;
    while i < s.len() && char_is_whitespace(s[i]) == white
        invariant
            from <= i <= s.len(),
            leading(s@.skip(from as int), white) == (i - from) + leading(s@.skip(i as int), white),
        decreases s.len() - i,
    {
        assert(s@.skip(i as int).skip(1) =~= s@.skip(i + 1));
        i += 1;
    }
    i - from
}

/// The whitespace-delimited tokens of `s`; they borrow from `s`.
pub fn tokens_of<'a>(s: &'a str) -> (parts: Vec<&'a str>)
    ensures
        views(parts@) == tokens(s@),
{
    let chars = to_chars(s);
    let mut parts: Vec<&'a str> = Vec::new();
    let mut start: usize = 0;
    assert(s@.skip(0) =~= s@);
    loop
        invariant
            chars@ == s@,
            start <= chars.len(),
            tokens(s@) == views(parts@) + tokens(s@.skip(start as int)),
        decreases chars.len() - start,
    {
        let ghost rest = s@.skip(start as int);
        let a = count_leading(&chars, start, true);
        assert(rest.skip(a as int) =~= s@.skip(start + a));
        let b = count_leading(&chars, start + a, false);
        if b == 0 {
            return parts;
        }
        parts.push(s.substring_char(start + a, start + a + b));
        proof {
            assert(rest.subrange(a as int, a + b) =~= s@.subrange(start + a, start + a + b));
            assert(rest.skip(a + b) =~= s@.skip(start + a + b));
        }
        start = start + a + b;
    }
}

/// `String::push`: the string grows by the one character, at its end.
#[verifier::external_body]
fn push_char(s: &mut String, c: char)
    ensures
        final(s)@ == old(s)@.push(c),
{
    s.push(c);
}

/// Appends to `out` the characters of `s` in `from..to` that are not
/// whitespace.
pub fn push_without_whitespace(out: &mut String, s: &Vec<char>, from: usize, to: usize)
    requires
        from <= to <= s.len(),
    ensures
        final(out)@ == old(out)@ + remove_whitespace(s@.subrange(from as int, to as int)),
{
    let ghost keep = |c: char| !is_whitespace(c);
    let mut i: usize = from;
    while i < to
        invariant
            from <= i <= to <= s.len(),
            keep == |c: char| !is_whitespace(c),
            out@ == old(out)@ + s@.subrange(from as int, i as int).filter(keep),
        decreases to - i,
    {
        let c = s[i];
        proof {
            let done = s@.subrange(from as int, i as int);
            assert(s@.subrange(from as int, i + 1) =~= done.push(c));
            done.lemma_filter_push(c, keep);
        }
        if !char_is_whitespace(c) {
            push_char(out, c);
        }
        i += 1;
    }
}

/// The lower-case form of an ASCII capital letter; any other character is
/// returned as it is.
pub fn char_ascii_lower(c: char) -> (r: char)
    ensures
        r == ascii_lower(c),
{
    if 'A' <= c && c <= 'Z' {
        ((c as u8) + 32) as char
    } else {
        c
    }
}

/// Whether `s` is `word` once each ASCII capital letter of `s` is put in
/// lower case.
pub fn lowercase_is(s: &str, word: &str) -> (b: bool)
    ensures
        b == (ascii_lowercase(s@) == word@),
{
    let a = to_chars(s);
    let w = to_chars(word);
    if a.len() != w.len() {
        return false;
    }
    let mut i: usize = 0;
    while i < a.len()
        invariant
            a@ == s@,
            w@ == word@,
            a.len() == w.len(),
            i <= a.len(),
            forall|j: int| 0 <= j < i ==> ascii_lower(a@[j]) == w@[j],
        decreases a.len() - i,
    {
        if char_ascii_lower(a[i]) != w[i] {
            return false;
        }
        i += 1;
    }
    assert(ascii_lowercase(s@) =~= word@);
    true
}

} // verus!
