//! Character-level string helpers used by the parsers of this crate.

use vstd::prelude::*;

verus! {

/// The index of the last occurrence of `d` in `s`, if any.
pub open spec fn last_index_of(s: Seq<char>, d: char) -> Option<int>
    decreases s.len(),
{
    if s.len() == 0 {
        None
    } else if s.last() == d {
        Some(s.len() - 1)
    } else {
        last_index_of(s.drop_last(), d)
    }
}

/// Splits `s` on the last occurrence of `d`, returning the text before and
/// the text after it.
pub open spec fn spec_rsplit_once(s: Seq<char>, d: char) -> Option<(Seq<char>, Seq<char>)> {
    match last_index_of(s, d) {
        Some(i) => Some((s.subrange(0, i), s.subrange(i + 1, s.len() as int))),
        None => None,
    }
}

/// `last_index_of` is characterised by: `s[i] == d` and no later `d`.
pub proof fn lemma_last_index_of_char(s: Seq<char>, d: char, i: int)
    requires
        0 <= i < s.len(),
        s[i] == d,
        forall|j: int| i < j < s.len() ==> s[j] != d,
    ensures
        last_index_of(s, d) == Some(i),
    decreases s.len(),
{
    if i < s.len() - 1 {
        lemma_last_index_of_char(s.drop_last(), d, i);
    }
}

pub proof fn lemma_no_index_of_char(s: Seq<char>, d: char)
    requires
        forall|j: int| 0 <= j < s.len() ==> s[j] != d,
    ensures
        last_index_of(s, d) is None,
    decreases s.len(),
{
    if s.len() > 0 {
        lemma_no_index_of_char(s.drop_last(), d);
    }
}

/// Splits `s` on the last occurrence of `d` (as `str::rsplit_once` does).
pub fn rsplit_once_char<'a>(s: &'a str, d: char) -> (r: Option<(&'a str, &'a str)>)
    ensures
        match (r, spec_rsplit_once(s@, d)) {
            (Some((a, b)), Some((x, y))) => a@ == x && b@ == y,
            (None, None) => true,
            _ => false,
        },
{
    let n = s.unicode_len();
    let mut i = n;
    while i > 0
        invariant
            i <= n,
            n == s@.len(),
            forall|j: int| i <= j < n ==> s@[j] != d,
        decreases i,
    {
        let c = s.get_char(i - 1);
        if c == d {
            proof {
                lemma_last_index_of_char(s@, d, (i - 1) as int);
            }
            let before = s.substring_char(0, i - 1);
            let after = s.substring_char(i, n);
            return Some((before, after));
        }
        i = i - 1;
    }
    proof {
        lemma_no_index_of_char(s@, d);
    }
    None
}

/// Whether two strings hold the same characters.
pub fn str_eq(a: &str, b: &str) -> (r: bool)
    ensures
        r == (a@ == b@),
{
    let n = a.unicode_len();
    let m = b.unicode_len();
    if n != m {
        return false;
    }
    let mut i: usize = 0;
    while i < n
        invariant
            i <= n,
            n == a@.len(),
            m == b@.len(),
            n == m,
            forall|j: int| 0 <= j < i ==> a@[j] == b@[j],
        decreases n - i,
    {
        if a.get_char(i) != b.get_char(i) {
            return false;
        }
        i = i + 1;
    }
    assert(a@ =~= b@);
    true
}

} // verus!

verus! {

proof fn lemma_last_index_of_props(s: Seq<char>, d: char)
    ensures
        match last_index_of(s, d) {
            Some(i) => 0 <= i < s.len() && s[i] == d && forall|j: int| i < j < s.len() ==> s[j] != d,
            None => forall|j: int| 0 <= j < s.len() ==> s[j] != d,
        },
    decreases s.len(),
{
    if s.len() > 0 {
        lemma_last_index_of_props(s.drop_last(), d);
        if s.last() != d {
            assert forall|j: int| 0 <= j < s.len() - 1 implies s[j] == s.drop_last()[j] by {}
        }
    }
}

/// Splitting on the last delimiter loses nothing: the two parts joined by
/// the delimiter give back the text, and the second part holds no delimiter;
/// a text without the delimiter is not split.
pub proof fn law_rsplit_roundtrip(s: Seq<char>, d: char)
    ensures
        match spec_rsplit_once(s, d) {
            Some((a, b)) => s == a + seq![d] + b && !b.contains(d),
            None => !s.contains(d),
        },
{
    lemma_last_index_of_props(s, d);
    if let Some((a, b)) = spec_rsplit_once(s, d) {
        assert(s =~= a + seq![d] + b);
        let i = last_index_of(s, d)->0;
        assert forall|k: int| 0 <= k < b.len() implies b[k] != d by {
            assert(b[k] == s[i + 1 + k]);
        }
    }
}

/// Joining two texts with a delimiter that the second does not hold, and
/// splitting the result on its last delimiter, gives the two texts back.
pub proof fn law_rsplit_of_join(a: Seq<char>, b: Seq<char>, d: char)
    requires
        !b.contains(d),
    ensures
        spec_rsplit_once(a + seq![d] + b, d) == Some((a, b)),
{
    let s = a + seq![d] + b;
    let i = a.len() as int;
    assert(s[i] == d);
    assert forall|j: int| i < j < s.len() implies s[j] != d by {
        assert(s[j] == b[j - i - 1]);
    }
    lemma_last_index_of_char(s, d, i);
    assert(s.subrange(0, i) =~= a);
    assert(s.subrange(i + 1, s.len() as int) =~= b);
}

} // verus!

verus! {

/// The decimal digit for `d` (`0 <= d < 10`).
pub open spec fn digit_char(d: int) -> char {
    if d == 0 { '0' }
    else if d == 1 { '1' }
    else if d == 2 { '2' }
    else if d == 3 { '3' }
    else if d == 4 { '4' }
    else if d == 5 { '5' }
    else if d == 6 { '6' }
    else if d == 7 { '7' }
    else if d == 8 { '8' }
    else { '9' }
}

/// The decimal text of a natural number, without leading zeros.
pub open spec fn decimal(n: nat) -> Seq<char>
    decreases n,
{
    if n < 10 {
        seq![digit_char(n as int)]
    } else {
        decimal(n / 10) + seq![digit_char((n % 10) as int)]
    }
}

fn digit_string(d: u64) -> (r: String)
    requires
        d < 10,
    ensures
        r@ == seq![digit_char(d as int)],
{
    proof {
        reveal_strlit("0");
        reveal_strlit("1");
        reveal_strlit("2");
        reveal_strlit("3");
        reveal_strlit("4");
        reveal_strlit("5");
        reveal_strlit("6");
        reveal_strlit("7");
        reveal_strlit("8");
        reveal_strlit("9");
    }
    let s = if d == 0 { "0" }
    else if d == 1 { "1" }
    else if d == 2 { "2" }
    else if d == 3 { "3" }
    else if d == 4 { "4" }
    else if d == 5 { "5" }
    else if d == 6 { "6" }
    else if d == 7 { "7" }
    else if d == 8 { "8" }
    else { "9" };
    s.to_string()
}

/// The decimal text of `n` (what `n.to_string()` gives).
pub fn u64_to_decimal(n: u64) -> (r: String)
    ensures
        r@ == decimal(n as nat),
    decreases n,
{
    if n < 10 {
        digit_string(n)
    } else {
        let mut r = u64_to_decimal(n / 10);
        let last = digit_string(n % 10);
        r.append(last.as_str());
        r
    }
}

} // verus!

verus! {

proof fn lemma_digit_char_injective(a: int, b: int)
    requires
        0 <= a < 10,
        0 <= b < 10,
        digit_char(a) == digit_char(b),
    ensures
        a == b,
{
}

proof fn lemma_decimal_len(n: nat)
    ensures
        decimal(n).len() >= 1,
        n >= 10 ==> decimal(n).len() >= 2,
    decreases n,
{
    if n >= 10 {
        lemma_decimal_len(n / 10);
    }
}

/// Different numbers have different decimal texts.
pub proof fn law_decimal_injective(a: nat, b: nat)
    requires
        decimal(a) == decimal(b),
    ensures
        a == b,
    decreases a,
{
    lemma_decimal_len(a);
    lemma_decimal_len(b);
    let da = decimal(a);
    let db = decimal(b);
    if a < 10 && b < 10 {
        assert(da[0] == db[0]);
        lemma_digit_char_injective(a as int, b as int);
    } else if a >= 10 && b >= 10 {
        assert(da.last() == db.last());
        assert(da.last() == digit_char((a % 10) as int));
        assert(db.last() == digit_char((b % 10) as int));
        lemma_digit_char_injective((a % 10) as int, (b % 10) as int);
        assert(decimal(a / 10) =~= da.drop_last());
        assert(decimal(b / 10) =~= db.drop_last());
        law_decimal_injective(a / 10, b / 10);
    } else {
        assert(da.len() != db.len());
    }
}

} // verus!

verus! {

/// The index of the first occurrence of `d` in `s`, if any.
pub open spec fn first_index_of(s: Seq<char>, d: char) -> Option<int>
    decreases s.len(),
{
    if s.len() == 0 {
        None
    } else if s[0] == d {
        Some(0)
    } else {
        match first_index_of(s.drop_first(), d) {
            Some(i) => Some(i + 1),
            None => None,
        }
    }
}

/// Splits `s` on the first occurrence of `d` (as `str::split_once` does).
pub open spec fn spec_split_once(s: Seq<char>, d: char) -> Option<(Seq<char>, Seq<char>)> {
    match first_index_of(s, d) {
        Some(i) => Some((s.subrange(0, i), s.subrange(i + 1, s.len() as int))),
        None => None,
    }
}

proof fn lemma_first_index_of_char(s: Seq<char>, d: char, i: int)
    requires
        0 <= i < s.len(),
        s[i] == d,
        forall|j: int| 0 <= j < i ==> s[j] != d,
    ensures
        first_index_of(s, d) == Some(i),
    decreases i,
{
    if i > 0 {
        lemma_first_index_of_char(s.drop_first(), d, i - 1);
    }
}

proof fn lemma_no_first_index_of(s: Seq<char>, d: char)
    requires
        forall|j: int| 0 <= j < s.len() ==> s[j] != d,
    ensures
        first_index_of(s, d) is None,
    decreases s.len(),
{
    if s.len() > 0 {
        lemma_no_first_index_of(s.drop_first(), d);
    }
}

/// Splits `s` on the first occurrence of `d`.
pub fn split_once_char<'a>(s: &'a str, d: char) -> (r: Option<(&'a str, &'a str)>)
    ensures
        match (r, spec_split_once(s@, d)) {
            (Some((a, b)), Some((x, y))) => a@ == x && b@ == y,
            (None, None) => true,
            _ => false,
        },
{
    let n = s.unicode_len();
    let mut i: usize = 0;
    while i < n
        invariant
            i <= n,
            n == s@.len(),
            forall|j: int| 0 <= j < i ==> s@[j] != d,
        decreases n - i,
    {
        if s.get_char(i) == d {
            proof {
                lemma_first_index_of_char(s@, d, i as int);
            }
            let before = s.substring_char(0, i);
            let after = s.substring_char(i + 1, n);
            return Some((before, after));
        }
        i = i + 1;
    }
    proof {
        lemma_no_first_index_of(s@, d);
    }
    None
}

} // verus!
