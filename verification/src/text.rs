//! Character-level helpers over strings and character vectors.

use vstd::prelude::*;

verus! {

/// Calls `String::push`, which std documents as appending the character to the
/// end of the string; the contract states just that.
#[verifier::external_body]
pub(crate) fn push_char(s: &mut String, c: char)
    ensures
        final(s)@ == old(s)@.push(c),
{
    s.push(c);
}

/// The characters of `s`, in order.
pub fn chars_of(s: &str) -> (res: Vec<char>)
    ensures
        res@ == s@,
{
    let mut res: Vec<char> = Vec::new();
    for c in it: s.chars()
        invariant
            it.seq() == s@,
            res@ == s@.take(it.index() as int),
    {
        proof {
            assert(s@.take(it.index() + 1) == s@.take(it.index() as int).push(c));
        }
        res.push(c);
    }
    proof {
        assert(s@.take(s@.len() as int) == s@);
    }
    res
}

/// The string made of `v[lo..hi]`.
pub fn string_from(v: &Vec<char>, lo: usize, hi: usize) -> (res: String)
    requires
        lo <= hi <= v.len(),
    ensures
        res@ == v@.subrange(lo as int, hi as int),
{
    let mut res = String::new();
    let mut i = lo;
    while i < hi
        invariant
            lo <= i <= hi <= v.len(),
            res@ == v@.subrange(lo as int, i as int),
        decreases hi - i,
    {
        push_char(&mut res, v[i]);
        proof {
            assert(v@.subrange(lo as int, i + 1) == v@.subrange(lo as int, i as int).push(v@[i as int]));
        }
        i = i + 1;
    }
    res
}

/// Whether `v[lo..hi]` is exactly `w`.
pub fn range_eq(v: &Vec<char>, lo: usize, hi: usize, w: &Vec<char>) -> (res: bool)
    requires
        lo <= hi <= v.len(),
    ensures
        res == (v@.subrange(lo as int, hi as int) == w@),
{
    if hi - lo != w.len() {
        return false;
    }
    let mut i: usize = 0;
    while i < w.len()
        invariant
            lo <= hi <= v.len(),
            hi - lo == w.len(),
            i <= w.len(),
            forall|m: int| 0 <= m < i ==> v@[lo + m] == w@[m],
        decreases w.len() - i,
    {
        if v[lo + i] != w[i] {
            proof {
                assert(v@.subrange(lo as int, hi as int)[i as int] != w@[i as int]);
            }
            return false;
        }
        i = i + 1;
    }
    proof {
        assert(v@.subrange(lo as int, hi as int) =~= w@);
    }
    true
}

/// Index of the first `c` at or after `i` in `s`, or `s.len()` when there is none.
pub open spec fn find_char(s: Seq<char>, c: char, i: int) -> int
    decreases s.len() - i,
{
    if i >= s.len() {
        s.len() as int
    } else if s[i] == c {
        i
    } else {
        find_char(s, c, i + 1)
    }
}

pub proof fn lemma_find_char(s: Seq<char>, c: char, i: int)
    requires
        0 <= i <= s.len(),
    ensures
        i <= find_char(s, c, i) <= s.len(),
        forall|m: int| i <= m < find_char(s, c, i) ==> s[m] != c,
        find_char(s, c, i) < s.len() ==> s[find_char(s, c, i)] == c,
    decreases s.len() - i,
{
    if i < s.len() && s[i] != c {
        lemma_find_char(s, c, i + 1);
    }
}

/// The position of the first `c` in `v[lo..hi]`, or `hi` when there is none.
pub fn find_in(v: &Vec<char>, c: char, lo: usize, hi: usize) -> (res: usize)
    requires
        lo <= hi <= v.len(),
    ensures
        res == lo + find_char(v@.subrange(lo as int, hi as int), c, 0),
        lo <= res <= hi,
{
    let ghost s = v@.subrange(lo as int, hi as int);
    let mut i = lo;
    while i < hi
        invariant
            lo <= i <= hi <= v.len(),
            s == v@.subrange(lo as int, hi as int),
            find_char(s, c, 0) == find_char(s, c, i - lo),
        decreases hi - i,
    {
        if v[i] == c {
            return i;
        }
        i = i + 1;
    }
    i
}

/// `a` followed by `b`.
pub fn concat(a: &str, b: &str) -> (res: String)
    ensures
        res@ == a@ + b@,
{
    let mut res = String::new();
    res.append(a);
    res.append(b);
    res
}

/// The decimal digit character for `d`.
pub open spec fn digit_char(d: int) -> char {
    (('0' as int) + d) as char
}

/// The decimal text of `n`, without leading zeros.
pub open spec fn decimal_text(n: nat) -> Seq<char>
    decreases n,
{
    if n < 10 {
        seq![digit_char(n as int)]
    } else {
        decimal_text(n / 10).push(digit_char((n % 10) as int))
    }
}

/// The decimal text of `n`.
pub fn decimal_string(n: u32) -> (res: String)
    ensures
        res@ == decimal_text(n as nat),
    decreases n,
{
    if n < 10 {
        let mut s = String::new();
        push_char(&mut s, ((n as u8) + 48) as char);
        proof {
            assert(s@ =~= seq![digit_char(n as int)]);
        }
        s
    } else {
        let mut s = decimal_string(n / 10);
        push_char(&mut s, (((n % 10) as u8) + 48) as char);
        s
    }
}

} // verus!
