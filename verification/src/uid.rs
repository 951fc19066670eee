//! Reading a package's user id out of the listing that `pm list package -U` prints.

use vstd::prelude::*;
use crate::error::{NdkError, UidParseError};
use crate::text::{chars_of, decimal_text, digit_char, find_char, find_in, lemma_find_char, range_eq, string_from};

verus! {

pub open spec fn is_digit(c: char) -> bool {
    '0' <= c && c <= '9'
}

pub open spec fn digit_value(c: char) -> int {
    (c as int) - ('0' as int)
}

/// The number that a sequence of decimal digits denotes.
pub open spec fn decimal_value(s: Seq<char>) -> int
    decreases s.len(),
{
    if s.len() == 0 {
        0
    } else {
        decimal_value(s.drop_last()) * 10 + digit_value(s.last())
    }
}

/// Index of the first non-digit at or after `i`, or `s.len()`.
pub open spec fn digits_end(s: Seq<char>, i: int) -> int
    decreases s.len() - i,
{
    if i >= s.len() {
        s.len() as int
    } else if !is_digit(s[i]) {
        i
    } else {
        digits_end(s, i + 1)
    }
}

/// Reading `s` as an unsigned 32-bit decimal number: an optional leading `+`,
/// then digits. The first offending character decides the error: a non-digit
/// gives `InvalidDigit`, a digit that takes the value past `u32::MAX` gives
/// `PosOverflow`.
pub open spec fn parse_u32_spec(s: Seq<char>) -> Result<u32, UidParseError> {
    if s.len() == 0 {
        Err(UidParseError::Empty)
    } else if s.len() == 1 && (s[0] == '+' || s[0] == '-') {
        Err(UidParseError::InvalidDigit)
    } else {
        let d = if s[0] == '+' { s.drop_first() } else { s };
        let k = digits_end(d, 0);
        if decimal_value(d.take(k)) > u32::MAX {
            Err(UidParseError::PosOverflow)
        } else if k < d.len() {
            Err(UidParseError::InvalidDigit)
        } else {
            Ok(decimal_value(d) as u32)
        }
    }
}

pub proof fn lemma_digits_end(s: Seq<char>, i: int)
    requires
        0 <= i <= s.len(),
    ensures
        i <= digits_end(s, i) <= s.len(),
        forall|m: int| i <= m < digits_end(s, i) ==> is_digit(s[m]),
        digits_end(s, i) < s.len() ==> !is_digit(s[digits_end(s, i)]),
    decreases s.len() - i,
{
    if i < s.len() && is_digit(s[i]) {
        lemma_digits_end(s, i + 1);
    }
}

pub proof fn lemma_value_step(s: Seq<char>, m: int)
    requires
        0 <= m < s.len(),
    ensures
        decimal_value(s.take(m + 1)) == decimal_value(s.take(m)) * 10 + digit_value(s[m]),
{
    assert(s.take(m + 1).drop_last() =~= s.take(m));
}

pub proof fn lemma_value_nonneg(s: Seq<char>, a: int)
    requires
        0 <= a <= s.len(),
        forall|m: int| 0 <= m < a ==> is_digit(s[m]),
    ensures
        decimal_value(s.take(a)) >= 0,
    decreases a,
{
    if a == 0 {
        assert(s.take(0).len() == 0);
    } else {
        lemma_value_nonneg(s, a - 1);
        lemma_value_step(s, a - 1);
    }
}

pub proof fn lemma_value_mono(s: Seq<char>, a: int, b: int)
    requires
        0 <= a <= b <= s.len(),
        forall|m: int| 0 <= m < b ==> is_digit(s[m]),
    ensures
        decimal_value(s.take(a)) <= decimal_value(s.take(b)),
    decreases b - a,
{
    if a < b {
        lemma_value_mono(s, a, b - 1);
        lemma_value_step(s, b - 1);
        lemma_value_nonneg(s, b - 1);
    }
}

/// Reads `v[lo..hi]` as an unsigned 32-bit decimal number.
pub fn parse_u32(v: &Vec<char>, lo: usize, hi: usize) -> (res: Result<u32, UidParseError>)
    requires
        lo <= hi <= v.len(),
    ensures
        res == parse_u32_spec(v@.subrange(lo as int, hi as int)),
{
    let ghost s = v@.subrange(lo as int, hi as int);
    if lo == hi {
        return Err(UidParseError::Empty);
    }
    if hi - lo == 1 && (v[lo] == '+' || v[lo] == '-') {
        return Err(UidParseError::InvalidDigit);
    }
    let start = if v[lo] == '+' { lo + 1 } else { lo };
    let ghost d = v@.subrange(start as int, hi as int);
    proof {
        if s[0] == '+' {
            assert(d =~= s.drop_first());
        } else {
            assert(d =~= s);
        }
        lemma_digits_end(d, 0);
        assert(d.take(0).len() == 0);
    }
    let mut acc: u32 = 0;
    let mut i = start;
    while i < hi
        invariant
            lo <= start <= i <= hi <= v.len(),
            d == v@.subrange(start as int, hi as int),
            d.len() == hi - start,
            s == v@.subrange(lo as int, hi as int),
            s.len() > 0,
            !(s.len() == 1 && (s[0] == '+' || s[0] == '-')),
            d == (if s[0] == '+' { s.drop_first() } else { s }),
            forall|m: int| 0 <= m < i - start ==> is_digit(d[m]),
            acc == decimal_value(d.take(i - start)),
            digits_end(d, 0) == digits_end(d, i - start),
        decreases hi - i,
    {
        let c = v[i];
        let j: Ghost<int> = Ghost(i - start);
        assert(d[j@] == c);
        if !('0' <= c && c <= '9') {
            return Err(UidParseError::InvalidDigit);
        }
        let dv = (c as u32) - ('0' as u32);
        proof {
            lemma_value_step(d, j@);
        }
        if acc > 429496729 || (acc == 429496729 && dv > 5) {
            proof {
                let k = digits_end(d, j@ + 1);
                lemma_digits_end(d, j@ + 1);
                assert(forall|m: int| 0 <= m < k ==> is_digit(d[m]));
                lemma_value_mono(d, j@ + 1, k);
            }
            return Err(UidParseError::PosOverflow);
        }
        acc = acc * 10 + dv;
        i = i + 1;
    }
    proof {
        assert(d.take(d.len() as int) =~= d);
    }
    Ok(acc)
}

/// A line without the carriage return that ends it, if any.
pub open spec fn strip_cr(l: Seq<char>) -> Seq<char> {
    if l.len() > 0 && l.last() == '\r' {
        l.drop_last()
    } else {
        l
    }
}

/// The lines of `o` from a line that starts at `start`, scanning from `j`.
/// A line ends at `\n`, which with a `\r` just before it is not part of the
/// line; the last line needs no `\n`, and an empty text has no lines.
pub open spec fn split_lines(o: Seq<char>, start: int, j: int) -> Seq<Seq<char>>
    decreases o.len() - j,
{
    if j >= o.len() {
        if start < o.len() {
            seq![o.subrange(start, o.len() as int)]
        } else {
            Seq::empty()
        }
    } else if o[j] == '\n' {
        seq![strip_cr(o.subrange(start, j))] + split_lines(o, j + 1, j + 1)
    } else {
        split_lines(o, start, j + 1)
    }
}

pub open spec fn lines(o: Seq<char>) -> Seq<Seq<char>> {
    split_lines(o, 0, 0)
}

pub open spec fn package_prefix() -> Seq<char> {
    seq!['p', 'a', 'c', 'k', 'a', 'g', 'e', ':']
}

pub open spec fn uid_prefix() -> Seq<char> {
    seq!['u', 'i', 'd', ':']
}

/// The line's text before its first space is `package:` and the name.
pub open spec fn selects(l: Seq<char>, name: Seq<char>) -> bool {
    let sp = find_char(l, ' ', 0);
    sp < l.len() && l.take(sp) == package_prefix() + name
}

/// The line's text after its first space.
pub open spec fn uid_field(l: Seq<char>) -> Seq<char> {
    l.skip(find_char(l, ' ', 0) + 1)
}

/// Index of the first line at or after `i` that names the package.
pub open spec fn first_selected(ls: Seq<Seq<char>>, name: Seq<char>, i: int) -> Option<int>
    decreases ls.len() - i,
{
    if i >= ls.len() {
        None
    } else if selects(ls[i], name) {
        Some(i)
    } else {
        first_selected(ls, name, i + 1)
    }
}

/// What the listing says of a package's user id.
pub enum UidOutcome {
    Found(u32),
    PackageMissing,
    UidMissing,
    BadUid(UidParseError, Seq<char>),
}

/// What the uid field of the package's line gives.
pub open spec fn line_outcome(l: Seq<char>) -> UidOutcome {
    let f = uid_field(l);
    if f.len() >= 4 && f.take(4) == uid_prefix() {
        match parse_u32_spec(f.skip(4)) {
            Ok(u) => UidOutcome::Found(u),
            Err(k) => UidOutcome::BadUid(k, f.skip(4)),
        }
    } else {
        UidOutcome::UidMissing
    }
}

/// The first line that names the package decides.
pub open spec fn uid_outcome(o: Seq<char>, name: Seq<char>) -> UidOutcome {
    match first_selected(lines(o), name, 0) {
        None => UidOutcome::PackageMissing,
        Some(i) => line_outcome(lines(o)[i]),
    }
}

/// The result reports the outcome, with the package name and the listing in
/// the errors that carry them.
pub open spec fn reports(
    res: Result<u32, NdkError>,
    out: UidOutcome,
    o: Seq<char>,
    name: Seq<char>,
) -> bool {
    match (res, out) {
        (Ok(u), UidOutcome::Found(v)) => u == v,
        (Err(NdkError::PackageNotInOutput { package, output }), UidOutcome::PackageMissing) =>
            package@ == name && output@ == o,
        (Err(NdkError::UidNotInOutput(output)), UidOutcome::UidMissing) => output@ == o,
        (Err(NdkError::NotAUid(k, text)), UidOutcome::BadUid(k2, t)) => k == k2 && text@ == t,
        _ => false,
    }
}

/// Relates a result to the outcome of one line.
pub open spec fn line_reports(res: Result<u32, NdkError>, out: UidOutcome, o: Seq<char>) -> bool {
    match (res, out) {
        (Ok(u), UidOutcome::Found(v)) => u == v,
        (Err(NdkError::UidNotInOutput(output)), UidOutcome::UidMissing) => output@ == o,
        (Err(NdkError::NotAUid(k, text)), UidOutcome::BadUid(k2, t)) => k == k2 && text@ == t,
        _ => false,
    }
}

/// Looks at the line `o[ls..le]`: `None` when it does not name the package,
/// else what its uid field gives.
fn check_line(
    o: &Vec<char>,
    ls: usize,
    le: usize,
    name: &Vec<char>,
    pkgp: &Vec<char>,
    uidp: &Vec<char>,
    output: &str,
) -> (res: Option<Result<u32, NdkError>>)
    requires
        ls <= le <= o.len(),
        pkgp@ == package_prefix(),
        uidp@ == uid_prefix(),
        output@ == o@,
    ensures
        res is None <==> !selects(o@.subrange(ls as int, le as int), name@),
        res matches Some(r) ==> line_reports(r, line_outcome(o@.subrange(ls as int, le as int)), o@),
{
    let ghost l = o@.subrange(ls as int, le as int);
    let sp = find_in(o, ' ', ls, le);
    proof {
        lemma_find_char(l, ' ', 0);
        assert(l.take(sp - ls) =~= o@.subrange(ls as int, sp as int));
    }
    if sp == le {
        return None;
    }
    if sp - ls < 8 || sp - ls - 8 != name.len() {
        proof {
            assert((package_prefix() + name@).len() == 8 + name@.len());
        }
        return None;
    }
    let p1 = range_eq(o, ls, ls + 8, pkgp);
    let p2 = range_eq(o, ls + 8, sp, name);
    proof {
        let t = o@.subrange(ls as int, sp as int);
        let pn = package_prefix() + name@;
        assert(t.subrange(0, 8) =~= o@.subrange(ls as int, ls + 8));
        assert(t.subrange(8, t.len() as int) =~= o@.subrange(ls + 8, sp as int));
        assert(pn.subrange(0, 8) =~= package_prefix());
        assert(pn.subrange(8, pn.len() as int) =~= name@);
        if p1 && p2 {
            assert(t =~= pn);
        }
        if t == pn {
            assert(t.subrange(0, 8) == pn.subrange(0, 8));
            assert(t.subrange(8, t.len() as int) == pn.subrange(8, pn.len() as int));
        }
    }
    if !(p1 && p2) {
        return None;
    }
    proof {
        assert(uid_field(l) =~= o@.subrange(sp + 1, le as int));
    }
    if le - (sp + 1) >= 4 && range_eq(o, sp + 1, sp + 5, uidp) {
        proof {
            let f = o@.subrange(sp + 1, le as int);
            assert(f.take(4) =~= o@.subrange(sp + 1, sp + 5));
            assert(f.skip(4) =~= o@.subrange(sp + 5, le as int));
        }
        match parse_u32(o, sp + 5, le) {
            Ok(u) => Some(Ok(u)),
            Err(k) => Some(Err(NdkError::NotAUid(k, string_from(o, sp + 5, le)))),
        }
    } else {
        proof {
            let f = o@.subrange(sp + 1, le as int);
            if f.len() >= 4 {
                assert(f.take(4) =~= o@.subrange(sp + 1, sp + 5));
            }
        }
        Some(Err(NdkError::UidNotInOutput(output.to_owned())))
    }
}

pub proof fn lemma_first_selected(ls: Seq<Seq<char>>, name: Seq<char>, i: int, c: int)
    requires
        0 <= i <= c <= ls.len(),
        forall|k: int| i <= k < c ==> !selects(ls[k], name),
    ensures
        first_selected(ls, name, i) == first_selected(ls, name, c),
    decreases c - i,
{
    if i < c {
        lemma_first_selected(ls, name, i + 1, c);
    }
}

/// The user id that the package listing `output` gives for `package`: the
/// first line whose text before its first space is `package:` and the name
/// decides; its text after that space must start with `uid:` and go on with
/// the number.
pub fn uid_from_listing(output: &str, package: &str) -> (res: Result<u32, NdkError>)
    ensures
        reports(res, uid_outcome(output@, package@), output@, package@),
{
    let o = chars_of(output);
    let name = chars_of(package);
    let pkgp: Vec<char> = vec!['p', 'a', 'c', 'k', 'a', 'g', 'e', ':'];
    let uidp: Vec<char> = vec!['u', 'i', 'd', ':'];
    proof {
        assert(pkgp@ =~= package_prefix());
        assert(uidp@ =~= uid_prefix());
    }
    let ghost all = lines(o@);
    let ghost mut collected: Seq<Seq<char>> = Seq::empty();
    let mut start: usize = 0;
    let mut j: usize = 0;
    proof {
        assert(all =~= collected + split_lines(o@, 0, 0));
    }
    while j < o.len()
        invariant
            0 <= start <= j <= o.len(),
            o@ == output@,
            name@ == package@,
            pkgp@ == package_prefix(),
            uidp@ == uid_prefix(),
            all == lines(o@),
            all == collected + split_lines(o@, start as int, j as int),
            forall|k: int| 0 <= k < collected.len() ==> !selects(#[trigger] collected[k], name@),
        decreases o.len() - j,
    {
        if o[j] == '\n' {
            let le = if j > start && o[j - 1] == '\r' { j - 1 } else { j };
            let ghost line = strip_cr(o@.subrange(start as int, j as int));
            proof {
                assert(line =~= o@.subrange(start as int, le as int));
                assert(split_lines(o@, start as int, j as int) == seq![line] + split_lines(o@, j + 1, j + 1));
            }
            match check_line(&o, start, le, &name, &pkgp, &uidp, output) {
                Some(r) => {
                    proof {
                        let c = collected.len() as int;
                        assert(all[c] == line);
                        assert forall|k: int| 0 <= k < c implies !selects(all[k], name@) by {
                            assert(all[k] == collected[k]);
                        }
                        lemma_first_selected(all, name@, 0, c);
                    }
                    return r;
                },
                None => {
                    proof {
                        assert(all =~= collected.push(line) + split_lines(o@, j + 1, j + 1));
                        collected = collected.push(line);
                    }
                },
            }
            start = j + 1;
        }
        j = j + 1;
    }
    if start < o.len() {
        let ghost line = o@.subrange(start as int, o@.len() as int);
        proof {
            assert(split_lines(o@, start as int, j as int) == seq![line]);
        }
        match check_line(&o, start, o.len(), &name, &pkgp, &uidp, output) {
            Some(r) => {
                proof {
                    let c = collected.len() as int;
                    assert(all[c] == line);
                    assert forall|k: int| 0 <= k < c implies !selects(all[k], name@) by {
                        assert(all[k] == collected[k]);
                    }
                    lemma_first_selected(all, name@, 0, c);
                }
                return r;
            },
            None => {
                proof {
                    assert(all =~= collected.push(line));
                    collected = collected.push(line);
                }
            },
        }
    } else {
        proof {
            assert(all =~= collected);
        }
    }
    proof {
        assert forall|k: int| 0 <= k < all.len() implies !selects(all[k], name@) by {
            assert(all[k] == collected[k]);
        }
        lemma_first_selected(all, name@, 0, all.len() as int);
    }
    Err(NdkError::PackageNotInOutput { package: package.to_owned(), output: output.to_owned() })
}

pub proof fn lemma_digit_char(d: int)
    requires
        0 <= d <= 9,
    ensures
        is_digit(digit_char(d)),
        digit_value(digit_char(d)) == d,
{
}

/// The decimal text of a number is made of digits and denotes the number.
pub proof fn lemma_decimal_text(n: nat)
    ensures
        decimal_text(n).len() >= 1,
        forall|m: int| 0 <= m < decimal_text(n).len() ==> is_digit(#[trigger] decimal_text(n)[m]),
        decimal_value(decimal_text(n)) == n,
    decreases n,
{
    if n < 10 {
        lemma_digit_char(n as int);
        assert(decimal_text(n).drop_last() =~= Seq::<char>::empty());
        assert(decimal_value(decimal_text(n).drop_last()) == 0);
    } else {
        lemma_decimal_text(n / 10);
        lemma_digit_char((n % 10) as int);
        let t = decimal_text(n);
        assert(t.drop_last() =~= decimal_text(n / 10));
        assert(t.last() == digit_char((n % 10) as int));
        assert(n == (n / 10) * 10 + n % 10);
        assert forall|m: int| 0 <= m < t.len() implies is_digit(#[trigger] t[m]) by {
            if m < t.len() - 1 {
                assert(t[m] == decimal_text(n / 10)[m]);
            }
        }
    }
}

/// Reading the decimal text of a number gives the number back.
pub proof fn lemma_parse_decimal_text(n: u32)
    ensures
        parse_u32_spec(decimal_text(n as nat)) == Ok::<u32, UidParseError>(n),
{
    let s = decimal_text(n as nat);
    lemma_decimal_text(n as nat);
    lemma_digits_end(s, 0);
    if digits_end(s, 0) < s.len() {
        assert(is_digit(s[digits_end(s, 0)]));
    }
    assert(s.take(s.len() as int) =~= s);
}

pub proof fn lemma_split_scan(o: Seq<char>, start: int, j: int, e: int)
    requires
        0 <= start <= j <= e <= o.len(),
        forall|m: int| j <= m < e ==> o[m] != '\n',
    ensures
        split_lines(o, start, j) == split_lines(o, start, e),
    decreases e - j,
{
    if j < e {
        lemma_split_scan(o, start, j + 1, e);
    }
}

pub proof fn lemma_find_first(s: Seq<char>, c: char, p: int)
    requires
        0 <= p < s.len(),
        s[p] == c,
        forall|m: int| 0 <= m < p ==> s[m] != c,
    ensures
        find_char(s, c, 0) == p,
{
    lemma_find_char(s, c, 0);
}

/// The listing line `package:<name> uid:<uid>`.
pub open spec fn listing_line(name: Seq<char>, uid: u32) -> Seq<char> {
    package_prefix() + name + seq![' '] + uid_prefix() + decimal_text(uid as nat)
}

pub open spec fn plain_name(name: Seq<char>) -> bool {
    forall|m: int| 0 <= m < name.len() ==> name[m] != ' ' && name[m] != '\n'
}

proof fn lemma_listing_line(q: Seq<char>, m: u32, name: Seq<char>)
    requires
        plain_name(q),
    ensures
        find_char(listing_line(q, m), ' ', 0) == 8 + q.len(),
        selects(listing_line(q, m), name) <==> q == name,
        uid_field(listing_line(q, m)) == uid_prefix() + decimal_text(m as nat),
        forall|k: int| 0 <= k < listing_line(q, m).len() ==> listing_line(q, m)[k] != '\n',
        listing_line(q, m).len() > 0,
        listing_line(q, m).last() != '\r',
{
    let l = listing_line(q, m);
    let d = decimal_text(m as nat);
    lemma_decimal_text(m as nat);
    assert(l[8 + q.len() as int] == ' ');
    assert forall|k: int| 0 <= k < 8 + q.len() implies l[k] != ' ' by {
        if k >= 8 {
            assert(l[k] == q[k - 8]);
        }
    }
    lemma_find_first(l, ' ', 8 + q.len() as int);
    assert(l.take(8 + q.len() as int) =~= package_prefix() + q);
    if package_prefix() + q == package_prefix() + name {
        assert(q =~= (package_prefix() + q).skip(8));
        assert(name =~= (package_prefix() + name).skip(8));
    }
    assert(uid_field(l) =~= uid_prefix() + d);
    assert forall|k: int| 0 <= k < l.len() implies l[k] != '\n' by {
        if 8 <= k < 8 + q.len() {
            assert(l[k] == q[k - 8]);
        } else if k >= 13 + q.len() {
            assert(l[k] == d[k - 13 - q.len()]);
        }
    }
    assert(l.last() == d.last());
}

proof fn lemma_line_outcome(name: Seq<char>, n: u32)
    requires
        plain_name(name),
    ensures
        line_outcome(listing_line(name, n)) == UidOutcome::Found(n),
{
    lemma_listing_line(name, n, name);
    let f = uid_prefix() + decimal_text(n as nat);
    assert(f.take(4) =~= uid_prefix());
    assert(f.skip(4) =~= decimal_text(n as nat));
    lemma_parse_decimal_text(n);
}

/// A listing whose one line is `package:<name> uid:<n>` gives `n` for the
/// package.
pub proof fn lemma_uid_of_single_line(name: Seq<char>, n: u32)
    requires
        plain_name(name),
    ensures
        uid_outcome(listing_line(name, n), name) == UidOutcome::Found(n),
{
    let l = listing_line(name, n);
    lemma_listing_line(name, n, name);
    lemma_split_scan(l, 0, 0, l.len() as int);
    assert(l.subrange(0, l.len() as int) =~= l);
    assert(lines(l) =~= seq![l]);
    lemma_line_outcome(name, n);
}

/// The package list filters by substring, so it can name other packages
/// before the one asked for: their lines are passed over, and the line of
/// the package itself gives its uid.
pub proof fn lemma_uid_skips_other_packages(other: Seq<char>, m: u32, name: Seq<char>, n: u32)
    requires
        plain_name(other),
        plain_name(name),
        other != name,
    ensures
        uid_outcome(listing_line(other, m) + seq!['\n'] + listing_line(name, n), name)
            == UidOutcome::Found(n),
{
    let l1 = listing_line(other, m);
    let l2 = listing_line(name, n);
    let o = l1 + seq!['\n'] + l2;
    lemma_listing_line(other, m, name);
    lemma_listing_line(name, n, name);
    let k = l1.len() as int;
    assert forall|j: int| 0 <= j < k implies o[j] != '\n' by {
        assert(o[j] == l1[j]);
    }
    lemma_split_scan(o, 0, 0, k);
    assert(o[k] == '\n');
    assert(o.subrange(0, k) =~= l1);
    assert(split_lines(o, 0, k) == seq![strip_cr(l1)] + split_lines(o, k + 1, k + 1));
    assert forall|j: int| k + 1 <= j < o.len() implies o[j] != '\n' by {
        assert(o[j] == l2[j - k - 1]);
    }
    lemma_split_scan(o, k + 1, k + 1, o.len() as int);
    assert(o.subrange(k + 1, o.len() as int) =~= l2);
    assert(strip_cr(l1) == l1);
    assert(lines(o) =~= seq![l1, l2]);
    let ls = lines(o);
    assert(!selects(ls[0], name));
    assert(selects(ls[1], name));
    assert(first_selected(ls, name, 1) == Some(1int));
    assert(first_selected(ls, name, 0) == Some(1int));
    lemma_line_outcome(name, n);
}


/// A listing line as `pm list package -U` prints it: `package:<name> uid:<uid>`.
pub open spec fn pm_line(name: Seq<char>, uid: u32) -> Seq<char> {
    seq!['p', 'a', 'c', 'k', 'a', 'g', 'e', ':'] + name + seq![' ', 'u', 'i', 'd', ':'] + decimal_text(
        uid as nat,
    )
}

/// The listing made of the given lines, each ended by a newline.
pub open spec fn pm_listing(entries: Seq<(Seq<char>, u32)>) -> Seq<char>
    decreases entries.len(),
{
    if entries.len() == 0 {
        Seq::empty()
    } else {
        pm_line(entries[0].0, entries[0].1) + seq!['\n'] + pm_listing(entries.drop_first())
    }
}

proof fn lemma_pm_line(name: Seq<char>, uid: u32)
    ensures
        pm_line(name, uid) == listing_line(name, uid),
{
    assert(pm_line(name, uid) =~= listing_line(name, uid));
}

/// Lines are counted the same way after any text that ends a line.
proof fn lemma_split_shift(p: Seq<char>, r: Seq<char>, s: int, j: int)
    requires
        0 <= s <= j <= r.len(),
    ensures
        split_lines(p + r, p.len() + s, p.len() + j) == split_lines(r, s, j),
    decreases r.len() - j,
{
    let o = p + r;
    let b = p.len() as int;
    if j >= r.len() {
        if s < r.len() {
            assert(o.subrange(b + s, o.len() as int) =~= r.subrange(s, r.len() as int));
        }
    } else {
        assert(o[b + j] == r[j]);
        if r[j] == '\n' {
            assert(o.subrange(b + s, b + j) =~= r.subrange(s, j));
            lemma_split_shift(p, r, j + 1, j + 1);
        } else {
            lemma_split_shift(p, r, s, j + 1);
        }
    }
}

/// A line ended by a newline is the first line, and the rest follow.
proof fn lemma_lines_cons(t: Seq<char>, r: Seq<char>)
    requires
        forall|k: int| 0 <= k < t.len() ==> t[k] != '\n',
        t.len() > 0 && t.last() != '\r',
    ensures
        lines(t + seq!['\n'] + r) == seq![t] + lines(r),
{
    let p = t + seq!['\n'];
    let o = p + r;
    let k = t.len() as int;
    assert(t + seq!['\n'] + r == o);
    assert forall|m: int| 0 <= m < k implies o[m] != '\n' by {
        assert(o[m] == t[m]);
    }
    lemma_split_scan(o, 0, 0, k);
    assert(o[k] == '\n');
    assert(o.subrange(0, k) =~= t);
    lemma_split_shift(p, r, 0, 0);
    assert(split_lines(o, k + 1, k + 1) == split_lines(r, 0, 0));
}

proof fn lemma_lines_of_listing(entries: Seq<(Seq<char>, u32)>, r: Seq<char>)
    requires
        forall|i: int| 0 <= i < entries.len() ==> plain_name(#[trigger] entries[i].0),
    ensures
        lines(pm_listing(entries) + r) == Seq::new(
            entries.len(),
            |i: int| pm_line(entries[i].0, entries[i].1),
        ) + lines(r),
    decreases entries.len(),
{
    if entries.len() == 0 {
        assert(pm_listing(entries) + r =~= r);
        assert(Seq::new(0, |i: int| pm_line(entries[i].0, entries[i].1)) + lines(r) =~= lines(r));
    } else {
        let rest = entries.drop_first();
        assert forall|i: int| 0 <= i < rest.len() implies plain_name(#[trigger] rest[i].0) by {
            assert(rest[i] == entries[i + 1]);
        }
        lemma_lines_of_listing(rest, r);
        let t = pm_line(entries[0].0, entries[0].1);
        lemma_pm_line(entries[0].0, entries[0].1);
        lemma_listing_line(entries[0].0, entries[0].1, Seq::empty());
        let tail = pm_listing(rest) + r;
        assert(pm_listing(entries) + r =~= t + seq!['\n'] + tail);
        lemma_lines_cons(t, tail);
        assert(Seq::new(entries.len(), |i: int| pm_line(entries[i].0, entries[i].1)) =~= seq![t]
            + Seq::new(rest.len(), |i: int| pm_line(rest[i].0, rest[i].1)));
    }
}

/// The listing names the package only after lines of other packages, which
/// `pm list package` prints because it filters by substring: however many
/// there are, their lines are passed over and the package's own line gives
/// its uid, whatever follows it.
pub proof fn lemma_uid_found_after_any_other_lines(
    others: Seq<(Seq<char>, u32)>,
    name: Seq<char>,
    n: u32,
    rest: Seq<char>,
)
    requires
        plain_name(name),
        forall|i: int| 0 <= i < others.len() ==> plain_name(#[trigger] others[i].0) && others[i].0 != name,
    ensures
        uid_outcome(pm_listing(others) + pm_line(name, n) + seq!['\n'] + rest, name)
            == UidOutcome::Found(n),
{
    let l = pm_line(name, n);
    lemma_pm_line(name, n);
    lemma_listing_line(name, n, name);
    let tail = l + seq!['\n'] + rest;
    let o = pm_listing(others) + pm_line(name, n) + seq!['\n'] + rest;
    assert(o =~= pm_listing(others) + tail);
    assert forall|i: int| 0 <= i < others.len() implies plain_name(#[trigger] others[i].0) by {}
    lemma_lines_of_listing(others, tail);
    lemma_lines_cons(l, rest);
    let front = Seq::new(others.len(), |i: int| pm_line(others[i].0, others[i].1));
    let ls = lines(o);
    assert(ls == front + (seq![l] + lines(rest)));
    let k = others.len() as int;
    assert forall|i: int| 0 <= i < k implies !selects(ls[i], name) by {
        assert(ls[i] == front[i]);
        lemma_pm_line(others[i].0, others[i].1);
        lemma_listing_line(others[i].0, others[i].1, name);
    }
    lemma_first_selected(ls, name, 0, k);
    assert(ls[k] == l);
    assert(first_selected(ls, name, k) == Some(k));
    lemma_line_outcome(name, n);
}

} // verus!
