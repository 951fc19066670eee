//! Paths modelled as character sequences with the Unix separator `/`.

use vstd::prelude::*;
use crate::text::{chars_of, push_char, string_from};

verus! {

/// `child` replaces the base when it is absolute; otherwise it is appended,
/// with one separator unless the base is empty or already ends in one.
pub open spec fn path_join(base: Seq<char>, child: Seq<char>) -> Seq<char> {
    if child.len() > 0 && child[0] == '/' {
        child
    } else if base.len() == 0 || base.last() == '/' {
        base + child
    } else {
        base.push('/') + child
    }
}

/// Joins `child` onto `base` as a path.
pub fn join_path(base: &str, child: &str) -> (res: String)
    ensures
        res@ == path_join(base@, child@),
{
    let mut res = String::new();
    let child_len = child.unicode_len();
    if child_len > 0 && child.get_char(0) == '/' {
        res.append(child);
        return res;
    }
    res.append(base);
    let base_len = base.unicode_len();
    if base_len > 0 && base.get_char(base_len - 1) != '/' {
        push_char(&mut res, '/');
    }
    res.append(child);
    res
}

pub open spec fn unix_separators(s: Seq<char>) -> Seq<char> {
    s.map_values(|c: char| if c == '\\' { '/' } else { c })
}

/// Replaces every backslash with a forward slash.
pub fn to_unix_separators(s: &str) -> (res: String)
    ensures
        res@ == unix_separators(s@),
{
    let mut res = String::new();
    for c in it: s.chars()
        invariant
            it.seq() == s@,
            res@ == unix_separators(s@.take(it.index() as int)),
    {
        proof {
            assert(s@.take(it.index() + 1) == s@.take(it.index() as int).push(c));
        }
        if c == '\\' {
            push_char(&mut res, '/');
        } else {
            push_char(&mut res, c);
        }
    }
    proof { assert(s@.take(s@.len() as int) == s@); }
    res
}

/// Start of the path segment that ends at `end`: just after the last `/`
/// before `end`, or 0.
pub open spec fn seg_start(s: Seq<char>, end: int) -> int
    decreases end,
{
    if end <= 0 {
        0
    } else if s[end - 1] == '/' {
        end
    } else {
        seg_start(s, end - 1)
    }
}

pub proof fn lemma_seg_start(s: Seq<char>, end: int)
    requires
        0 <= end <= s.len(),
    ensures
        0 <= seg_start(s, end) <= end,
        end > 0 && s[end - 1] != '/' ==> seg_start(s, end) < end,
        forall|m: int| seg_start(s, end) <= m < end ==> s[m] != '/',
        seg_start(s, end) > 0 ==> s[seg_start(s, end) - 1] == '/',
    decreases end,
{
    if end > 0 && s[end - 1] != '/' {
        lemma_seg_start(s, end - 1);
    }
}

/// Where the file name of `s[..end]` lies: its last component, after
/// separators and `.` components at the end are passed over; none when that
/// component is `..` or there is none.
pub open spec fn name_range(s: Seq<char>, end: int) -> Option<(int, int)>
    decreases end,
{
    if end <= 0 || end > s.len() {
        None
    } else if s[end - 1] == '/' {
        name_range(s, end - 1)
    } else {
        let st = seg_start(s, end);
        proof {
            lemma_seg_start(s, end);
        }
        if end - st == 1 && s[st] == '.' {
            name_range(s, st)
        } else if end - st == 2 && s[st] == '.' && s[st + 1] == '.' {
            None
        } else {
            Some((st, end))
        }
    }
}

/// A file name is a non-empty part of the path without separators.
pub proof fn lemma_name_range(s: Seq<char>, end: int)
    requires
        0 <= end <= s.len(),
    ensures
        name_range(s, end) matches Some((a, b)) ==> 0 <= a < b <= end && forall|m: int|
            a <= m < b ==> s[m] != '/',
    decreases end,
{
    if end > 0 {
        if s[end - 1] == '/' {
            lemma_name_range(s, end - 1);
        } else {
            lemma_seg_start(s, end);
            let st = seg_start(s, end);
            if end - st == 1 && s[st] == '.' {
                lemma_name_range(s, st);
            }
        }
    }
}

/// A file name is not empty and has no separator.
pub proof fn lemma_file_name_of(s: Seq<char>)
    ensures
        file_name_of(s) matches Some(n) ==> n.len() > 0 && forall|m: int| 0 <= m < n.len() ==> n[m] != '/',
{
    lemma_name_range(s, s.len() as int);
}

/// The file name of a path.
pub open spec fn file_name_of(s: Seq<char>) -> Option<Seq<char>> {
    match name_range(s, s.len() as int) {
        Some((a, b)) => Some(s.subrange(a, b)),
        None => None,
    }
}

/// Index of the last `c` before `end`, or -1.
pub open spec fn rfind_char(s: Seq<char>, c: char, end: int) -> int
    decreases end,
{
    if end <= 0 {
        -1
    } else if s[end - 1] == c {
        end - 1
    } else {
        rfind_char(s, c, end - 1)
    }
}

pub proof fn lemma_rfind_char(s: Seq<char>, c: char, end: int)
    requires
        0 <= end <= s.len(),
    ensures
        -1 <= rfind_char(s, c, end) < end,
        rfind_char(s, c, end) >= 0 ==> s[rfind_char(s, c, end)] == c,
        forall|m: int| rfind_char(s, c, end) < m < end ==> s[m] != c,
    decreases end,
{
    if end > 0 && s[end - 1] != c {
        lemma_rfind_char(s, c, end - 1);
    }
}

pub open spec fn is_dot_dot(name: Seq<char>) -> bool {
    name.len() == 2 && name[0] == '.' && name[1] == '.'
}

/// The length of a file name's stem: the name up to its last `.`, unless
/// that dot is the first character, there is none, or the name is `..`.
pub open spec fn stem_len(name: Seq<char>) -> int {
    let d = rfind_char(name, '.', name.len() as int);
    if is_dot_dot(name) || d <= 0 {
        name.len() as int
    } else {
        d
    }
}

/// A file name's extension: what follows the last `.` of the name, when the
/// stem is not the whole name.
pub open spec fn name_extension(name: Seq<char>) -> Option<Seq<char>> {
    let d = rfind_char(name, '.', name.len() as int);
    if is_dot_dot(name) || d <= 0 {
        None
    } else {
        Some(name.skip(d + 1))
    }
}

/// The extension of a path's file name.
pub open spec fn path_extension(s: Seq<char>) -> Option<Seq<char>> {
    match file_name_of(s) {
        Some(n) => name_extension(n),
        None => None,
    }
}

/// The path with the extension of its file name replaced by `ext` (removed
/// when `ext` is empty); unchanged when it has no file name.
pub open spec fn with_extension_of(s: Seq<char>, ext: Seq<char>) -> Seq<char> {
    match name_range(s, s.len() as int) {
        None => s,
        Some((a, b)) => {
            let kept = s.take(a + stem_len(s.subrange(a, b)));
            if ext.len() > 0 {
                kept.push('.') + ext
            } else {
                kept
            }
        },
    }
}

/// Where the file name of `v` lies.
pub fn file_name_range(v: &Vec<char>) -> (res: Option<(usize, usize)>)
    ensures
        match res {
            Some((a, b)) => name_range(v@, v@.len() as int) == Some((a as int, b as int)),
            None => name_range(v@, v@.len() as int) is None,
        },
        res matches Some((a, b)) ==> a < b <= v.len(),
{
    let mut end = v.len();
    loop
        invariant
            end <= v.len(),
            name_range(v@, v@.len() as int) == name_range(v@, end as int),
        decreases end,
    {
        if end == 0 {
            return None;
        }
        if v[end - 1] == '/' {
            end = end - 1;
        } else {
            let mut st = end - 1;
            while st > 0 && v[st - 1] != '/'
                invariant
                    st < end <= v.len(),
                    v@[end - 1] != '/',
                    seg_start(v@, end as int) == seg_start(v@, st as int + 1),
                    v@[st as int] != '/',
                decreases st,
            {
                st = st - 1;
            }
            proof {
                lemma_seg_start(v@, end as int);
                assert(seg_start(v@, st as int + 1) == seg_start(v@, st as int));
                if st > 0 {
                    assert(seg_start(v@, st as int) == st);
                } else {
                    assert(seg_start(v@, 0) == 0);
                }
            }
            if end - st == 1 && v[st] == '.' {
                end = st;
            } else if end - st == 2 && v[st] == '.' && v[st + 1] == '.' {
                return None;
            } else {
                return Some((st, end));
            }
        }
    }
}

/// The file name of `path`.
pub fn file_name(path: &str) -> (res: Option<String>)
    ensures
        match res {
            Some(n) => file_name_of(path@) == Some(n@),
            None => file_name_of(path@) is None,
        },
{
    let v = chars_of(path);
    match file_name_range(&v) {
        Some((a, b)) => Some(string_from(&v, a, b)),
        None => None,
    }
}

/// The position of the last `.` in `v[lo..hi]`, relative to `lo`, or -1.
fn rfind_dot(v: &Vec<char>, lo: usize, hi: usize) -> (res: Option<usize>)
    requires
        lo <= hi <= v.len(),
    ensures
        match res {
            Some(d) => rfind_char(v@.subrange(lo as int, hi as int), '.', (hi - lo) as int) == d,
            None => rfind_char(v@.subrange(lo as int, hi as int), '.', (hi - lo) as int) == -1,
        },
{
    let ghost n = v@.subrange(lo as int, hi as int);
    let mut e = hi;
    while e > lo
        invariant
            lo <= e <= hi <= v.len(),
            n == v@.subrange(lo as int, hi as int),
            rfind_char(n, '.', (hi - lo) as int) == rfind_char(n, '.', (e - lo) as int),
        decreases e,
    {
        if v[e - 1] == '.' {
            return Some(e - 1 - lo);
        }
        e = e - 1;
    }
    None
}

/// The stem length of the name `v[lo..hi]`.
fn stem_len_exec(v: &Vec<char>, lo: usize, hi: usize) -> (res: usize)
    requires
        lo <= hi <= v.len(),
    ensures
        res == stem_len(v@.subrange(lo as int, hi as int)),
{
    let ghost n = v@.subrange(lo as int, hi as int);
    let d = rfind_dot(v, lo, hi);
    proof {
        lemma_rfind_char(n, '.', n.len() as int);
    }
    let dd = hi - lo == 2 && v[lo] == '.' && v[lo + 1] == '.';
    match d {
        Some(d) if !dd && d > 0 => d,
        _ => hi - lo,
    }
}

/// `path` with the extension of its file name replaced by `ext`.
pub fn with_extension(path: &str, ext: &str) -> (res: String)
    requires
        forall|m: int| 0 <= m < ext@.len() ==> ext@[m] != '/',
    ensures
        res@ == with_extension_of(path@, ext@),
{
    let v = chars_of(path);
    match file_name_range(&v) {
        None => path.to_owned(),
        Some((a, b)) => {
            let k = stem_len_exec(&v, a, b);
            proof {
                lemma_rfind_char(v@.subrange(a as int, b as int), '.', (b - a) as int);
            }
            let mut res = string_from(&v, 0, a + k);
            proof {
                assert(v@.subrange(0, a + k) =~= v@.take(a + k));
            }
            if ext.unicode_len() > 0 {
                push_char(&mut res, '.');
                res.append(ext);
            }
            res
        },
    }
}

/// The extension of `path`'s file name.
pub fn extension(path: &str) -> (res: Option<String>)
    ensures
        match res {
            Some(e) => path_extension(path@) == Some(e@),
            None => path_extension(path@) is None,
        },
{
    let v = chars_of(path);
    match file_name_range(&v) {
        None => None,
        Some((a, b)) => {
            let ghost n = v@.subrange(a as int, b as int);
            let d = rfind_dot(&v, a, b);
            proof {
                lemma_rfind_char(n, '.', n.len() as int);
                assert(file_name_of(path@) == Some(n));
            }
            let dd = b - a == 2 && v[a] == '.' && v[a + 1] == '.';
            match d {
                Some(d) if !dd && d > 0 => {
                    let s = a + d + 1;
                    proof {
                        assert(n.skip(d + 1) =~= v@.subrange(s as int, b as int));
                    }
                    Some(string_from(&v, s, b))
                },
                _ => None,
            }
        },
    }
}

} // verus!
