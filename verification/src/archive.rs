//! Which files go where: the native and Java libraries among a directory's
//! files, and the entries of the bundle module archive.

use vstd::prelude::*;
use crate::apk::StripConfig;
use crate::command::strings_view;
use crate::path::{extension, path_extension, to_unix_separators, unix_separators};
use crate::text::{chars_of, push_char, range_eq};

verus! {

pub open spec fn is_shared_library(p: Seq<char>) -> bool {
    path_extension(p) == Some(seq!['s', 'o'])
}

/// The paths among `s` whose extension is `so`, in order.
pub open spec fn so_files(s: Seq<Seq<char>>) -> Seq<Seq<char>>
    decreases s.len(),
{
    if s.len() == 0 {
        Seq::empty()
    } else if is_shared_library(s.last()) {
        so_files(s.drop_last()).push(s.last())
    } else {
        so_files(s.drop_last())
    }
}

/// Whether the extension of `path` is exactly `w`.
pub(crate) fn extension_is(path: &str, w: &Vec<char>) -> (res: bool)
    ensures
        res == (path_extension(path@) == Some(w@)),
{
    match extension(path) {
        Some(e) => {
            let ev = chars_of(e.as_str());
            let r = range_eq(&ev, 0, ev.len(), w);
            proof {
                assert(ev@.subrange(0, ev@.len() as int) =~= ev@);
            }
            r
        },
        None => false,
    }
}

pub open spec fn ascii_lower(c: char) -> char {
    if 'A' <= c && c <= 'Z' {
        ((c as int) + 32) as char
    } else {
        c
    }
}

pub open spec fn java_extension(e: Seq<char>) -> bool {
    ||| e == seq!['d', 'e', 'x']
    ||| e == seq!['c', 'l', 'a', 's', 's']
    ||| e == seq!['z', 'i', 'p']
    ||| e == seq!['j', 'a', 'r']
    ||| e == seq!['a', 'p', 'k']
}

/// A file that `d8` takes: its extension, in lower case, is `dex`, `class`,
/// `zip`, `jar` or `apk`.
pub open spec fn is_java_resource_path(p: Seq<char>) -> bool {
    match path_extension(p) {
        Some(e) => java_extension(e.map_values(|c: char| ascii_lower(c))),
        None => false,
    }
}

/// Whether `path` is a file that `d8` takes.
pub fn is_java_resource(path: &str) -> (res: bool)
    ensures
        res == is_java_resource_path(path@),
{
    match extension(path) {
        Some(e) => {
            let mut lower: Vec<char> = Vec::new();
            for c in it: e.chars()
                invariant
                    it.seq() == e@,
                    lower@ == e@.take(it.index() as int).map_values(|c: char| ascii_lower(c)),
            {
                proof {
                    assert(e@.take(it.index() + 1) =~= e@.take(it.index() as int).push(c));
                    assert(e@.take(it.index() + 1).map_values(|c: char| ascii_lower(c))
                        =~= e@.take(it.index() as int).map_values(|c: char| ascii_lower(c)).push(
                        ascii_lower(c),
                    ));
                }
                if 'A' <= c && c <= 'Z' {
                    lower.push(((c as u8) + 32) as char);
                } else {
                    lower.push(c);
                }
            }
            proof {
                assert(e@.take(e@.len() as int) =~= e@);
            }
            let n = lower.len();
            let r = range_eq(&lower, 0, n, &vec!['d', 'e', 'x'])
                || range_eq(&lower, 0, n, &vec!['c', 'l', 'a', 's', 's'])
                || range_eq(&lower, 0, n, &vec!['z', 'i', 'p'])
                || range_eq(&lower, 0, n, &vec!['j', 'a', 'r'])
                || range_eq(&lower, 0, n, &vec!['a', 'p', 'k']);
            proof {
                assert(lower@.subrange(0, n as int) =~= lower@);
            }
            r
        },
        None => false,
    }
}

/// The paths among `s` that `d8` takes, in order.
pub open spec fn java_resources_of(s: Seq<Seq<char>>) -> Seq<Seq<char>>
    decreases s.len(),
{
    if s.len() == 0 {
        Seq::empty()
    } else if is_java_resource_path(s.last()) {
        java_resources_of(s.drop_last()).push(s.last())
    } else {
        java_resources_of(s.drop_last())
    }
}

pub(crate) fn java_resource_files(files: &Vec<String>) -> (res: Vec<String>)
    ensures
        strings_view(res@) == java_resources_of(strings_view(files@)),
{
    let mut res: Vec<String> = Vec::new();
    for i in 0..files.len()
        invariant
            strings_view(res@) == java_resources_of(strings_view(files@).take(i as int)),
    {
        proof {
            assert(strings_view(files@).take(i + 1).drop_last() =~= strings_view(files@).take(
                i as int,
            ));
        }
        if is_java_resource(files[i].as_str()) {
            res.push(files[i].clone());
            proof {
                assert(strings_view(res@) =~= java_resources_of(strings_view(files@).take(i as int)).push(files@[i as int]@));
            }
        }
    }
    proof {
        assert(strings_view(files@).take(files@.len() as int) =~= strings_view(files@));
    }
    res
}

/// How a bundle module entry is compressed.
#[derive(Debug, Clone, Copy, PartialEq, Eq, Structural)]
pub enum EntryCompression {
    Stored,
    Deflated,
}

/// An entry of the bundle module archive.
pub struct ZipEntry {
    pub name: String,
    pub is_dir: bool,
    pub compression: EntryCompression,
}

pub open spec fn starts_with(s: Seq<char>, t: Seq<char>) -> bool {
    t.len() <= s.len() && s.take(t.len() as int) == t
}

pub open spec fn ends_with(s: Seq<char>, t: Seq<char>) -> bool {
    t.len() <= s.len() && s.skip(s.len() - t.len()) == t
}

pub open spec fn ds_store() -> Seq<char> {
    seq!['.', 'D', 'S', '_', 'S', 't', 'o', 'r', 'e']
}

pub open spec fn lib_prefix() -> Seq<char> {
    seq!['l', 'i', 'b', '/']
}

pub open spec fn dwarf_suffix() -> Seq<char> {
    seq!['.', 'd', 'w', 'a', 'r', 'f']
}

/// The archive entry for a workspace entry at `relative` (its path relative
/// to the workspace), for a build whose debug symbols are treated as `strip`
/// says: none for the workspace itself, for what is neither a directory nor a
/// file, for `.DS_Store` files, and, when `strip` is `Split`, for the `.dwarf`
/// files under `lib/` that keep the split-off debug symbols (then only the
/// `.so` goes into the module). Names use `/`; directories end in `/` and are
/// deflated; files under `lib/` are stored, other files deflated.
pub open spec fn zip_entry_spec(relative: Seq<char>, is_dir: bool, is_file: bool, strip: StripConfig) -> Option<(Seq<char>, bool, EntryCompression)> {
    let n = unix_separators(relative);
    if relative.len() == 0 {
        None
    } else if is_dir {
        Some((n.push('/'), true, EntryCompression::Deflated))
    } else if is_file {
        if ends_with(n, ds_store()) {
            None
        } else if starts_with(n, lib_prefix()) {
            if strip == StripConfig::Split && ends_with(n, dwarf_suffix()) {
                None
            } else {
                Some((n, false, EntryCompression::Stored))
            }
        } else {
            Some((n, false, EntryCompression::Deflated))
        }
    } else {
        None
    }
}

/// The archive entry for a workspace entry.
pub fn zip_entry(relative: &str, is_dir: bool, is_file: bool, strip: StripConfig) -> (res: Option<ZipEntry>)
    ensures
        match res {
            Some(e) => zip_entry_spec(relative@, is_dir, is_file, strip) == Some((e.name@, e.is_dir, e.compression)),
            None => zip_entry_spec(relative@, is_dir, is_file, strip) is None,
        },
{
    if relative.unicode_len() == 0 {
        return None;
    }
    let mut name = to_unix_separators(relative);
    if is_dir {
        push_char(&mut name, '/');
        return Some(ZipEntry { name, is_dir: true, compression: EntryCompression::Deflated });
    }
    if !is_file {
        return None;
    }
    let v = chars_of(name.as_str());
    let n = v.len();
    let ds: Vec<char> = vec!['.', 'D', 'S', '_', 'S', 't', 'o', 'r', 'e'];
    let lib: Vec<char> = vec!['l', 'i', 'b', '/'];
    proof {
        assert(ds@ =~= ds_store());
        assert(lib@ =~= lib_prefix());
    }
    if n >= 9 && range_eq(&v, n - 9, n, &ds) {
        proof {
            assert(v@.skip(n - 9) =~= v@.subrange(n - 9, n as int));
        }
        return None;
    }
    proof {
        if n >= 9 {
            assert(v@.skip(n - 9) =~= v@.subrange(n - 9, n as int));
        }
    }
    let stored = n >= 4 && range_eq(&v, 0, 4, &lib);
    proof {
        if n >= 4 {
            assert(v@.take(4) =~= v@.subrange(0, 4));
        }
    }
    let dwarf: Vec<char> = vec!['.', 'd', 'w', 'a', 'r', 'f'];
    proof {
        assert(dwarf@ =~= dwarf_suffix());
    }
    let is_dwarf = n >= 6 && range_eq(&v, n - 6, n, &dwarf);
    proof {
        if n >= 6 {
            assert(v@.skip(n - 6) =~= v@.subrange(n - 6, n as int));
        }
    }
    if stored && is_dwarf && strip == StripConfig::Split {
        return None;
    }
    let compression = if stored { EntryCompression::Stored } else { EntryCompression::Deflated };
    Some(ZipEntry { name, is_dir: false, compression })
}


/// Which workspace entries go into the module and how: every directory but
/// the workspace itself, named with `/` separators and a final `/`, deflated;
/// every file but `.DS_Store` files (and, when debug symbols are split off,
/// the `.dwarf` files under `lib/`), under its name with `/` separators,
/// stored when it is under `lib/` and deflated otherwise; nothing else.
pub proof fn lemma_module_entries(relative: Seq<char>, strip: StripConfig)
    ensures
        ({
            let n = unix_separators(relative);
            let ds = n.len() >= 9 && n.skip(n.len() - 9) == seq!['.', 'D', 'S', '_', 'S', 't', 'o', 'r', 'e'];
            let lib = n.len() >= 4 && n.take(4) == seq!['l', 'i', 'b', '/'];
            let dwarf = n.len() >= 6 && n.skip(n.len() - 6) == seq!['.', 'd', 'w', 'a', 'r', 'f'];
            &&& relative.len() > 0 ==> zip_entry_spec(relative, true, false, strip) == Some(
                (n.push('/'), true, EntryCompression::Deflated),
            )
            &&& relative.len() == 0 ==> zip_entry_spec(relative, true, false, strip) is None
            &&& zip_entry_spec(relative, false, false, strip) is None
            &&& (relative.len() > 0 && !ds && !lib) ==> zip_entry_spec(relative, false, true, strip)
                == Some((n, false, EntryCompression::Deflated))
            &&& (relative.len() > 0 && !ds && lib && !(strip == StripConfig::Split && dwarf))
                ==> zip_entry_spec(relative, false, true, strip) == Some(
                (n, false, EntryCompression::Stored),
            )
            &&& (zip_entry_spec(relative, false, true, strip) is None <==> (relative.len() == 0 || ds
                || (strip == StripConfig::Split && lib && dwarf)))
        }),
{
    let n = unix_separators(relative);
    assert(n.len() == relative.len());
    assert(ds_store() =~= seq!['.', 'D', 'S', '_', 'S', 't', 'o', 'r', 'e']);
    assert(lib_prefix() =~= seq!['l', 'i', 'b', '/']);
    assert(dwarf_suffix() =~= seq!['.', 'd', 'w', 'a', 'r', 'f']);
}

} // verus!
