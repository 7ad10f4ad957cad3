//! The order of a listing's rows: directories first, then by the sort
//! column (name without regard to letter case, modification time, size or
//! kind), ascending or descending. Rows that the column does not tell
//! apart may come in either order.

use vstd::prelude::*;
use crate::pane::{FileEntry, SortKey};
use crate::text::{chars_of, lowercase, str_eq, to_lowercase};

verus! {

broadcast use {vstd::seq_lib::to_multiset_build, vstd::seq_lib::to_multiset_insert};

/// Whether an entry is a directory.
pub open spec fn is_dir_entry(e: FileEntry) -> bool {
    e.kind@ == "dir"@
}

/// Whether `a` comes strictly before `b` in dictionary order of their
/// characters' code points (a proper prefix comes first).
pub open spec fn seq_less(a: Seq<char>, b: Seq<char>) -> bool
    decreases a.len(),
{
    if a.len() == 0 {
        b.len() > 0
    } else if b.len() == 0 {
        false
    } else if a[0] != b[0] {
        a[0] < b[0]
    } else {
        seq_less(a.drop_first(), b.drop_first())
    }
}

/// Dictionary order is strict: no two sequences come each before the
/// other.
pub proof fn lemma_seq_less_asymmetric(a: Seq<char>, b: Seq<char>)
    ensures
        seq_less(a, b) ==> !seq_less(b, a),
    decreases a.len(),
{
    if a.len() > 0 && b.len() > 0 && a[0] == b[0] {
        lemma_seq_less_asymmetric(a.drop_first(), b.drop_first());
    }
}

/// Whether the column `key` puts `a` strictly before `b` in ascending
/// order.
pub open spec fn key_less(a: FileEntry, b: FileEntry, key: SortKey) -> bool {
    match key {
        SortKey::Name => seq_less(lowercase(a.name@), lowercase(b.name@)),
        SortKey::Modified => a.modified < b.modified,
        SortKey::Size => a.size < b.size,
        SortKey::Type => seq_less(a.kind@, b.kind@),
    }
}

/// Whether row `a` must come before row `b`: a directory before anything
/// else; otherwise as the column orders them, reversed when descending.
pub open spec fn goes_before(a: FileEntry, b: FileEntry, key: SortKey, asc: bool) -> bool {
    if is_dir_entry(a) != is_dir_entry(b) {
        is_dir_entry(a)
    } else if asc {
        key_less(a, b, key)
    } else {
        key_less(b, a, key)
    }
}

/// No row must come before the row above it.
pub open spec fn sorted_by(s: Seq<FileEntry>, key: SortKey, asc: bool) -> bool {
    forall|i: int| 0 <= i < s.len() - 1 ==> !#[trigger] goes_before(s[i + 1], s[i], key, asc)
}

/// `r` holds the rows of `s`, each as often, in the order of `key` and
/// `asc`.
pub open spec fn is_sorting_of(r: Seq<FileEntry>, s: Seq<FileEntry>, key: SortKey, asc: bool) -> bool {
    r.to_multiset() == s.to_multiset() && sorted_by(r, key, asc)
}

proof fn lemma_goes_before_asymmetric(a: FileEntry, b: FileEntry, key: SortKey, asc: bool)
    ensures
        goes_before(a, b, key, asc) ==> !goes_before(b, a, key, asc),
{
    lemma_seq_less_asymmetric(lowercase(a.name@), lowercase(b.name@));
    lemma_seq_less_asymmetric(lowercase(b.name@), lowercase(a.name@));
    lemma_seq_less_asymmetric(a.kind@, b.kind@);
    lemma_seq_less_asymmetric(b.kind@, a.kind@);
}

fn chars_less(a: &[char], b: &[char]) -> (r: bool)
    ensures
        r == seq_less(a@, b@),
{
    let mut i: usize = 0;
    proof {
        assert(a@.skip(0) =~= a@);
        assert(b@.skip(0) =~= b@);
    }
    while i < a.len() && i < b.len()
        invariant
            i <= a@.len(),
            i <= b@.len(),
            seq_less(a@, b@) == seq_less(a@.skip(i as int), b@.skip(i as int)),
        decreases a@.len() - i,
    {
        if a[i] != b[i] {
            return a[i] < b[i];
        }
        proof {
            assert(a@.skip(i as int).drop_first() =~= a@.skip(i + 1));
            assert(b@.skip(i as int).drop_first() =~= b@.skip(i + 1));
        }
        i = i + 1;
    }
    i < b.len()
}

fn is_dir(e: &FileEntry) -> (r: bool)
    ensures
        r == is_dir_entry(*e),
{
    str_eq(e.kind.as_str(), "dir")
}

fn key_less_exec(a: &FileEntry, b: &FileEntry, key: SortKey) -> (r: bool)
    ensures
        r == key_less(*a, *b, key),
{
    match key {
        SortKey::Name => {
            let x = to_lowercase(a.name.as_str());
            let y = to_lowercase(b.name.as_str());
            let xc = chars_of(x.as_str());
            let yc = chars_of(y.as_str());
            chars_less(xc.as_slice(), yc.as_slice())
        },
        SortKey::Modified => a.modified < b.modified,
        SortKey::Size => a.size < b.size,
        SortKey::Type => {
            let xc = chars_of(a.kind.as_str());
            let yc = chars_of(b.kind.as_str());
            chars_less(xc.as_slice(), yc.as_slice())
        },
    }
}

fn goes_before_exec(a: &FileEntry, b: &FileEntry, key: SortKey, asc: bool) -> (r: bool)
    ensures
        r == goes_before(*a, *b, key, asc),
{
    let da = is_dir(a);
    let db = is_dir(b);
    if da != db {
        da
    } else if asc {
        key_less_exec(a, b, key)
    } else {
        key_less_exec(b, a, key)
    }
}

/// Puts a listing's rows in order: the same rows, each as often, with
/// directories first, then by `key`, ascending when `asc`.
pub fn sort_entries(entries: &mut Vec<FileEntry>, key: SortKey, asc: bool)
    ensures
        is_sorting_of(final(entries)@, old(entries)@, key, asc),
{
    let mut out: Vec<FileEntry> = Vec::new();
    let mut i: usize = 0;
    proof {
        assert(entries@.take(0) =~= Seq::<FileEntry>::empty());
        assert(out@ =~= Seq::<FileEntry>::empty());
    }
    while i < entries.len()
        invariant
            i <= entries@.len(),
            out@.to_multiset() == entries@.take(i as int).to_multiset(),
            sorted_by(out@, key, asc),
        decreases entries@.len() - i,
    {
        let e = entries[i].duplicate();
        let mut pos: usize = 0;
        let mut found = false;
        while !found && pos < out.len()
            invariant
                pos <= out@.len(),
                found ==> pos < out@.len() && goes_before(e, out@[pos as int], key, asc),
                forall|k: int| 0 <= k < pos ==> !#[trigger] goes_before(e, out@[k], key, asc),
            decreases out@.len() - pos + (if found {
                0int
            } else {
                1int
            }),
        {
            if goes_before_exec(&e, &out[pos], key, asc) {
                found = true;
            } else {
                pos = pos + 1;
            }
        }
        let ghost before = out@;
        proof {
            if pos < before.len() {
                lemma_goes_before_asymmetric(e, before[pos as int], key, asc);
            }
        }
        out.insert(pos, e);
        proof {
            let n = out@;
            assert(n =~= before.insert(pos as int, e));
            assert forall|j: int| 0 <= j < n.len() - 1 implies !#[trigger] goes_before(
                n[j + 1],
                n[j],
                key,
                asc,
            ) by {
                if j + 1 < pos {
                    assert(n[j] == before[j] && n[j + 1] == before[j + 1]);
                } else if j + 1 == pos {
                    assert(n[j] == before[j] && n[j + 1] == e);
                } else if j == pos {
                    assert(n[j] == e && n[j + 1] == before[j]);
                } else {
                    assert(n[j] == before[j - 1] && n[j + 1] == before[j]);
                    assert(goes_before(before[(j - 1) + 1], before[j - 1], key, asc) == goes_before(
                        n[j + 1],
                        n[j],
                        key,
                        asc,
                    ));
                }
            }
            assert(entries@.take(i + 1) =~= entries@.take(i as int).push(e));
        }
        i = i + 1;
    }
    proof {
        assert(entries@.take(entries@.len() as int) =~= entries@);
    }
    *entries = out;
}

} // verus!
