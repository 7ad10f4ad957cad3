//! Unix path semantics on plain strings: components, equality, prefix
//! tests, final name, parent and extension, as `std::path::Path` defines
//! them for `/`-separated paths.

use vstd::prelude::*;
use crate::text::{chars_of, copy_chars, seq_eq, string_from_chars};

verus! {

/// The `/`-separated pieces of `s`, empty pieces included
/// (`"a//b/"` gives `["a", "", "b", ""]`).
pub open spec fn split_slash(s: Seq<char>) -> Seq<Seq<char>>
    decreases s.len(),
{
    if s.len() == 0 {
        seq![Seq::<char>::empty()]
    } else {
        let p = split_slash(s.drop_last());
        if s.last() == '/' {
            p.push(Seq::<char>::empty())
        } else {
            p.update(p.len() - 1, p.last().push(s.last()))
        }
    }
}

/// The component (zero or one) contributed by piece `seg` at position
/// `first` (whether it is the first piece). Empty pieces and `.` pieces
/// vanish, except a leading `.`; `..` stays.
pub open spec fn piece_component(seg: Seq<char>, first: bool) -> Seq<Seq<char>> {
    if seg.len() == 0 {
        seq![]
    } else if seg == seq!['.'] {
        if first {
            seq![seg]
        } else {
            seq![]
        }
    } else {
        seq![seg]
    }
}

/// Components of the pieces `segs`, in order.
pub open spec fn pieces_components(segs: Seq<Seq<char>>) -> Seq<Seq<char>>
    decreases segs.len(),
{
    if segs.len() == 0 {
        seq![]
    } else {
        pieces_components(segs.drop_last()) + piece_component(segs.last(), segs.len() == 1)
    }
}

/// The components of path `s`, each given by its text: `"/"` for the
/// root, `"."` for a leading current-directory marker, `".."` for a parent
/// marker, and the name otherwise.
pub open spec fn components(s: Seq<char>) -> Seq<Seq<char>> {
    if s.len() > 0 && s[0] == '/' {
        seq![seq!['/']] + pieces_components(split_slash(s))
    } else {
        pieces_components(split_slash(s))
    }
}

/// Whether a component is a plain name (not the root, `.` or `..`).
pub open spec fn is_normal(c: Seq<char>) -> bool {
    c != seq!['/'] && c != seq!['.'] && c != seq!['.', '.']
}

/// The final name of path `s`, if its last component is a plain name.
pub open spec fn file_name(s: Seq<char>) -> Option<Seq<char>> {
    let cs = components(s);
    if cs.len() > 0 && is_normal(cs.last()) {
        Some(cs.last())
    } else {
        None
    }
}

/// Whether the components of `prefix` begin the components of `s`.
pub open spec fn path_starts_with(s: Seq<char>, prefix: Seq<char>) -> bool {
    let a = components(s);
    let b = components(prefix);
    b.len() <= a.len() && a.subrange(0, b.len() as int) == b
}

/// The extension of a final name, as `Path::extension` splits it: the text
/// after the last `.`, unless that dot starts the name or the name is `..`.
pub open spec fn name_extension(name: Seq<char>) -> Option<Seq<char>> {
    if name == seq!['.', '.'] {
        None
    } else {
        match last_dot(name) {
            Some(i) => if i == 0 {
                None
            } else {
                Some(name.subrange(i + 1, name.len() as int))
            },
            None => None,
        }
    }
}

/// The position of the last `.` in `s`.
pub open spec fn last_dot(s: Seq<char>) -> Option<int>
    decreases s.len(),
{
    if s.len() == 0 {
        None
    } else if s.last() == '.' {
        Some(s.len() - 1)
    } else {
        last_dot(s.drop_last())
    }
}

/// The extension of path `s`.
pub open spec fn extension(s: Seq<char>) -> Option<Seq<char>> {
    match file_name(s) {
        Some(name) => name_extension(name),
        None => None,
    }
}

proof fn lemma_split_nonempty(s: Seq<char>)
    ensures
        split_slash(s).len() >= 1,
    decreases s.len(),
{
    if s.len() > 0 {
        lemma_split_nonempty(s.drop_last());
    }
}

/// The `/`-separated pieces of `s`.
fn split_pieces(s: &str) -> (r: Vec<Vec<char>>)
    ensures
        r@.map_values(|v: Vec<char>| v@) == split_slash(s@),
{
    let cs = chars_of(s);
    let mut done: Vec<Vec<char>> = Vec::new();
    let mut cur: Vec<char> = Vec::new();
    let mut i: usize = 0;
    while i < cs.len()
        invariant
            i <= cs.len(),
            cs@ == s@,
            done@.map_values(|v: Vec<char>| v@).push(cur@) == split_slash(cs@.take(i as int)),
        decreases cs.len() - i,
    {
        let ghost pre = cs@.take(i as int);
        proof {
            assert(cs@.take(i as int + 1).drop_last() == pre);
            lemma_split_nonempty(pre);
        }
        if cs[i] == '/' {
            let seg = cur;
            proof {
                assert(done@.push(seg).map_values(|v: Vec<char>| v@) == done@.map_values(
                    |v: Vec<char>| v@,
                ).push(seg@));
            }
            done.push(seg);
            cur = Vec::new();
            proof {
                assert(done@.map_values(|v: Vec<char>| v@).push(cur@) =~= split_slash(
                    cs@.take(i as int + 1),
                ));
            }
        } else {
            let ghost old_cur = cur@;
            cur.push(cs[i]);
            proof {
                let p = split_slash(pre);
                assert(p.last() == old_cur);
                assert(done@.map_values(|v: Vec<char>| v@).push(cur@) =~= p.update(
                    p.len() - 1,
                    p.last().push(cs@[i as int]),
                ));
            }
        }
        i = i + 1;
    }
    proof {
        assert(cs@.take(cs.len() as int) == cs@);
        assert(done@.push(cur).map_values(|v: Vec<char>| v@) == done@.map_values(
            |v: Vec<char>| v@,
        ).push(cur@));
    }
    done.push(cur);
    done
}

/// The components of path `s`, by their text (see [`components`]).
pub fn path_components(s: &str) -> (r: Vec<Vec<char>>)
    ensures
        r@.map_values(|v: Vec<char>| v@) == components(s@),
{
    let pieces = split_pieces(s);
    let ghost segs = pieces@.map_values(|v: Vec<char>| v@);
    let mut r: Vec<Vec<char>> = Vec::new();
    let cs = chars_of(s);
    let rooted = cs.len() > 0 && cs[0] == '/';
    if rooted {
        r.push(vec!['/']);
    }
    let ghost base: Seq<Seq<char>> = if rooted {
        seq![seq!['/']]
    } else {
        seq![]
    };
    proof {
        assert(segs.take(0).len() == 0);
        if rooted {
            assert(r@[0]@ =~= seq!['/']);
        }
        assert(r@.map_values(|v: Vec<char>| v@) =~= base + pieces_components(segs.take(0)));
    }
    let mut j: usize = 0;
    while j < pieces.len()
        invariant
            j <= pieces.len(),
            segs == pieces@.map_values(|v: Vec<char>| v@),
            r@.map_values(|v: Vec<char>| v@) == base + pieces_components(segs.take(j as int)),
        decreases pieces.len() - j,
    {
        let seg = &pieces[j];
        let ghost before = r@.map_values(|v: Vec<char>| v@);
        proof {
            assert(segs.take(j as int + 1).drop_last() == segs.take(j as int));
            assert(segs.take(j as int + 1).last() == seg@);
        }
        let ghost pc = piece_component(seg@, j == 0);
        proof {
            assert(pieces_components(segs.take(j as int + 1)) == pieces_components(
                segs.take(j as int),
            ) + pc);
        }
        if seg.len() == 0 {
            proof {
                assert(pc =~= seq![]);
                assert(before + pc =~= before);
            }
        } else if seg.len() == 1 && seg[0] == '.' {
            proof {
                assert(seg@ =~= seq!['.']);
            }
            if j == 0 {
                let c = copy_chars(seg);
                r.push(c);
                proof {
                    assert(r@.map_values(|v: Vec<char>| v@) =~= before + pc);
                }
            } else {
                proof {
                    assert(before + pc =~= before);
                }
            }
        } else {
            proof {
                if seg@ == seq!['.'] {
                    assert(seg@.len() == 1);
                }
            }
            let c = copy_chars(seg);
            r.push(c);
            proof {
                assert(r@.map_values(|v: Vec<char>| v@) =~= before + pc);
            }
        }
        proof {
            assert(r@.map_values(|v: Vec<char>| v@) =~= base + pieces_components(
                segs.take(j as int + 1),
            ));
        }
        j = j + 1;
    }
    proof {
        assert(segs.take(pieces.len() as int) == segs);
    }
    r
}

/// Whether two component lists are equal.
fn components_eq(a: &Vec<Vec<char>>, b: &Vec<Vec<char>>, n: usize) -> (r: bool)
    requires
        n <= a.len(),
        n <= b.len(),
    ensures
        r == (a@.map_values(|v: Vec<char>| v@).take(n as int) == b@.map_values(
            |v: Vec<char>| v@,
        ).take(n as int)),
{
    let ghost av = a@.map_values(|v: Vec<char>| v@);
    let ghost bv = b@.map_values(|v: Vec<char>| v@);
    let mut i: usize = 0;
    while i < n
        invariant
            i <= n <= a.len(),
            n <= b.len(),
            av == a@.map_values(|v: Vec<char>| v@),
            bv == b@.map_values(|v: Vec<char>| v@),
            forall|k: int| 0 <= k < i ==> av[k] == bv[k],
        decreases n - i,
    {
        if !seq_eq(&a[i], &b[i]) {
            proof {
                assert(av.take(n as int)[i as int] != bv.take(n as int)[i as int]);
            }
            return false;
        }
        i = i + 1;
    }
    proof {
        assert(av.take(n as int) =~= bv.take(n as int));
    }
    true
}

/// Whether `a` and `b` name the same path component by component, as
/// `Path`'s `==` decides.
pub fn path_eq(a: &str, b: &str) -> (r: bool)
    ensures
        r == (components(a@) == components(b@)),
{
    let ca = path_components(a);
    let cb = path_components(b);
    let ghost av = ca@.map_values(|v: Vec<char>| v@);
    let ghost bv = cb@.map_values(|v: Vec<char>| v@);
    if ca.len() != cb.len() {
        return false;
    }
    let r = components_eq(&ca, &cb, ca.len());
    proof {
        assert(av.take(ca.len() as int) == av);
        assert(bv.take(cb.len() as int) == bv);
    }
    r
}

/// Whether `s` begins with all components of `prefix`, as
/// `Path::starts_with` decides.
pub fn starts_with(s: &str, prefix: &str) -> (r: bool)
    ensures
        r == path_starts_with(s@, prefix@),
{
    let ca = path_components(s);
    let cb = path_components(prefix);
    let ghost av = ca@.map_values(|v: Vec<char>| v@);
    let ghost bv = cb@.map_values(|v: Vec<char>| v@);
    if cb.len() > ca.len() {
        return false;
    }
    let r = components_eq(&ca, &cb, cb.len());
    proof {
        assert(bv.take(cb.len() as int) == bv);
        assert(av.take(cb.len() as int) == av.subrange(0, cb.len() as int));
    }
    r
}

/// The final name of `s`, if any (see [`file_name`]).
pub fn path_file_name(s: &str) -> (r: Option<String>)
    ensures
        match r {
            Some(n) => file_name(s@) == Some(n@),
            None => file_name(s@) is None,
        },
{
    let cs = path_components(s);
    let ghost cv = cs@.map_values(|v: Vec<char>| v@);
    if cs.len() == 0 {
        return None;
    }
    let last = &cs[cs.len() - 1];
    proof {
        assert(cv.last() == last@);
    }
    let is_root = last.len() == 1 && last[0] == '/';
    let is_cur = last.len() == 1 && last[0] == '.';
    let is_parent = last.len() == 2 && last[0] == '.' && last[1] == '.';
    proof {
        if last@ == seq!['/'] || last@ == seq!['.'] {
            assert(last@.len() == 1);
        }
        if last@ == seq!['.', '.'] {
            assert(last@.len() == 2);
        }
        if is_root {
            assert(last@ =~= seq!['/']);
        }
        if is_cur {
            assert(last@ =~= seq!['.']);
        }
        if is_parent {
            assert(last@ =~= seq!['.', '.']);
        }
    }
    if is_root || is_cur || is_parent {
        None
    } else {
        Some(string_from_chars(last.as_slice()))
    }
}

/// The extension of a final name (see [`name_extension`]).
pub fn extension_of_name(name: &[char]) -> (r: Option<Vec<char>>)
    ensures
        match r {
            Some(e) => name_extension(name@) == Some(e@),
            None => name_extension(name@) is None,
        },
{
    if name.len() == 2 && name[0] == '.' && name[1] == '.' {
        proof {
            assert(name@ =~= seq!['.', '.']);
        }
        return None;
    }
    proof {
        if name@ == seq!['.', '.'] {
            assert(name@.len() == 2);
        }
    }
    let mut k: usize = name.len();
    proof {
        assert(name@.take(name.len() as int) == name@);
    }
    while k > 0 && name[k - 1] != '.'
        invariant
            k <= name.len(),
            last_dot(name@) == last_dot(name@.take(k as int)),
        decreases k,
    {
        proof {
            assert(name@.take(k as int).drop_last() == name@.take(k as int - 1));
        }
        k = k - 1;
    }
    proof {
        assert(name@.take(name.len() as int) == name@);
    }
    if k == 0 {
        proof {
            assert(name@.take(0).len() == 0);
        }
        return None;
    }
    let dot = k - 1;
    proof {
        assert(name@.take(k as int).last() == '.');
    }
    if dot == 0 {
        return None;
    }
    let mut e: Vec<char> = Vec::new();
    let mut j: usize = k;
    while j < name.len()
        invariant
            k <= j <= name.len(),
            e@ == name@.subrange(k as int, j as int),
        decreases name.len() - j,
    {
        proof {
            assert(name@.subrange(k as int, j + 1) == name@.subrange(k as int, j as int).push(
                name@[j as int],
            ));
        }
        e.push(name[j]);
        j = j + 1;
    }
    Some(e)
}

/// The extension of path `s`, if any (see [`extension`]).
pub fn path_extension(s: &str) -> (r: Option<Vec<char>>)
    ensures
        match r {
            Some(e) => extension(s@) == Some(e@),
            None => extension(s@) is None,
        },
{
    match path_file_name(s) {
        Some(n) => {
            let cs = chars_of(n.as_str());
            extension_of_name(cs.as_slice())
        },
        None => None,
    }
}

} // verus!
