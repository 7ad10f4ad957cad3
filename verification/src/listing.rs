//! What a listing row shows besides the entry itself: the icon for its
//! file type, its name shortened to fit, and the spans of the name that
//! match the search query.

use vstd::prelude::*;
use std::ops::Range;
use crate::paths::last_dot;
use crate::text::{
    byte_offset, byte_offsets, char_lowercase, chars_of, lowercase, lowercase_of_char, str_eq,
    string_from_chars, to_lowercase,
};

verus! {

/// The lowercase text after the last `.` of a name; empty without a dot.
pub open spec fn icon_ext(name: Seq<char>) -> Seq<char> {
    match last_dot(name) {
        Some(i) => lowercase(name.subrange(i + 1, name.len() as int)),
        None => Seq::empty(),
    }
}

/// The icon asset for a lowercase extension.
pub open spec fn icon_for_ext(e: Seq<char>) -> Seq<char> {
    if e == "rs"@ || e == "py"@ || e == "js"@ || e == "ts"@ || e == "go"@ || e == "c"@ || e
        == "cpp"@ || e == "h"@ || e == "json"@ || e == "toml"@ || e == "yaml"@ || e == "yml"@
        || e == "sh"@ {
        "icons/file-code.svg"@
    } else if e == "png"@ || e == "jpg"@ || e == "jpeg"@ || e == "gif"@ || e == "webp"@ || e
        == "svg"@ || e == "bmp"@ {
        "icons/file-image.svg"@
    } else if e == "zip"@ || e == "tar"@ || e == "gz"@ || e == "xz"@ || e == "zst"@ || e
        == "7z"@ || e == "rar"@ {
        "icons/file-archive.svg"@
    } else if e == "md"@ || e == "txt"@ || e == "rst"@ || e == "log"@ {
        "icons/file-text.svg"@
    } else {
        "icons/file.svg"@
    }
}

/// The icon asset of a listing entry.
pub open spec fn icon_for_entry(name: Seq<char>, kind: Seq<char>) -> Seq<char> {
    if kind == "dir"@ {
        "icons/folder.svg"@
    } else {
        icon_for_ext(icon_ext(name))
    }
}

/// The index of the last `.` of `name`, if any.
fn last_dot_index(name: &[char]) -> (r: Option<usize>)
    ensures
        match r {
            Some(i) => last_dot(name@) == Some(i as int) && i < name@.len() && name@[i as int]
                == '.',
            None => last_dot(name@) is None,
        },
{
    let mut k: usize = name.len();
    proof {
        assert(name@.take(name.len() as int) == name@);
    }
    while k > 0 && name[k - 1] != '.'
        invariant
            k <= name.len(),
            last_dot(name@) == last_dot(name@.take(k as int)),
        decreases k,
    {
        proof {
            assert(name@.take(k as int).drop_last() == name@.take(k as int - 1));
        }
        k = k - 1;
    }
    if k == 0 {
        proof {
            assert(name@.take(0).len() == 0);
        }
        return None;
    }
    proof {
        assert(name@.take(k as int).last() == '.');
    }
    Some(k - 1)
}

/// The icon asset path of a listing entry: the folder icon for directories,
/// otherwise by the (case-insensitive) text after the name's last `.`: code,
/// image, archive and text files have their own icons, anything else the
/// generic file icon.
pub fn icon_path_for(name: &str, kind: &str) -> (r: &'static str)
    ensures
        r@ == icon_for_entry(name@, kind@),
{
    if str_eq(kind, "dir") {
        return "icons/folder.svg";
    }
    let cs = chars_of(name);
    let ext: String = match last_dot_index(cs.as_slice()) {
        Some(i) => {
            let mut tail: Vec<char> = Vec::new();
            assert(i < cs.len());
            let mut j: usize = i + 1;
            while j < cs.len()
                invariant
                    i < cs@.len(),
                    i + 1 <= j <= cs@.len(),
                    tail@ == cs@.subrange(i + 1, j as int),
                decreases cs@.len() - j,
            {
                proof {
                    assert(cs@.subrange(i + 1, j + 1) == cs@.subrange(i + 1, j as int).push(
                        cs@[j as int],
                    ));
                }
                tail.push(cs[j]);
                j = j + 1;
            }
            let t = string_from_chars(tail.as_slice());
            to_lowercase(t.as_str())
        },
        None => String::new(),
    };
    let e = ext.as_str();
    if str_eq(e, "rs") || str_eq(e, "py") || str_eq(e, "js") || str_eq(e, "ts") || str_eq(e, "go")
        || str_eq(e, "c") || str_eq(e, "cpp") || str_eq(e, "h") || str_eq(e, "json") || str_eq(
        e,
        "toml",
    ) || str_eq(e, "yaml") || str_eq(e, "yml") || str_eq(e, "sh") {
        "icons/file-code.svg"
    } else if str_eq(e, "png") || str_eq(e, "jpg") || str_eq(e, "jpeg") || str_eq(e, "gif")
        || str_eq(e, "webp") || str_eq(e, "svg") || str_eq(e, "bmp") {
        "icons/file-image.svg"
    } else if str_eq(e, "zip") || str_eq(e, "tar") || str_eq(e, "gz") || str_eq(e, "xz")
        || str_eq(e, "zst") || str_eq(e, "7z") || str_eq(e, "rar") {
        "icons/file-archive.svg"
    } else if str_eq(e, "md") || str_eq(e, "txt") || str_eq(e, "rst") || str_eq(e, "log") {
        "icons/file-text.svg"
    } else {
        "icons/file.svg"
    }
}

/// The icon of a Places row, by its label.
pub open spec fn place_icon(label: Seq<char>) -> Seq<char> {
    if label == "Home"@ {
        "icons/house.svg"@
    } else if label == "Desktop"@ {
        "icons/monitor.svg"@
    } else if label == "Downloads"@ {
        "icons/download.svg"@
    } else if label == "Documents"@ {
        "icons/file-text.svg"@
    } else if label == "Pictures"@ || label == "Images"@ {
        "icons/file-image.svg"@
    } else if label == "Trash"@ {
        "icons/trash-2.svg"@
    } else {
        "icons/folder.svg"@
    }
}

/// The icon asset of a Places row in the sidebar; the generic folder for
/// any place without its own glyph.
pub fn folder_icon_path(label: &str) -> (r: &'static str)
    ensures
        r@ == place_icon(label@),
{
    if str_eq(label, "Home") {
        "icons/house.svg"
    } else if str_eq(label, "Desktop") {
        "icons/monitor.svg"
    } else if str_eq(label, "Downloads") {
        "icons/download.svg"
    } else if str_eq(label, "Documents") {
        "icons/file-text.svg"
    } else if str_eq(label, "Pictures") || str_eq(label, "Images") {
        "icons/file-image.svg"
    } else if str_eq(label, "Trash") {
        "icons/trash-2.svg"
    } else {
        "icons/folder.svg"
    }
}

/// Width reserved for the `...` elision marker.
pub const ELLIPSIS: usize = 3;

/// The three-dot elision marker.
pub open spec fn dots() -> Seq<char> {
    seq!['.', '.', '.']
}

/// `s` with its middle elided so that `budget` characters remain around
/// the marker: the first half (rounded down) and the rest from the end.
pub open spec fn elide(s: Seq<char>, budget: nat) -> Seq<char> {
    let keep_start = budget / 2;
    let keep_end = budget - keep_start;
    s.take(keep_start as int) + dots() + s.skip(s.len() - keep_end)
}

/// `text` shortened to at most `max_len` characters. Short text is kept;
/// with no room for the marker the text is cut; otherwise the middle of the
/// name is elided so the extension (from the last `.`) stays visible, and
/// when the extension itself does not fit, the middle of the whole text is
/// elided.
pub open spec fn truncated(s: Seq<char>, max_len: nat) -> Seq<char> {
    if s.len() <= max_len {
        s
    } else if max_len <= 3 {
        s.take(max_len as int)
    } else {
        match last_dot(s) {
            Some(d) if max_len >= (s.len() - d) + 3 => {
                let name = s.take(d);
                let ext = s.skip(d);
                let budget = (max_len - ext.len() - 3) as nat;
                if name.len() > budget {
                    elide(name, budget) + ext
                } else {
                    s
                }
            },
            _ => elide(s, (max_len - 3) as nat),
        }
    }
}

/// The characters of `s` from `from` to `to`.
fn chars_between(s: &[char], from: usize, to: usize) -> (r: Vec<char>)
    requires
        from <= to <= s@.len(),
    ensures
        r@ == s@.subrange(from as int, to as int),
{
    let mut out: Vec<char> = Vec::new();
    let mut j: usize = from;
    while j < to
        invariant
            from <= j <= to <= s@.len(),
            out@ == s@.subrange(from as int, j as int),
        decreases to - j,
    {
        proof {
            assert(s@.subrange(from as int, j + 1) == s@.subrange(from as int, j as int).push(
                s@[j as int],
            ));
        }
        out.push(s[j]);
        j = j + 1;
    }
    out
}

/// `s` with its middle elided, `budget` characters kept around the marker.
fn elide_chars(s: &[char], budget: usize) -> (r: Vec<char>)
    requires
        budget <= s@.len(),
    ensures
        r@ == elide(s@, budget as nat),
{
    let keep_start = budget / 2;
    let keep_end = budget - keep_start;
    let mut out = chars_between(s, 0, keep_start);
    out.push('.');
    out.push('.');
    out.push('.');
    let tail = chars_between(s, s.len() - keep_end, s.len());
    let mut j: usize = 0;
    let ghost head = out@;
    while j < tail.len()
        invariant
            j <= tail@.len(),
            out@ == head + tail@.take(j as int),
        decreases tail@.len() - j,
    {
        proof {
            assert(tail@.take(j + 1) == tail@.take(j as int).push(tail@[j as int]));
        }
        out.push(tail[j]);
        j = j + 1;
    }
    proof {
        assert(tail@.take(tail@.len() as int) == tail@);
        assert(s@.take(keep_start as int) == s@.subrange(0, keep_start as int));
        assert(s@.skip(s@.len() - keep_end) == s@.subrange(
            s@.len() - keep_end,
            s@.len() as int,
        ));
        assert(out@ =~= elide(s@, budget as nat));
    }
    out
}

/// Shortens `text` to at most `max_len` characters by eliding the middle,
/// keeping the file extension visible where it fits (see [`truncated`]).
pub fn truncate_middle(text: &str, max_len: usize) -> (r: String)
    ensures
        r@ == truncated(text@, max_len as nat),
        r@.len() <= max_len,
{
    let chars = chars_of(text);
    let n = chars.len();
    if n <= max_len {
        return text.to_string();
    }
    if max_len <= ELLIPSIS {
        let head = chars_between(chars.as_slice(), 0, max_len);
        proof {
            assert(text@.take(max_len as int) == text@.subrange(0, max_len as int));
        }
        return string_from_chars(head.as_slice());
    }
    if let Some(dot) = last_dot_index(chars.as_slice()) {
        let ext_chars = n - dot;
        if ext_chars <= max_len - ELLIPSIS {
            let budget = max_len - ELLIPSIS - ext_chars;
            if dot > budget {
                let name = chars_between(chars.as_slice(), 0, dot);
                let mut out = elide_chars(name.as_slice(), budget);
                let ghost head = out@;
                let ext = chars_between(chars.as_slice(), dot, n);
                let mut j: usize = 0;
                while j < ext.len()
                    invariant
                        j <= ext@.len(),
                        out@ == head + ext@.take(j as int),
                    decreases ext@.len() - j,
                {
                    proof {
                        assert(ext@.take(j + 1) == ext@.take(j as int).push(ext@[j as int]));
                    }
                    out.push(ext[j]);
                    j = j + 1;
                }
                proof {
                    assert(ext@.take(ext@.len() as int) == ext@);
                    assert(text@.take(dot as int) == text@.subrange(0, dot as int));
                    assert(text@.skip(dot as int) == text@.subrange(dot as int, n as int));
                    assert(out@ =~= truncated(text@, max_len as nat));
                }
                return string_from_chars(out.as_slice());
            }
            return text.to_string();
        }
    }
    let budget = max_len - ELLIPSIS;
    let out = elide_chars(chars.as_slice(), budget);
    string_from_chars(out.as_slice())
}

/// The lowercase form of `s` character by character: each character's
/// `char::to_lowercase` expansion, concatenated.
pub open spec fn lower_flat(s: Seq<char>) -> Seq<char>
    decreases s.len(),
{
    if s.len() == 0 {
        Seq::empty()
    } else {
        lower_flat(s.drop_last()) + char_lowercase(s.last())
    }
}

/// Lowercasing character by character distributes over concatenation.
proof fn lemma_lower_flat_concat(a: Seq<char>, b: Seq<char>)
    ensures
        lower_flat(a + b) == lower_flat(a) + lower_flat(b),
    decreases b.len(),
{
    if b.len() == 0 {
        assert(a + b =~= a);
        assert(lower_flat(a) + lower_flat(b) =~= lower_flat(a));
    } else {
        lemma_lower_flat_concat(a, b.drop_last());
        assert((a + b).drop_last() =~= a + b.drop_last());
        assert((a + b).last() == b.last());
        assert(lower_flat(a + b) =~= lower_flat(a) + lower_flat(b));
    }
}

/// Whether the `k` characters of `t` from `i` (at least one) lowercase,
/// character by character, to exactly `q`.
pub open spec fn match_at(t: Seq<char>, q: Seq<char>, i: int, k: int) -> bool {
    1 <= k && 0 <= i && i + k <= t.len() && lower_flat(t.subrange(i, i + k)) == q
}

/// Whether `k` is the shortest match of `q` at `i`.
pub open spec fn least_match(t: Seq<char>, q: Seq<char>, i: int, k: int) -> bool {
    match_at(t, q, i, k) && forall|j: int| 1 <= j < k ==> !#[trigger] match_at(t, q, i, j)
}

/// The character spans of the matches of `q` in `t` from `i` on, scanning
/// left to right: a match at a position is taken (its shortest form) and
/// the scan resumes after it; otherwise the scan moves one character on.
pub open spec fn match_spans(t: Seq<char>, q: Seq<char>, i: int) -> Seq<(int, int)>
    decreases t.len() - i,
{
    if i < 0 || i >= t.len() {
        Seq::empty()
    } else if exists|k: int| least_match(t, q, i, k) {
        let k = choose|k: int| least_match(t, q, i, k);
        seq![(i, i + k)] + match_spans(t, q, i + k)
    } else {
        match_spans(t, q, i + 1)
    }
}

/// The shortest match of `q` (non-empty) at position `i` of `t`, if any:
/// the text's characters from `i` are lowercased one at a time, each
/// expansion compared in full against the query's next characters.
fn match_length(t: &Vec<char>, q: &Vec<char>, i: usize) -> (r: Option<usize>)
    requires
        q@.len() > 0,
        i < t@.len(),
    ensures
        match r {
            Some(k) => least_match(t@, q@, i as int, k as int),
            None => forall|k: int| !#[trigger] match_at(t@, q@, i as int, k),
        },
{
    let n = t.len();
    let mut q_idx: usize = 0;
    let mut off: usize = 0;
    proof {
        assert(t@.subrange(i as int, i as int) =~= Seq::<char>::empty());
        assert(q@.take(0) =~= Seq::<char>::empty());
    }
    while q_idx < q.len()
        invariant
            i < t@.len() == n,
            q_idx <= q@.len(),
            i + off <= n,
            lower_flat(t@.subrange(i as int, i + off)) == q@.take(q_idx as int),
            forall|j: int| 1 <= j < off ==> !#[trigger] match_at(t@, q@, i as int, j),
            off == 0 ==> q_idx == 0,
        decreases n - (i + off),
    {
        let ghost pre = t@.subrange(i as int, i + off);
        proof {
            if off >= 1 {
                assert(q@.take(q_idx as int).len() < q@.len());
                assert(!match_at(t@, q@, i as int, off as int));
            }
        }
        if i + off >= n {
            proof {
                assert forall|k: int| !#[trigger] match_at(t@, q@, i as int, k) by {
                    if match_at(t@, q@, i as int, k) {
                        assert(k <= off);
                    }
                }
            }
            return None;
        }
        let lc = lowercase_of_char(t[i + off]);
        let ghost cur = t@.subrange(i as int, i + off + 1);
        proof {
            assert(cur.drop_last() =~= pre);
            assert(cur.last() == t@[i + off]);
            assert(lower_flat(cur) == q@.take(q_idx as int) + lc@);
        }
        let mut p: usize = 0;
        while p < lc.len()
            invariant
                i < t@.len() == n,
                i + off < n,
                q_idx < q@.len(),
                q_idx + p <= q.len(),
                p <= lc@.len(),
                cur == t@.subrange(i as int, i + off + 1),
                lower_flat(cur) == q@.take(q_idx as int) + lc@,
                lower_flat(t@.subrange(i as int, i + off)) == q@.take(q_idx as int),
                forall|j: int| 1 <= j < off ==> !#[trigger] match_at(t@, q@, i as int, j),
                forall|pp: int| 0 <= pp < p ==> q@[q_idx + pp] == #[trigger] lc@[pp],
            decreases lc@.len() - p,
        {
            if q_idx + p >= q.len() || q[q_idx + p] != lc[p] {
                proof {
                    assert forall|k: int| !#[trigger] match_at(t@, q@, i as int, k) by {
                        if match_at(t@, q@, i as int, k) {
                            if k <= off {
                                assert(k == off);
                                assert(q@.take(q_idx as int).len() < q@.len());
                            } else {
                                let whole = t@.subrange(i as int, i + k);
                                assert(whole =~= cur + t@.subrange(i + off + 1, i + k));
                                lemma_lower_flat_concat(cur, t@.subrange(i + off + 1, i + k));
                                let rest = lower_flat(t@.subrange(i + off + 1, i + k));
                                assert(lower_flat(whole) == q@.take(q_idx as int) + lc@ + rest);
                                assert((q@.take(q_idx as int) + lc@ + rest)[q_idx + p] == lc@[p as int]);
                            }
                        }
                    }
                }
                return None;
            }
            p = p + 1;
        }
        proof {
            assert(q@.take(q_idx + lc@.len()) =~= q@.take(q_idx as int) + lc@);
        }
        q_idx = q_idx + lc.len();
        off = off + 1;
    }
    proof {
        assert(q@.take(q@.len() as int) =~= q@);
        assert(match_at(t@, q@, i as int, off as int));
    }
    Some(off)
}

/// The byte ranges of `text` where `query` occurs, ignoring case, for
/// highlighting search matches: the query is lowercased as a whole, the
/// text one character at a time, and matches are taken left to right
/// without overlap (see [`match_spans`]). An empty query highlights
/// nothing.
pub fn find_query_highlights(text: &str, query: &str) -> (r: Vec<Range<usize>>)
    ensures
        query@.len() == 0 || lowercase(query@).len() == 0 ==> r@.len() == 0,
        query@.len() > 0 && lowercase(query@).len() > 0 ==> r@.len() == match_spans(
            text@,
            lowercase(query@),
            0,
        ).len(),
        query@.len() > 0 && lowercase(query@).len() > 0 ==> forall|m: int|
            #![trigger r@[m]]
            0 <= m < r@.len() ==> r@[m].start == byte_offset(
                text@,
                match_spans(text@, lowercase(query@), 0)[m].0,
            ) && r@[m].end == byte_offset(text@, match_spans(text@, lowercase(query@), 0)[m].1),
{
    let mut highlights: Vec<Range<usize>> = Vec::new();
    if query.is_empty() {
        return highlights;
    }
    let ql = to_lowercase(query);
    let q = chars_of(ql.as_str());
    if q.len() == 0 {
        return highlights;
    }
    let t = chars_of(text);
    let offs = byte_offsets(text);
    let ghost all = match_spans(text@, q@, 0);
    let ghost mut done: Seq<(int, int)> = Seq::empty();
    let mut i: usize = 0;
    while i < t.len()
        invariant
            t@ == text@,
            q@ == lowercase(query@),
            q@.len() > 0,
            offs@.len() == text@.len() + 1,
            forall|j: int| 0 <= j <= text@.len() ==> #[trigger] offs@[j] == byte_offset(text@, j),
            i <= t@.len(),
            all == done + match_spans(text@, q@, i as int),
            highlights@.len() == done.len(),
            forall|m: int|
                0 <= m < done.len() ==> #[trigger] highlights@[m].start == byte_offset(
                    text@,
                    done[m].0,
                ) && highlights@[m].end == byte_offset(text@, done[m].1),
            forall|m: int| 0 <= m < done.len() ==> 0 <= #[trigger] done[m].0 <= done[m].1 <= i,
        decreases t@.len() - i,
    {
        match match_length(&t, &q, i) {
            Some(k) => {
                proof {
                    assert(exists|kk: int| least_match(text@, q@, i as int, kk));
                    let kk = choose|kk: int| least_match(text@, q@, i as int, kk);
                    if kk < k {
                        assert(!match_at(text@, q@, i as int, kk));
                    }
                    if k < kk {
                        assert(!match_at(text@, q@, i as int, k as int));
                    }
                    assert(match_spans(text@, q@, i as int) == seq![(i as int, i + k)]
                        + match_spans(text@, q@, i + k));
                    done = done.push((i as int, i + k));
                    assert(all =~= done + match_spans(text@, q@, i + k));
                }
                highlights.push(offs[i]..offs[i + k]);
                i = i + k;
            },
            None => {
                proof {
                    assert(!exists|kk: int| least_match(text@, q@, i as int, kk));
                }
                i = i + 1;
            },
        }
    }
    proof {
        assert(match_spans(text@, q@, i as int) == Seq::<(int, int)>::empty());
        assert(all =~= done);
        assert(highlights@.len() == all.len());
        assert forall|m: int| #![trigger highlights@[m]] 0 <= m < all.len() implies highlights@[m].start
            == byte_offset(text@, all[m].0) && highlights@[m].end == byte_offset(
            text@,
            all[m].1,
        ) by {
            assert(all[m] == done[m]);
        }
        assert(all == match_spans(text@, lowercase(query@), 0));
    }
    highlights
}

proof fn lemma_last_dot_bounds(s: Seq<char>)
    ensures
        last_dot(s) matches Some(d) ==> 0 <= d < s.len() && s[d] == '.',
    decreases s.len(),
{
    if s.len() > 0 && s.last() != '.' {
        lemma_last_dot_bounds(s.drop_last());
    }
}

/// A name longer than the limit keeps its whole extension (from its last
/// `.`) at the end when the limit leaves room for the extension and the
/// marker, and never exceeds the limit.
pub proof fn law_truncation_keeps_extension(s: Seq<char>, max_len: nat, d: int)
    requires
        s.len() > max_len,
        max_len > 3,
        last_dot(s) == Some(d),
        (s.len() - d) + 3 <= max_len,
    ensures
        truncated(s, max_len).len() <= max_len,
        truncated(s, max_len).skip(truncated(s, max_len).len() - (s.len() - d)) == s.skip(d),
{
    lemma_last_dot_bounds(s);
    let name = s.take(d);
    let ext = s.skip(d);
    let budget = (max_len - ext.len() - 3) as nat;
    assert(name.len() == d);
    assert(name.len() > budget);
    let e = elide(name, budget);
    let keep_start = budget / 2;
    let keep_end = budget - keep_start;
    assert(e.len() == keep_start + 3 + keep_end);
    let t = e + ext;
    assert(truncated(s, max_len) == t);
    assert(t.skip(t.len() - ext.len()) =~= ext);
}

/// Every highlighted span lowercases, character by character, to the
/// query, and the spans run left to right without overlapping.
pub proof fn law_highlights_match_query(t: Seq<char>, q: Seq<char>, i: int)
    requires
        0 <= i,
    ensures
        forall|m: int|
            #![trigger match_spans(t, q, i)[m]]
            0 <= m < match_spans(t, q, i).len() ==> {
                let (a, b) = match_spans(t, q, i)[m];
                &&& i <= a < b <= t.len()
                &&& lower_flat(t.subrange(a, b)) == q
            },
        forall|m: int|
            #![trigger match_spans(t, q, i)[m]]
            0 <= m < match_spans(t, q, i).len() - 1 ==> match_spans(t, q, i)[m].1 <= match_spans(
                t,
                q,
                i,
            )[m + 1].0,
    decreases t.len() - i,
{
    if i >= t.len() {
        assert(match_spans(t, q, i).len() == 0);
    } else if exists|k: int| least_match(t, q, i, k) {
        let k = choose|k: int| least_match(t, q, i, k);
        law_highlights_match_query(t, q, i + k);
        let rest = match_spans(t, q, i + k);
        assert(match_spans(t, q, i) == seq![(i, i + k)] + rest);
        assert(match_spans(t, q, i)[0] == (i, i + k));
        assert forall|m: int|
            #![trigger match_spans(t, q, i)[m]]
            0 <= m < match_spans(t, q, i).len() - 1 implies match_spans(t, q, i)[m].1
                <= match_spans(t, q, i)[m + 1].0 by {
            if m > 0 {
                assert(match_spans(t, q, i)[m] == rest[m - 1]);
                assert(match_spans(t, q, i)[m + 1] == rest[m]);
            } else {
                assert(match_spans(t, q, i)[1] == rest[0]);
            }
        }
        assert forall|m: int|
            #![trigger match_spans(t, q, i)[m]]
            0 <= m < match_spans(t, q, i).len() implies ({
                let (a, b) = match_spans(t, q, i)[m];
                &&& i <= a < b <= t.len()
                &&& lower_flat(t.subrange(a, b)) == q
            }) by {
            if m > 0 {
                assert(match_spans(t, q, i)[m] == rest[m - 1]);
            }
        }
    } else {
        law_highlights_match_query(t, q, i + 1);
        assert(match_spans(t, q, i) == match_spans(t, q, i + 1));
    }
}

} // verus!
