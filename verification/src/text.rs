//! Character-level string helpers shared by the explorer: collecting a
//! string's characters, building strings, ASCII case folding, Unicode
//! whitespace trimming, and decimal/octal rendering of integers.

use vstd::prelude::*;
use vstd::utf8::{encode_scalar, encode_utf8, is_ascii_chars};

verus! {

/// The characters of an optional string.
pub open spec fn opt_chars(o: Option<&str>) -> Option<Seq<char>> {
    match o {
        Some(s) => Some(s@),
        None => None,
    }
}

/// The characters of `s`, as a vector.
pub fn chars_of(s: &str) -> (v: Vec<char>)
    ensures
        v@ == s@,
{
    let mut v: Vec<char> = Vec::new();
    for c in it: s.chars()
        invariant
            v@ == it.seq().take(it.index()),
            it.seq() == s@,
    {
        proof {
            assert(it.seq().take(it.index() + 1) == it.seq().take(it.index()).push(c));
        }
        v.push(c);
    }
    v
}

/// A copy of a character vector.
pub fn copy_chars(v: &Vec<char>) -> (r: Vec<char>)
    ensures
        r@ == v@,
{
    let r = v.clone();
    proof {
        assert(r@ =~= v@);
    }
    r
}

/// `String::push`: appends one character to a string.
#[verifier::external_body]
pub(crate) fn push_char(s: &mut String, c: char)
    ensures
        final(s)@ == old(s)@.push(c),
{
    s.push(c);
}

/// Builds a string from a slice of characters.
pub fn string_from_chars(cs: &[char]) -> (r: String)
    ensures
        r@ == cs@,
{
    let mut r = String::new();
    let mut i: usize = 0;
    while i < cs.len()
        invariant
            i <= cs.len(),
            r@ == cs@.take(i as int),
        decreases cs.len() - i,
    {
        proof {
            assert(cs@.take(i as int + 1) == cs@.take(i as int).push(cs@[i as int]));
        }
        push_char(&mut r, cs[i]);
        i = i + 1;
    }
    proof {
        assert(cs@.take(cs.len() as int) == cs@);
    }
    r
}


/// Appends every character of `t` to `s`.
pub fn push_str(s: &mut String, t: &str)
    ensures
        final(s)@ == old(s)@ + t@,
{
    let cs = chars_of(t);
    let mut i: usize = 0;
    while i < cs.len()
        invariant
            i <= cs.len(),
            cs@ == t@,
            s@ == old(s)@ + t@.take(i as int),
        decreases cs.len() - i,
    {
        proof {
            assert(t@.take(i as int + 1) == t@.take(i as int).push(cs@[i as int]));
            assert(old(s)@ + t@.take(i as int + 1) == (old(s)@ + t@.take(i as int)).push(cs@[i as int]));
        }
        push_char(s, cs[i]);
        i = i + 1;
    }
    proof {
        assert(t@.take(cs.len() as int) == t@);
    }
}

/// Whether two strings hold the same characters.
pub fn str_eq(a: &str, b: &str) -> (r: bool)
    ensures
        r == (a@ == b@),
{
    let x = chars_of(a);
    let y = chars_of(b);
    seq_eq(&x, &y)
}

/// Whether two character slices are equal.
pub fn seq_eq(x: &[char], y: &[char]) -> (r: bool)
    ensures
        r == (x@ == y@),
{
    if x.len() != y.len() {
        return false;
    }
    let mut i: usize = 0;
    while i < x.len()
        invariant
            i <= x.len(),
            x.len() == y.len(),
            forall|j: int| 0 <= j < i ==> x@[j] == y@[j],
        decreases x.len() - i,
    {
        if x[i] != y[i] {
            return false;
        }
        i = i + 1;
    }
    proof {
        assert(x@ =~= y@);
    }
    true
}

/// The ASCII lowercase of one character (`A`..=`Z` become `a`..=`z`).
pub open spec fn ascii_lower_char(c: char) -> char {
    if 'A' <= c <= 'Z' {
        ((c as u32) + 32) as char
    } else {
        c
    }
}

/// The ASCII lowercase of a character sequence.
pub open spec fn ascii_lower(s: Seq<char>) -> Seq<char> {
    s.map_values(|c: char| ascii_lower_char(c))
}

/// What `str::to_lowercase` returns for a string holding `s`.
pub uninterp spec fn lowercase(s: Seq<char>) -> Seq<char>;

/// `str::to_lowercase`. The result is named by [`lowercase`]; on ASCII input
/// it is the ASCII lowercase, character by character. Nothing else about the
/// Unicode case mapping is stated.
#[verifier::external_body]
pub(crate) fn to_lowercase(s: &str) -> (r: String)
    ensures
        r@ == lowercase(s@),
        is_ascii_chars(s@) ==> r@ == ascii_lower(s@),
{
    s.to_lowercase()
}

/// What `char::to_lowercase` yields for `c`.
pub uninterp spec fn char_lowercase(c: char) -> Seq<char>;

/// `char::to_lowercase`, collected. The result is named by
/// [`char_lowercase`]; for an ASCII character it is its single ASCII
/// lowercase. Nothing else about the Unicode case mapping is stated.
#[verifier::external_body]
pub(crate) fn lowercase_of_char(c: char) -> (r: Vec<char>)
    ensures
        r@ == char_lowercase(c),
        c <= '\u{7f}' ==> r@ == seq![ascii_lower_char(c)],
{
    c.to_lowercase().collect()
}

/// Unicode `White_Space`, the property `char::is_whitespace` reports.
pub open spec fn is_white_space(c: char) -> bool {
    ||| '\u{9}' <= c <= '\u{d}'
    ||| c == ' '
    ||| c == '\u{85}'
    ||| c == '\u{a0}'
    ||| c == '\u{1680}'
    ||| '\u{2000}' <= c <= '\u{200a}'
    ||| c == '\u{2028}'
    ||| c == '\u{2029}'
    ||| c == '\u{202f}'
    ||| c == '\u{205f}'
    ||| c == '\u{3000}'
}

/// Whether `c` is Unicode whitespace.
pub fn is_whitespace(c: char) -> (r: bool)
    ensures
        r == is_white_space(c),
{
    ('\u{9}' <= c && c <= '\u{d}') || c == ' ' || c == '\u{85}' || c == '\u{a0}' || c
        == '\u{1680}' || ('\u{2000}' <= c && c <= '\u{200a}') || c == '\u{2028}' || c
        == '\u{2029}' || c == '\u{202f}' || c == '\u{205f}' || c == '\u{3000}'
}

/// `s` without its leading whitespace.
pub open spec fn trim_start(s: Seq<char>) -> Seq<char>
    decreases s.len(),
{
    if s.len() > 0 && is_white_space(s[0]) {
        trim_start(s.drop_first())
    } else {
        s
    }
}

/// `s` without its trailing whitespace.
pub open spec fn trim_end(s: Seq<char>) -> Seq<char>
    decreases s.len(),
{
    if s.len() > 0 && is_white_space(s.last()) {
        trim_end(s.drop_last())
    } else {
        s
    }
}

/// `s` without leading and trailing whitespace, as `str::trim` gives it.
pub open spec fn trimmed(s: Seq<char>) -> Seq<char> {
    trim_end(trim_start(s))
}

proof fn lemma_trim_start_skip(s: Seq<char>, i: int)
    requires
        0 <= i <= s.len(),
        forall|j: int| 0 <= j < i ==> is_white_space(#[trigger] s[j]),
    ensures
        trim_start(s) == trim_start(s.subrange(i, s.len() as int)),
    decreases i,
{
    if i > 0 {
        lemma_trim_start_skip(s.drop_first(), i - 1);
        assert(s.drop_first().subrange(i - 1, s.drop_first().len() as int) =~= s.subrange(
            i,
            s.len() as int,
        ));
    } else {
        assert(s.subrange(0, s.len() as int) =~= s);
    }
}

proof fn lemma_trim_end_skip(s: Seq<char>, k: int)
    requires
        0 <= k <= s.len(),
        forall|j: int| k <= j < s.len() ==> is_white_space(#[trigger] s[j]),
    ensures
        trim_end(s) == trim_end(s.subrange(0, k)),
    decreases s.len() - k,
{
    if k < s.len() {
        lemma_trim_end_skip(s.drop_last(), k);
        assert(s.drop_last().subrange(0, k) =~= s.subrange(0, k));
    } else {
        assert(s.subrange(0, k) =~= s);
    }
}

/// The characters of `s` without leading and trailing whitespace.
pub fn trim_chars(s: &str) -> (r: Vec<char>)
    ensures
        r@ == trimmed(s@),
{
    let cs = chars_of(s);
    let mut i: usize = 0;
    while i < cs.len() && is_whitespace(cs[i])
        invariant
            i <= cs.len(),
            cs@ == s@,
            forall|j: int| 0 <= j < i ==> is_white_space(#[trigger] cs@[j]),
        decreases cs.len() - i,
    {
        i = i + 1;
    }
    let ghost rest = cs@.subrange(i as int, cs.len() as int);
    proof {
        lemma_trim_start_skip(cs@, i as int);
        if rest.len() > 0 {
            assert(rest[0] == cs@[i as int]);
        }
    }
    let mut k: usize = cs.len();
    while k > i && is_whitespace(cs[k - 1])
        invariant
            i <= k <= cs.len(),
            forall|j: int| k <= j < cs.len() ==> is_white_space(#[trigger] cs@[j]),
        decreases k,
    {
        k = k - 1;
    }
    proof {
        lemma_trim_end_skip(rest, k - i);
        assert(rest.subrange(0, k - i) =~= cs@.subrange(i as int, k as int));
        let t = cs@.subrange(i as int, k as int);
        if t.len() > 0 {
            assert(t.last() == cs@[k - 1]);
        }
    }
    let mut r: Vec<char> = Vec::new();
    let mut j: usize = i;
    while j < k
        invariant
            i <= j <= k <= cs.len(),
            r@ == cs@.subrange(i as int, j as int),
        decreases k - j,
    {
        proof {
            assert(cs@.subrange(i as int, j + 1) == cs@.subrange(i as int, j as int).push(cs@[j as int]));
        }
        r.push(cs[j]);
        j = j + 1;
    }
    r
}

/// The decimal digit character for `d` (`0` ..= `9`).
pub open spec fn digit_char(d: nat) -> char {
    (d + 48) as char
}

/// Decimal rendering of `n`, without sign or leading zeros.
pub open spec fn decimal(n: nat) -> Seq<char>
    decreases n,
{
    if n < 10 {
        seq![digit_char(n)]
    } else {
        decimal(n / 10).push(digit_char(n % 10))
    }
}

/// Octal rendering of `n`, without leading zeros.
pub open spec fn octal(n: nat) -> Seq<char>
    decreases n,
{
    if n < 8 {
        seq![digit_char(n)]
    } else {
        octal(n / 8).push(digit_char(n % 8))
    }
}

/// `s` left-padded with `'0'` to at least `width` characters.
pub open spec fn zero_pad(s: Seq<char>, width: nat) -> Seq<char> {
    if s.len() >= width {
        s
    } else {
        Seq::new((width - s.len()) as nat, |i: int| '0') + s
    }
}

fn digit(d: u64) -> (c: char)
    requires
        d < 10,
    ensures
        c == digit_char(d as nat),
{
    let b: u8 = (d as u8) + 48;
    b as char
}

/// Appends the decimal rendering of `n`.
pub fn push_decimal(s: &mut String, n: u64)
    ensures
        final(s)@ == old(s)@ + decimal(n as nat),
    decreases n,
{
    if n >= 10 {
        push_decimal(s, n / 10);
    }
    push_char(s, digit(n % 10));
    proof {
        if n >= 10 {
            assert(old(s)@ + decimal(n as nat) == old(s)@ + decimal((n / 10) as nat) + seq![
                digit_char((n % 10) as nat),
            ]);
        }
    }
}

/// Appends the octal rendering of `n`.
pub fn push_octal(s: &mut String, n: u64)
    ensures
        final(s)@ == old(s)@ + octal(n as nat),
    decreases n,
{
    if n >= 8 {
        push_octal(s, n / 8);
    }
    push_char(s, digit(n % 8));
    proof {
        if n >= 8 {
            assert(old(s)@ + octal(n as nat) == old(s)@ + octal((n / 8) as nat) + seq![
                digit_char((n % 8) as nat),
            ]);
        }
    }
}

/// The decimal rendering of `n`, left-padded with zeros to `width`.
pub fn decimal_padded(n: u64, width: usize) -> (r: String)
    ensures
        r@ == zero_pad(decimal(n as nat), width as nat),
{
    let mut digits = String::new();
    push_decimal(&mut digits, n);
    let ds = chars_of(digits.as_str());
    let mut r = String::new();
    let mut k: usize = ds.len();
    let ghost pad_len: int = if ds.len() >= width { 0 } else { width - ds.len() };
    while k < width
        invariant
            ds@ == decimal(n as nat),
            ds.len() <= k <= (if ds.len() >= width { ds.len() as int } else { width as int }),
            r@ == Seq::new((k - ds.len()) as nat, |i: int| '0'),
        decreases width - k,
    {
        push_char(&mut r, '0');
        k = k + 1;
        proof {
            assert(r@ =~= Seq::new((k - ds.len()) as nat, |i: int| '0'));
        }
    }
    push_str(&mut r, digits.as_str());
    proof {
        if ds.len() >= width {
            assert(r@ =~= decimal(n as nat));
        }
    }
    r
}

/// The octal rendering of `n`, left-padded with zeros to `width`.
pub fn octal_padded(n: u64, width: usize) -> (r: String)
    ensures
        r@ == zero_pad(octal(n as nat), width as nat),
{
    let mut digits = String::new();
    push_octal(&mut digits, n);
    let ds = chars_of(digits.as_str());
    let mut r = String::new();
    let mut k: usize = ds.len();
    while k < width
        invariant
            ds@ == octal(n as nat),
            ds.len() <= k <= (if ds.len() >= width { ds.len() as int } else { width as int }),
            r@ == Seq::new((k - ds.len()) as nat, |i: int| '0'),
        decreases width - k,
    {
        push_char(&mut r, '0');
        k = k + 1;
        proof {
            assert(r@ =~= Seq::new((k - ds.len()) as nat, |i: int| '0'));
        }
    }
    push_str(&mut r, digits.as_str());
    proof {
        if ds.len() >= width {
            assert(r@ =~= octal(n as nat));
        }
    }
    r
}

/// The byte offset of character `k` of `s`: the length of the UTF-8
/// encoding of the characters before it.
pub open spec fn byte_offset(s: Seq<char>, k: int) -> nat {
    encode_utf8(s.take(k)).len()
}

/// The UTF-8 encoding of a concatenation is the concatenation of the
/// encodings.
pub proof fn lemma_encode_concat(a: Seq<char>, b: Seq<char>)
    ensures
        encode_utf8(a + b) == encode_utf8(a) + encode_utf8(b),
    decreases a.len(),
{
    if a.len() == 0 {
        assert(a + b =~= b);
        assert(encode_utf8(a) =~= Seq::<u8>::empty());
        assert(encode_utf8(a) + encode_utf8(b) =~= encode_utf8(b));
    } else {
        lemma_encode_concat(a.drop_first(), b);
        assert((a + b).drop_first() =~= a.drop_first() + b);
        assert((a + b)[0] == a[0]);
        assert(encode_utf8(a + b) =~= encode_scalar(a[0] as u32) + (encode_utf8(a.drop_first())
            + encode_utf8(b)));
    }
}

/// The byte offset of the character after `k` is that of `k` plus the
/// width of character `k`.
pub proof fn lemma_byte_offset_step(s: Seq<char>, k: int)
    requires
        0 <= k < s.len(),
    ensures
        byte_offset(s, k + 1) == byte_offset(s, k) + encode_scalar(s[k] as u32).len(),
        byte_offset(s, k + 1) <= encode_utf8(s).len(),
{
    assert(s.take(k + 1) =~= s.take(k) + seq![s[k]]);
    lemma_encode_concat(s.take(k), seq![s[k]]);
    assert(seq![s[k]].drop_first() =~= Seq::<char>::empty());
    assert(encode_utf8(Seq::<char>::empty()) =~= Seq::<u8>::empty());
    assert(encode_utf8(seq![s[k]]) =~= encode_scalar(s[k] as u32));
    assert(s =~= s.take(k + 1) + s.skip(k + 1));
    lemma_encode_concat(s.take(k + 1), s.skip(k + 1));
}

/// The number of bytes `c` takes in UTF-8.
pub fn char_width(c: char) -> (r: usize)
    ensures
        r == encode_scalar(c as u32).len(),
        1 <= r <= 4,
{
    proof {
        vstd::utf8::char_is_scalar(c);
    }
    let v = c as u32;
    if v < 0x80 {
        1
    } else if v < 0x800 {
        2
    } else if v < 0x10000 {
        3
    } else {
        4
    }
}

/// The byte offset of every character boundary of `text`: entry `k` is the
/// offset of character `k`, and the last entry is the byte length.
pub fn byte_offsets(text: &str) -> (r: Vec<usize>)
    ensures
        r@.len() == text@.len() + 1,
        forall|k: int| 0 <= k <= text@.len() ==> #[trigger] r@[k] == byte_offset(text@, k),
{
    let total = text.as_bytes().len();
    let cs = chars_of(text);
    let mut r: Vec<usize> = Vec::new();
    let mut off: usize = 0;
    let mut k: usize = 0;
    proof {
        assert(text@.take(0) =~= Seq::<char>::empty());
        assert(encode_utf8(Seq::<char>::empty()) =~= Seq::<u8>::empty());
    }
    while k < cs.len()
        invariant
            cs@ == text@,
            total == encode_utf8(text@).len(),
            k <= cs@.len(),
            off == byte_offset(text@, k as int),
            r@.len() == k,
            forall|j: int| 0 <= j < k ==> #[trigger] r@[j] == byte_offset(text@, j),
        decreases cs@.len() - k,
    {
        r.push(off);
        proof {
            lemma_byte_offset_step(text@, k as int);
        }
        off = off + char_width(cs[k]);
        k = k + 1;
    }
    r.push(off);
    r
}

} // verus!
