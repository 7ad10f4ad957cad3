//! The decisions of the batch rename dialog around its live preview: the
//! counter start typed by the user, when Apply is allowed, the renames
//! Apply performs, and how failures are reported.

use vstd::prelude::*;
use crate::pane::FileEntry;
use crate::text::{chars_of, push_str};

verus! {

/// One row of the preview: a name before and after the pattern applies.
#[derive(Clone, Debug, PartialEq)]
pub struct RenamePreview {
    pub old_name: String,
    pub new_name: String,
}

/// The value of a run of decimal digits.
pub open spec fn digits_value(s: Seq<char>) -> nat
    decreases s.len(),
{
    if s.len() == 0 {
        0
    } else {
        digits_value(s.drop_last()) * 10 + ((s.last() as u32 - 48) as nat)
    }
}

/// Whether every character of `s` is an ASCII digit.
pub open spec fn all_digits(s: Seq<char>) -> bool {
    forall|i: int| 0 <= i < s.len() ==> '0' <= #[trigger] s[i] <= '9'
}

/// The digits of an unsigned integer literal: after an optional `+`.
pub open spec fn digit_part(s: Seq<char>) -> Seq<char> {
    if s.len() > 0 && s[0] == '+' {
        s.skip(1)
    } else {
        s
    }
}

/// What `u64::from_str` accepts: an optional `+` and one or more digits
/// whose value fits in a `u64`.
pub open spec fn u64_literal(s: Seq<char>) -> Option<nat> {
    let d = digit_part(s);
    if d.len() > 0 && all_digits(d) && digits_value(d) <= u64::MAX {
        Some(digits_value(d))
    } else {
        None
    }
}

proof fn lemma_digits_value_grows(s: Seq<char>, k: int)
    requires
        0 <= k <= s.len(),
        all_digits(s),
    ensures
        digits_value(s.take(k)) <= digits_value(s),
    decreases s.len() - k,
{
    if k < s.len() {
        lemma_digits_value_grows(s, k + 1);
        assert(s.take(k + 1).drop_last() =~= s.take(k));
        assert('0' <= s[k] <= '9');
    } else {
        assert(s.take(k) =~= s);
    }
}

/// Parses an unsigned integer as `u64::from_str` does.
pub fn parse_u64(text: &str) -> (r: Option<u64>)
    ensures
        match r {
            Some(n) => u64_literal(text@) == Some(n as nat),
            None => u64_literal(text@) is None,
        },
{
    let cs = chars_of(text);
    let start: usize = if cs.len() > 0 && cs[0] == '+' { 1 } else { 0 };
    let ghost d = digit_part(text@);
    proof {
        assert(d =~= cs@.skip(start as int));
    }
    if start >= cs.len() {
        return None;
    }
    let mut value: u64 = 0;
    let mut i: usize = start;
    while i < cs.len()
        invariant
            cs@ == text@,
            d == digit_part(text@),
            d == cs@.skip(start as int),
            start <= i <= cs@.len(),
            all_digits(d.take(i - start)),
            value == digits_value(d.take(i - start)),
        decreases cs@.len() - i,
    {
        let c = cs[i];
        let ghost k = i - start;
        proof {
            assert(d.take(k + 1).drop_last() =~= d.take(k));
            assert(d.take(k + 1).last() == c);
        }
        proof {
            assert(d[k as int] == cs@[i as int]);
        }
        if c < '0' || c > '9' {
            proof {
                assert(!all_digits(d)) by {
                    assert(d[k as int] == c);
                }
            }
            return None;
        }
        let digit: u64 = (c as u32 - 48) as u64;
        let next = match value.checked_mul(10) {
            Some(v) => v.checked_add(digit),
            None => None,
        };
        match next {
            Some(v) => {
                value = v;
            },
            None => {
                proof {
                    assert(digits_value(d.take(k + 1)) == value * 10 + digit);
                    assert(value * 10 + digit > u64::MAX);
                    if all_digits(d) {
                        lemma_digits_value_grows(d, k + 1);
                    }
                }
                return None;
            },
        }
        proof {
            assert forall|j: int| 0 <= j < k + 1 implies '0' <= #[trigger] d.take(k + 1)[j] <= '9' by {
                if j < k {
                    assert(d.take(k + 1)[j] == d.take(k)[j]);
                }
            }
        }
        i = i + 1;
    }
    proof {
        assert(d.take(cs@.len() - start) =~= d);
    }
    Some(value)
}

/// The counter start: 1 when the field is empty, otherwise the number it
/// holds, or an error message when it is not a number.
pub fn counter_start(text: &str) -> (r: Result<u64, String>)
    ensures
        text@.len() == 0 ==> r == Ok::<u64, String>(1),
        text@.len() > 0 ==> match u64_literal(text@) {
            Some(n) => r matches Ok(v) && v == n,
            None => r matches Err(e) && e@ == "Counter start must be a number"@,
        },
{
    if text.is_empty() {
        return Ok(1);
    }
    match parse_u64(text) {
        Some(n) => Ok(n),
        None => Err("Counter start must be a number".to_string()),
    }
}

/// Whether any preview row changes its name.
pub open spec fn any_change(preview: Seq<RenamePreview>) -> bool {
    exists|i: int| 0 <= i < preview.len() && #[trigger] preview[i].new_name@ != preview[i].old_name@
}

/// Whether Apply is allowed: a non-empty preview, no pattern or counter
/// error, and at least one row whose name changes.
pub fn can_apply(preview: &[RenamePreview], last_error: &Option<String>) -> (r: bool)
    ensures
        r == (preview@.len() > 0 && last_error is None && any_change(preview@)),
{
    if preview.len() == 0 || last_error.is_some() {
        return false;
    }
    let mut i: usize = 0;
    while i < preview.len()
        invariant
            i <= preview@.len(),
            preview@.len() > 0,
            last_error is None,
            forall|j: int| 0 <= j < i ==> #[trigger] preview@[j].new_name@ == preview@[j].old_name@,
        decreases preview@.len() - i,
    {
        if !(preview[i].new_name == preview[i].old_name) {
            proof {
                assert(preview@[i as int].new_name@ != preview@[i as int].old_name@);
            }
            return true;
        }
        i = i + 1;
    }
    false
}

/// The renames Apply performs, in preview order: each entry's path with
/// the new name of the preview row beside it (as many as both have).
pub fn apply_plan(entries: &[FileEntry], preview: &[RenamePreview]) -> (r: Vec<(String, String)>)
    ensures
        r@.len() == if entries@.len() <= preview@.len() {
            entries@.len()
        } else {
            preview@.len()
        },
        forall|i: int|
            #![trigger r@[i]]
            0 <= i < r@.len() ==> r@[i].0@ == entries@[i].path@ && r@[i].1@
                == preview@[i].new_name@,
{
    let n = if entries.len() <= preview.len() {
        entries.len()
    } else {
        preview.len()
    };
    let mut out: Vec<(String, String)> = Vec::new();
    let mut i: usize = 0;
    while i < n
        invariant
            n <= entries@.len(),
            n <= preview@.len(),
            i <= n,
            out@.len() == i,
            forall|j: int|
                #![trigger out@[j]]
                0 <= j < i ==> out@[j].0@ == entries@[j].path@ && out@[j].1@
                    == preview@[j].new_name@,
        decreases n - i,
    {
        out.push((entries[i].path.clone(), preview[i].new_name.clone()));
        proof {
            assert(out@[i as int].0@ == entries@[i as int].path@);
            assert(out@[i as int].1@ == preview@[i as int].new_name@);
        }
        i = i + 1;
    }
    out
}

/// The error recorded for one failed rename: `<old name>: <error>`.
pub fn rename_error(old_name: &str, error: &str) -> (r: String)
    ensures
        r@ == old_name@ + ": "@ + error@,
{
    let mut s = String::new();
    push_str(&mut s, old_name);
    push_str(&mut s, ": ");
    push_str(&mut s, error);
    proof {
        reveal_strlit(": ");
    }
    s
}

/// The errors of a batch joined with `, `.
pub open spec fn joined(errors: Seq<String>) -> Seq<char>
    decreases errors.len(),
{
    if errors.len() == 0 {
        Seq::empty()
    } else if errors.len() == 1 {
        errors[0]@
    } else {
        joined(errors.drop_last()) + ", "@ + errors.last()@
    }
}

/// The status after a batch rename: `Batch rename failed for <errors>`,
/// or `None` when every rename succeeded.
pub fn batch_failure_status(errors: &Vec<String>) -> (r: Option<String>)
    ensures
        errors@.len() == 0 ==> r is None,
        errors@.len() > 0 ==> (r matches Some(s) && s@ == "Batch rename failed for "@ + joined(
            errors@,
        )),
{
    if errors.len() == 0 {
        return None;
    }
    let mut s = String::new();
    push_str(&mut s, "Batch rename failed for ");
    let ghost head = s@;
    let mut i: usize = 0;
    while i < errors.len()
        invariant
            i <= errors@.len(),
            head == "Batch rename failed for "@,
            s@ == head + joined(errors@.take(i as int)),
        decreases errors@.len() - i,
    {
        if i > 0 {
            push_str(&mut s, ", ");
        }
        push_str(&mut s, errors[i].as_str());
        proof {
            reveal_strlit(", ");
            assert(errors@.take(i + 1).drop_last() =~= errors@.take(i as int));
            assert(errors@.take(i + 1).last() == errors@[i as int]);
            if i == 0 {
                assert(errors@.take(1)[0] == errors@[0]);
            }
        }
        i = i + 1;
    }
    proof {
        reveal_strlit("Batch rename failed for ");
        assert(errors@.take(errors@.len() as int) =~= errors@);
    }
    Some(s)
}

} // verus!
