//! Reading of count cells: an empty cell means "not reported" (absent), a
//! non-empty cell must be a non-negative decimal integer that fits in 64
//! bits. As with the standard unsigned integer reader, one leading `+` is
//! allowed and a whitespace-only cell is rejected.

use vstd::prelude::*;
use vstd::string::StrSliceExecFns;
use crate::timestamp::{is_digit, dv};

verus! {

/// The error of the count reader: non-empty text that is not a 64-bit
/// non-negative decimal integer.
#[derive(Clone, Copy, Debug, PartialEq, Eq, Structural)]
pub struct CountError;

/// The text is one or more decimal digits.
pub open spec fn digits_wf(s: Seq<char>) -> bool {
    s.len() > 0 && forall|i: int| 0 <= i < s.len() ==> is_digit(#[trigger] s[i])
}

/// The number that a digit text denotes, most significant digit first.
pub open spec fn digits_val(s: Seq<char>) -> int
    decreases s.len(),
{
    if s.len() == 0 {
        0
    } else {
        10 * digits_val(s.drop_last()) + dv(s.last())
    }
}

/// The digit part of a count cell: everything after one leading `+`, if
/// there is one, else the whole cell.
pub open spec fn count_digits(s: Seq<char>) -> Seq<char> {
    if s.len() > 0 && s[0] == '+' {
        s.skip(1)
    } else {
        s
    }
}

/// A non-empty count cell is well-formed when its digit part is one or more
/// decimal digits and the denoted value fits in 64 bits.
pub open spec fn count_text_wf(s: Seq<char>) -> bool {
    digits_wf(count_digits(s)) && digits_val(count_digits(s)) <= u64::MAX
}

/// What reading a count cell returns on every input: absent for the empty
/// cell, the denoted value for a well-formed cell, an error otherwise.
pub open spec fn spec_parse_count(s: Seq<char>) -> Result<Option<u64>, CountError> {
    if s.len() == 0 {
        Ok(None)
    } else if count_text_wf(s) {
        Ok(Some(digits_val(count_digits(s)) as u64))
    } else {
        Err(CountError)
    }
}

/// A digit text denotes a non-negative number.
proof fn lemma_digits_val_nonneg(s: Seq<char>)
    requires
        forall|i: int| 0 <= i < s.len() ==> is_digit(#[trigger] s[i]),
    ensures
        digits_val(s) >= 0,
    decreases s.len(),
{
    if s.len() > 0 {
        lemma_digits_val_nonneg(s.drop_last());
    }
}

/// Taking one more digit never shrinks the denoted number.
proof fn lemma_digits_val_take_step(s: Seq<char>, k: int)
    requires
        forall|i: int| 0 <= i < s.len() ==> is_digit(#[trigger] s[i]),
        0 <= k < s.len(),
    ensures
        digits_val(s.take(k + 1)) == 10 * digits_val(s.take(k)) + dv(s[k]),
        digits_val(s.take(k)) <= digits_val(s.take(k + 1)),
{
    assert(s.take(k + 1).drop_last() =~= s.take(k));
    assert(s.take(k + 1).last() == s[k]);
    lemma_digits_val_nonneg(s.take(k));
}

/// A prefix of a digit text never denotes more than the whole.
proof fn lemma_digits_val_take_le(s: Seq<char>, k: int)
    requires
        forall|i: int| 0 <= i < s.len() ==> is_digit(#[trigger] s[i]),
        0 <= k <= s.len(),
    ensures
        digits_val(s.take(k)) <= digits_val(s),
    decreases s.len() - k,
{
    if k == s.len() {
        assert(s.take(k) =~= s);
    } else {
        lemma_digits_val_take_step(s, k);
        lemma_digits_val_take_le(s, k + 1);
    }
}

/// Reads a count cell. Empty means absent (never zero); otherwise the cell
/// must be a decimal integer, with one leading `+` allowed; the value must
/// fit in 64 bits.
pub fn parse_count(s: &str) -> (r: Result<Option<u64>, CountError>)
    ensures
        r == spec_parse_count(s@),
        s@.len() == 0 ==> r == Ok::<Option<u64>, CountError>(None),
        count_text_wf(s@) ==> r == Ok::<Option<u64>, CountError>(
            Some(digits_val(count_digits(s@)) as u64),
        ),
{
    let n = s.unicode_len();
    if n == 0 {
        return Ok(None);
    }
    let start: usize = if s.get_char(0) == '+' {
        1
    } else {
        0
    };
    let ghost ds = count_digits(s@);
    assert(ds =~= s@.skip(start as int));
    if n == start {
        return Err(CountError);
    }
    let mut acc: u64 = 0;
    let mut i: usize = start;
    while i < n
        invariant
            start <= i <= n,
            n == s@.len(),
            0 < n <= usize::MAX,
            start == 0 || start == 1,
            ds == s@.skip(start as int),
            ds == count_digits(s@),
            ds.len() == n - start,
            forall|j: int| 0 <= j < i - start ==> is_digit(#[trigger] ds[j]),
            acc == digits_val(ds.take(i - start)),
        decreases n - i,
    {
        let c = s.get_char(i);
        if !('0' <= c && c <= '9') {
            assert(!is_digit(ds[i - start]));
            return Err(CountError);
        }
        let d = (c as u32 - 48) as u64;
        assert(ds.take(i - start + 1).drop_last() =~= ds.take(i - start));
        assert(ds.take(i - start + 1).last() == ds[i - start]);
        assert(digits_val(ds.take(i - start + 1)) == 10 * acc + dv(ds[i - start]));
        assert(0 <= dv(ds[i - start]) <= 9);
        let shifted = match acc.checked_mul(10) {
            Some(x) => x,
            None => {
                proof {
                    overflow_means_not_wf(s@, ds, i - start);
                }
                return Err(CountError);
            },
        };
        acc = match shifted.checked_add(d) {
            Some(x) => x,
            None => {
                proof {
                    overflow_means_not_wf(s@, ds, i - start);
                }
                return Err(CountError);
            },
        };
        i = i + 1;
    }
    assert(ds.take(n - start) =~= ds);
    Ok(Some(acc))
}

/// If the value of the digits read so far already exceeds 64 bits with the
/// next digit, the whole cell cannot be well-formed.
proof fn overflow_means_not_wf(s: Seq<char>, ds: Seq<char>, k: int)
    requires
        ds == count_digits(s),
        0 <= k < ds.len(),
        is_digit(ds[k]),
        forall|j: int| 0 <= j < k ==> is_digit(#[trigger] ds[j]),
        digits_val(ds.take(k + 1)) > u64::MAX,
    ensures
        !count_text_wf(s),
{
    if count_text_wf(s) {
        lemma_digits_val_take_le(ds, k + 1);
    }
}

} // verus!
