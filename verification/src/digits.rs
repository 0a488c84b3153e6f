//! The worker computation: summing the ASCII digit values of one chunk.
//!
//! A worker owns exactly one chunk, parses each byte as a base-10 digit and
//! accumulates the digit values.  The first byte that is not a digit fails
//! the task immediately; a total that no longer fits fails it as an
//! abnormal abort.  Either failure is a returned value, never a panic.

use vstd::prelude::*;

use crate::errors::TaskFailure;

verus! {

/// b is the code of an ASCII decimal digit.
pub open spec fn is_digit(b: u8) -> bool {
    48 <= b <= 57
}

/// Numeric value of the digit byte b.
pub open spec fn digit_val(b: u8) -> int {
    b - 48
}

/// Every byte of s is an ASCII decimal digit.
pub open spec fn all_digits(s: Seq<u8>) -> bool {
    forall|i: int| 0 <= i < s.len() ==> is_digit(#[trigger] s[i])
}

/// The arithmetic sum of the digit values of s.
pub open spec fn digit_sum(s: Seq<u8>) -> int
    decreases s.len(),
{
    if s.len() == 0 {
        0
    } else {
        digit_sum(s.drop_last()) + digit_val(s.last())
    }
}

/// Length of the longest digit-only prefix of s: the index of the first
/// non-digit byte, or s.len() when every byte is a digit.
pub open spec fn digits_prefix_len(s: Seq<u8>) -> int
    decreases s.len(),
{
    if s.len() == 0 {
        0
    } else if !is_digit(s[0]) {
        0
    } else {
        1 + digits_prefix_len(s.drop_first())
    }
}

/// What a worker returns for a chunk: the digit sum when every byte is a
/// digit and the sum fits, otherwise the first non-digit byte, unless the
/// total of the digits before it already overflowed.
pub open spec fn worker_spec(c: Seq<u8>) -> Result<u64, TaskFailure> {
    let g = digits_prefix_len(c);
    if digit_sum(c.subrange(0, g)) > u64::MAX {
        Err(TaskFailure::Overflow)
    } else if g < c.len() {
        Err(TaskFailure::NonDigit { index: g as usize, byte: c[g] })
    } else {
        Ok(digit_sum(c) as u64)
    }
}

/// The digit-only prefix is well placed: it is a prefix of digits, it stops
/// at a non-digit (if it stops early), and it spans all of s exactly when
/// every byte is a digit.
pub proof fn lemma_digits_prefix_len_bounds(s: Seq<u8>)
    ensures
        0 <= digits_prefix_len(s) <= s.len(),
        all_digits(s.subrange(0, digits_prefix_len(s))),
        digits_prefix_len(s) < s.len() ==> !is_digit(s[digits_prefix_len(s)]),
        digits_prefix_len(s) == s.len() <==> all_digits(s),
    decreases s.len(),
{
    if s.len() == 0 {
        assert(s.subrange(0, 0) =~= Seq::<u8>::empty());
    } else if !is_digit(s[0]) {
        assert(s.subrange(0, 0) =~= Seq::<u8>::empty());
        assert(!all_digits(s));
    } else {
        let t = s.drop_first();
        lemma_digits_prefix_len_bounds(t);
        let g = digits_prefix_len(s);
        assert(g == 1 + digits_prefix_len(t));
        assert forall|i: int| 0 <= i < g implies is_digit(#[trigger] s.subrange(0, g)[i]) by {
            if i == 0 {
                assert(s.subrange(0, g)[0] == s[0]);
            } else {
                assert(s.subrange(0, g)[i] == t[i - 1]);
                assert(t[i - 1] == t.subrange(0, g - 1)[i - 1]);
                assert(all_digits(t.subrange(0, g - 1)));
            }
        }
        if g < s.len() {
            assert(s[g] == t[g - 1]);
            assert(!all_digits(s)) by {
                assert(!is_digit(s[g]));
            }
        } else {
            assert(all_digits(s)) by {
                assert(forall|i: int| 0 <= i < s.len() ==> s[i] == s.subrange(0, g)[i]);
            }
        }
    }
}

/// Any index that sits at the end of a digit-only prefix and (if interior)
/// points at a non-digit is the digit-only prefix length: it is unique.
pub proof fn lemma_digits_prefix_len_unique(s: Seq<u8>, k: int)
    requires
        0 <= k <= s.len(),
        all_digits(s.subrange(0, k)),
        k < s.len() ==> !is_digit(s[k]),
    ensures
        digits_prefix_len(s) == k,
    decreases s.len(),
{
    if s.len() == 0 {
    } else if k == 0 {
        assert(!is_digit(s[0]));
    } else {
        assert(is_digit(s[0])) by {
            assert(s.subrange(0, k)[0] == s[0]);
        }
        let t = s.drop_first();
        assert(t.subrange(0, k - 1) =~= s.subrange(0, k).drop_first());
        assert forall|i: int| 0 <= i < k - 1 implies is_digit(#[trigger] t.subrange(0, k - 1)[i]) by {
            assert(t.subrange(0, k - 1)[i] == s.subrange(0, k)[i + 1]);
        }
        if k - 1 < t.len() {
            assert(t[k - 1] == s[k]);
        }
        lemma_digits_prefix_len_unique(t, k - 1);
    }
}

/// The digit sum of a digit-only sequence lies between 0 and 9 per byte.
pub proof fn lemma_digit_sum_bounds(s: Seq<u8>)
    requires
        all_digits(s),
    ensures
        0 <= digit_sum(s) <= 9 * s.len(),
    decreases s.len(),
{
    if s.len() > 0 {
        let t = s.drop_last();
        assert(all_digits(t)) by {
            assert(forall|i: int| 0 <= i < t.len() ==> t[i] == s[i]);
        }
        lemma_digit_sum_bounds(t);
        assert(0 <= digit_val(s.last()) <= 9);
    }
}

/// Digit sums of digit-only prefixes grow with the prefix.
pub proof fn lemma_digit_sum_prefix_mono(s: Seq<u8>, i: int, j: int)
    requires
        0 <= i <= j <= s.len(),
        all_digits(s.subrange(0, j)),
    ensures
        digit_sum(s.subrange(0, i)) <= digit_sum(s.subrange(0, j)),
    decreases j - i,
{
    if i < j {
        assert(all_digits(s.subrange(0, j - 1))) by {
            assert(forall|k: int| 0 <= k < j - 1 ==> s.subrange(0, j - 1)[k] == s.subrange(0, j)[k]);
        }
        lemma_digit_sum_prefix_mono(s, i, j - 1);
        assert(s.subrange(0, j).drop_last() =~= s.subrange(0, j - 1));
        assert(is_digit(s[j - 1])) by {
            assert(s.subrange(0, j)[j - 1] == s[j - 1]);
        }
        assert(digit_sum(s.subrange(0, j)) == digit_sum(s.subrange(0, j - 1)) + digit_val(s[j - 1]));
    }
}

/// Digit sums add up over concatenation.
pub proof fn lemma_digit_sum_add(a: Seq<u8>, b: Seq<u8>)
    ensures
        digit_sum(a + b) == digit_sum(a) + digit_sum(b),
    decreases b.len(),
{
    if b.len() == 0 {
        assert(a + b =~= a);
    } else {
        lemma_digit_sum_add(a, b.drop_last());
        assert((a + b).drop_last() =~= a + b.drop_last());
        assert((a + b).last() == b.last());
    }
}

/// Sum the digit values of one chunk: the computation of a single worker
/// task.  Fails fast on the first byte that is not an ASCII decimal digit,
/// and aborts (with an error, not a panic) if the running total no longer
/// fits in the partial-result type.
pub fn sum_digits(chunk: &[u8]) -> (r: Result<u64, TaskFailure>)
    ensures
        r == worker_spec(chunk@),
{
    let n = chunk.len();
    let mut sum: u64 = 0;
    let mut i: usize = 0;
    while i < n
        invariant
            n == chunk@.len(),
            i <= n,
            all_digits(chunk@.subrange(0, i as int)),
            sum == digit_sum(chunk@.subrange(0, i as int)),
        decreases n - i,
    {
        let b = chunk[i];
        if b < 48 || b > 57 {
            proof {
                lemma_digits_prefix_len_unique(chunk@, i as int);
            }
            return Err(TaskFailure::NonDigit { index: i, byte: b });
        }
        let d = (b - 48) as u64;
        proof {
            assert(chunk@.subrange(0, i as int + 1).drop_last() =~= chunk@.subrange(0, i as int));
            assert(chunk@.subrange(0, i as int + 1).last() == chunk@[i as int]);
            assert(all_digits(chunk@.subrange(0, i as int + 1))) by {
                assert(forall|k: int| 0 <= k < i as int ==> chunk@.subrange(0, i as int + 1)[k]
                    == chunk@.subrange(0, i as int)[k]);
            }
        }
        if sum > u64::MAX - d {
            proof {
                let g = digits_prefix_len(chunk@);
                lemma_digits_prefix_len_bounds(chunk@);
                assert(all_digits(chunk@.subrange(0, g)));
                assert(g >= i as int + 1) by {
                    if g < i as int + 1 {
                        assert(is_digit(chunk@[g])) by {
                            assert(chunk@.subrange(0, i as int + 1)[g] == chunk@[g]);
                        }
                    }
                }
                lemma_digit_sum_prefix_mono(chunk@, i as int + 1, g);
                assert(digit_sum(chunk@.subrange(0, i as int + 1)) == sum + d);
            }
            return Err(TaskFailure::Overflow);
        }
        sum = sum + d;
        i = i + 1;
    }
    proof {
        assert(chunk@.subrange(0, n as int) =~= chunk@);
        lemma_digits_prefix_len_unique(chunk@, n as int);
    }
    Ok(sum)
}

/// For every digit-only chunk whose total fits the partial-result type, the
/// worker's partial result is exactly the arithmetic sum of the chunk's
/// digit values, whatever the chunk's length.
pub proof fn lemma_worker_sums_digits(c: Seq<u8>)
    requires
        all_digits(c),
        digit_sum(c) <= u64::MAX,
    ensures
        worker_spec(c) == Ok::<u64, TaskFailure>(digit_sum(c) as u64),
{
    lemma_digits_prefix_len_bounds(c);
    assert(c.subrange(0, c.len() as int) =~= c);
    lemma_digit_sum_bounds(c);
}

} // verus!
