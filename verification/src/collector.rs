//! The fan-in: joining every worker handle exactly once, in spawn order,
//! and reducing the collected partial results to one total.
//!
//! The collector holds the join outcomes in one ordered sequence and
//! drains it fully, so no handle is waited on twice or forgotten.  Join
//! order is the caller's spawn order and independent of completion order:
//! the reduction below depends only on the sequence of outcomes, never on
//! which worker finished first.  If any join reports a failure, the whole
//! reduction fails with the index of the earliest failed chunk; partial
//! totals from the other chunks are discarded.

use vstd::prelude::*;

use crate::chunks::chunks_from;
use crate::chunks::chunks_of;
use crate::chunks::is_space;
use crate::chunks::lemma_strip_add;
use crate::chunks::lemma_strip_clean;
use crate::chunks::lemma_token_end;
use crate::chunks::split_chunks;
use crate::chunks::strip_spaces;
use crate::chunks::token_end;
use crate::digits::all_digits;
use crate::digits::digit_sum;
use crate::digits::lemma_digit_sum_add;
use crate::digits::lemma_digit_sum_bounds;
use crate::digits::lemma_worker_sums_digits;
use crate::digits::sum_digits;
use crate::digits::worker_spec;
use crate::errors::AggregateError;
use crate::errors::TaskFailure;

verus! {

/// Index of the earliest failed join outcome, or rs.len() when every
/// worker succeeded.
pub open spec fn first_failure(rs: Seq<Result<u64, TaskFailure>>) -> int
    decreases rs.len(),
{
    if rs.len() == 0 {
        0
    } else if rs[0] is Err {
        0
    } else {
        1 + first_failure(rs.drop_first())
    }
}

/// The arithmetic total of the successful partial results in rs.
pub open spec fn total_of(rs: Seq<Result<u64, TaskFailure>>) -> int
    decreases rs.len(),
{
    if rs.len() == 0 {
        0
    } else if rs.last() is Ok {
        total_of(rs.drop_last()) + rs.last()->Ok_0
    } else {
        total_of(rs.drop_last())
    }
}

/// What the collector reduces a complete sequence of join outcomes to: the
/// grand total when every join succeeded and the total fits, otherwise the
/// earliest failure, or an overflow report when only the total failed.
pub open spec fn collect_spec(rs: Seq<Result<u64, TaskFailure>>) -> Result<u64, AggregateError> {
    let f = first_failure(rs);
    if f < rs.len() {
        Err(AggregateError::ChunkFailed { index: f as usize, cause: rs[f]->Err_0 })
    } else if total_of(rs) > u64::MAX {
        Err(AggregateError::TotalOverflow)
    } else {
        Ok(total_of(rs) as u64)
    }
}

/// Any index preceded only by successes and (if interior) holding a
/// failure is the earliest failure index: it is unique.
pub proof fn lemma_first_failure_unique(rs: Seq<Result<u64, TaskFailure>>, k: int)
    requires
        0 <= k <= rs.len(),
        forall|j: int| 0 <= j < k ==> rs[j] is Ok,
        k < rs.len() ==> rs[k] is Err,
    ensures
        first_failure(rs) == k,
    decreases rs.len(),
{
    if rs.len() == 0 {
    } else if k == 0 {
    } else {
        let t = rs.drop_first();
        assert forall|j: int| 0 <= j < k - 1 implies #[trigger] t[j] is Ok by {
            assert(t[j] == rs[j + 1]);
        }
        if k - 1 < t.len() {
            assert(t[k - 1] == rs[k]);
        }
        lemma_first_failure_unique(t, k - 1);
    }
}

/// Totals of prefixes grow with the prefix: every successful partial
/// result is nonnegative and failures contribute nothing.
pub proof fn lemma_total_prefix_mono(rs: Seq<Result<u64, TaskFailure>>, i: int, j: int)
    requires
        0 <= i <= j <= rs.len(),
    ensures
        total_of(rs.subrange(0, i)) <= total_of(rs.subrange(0, j)),
    decreases j - i,
{
    if i < j {
        lemma_total_prefix_mono(rs, i, j - 1);
        assert(rs.subrange(0, j).drop_last() =~= rs.subrange(0, j - 1));
    }
}

/// Reduce a complete sequence of join outcomes, one per spawned worker.
pub fn collect_partials(results: &Vec<Result<u64, TaskFailure>>) -> (r: Result<
    u64,
    AggregateError,
>)
    ensures
        r == collect_spec(results@),
{
    let n = results.len();
    let mut i: usize = 0;
    while i < n
        invariant
            n == results@.len(),
            i <= n,
            forall|j: int| 0 <= j < i as int ==> results@[j] is Ok,
        decreases n - i,
    {
        match results[i] {
            Ok(_) => {
                i = i + 1;
            },
            Err(cause) => {
                proof {
                    lemma_first_failure_unique(results@, i as int);
                }
                return Err(AggregateError::ChunkFailed { index: i, cause });
            },
        }
    }
    proof {
        lemma_first_failure_unique(results@, n as int);
    }
    let mut sum: u64 = 0;
    let mut i: usize = 0;
    while i < n
        invariant
            n == results@.len(),
            i <= n,
            forall|j: int| 0 <= j < n as int ==> results@[j] is Ok,
            sum == total_of(results@.subrange(0, i as int)),
        decreases n - i,
    {
        proof {
            assert(results@.subrange(0, i as int + 1).drop_last() =~= results@.subrange(0, i as int));
            assert(results@.subrange(0, i as int + 1).last() == results@[i as int]);
        }
        match results[i] {
            Ok(v) => {
                if sum > u64::MAX - v {
                    proof {
                        lemma_first_failure_unique(results@, n as int);
                        assert(total_of(results@.subrange(0, i as int + 1)) == sum + v);
                        lemma_total_prefix_mono(results@, i as int + 1, n as int);
                        assert(results@.subrange(0, n as int) =~= results@);
                    }
                    return Err(AggregateError::TotalOverflow);
                }
                sum = sum + v;
            },
            Err(_) => {
                proof {
                    assert(results@[i as int] is Ok);
                }
                unreached()
            },
        }
        i = i + 1;
    }
    proof {
        assert(results@.subrange(0, n as int) =~= results@);
    }
    Ok(sum)
}

/// Gathers the outcome of joining each worker handle, in spawn order, and
/// reduces the complete set to one total.  The collector is built for a
/// fixed number of handles; it records exactly one outcome per handle and
/// can only be finished once all of them are in, so no handle is joined
/// twice or left behind.
pub struct JoinCollector {
    expected: usize,
    outcomes: Vec<Result<u64, TaskFailure>>,
}

impl JoinCollector {
    /// How many worker handles this collector will drain.
    pub closed spec fn spec_expected(&self) -> int {
        self.expected as int
    }

    /// The join outcomes recorded so far, in spawn order.
    pub closed spec fn spec_outcomes(&self) -> Seq<Result<u64, TaskFailure>> {
        self.outcomes@
    }

    /// No more outcomes are recorded than handles were announced.
    pub open spec fn wf(&self) -> bool {
        self.spec_outcomes().len() <= self.spec_expected()
    }

    /// A collector for a fan-out of `expected` workers.
    pub fn new(expected: usize) -> (c: JoinCollector)
        ensures
            c.wf(),
            c.spec_expected() == expected,
            c.spec_outcomes() == Seq::<Result<u64, TaskFailure>>::empty(),
    {
        JoinCollector { expected, outcomes: Vec::new() }
    }

    /// How many handles still have to be joined.
    pub fn remaining(&self) -> (n: usize)
        requires
            self.wf(),
        ensures
            n == self.spec_expected() - self.spec_outcomes().len(),
    {
        self.expected - self.outcomes.len()
    }

    /// Record the outcome of joining the next handle in spawn order.
    pub fn record_join(&mut self, outcome: Result<u64, TaskFailure>)
        requires
            old(self).wf(),
            old(self).spec_outcomes().len() < old(self).spec_expected(),
        ensures
            final(self).wf(),
            final(self).spec_expected() == old(self).spec_expected(),
            final(self).spec_outcomes() == old(self).spec_outcomes().push(outcome),
    {
        self.outcomes.push(outcome);
    }

    /// Reduce the collected outcomes; callable only once every announced
    /// handle has been joined, so the result accounts for all of them.
    pub fn finish(self) -> (r: Result<u64, AggregateError>)
        requires
            self.wf(),
            self.spec_outcomes().len() == self.spec_expected(),
        ensures
            r == collect_spec(self.spec_outcomes()),
    {
        collect_partials(&self.outcomes)
    }
}

/// Joining a fixed sequence of K worker handles accounts for every one of
/// them: the reduction succeeds exactly when all K joins succeeded and
/// their grand total fits, and the total then sums all K partial results;
/// any failure fails the aggregation with the earliest failed index.
/// Nothing here depends on completion order, only on the join sequence.
pub proof fn lemma_collector_accounts_for_all(rs: Seq<Result<u64, TaskFailure>>, k: int)
    requires
        rs.len() == k,
    ensures
        collect_spec(rs) is Ok <==> (forall|j: int| 0 <= j < k ==> rs[j] is Ok) && total_of(rs)
            <= u64::MAX,
        collect_spec(rs) is Ok ==> collect_spec(rs)->Ok_0 == total_of(rs),
        collect_spec(rs) is Err <==> (exists|j: int| 0 <= j < k && rs[j] is Err) || total_of(rs)
            > u64::MAX,
{
    lemma_first_failure_bounds(rs);
    let f = first_failure(rs);
    if f < rs.len() {
        assert(rs[f] is Err);
    } else {
        lemma_total_prefix_mono(rs, 0, k);
        assert(rs.subrange(0, 0) =~= Seq::<Result<u64, TaskFailure>>::empty());
        assert(rs.subrange(0, k) =~= rs);
    }
}

/// The earliest-failure index is well placed: everything before it
/// succeeded, and it points at a failure when it is interior.
pub proof fn lemma_first_failure_bounds(rs: Seq<Result<u64, TaskFailure>>)
    ensures
        0 <= first_failure(rs) <= rs.len(),
        forall|j: int| 0 <= j < first_failure(rs) ==> rs[j] is Ok,
        first_failure(rs) < rs.len() ==> rs[first_failure(rs)] is Err,
    decreases rs.len(),
{
    if rs.len() == 0 {
    } else if rs[0] is Err {
    } else {
        let t = rs.drop_first();
        lemma_first_failure_bounds(t);
        assert forall|j: int| 0 <= j < first_failure(rs) implies #[trigger] rs[j] is Ok by {
            if j > 0 {
                assert(t[j - 1] == rs[j]);
            }
        }
        if first_failure(rs) < rs.len() {
            assert(t[first_failure(rs) - 1] == rs[first_failure(rs)]);
        }
    }
}

/// Totals of join outcomes add up over concatenation.
pub proof fn lemma_total_of_add(a: Seq<Result<u64, TaskFailure>>, b: Seq<Result<u64, TaskFailure>>)
    ensures
        total_of(a + b) == total_of(a) + total_of(b),
    decreases b.len(),
{
    if b.len() == 0 {
        assert(a + b =~= a);
    } else {
        lemma_total_of_add(a, b.drop_last());
        assert((a + b).drop_last() =~= a + b.drop_last());
        assert((a + b).last() == b.last());
    }
}

/// The complete reduction from raw input to final scalar: partition the
/// input into chunks, run the worker computation on every chunk, and
/// reduce the partial results.  A host that instead fans the chunks out to
/// parallel workers and joins them in spawn order feeds the same outcome
/// sequence to the same reduction, so this contract is what it gets too.
pub open spec fn reduction_spec(s: Seq<u8>) -> Result<u64, AggregateError> {
    collect_spec(chunks_of(s).map_values(|c: Seq<u8>| worker_spec(c)))
}

/// Partition the input on whitespace, sum the digits of every chunk, and
/// total the partial sums.
pub fn sum_chunked(data: &[u8]) -> (r: Result<u64, AggregateError>)
    ensures
        r == reduction_spec(data@),
{
    let chunks = split_chunks(data);
    let n = chunks.len();
    let ghost model = chunks_of(data@).map_values(|c: Seq<u8>| worker_spec(c));
    let mut collector = JoinCollector::new(n);
    let mut i: usize = 0;
    proof {
        assert(model.len() == n as int);
    }
    while i < n
        invariant
            n == chunks@.len(),
            i <= n,
            chunks.deep_view() == chunks_of(data@),
            model == chunks_of(data@).map_values(|c: Seq<u8>| worker_spec(c)),
            model.len() == n as int,
            collector.wf(),
            collector.spec_expected() == n as int,
            collector.spec_outcomes() == model.subrange(0, i as int),
        decreases n - i,
    {
        let outcome = sum_digits(chunks[i].as_slice());
        proof {
            assert(chunks.deep_view()[i as int] == chunks@[i as int]@);
            assert(model[i as int] == worker_spec(chunks@[i as int]@));
            assert(model.subrange(0, i as int + 1) =~= model.subrange(0, i as int).push(
                model[i as int],
            ));
        }
        collector.record_join(outcome);
        i = i + 1;
    }
    proof {
        assert(model.subrange(0, n as int) =~= model);
    }
    collector.finish()
}

/// From any scan position: when every remaining non-whitespace byte is a
/// digit and their sum fits, every worker on the remaining chunks succeeds
/// and the partial results total the digit sum of the stripped suffix —
/// the chunks partition exactly the non-whitespace bytes.
proof fn lemma_chunks_account_for_suffix(s: Seq<u8>, i: int)
    requires
        0 <= i <= s.len(),
        all_digits(strip_spaces(s.subrange(i, s.len() as int))),
        digit_sum(strip_spaces(s.subrange(i, s.len() as int))) <= u64::MAX,
    ensures
        ({
            let cs = chunks_from(s, i).map_values(|c: Seq<u8>| worker_spec(c));
            first_failure(cs) == cs.len() && total_of(cs) == digit_sum(
                strip_spaces(s.subrange(i, s.len() as int)),
            )
        }),
    decreases s.len() - i,
{
    let len = s.len() as int;
    let suffix = s.subrange(i, len);
    let w = |c: Seq<u8>| worker_spec(c);
    let cs = chunks_from(s, i).map_values(w);
    if i == len {
        assert(suffix =~= Seq::<u8>::empty());
        assert(cs =~= Seq::<Result<u64, TaskFailure>>::empty());
    } else if is_space(s[i]) {
        assert(suffix =~= seq![s[i]] + s.subrange(i + 1, len));
        lemma_strip_add(seq![s[i]], s.subrange(i + 1, len));
        assert(strip_spaces(Seq::<u8>::empty()) =~= Seq::<u8>::empty());
        assert(strip_spaces(seq![s[i]]) =~= Seq::<u8>::empty()) by {
            assert(seq![s[i]].drop_last() =~= Seq::<u8>::empty());
            assert(seq![s[i]].last() == s[i]);
        }
        assert(strip_spaces(suffix) =~= strip_spaces(s.subrange(i + 1, len)));
        lemma_chunks_account_for_suffix(s, i + 1);
        assert(chunks_from(s, i) == chunks_from(s, i + 1));
    } else {
        lemma_token_end(s, i);
        let e = token_end(s, i);
        let tok = s.subrange(i, e);
        let rest = s.subrange(e, len);
        assert(suffix =~= tok + rest);
        lemma_strip_add(tok, rest);
        assert forall|k: int| 0 <= k < tok.len() implies !is_space(#[trigger] tok[k]) by {
            assert(tok[k] == s[i + k]);
        }
        lemma_strip_clean(tok);
        assert(strip_spaces(suffix) == tok + strip_spaces(rest));
        assert(all_digits(tok)) by {
            assert(forall|k: int| 0 <= k < tok.len() ==> tok[k] == strip_spaces(suffix)[k]);
        }
        assert(all_digits(strip_spaces(rest))) by {
            assert(forall|k: int|
                0 <= k < strip_spaces(rest).len() ==> strip_spaces(rest)[k] == strip_spaces(
                    suffix,
                )[tok.len() + k]);
        }
        lemma_digit_sum_add(tok, strip_spaces(rest));
        lemma_digit_sum_bounds(tok);
        lemma_digit_sum_bounds(strip_spaces(rest));
        lemma_chunks_account_for_suffix(s, e);
        let cs_rest = chunks_from(s, e).map_values(w);
        lemma_worker_sums_digits(tok);
        assert(chunks_from(s, i) == seq![tok] + chunks_from(s, e));
        assert(cs =~= seq![worker_spec(tok)] + cs_rest);
        lemma_first_failure_bounds(cs_rest);
        lemma_first_failure_unique(cs, cs.len() as int);
        lemma_total_of_add(seq![worker_spec(tok)], cs_rest);
        assert(total_of(Seq::<Result<u64, TaskFailure>>::empty()) == 0);
        assert(total_of(seq![worker_spec(tok)]) == digit_sum(tok)) by {
            assert(seq![worker_spec(tok)].drop_last() =~= Seq::<Result<u64, TaskFailure>>::empty());
            assert(seq![worker_spec(tok)].last() == worker_spec(tok));
        }
    }
}

/// End to end: when every non-whitespace byte of the input is a decimal
/// digit and their sum fits the result type, the whole map step and fan-in
/// reduction succeeds, and the total is exactly the arithmetic sum of
/// every digit value in the input — however whitespace chunked it.
pub proof fn lemma_reduction_sums_every_digit(s: Seq<u8>)
    requires
        all_digits(strip_spaces(s)),
        digit_sum(strip_spaces(s)) <= u64::MAX,
    ensures
        reduction_spec(s) == Ok::<u64, AggregateError>(digit_sum(strip_spaces(s)) as u64),
{
    assert(s.subrange(0, s.len() as int) =~= s);
    lemma_chunks_account_for_suffix(s, 0);
    let cs = chunks_of(s).map_values(|c: Seq<u8>| worker_spec(c));
    lemma_digit_sum_bounds(strip_spaces(s));
    assert(first_failure(cs) == cs.len());
}

} // verus!
