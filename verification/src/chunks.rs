//! The map step: partitioning the input into independent chunks.
//!
//! The input is one byte string segmented on ASCII whitespace; each
//! resulting chunk is an owned byte vector handed to exactly one worker,
//! so no chunk is ever shared between tasks.

use vstd::prelude::*;

verus! {

/// b is an ASCII whitespace byte: space, horizontal tab, line feed, form
/// feed or carriage return.
pub open spec fn is_space(b: u8) -> bool {
    b == 32 || b == 9 || b == 10 || b == 12 || b == 13
}

/// Runtime test for is_space.
pub fn byte_is_space(b: u8) -> (r: bool)
    ensures
        r == is_space(b),
{
    b == 32 || b == 9 || b == 10 || b == 12 || b == 13
}

/// Index of the first whitespace byte at or after i, or s.len() when the
/// rest of s holds none.
pub open spec fn token_end(s: Seq<u8>, i: int) -> int
    decreases s.len() - i
        when 0 <= i <= s.len()
{
    if i >= s.len() || is_space(s[i]) {
        i
    } else {
        token_end(s, i + 1)
    }
}

/// token_end scans forward to the next whitespace byte and no further.
pub proof fn lemma_token_end(s: Seq<u8>, i: int)
    requires
        0 <= i <= s.len(),
    ensures
        i <= token_end(s, i) <= s.len(),
        forall|k: int| i <= k < token_end(s, i) ==> !is_space(#[trigger] s[k]),
        token_end(s, i) < s.len() ==> is_space(s[token_end(s, i)]),
        i < s.len() && !is_space(s[i]) ==> token_end(s, i) > i,
    decreases s.len() - i,
{
    if i < s.len() && !is_space(s[i]) {
        lemma_token_end(s, i + 1);
    }
}

/// Any index that closes a whitespace-free run starting at i and (if
/// interior) points at whitespace is token_end(s, i): it is unique.
pub proof fn lemma_token_end_unique(s: Seq<u8>, i: int, j: int)
    requires
        0 <= i <= j <= s.len(),
        forall|k: int| i <= k < j ==> !is_space(#[trigger] s[k]),
        j < s.len() ==> is_space(s[j]),
    ensures
        token_end(s, i) == j,
    decreases j - i,
{
    if i == j {
    } else {
        lemma_token_end_unique(s, i + 1, j);
    }
}

/// The whitespace-separated tokens of s from position i on, in order.
pub open spec fn chunks_from(s: Seq<u8>, i: int) -> Seq<Seq<u8>>
    decreases s.len() - i
        when 0 <= i <= s.len()
{
    if i >= s.len() {
        Seq::empty()
    } else if is_space(s[i]) {
        chunks_from(s, i + 1)
    } else {
        {
            proof {
                lemma_token_end(s, i);
            }
            seq![s.subrange(i, token_end(s, i))] + chunks_from(s, token_end(s, i))
        }
    }
}

/// The whitespace-separated tokens of s, in order: what the input is
/// partitioned into before the fan-out.
pub open spec fn chunks_of(s: Seq<u8>) -> Seq<Seq<u8>> {
    chunks_from(s, 0)
}

/// The input with every whitespace byte removed: exactly the bytes that
/// the chunks carry between them, in order.
pub open spec fn strip_spaces(s: Seq<u8>) -> Seq<u8>
    decreases s.len(),
{
    if s.len() == 0 {
        Seq::empty()
    } else if is_space(s.last()) {
        strip_spaces(s.drop_last())
    } else {
        strip_spaces(s.drop_last()).push(s.last())
    }
}

/// Stripping distributes over concatenation.
pub proof fn lemma_strip_add(a: Seq<u8>, b: Seq<u8>)
    ensures
        strip_spaces(a + b) == strip_spaces(a) + strip_spaces(b),
    decreases b.len(),
{
    if b.len() == 0 {
        assert(a + b =~= a);
        assert(strip_spaces(a) + strip_spaces(b) =~= strip_spaces(a));
    } else {
        lemma_strip_add(a, b.drop_last());
        assert((a + b).drop_last() =~= a + b.drop_last());
        assert((a + b).last() == b.last());
        if !is_space(b.last()) {
            assert((strip_spaces(a) + strip_spaces(b.drop_last())).push(b.last()) =~= strip_spaces(
                a,
            ) + strip_spaces(b.drop_last()).push(b.last()));
        }
    }
}

/// A whitespace-free sequence survives the strip unchanged.
pub proof fn lemma_strip_clean(s: Seq<u8>)
    requires
        forall|k: int| 0 <= k < s.len() ==> !is_space(#[trigger] s[k]),
    ensures
        strip_spaces(s) == s,
    decreases s.len(),
{
    if s.len() > 0 {
        lemma_strip_clean(s.drop_last());
        assert(s.drop_last().push(s.last()) =~= s);
    }
}

/// Split the input into its whitespace-separated chunks, each an owned
/// byte vector ready to be moved into one worker task.
pub fn split_chunks(data: &[u8]) -> (out: Vec<Vec<u8>>)
    ensures
        out.deep_view() == chunks_of(data@),
{
    let n = data.len();
    let mut out: Vec<Vec<u8>> = Vec::new();
    let mut i: usize = 0;
    proof {
        assert(out.deep_view() + chunks_from(data@, 0) =~~= chunks_of(data@));
    }
    while i < n
        invariant
            n == data@.len(),
            i <= n,
            chunks_of(data@) == out.deep_view() + chunks_from(data@, i as int),
        decreases n - i,
    {
        let b = data[i];
        if byte_is_space(b) {
            proof {
                assert(chunks_from(data@, i as int) == chunks_from(data@, i as int + 1));
            }
            i = i + 1;
        } else {
            let ghost start = i as int;
            let mut tok: Vec<u8> = Vec::new();
            while i < n && !byte_is_space(data[i])
                invariant
                    n == data@.len(),
                    0 <= start <= i as int <= n,
                    tok@ == data@.subrange(start, i as int),
                    forall|k: int| start <= k < i as int ==> !is_space(#[trigger] data@[k]),
                decreases n - i,
            {
                tok.push(data[i]);
                proof {
                    assert(data@.subrange(start, i as int + 1)
                        =~= data@.subrange(start, i as int).push(data@[i as int]));
                }
                i = i + 1;
            }
            proof {
                lemma_token_end_unique(data@, start, i as int);
                assert(chunks_from(data@, start)
                    == seq![data@.subrange(start, i as int)] + chunks_from(data@, i as int));
            }
            let ghost pre = out.deep_view();
            out.push(tok);
            proof {
                assert(out.deep_view() =~~= pre.push(tok@));
                assert(pre.push(tok@) + chunks_from(data@, i as int)
                    =~~= pre + (seq![tok@] + chunks_from(data@, i as int)));
            }
        }
    }
    proof {
        assert(out.deep_view() + chunks_from(data@, n as int) =~~= out.deep_view());
    }
    out
}

} // verus!
