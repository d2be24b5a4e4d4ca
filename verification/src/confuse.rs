//! The byte mixer: a fixed rearrangement of a key buffer that stands in for
//! fresh entropy, so that a byte stream can be replayed from its first state.

use vstd::prelude::*;
use crate::error::PassportError;

verus! {

/// The index that follows `i` in a ring of `n` positions.
pub open spec fn ring_next(n: int, i: int) -> int {
    if i + 1 < n {
        i + 1
    } else {
        0
    }
}

/// `buf[i]` plus its ring successor plus one, reduced to a byte.
pub open spec fn neighbour_sum(buf: Seq<u8>, i: int) -> u8
    recommends
        0 <= i < buf.len(),
{
    ((buf[i] + buf[ring_next(buf.len() as int, i)] + 1) % 256) as u8
}

/// What the default mixer makes of `buf`.
///
/// With `last` the highest index: every even position below `last` takes the
/// neighbour sum of the mirrored position `last - j`, every odd position takes
/// the old byte to its left, and an even `last` keeps its byte. A buffer of
/// fewer than two bytes is left as it is.
#[verifier::opaque]
pub open spec fn default_mixed(buf: Seq<u8>) -> Seq<u8> {
    Seq::new(
        buf.len(),
        |j: int|
            {
                let last = buf.len() - 1;
                if j % 2 == 1 {
                    buf[j - 1]
                } else if j < last {
                    neighbour_sum(buf, last - j)
                } else {
                    buf[j]
                }
            },
    )
}

/// A mixing strategy: one way of stirring a key buffer in place.
pub trait ConfuseRule: Send + Sync {
    /// The buffer that this rule makes of `buf`.
    spec fn mixed(&self, buf: Seq<u8>) -> Seq<u8>;

    /// Stirs `buf` in place. A buffer of fewer than two bytes is refused and
    /// left untouched; the length never changes.
    fn confuse(&self, buf: &mut Vec<u8>) -> (r: Result<(), PassportError>)
        ensures
            final(buf)@.len() == old(buf)@.len(),
            old(buf)@.len() >= 2 ==> r is Ok && final(buf)@ == self.mixed(old(buf)@),
            old(buf)@.len() < 2 ==> r == Err::<(), PassportError>(PassportError::InvalidKeyLength)
                && final(buf)@ == old(buf)@,
    ;
}

/// The default mixer.
#[derive(Debug, Clone, Copy)]
pub struct ConfuseRuleDefault;

impl ConfuseRule for ConfuseRuleDefault {
    open spec fn mixed(&self, buf: Seq<u8>) -> Seq<u8> {
        default_mixed(buf)
    }

    fn confuse(&self, buf: &mut Vec<u8>) -> (r: Result<(), PassportError>) {
        if buf.len() < 2 {
            return Err(PassportError::InvalidKeyLength);
        }
        let ghost before = buf@;
        let n: usize = buf.len();
        let last: usize = n - 1;
        let mut list: Vec<u8> = Vec::new();
        let mut i: usize = 0;
        while i < n
            invariant
                n == buf@.len(),
                last == n - 1,
                n >= 2,
                i <= n,
                buf@ == before,
                list@.len() == i,
                forall|k: int| 0 <= k < i ==> list@[k] == neighbour_sum(before, k),
            decreases n - i,
        {
            let next: u8 = if i < last {
                buf[i + 1]
            } else {
                buf[0]
            };
            let number: u16 = (buf[i] as u16 + next as u16 + 1) % 256;
            list.push(number as u8);
            i += 1;
        }
        let mut i: usize = 0;
        while i < last
            invariant
                n == buf@.len(),
                n == before.len(),
                last == n - 1,
                n >= 2,
                i % 2 == 0,
                i <= last + 1,
                list@.len() == n,
                forall|k: int| 0 <= k < n ==> list@[k] == neighbour_sum(before, k),
                forall|j: int| 0 <= j < i ==> buf@[j] == default_mixed(before)[j],
                forall|j: int| i <= j < n ==> buf@[j] == before[j],
            decreases last + 1 - i,
        {
            proof {
                lemma_mixed_at(before, i as int);
                lemma_mixed_at(before, i + 1);
            }
            let left: u8 = buf[i];
            buf[i + 1] = left;
            buf[i] = list[last - i];
            i += 2;
        }
        proof {
            lemma_mixed_at(before, last as int);
        }
        assert(buf@ =~= default_mixed(before));
        Ok(())
    }
}

/// The default mixer keeps the length of the buffer.
pub proof fn lemma_mixed_len(buf: Seq<u8>)
    ensures
        default_mixed(buf).len() == buf.len(),
{
    reveal(default_mixed);
}

/// Whether the pair at the even position `j` already holds what one mixing
/// step would write there: the right byte equals the left one, and the left
/// one equals the neighbour sum of the mirrored position.
pub open spec fn settled_at(buf: Seq<u8>, j: int) -> bool {
    buf[j + 1] == buf[j] && buf[j] == neighbour_sum(buf, buf.len() - 1 - j)
}

/// One position of the mixed buffer, spelled out.
pub proof fn lemma_mixed_at(buf: Seq<u8>, j: int)
    requires
        0 <= j < buf.len(),
    ensures
        default_mixed(buf).len() == buf.len(),
        j % 2 == 1 ==> default_mixed(buf)[j] == buf[j - 1],
        j % 2 == 0 && j < buf.len() - 1 ==> default_mixed(buf)[j] == neighbour_sum(
            buf,
            buf.len() - 1 - j,
        ),
        j % 2 == 0 && j == buf.len() - 1 ==> default_mixed(buf)[j] == buf[j],
{
    reveal(default_mixed);
}

/// The default mixer leaves a buffer of two bytes or more as it is exactly
/// when every even position below the last is settled. Every other such
/// buffer is changed by one mixing step.
pub proof fn lemma_mixed_fixed_points(buf: Seq<u8>)
    requires
        buf.len() >= 2,
    ensures
        default_mixed(buf) == buf <==> (forall|j: int|
            0 <= j < buf.len() - 1 && j % 2 == 0 ==> #[trigger] settled_at(buf, j)),
{
    let last = buf.len() - 1;
    let mixed = default_mixed(buf);
    if mixed == buf {
        assert forall|j: int| 0 <= j < last && j % 2 == 0 implies #[trigger] settled_at(buf, j) by {
            lemma_mixed_at(buf, j);
            lemma_mixed_at(buf, j + 1);
        }
    }
    if forall|j: int| 0 <= j < last && j % 2 == 0 ==> #[trigger] settled_at(buf, j) {
        assert forall|j: int| 0 <= j < buf.len() implies mixed[j] == buf[j] by {
            lemma_mixed_at(buf, j);
            if j % 2 == 1 {
                assert(settled_at(buf, j - 1));
            } else if j < last {
                assert(settled_at(buf, j));
            }
        }
        lemma_mixed_len(buf);
        assert(mixed =~= buf);
    }
}

/// A buffer in which some even position below the last differs from its right
/// neighbour is never a fixed point of the default mixer.
pub proof fn lemma_mixed_moves(buf: Seq<u8>, j: int)
    requires
        buf.len() >= 2,
        0 <= j < buf.len() - 1,
        j % 2 == 0,
        buf[j + 1] != buf[j],
    ensures
        default_mixed(buf) != buf,
{
    lemma_mixed_at(buf, j + 1);
}

} // verus!
