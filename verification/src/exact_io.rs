//! Progress through a buffer that must be read or written whole, a chunk at
//! a time.

use vstd::prelude::*;

verus! {

/// What happened to a transfer after one chunk.
#[derive(Debug, Clone, Copy, PartialEq, Eq, Structural)]
pub enum Transfer {
    /// Some of the buffer is still to go.
    Partial,
    /// The whole buffer has been transferred.
    Complete,
    /// The chunk was empty while bytes were still due: the other side
    /// stopped (an early end of file when reading, a zero-length write when
    /// writing).
    Stalled,
}

/// One chunk of `n` bytes recorded when `done` of `len` bytes have been
/// transferred: the bytes transferred afterwards, and what happened.
pub open spec fn advance_step(done: nat, len: nat, n: nat) -> (nat, Transfer) {
    (
        done + n,
        if n == 0 {
            Transfer::Stalled
        } else if done + n == len {
            Transfer::Complete
        } else {
            Transfer::Partial
        },
    )
}

/// Where chunk `j` of a transfer with chunk sizes `ns` starts: the bytes
/// the chunks before it moved.  It is the position a transfer reports
/// before the chunk, and so the offset from which the chunk is read or
/// written.
pub open spec fn chunk_start(ns: Seq<nat>, j: int) -> nat
    decreases j,
{
    if j <= 0 {
        0
    } else {
        chunk_start(ns, j - 1) + ns[j - 1]
    }
}

/// Whether chunk sizes `ns` are what a transfer of `len` bytes can record
/// in turn: none empty (an empty chunk stalls the transfer), and each
/// recorded while bytes are due and no larger than what is left.
pub open spec fn valid_chunks(len: nat, ns: Seq<nat>) -> bool {
    forall|j: int|
        0 <= j < ns.len() ==> #[trigger] ns[j] > 0 && chunk_start(ns, j) < len && chunk_start(ns, j)
            + ns[j] <= len
}

/// Whether byte `p` of the buffer lies in one of the chunks `ns`.
pub open spec fn covered(ns: Seq<nat>, p: int) -> bool {
    exists|j: int| 0 <= j < ns.len() && #[trigger] chunk_start(ns, j) <= p < chunk_start(ns, j) + ns[j]
}

proof fn lemma_chunk_start_grows(ns: Seq<nat>, i: int, j: int)
    requires
        0 <= i < j <= ns.len(),
    ensures
        chunk_start(ns, i) + ns[i] <= chunk_start(ns, j),
    decreases j - i,
{
    if j - 1 > i {
        lemma_chunk_start_grows(ns, i, j - 1);
    }
}

proof fn lemma_chunks_cover_prefix(ns: Seq<nat>, k: int, p: int)
    requires
        0 <= k <= ns.len(),
        0 <= p < chunk_start(ns, k),
    ensures
        exists|j: int| 0 <= j < k && #[trigger] chunk_start(ns, j) <= p < chunk_start(ns, j) + ns[j],
    decreases k,
{
    if p >= chunk_start(ns, k - 1) {
        assert(chunk_start(ns, k - 1) <= p < chunk_start(ns, k - 1) + ns[k - 1]);
    } else {
        lemma_chunks_cover_prefix(ns, k - 1, p);
    }
}

/// A transfer moves the buffer whole and in order.  For chunk sizes a
/// transfer can record in turn: each chunk starts where the one before
/// ended, so the chunks follow one another without overlap; each but the
/// last leaves the transfer partial and the last completes it exactly when
/// the sizes add up to the buffer's length; and then every byte of the
/// buffer lies in one chunk.
pub proof fn lemma_transfer_whole_and_in_order(len: nat, ns: Seq<nat>)
    requires
        valid_chunks(len, ns),
    ensures
        forall|i: int, j: int|
            0 <= i < j < ns.len() ==> #[trigger] chunk_start(ns, i) + ns[i] <= #[trigger] chunk_start(
                ns,
                j,
            ),
        forall|j: int|
            0 <= j < ns.len() ==> #[trigger] advance_step(chunk_start(ns, j), len, ns[j]) == (
                chunk_start(ns, j + 1),
                if chunk_start(ns, j + 1) == len {
                    Transfer::Complete
                } else {
                    Transfer::Partial
                },
            ),
        chunk_start(ns, ns.len() as int) <= len,
        chunk_start(ns, ns.len() as int) == len ==> forall|p: int|
            0 <= p < len ==> #[trigger] covered(ns, p),
{
    assert forall|i: int, j: int| 0 <= i < j < ns.len() implies #[trigger] chunk_start(ns, i)
        + ns[i] <= #[trigger] chunk_start(ns, j) by {
        lemma_chunk_start_grows(ns, i, j);
    }
    if ns.len() > 0 {
        assert(ns[ns.len() - 1] > 0);
    }
    if chunk_start(ns, ns.len() as int) == len {
        assert forall|p: int| 0 <= p < len implies #[trigger] covered(ns, p) by {
            lemma_chunks_cover_prefix(ns, ns.len() as int, p);
        }
    }
}

/// How far a read into, or a write from, a buffer of fixed length has got.
#[derive(Debug)]
pub struct ExactProgress {
    pos: usize,
    len: usize,
}

impl ExactProgress {
    /// Bytes transferred so far.
    pub closed spec fn done(&self) -> nat {
        self.pos as nat
    }

    /// The length of the buffer.
    pub closed spec fn total(&self) -> nat {
        self.len as nat
    }

    /// Never more is transferred than the buffer holds.
    #[verifier::type_invariant]
    spec fn within_buffer(self) -> bool {
        self.pos <= self.len
    }

    /// Nothing transferred yet of a buffer of `len` bytes.
    pub fn new(len: usize) -> (p: ExactProgress)
        ensures
            p.done() == 0,
            p.total() == len,
    {
        ExactProgress { pos: 0, len }
    }

    /// Bytes transferred so far, as a value.
    pub fn position(&self) -> (n: usize)
        ensures
            n == self.done(),
            n <= self.total(),
    {
        proof {
            use_type_invariant(self);
        }
        self.pos
    }

    /// Whether the whole buffer has been transferred; a transfer keeps
    /// asking for chunks only while this is false.
    pub fn is_complete(&self) -> (b: bool)
        ensures
            b == (self.done() == self.total()),
    {
        proof {
            use_type_invariant(self);
        }
        self.pos >= self.len
    }

    /// Records a chunk of `n` bytes, which cannot be more than what is left
    /// (a reader or writer never moves more bytes than the slice it is
    /// given).  An empty chunk while bytes are due means the transfer has
    /// stalled; otherwise it is complete once nothing is left.
    pub fn advance(&mut self, n: usize) -> (r: Transfer)
        requires
            old(self).done() + n <= old(self).total(),
            old(self).done() < old(self).total(),
        ensures
            final(self).total() == old(self).total(),
            final(self).done() == old(self).done() + n,
            r == (if n == 0 {
                Transfer::Stalled
            } else if final(self).done() == final(self).total() {
                Transfer::Complete
            } else {
                Transfer::Partial
            }),
            (final(self).done(), r) == advance_step(old(self).done(), old(self).total(), n as nat),
    {
        self.pos = self.pos + n;
        if n == 0 {
            Transfer::Stalled
        } else if self.pos == self.len {
            Transfer::Complete
        } else {
            Transfer::Partial
        }
    }
}

} // verus!
