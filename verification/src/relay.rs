//! Relay byte accounting. The relay engine copies two byte streams in
//! both directions; the copying itself is socket I/O and lives outside
//! the crate, which hands every delivered chunk to a counter here.

use vstd::prelude::*;

verus! {

/// Sum of a sequence of chunk sizes.
pub open spec fn sum_of(chunks: Seq<int>) -> int
    decreases chunks.len(),
{
    if chunks.len() == 0 {
        0
    } else {
        sum_of(chunks.drop_last()) + chunks.last()
    }
}

/// Byte counter for one relay direction. Each chunk the direction
/// delivers to its peer is recorded once; the reported total is by
/// construction the sum of the recorded chunks.
pub struct RelayCounter {
    /// Bytes delivered so far.
    pub total: u64,
    /// The sizes of the delivered chunks, in order.
    pub chunks: Ghost<Seq<int>>,
}

impl RelayCounter {
    /// The counter invariant: every chunk is a genuine size and the
    /// total is their sum.
    pub open spec fn wf(&self) -> bool {
        &&& forall|i: int| 0 <= i < self.chunks@.len() ==> #[trigger] self.chunks@[i] >= 0
        &&& self.total == sum_of(self.chunks@)
    }

    /// A fresh counter at zero.
    pub fn new() -> (r: RelayCounter)
        ensures
            r.wf(),
            r.total == 0,
            r.chunks@.len() == 0,
    {
        RelayCounter { total: 0, chunks: Ghost(Seq::empty()) }
    }

    /// Records one delivered chunk of `n` bytes.
    pub fn record_chunk(&mut self, n: usize)
        requires
            old(self).wf(),
            old(self).total + n <= u64::MAX,
        ensures
            final(self).wf(),
            final(self).chunks@ == old(self).chunks@.push(n as int),
            final(self).total == old(self).total + n,
    {
        proof {
            assert(self.chunks@.push(n as int).drop_last() =~= self.chunks@);
        }
        self.total = self.total + (n as u64);
        self.chunks = Ghost(self.chunks@.push(n as int));
    }
}

/// The byte totals a finished relay reports, one per direction.
#[derive(Clone, Copy, Debug, PartialEq, Eq, Structural)]
pub struct RelayTotals {
    /// Bytes copied from the client to the target.
    pub client_to_target: u64,
    /// Bytes copied from the target to the client.
    pub target_to_client: u64,
}

/// The total a relay direction reports equals the sum of the chunks
/// that were observed arriving at the peer, each recorded once.
pub proof fn lemma_relay_total_is_chunk_sum(c: RelayCounter)
    requires
        c.wf(),
    ensures
        c.total == sum_of(c.chunks@),
{
}

} // verus!
