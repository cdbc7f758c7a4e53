//! The peers of a TCP server channel, in the order they connected.
//!
//! A read of the channel reads each peer in turn into what is left of one
//! buffer ([`Gather`]): the peers' bytes are merged, one after another, into
//! a single read. A write of the channel sends the whole buffer to every
//! peer. A peer that fails, or whose connection closed, is dropped
//! ([`PeerList::prune`]) without stopping the relay.

use vstd::prelude::*;
use crate::outcome::{ReadOutcome, WriteOutcome};

verus! {

/// Whether flag `i` keeps its peer: peers past the end of the flags are kept.
pub open spec fn keeps(keep: Seq<bool>, i: int) -> bool {
    i >= keep.len() || keep[i]
}

/// The peers of `s` from position `i` on that the flags keep, in order.
pub open spec fn kept_from<T>(s: Seq<T>, keep: Seq<bool>, i: int) -> Seq<T>
    decreases s.len() - i,
{
    if i < 0 || i >= s.len() {
        Seq::empty()
    } else if keeps(keep, i) {
        seq![s[i]] + kept_from(s, keep, i + 1)
    } else {
        kept_from(s, keep, i + 1)
    }
}

/// The peers of `s` that the flags keep, in order.
pub open spec fn kept<T>(s: Seq<T>, keep: Seq<bool>) -> Seq<T> {
    kept_from(s, keep, 0)
}

/// An ordered sequence of connected peers.
pub struct PeerList<T> {
    peers: Vec<T>,
}

impl<T> View for PeerList<T> {
    type V = Seq<T>;

    closed spec fn view(&self) -> Seq<T> {
        self.peers@
    }
}

impl<T> PeerList<T> {
    /// A list with no peers.
    pub fn new() -> (r: PeerList<T>)
        ensures
            r@ == Seq::<T>::empty(),
    {
        PeerList { peers: Vec::new() }
    }

    pub fn len(&self) -> (r: usize)
        ensures
            r == self@.len(),
    {
        self.peers.len()
    }

    /// Adds a newly accepted peer after all others.
    pub fn add(&mut self, peer: T)
        ensures
            final(self)@ == old(self)@.push(peer),
    {
        self.peers.push(peer);
    }

    /// The peer at position `i`, to read or write.
    pub fn peer(&self, i: usize) -> (r: &T)
        requires
            i < self@.len(),
        ensures
            *r == self@[i as int],
    {
        &self.peers[i]
    }

    /// The peer at position `i`, to read or write through.
    pub fn peer_mut(&mut self, i: usize) -> (r: &mut T)
        requires
            i < old(self)@.len(),
        ensures
            *r == old(self)@[i as int],
            final(self)@ == old(self)@.update(i as int, *final(r)),
    {
        &mut self.peers[i]
    }

    /// Drops each peer whose flag is `false`; peers past the end of the
    /// flags stay. The rest keep their order.
    pub fn prune(&mut self, keep: &Vec<bool>)
        ensures
            final(self)@ == kept(old(self)@, keep@),
    {
        let ghost s = self.peers@;
        let mut i: usize = self.peers.len();
        assert(s.take(i as int) =~= s);
        while i > 0
            invariant
                i <= s.len(),
                self.peers@ == s.take(i as int) + kept_from(s, keep@, i as int),
            decreases i,
        {
            i = i - 1;
            let stays = i >= keep.len() || keep[i];
            if stays {
                assert(s.take(i + 1) =~= s.take(i as int).push(s[i as int]));
                assert(s.take(i as int) + kept_from(s, keep@, i as int) =~= s.take(i + 1)
                    + kept_from(s, keep@, i + 1));
            } else {
                self.peers.remove(i);
                assert(s.take(i as int) + kept_from(s, keep@, i as int) =~= (s.take(i + 1)
                    + kept_from(s, keep@, i + 1)).remove(i as int));
            }
        }
        assert(s.take(0) + kept_from(s, keep@, 0) =~= kept(s, keep@));
    }
}

/// A read of every peer of a server channel into one buffer.
///
/// The caller reads peer after peer, in order, into the buffer from
/// [`Gather::offset`] on, while [`Gather::wants_more`] holds, and reports
/// each outcome with [`Gather::record`]. Then [`Gather::total`] bytes of the
/// buffer hold what was read, and [`Gather::keep`] says which peers stay.
pub struct Gather {
    capacity: usize,
    filled: usize,
    keep: Vec<bool>,
}

pub ghost struct GatherView {
    /// The size of the buffer.
    pub capacity: usize,
    /// The number of bytes read so far.
    pub filled: usize,
    /// For each peer read so far, whether it stays.
    pub keep: Seq<bool>,
}

impl View for Gather {
    type V = GatherView;

    closed spec fn view(&self) -> GatherView {
        GatherView { capacity: self.capacity, filled: self.filled, keep: self.keep@ }
    }
}

/// The state after one more peer's read: bytes are appended to what was
/// read before; a peer that failed, or that read nothing from a closed
/// connection, is dropped; one that would block stays and adds nothing.
pub open spec fn gather_next(g: GatherView, o: ReadOutcome) -> GatherView {
    match o {
        ReadOutcome::Bytes(n) => {
            if 0 < n && n <= g.capacity - g.filled {
                GatherView { filled: (g.filled + n) as usize, keep: g.keep.push(true), ..g }
            } else {
                GatherView { keep: g.keep.push(false), ..g }
            }
        },
        ReadOutcome::WouldBlock => GatherView { keep: g.keep.push(true), ..g },
        ReadOutcome::Failed => GatherView { keep: g.keep.push(false), ..g },
    }
}

impl GatherView {
    pub open spec fn wf(self) -> bool {
        self.filled <= self.capacity
    }
}

impl Gather {
    /// A read into a buffer of `capacity` bytes, before any peer.
    pub fn new(capacity: usize) -> (r: Gather)
        ensures
            r@.wf(),
            r@.capacity == capacity,
            r@.filled == 0,
            r@.keep == Seq::<bool>::empty(),
    {
        Gather { capacity, filled: 0, keep: Vec::new() }
    }

    /// Where in the buffer the next peer's bytes go.
    pub fn offset(&self) -> (r: usize)
        ensures
            r == self@.filled,
    {
        self.filled
    }

    /// Whether the buffer has room left for another peer's bytes.
    pub fn wants_more(&self) -> (r: bool)
        ensures
            r == (self@.filled < self@.capacity),
    {
        self.filled < self.capacity
    }

    /// Takes the outcome of reading the next peer.
    pub fn record(&mut self, o: ReadOutcome)
        requires
            old(self)@.wf(),
        ensures
            final(self)@ == gather_next(old(self)@, o),
            final(self)@.wf(),
    {
        match o {
            ReadOutcome::Bytes(n) => {
                if 0 < n && n <= self.capacity - self.filled {
                    self.filled = self.filled + n;
                    self.keep.push(true);
                } else {
                    self.keep.push(false);
                }
            },
            ReadOutcome::WouldBlock => self.keep.push(true),
            ReadOutcome::Failed => self.keep.push(false),
        }
    }

    /// The number of bytes read from all peers together.
    pub fn total(&self) -> (r: usize)
        ensures
            r == self@.filled,
    {
        self.filled
    }

    /// For each peer read, whether it stays.
    pub fn keep(&self) -> (r: &Vec<bool>)
        ensures
            r@ == self@.keep,
    {
        &self.keep
    }
}

/// For each peer written to, whether it stays: whether the write reached it.
pub open spec fn write_keep(outcomes: Seq<WriteOutcome>) -> Seq<bool> {
    Seq::new(outcomes.len(), |i: int| outcomes[i] == WriteOutcome::Done)
}

/// Which peers stay after a write to every peer: those the write reached.
pub fn write_survivors(outcomes: &Vec<WriteOutcome>) -> (r: Vec<bool>)
    ensures
        r@ == write_keep(outcomes@),
{
    let mut r: Vec<bool> = Vec::new();
    let mut i: usize = 0;
    while i < outcomes.len()
        invariant
            i <= outcomes@.len(),
            r@.len() == i,
            forall|j: int| 0 <= j < i ==> r@[j] == (outcomes@[j] == WriteOutcome::Done),
        decreases outcomes@.len() - i,
    {
        r.push(outcomes[i] == WriteOutcome::Done);
        i = i + 1;
    }
    assert(r@ =~= write_keep(outcomes@));
    r
}

proof fn lemma_kept_from_all<T>(s: Seq<T>, keep: Seq<bool>, i: int)
    requires
        0 <= i <= s.len(),
        forall|j: int| i <= j < s.len() ==> keeps(keep, j),
    ensures
        kept_from(s, keep, i) == s.skip(i),
    decreases s.len() - i,
{
    if i < s.len() {
        lemma_kept_from_all(s, keep, i + 1);
        assert(seq![s[i]] + s.skip(i + 1) =~= s.skip(i));
    } else {
        assert(s.skip(i) =~= Seq::<T>::empty());
    }
}

/// A write that reaches every peer keeps every peer, in the same order:
/// each of them was sent the whole buffer and stays for the next one.
pub proof fn lemma_broadcast_keeps_every_peer<T>(s: Seq<T>, outcomes: Seq<WriteOutcome>)
    requires
        outcomes.len() == s.len(),
        forall|i: int| 0 <= i < outcomes.len() ==> outcomes[i] == WriteOutcome::Done,
    ensures
        kept(s, write_keep(outcomes)) == s,
{
    lemma_kept_from_all(s, write_keep(outcomes), 0);
    assert(s.skip(0) =~= s);
}


/// The state after reading peers with the given outcomes, one after another.
pub open spec fn gather_all(g: GatherView, outcomes: Seq<ReadOutcome>) -> GatherView
    decreases outcomes.len(),
{
    if outcomes.len() == 0 {
        g
    } else {
        gather_next(gather_all(g, outcomes.drop_last()), outcomes.last())
    }
}

/// A read of a server channel whose peers all report that the read would
/// block delivers no bytes, is no error, and keeps every peer in its order.
pub proof fn lemma_all_blocking_reads_nothing<T>(g: GatherView, peers: Seq<T>, outcomes: Seq<ReadOutcome>)
    requires
        g.wf(),
        g.filled == 0,
        g.keep == Seq::<bool>::empty(),
        outcomes.len() == peers.len(),
        forall|i: int| 0 <= i < outcomes.len() ==> outcomes[i] == ReadOutcome::WouldBlock,
    ensures
        gather_all(g, outcomes).filled == 0,
        gather_all(g, outcomes).keep.len() == peers.len(),
        kept(peers, gather_all(g, outcomes).keep) == peers,
{
    lemma_blocking_keeps(g, outcomes);
    lemma_kept_from_all(peers, gather_all(g, outcomes).keep, 0);
    assert(peers.skip(0) =~= peers);
}

proof fn lemma_blocking_keeps(g: GatherView, outcomes: Seq<ReadOutcome>)
    requires
        g.filled == 0,
        g.keep == Seq::<bool>::empty(),
        forall|i: int| 0 <= i < outcomes.len() ==> outcomes[i] == ReadOutcome::WouldBlock,
    ensures
        gather_all(g, outcomes).filled == 0,
        gather_all(g, outcomes).capacity == g.capacity,
        gather_all(g, outcomes).keep.len() == outcomes.len(),
        forall|i: int| 0 <= i < outcomes.len() ==> #[trigger] gather_all(g, outcomes).keep[i],
    decreases outcomes.len(),
{
    if outcomes.len() > 0 {
        let rest = outcomes.drop_last();
        lemma_blocking_keeps(g, rest);
        assert(outcomes.last() == ReadOutcome::WouldBlock);
        let h = gather_all(g, rest);
        assert forall|i: int| 0 <= i < outcomes.len() implies #[trigger] gather_all(g, outcomes).keep[i] by {
            if i < rest.len() {
                assert(gather_all(g, outcomes).keep[i] == h.keep[i]);
            }
        }
    }
}

} // verus!
