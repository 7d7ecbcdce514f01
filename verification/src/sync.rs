//! The decision core of the block-sync event loop.
//!
//! The asynchronous loop around it receives control events over channels and
//! performs the channel I/O; which peers the sync component tracks, and what
//! a connect or disconnect event changes, is decided here.

use vstd::prelude::*;
use crate::collections::VecMap;
use crate::p2p_types::PeerId;

verus! {

/// Synchronisation state of one tracked peer.
#[derive(Clone, Copy, Debug, PartialEq, Eq, Structural, Hash)]
pub enum PeerState {
    /// No activity with the peer.
    Idle,
}

/// The peers the sync component tracks.
pub struct SyncPeers {
    peers: VecMap<PeerId, PeerState>,
}

impl SyncPeers {
    pub closed spec fn wf(&self) -> bool {
        self.peers.wf()
    }

    pub closed spec fn spec_peers(&self) -> Map<PeerId, PeerState> {
        self.peers@
    }

    pub fn new() -> (r: Self)
        ensures
            r.wf(),
            r.spec_peers() == Map::<PeerId, PeerState>::empty(),
    {
        SyncPeers { peers: VecMap::new() }
    }

    /// A peer connected: track it as idle; a peer already known is left
    /// untouched and reported, which the loop logs as an error.
    pub fn on_peer_connected(&mut self, peer_id: PeerId) -> (r: bool)
        requires
            old(self).wf(),
        ensures
            final(self).wf(),
            r == !old(self).spec_peers().dom().contains(peer_id),
            r ==> final(self).spec_peers() == old(self).spec_peers().insert(
                peer_id,
                PeerState::Idle,
            ),
            !r ==> final(self).spec_peers() == old(self).spec_peers(),
    {
        if self.peers.contains_key(&peer_id) {
            false
        } else {
            self.peers.insert(peer_id, PeerState::Idle);
            true
        }
    }

    /// A peer disconnected: forget it; an unknown peer is reported, which
    /// the loop logs as an error.
    pub fn on_peer_disconnected(&mut self, peer_id: PeerId) -> (r: bool)
        requires
            old(self).wf(),
        ensures
            final(self).wf(),
            r == old(self).spec_peers().dom().contains(peer_id),
            final(self).spec_peers() == old(self).spec_peers().remove(peer_id),
    {
        let known = self.peers.contains_key(&peer_id);
        self.peers.remove(&peer_id);
        proof {
            if !known {
                assert(self.spec_peers() =~= old(self).spec_peers().remove(peer_id));
            }
        }
        known
    }

    /// How many peers are tracked.
    pub fn peer_count(&self) -> (r: usize)
        requires
            self.wf(),
        ensures
            r == self.spec_peers().dom().len(),
    {
        self.peers.len()
    }
}

} // verus!
