//! The peer database: connected peers, discovered addresses and bans.
//!
//! Connected peers are those the peer manager holds an active connection
//! with; known addresses feed new outbound connections; banned addresses
//! carry the time their ban ends. Where a decision depends on the clock or
//! on randomness, the outside call stands behind a trusted wrapper and a
//! verified function takes its result as an argument.

use vstd::prelude::*;
use crate::collections::{lemma_seq_to_map_contains, lemma_seq_to_map_last, seq_to_map, VecMap};
use crate::p2p_types::{PeerId, PeerInfo, Role};
use rand::seq::SliceRandom;

verus! {

/// The peer-to-peer configuration the database reads.
#[derive(Clone, Debug, PartialEq, Eq)]
pub struct P2pConfig {
    /// Addresses to know from the start.
    pub added_nodes: Vec<String>,
    /// The score at which a peer is disconnected and banned.
    pub ban_threshold: u32,
    /// How long a ban lasts, in seconds.
    pub ban_duration: u64,
}

/// Short info about one connected peer, as reported to the front ends.
#[derive(Clone, Debug, PartialEq, Eq)]
pub struct ConnectedPeer {
    pub peer_id: PeerId,
    pub address: String,
    pub inbound: bool,
    pub ban_score: u32,
}

/// One active peer: its advertised info, address, role and score.
#[derive(Clone, Debug, PartialEq, Eq)]
pub struct PeerContext {
    pub info: PeerInfo,
    pub address: String,
    pub role: Role,
    pub score: u32,
}

impl PeerContext {
    /// The short form handed to front ends.
    pub fn as_connected_peer(&self) -> (r: ConnectedPeer)
        ensures
            r.peer_id == self.info.peer_id,
            r.address == self.address,
            r.inbound == (self.role == Role::Inbound),
            r.ban_score == self.score,
    {
        ConnectedPeer {
            peer_id: self.info.peer_id,
            address: self.address.clone(),
            inbound: match self.role {
                Role::Inbound => true,
                Role::Outbound => false,
            },
            ban_score: self.score,
        }
    }
}

impl From<&PeerContext> for ConnectedPeer {
    fn from(context: &PeerContext) -> (r: ConnectedPeer) {
        context.as_connected_peer()
    }
}

impl vstd::std_specs::convert::FromSpecImpl<&PeerContext> for ConnectedPeer {
    open spec fn obeys_from_spec() -> bool {
        true
    }

    open spec fn from_spec(context: &PeerContext) -> ConnectedPeer {
        ConnectedPeer {
            peer_id: context.info.peer_id,
            address: context.address,
            inbound: context.role == Role::Inbound,
            ban_score: context.score,
        }
    }
}

/// The character sequences of a vector of strings.
pub open spec fn strings_view(v: Seq<String>) -> Seq<Seq<char>> {
    v.map_values(|s: String| s@)
}

/// No two strings of `v` are equal.
pub open spec fn strings_unique(v: Seq<String>) -> bool {
    forall|i: int, j: int| 0 <= i < j < v.len() ==> strings_view(v)[i] != strings_view(v)[j]
}

/// Whether `v` holds a string equal to `s`.
pub open spec fn strings_contain(v: Seq<String>, s: Seq<char>) -> bool {
    exists|i: int| 0 <= i < v.len() && strings_view(v)[i] == s
}

/// Whether `c` reports one of the peers in `m`: same identifier and score.
pub open spec fn reported_peer(m: Map<PeerId, PeerContext>, c: ConnectedPeer) -> bool {
    exists|k: PeerId| #[trigger] m.dom().contains(k) && c.peer_id == m[k].info.peer_id
        && c.ban_score == m[k].score
}

/// The map denoted by the ban list: address characters to the second the
/// ban ends.
pub open spec fn ban_view(v: Seq<(String, u64)>) -> Map<Seq<char>, u64> {
    seq_to_map(v.map_values(|p: (String, u64)| (p.0@, p.1)))
}

fn strings_find(v: &Vec<String>, s: &String) -> (r: Option<usize>)
    ensures
        match r {
            Some(i) => i < v@.len() && v@[i as int]@ == s@,
            None => !strings_contain(v@, s@),
        },
{
    let n = v.len();
    let mut i: usize = 0;
    while i < n
        invariant
            n == v@.len(),
            i <= n,
            forall|j: int| 0 <= j < i ==> strings_view(v@)[j] != s@,
        decreases n - i,
    {
        proof {
            assert(strings_view(v@)[i as int] == v@[i as int]@);
        }
        if v[i].eq(s) {
            return Some(i);
        }
        i = i + 1;
    }
    None
}

/// Seconds since the Unix epoch, or zero should the clock stand before it.
/// Relies on std::time::SystemTime::now, read against UNIX_EPOCH; of the
/// clock's answer nothing is assumed.
#[verifier::external_body]
fn unix_time_now_secs() -> u64 {
    std::time::SystemTime::now()
        .duration_since(std::time::UNIX_EPOCH)
        .map_or(0, |d| d.as_secs())
}

/// A pseudo-random generator seeded by the process.
/// Relies on rand::thread_rng; of the generator's state nothing is assumed.
#[verifier::external_type_specification]
#[verifier::external_body]
pub struct ExThreadRng(rand::rngs::ThreadRng);

#[verifier::external_body]
fn make_pseudo_rng() -> rand::rngs::ThreadRng {
    rand::thread_rng()
}

/// Relies on rand's SliceRandom::choose_multiple: it picks
/// `min(count, items.len())` elements at random, without repetition; each
/// returned element is one of the items. The order is left open.
#[verifier::external_body]
fn choose_multiple_strings(
    rng: &mut rand::rngs::ThreadRng,
    items: &Vec<String>,
    count: usize,
) -> (r: Vec<String>)
    ensures
        r@.len() == if count <= items@.len() {
            count as int
        } else {
            items@.len() as int
        },
        forall|i: int| 0 <= i < r@.len() ==> strings_contain(items@, #[trigger] r@[i]@),
{
    items.choose_multiple(rng, count).cloned().collect()
}

/// Relies on rand's SliceRandom::choose_multiple, as above, for peer
/// identifiers.
#[verifier::external_body]
fn choose_multiple_peer_ids(
    rng: &mut rand::rngs::ThreadRng,
    items: &Vec<PeerId>,
    count: usize,
) -> (r: Vec<PeerId>)
    ensures
        r@.len() == if count <= items@.len() {
            count as int
        } else {
            items@.len() as int
        },
        forall|i: int| 0 <= i < r@.len() ==> items@.contains(#[trigger] r@[i]),
{
    items.choose_multiple(rng, count).cloned().collect()
}

/// The peer database.
pub struct PeerDb {
    p2p_config: P2pConfig,
    peers: VecMap<PeerId, PeerContext>,
    connected_addresses: Vec<String>,
    known_addresses: Vec<String>,
    banned: Vec<(String, u64)>,
}

impl PeerDb {
    pub closed spec fn wf(&self) -> bool {
        &&& self.peers.wf()
        &&& strings_unique(self.connected_addresses@)
        &&& strings_unique(self.known_addresses@)
        &&& crate::collections::keys_unique(
            self.banned@.map_values(|p: (String, u64)| (p.0@, p.1)),
        )
    }

    pub closed spec fn spec_peers(&self) -> Map<PeerId, PeerContext> {
        self.peers@
    }

    pub closed spec fn spec_connected(&self) -> Seq<String> {
        self.connected_addresses@
    }

    pub closed spec fn spec_known(&self) -> Seq<String> {
        self.known_addresses@
    }

    pub closed spec fn spec_banned(&self) -> Map<Seq<char>, u64> {
        ban_view(self.banned@)
    }

    pub closed spec fn spec_config(&self) -> P2pConfig {
        self.p2p_config
    }

    /// A fresh database knowing the configured added nodes and nothing
    /// else. Address syntax is the caller's concern; the database treats
    /// addresses as opaque strings.
    pub fn new(p2p_config: P2pConfig) -> (r: Result<PeerDb, crate::p2p_types::P2pError>)
        ensures
            match r {
                Ok(db) => {
                    &&& db.wf()
                    &&& db.spec_peers() == Map::<PeerId, PeerContext>::empty()
                    &&& db.spec_connected().len() == 0
                    &&& db.spec_banned() == Map::<Seq<char>, u64>::empty()
                    &&& forall|s: Seq<char>| strings_contain(db.spec_known(), s)
                        == strings_contain(p2p_config.added_nodes@, s)
                },
                Err(_) => false,
            },
    {
        let mut known: Vec<String> = Vec::new();
        let n = p2p_config.added_nodes.len();
        let mut i: usize = 0;
        while i < n
            invariant
                n == p2p_config.added_nodes@.len(),
                i <= n,
                strings_unique(known@),
                forall|s: Seq<char>| strings_contain(known@, s) ==> strings_contain(
                    p2p_config.added_nodes@,
                    s,
                ),
                forall|j: int| 0 <= j < i ==> strings_contain(
                    known@,
                    strings_view(p2p_config.added_nodes@)[j],
                ),
            decreases n - i,
        {
            let addr = &p2p_config.added_nodes[i];
            proof {
                assert(strings_view(p2p_config.added_nodes@)[i as int] == addr@);
            }
            match strings_find(&known, addr) {
                Some(fi) => {
                    proof {
                        assert(strings_view(known@)[fi as int] == addr@);
                        assert(strings_contain(known@, addr@));
                    }
                },
                None => {
                    let ghost before = known@;
                    known.push(addr.clone());
                    proof {
                        assert(strings_view(known@) =~= strings_view(before).push(addr@));
                        assert(strings_view(known@)[before.len() as int] == addr@);
                        assert forall|s: Seq<char>| strings_contain(before, s) implies
                            strings_contain(known@, s) by {
                            let j = choose|j: int|
                                0 <= j < before.len() && strings_view(before)[j] == s;
                            assert(strings_view(known@)[j] == s);
                        }
                        assert forall|s: Seq<char>|
                            strings_contain(known@, s) implies strings_contain(
                            p2p_config.added_nodes@,
                            s,
                        ) by {
                            let j = choose|j: int|
                                0 <= j < known@.len() && strings_view(known@)[j] == s;
                            if j < before.len() {
                                assert(strings_contain(before, s));
                            } else {
                                assert(s == addr@);
                                assert(strings_view(p2p_config.added_nodes@)[i as int] == addr@);
                            }
                        }
                    }
                },
            }
            i = i + 1;
        }
        proof {
            assert forall|s: Seq<char>|
                strings_contain(p2p_config.added_nodes@, s) implies strings_contain(
                known@,
                s,
            ) by {
                let j = choose|j: int|
                    0 <= j < p2p_config.added_nodes@.len() && strings_view(
                        p2p_config.added_nodes@,
                    )[j] == s;
            }
        }
        Ok(
            PeerDb {
                peers: VecMap::new(),
                connected_addresses: Vec::new(),
                known_addresses: known,
                banned: Vec::new(),
                p2p_config,
            },
        )
    }

    /// The number of idle (available) addresses.
    pub fn available_addresses_count(&self) -> (r: usize)
        ensures
            r == self.spec_known().len(),
    {
        self.known_addresses.len()
    }

    /// The number of active peers.
    pub fn active_peer_count(&self) -> (r: usize)
        requires
            self.wf(),
        ensures
            r == self.spec_peers().dom().len(),
    {
        self.peers.len()
    }

    /// Short info about every connected peer.
    pub fn get_connected_peers(&self) -> (r: Vec<ConnectedPeer>)
        requires
            self.wf(),
        ensures
            r@.len() == self.spec_peers().dom().len(),
            forall|i: int| 0 <= i < r@.len() ==> reported_peer(
                self.spec_peers(),
                #[trigger] r@[i],
            ),
    {
        let keys = self.peers.keys();
        let ghost ks = keys@;
        let mut r: Vec<ConnectedPeer> = Vec::new();
        let n = keys.len();
        let mut i: usize = 0;
        while i < n
            invariant
                self.wf(),
                n == ks.len(),
                i <= n,
                keys@ == ks,
                r@.len() == i,
                forall|a: int| 0 <= a < ks.len() ==> #[trigger] self.spec_peers().dom().contains(
                    ks[a],
                ),
                forall|j: int| 0 <= j < i ==> reported_peer(self.spec_peers(), #[trigger] r@[j]),
            decreases n - i,
        {
            let k = keys[i];
            match self.peers.get(&k) {
                Some(context) => {
                    r.push(context.as_connected_peer());
                    proof {
                        assert(self.spec_peers().dom().contains(k) && (r@[i as int]).peer_id
                            == self.spec_peers()[k].info.peer_id && (r@[i as int]).ban_score
                            == self.spec_peers()[k].score);
                        assert(reported_peer(self.spec_peers(), r@[i as int]));
                    }
                },
                None => {
                    proof {
                        assert(false);
                    }
                },
            }
            i = i + 1;
        }
        proof {
            self.peers.lemma_len();
        }
        r
    }

    /// Whether the given address is currently connected.
    pub fn is_address_connected(&self, address: &String) -> (r: bool)
        ensures
            r == strings_contain(self.spec_connected(), address@),
    {
        match strings_find(&self.connected_addresses, address) {
            Some(i) => {
                proof {
                    assert(strings_view(self.connected_addresses@)[i as int] == address@);
                }
                true
            },
            None => false,
        }
    }

    /// Whether the peer is active.
    pub fn is_active_peer(&self, peer_id: &PeerId) -> (r: bool)
        ensures
            r == self.spec_peers().dom().contains(*peer_id),
    {
        self.peers.contains_key(peer_id)
    }

    /// The address of an active peer.
    pub fn peer_address(&self, id: &PeerId) -> (r: Option<&String>)
        ensures
            match r {
                Some(a) => self.spec_peers().dom().contains(*id) && *a == self.spec_peers()[
                    *id].address,
                None => !self.spec_peers().dom().contains(*id),
            },
    {
        match self.peers.get(id) {
            Some(context) => Some(&context.address),
            None => None,
        }
    }

    /// Records a newly discovered address.
    pub fn peer_discovered(&mut self, address: &String)
        requires
            old(self).wf(),
        ensures
            final(self).wf(),
            forall|s: Seq<char>| strings_contain(final(self).spec_known(), s) == (strings_contain(
                old(self).spec_known(),
                s,
            ) || s == address@),
            final(self).spec_peers() == old(self).spec_peers(),
            final(self).spec_connected() == old(self).spec_connected(),
            final(self).spec_banned() == old(self).spec_banned(),
    {
        match strings_find(&self.known_addresses, address) {
            Some(fi) => {
                proof {
                    assert(strings_view(self.known_addresses@)[fi as int] == address@);
                    assert(strings_contain(self.spec_known(), address@));
                }
            },
            None => {
                let ghost before = self.known_addresses@;
                self.known_addresses.push(address.clone());
                proof {
                    assert(strings_view(self.known_addresses@) =~= strings_view(before).push(
                        address@,
                    ));
                    assert forall|s: Seq<char>|
                        strings_contain(self.spec_known(), s) == (strings_contain(before, s) || s
                            == address@) by {
                        if strings_contain(self.spec_known(), s) {
                            let j = choose|j: int|
                                0 <= j < self.known_addresses@.len() && strings_view(
                                    self.known_addresses@,
                                )[j] == s;
                            if j < before.len() {
                                assert(strings_contain(before, s));
                            }
                        }
                        if strings_contain(before, s) {
                            let j = choose|j: int|
                                0 <= j < before.len() && strings_view(before)[j] == s;
                            assert(strings_view(self.known_addresses@)[j] == s);
                        }
                        if s == address@ {
                            assert(strings_view(self.known_addresses@)[before.len() as int] == s);
                        }
                    }
                }
            },
        }
    }

    /// Reports an outbound connection failure; the address bookkeeping for
    /// unreachable peers is not implemented yet, so this records nothing.
    pub fn report_outbound_failure(&mut self, _address: String)
        requires
            old(self).wf(),
        ensures
            *final(self) == *old(self),
    {
    }

    /// Marks a peer as connected. The caller guarantees the peer and its
    /// address are new; violating that is a bug upstream.
    pub fn peer_connected(&mut self, address: String, role: Role, info: PeerInfo)
        requires
            old(self).wf(),
            !old(self).spec_peers().dom().contains(info.peer_id),
            !strings_contain(old(self).spec_connected(), address@),
        ensures
            final(self).wf(),
            final(self).spec_peers() == old(self).spec_peers().insert(
                info.peer_id,
                (PeerContext { info, address, role, score: 0u32 }),
            ),
            strings_view(final(self).spec_connected()) == strings_view(
                old(self).spec_connected(),
            ).push(address@),
            final(self).spec_known() == old(self).spec_known(),
            final(self).spec_banned() == old(self).spec_banned(),
    {
        let peer_id = info.peer_id;
        let context = PeerContext { info, address: address.clone(), role, score: 0 };
        self.peers.insert(peer_id, context);
        let ghost before = self.connected_addresses@;
        self.connected_addresses.push(address);
        proof {
            assert(strings_view(self.connected_addresses@) =~= strings_view(before).push(
                final(self).spec_peers()[peer_id].address@,
            ));
            assert forall|i: int, j: int|
                0 <= i < j < self.connected_addresses@.len() implies strings_view(
                self.connected_addresses@,
            )[i] != strings_view(self.connected_addresses@)[j] by {
                if j == self.connected_addresses@.len() - 1 {
                    assert(strings_contain(before, strings_view(before)[i]));
                }
            }
        }
    }

    /// Handles a peer disconnection: the peer must be known; its address
    /// leaves the connected set.
    pub fn peer_disconnected(&mut self, peer_id: &PeerId)
        requires
            old(self).wf(),
            old(self).spec_peers().dom().contains(*peer_id),
        ensures
            final(self).wf(),
            final(self).spec_peers() == old(self).spec_peers().remove(*peer_id),
            !strings_contain(
                final(self).spec_connected(),
                old(self).spec_peers()[*peer_id].address@,
            ),
            forall|s: Seq<char>| s != old(self).spec_peers()[*peer_id].address@ ==> strings_contain(
                final(self).spec_connected(),
                s,
            ) == strings_contain(old(self).spec_connected(), s),
            final(self).spec_known() == old(self).spec_known(),
            final(self).spec_banned() == old(self).spec_banned(),
    {
        let address = match self.peers.get(peer_id) {
            Some(context) => context.address.clone(),
            None => {
                proof {
                    assert(false);
                }
                String::new()
            },
        };
        self.peers.remove(peer_id);
        let ghost before = self.connected_addresses@;
        match strings_find(&self.connected_addresses, &address) {
            Some(i) => {
                self.connected_addresses.remove(i);
                proof {
                    assert forall|s: Seq<char>|
                        strings_contain(self.connected_addresses@, s) implies (strings_contain(
                        before,
                        s,
                    ) && (s != address@ || exists|j: int|
                        0 <= j < before.len() && j != i && strings_view(before)[j]
                            == address@)) by {
                        let j = choose|j: int|
                            0 <= j < self.connected_addresses@.len() && strings_view(
                                self.connected_addresses@,
                            )[j] == s;
                        let j0 = if j < i { j } else { j + 1 };
                        assert(strings_view(before)[j0] == s);
                    }
                    assert forall|s: Seq<char>|
                        s != address@ && strings_contain(before, s) implies strings_contain(
                        self.connected_addresses@,
                        s,
                    ) by {
                        let j = choose|j: int| 0 <= j < before.len() && strings_view(before)[j]
                            == s;
                        let j1 = if j < i { j } else { j - 1 };
                        assert(strings_view(self.connected_addresses@)[j1] == s);
                    }
                    assert forall|a: int, b: int|
                        0 <= a < b < self.connected_addresses@.len() implies strings_view(
                        self.connected_addresses@,
                    )[a] != strings_view(self.connected_addresses@)[b] by {
                        let a0 = if a < i { a } else { a + 1 };
                        let b0 = if b < i { b } else { b + 1 };
                        assert(strings_view(before)[a0] == strings_view(
                            self.connected_addresses@,
                        )[a]);
                        assert(strings_view(before)[b0] == strings_view(
                            self.connected_addresses@,
                        )[b]);
                    }
                    assert(strings_view(before)[i as int] == address@);
                    assert(!strings_contain(self.connected_addresses@, address@)) by {
                        if strings_contain(self.connected_addresses@, address@) {
                            let j = choose|j: int|
                                0 <= j < self.connected_addresses@.len() && strings_view(
                                    self.connected_addresses@,
                                )[j] == address@;
                            let j0 = if j < i { j } else { j + 1 };
                            assert(strings_view(before)[j0] == address@);
                            assert(j0 != i);
                        }
                    }
                }
            },
            None => {},
        }
    }

    fn banned_find(&self, address: &String) -> (r: Option<usize>)
        ensures
            match r {
                Some(i) => i < self.banned@.len() && self.banned@[i as int].0@ == address@
                    && forall|j: int|
                    i < j < self.banned@.len() ==> self.banned@[j].0@ != address@,
                None => forall|j: int| 0 <= j < self.banned@.len() ==> self.banned@[j].0@
                    != address@,
            },
    {
        let mut i: usize = self.banned.len();
        while i > 0
            invariant
                i <= self.banned@.len(),
                forall|j: int| i <= j < self.banned@.len() ==> self.banned@[j].0@ != address@,
            decreases i,
        {
            i = i - 1;
            if self.banned[i].0.eq(address) {
                return Some(i);
            }
        }
        None
    }

    /// Whether the address is banned at second `now`; an expired ban is
    /// forgotten on the way.
    pub fn is_address_banned_at(&mut self, address: &String, now: u64) -> (r: bool)
        requires
            old(self).wf(),
        ensures
            final(self).wf(),
            final(self).spec_peers() == old(self).spec_peers(),
            final(self).spec_connected() == old(self).spec_connected(),
            final(self).spec_known() == old(self).spec_known(),
            final(self).spec_config() == old(self).spec_config(),
            ({
                let bv = old(self).spec_banned();
                if bv.dom().contains(address@) && now <= bv[address@] {
                    r == true && final(self).spec_banned() == bv
                } else {
                    r == false && final(self).spec_banned() == bv.remove(address@)
                }
            }),
    {
        let ghost mapped = self.banned@.map_values(|p: (String, u64)| (p.0@, p.1));
        match self.banned_find(address) {
            Some(i) => {
                proof {
                    assert(mapped[i as int] == (address@, self.banned@[i as int].1));
                    lemma_seq_to_map_last(mapped, i as int);
                }
                let banned_till = self.banned[i].1;
                if now > banned_till {
                    let ghost before = self.banned@;
                    self.banned.remove(i);
                    proof {
                        assert(self.banned@.map_values(|p: (String, u64)| (p.0@, p.1))
                            =~= mapped.remove(i as int));
                        crate::collections::lemma_seq_to_map_remove(mapped, i as int);
                        assert forall|a: int, b: int|
                            0 <= a < b < mapped.remove(i as int).len() implies mapped.remove(
                            i as int,
                        )[a].0 != mapped.remove(i as int)[b].0 by {
                            let a0 = if a < i { a } else { a + 1 };
                            let b0 = if b < i { b } else { b + 1 };
                            assert(mapped.remove(i as int)[a] == mapped[a0]);
                            assert(mapped.remove(i as int)[b] == mapped[b0]);
                        }
                    }
                    false
                } else {
                    true
                }
            },
            None => {
                proof {
                    crate::collections::lemma_seq_to_map_contains(mapped, address@);
                    assert forall|j: int| 0 <= j < mapped.len() implies mapped[j].0
                        != address@ by {
                        assert(mapped[j] == (self.banned@[j].0@, self.banned@[j].1));
                    }
                    assert(!old(self).spec_banned().dom().contains(address@));
                    assert(old(self).spec_banned().remove(address@) =~= old(self).spec_banned());
                }
                false
            },
        }
    }

    /// Whether the address is banned now. The clock is read through a
    /// trusted wrapper; whatever it answers, a `true` leaves the ban list
    /// untouched and a `false` leaves the address unbanned.
    pub fn is_address_banned(&mut self, address: &String) -> (r: bool)
        requires
            old(self).wf(),
        ensures
            final(self).wf(),
            final(self).spec_peers() == old(self).spec_peers(),
            final(self).spec_connected() == old(self).spec_connected(),
            final(self).spec_known() == old(self).spec_known(),
            final(self).spec_config() == old(self).spec_config(),
            r ==> final(self).spec_banned() == old(self).spec_banned() && old(self).spec_banned().dom().contains(address@),
            !r ==> final(self).spec_banned() == old(self).spec_banned().remove(address@),
    {
        let now = unix_time_now_secs();
        self.is_address_banned_at(address, now)
    }

    /// Records a ban for `address` ending at second `till`.
    fn ban_address_till(&mut self, address: &String, till: u64)
        requires
            old(self).wf(),
        ensures
            final(self).wf(),
            final(self).spec_peers() == old(self).spec_peers(),
            final(self).spec_connected() == old(self).spec_connected(),
            final(self).spec_known() == old(self).spec_known(),
            final(self).spec_config() == old(self).spec_config(),
            final(self).spec_banned() == old(self).spec_banned().insert(address@, till),
    {
        let ghost mapped = self.banned@.map_values(|p: (String, u64)| (p.0@, p.1));
        match self.banned_find(address) {
            Some(i) => {
                let ghost before = self.banned@;
                self.banned.set(i, (address.clone(), till));
                proof {
                    assert(self.banned@.map_values(|p: (String, u64)| (p.0@, p.1)) =~= mapped.update(
                        i as int,
                        (address@, till),
                    ));
                    assert(mapped[i as int].0 == address@);
                    crate::collections::lemma_seq_to_map_update(mapped, i as int, till);
                }
            },
            None => {
                let ghost before = self.banned@;
                self.banned.push((address.clone(), till));
                proof {
                    assert(self.banned@.map_values(|p: (String, u64)| (p.0@, p.1)) =~= mapped.push(
                        (address@, till),
                    ));
                    assert(mapped.push((address@, till)).drop_last() =~= mapped);
                    assert forall|j: int| 0 <= j < mapped.len() implies mapped[j].0
                        != address@ by {
                        assert(mapped[j] == (before[j].0@, before[j].1));
                    }
                }
            },
        }
    }

    /// Removes the peer and bans its address until `now` plus the
    /// configured ban duration.
    fn ban_peer_at(&mut self, peer_id: &PeerId, now: u64)
        requires
            old(self).wf(),
        ensures
            final(self).wf(),
            final(self).spec_connected() == old(self).spec_connected(),
            final(self).spec_known() == old(self).spec_known(),
            final(self).spec_config() == old(self).spec_config(),
            if old(self).spec_peers().dom().contains(*peer_id) {
                final(self).spec_peers() == old(self).spec_peers().remove(*peer_id) && final(self).spec_banned() == old(self).spec_banned().insert(
                    old(self).spec_peers()[*peer_id].address@,
                    if now + old(self).spec_config().ban_duration <= u64::MAX {
                        (now + old(self).spec_config().ban_duration) as u64
                    } else {
                        u64::MAX
                    },
                )
            } else {
                final(self).spec_peers() == old(self).spec_peers() && final(self).spec_banned()
                    == old(self).spec_banned()
            },
    {
        let address = match self.peers.get(peer_id) {
            Some(context) => context.address.clone(),
            None => {
                return ;
            },
        };
        self.peers.remove(peer_id);
        let duration = self.p2p_config.ban_duration;
        let till = if now <= u64::MAX - duration {
            now + duration
        } else {
            u64::MAX
        };
        self.ban_address_till(&address, till);
    }

    /// Adjusts a peer's score and reports whether it should be
    /// disconnected. An unknown peer is reported as to be disconnected; a
    /// peer reaching the ban threshold is removed and its address banned
    /// until the clock's answer plus the ban duration.
    pub fn adjust_peer_score(&mut self, peer_id: &PeerId, score: u32) -> (r: bool)
        requires
            old(self).wf(),
        ensures
            final(self).wf(),
            final(self).spec_connected() == old(self).spec_connected(),
            final(self).spec_known() == old(self).spec_known(),
            final(self).spec_config() == old(self).spec_config(),
            !old(self).spec_peers().dom().contains(*peer_id) ==> r == true && final(self).spec_peers() == old(self).spec_peers() && final(self).spec_banned() == old(self).spec_banned(),
            old(self).spec_peers().dom().contains(*peer_id) ==> ({
                let ctx = old(self).spec_peers()[*peer_id];
                let new_score = if ctx.score + score <= u32::MAX {
                    (ctx.score + score) as u32
                } else {
                    u32::MAX
                };
                if new_score >= old(self).spec_config().ban_threshold {
                    r == true && final(self).spec_peers() == old(self).spec_peers().remove(
                        *peer_id,
                    ) && (exists|till: u64|
                        final(self).spec_banned() == old(self).spec_banned().insert(
                            ctx.address@,
                            till,
                        ))
                } else {
                    r == false && final(self).spec_peers().dom() == old(self).spec_peers().dom()
                        && (forall|k: PeerId| k != *peer_id && old(self).spec_peers().dom().contains(k) ==> #[trigger] final(self).spec_peers()[k]
                        == old(self).spec_peers()[k]) && final(self).spec_peers()[*peer_id].score
                        == new_score && final(self).spec_peers()[*peer_id].address@ == ctx.address@
                        && final(self).spec_peers()[*peer_id].role == ctx.role && final(self).spec_peers()[*peer_id].info.peer_id == ctx.info.peer_id && final(self).spec_banned() == old(self).spec_banned()
                }
            }),
    {
        let context = match self.peers.get(peer_id) {
            Some(c) => c,
            None => {
                return true;
            },
        };
        let new_score = if context.score <= u32::MAX - score {
            context.score + score
        } else {
            u32::MAX
        };
        let updated = PeerContext {
            info: context.info.duplicate(),
            address: context.address.clone(),
            role: context.role,
            score: new_score,
        };
        let threshold = self.p2p_config.ban_threshold;
        self.peers.insert(*peer_id, updated);
        proof {
            assert(self.spec_peers().dom() =~= old(self).spec_peers().dom());
        }
        if new_score >= threshold {
            let now = unix_time_now_secs();
            self.ban_peer_at(peer_id, now);
            proof {
                assert(self.spec_peers() =~= old(self).spec_peers().remove(*peer_id));
                let duration = old(self).spec_config().ban_duration;
                let till: u64 = if now + duration <= u64::MAX {
                    (now + duration) as u64
                } else {
                    u64::MAX
                };
                assert(self.spec_banned() == old(self).spec_banned().insert(
                    old(self).spec_peers()[*peer_id].address@,
                    till,
                ));
            }
            true
        } else {
            false
        }
    }

    /// Selects up to `count` known addresses at random; the result may be
    /// shared with remote peers.
    pub fn random_known_addresses(&self, count: usize) -> (r: Vec<String>)
        ensures
            r@.len() == if count <= self.spec_known().len() {
                count as int
            } else {
                self.spec_known().len() as int
            },
            forall|i: int| 0 <= i < r@.len() ==> strings_contain(
                self.spec_known(),
                #[trigger] r@[i]@,
            ),
    {
        let mut rng = make_pseudo_rng();
        choose_multiple_strings(&mut rng, &self.known_addresses, count)
    }

    /// Selects up to `count` connected peer identifiers at random, for
    /// gossip fan-out.
    pub fn random_peer_ids(&self, count: usize) -> (r: Vec<PeerId>)
        requires
            self.wf(),
        ensures
            r@.len() == if count <= self.spec_peers().dom().len() {
                count as int
            } else {
                self.spec_peers().dom().len() as int
            },
            forall|i: int| 0 <= i < r@.len() ==> self.spec_peers().dom().contains(
                #[trigger] r@[i],
            ),
    {
        proof {
            self.peers.lemma_len();
        }
        let all_peer_ids = self.peers.keys();
        let mut rng = make_pseudo_rng();
        let picked = choose_multiple_peer_ids(&mut rng, &all_peer_ids, count);
        proof {
            assert forall|i: int| 0 <= i < picked@.len() implies self.spec_peers().dom().contains(
                #[trigger] picked@[i],
            ) by {
                let j = choose|j: int| 0 <= j < all_peer_ids@.len() && all_peer_ids@[j]
                    == picked@[i];
            }
        }
        picked
    }

    /// A random known address, if any is known.
    pub fn get_best_peer_addr(&mut self) -> (r: Option<String>)
        requires
            old(self).wf(),
        ensures
            *final(self) == *old(self),
            match r {
                Some(a) => strings_contain(old(self).spec_known(), a@),
                None => old(self).spec_known().len() == 0,
            },
    {
        let mut picks = self.random_known_addresses(1);
        if picks.len() > 0 {
            Some(picks.remove(0))
        } else {
            None
        }
    }
}

} // verus!
