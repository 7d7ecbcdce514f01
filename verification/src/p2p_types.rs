//! Peer-to-peer message and event types of the networking backend.

use vstd::prelude::*;
use crate::blocks::{Block, BlockHeader};
use crate::collections::MapKey;
use crate::primitives::H256;

verus! {

/// Protocol version of a peer.
#[derive(Clone, Copy, Debug, PartialEq, Eq, Structural, Hash)]
pub struct SemVer {
    pub major: u8,
    pub minor: u8,
    pub patch: u16,
}

/// Topics peers may subscribe to.
#[derive(Clone, Copy, Debug, PartialEq, Eq, Structural, Hash)]
pub enum PubSubTopic {
    Transactions,
    Blocks,
}

/// Whether a connection was initiated by us or by the remote peer.
#[derive(Clone, Copy, Debug, PartialEq, Eq, Structural, Hash)]
pub enum Role {
    Inbound,
    Outbound,
}

/// A peer's address as exchanged over the wire.
#[derive(Clone, Debug, PartialEq, Eq)]
pub struct PeerAddress {
    pub host: String,
    pub port: u16,
}

/// Identifier of a connected peer. Fresh identifiers are handed out by the
/// embedding application, which owns the counter; this core holds no
/// process-wide mutable state.
#[derive(Clone, Copy, Debug, PartialEq, Eq, Structural, Hash)]
pub struct PeerId {
    pub value: u64,
}

impl PeerId {
    pub fn new(value: u64) -> (r: PeerId)
        ensures
            r.value == value,
    {
        PeerId { value }
    }
}

impl MapKey for PeerId {
    fn key_eq(&self, other: &Self) -> (b: bool)
        ensures
            b == (*self == *other),
    {
        self.value == other.value
    }
}

/// Random nonce sent in an outbound handshake, used to detect and drop
/// connections to oneself.
pub type HandshakeNonce = u64;

/// What a peer advertises about itself.
#[derive(Clone, Debug, PartialEq, Eq)]
pub struct PeerInfo {
    pub peer_id: PeerId,
    pub network: [u8; 4],
    pub version: SemVer,
    pub agent: Option<String>,
    pub subscriptions: Vec<PubSubTopic>,
}

impl PeerInfo {
    /// A field-by-field copy; the subscriptions agree element by element.
    pub fn duplicate(&self) -> (r: PeerInfo)
        ensures
            r.peer_id == self.peer_id,
            r.network == self.network,
            r.version == self.version,
            r.agent == self.agent,
            r.subscriptions@ == self.subscriptions@,
    {
        let agent = match &self.agent {
            Some(a) => Some(a.clone()),
            None => None,
        };
        let mut subscriptions: Vec<PubSubTopic> = Vec::new();
        let n = self.subscriptions.len();
        let mut i: usize = 0;
        while i < n
            invariant
                n == self.subscriptions@.len(),
                i <= n,
                subscriptions@.len() == i,
                forall|j: int| 0 <= j < i ==> subscriptions@[j] == self.subscriptions@[j],
            decreases n - i,
        {
            subscriptions.push(self.subscriptions[i]);
            i = i + 1;
        }
        let r = PeerInfo {
            peer_id: self.peer_id,
            network: self.network,
            version: self.version,
            agent,
            subscriptions,
        };
        proof {
            assert(r.subscriptions@ =~= self.subscriptions@);
        }
        r
    }
}

/// Networking failures surfaced to the backend's users.
#[derive(Clone, Debug, PartialEq, Eq)]
pub enum P2pError {
    ChannelClosed,
    ConversionError(String),
    ProtocolError(String),
}

/// A request for headers after the locator, and its response.
#[derive(Clone, Debug, PartialEq, Eq)]
pub struct HeaderListRequest {
    pub locator: Vec<H256>,
}

#[derive(Clone, Debug, PartialEq, Eq)]
pub struct HeaderListResponse {
    pub headers: Vec<BlockHeader>,
}

/// A request for full blocks by identifier, and its response.
#[derive(Clone, Debug, PartialEq, Eq)]
pub struct BlockListRequest {
    pub block_ids: Vec<H256>,
}

#[derive(Clone, Debug, PartialEq, Eq)]
pub struct BlockListResponse {
    pub blocks: Vec<Block>,
}

/// A request for known peer addresses, and its response.
#[derive(Clone, Debug, PartialEq, Eq)]
pub struct AddrListRequest {}

#[derive(Clone, Debug, PartialEq, Eq)]
pub struct AddrListResponse {
    pub addresses: Vec<PeerAddress>,
}

/// An address announcement, and its acknowledgement.
#[derive(Clone, Debug, PartialEq, Eq)]
pub struct AnnounceAddrRequest {
    pub address: PeerAddress,
}

#[derive(Clone, Debug, PartialEq, Eq)]
pub struct AnnounceAddrResponse {}

/// A keep-alive probe and its answer.
#[derive(Clone, Copy, Debug, PartialEq, Eq, Structural, Hash)]
pub struct PingRequest {
    pub nonce: u64,
}

#[derive(Clone, Copy, Debug, PartialEq, Eq, Structural, Hash)]
pub struct PingResponse {
    pub nonce: u64,
}

/// Data gossiped over a pubsub topic.
#[derive(Clone, Debug, PartialEq, Eq)]
pub enum Announcement {
    Block(BlockHeader),
}

/// Messages the peer manager exchanges.
#[derive(Clone, Debug, PartialEq, Eq)]
pub enum PeerManagerMessage {
    AddrListRequest(AddrListRequest),
    AnnounceAddrRequest(AnnounceAddrRequest),
    PingRequest(PingRequest),
    AddrListResponse(AddrListResponse),
    AnnounceAddrResponse(AnnounceAddrResponse),
    PingResponse(PingResponse),
}

/// Messages the syncing component exchanges.
#[derive(Clone, Debug, PartialEq, Eq)]
pub enum SyncMessage {
    HeaderListRequest(HeaderListRequest),
    BlockListRequest(BlockListRequest),
    HeaderListResponse(HeaderListResponse),
    BlockListResponse(BlockListResponse),
}

/// Commands sent to the networking backend.
pub enum Command {
    Connect { address: String },
    Disconnect { peer_id: PeerId },
    SendMessage { peer: PeerId, message: Message },
    AnnounceData { topic: PubSubTopic, message: Vec<u8> },
}

/// Syncing-related events handed to the syncing component.
pub enum SyncingEvent {
    Message { peer: PeerId, message: SyncMessage },
    Announcement { peer_id: PeerId, announcement: Announcement },
}

/// Connectivity events handed to the peer manager.
pub enum ConnectivityEvent {
    Message { peer: PeerId, message: PeerManagerMessage },
    InboundAccepted { address: String, peer_info: PeerInfo, receiver_address: Option<PeerAddress> },
    OutboundAccepted {
        address: String,
        peer_info: PeerInfo,
        receiver_address: Option<PeerAddress>,
    },
    ConnectionError { address: String, error: P2pError },
    ConnectionClosed { peer_id: PeerId },
    /// A peer misbehaved and its reputation must be adjusted according to
    /// the error kind.
    Misbehaved { peer_id: PeerId, error: P2pError },
}

/// A message received from one of the pubsub topics.
pub enum PubSubEvent {
    Announcement { peer_id: String, topic: PubSubTopic, message: Announcement },
}

/// Events a peer connection reports to the backend.
pub enum PeerEvent {
    PeerInfoReceived {
        network: [u8; 4],
        version: SemVer,
        subscriptions: Vec<PubSubTopic>,
        receiver_address: Option<PeerAddress>,
        handshake_nonce: HandshakeNonce,
    },
    ConnectionClosed,
    MessageReceived { message: Message },
}

/// Events the backend sends to a peer connection.
pub enum Event {
    Disconnect,
    SendMessage(Message),
}

/// The handshake that opens a connection.
#[derive(Clone, Debug, PartialEq, Eq)]
pub enum HandshakeMessage {
    Hello {
        version: SemVer,
        network: [u8; 4],
        subscriptions: Vec<PubSubTopic>,
        receiver_address: Option<PeerAddress>,
        handshake_nonce: HandshakeNonce,
    },
    HelloAck {
        version: SemVer,
        network: [u8; 4],
        subscriptions: Vec<PubSubTopic>,
        receiver_address: Option<PeerAddress>,
    },
}

/// Every message a peer connection can carry.
#[derive(Clone, Debug, PartialEq, Eq)]
pub enum Message {
    Handshake(HandshakeMessage),
    HeaderListRequest(HeaderListRequest),
    BlockListRequest(BlockListRequest),
    AddrListRequest(AddrListRequest),
    AnnounceAddrRequest(AnnounceAddrRequest),
    PingRequest(PingRequest),
    HeaderListResponse(HeaderListResponse),
    BlockListResponse(BlockListResponse),
    AddrListResponse(AddrListResponse),
    AnnounceAddrResponse(AnnounceAddrResponse),
    PingResponse(PingResponse),
    Announcement(Announcement),
}

impl From<PeerManagerMessage> for Message {
    fn from(message: PeerManagerMessage) -> (r: Message) {
        match message {
            PeerManagerMessage::AddrListRequest(m) => Message::AddrListRequest(m),
            PeerManagerMessage::AnnounceAddrRequest(m) => Message::AnnounceAddrRequest(m),
            PeerManagerMessage::PingRequest(m) => Message::PingRequest(m),
            PeerManagerMessage::AddrListResponse(m) => Message::AddrListResponse(m),
            PeerManagerMessage::AnnounceAddrResponse(m) => Message::AnnounceAddrResponse(m),
            PeerManagerMessage::PingResponse(m) => Message::PingResponse(m),
        }
    }
}

impl vstd::std_specs::convert::FromSpecImpl<PeerManagerMessage> for Message {
    open spec fn obeys_from_spec() -> bool {
        true
    }

    open spec fn from_spec(message: PeerManagerMessage) -> Message {
        match message {
            PeerManagerMessage::AddrListRequest(m) => Message::AddrListRequest(m),
            PeerManagerMessage::AnnounceAddrRequest(m) => Message::AnnounceAddrRequest(m),
            PeerManagerMessage::PingRequest(m) => Message::PingRequest(m),
            PeerManagerMessage::AddrListResponse(m) => Message::AddrListResponse(m),
            PeerManagerMessage::AnnounceAddrResponse(m) => Message::AnnounceAddrResponse(m),
            PeerManagerMessage::PingResponse(m) => Message::PingResponse(m),
        }
    }
}

impl From<SyncMessage> for Message {
    fn from(message: SyncMessage) -> (r: Message) {
        match message {
            SyncMessage::HeaderListRequest(m) => Message::HeaderListRequest(m),
            SyncMessage::BlockListRequest(m) => Message::BlockListRequest(m),
            SyncMessage::HeaderListResponse(m) => Message::HeaderListResponse(m),
            SyncMessage::BlockListResponse(m) => Message::BlockListResponse(m),
        }
    }
}

impl vstd::std_specs::convert::FromSpecImpl<SyncMessage> for Message {
    open spec fn obeys_from_spec() -> bool {
        true
    }

    open spec fn from_spec(message: SyncMessage) -> Message {
        match message {
            SyncMessage::HeaderListRequest(m) => Message::HeaderListRequest(m),
            SyncMessage::BlockListRequest(m) => Message::BlockListRequest(m),
            SyncMessage::HeaderListResponse(m) => Message::HeaderListResponse(m),
            SyncMessage::BlockListResponse(m) => Message::BlockListResponse(m),
        }
    }
}

} // verus!
