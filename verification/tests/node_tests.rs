use pos_ledger::blocks::{Block, BlockHeader, BlockIndex, Transaction};
use pos_ledger::chain::ChainConfig;
use pos_ledger::commands::ConsoleCommand;
use pos_ledger::dns_storage::{DnsServerStorageRead, DnsServerStorageWrite, StorageError};
use pos_ledger::merkle::{Node, NodesWithAbsOrder};
use pos_ledger::network_tab::{NetworkMessage, NetworkTab};
use pos_ledger::p2p_types::{
    AddrListRequest, Message, PeerId, PeerInfo, PeerManagerMessage, PingRequest, Role, SemVer,
    SyncMessage,
};
use pos_ledger::peekable::{ByteInput, DecodeError, Input, Peekable};
use pos_ledger::peerdb::{P2pConfig, PeerDb};
use pos_ledger::primitives::{BlockDistance, BlockHeight, BlockTimestamp, H256, Uint256};
use pos_ledger::server_config::PostgresConfig;
use pos_ledger::sync::SyncPeers;
use pos_ledger::wallet_events::{AccountWalletTxId, WalletEvents, WalletEventsNoOp, WalletTx};

fn peer_info(id: u64) -> PeerInfo {
    PeerInfo {
        peer_id: PeerId::new(id),
        network: [1, 2, 3, 4],
        version: SemVer { major: 0, minor: 1, patch: 0 },
        agent: None,
        subscriptions: Vec::new(),
    }
}

#[test]
fn block_index_reports_its_block() {
    let header = BlockHeader::new(
        H256::from_words(1, 2, 3, 4),
        Some(H256::zero()),
        BlockTimestamp::from_int_seconds(77),
    );
    let block = Block::new(header, vec![Transaction::new(vec![], vec![])]);
    let index = BlockIndex::new(
        &block,
        Uint256::from_u64(9),
        BlockHeight::new(3),
        BlockTimestamp::from_int_seconds(80),
    );
    assert_eq!(*index.block_id(), H256::from_words(1, 2, 3, 4));
    assert_eq!(*index.prev_block_id(), Some(H256::zero()));
    assert_eq!(index.block_timestamp().as_int_seconds(), 77);
    assert_eq!(index.chain_timestamps_max().as_int_seconds(), 80);
    assert_eq!(index.block_height(), BlockHeight::new(3));
    assert_eq!(*index.chain_trust(), Uint256::from_u64(9));
    assert_eq!(index.block_header().timestamp().as_int_seconds(), 77);
    let config = ChainConfig::new(BlockDistance::new(1), BlockDistance::new(1), 1, 0);
    assert!(!index.is_genesis(&config));
    assert_eq!(index.into_block_header(), header);
}

#[test]
fn peek_does_not_consume() {
    let mut input = Peekable::new(ByteInput::new(vec![10, 20, 30]));
    assert_eq!(input.remaining_len(), Ok(Some(3)));
    assert_eq!(input.peek(), Ok(10));
    assert_eq!(input.peek(), Ok(10));
    assert_eq!(input.remaining_len(), Ok(Some(3)));
    assert_eq!(input.read_byte(), Ok(10));
    assert_eq!(input.read_byte(), Ok(20));
    assert_eq!(input.peek(), Ok(30));
    assert_eq!(input.read_byte(), Ok(30));
    assert_eq!(input.read_byte(), Err(DecodeError::NotEnoughData));
    input.assert_tag_consumed();
}

#[test]
fn peekable_read_copies_the_prefix() {
    let mut input = Peekable::new(ByteInput::new(vec![1, 2, 3, 4, 5]));
    assert_eq!(input.peek(), Ok(1));
    let mut target = vec![0u8; 4];
    input.read(&mut target).unwrap();
    assert_eq!(target, vec![1, 2, 3, 4]);
    assert_eq!(input.read_byte(), Ok(5));
}

#[test]
fn peekable_read_rejects_short_input() {
    let mut input = Peekable::new(ByteInput::new(vec![1, 2]));
    let mut target = vec![0u8; 3];
    assert_eq!(input.read(&mut target), Err(DecodeError::NotEnoughData));
    // Nothing was consumed.
    assert_eq!(input.read_byte(), Ok(1));
}

#[test]
fn nodes_order_by_absolute_index() {
    let a = NodesWithAbsOrder::from(Node { abs_index: 3 });
    let b = NodesWithAbsOrder::from(Node { abs_index: 7 });
    assert!(a < b);
    assert_eq!(a.get().abs_index(), 3);
    let back: Node = Node::from(b);
    assert_eq!(back.abs_index, 7);
}

#[test]
fn peer_db_connect_and_disconnect() {
    let config = P2pConfig {
        added_nodes: vec!["10.0.0.1:3031".to_string(), "10.0.0.1:3031".to_string()],
        ban_threshold: 100,
        ban_duration: 3600,
    };
    let mut db = PeerDb::new(config).unwrap();
    // The duplicate added node is kept once.
    assert_eq!(db.available_addresses_count(), 1);

    let id = PeerId::new(1);
    db.peer_connected("10.0.0.2:3031".to_string(), Role::Inbound, peer_info(1));
    assert_eq!(db.active_peer_count(), 1);
    assert!(db.is_active_peer(&id));
    assert!(db.is_address_connected(&"10.0.0.2:3031".to_string()));
    assert_eq!(db.peer_address(&id), Some(&"10.0.0.2:3031".to_string()));

    let peers = db.get_connected_peers();
    assert_eq!(peers.len(), 1);
    assert_eq!(peers[0].peer_id, id);
    assert_eq!(peers[0].ban_score, 0);
    assert!(peers[0].inbound);

    db.peer_disconnected(&id);
    assert_eq!(db.active_peer_count(), 0);
    assert!(!db.is_address_connected(&"10.0.0.2:3031".to_string()));
}

#[test]
fn peer_db_bans_by_time() {
    let config = P2pConfig { added_nodes: vec![], ban_threshold: 100, ban_duration: 3600 };
    let mut db = PeerDb::new(config).unwrap();
    db.peer_connected("10.0.0.3:3031".to_string(), Role::Outbound, peer_info(2));
    // The threshold is reached: the peer is dropped and its address banned.
    assert!(db.adjust_peer_score(&PeerId::new(2), 100));
    assert!(!db.is_active_peer(&PeerId::new(2)));
    assert!(db.is_address_banned(&"10.0.0.3:3031".to_string()));
    // The ban has an end: at a far-future instant it no longer holds.
    assert!(!db.is_address_banned_at(&"10.0.0.3:3031".to_string(), u64::MAX));
    assert!(!db.is_address_banned(&"10.0.0.3:3031".to_string()));
}

#[test]
fn peer_db_scores_accumulate() {
    let config = P2pConfig { added_nodes: vec![], ban_threshold: 100, ban_duration: 3600 };
    let mut db = PeerDb::new(config).unwrap();
    db.peer_connected("10.0.0.4:3031".to_string(), Role::Outbound, peer_info(3));
    assert!(!db.adjust_peer_score(&PeerId::new(3), 40));
    assert!(!db.adjust_peer_score(&PeerId::new(3), 40));
    assert_eq!(db.get_connected_peers()[0].ban_score, 80);
    // An unknown peer is reported as to be disconnected.
    assert!(db.adjust_peer_score(&PeerId::new(99), 1));
}

// Were the random selection handing its whole input back, the requested
// count would be ignored; it is not.
#[test]
fn random_selection_respects_count() {
    let config = P2pConfig {
        added_nodes: vec![
            "10.0.0.5:1".to_string(),
            "10.0.0.5:2".to_string(),
            "10.0.0.5:3".to_string(),
        ],
        ban_threshold: 100,
        ban_duration: 3600,
    };
    let mut db = PeerDb::new(config).unwrap();
    let picked = db.random_known_addresses(2);
    assert_eq!(picked.len(), 2);
    let all = db.random_known_addresses(10);
    assert_eq!(all.len(), 3);
    assert!(db.get_best_peer_addr().is_some());
    assert!(db.random_peer_ids(5).is_empty());
}

#[test]
fn messages_wrap_without_loss() {
    let m = Message::from(PeerManagerMessage::PingRequest(PingRequest { nonce: 7 }));
    assert_eq!(m, Message::PingRequest(PingRequest { nonce: 7 }));
    let m = Message::from(PeerManagerMessage::AddrListRequest(AddrListRequest {}));
    assert_eq!(m, Message::AddrListRequest(AddrListRequest {}));
    let m = Message::from(SyncMessage::BlockListRequest(
        pos_ledger::p2p_types::BlockListRequest { block_ids: vec![H256::zero()] },
    ));
    match m {
        Message::BlockListRequest(r) => assert_eq!(r.block_ids, vec![H256::zero()]),
        _ => panic!("wrong wrapping"),
    }
}

#[test]
fn sync_peers_track_connections() {
    let mut peers = SyncPeers::new();
    assert!(peers.on_peer_connected(PeerId::new(8)));
    assert!(!peers.on_peer_connected(PeerId::new(8)));
    assert_eq!(peers.peer_count(), 1);
    assert!(!peers.on_peer_disconnected(PeerId::new(9)));
    assert_eq!(peers.peer_count(), 1);
    assert!(peers.on_peer_disconnected(PeerId::new(8)));
    assert_eq!(peers.peer_count(), 0);
}

struct CountingEvents {
    blocks: u32,
}

impl WalletEvents for CountingEvents {
    fn new_block(&mut self) {
        self.blocks += 1;
    }

    fn set_transaction(&mut self, _id: &AccountWalletTxId, _tx: &WalletTx) {}

    fn del_transaction(&mut self, _id: &AccountWalletTxId) {}
}

#[test]
fn wallet_events_dispatch() {
    let mut noop = WalletEventsNoOp;
    noop.new_block();
    let id = AccountWalletTxId { account_id: H256::zero(), tx_id: H256::zero() };
    noop.set_transaction(&id, &WalletTx { tx_id: H256::zero() });
    noop.del_transaction(&id);

    let mut counting = CountingEvents { blocks: 0 };
    counting.new_block();
    counting.new_block();
    assert_eq!(counting.blocks, 2);
}

struct MemoryDnsStore {
    version: Option<u32>,
    addresses: Vec<String>,
}

impl DnsServerStorageRead for MemoryDnsStore {
    fn get_version(&self) -> Result<Option<u32>, StorageError> {
        Ok(self.version)
    }

    fn get_addresses(&self) -> Result<Vec<String>, StorageError> {
        Ok(self.addresses.clone())
    }
}

impl DnsServerStorageWrite for MemoryDnsStore {
    fn set_version(&mut self, version: u32) -> Result<(), StorageError> {
        self.version = Some(version);
        Ok(())
    }

    fn add_address(&mut self, address: &str) -> Result<(), StorageError> {
        self.addresses.push(address.to_string());
        Ok(())
    }

    fn del_address(&mut self, address: &str) -> Result<(), StorageError> {
        self.addresses.retain(|a| a != address);
        Ok(())
    }
}

#[test]
fn dns_storage_roundtrip() {
    let mut store = MemoryDnsStore { version: None, addresses: vec![] };
    assert_eq!(store.get_version(), Ok(None));
    store.set_version(1).unwrap();
    store.add_address("example.test").unwrap();
    assert_eq!(store.get_version(), Ok(Some(1)));
    assert_eq!(store.get_addresses().unwrap(), vec!["example.test".to_string()]);
    store.del_address("example.test").unwrap();
    assert!(store.get_addresses().unwrap().is_empty());
}

#[test]
fn plain_node_values_construct() {
    let _tab = NetworkTab::new();
    let _msg = NetworkMessage::Noop;
    let command = ConsoleCommand::Print("done".to_string());
    match command {
        ConsoleCommand::Print(s) => assert_eq!(s, "done"),
        _ => panic!("wrong command"),
    }
    let config = PostgresConfig {
        postgres_host: "localhost".to_string(),
        postgres_port: 5432,
        postgres_user: "postgres".to_string(),
        postgres_password: None,
        postgres_database: None,
        postgres_max_connections: 10,
    };
    assert_eq!(config.postgres_port, 5432);
}
