use blockchain_node::block::{Block, Transaction};
use blockchain_node::chain::{Blockchain, NodePeer};
use blockchain_node::error::LedgerError;
use blockchain_node::replication::RegistrationReply;
use blockchain_node::wire::{parse_block, parse_transaction, BlockRecord, TransactionRecord};

fn note(author: &str, content: &str, timestamp: i64) -> Transaction {
    Transaction { author: author.to_string(), content: content.to_string(), timestamp }
}

fn record_of_transaction(t: &Transaction) -> TransactionRecord {
    TransactionRecord {
        author: Some(t.author.clone()),
        content: Some(t.content.clone()),
        timestamp: Some(t.timestamp),
    }
}

fn record_of(block: &Block) -> BlockRecord {
    BlockRecord {
        index: Some(block.index),
        transactions: Some(block.transactions.iter().map(record_of_transaction).collect()),
        timestamp: Some(block.timestamp),
        previous_hash: Some(block.previous_hash.clone()),
        nonce: Some(block.nonce),
        hash: Some(block.hash.clone()),
    }
}

fn dump_of(ledger: &Blockchain) -> Vec<BlockRecord> {
    ledger.chain.iter().map(record_of).collect()
}

fn empty_record() -> BlockRecord {
    BlockRecord {
        index: None,
        transactions: None,
        timestamp: None,
        previous_hash: None,
        nonce: None,
        hash: None,
    }
}

/// A ledger with `length` blocks, the genesis block included, whose
/// transactions are written by `author`.
fn node_with_chain(length: usize, author: &str) -> Blockchain {
    let mut ledger = Blockchain::new_blockchain();
    for i in 1..length {
        ledger.add_new_transaction(note(author, "entry", i as i64));
        assert_eq!(ledger.mine_block_at(50 + i as i64), Ok(true));
    }
    assert_eq!(ledger.chain.len(), length);
    ledger
}

#[test]
fn transaction_record_with_all_members_decodes() {
    let record = record_of_transaction(&note("a", "b", 3));
    assert_eq!(parse_transaction(&record), Ok(note("a", "b", 3)));
}

#[test]
fn transaction_record_without_a_member_is_malformed() {
    let full = record_of_transaction(&note("a", "b", 3));
    let no_author = TransactionRecord { author: None, ..record_of_transaction(&note("a", "b", 3)) };
    let no_content = TransactionRecord { content: None, ..record_of_transaction(&note("a", "b", 3)) };
    let no_time = TransactionRecord { timestamp: None, ..record_of_transaction(&note("a", "b", 3)) };
    assert!(parse_transaction(&full).is_ok());
    assert_eq!(parse_transaction(&no_author), Err(LedgerError::MalformedRemoteData));
    assert_eq!(parse_transaction(&no_content), Err(LedgerError::MalformedRemoteData));
    assert_eq!(parse_transaction(&no_time), Err(LedgerError::MalformedRemoteData));
}

#[test]
fn transaction_records_decode_in_order() {
    let records = vec![
        record_of_transaction(&note("a", "one", 1)),
        record_of_transaction(&note("b", "two", 2)),
    ];
    assert_eq!(
        Blockchain::parse_transactions(&records),
        Ok(vec![note("a", "one", 1), note("b", "two", 2)])
    );
    assert_eq!(Blockchain::parse_transactions(&vec![]), Ok(vec![]));
}

#[test]
fn one_malformed_transaction_record_spoils_the_list() {
    let records = vec![
        record_of_transaction(&note("a", "one", 1)),
        TransactionRecord { author: Some("b".to_string()), content: None, timestamp: Some(2) },
        record_of_transaction(&note("c", "three", 3)),
    ];
    assert_eq!(Blockchain::parse_transactions(&records), Err(LedgerError::MalformedRemoteData));
}

#[test]
fn block_record_with_all_members_decodes() {
    let ledger = node_with_chain(2, "a");
    assert_eq!(parse_block(&record_of(&ledger.chain[1])).as_ref(), Ok(&ledger.chain[1]));
}

#[test]
fn block_record_without_a_member_is_malformed() {
    let ledger = node_with_chain(2, "a");
    let block = &ledger.chain[1];
    let cases = vec![
        BlockRecord { index: None, ..record_of(block) },
        BlockRecord { transactions: None, ..record_of(block) },
        BlockRecord { timestamp: None, ..record_of(block) },
        BlockRecord { previous_hash: None, ..record_of(block) },
        BlockRecord { nonce: None, ..record_of(block) },
        BlockRecord { hash: None, ..record_of(block) },
        empty_record(),
    ];
    for case in cases {
        assert_eq!(parse_block(&case), Err(LedgerError::MalformedRemoteData));
    }
}

#[test]
fn block_record_with_a_malformed_transaction_is_malformed() {
    let ledger = node_with_chain(2, "a");
    let mut record = record_of(&ledger.chain[1]);
    record.transactions.as_mut().unwrap()[0].author = None;
    assert_eq!(parse_block(&record), Err(LedgerError::MalformedRemoteData));
}

#[test]
fn dump_of_a_chain_rebuilds_the_chain() {
    let source = node_with_chain(4, "a");
    let rebuilt = Blockchain::create_chain_from_dump(dump_of(&source), vec![]).unwrap();
    assert_eq!(rebuilt.chain, source.chain);
    assert_eq!(rebuilt.difficulty, 2);
    assert!(rebuilt.unconfirmed_transactions.is_empty());
    assert!(rebuilt.peers.is_empty());
    assert!(rebuilt.check_chain_validity());
    assert_eq!(Blockchain::replay_dump(&dump_of(&source)), Ok(rebuilt));
}

#[test]
fn rebuilt_ledger_has_one_peer_for_each_address() {
    let source = node_with_chain(2, "a");
    let addresses = vec!["http://a".to_string(), "http://b".to_string(), "http://a".to_string()];
    let rebuilt = Blockchain::create_chain_from_dump(dump_of(&source), addresses).unwrap();
    assert_eq!(
        rebuilt.peers,
        vec![
            NodePeer { node_address: "http://a".to_string() },
            NodePeer { node_address: "http://b".to_string() },
            NodePeer { node_address: "http://a".to_string() },
        ]
    );
}

#[test]
fn empty_dump_rebuilds_the_genesis_block_alone() {
    let rebuilt = Blockchain::create_chain_from_dump(vec![], vec![]).unwrap();
    assert_eq!(rebuilt, Blockchain::new_blockchain());
}

#[test]
fn first_record_of_a_dump_is_never_read() {
    let source = node_with_chain(3, "a");
    let mut dump = dump_of(&source);
    dump[0] = empty_record();
    let rebuilt = Blockchain::create_chain_from_dump(dump, vec![]).unwrap();
    assert_eq!(rebuilt.chain, source.chain);
    let forged = BlockRecord { hash: Some("forged".to_string()), ..record_of(&source.chain[0]) };
    let alone = Blockchain::create_chain_from_dump(vec![forged], vec![]).unwrap();
    assert_eq!(alone, Blockchain::new_blockchain());
}

#[test]
fn dump_with_a_malformed_record_does_not_rebuild() {
    let source = node_with_chain(3, "a");
    let mut dump = dump_of(&source);
    dump[2].nonce = None;
    assert_eq!(
        Blockchain::create_chain_from_dump(dump, vec![]),
        Err(LedgerError::MalformedRemoteData)
    );
}

#[test]
fn dump_with_a_missing_block_does_not_rebuild() {
    let source = node_with_chain(4, "a");
    let mut dump = dump_of(&source);
    dump.remove(1);
    assert_eq!(
        Blockchain::create_chain_from_dump(dump, vec![]),
        Err(LedgerError::PreviousHashMismatch)
    );
}

#[test]
fn dump_with_a_tampered_block_does_not_rebuild() {
    let source = node_with_chain(4, "a");
    let mut dump = dump_of(&source);
    dump[2].timestamp = Some(0);
    assert_eq!(Blockchain::create_chain_from_dump(dump, vec![]), Err(LedgerError::InvalidProof));
}

#[test]
fn replay_stops_at_the_first_record_that_fails() {
    let source = node_with_chain(4, "a");
    let mut dump = dump_of(&source);
    dump[1].timestamp = Some(0);
    dump[2].nonce = None;
    assert_eq!(Blockchain::create_chain_from_dump(dump, vec![]), Err(LedgerError::InvalidProof));
    let mut dump = dump_of(&source);
    dump[1].nonce = None;
    dump[2].timestamp = Some(0);
    assert_eq!(
        Blockchain::create_chain_from_dump(dump, vec![]),
        Err(LedgerError::MalformedRemoteData)
    );
}

#[test]
fn consensus_adopts_the_longest_valid_chain() {
    let mut a = node_with_chain(3, "a");
    a.add_new_transaction(note("a", "pending", 9));
    a.add_node_peer(NodePeer { node_address: "http://b".to_string() });
    a.add_node_peer(NodePeer { node_address: "http://c".to_string() });
    let b = node_with_chain(5, "b");
    let c = node_with_chain(6, "c");
    let mut invalid = dump_of(&c);
    invalid[3].transactions.as_mut().unwrap()[0].content = Some("forged".to_string());
    let replies = vec![Some(dump_of(&b)), Some(invalid)];
    assert!(a.consensus(&replies));
    assert_eq!(a.chain.len(), 5);
    assert_eq!(a.chain, b.chain);
    assert_eq!(a.unconfirmed_transactions, vec![note("a", "pending", 9)]);
    assert_eq!(a.peers.len(), 2);
    assert!(a.check_chain_validity());
}

#[test]
fn consensus_adopts_the_longest_valid_chain_in_either_order() {
    let mut a = node_with_chain(3, "a");
    let b = node_with_chain(5, "b");
    let c = node_with_chain(6, "c");
    let mut invalid = dump_of(&c);
    invalid[5].previous_hash = Some("nowhere".to_string());
    let replies = vec![Some(invalid), Some(dump_of(&b))];
    assert!(a.consensus(&replies));
    assert_eq!(a.chain, b.chain);
}

#[test]
fn consensus_keeps_the_local_chain_against_shorter_and_equal_chains() {
    let mut a = node_with_chain(3, "a");
    let before = node_with_chain(3, "a");
    let shorter = node_with_chain(2, "b");
    let equal = node_with_chain(3, "c");
    let replies = vec![Some(dump_of(&shorter)), Some(dump_of(&equal))];
    assert!(!a.consensus(&replies));
    assert_eq!(a, before);
}

#[test]
fn consensus_without_peers_changes_nothing() {
    let mut a = node_with_chain(2, "a");
    assert!(!a.consensus(&vec![]));
    assert_eq!(a, node_with_chain(2, "a"));
}

#[test]
fn consensus_skips_peers_that_gave_no_answer() {
    let mut a = node_with_chain(2, "a");
    let b = node_with_chain(3, "b");
    let replies = vec![None, Some(dump_of(&b)), None];
    assert!(a.consensus(&replies));
    assert_eq!(a.chain, b.chain);
    let mut alone = node_with_chain(2, "a");
    assert!(!alone.consensus(&vec![None, None]));
    assert_eq!(alone, node_with_chain(2, "a"));
}

#[test]
fn consensus_skips_malformed_dumps() {
    let mut a = node_with_chain(2, "a");
    let b = node_with_chain(4, "b");
    let mut malformed = dump_of(&b);
    malformed[1].hash = None;
    assert!(!a.consensus(&vec![Some(malformed)]));
    assert_eq!(a, node_with_chain(2, "a"));
}

#[test]
fn consensus_keeps_the_first_of_two_chains_of_equal_length() {
    let mut a = node_with_chain(2, "a");
    let b = node_with_chain(4, "b");
    let c = node_with_chain(4, "c");
    assert_ne!(b.chain, c.chain);
    let replies = vec![Some(dump_of(&b)), Some(dump_of(&c))];
    assert!(a.consensus(&replies));
    assert_eq!(a.chain, b.chain);
}

#[test]
fn consensus_lets_a_later_longer_chain_take_the_lead() {
    let mut a = node_with_chain(2, "a");
    let b = node_with_chain(3, "b");
    let c = node_with_chain(5, "c");
    let d = node_with_chain(4, "d");
    let replies = vec![Some(dump_of(&b)), Some(dump_of(&c)), Some(dump_of(&d))];
    assert!(a.consensus(&replies));
    assert_eq!(a.chain, c.chain);
}

#[test]
fn consensus_never_shortens_the_chain() {
    let mut a = node_with_chain(4, "a");
    let mut truncated = dump_of(&node_with_chain(6, "b"));
    truncated.truncate(3);
    assert!(!a.consensus(&vec![Some(truncated), Some(vec![]), None]));
    assert_eq!(a.chain.len(), 4);
}

#[test]
fn consensus_requests_go_to_each_peer_in_order() {
    let mut a = Blockchain::new_blockchain();
    assert!(a.consensus_requests().is_empty());
    a.add_node_peer(NodePeer { node_address: "http://b:1".to_string() });
    a.add_node_peer(NodePeer { node_address: "http://c:2".to_string() });
    assert_eq!(a.consensus_requests(), vec!["http://b:1/chain", "http://c:2/chain"]);
    assert_eq!(a.peer_endpoints(""), vec!["http://b:1", "http://c:2"]);
}

#[test]
fn announcement_carries_the_last_block_to_each_peer() {
    let mut a = node_with_chain(3, "a");
    a.add_node_peer(NodePeer { node_address: "http://b".to_string() });
    a.add_node_peer(NodePeer { node_address: "http://c".to_string() });
    a.add_node_peer(NodePeer { node_address: "http://b".to_string() });
    let announcement = a.announce_new_block();
    assert_eq!(announcement.block, a.chain[2]);
    assert_eq!(
        announcement.targets,
        vec!["http://b/add_block", "http://c/add_block", "http://b/add_block"]
    );
    assert_eq!(a, {
        let mut same = node_with_chain(3, "a");
        same.peers = vec![
            NodePeer { node_address: "http://b".to_string() },
            NodePeer { node_address: "http://c".to_string() },
            NodePeer { node_address: "http://b".to_string() },
        ];
        same
    });
}

#[test]
fn announcement_without_peers_has_no_target() {
    let a = Blockchain::new_blockchain();
    let announcement = a.announce_new_block();
    assert_eq!(announcement.block, a.chain[0]);
    assert!(announcement.targets.is_empty());
}

#[test]
fn registration_replaces_chain_and_peers() {
    let mut a = node_with_chain(2, "a");
    a.add_new_transaction(note("a", "pending", 9));
    a.add_node_peer(NodePeer { node_address: "http://old".to_string() });
    let b = node_with_chain(4, "b");
    let reply = RegistrationReply {
        chain: Some(dump_of(&b)),
        peers: Some(vec!["http://x".to_string(), "http://y".to_string()]),
    };
    assert_eq!(a.register_with(Some(reply)), Ok(()));
    assert_eq!(a.chain, b.chain);
    assert_eq!(
        a.peers,
        vec![
            NodePeer { node_address: "http://x".to_string() },
            NodePeer { node_address: "http://y".to_string() },
        ]
    );
    assert_eq!(a.unconfirmed_transactions, vec![note("a", "pending", 9)]);
    assert_eq!(a.difficulty, 2);
}

#[test]
fn registration_may_take_over_a_shorter_chain() {
    let mut a = node_with_chain(3, "a");
    let reply = RegistrationReply { chain: Some(vec![]), peers: Some(vec![]) };
    assert_eq!(a.register_with(Some(reply)), Ok(()));
    assert_eq!(a.chain.len(), 1);
    assert!(a.peers.is_empty());
}

#[test]
fn registration_without_an_answer_fails() {
    let mut a = node_with_chain(2, "a");
    a.add_node_peer(NodePeer { node_address: "http://old".to_string() });
    let mut before = node_with_chain(2, "a");
    before.add_node_peer(NodePeer { node_address: "http://old".to_string() });
    assert_eq!(a.register_with(None), Err(LedgerError::PeerUnreachable));
    assert_eq!(a, before);
}

#[test]
fn registration_with_an_incomplete_answer_fails() {
    let mut a = node_with_chain(2, "a");
    let b = node_with_chain(3, "b");
    let no_peers = RegistrationReply { chain: Some(dump_of(&b)), peers: None };
    assert_eq!(a.register_with(Some(no_peers)), Err(LedgerError::MalformedRemoteData));
    let no_chain = RegistrationReply { chain: None, peers: Some(vec![]) };
    assert_eq!(a.register_with(Some(no_chain)), Err(LedgerError::MalformedRemoteData));
    assert_eq!(a, node_with_chain(2, "a"));
}

#[test]
fn registration_with_a_dump_that_does_not_rebuild_fails() {
    let mut a = node_with_chain(2, "a");
    let b = node_with_chain(3, "b");
    let mut tampered = dump_of(&b);
    tampered[1].nonce = Some(0);
    let reply = RegistrationReply { chain: Some(tampered), peers: Some(vec!["http://x".to_string()]) };
    assert_eq!(a.register_with(Some(reply)), Err(LedgerError::InvalidProof));
    let mut unlinked = dump_of(&b);
    unlinked.swap(1, 2);
    let reply = RegistrationReply { chain: Some(unlinked), peers: Some(vec![]) };
    assert_eq!(a.register_with(Some(reply)), Err(LedgerError::PreviousHashMismatch));
    assert_eq!(a, node_with_chain(2, "a"));
}
