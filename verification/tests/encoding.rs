use blockchain_node::block::{clone_blocks, clone_transactions, push_transactions_json, Block, Transaction};
use blockchain_node::clock::unix_time_now;
use blockchain_node::digest::{hex_string, sha256_hex};
use blockchain_node::error::LedgerError;
use blockchain_node::text::{digit_str, push_decimal, push_json_string, push_natural};

const GENESIS_HASH: &str = "070d497a294c71c77b08d8bfa70b4c4f0b457f97efefb47520cdfcb7bfed1301";

fn decimal(n: i64) -> String {
    let mut out = String::new();
    push_decimal(&mut out, n);
    out
}

fn transaction(author: &str, content: &str, timestamp: i64) -> Transaction {
    Transaction { author: author.to_string(), content: content.to_string(), timestamp }
}

fn genesis_seed() -> Block {
    Block {
        index: 0,
        transactions: vec![],
        timestamp: 0,
        previous_hash: "0".to_string(),
        nonce: 0,
        hash: String::new(),
    }
}

#[test]
fn digits_are_lower_case_hexadecimal() {
    let all: String = (0u8..16).map(digit_str).collect();
    assert_eq!(all, "0123456789abcdef");
}

#[test]
fn decimal_of_small_numbers() {
    assert_eq!(decimal(0), "0");
    assert_eq!(decimal(7), "7");
    assert_eq!(decimal(10), "10");
    assert_eq!(decimal(1700000100), "1700000100");
}

#[test]
fn decimal_of_negative_numbers() {
    assert_eq!(decimal(-1), "-1");
    assert_eq!(decimal(-120), "-120");
}

#[test]
fn decimal_of_the_extremes() {
    assert_eq!(decimal(i64::MAX), "9223372036854775807");
    assert_eq!(decimal(i64::MIN), "-9223372036854775808");
    let mut out = String::new();
    push_natural(&mut out, u64::MAX);
    assert_eq!(out, "18446744073709551615");
}

#[test]
fn decimal_is_appended_to_what_is_there() {
    let mut out = String::from("n=");
    push_decimal(&mut out, 42);
    assert_eq!(out, "n=42");
}

#[test]
fn decimal_agrees_with_the_standard_rendering() {
    for n in [0i64, 9, 10, 99, 100, 101, 65535, -65536, 1234567890123] {
        assert_eq!(decimal(n), n.to_string());
    }
}

#[test]
fn hex_of_bytes() {
    assert_eq!(hex_string(&[]), "");
    assert_eq!(hex_string(&[0x00, 0x0f, 0xa5, 0xff]), "000fa5ff");
}

#[test]
fn sha256_of_known_inputs() {
    assert_eq!(
        sha256_hex(b""),
        "e3b0c44298fc1c149afbf4c8996fb92427ae41e4649b934ca495991b7852b855"
    );
    assert_eq!(
        sha256_hex(b"abc"),
        "ba7816bf8f01cfea414140de5dae2223b00361a396177a9cb410ff61f20015ad"
    );
}

#[test]
fn json_string_of_plain_text_is_quoted() {
    let mut out = String::new();
    push_json_string(&mut out, "John");
    assert_eq!(out, "\"John\"");
}

#[test]
fn json_string_escapes_reserved_characters() {
    let mut out = String::from(":");
    push_json_string(&mut out, "Jo\"hn\\ line\nbreak\ttab\u{1}\u{e9}");
    assert_eq!(out, ":\"Jo\\\"hn\\\\ line\\nbreak\\ttab\\u0001\u{e9}\"");
}

#[test]
fn json_string_agrees_with_serde_json() {
    for text in ["", "a", "\"", "\\", "\u{8}\u{c}\r", "snow \u{2603}", "\u{7f}"] {
        let mut out = String::new();
        push_json_string(&mut out, text);
        assert_eq!(out, serde_json::to_string(text).unwrap());
    }
}

#[test]
fn json_string_escapes_every_control_character() {
    let mut out = String::new();
    push_json_string(&mut out, "\u{0}\u{7}\u{8}\u{b}\u{c}\u{1f} ");
    assert_eq!(out, "\"\\u0000\\u0007\\b\\u000b\\f\\u001f \"");
    for code in 0u32..0x100 {
        let text = char::from_u32(code).unwrap().to_string();
        let mut out = String::new();
        push_json_string(&mut out, &text);
        assert_eq!(out, serde_json::to_string(&text).unwrap());
    }
}

#[test]
fn clock_gives_the_seconds_since_1970() {
    let now = unix_time_now().expect("the clock of this machine stands after 1970");
    assert!(now > 1_700_000_000);
    let later = unix_time_now().unwrap();
    assert!(later >= now);
}

#[test]
fn transaction_json_has_its_members_in_order() {
    let mut out = String::new();
    transaction("John", "Hello, World!", 1700000000).push_json(&mut out);
    assert_eq!(
        out,
        "{\"author\":\"John\",\"content\":\"Hello, World!\",\"timestamp\":1700000000}"
    );
}

#[test]
fn transactions_json_is_separated_by_commas() {
    let mut out = String::new();
    push_transactions_json(&mut out, &vec![]);
    assert_eq!(out, "");
    push_transactions_json(&mut out, &vec![transaction("a", "b", 1)]);
    assert_eq!(out, "{\"author\":\"a\",\"content\":\"b\",\"timestamp\":1}");
    let mut two = String::new();
    push_transactions_json(&mut two, &vec![transaction("a", "b", 1), transaction("c", "d", -2)]);
    assert_eq!(
        two,
        "{\"author\":\"a\",\"content\":\"b\",\"timestamp\":1},{\"author\":\"c\",\"content\":\"d\",\"timestamp\":-2}"
    );
}

#[test]
fn block_json_of_the_genesis_seed() {
    assert_eq!(
        genesis_seed().to_json(),
        "{\"index\":0,\"transactions\":[],\"timestamp\":0,\"previous_hash\":\"0\",\"nonce\":0,\"hash\":\"\"}"
    );
}

#[test]
fn block_json_holds_the_stored_hash() {
    let block = Block {
        index: 1,
        transactions: vec![
            transaction("John", "Hello, World!", 1700000000),
            transaction("Alice", "Hey there!", 1700000000),
        ],
        timestamp: 1700000100,
        previous_hash: GENESIS_HASH.to_string(),
        nonce: 60,
        hash: "005c765854d76730818e17929374e24ce904419b7e13199738bbe8d3d40c0b16".to_string(),
    };
    assert_eq!(
        block.to_json(),
        "{\"index\":1,\"transactions\":[{\"author\":\"John\",\"content\":\"Hello, World!\",\"timestamp\":1700000000},{\"author\":\"Alice\",\"content\":\"Hey there!\",\"timestamp\":1700000000}],\"timestamp\":1700000100,\"previous_hash\":\"070d497a294c71c77b08d8bfa70b4c4f0b457f97efefb47520cdfcb7bfed1301\",\"nonce\":60,\"hash\":\"005c765854d76730818e17929374e24ce904419b7e13199738bbe8d3d40c0b16\"}"
    );
}

#[test]
fn genesis_hash_is_the_known_value() {
    assert_eq!(genesis_seed().compute_hash(), GENESIS_HASH);
}

#[test]
fn genesis_hash_is_the_same_on_every_call() {
    assert_eq!(genesis_seed().compute_hash(), genesis_seed().compute_hash());
}

#[test]
fn compute_hash_of_a_mined_block() {
    let block = Block {
        index: 1,
        transactions: vec![
            transaction("John", "Hello, World!", 1700000000),
            transaction("Alice", "Hey there!", 1700000000),
        ],
        timestamp: 1700000100,
        previous_hash: GENESIS_HASH.to_string(),
        nonce: 60,
        hash: String::new(),
    };
    assert_eq!(
        block.compute_hash(),
        "005c765854d76730818e17929374e24ce904419b7e13199738bbe8d3d40c0b16"
    );
}

#[test]
fn compute_hash_ignores_the_stored_hash() {
    let plain = genesis_seed();
    let stamped = plain.with_modified_hash("ffff");
    assert_eq!(stamped.compute_hash(), plain.compute_hash());
}

#[test]
fn compute_hash_is_the_sha256_of_the_text_with_an_empty_hash() {
    let block = Block {
        index: 3,
        transactions: vec![transaction("\u{e9}", "\"q\"", 9)],
        timestamp: -4,
        previous_hash: "ab".to_string(),
        nonce: 12,
        hash: "stored".to_string(),
    };
    let text = block.with_modified_hash("").to_json();
    assert_eq!(block.compute_hash(), sha256_hex(text.as_bytes()));
}

#[test]
fn compute_hash_changes_with_each_field() {
    let base = Block {
        index: 1,
        transactions: vec![transaction("a", "b", 1)],
        timestamp: 5,
        previous_hash: "p".to_string(),
        nonce: 7,
        hash: String::new(),
    };
    let h = base.compute_hash();
    let mut other = base.clone();
    other.index = 2;
    assert_ne!(other.compute_hash(), h);
    let mut other = base.clone();
    other.transactions[0].content = "c".to_string();
    assert_ne!(other.compute_hash(), h);
    let mut other = base.clone();
    other.timestamp = 6;
    assert_ne!(other.compute_hash(), h);
    let mut other = base.clone();
    other.previous_hash = "q".to_string();
    assert_ne!(other.compute_hash(), h);
    let mut other = base.clone();
    other.nonce = 8;
    assert_ne!(other.compute_hash(), h);
}

#[test]
fn with_modified_hash_replaces_only_the_hash() {
    let block = Block {
        index: 4,
        transactions: vec![transaction("a", "b", 1)],
        timestamp: 5,
        previous_hash: "p".to_string(),
        nonce: 7,
        hash: "old".to_string(),
    };
    let copy = block.with_modified_hash("new");
    assert_eq!(copy.hash, "new");
    assert_eq!(copy.index, 4);
    assert_eq!(copy.transactions, block.transactions);
    assert_eq!(copy.timestamp, 5);
    assert_eq!(copy.previous_hash, "p");
    assert_eq!(copy.nonce, 7);
    assert_eq!(block.hash, "old");
}

#[test]
fn clones_are_equal_to_their_originals() {
    let block = Block {
        index: 4,
        transactions: vec![transaction("a", "b", 1), transaction("c", "d", 2)],
        timestamp: 5,
        previous_hash: "p".to_string(),
        nonce: 7,
        hash: "h".to_string(),
    };
    assert_eq!(block.clone(), block);
    assert_eq!(clone_transactions(&block.transactions), block.transactions);
    let blocks = vec![block.clone(), genesis_seed()];
    assert_eq!(clone_blocks(&blocks), blocks);
}

#[test]
fn every_refusal_has_its_message() {
    assert_eq!(LedgerError::InvalidInput.message(), "Invalid input");
    assert_eq!(LedgerError::PreviousHashMismatch.message(), "Previous hash incorrect");
    assert_eq!(LedgerError::InvalidProof.message(), "Block proof invalid");
    assert_eq!(LedgerError::MalformedRemoteData.message(), "Malformed remote data");
    assert_eq!(LedgerError::PeerUnreachable.message(), "Peer unreachable");
    assert_eq!(LedgerError::NonceSpaceExhausted.message(), "Nonce space exhausted");
    assert_eq!(LedgerError::IndexSpaceExhausted.message(), "Index space exhausted");
    assert_eq!(LedgerError::ClockUnavailable.message(), "Clock unavailable");
}
