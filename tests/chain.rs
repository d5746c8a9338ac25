use minichain::block::{Block, MiningError, DIFFICULTY};
use minichain::chain::Blockchain;
use minichain::encode::{digit, push_decimal, to_hex, zero_prefix};
use sha2::{Digest, Sha256};

fn reference_hash(timestamp: u64, data: &str, previous_hash: &str, nonce: u32) -> String {
    let input = format!("{}{}{}{}", timestamp, data, previous_hash, nonce);
    format!("{:x}", Sha256::digest(input.as_bytes()))
}

#[test]
fn fresh_chain_holds_genesis_alone() {
    let c = Blockchain::new();
    assert_eq!(c.chain.len(), 1);
    assert_eq!(c.chain[0].data, "Genesis Block");
    assert_eq!(c.chain[0].previous_hash, "0");
    assert_eq!(c.chain[0].timestamp, 0);
    assert_eq!(c.chain[0].hash, "");
    assert_eq!(c.chain[0].nonce, 0);
}

#[test]
fn new_block_is_unhashed() {
    let b = Block::new(7, "payload".to_owned(), "abc".to_owned());
    assert_eq!(b.timestamp, 7);
    assert_eq!(b.data, "payload");
    assert_eq!(b.previous_hash, "abc");
    assert_eq!(b.hash, "");
    assert_eq!(b.nonce, 0);
}

#[test]
fn first_block_mined_at_difficulty_two() {
    let mut b = Block::new(0, "First Block Data".to_owned(), "0".to_owned());
    assert_eq!(b.mine_block(2), Ok(()));
    assert!(b.hash.starts_with("00"));
    let mut again = Block::new(0, "First Block Data".to_owned(), "0".to_owned());
    again.nonce = b.nonce;
    again.compute_hash();
    assert_eq!(again.hash, b.hash);
    assert_eq!(b.hash, reference_hash(0, "First Block Data", "0", b.nonce));
}

#[test]
fn mined_nonce_is_the_first_that_qualifies() {
    let mut b = Block::new(1, "Second Block Data".to_owned(), "00ab".to_owned());
    assert_eq!(b.mine_block(DIFFICULTY), Ok(()));
    assert!(b.hash.starts_with("00"));
    for n in 0..b.nonce {
        assert!(!reference_hash(1, "Second Block Data", "00ab", n).starts_with("00"));
    }
}

#[test]
fn mining_at_difficulty_one() {
    let mut b = Block::new(3, "x".to_owned(), "y".to_owned());
    assert_eq!(b.mine_block(1), Ok(()));
    assert!(b.hash.starts_with('0'));
    for n in 0..b.nonce {
        assert!(!reference_hash(3, "x", "y", n).starts_with('0'));
    }
}

#[test]
fn mining_at_difficulty_zero_takes_no_step() {
    let mut b = Block::new(9, "any".to_owned(), "thing".to_owned());
    assert_eq!(b.mine_block(0), Ok(()));
    assert_eq!(b.nonce, 0);
    assert_eq!(b.hash, reference_hash(9, "any", "thing", 0));
}

#[test]
fn mining_starts_at_the_current_nonce() {
    let mut b = Block::new(2, "d".to_owned(), "p".to_owned());
    b.nonce = 1000;
    assert_eq!(b.mine_block(1), Ok(()));
    assert!(b.nonce >= 1000);
    assert!(b.hash.starts_with('0'));
    for n in 1000..b.nonce {
        assert!(!reference_hash(2, "d", "p", n).starts_with('0'));
    }
}

#[test]
fn mining_exhausted_keeps_the_nonce() {
    let mut b = Block::new(4, "last".to_owned(), "nonce".to_owned());
    b.nonce = u32::MAX;
    assert_eq!(b.mine_block(64), Err(MiningError::Exhausted));
    assert_eq!(b.nonce, u32::MAX);
    assert_eq!(b.hash, reference_hash(4, "last", "nonce", u32::MAX));
}

#[test]
fn compute_hash_is_sha256_of_the_fields() {
    let mut b = Block::new(1234567890, "data".to_owned(), "prev".to_owned());
    b.nonce = 42;
    b.compute_hash();
    assert_eq!(b.hash.len(), 64);
    assert_eq!(b.hash, reference_hash(1234567890, "data", "prev", 42));
}

#[test]
fn compute_hash_is_deterministic() {
    let mut a = Block::new(5, "same".to_owned(), "inputs".to_owned());
    let mut b = Block::new(5, "same".to_owned(), "inputs".to_owned());
    a.nonce = 17;
    b.nonce = 17;
    a.compute_hash();
    b.compute_hash();
    assert_eq!(a.hash, b.hash);
    a.compute_hash();
    assert_eq!(a.hash, b.hash);
}

#[test]
fn compute_hash_changes_with_the_nonce() {
    let mut a = Block::new(5, "same".to_owned(), "inputs".to_owned());
    a.compute_hash();
    let first = a.hash.clone();
    a.nonce = 1;
    a.compute_hash();
    assert_ne!(a.hash, first);
}

#[test]
fn empty_fields_hash() {
    let mut b = Block::new(0, String::new(), String::new());
    b.compute_hash();
    assert_eq!(b.hash, reference_hash(0, "", "", 0));
}

#[test]
fn appends_keep_earlier_blocks() {
    let mut c = Blockchain::new();
    let mut first = Block::new(0, "First Block Data".to_owned(), "0".to_owned());
    first.mine_block(DIFFICULTY).unwrap();
    let first_hash = first.hash.clone();
    c.add_block(first);
    assert_eq!(c.chain.len(), 2);
    let mut second = Block::new(1, "Second Block Data".to_owned(), c.chain[1].hash.clone());
    second.mine_block(DIFFICULTY).unwrap();
    c.add_block(second);
    c.add_block(Block::new(2, "unmined".to_owned(), "none".to_owned()));
    assert_eq!(c.chain.len(), 4);
    assert_eq!(c.chain[0].data, "Genesis Block");
    assert_eq!(c.chain[1].hash, first_hash);
    assert_eq!(c.chain[2].previous_hash, first_hash);
    assert_eq!(c.chain[2].data, "Second Block Data");
    assert_eq!(c.chain[3].data, "unmined");
}

#[test]
fn decimal_numerals() {
    for n in [0u64, 7, 10, 99, 1234567890, u64::MAX] {
        let mut s = "x".to_owned();
        push_decimal(&mut s, n);
        assert_eq!(s, format!("x{}", n));
    }
}

#[test]
fn hex_text_of_bytes() {
    assert_eq!(to_hex(&vec![]), "");
    assert_eq!(to_hex(&vec![0x00, 0x0f, 0xa5, 0xff]), "000fa5ff");
    assert_eq!(digit(11), 'b');
}

#[test]
fn zero_prefix_cases() {
    assert!(zero_prefix(&"00ab".to_owned(), 0));
    assert!(zero_prefix(&"00ab".to_owned(), 2));
    assert!(!zero_prefix(&"00ab".to_owned(), 3));
    assert!(!zero_prefix(&"00".to_owned(), 3));
    assert!(zero_prefix(&String::new(), 0));
}
