//! Blocks: content, the hash of that content, and the nonce search.
use vstd::prelude::*;
use vstd::string::*;

use crate::encode::{decimal, has_zero_prefix, hex_of, push_decimal, to_hex, zero_prefix};

verus! {

/// The SHA-256 digest of the UTF-8 bytes of a text.
pub uninterp spec fn sha256_of(text: Seq<char>) -> Seq<u8>;

/// Relies on sha2's `Sha256::digest`: the SHA-256 digest of the text's
/// UTF-8 bytes, which is 32 bytes long.
#[verifier::external_body]
fn sha256(text: &str) -> (r: Vec<u8>)
    ensures
        r@ == sha256_of(text@),
        r@.len() == 32,
{
    <sha2::Sha256 as sha2::Digest>::digest(text.as_bytes()).to_vec()
}

/// The text that a block's hash is taken of: the timestamp and the nonce in
/// decimal, around the payload and the previous hash.
pub open spec fn hash_input(timestamp: u64, data: Seq<char>, previous_hash: Seq<char>, nonce: u32) -> Seq<char> {
    decimal(timestamp as nat) + data + previous_hash + decimal(nonce as nat)
}

/// The hash of a block's content, as lowercase hexadecimal text.
pub open spec fn block_hash(timestamp: u64, data: Seq<char>, previous_hash: Seq<char>, nonce: u32) -> Seq<char> {
    hex_of(sha256_of(hash_input(timestamp, data, previous_hash, nonce)))
}

/// The number of leading zero digits that a mined block's hash has.
pub const DIFFICULTY: usize = 2;

/// Why a nonce search ended without a block that meets the target.
#[derive(Debug, Clone, Copy, PartialEq, Eq, Structural)]
pub enum MiningError {
    /// No nonce from the starting one up to the largest `u32` gives a hash
    /// that meets the target.
    Exhausted,
}

/// One entry of a chain.
#[derive(Debug, Clone)]
pub struct Block {
    pub timestamp: u64,
    pub data: String,
    pub previous_hash: String,
    /// Hexadecimal hash of the other fields; empty until computed.
    pub hash: String,
    pub nonce: u32,
}

impl Block {
    /// The hash that this block's content gives with nonce `n`.
    pub open spec fn hash_for(self, n: u32) -> Seq<char> {
        block_hash(self.timestamp, self.data@, self.previous_hash@, n)
    }

    /// The hash of this block's content with its own nonce.
    pub open spec fn content_hash(self) -> Seq<char> {
        self.hash_for(self.nonce)
    }

    /// Whether nonce `n` gives this block a hash that starts with
    /// `difficulty` zero digits.
    pub open spec fn meets_target(self, n: u32, difficulty: int) -> bool {
        has_zero_prefix(self.hash_for(n), difficulty)
    }

    /// Whether two blocks hold the same content and nonce.
    pub open spec fn same_content(self, other: Block) -> bool {
        &&& self.timestamp == other.timestamp
        &&& self.data@ == other.data@
        &&& self.previous_hash@ == other.previous_hash@
        &&& self.nonce == other.nonce
    }

    /// Whether this block is `start` after a successful search: same
    /// content, and the first nonce from `start`'s upward that meets the
    /// target, with its hash.
    pub open spec fn mined_from(self, start: Block, difficulty: int) -> bool {
        &&& self.timestamp == start.timestamp
        &&& self.data == start.data
        &&& self.previous_hash == start.previous_hash
        &&& self.hash@ == self.content_hash()
        &&& start.nonce <= self.nonce
        &&& start.meets_target(self.nonce, difficulty)
        &&& forall|n: u32|
            start.nonce <= n < self.nonce ==> !#[trigger] start.meets_target(n, difficulty)
    }

    /// A block with the given content, an empty hash and nonce 0.
    pub fn new(timestamp: u64, data: String, previous_hash: String) -> (b: Block)
        ensures
            b.timestamp == timestamp,
            b.data == data,
            b.previous_hash == previous_hash,
            b.hash@ == Seq::<char>::empty(),
            b.nonce == 0,
    {
        Block { timestamp, data, previous_hash, hash: String::new(), nonce: 0 }
    }

    /// Sets `hash` to the hash of the current content and nonce.
    pub fn compute_hash(&mut self)
        ensures
            final(self).timestamp == old(self).timestamp,
            final(self).data == old(self).data,
            final(self).previous_hash == old(self).previous_hash,
            final(self).nonce == old(self).nonce,
            final(self).hash@ == old(self).content_hash(),
    {
        let mut input = String::new();
        push_decimal(&mut input, self.timestamp);
        input.append(self.data.as_str());
        input.append(self.previous_hash.as_str());
        push_decimal(&mut input, self.nonce as u64);
        assert(input@ =~= hash_input(self.timestamp, self.data@, self.previous_hash@, self.nonce));
        let digest = sha256(input.as_str());
        self.hash = to_hex(&digest);
    }

    /// Searches the nonces upward from the current one for the first whose
    /// hash starts with `difficulty` zero digits, and leaves that nonce and
    /// its hash in the block. Where no nonce up to the largest `u32` does,
    /// the block keeps its nonce, with the matching hash, and the search
    /// fails.
    pub fn mine_block(&mut self, difficulty: usize) -> (r: Result<(), MiningError>)
        requires
            difficulty <= 64,
        ensures
            final(self).timestamp == old(self).timestamp,
            final(self).data == old(self).data,
            final(self).previous_hash == old(self).previous_hash,
            final(self).hash@ == final(self).content_hash(),
            r is Ok <==> exists|n: u32|
                old(self).nonce <= n && #[trigger] old(self).meets_target(n, difficulty as int),
            r is Ok ==> final(self).mined_from(*old(self), difficulty as int),
            r is Err ==> final(self).nonce == old(self).nonce,
    {
        let start = self.nonce;
        self.compute_hash();
        loop
            invariant
                self.timestamp == old(self).timestamp,
                self.data == old(self).data,
                self.previous_hash == old(self).previous_hash,
                start == old(self).nonce <= self.nonce,
                self.hash@ == self.content_hash(),
                forall|n: u32|
                    start <= n < self.nonce ==> !#[trigger] old(self).meets_target(
                        n,
                        difficulty as int,
                    ),
            decreases u32::MAX - self.nonce,
        {
            if zero_prefix(&self.hash, difficulty) {
                assert(old(self).meets_target(self.nonce, difficulty as int));
                return Ok(());
            }
            if self.nonce == u32::MAX {
                assert forall|n: u32|
                    start <= n implies !#[trigger] old(self).meets_target(n, difficulty as int) by {
                    if n == self.nonce {
                    }
                }
                self.nonce = start;
                self.compute_hash();
                return Err(MiningError::Exhausted);
            }
            self.nonce = self.nonce + 1;
            self.compute_hash();
        }
    }
}

/// The hash is a function of the content alone: two blocks with the same
/// timestamp, payload, previous hash and nonce get the same hash.
pub proof fn lemma_hash_deterministic(a: Block, b: Block)
    requires
        a.same_content(b),
    ensures
        a.content_hash() == b.content_hash(),
{
}

/// At difficulty 0 every hash qualifies: a search succeeds on its first
/// try and keeps the nonce it started with.
pub proof fn lemma_zero_difficulty(start: Block, mined: Block)
    ensures
        forall|n: u32| #[trigger] start.meets_target(n, 0),
        mined.mined_from(start, 0) ==> mined.nonce == start.nonce && mined.hash@
            == start.content_hash(),
{
    if mined.mined_from(start, 0) {
        if mined.nonce > start.nonce {
            assert(!start.meets_target(start.nonce, 0));
        }
    }
}

} // verus!
