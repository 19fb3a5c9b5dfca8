//! Blocks: records chained by the digest of their content, and the search
//! for a nonce that gives that digest enough leading zeros.

use crate::clock::unix_seconds;
use crate::digest::{digest_of_text, lemma_digest_len, text_digest, DIGEST_CHARS};
use crate::errors::{Error, Fault};
use crate::text::{decimal, push_decimal, same_text};
use crate::transaction::{
    push_transactions, transactions_text, views_of, Transaction, TransactionView,
};
use vstd::prelude::*;

verus! {

/// One record of the ledger.
#[derive(Debug, PartialEq)]
pub struct Block {
    /// Position in the chain; the genesis block has index 0.
    pub index: u64,
    /// Seconds since the Unix epoch at which the block was made.
    pub timestamp: u64,
    /// The hash of the block before this one.
    pub previous_hash: String,
    /// The digest of the other fields, once the block is mined.
    pub hash: String,
    pub transactions: Vec<Transaction>,
    /// The number that mining varies.
    pub nonce: u64,
}

/// The mathematical content of a [`Block`].
pub struct BlockView {
    pub index: nat,
    pub timestamp: nat,
    pub previous_hash: Seq<char>,
    pub hash: Seq<char>,
    pub transactions: Seq<TransactionView>,
    pub nonce: nat,
}

impl View for Block {
    type V = BlockView;

    open spec fn view(&self) -> BlockView {
        BlockView {
            index: self.index as nat,
            timestamp: self.timestamp as nat,
            previous_hash: self.previous_hash@,
            hash: self.hash@,
            transactions: views_of(self.transactions@),
            nonce: self.nonce as nat,
        }
    }
}

/// The difficulty predicate: `hash` starts with at least `difficulty`
/// characters `'0'`.
pub open spec fn leading_zeros(hash: Seq<char>, difficulty: nat) -> bool {
    &&& difficulty <= hash.len()
    &&& forall|i: int| 0 <= i < difficulty ==> hash[i] == '0'
}

impl BlockView {
    /// The text that is hashed: index, timestamp, previous hash,
    /// transactions and nonce, one after the other. The stored hash is no
    /// part of it.
    pub open spec fn preimage(self) -> Seq<char> {
        decimal(self.index) + decimal(self.timestamp) + self.previous_hash + transactions_text(
            self.transactions,
        ) + decimal(self.nonce)
    }

    /// The digest of the block's content.
    pub open spec fn digest(self) -> Seq<char> {
        text_digest(self.preimage())
    }

    /// The block with another nonce.
    pub open spec fn with_nonce(self, nonce: nat) -> BlockView {
        BlockView { nonce, ..self }
    }

    /// The block with another nonce and the hash that belongs to it.
    pub open spec fn sealed(self, nonce: nat) -> BlockView {
        BlockView { nonce, hash: self.with_nonce(nonce).digest(), ..self }
    }

    /// A fresh block: nonce 0 and the hash that belongs to it.
    pub open spec fn draft(
        index: nat,
        timestamp: nat,
        previous_hash: Seq<char>,
        transactions: Seq<TransactionView>,
    ) -> BlockView {
        BlockView {
            index,
            timestamp,
            previous_hash,
            hash: Seq::empty(),
            transactions,
            nonce: 0,
        }.sealed(0)
    }

    /// With `nonce`, the block's digest meets the difficulty.
    pub open spec fn solves(self, nonce: nat, difficulty: nat) -> bool {
        leading_zeros(self.with_nonce(nonce).digest(), difficulty)
    }

    /// No nonce that fits in 64 bits meets the difficulty.
    pub open spec fn unminable(self, difficulty: nat) -> bool {
        forall|n: nat| n <= u64::MAX ==> !#[trigger] self.solves(n, difficulty)
    }

    /// `self` is what mining makes of `draft`: the same block with the
    /// least nonce that meets the difficulty, and the hash that belongs to
    /// it.
    pub open spec fn mined_from(self, draft: BlockView, difficulty: nat) -> bool {
        &&& self.nonce <= u64::MAX
        &&& self == draft.sealed(self.nonce)
        &&& draft.solves(self.nonce, difficulty)
        &&& forall|n: nat| n < self.nonce ==> !#[trigger] draft.solves(n, difficulty)
    }

    /// The stored hash is the digest of the content.
    pub open spec fn consistent(self) -> bool {
        self.hash == self.digest()
    }

    /// The block is consistent and its hash meets the difficulty.
    pub open spec fn mined(self, difficulty: nat) -> bool {
        self.consistent() && leading_zeros(self.hash, difficulty)
    }

    /// What is wrong with the block as the successor of a block with hash
    /// `expected_previous`, if anything: a wrong link is reported before a
    /// hash that misses the difficulty, and that before a hash that is not
    /// the digest of the content.
    pub open spec fn fault(self, expected_previous: Seq<char>, difficulty: nat) -> Option<Fault> {
        if self.previous_hash != expected_previous {
            Some(
                Fault::InvalidPreviousHash {
                    index: self.index,
                    actual: self.previous_hash,
                    expected: expected_previous,
                },
            )
        } else if !leading_zeros(self.hash, difficulty) {
            Some(Fault::UnsatisfiedDifficulty { index: self.index, difficulty })
        } else if !self.consistent() {
            Some(Fault::InvalidHash { index: self.index, hash: self.hash })
        } else {
            None
        }
    }

    /// The one-line description of the block.
    pub open spec fn description(self) -> Seq<char> {
        "Block [index: "@ + decimal(self.index) + ", timestamp: "@ + decimal(self.timestamp)
            + ", previous_hash: "@ + self.previous_hash + ", hash: "@ + self.hash
            + ", transactions: "@ + transactions_text(self.transactions) + ", nonce: "@ + decimal(
            self.nonce,
        ) + "]"@
    }
}

/// Tells whether `hash` meets the difficulty.
pub fn has_leading_zeros(hash: &str, difficulty: usize) -> (met: bool)
    ensures
        met == leading_zeros(hash@, difficulty as nat),
{
    let len = hash.unicode_len();
    if len < difficulty {
        return false;
    }
    let mut i: usize = 0;
    while i < difficulty
        invariant
            i <= difficulty <= hash@.len(),
            forall|j: int| 0 <= j < i ==> hash@[j] == '0',
        decreases difficulty - i,
    {
        if hash.get_char(i) != '0' {
            return false;
        }
        i += 1;
    }
    true
}

impl Clone for Block {
    fn clone(&self) -> (copy: Block)
        ensures
            copy@ == self@,
    {
        let transactions = self.transactions.clone();
        assert(views_of(transactions@) =~= views_of(self.transactions@));
        Block {
            index: self.index,
            timestamp: self.timestamp,
            previous_hash: self.previous_hash.clone(),
            hash: self.hash.clone(),
            transactions,
            nonce: self.nonce,
        }
    }
}

impl Block {
    /// Makes a fresh block at the present time: nonce 0, and the hash that
    /// belongs to it.
    pub fn new(index: u64, previous_hash: String, transactions: Vec<Transaction>) -> (block: Block)
        ensures
            block@ == BlockView::draft(
                index as nat,
                block@.timestamp,
                previous_hash@,
                views_of(transactions@),
            ),
    {
        Block::with_timestamp(index, unix_seconds(), previous_hash, transactions)
    }

    /// Makes a fresh block with the given timestamp: nonce 0, and the hash
    /// that belongs to it.
    pub fn with_timestamp(
        index: u64,
        timestamp: u64,
        previous_hash: String,
        transactions: Vec<Transaction>,
    ) -> (block: Block)
        ensures
            block@ == BlockView::draft(
                index as nat,
                timestamp as nat,
                previous_hash@,
                views_of(transactions@),
            ),
    {
        let mut block = Block {
            index,
            timestamp,
            previous_hash,
            hash: String::new(),
            transactions,
            nonce: 0,
        };
        let hash = block.compute_hash();
        block.hash = hash;
        block
    }

    /// The digest that the block would have with `nonce`.
    fn digest_with_nonce(&self, nonce: u64) -> (hash: String)
        ensures
            hash@ == self@.with_nonce(nonce as nat).digest(),
            hash@.len() == DIGEST_CHARS,
    {
        let mut text = String::new();
        push_decimal(&mut text, self.index);
        push_decimal(&mut text, self.timestamp);
        text.append(self.previous_hash.as_str());
        push_transactions(&mut text, &self.transactions);
        push_decimal(&mut text, nonce);
        assert(text@ =~= self@.with_nonce(nonce as nat).preimage());
        digest_of_text(text.as_str())
    }

    /// The digest of the block's content, whatever hash it carries.
    pub fn compute_hash(&self) -> (hash: String)
        ensures
            hash@ == self@.digest(),
            hash@.len() == DIGEST_CHARS,
    {
        assert(self@.with_nonce(self.nonce as nat) == self@);
        self.digest_with_nonce(self.nonce)
    }

    /// Searches the nonces from 0 upward for the first whose digest meets
    /// `difficulty`, and stores it with its digest. If no nonce of 64 bits
    /// does, the block is left as it was and the difficulty is reported as
    /// unsatisfied; a difficulty above the length of a digest is reported
    /// so at once.
    pub fn mine_block(&mut self, difficulty: usize) -> (outcome: Result<(), Error>)
        ensures
            match outcome {
                Ok(()) => final(self)@.mined_from(old(self)@, difficulty as nat),
                Err(e) => {
                    &&& old(self)@.unminable(difficulty as nat)
                    &&& e@ == Fault::UnsatisfiedDifficulty {
                        index: old(self)@.index,
                        difficulty: difficulty as nat,
                    }
                    &&& *final(self) == *old(self)
                },
            },
    {
        let ghost draft = self@;
        if difficulty > DIGEST_CHARS {
            proof {
                assert forall|n: nat| n <= u64::MAX implies !#[trigger] draft.solves(
                    n,
                    difficulty as nat,
                ) by {
                    lemma_digest_len(draft.with_nonce(n).preimage());
                }
            }
            return Err(Error::UnsatisfiedHashDifficulty(self.index, difficulty));
        }
        let mut nonce: u64 = 0;
        loop
            invariant
                *self == *old(self),
                draft == old(self)@,
                forall|n: nat| n < nonce ==> !#[trigger] draft.solves(n, difficulty as nat),
            decreases u64::MAX - nonce,
        {
            let hash = self.digest_with_nonce(nonce);
            if has_leading_zeros(hash.as_str(), difficulty) {
                self.nonce = nonce;
                self.hash = hash;
                assert(self@ == draft.sealed(nonce as nat));
                return Ok(());
            }
            if nonce == u64::MAX {
                return Err(Error::UnsatisfiedHashDifficulty(self.index, difficulty));
            }
            nonce += 1;
        }
    }

    /// Checks the block as the successor of a block with hash
    /// `previous_hash`: the link, then the difficulty, then the hash
    /// against the content. The first check that fails gives the error.
    pub fn validate(&self, previous_hash: &str, difficulty: usize) -> (outcome: Result<(), Error>)
        ensures
            match outcome {
                Ok(()) => self@.fault(previous_hash@, difficulty as nat) is None,
                Err(e) => self@.fault(previous_hash@, difficulty as nat) == Some(e@),
            },
    {
        if !same_text(self.previous_hash.as_str(), previous_hash) {
            return Err(
                Error::BlockHasInvalidPreviusBlockHash(
                    self.index,
                    self.previous_hash.clone(),
                    String::from_str(previous_hash),
                ),
            );
        }
        if !has_leading_zeros(self.hash.as_str(), difficulty) {
            return Err(Error::UnsatisfiedHashDifficulty(self.index, difficulty));
        }
        let expected = self.compute_hash();
        if !same_text(self.hash.as_str(), expected.as_str()) {
            return Err(Error::BlockHasInvalidHash(self.index, self.hash.clone()));
        }
        Ok(())
    }

    /// The one-line description of the block, for display.
    pub fn to_string(&self) -> (line: String)
        ensures
            line@ == self@.description(),
    {
        let mut line = String::from_str("Block [index: ");
        push_decimal(&mut line, self.index);
        line.append(", timestamp: ");
        push_decimal(&mut line, self.timestamp);
        line.append(", previous_hash: ");
        line.append(self.previous_hash.as_str());
        line.append(", hash: ");
        line.append(self.hash.as_str());
        line.append(", transactions: ");
        push_transactions(&mut line, &self.transactions);
        line.append(", nonce: ");
        push_decimal(&mut line, self.nonce);
        line.append("]");
        assert(line@ =~= self@.description());
        line
    }
}

/// What mining makes of a draft meets the difficulty, carries the digest of
/// its content, and is a faultless successor of the block whose hash the
/// draft names.
pub proof fn lemma_mined_block_is_faultless(block: BlockView, draft: BlockView, difficulty: nat)
    requires
        block.mined_from(draft, difficulty),
    ensures
        block.mined(difficulty),
        block.fault(draft.previous_hash, difficulty) is None,
{
}

/// Mining has one outcome: two blocks that mining could make of the same
/// draft at the same difficulty are the same block.
pub proof fn lemma_mining_is_deterministic(
    first: BlockView,
    second: BlockView,
    draft: BlockView,
    difficulty: nat,
)
    requires
        first.mined_from(draft, difficulty),
        second.mined_from(draft, difficulty),
    ensures
        first == second,
{
    if first.nonce < second.nonce {
        assert(!draft.solves(first.nonce, difficulty));
    } else if second.nonce < first.nonce {
        assert(!draft.solves(second.nonce, difficulty));
    }
}

} // verus!
