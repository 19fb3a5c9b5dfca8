//! The chain: an ordered sequence of blocks with a difficulty, which grows
//! by mining and is replaced only by a strictly longer chain that
//! validates.

use crate::block::{Block, BlockView};
use crate::chain_lemmas::{
    lemma_push_keeps_valid, lemma_push_keeps_well_formed, lemma_well_formed_validates,
};
use crate::clock::unix_seconds;
use crate::errors::{Error, Fault};
use crate::transaction::{views_of, Transaction, TransactionView};
use vstd::prelude::*;

verus! {

/// A sequence of blocks, the genesis block first, and the difficulty that
/// their hashes are held to.
#[derive(Debug, PartialEq)]
pub struct Blockchain {
    pub chain: Vec<Block>,
    pub difficulty: usize,
}

/// The mathematical content of a [`Blockchain`].
pub struct ChainView {
    pub blocks: Seq<BlockView>,
    pub difficulty: nat,
}

/// The views of a sequence of blocks, in the same order.
pub open spec fn block_views(blocks: Seq<Block>) -> Seq<BlockView> {
    Seq::new(blocks.len(), |i: int| blocks[i]@)
}

impl View for Blockchain {
    type V = ChainView;

    open spec fn view(&self) -> ChainView {
        ChainView { blocks: block_views(self.chain@), difficulty: self.difficulty as nat }
    }
}

impl ChainView {
    /// What is wrong with the block at `i` as the successor of the block
    /// before it, if anything.
    pub open spec fn link_fault(self, i: int) -> Option<Fault>
        recommends
            1 <= i < self.blocks.len(),
    {
        self.blocks[i].fault(self.blocks[i - 1].hash, self.difficulty)
    }

    /// The chain validates: it is not empty, and every block after the
    /// first is a faultless successor of the block before it.
    pub open spec fn valid(self) -> bool {
        &&& self.blocks.len() > 0
        &&& forall|i: int| 1 <= i < self.blocks.len() ==> self.link_fault(i) is None
    }

    /// The block at `i` is the first, in a walk from the second block to
    /// the last, that is at fault.
    pub open spec fn first_fault_at(self, i: int) -> bool {
        &&& 1 <= i < self.blocks.len()
        &&& self.link_fault(i) is Some
        &&& forall|j: int| 1 <= j < i ==> self.link_fault(j) is None
    }

    /// `fault` is what validation reports of a chain that does not
    /// validate: that it is empty, or the fault of the first block at
    /// fault.
    pub open spec fn reports(self, fault: Fault) -> bool {
        if self.blocks.len() == 0 {
            fault == Fault::ChainIsEmpty
        } else {
            exists|i: int| self.first_fault_at(i) && self.link_fault(i) == Some(fault)
        }
    }

    /// The fresh genesis block of a chain made at `timestamp`: index 0, no
    /// transactions, and `"0"` in place of a predecessor's hash.
    pub open spec fn genesis_draft(timestamp: nat) -> BlockView {
        BlockView::draft(0, timestamp, "0"@, Seq::empty())
    }

    /// The fresh block that would follow the last block of this chain.
    pub open spec fn next_draft(
        self,
        timestamp: nat,
        transactions: Seq<TransactionView>,
    ) -> BlockView
        recommends
            self.blocks.len() > 0,
    {
        BlockView::draft(
            self.blocks.last().index + 1,
            timestamp,
            self.blocks.last().hash,
            transactions,
        )
    }

    /// The index after that of the last block, if there is one, fits in 64
    /// bits.
    pub open spec fn has_room(self) -> bool {
        self.blocks.len() > 0 ==> self.blocks.last().index < u64::MAX
    }

    /// The chain with the block at `k` exchanged for `forged`.
    pub open spec fn tampered(self, k: int, forged: BlockView) -> ChainView
        recommends
            0 <= k < self.blocks.len(),
    {
        ChainView { blocks: self.blocks.update(k, forged), ..self }
    }

    /// The chain with one more block at its end.
    pub open spec fn push(self, block: BlockView) -> ChainView {
        ChainView { blocks: self.blocks.push(block), ..self }
    }

    /// The block at `i` sits at its index, is mined at the chain's
    /// difficulty and, unless it is the first, names the hash of the block
    /// before it.
    pub open spec fn in_place(self, i: int) -> bool
        recommends
            0 <= i < self.blocks.len(),
    {
        &&& self.blocks[i].index == i
        &&& self.blocks[i].mined(self.difficulty)
        &&& i > 0 ==> self.blocks[i].previous_hash == self.blocks[i - 1].hash
    }

    /// The invariants of a chain that was built by mining alone: it starts
    /// with a genesis block, every block sits at its index and is mined at
    /// the chain's difficulty, and every block after the first names the
    /// hash of the block before it.
    pub open spec fn well_formed(self) -> bool {
        &&& self.blocks.len() > 0
        &&& self.blocks[0].previous_hash == "0"@
        &&& forall|i: int| 0 <= i < self.blocks.len() ==> #[trigger] self.in_place(i)
    }
}

impl Clone for Blockchain {
    fn clone(&self) -> (copy: Blockchain)
        ensures
            copy@ == self@,
    {
        let chain = self.chain.clone();
        assert(block_views(chain@) =~= block_views(self.chain@));
        Blockchain { chain, difficulty: self.difficulty }
    }
}

impl Blockchain {
    /// Makes a chain of one block: the genesis block, made at the present
    /// time and mined at `difficulty`. Fails where no nonce meets the
    /// difficulty.
    pub fn new(difficulty: usize) -> (outcome: Result<Blockchain, Error>)
        ensures
            match outcome {
                Ok(chain) => {
                    &&& chain@.difficulty == difficulty
                    &&& chain@.blocks.len() == 1
                    &&& chain@.blocks[0].mined_from(
                        ChainView::genesis_draft(chain@.blocks[0].timestamp),
                        difficulty as nat,
                    )
                    &&& chain@.well_formed()
                },
                Err(e) => {
                    &&& exists|t: nat|
                        t <= u64::MAX && (#[trigger] ChainView::genesis_draft(t)).unminable(
                            difficulty as nat,
                        )
                    &&& e@ == Fault::UnsatisfiedDifficulty {
                        index: 0,
                        difficulty: difficulty as nat,
                    }
                },
            },
    {
        let now = unix_seconds();
        let outcome = Blockchain::with_genesis_at(difficulty, now);
        proof {
            if outcome is Err {
                assert(ChainView::genesis_draft(now as nat).unminable(difficulty as nat));
            }
        }
        outcome
    }

    /// Makes a chain of one block: the genesis block with the given
    /// timestamp, mined at `difficulty`. Fails if and only if no nonce
    /// meets the difficulty.
    pub fn with_genesis_at(difficulty: usize, timestamp: u64) -> (outcome: Result<
        Blockchain,
        Error,
    >)
        ensures
            match outcome {
                Ok(chain) => {
                    &&& chain@.difficulty == difficulty
                    &&& chain@.blocks.len() == 1
                    &&& chain@.blocks[0].mined_from(
                        ChainView::genesis_draft(timestamp as nat),
                        difficulty as nat,
                    )
                    &&& chain@.well_formed()
                },
                Err(e) => {
                    &&& ChainView::genesis_draft(timestamp as nat).unminable(difficulty as nat)
                    &&& e@ == Fault::UnsatisfiedDifficulty {
                        index: 0,
                        difficulty: difficulty as nat,
                    }
                },
            },
    {
        let mut genesis = Block::with_timestamp(0, timestamp, String::from_str("0"), Vec::new());
        assert(views_of(Seq::<Transaction>::empty()) =~= Seq::<TransactionView>::empty());
        match genesis.mine_block(difficulty) {
            Ok(()) => {
                let mut chain: Vec<Block> = Vec::new();
                chain.push(genesis);
                let made = Blockchain { chain, difficulty };
                assert(made@.blocks =~= seq![genesis@]);
                Ok(made)
            },
            Err(e) => Err(e),
        }
    }

    /// Makes a block of `transactions` at the present time, linked to the
    /// last block, mines it at the chain's difficulty and appends it.
    /// Returns the new last block. Fails on a chain without blocks, and
    /// where no nonce meets the difficulty; the chain is then left as it
    /// was.
    pub fn add_block(&mut self, transactions: Vec<Transaction>) -> (outcome: Result<&Block, Error>)
        requires
            old(self)@.has_room(),
        ensures
            match outcome {
                Ok(block) => {
                    &&& old(self)@.blocks.len() > 0
                    &&& block@.mined_from(
                        old(self)@.next_draft(block@.timestamp, views_of(transactions@)),
                        old(self)@.difficulty,
                    )
                    &&& final(self)@ == old(self)@.push(block@)
                    &&& old(self)@.valid() ==> final(self)@.valid()
                    &&& old(self)@.well_formed() ==> final(self)@.well_formed()
                },
                Err(e) => {
                    &&& *final(self) == *old(self)
                    &&& if old(self)@.blocks.len() == 0 {
                        e@ == Fault::ChainIsEmpty
                    } else {
                        &&& exists|t: nat|
                            t <= u64::MAX && (#[trigger] old(self)@.next_draft(
                                t,
                                views_of(transactions@),
                            )).unminable(old(self)@.difficulty)
                        &&& e@ == Fault::UnsatisfiedDifficulty {
                            index: old(self)@.blocks.last().index + 1,
                            difficulty: old(self)@.difficulty,
                        }
                    }
                },
            },
    {
        let now = unix_seconds();
        let ghost before = self@;
        let ghost listed = views_of(transactions@);
        let outcome = self.add_block_at(transactions, now);
        proof {
            if outcome is Err && before.blocks.len() > 0 {
                assert(before.next_draft(now as nat, listed).unminable(before.difficulty));
            }
        }
        outcome
    }

    /// Makes a block of `transactions` with the given timestamp, linked to
    /// the last block, mines it at the chain's difficulty and appends it.
    /// Returns the new last block. Fails on a chain without blocks, and
    /// otherwise if and only if no nonce meets the difficulty; the chain
    /// is then left as it was.
    pub fn add_block_at(&mut self, transactions: Vec<Transaction>, timestamp: u64) -> (outcome:
        Result<&Block, Error>)
        requires
            old(self)@.has_room(),
        ensures
            match outcome {
                Ok(block) => {
                    &&& old(self)@.blocks.len() > 0
                    &&& block@.mined_from(
                        old(self)@.next_draft(timestamp as nat, views_of(transactions@)),
                        old(self)@.difficulty,
                    )
                    &&& final(self)@ == old(self)@.push(block@)
                    &&& old(self)@.valid() ==> final(self)@.valid()
                    &&& old(self)@.well_formed() ==> final(self)@.well_formed()
                },
                Err(e) => {
                    &&& *final(self) == *old(self)
                    &&& if old(self)@.blocks.len() == 0 {
                        e@ == Fault::ChainIsEmpty
                    } else {
                        &&& old(self)@.next_draft(
                            timestamp as nat,
                            views_of(transactions@),
                        ).unminable(old(self)@.difficulty)
                        &&& e@ == Fault::UnsatisfiedDifficulty {
                            index: old(self)@.blocks.last().index + 1,
                            difficulty: old(self)@.difficulty,
                        }
                    }
                },
            },
    {
        let len = self.chain.len();
        if len == 0 {
            return Err(Error::ChainIsEmpty);
        }
        let latest = &self.chain[len - 1];
        assert(self@.blocks.last() == latest@);
        let mut block = Block::with_timestamp(
            latest.index + 1,
            timestamp,
            latest.hash.clone(),
            transactions,
        );
        match block.mine_block(self.difficulty) {
            Ok(()) => {
                self.chain.push(block);
                assert(self@.blocks =~= old(self)@.blocks.push(block@));
                proof {
                    let listed = views_of(transactions@);
                    if old(self)@.valid() {
                        lemma_push_keeps_valid(old(self)@, block@, timestamp as nat, listed);
                    }
                    if old(self)@.well_formed() {
                        lemma_push_keeps_well_formed(old(self)@, block@, timestamp as nat, listed);
                    }
                }
                Ok(&self.chain[len])
            },
            Err(e) => Err(e),
        }
    }

    /// The blocks, the genesis block first.
    pub fn blocks(&self) -> (blocks: &[Block])
        ensures
            blocks@ == self.chain@,
    {
        self.chain.as_slice()
    }

    /// Walks the chain from the second block to the last and checks each
    /// block against the hash of the block before it and the chain's
    /// difficulty. Reports the fault of the first block at fault, and an
    /// empty chain as such.
    pub fn validate(&self) -> (outcome: Result<(), Error>)
        ensures
            match outcome {
                Ok(()) => self@.valid(),
                Err(e) => !self@.valid() && self@.reports(e@),
            },
            self@.well_formed() ==> outcome is Ok,
    {
        proof {
            if self@.well_formed() {
                lemma_well_formed_validates(self@);
            }
        }
        if self.chain.len() == 0 {
            return Err(Error::ChainIsEmpty);
        }
        let mut i: usize = 1;
        while i < self.chain.len()
            invariant
                1 <= i <= self.chain.len(),
                forall|j: int| 1 <= j < i ==> self@.link_fault(j) is None,
                self@.well_formed() ==> self@.valid(),
            decreases self.chain.len() - i,
        {
            let checked = self.chain[i].validate(self.chain[i - 1].hash.as_str(), self.difficulty);
            if let Err(e) = checked {
                assert(self@.first_fault_at(i as int));
                return Err(e);
            }
            i += 1;
        }
        Ok(())
    }

    /// Takes over `other` if it is strictly longer than this chain and
    /// validates. Returns whether it did. A chain that is not longer is
    /// not looked at; a longer one that does not validate is refused with
    /// what its validation reports. In both cases this chain stays as it
    /// is.
    pub fn replace_chain(&mut self, other: Blockchain) -> (outcome: Result<bool, Error>)
        ensures
            match outcome {
                Ok(replaced) => {
                    &&& replaced == (other@.blocks.len() > old(self)@.blocks.len())
                    &&& replaced ==> other@.valid() && *final(self) == other
                    &&& !replaced ==> *final(self) == *old(self)
                },
                Err(e) => {
                    &&& other@.blocks.len() > old(self)@.blocks.len()
                    &&& !other@.valid()
                    &&& other@.reports(e@)
                    &&& *final(self) == *old(self)
                },
            },
    {
        if other.chain.len() <= self.chain.len() {
            return Ok(false);
        }
        if let Err(e) = other.validate() {
            return Err(e);
        }
        *self = other;
        Ok(true)
    }
}

} // verus!
