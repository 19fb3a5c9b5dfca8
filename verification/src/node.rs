//! A node: one chain, the addresses of the peers it knows, and the
//! operations that the transport around it calls.

use crate::balance::wrapped;
use crate::block::Block;
use crate::blockchain::{Blockchain, ChainView};
use crate::errors::{Error, Fault};
use crate::peers::PeerSet;
use crate::transaction::{views_of, Transaction};
use vstd::prelude::*;

verus! {

/// A participant of the network. It holds its chain alone; the chain only
/// grows by a mined block or is replaced as a whole.
pub struct Node {
    /// The address under which peers reach this node; empty until it is
    /// announced.
    pub address: String,
    pub name: String,
    pub blockchain: Blockchain,
    pub peers: PeerSet,
}

/// The mathematical content of a [`Node`].
pub struct NodeView {
    pub address: Seq<char>,
    pub name: Seq<char>,
    pub chain: ChainView,
    pub peers: Seq<Seq<char>>,
}

impl View for Node {
    type V = NodeView;

    open spec fn view(&self) -> NodeView {
        NodeView {
            address: self.address@,
            name: self.name@,
            chain: self.blockchain@,
            peers: self.peers@,
        }
    }
}

/// The lines that list a node's chain: a heading with the node's name, one
/// line for each block, and a rule.
pub open spec fn listing(node: NodeView) -> Seq<Seq<char>> {
    seq!["Chain of node "@ + node.name + ":"@] + Seq::new(
        node.chain.blocks.len(),
        |i: int| node.chain.blocks[i].description(),
    ) + seq!["-----------------------------"@]
}

impl NodeView {
    /// A node that has just been made around `chain`: no address yet and
    /// no peers.
    pub open spec fn fresh(name: Seq<char>, chain: ChainView) -> NodeView {
        NodeView { address: Seq::empty(), name, chain, peers: Seq::empty() }
    }

    /// The node with another chain.
    pub open spec fn with_chain(self, chain: ChainView) -> NodeView {
        NodeView { chain, ..self }
    }
}

impl Node {
    /// Makes a node with a chain of its own, whose genesis block is made
    /// at the present time and mined at `difficulty`. Fails where no nonce
    /// meets the difficulty.
    pub fn new(name: &str, difficulty: usize) -> (outcome: Result<Node, Error>)
        ensures
            match outcome {
                Ok(node) => {
                    &&& node@ == NodeView::fresh(name@, node@.chain)
                    &&& node@.chain.difficulty == difficulty
                    &&& node@.chain.blocks.len() == 1
                    &&& node@.chain.blocks[0].mined_from(
                        ChainView::genesis_draft(node@.chain.blocks[0].timestamp),
                        difficulty as nat,
                    )
                    &&& node@.chain.well_formed()
                },
                Err(e) => {
                    &&& exists|t: nat|
                        t <= u64::MAX && (#[trigger] ChainView::genesis_draft(t)).unminable(
                            difficulty as nat,
                        )
                    &&& e@ == Fault::UnsatisfiedDifficulty {
                        index: 0,
                        difficulty: difficulty as nat,
                    }
                },
            },
    {
        match Blockchain::new(difficulty) {
            Ok(blockchain) => Ok(
                Node {
                    address: String::new(),
                    name: String::from_str(name),
                    blockchain,
                    peers: PeerSet::new(),
                },
            ),
            Err(e) => Err(e),
        }
    }

    /// Makes a node with a chain of its own, whose genesis block has the
    /// given timestamp and is mined at `difficulty`. Fails if and only if
    /// no nonce meets the difficulty.
    pub fn with_genesis_at(name: &str, difficulty: usize, timestamp: u64) -> (outcome: Result<
        Node,
        Error,
    >)
        ensures
            match outcome {
                Ok(node) => {
                    &&& node@ == NodeView::fresh(name@, node@.chain)
                    &&& node@.chain.difficulty == difficulty
                    &&& node@.chain.blocks.len() == 1
                    &&& node@.chain.blocks[0].mined_from(
                        ChainView::genesis_draft(timestamp as nat),
                        difficulty as nat,
                    )
                    &&& node@.chain.well_formed()
                },
                Err(e) => {
                    &&& ChainView::genesis_draft(timestamp as nat).unminable(difficulty as nat)
                    &&& e@ == Fault::UnsatisfiedDifficulty {
                        index: 0,
                        difficulty: difficulty as nat,
                    }
                },
            },
    {
        match Blockchain::with_genesis_at(difficulty, timestamp) {
            Ok(blockchain) => Ok(
                Node {
                    address: String::new(),
                    name: String::from_str(name),
                    blockchain,
                    peers: PeerSet::new(),
                },
            ),
            Err(e) => Err(e),
        }
    }

    /// Mines a block of `transactions` at the present time onto the node's
    /// chain and returns it. Nothing else of the node changes; on failure
    /// nothing changes at all.
    pub fn add_block(&mut self, transactions: Vec<Transaction>) -> (outcome: Result<&Block, Error>)
        requires
            old(self)@.chain.has_room(),
        ensures
            match outcome {
                Ok(block) => {
                    &&& old(self)@.chain.blocks.len() > 0
                    &&& block@.mined_from(
                        old(self)@.chain.next_draft(block@.timestamp, views_of(transactions@)),
                        old(self)@.chain.difficulty,
                    )
                    &&& final(self)@ == old(self)@.with_chain(old(self)@.chain.push(block@))
                    &&& old(self)@.chain.valid() ==> final(self)@.chain.valid()
                    &&& old(self)@.chain.well_formed() ==> final(self)@.chain.well_formed()
                },
                Err(e) => {
                    &&& final(self)@ == old(self)@
                    &&& if old(self)@.chain.blocks.len() == 0 {
                        e@ == Fault::ChainIsEmpty
                    } else {
                        &&& exists|t: nat|
                            t <= u64::MAX && (#[trigger] old(self)@.chain.next_draft(
                                t,
                                views_of(transactions@),
                            )).unminable(old(self)@.chain.difficulty)
                        &&& e@ == Fault::UnsatisfiedDifficulty {
                            index: old(self)@.chain.blocks.last().index + 1,
                            difficulty: old(self)@.chain.difficulty,
                        }
                    }
                },
            },
    {
        self.blockchain.add_block(transactions)
    }

    /// Mines a block of `transactions` with the given timestamp onto the
    /// node's chain and returns it. Fails on a chain without blocks, and
    /// otherwise if and only if no nonce meets the difficulty. Nothing
    /// else of the node changes; on failure nothing changes at all.
    pub fn add_block_at(&mut self, transactions: Vec<Transaction>, timestamp: u64) -> (outcome:
        Result<&Block, Error>)
        requires
            old(self)@.chain.has_room(),
        ensures
            match outcome {
                Ok(block) => {
                    &&& old(self)@.chain.blocks.len() > 0
                    &&& block@.mined_from(
                        old(self)@.chain.next_draft(timestamp as nat, views_of(transactions@)),
                        old(self)@.chain.difficulty,
                    )
                    &&& final(self)@ == old(self)@.with_chain(old(self)@.chain.push(block@))
                    &&& old(self)@.chain.valid() ==> final(self)@.chain.valid()
                    &&& old(self)@.chain.well_formed() ==> final(self)@.chain.well_formed()
                },
                Err(e) => {
                    &&& final(self)@ == old(self)@
                    &&& if old(self)@.chain.blocks.len() == 0 {
                        e@ == Fault::ChainIsEmpty
                    } else {
                        &&& old(self)@.chain.next_draft(
                            timestamp as nat,
                            views_of(transactions@),
                        ).unminable(old(self)@.chain.difficulty)
                        &&& e@ == Fault::UnsatisfiedDifficulty {
                            index: old(self)@.chain.blocks.last().index + 1,
                            difficulty: old(self)@.chain.difficulty,
                        }
                    }
                },
            },
    {
        self.blockchain.add_block_at(transactions, timestamp)
    }

    /// Offers the node another chain. The node takes it over, and returns
    /// `true`, if it is strictly longer than its own and validates; it
    /// returns `false` and keeps its own if the other is not longer, and
    /// refuses a longer one that does not validate with what its
    /// validation reports. Nothing but the chain ever changes.
    pub fn replace_chain(&mut self, other: Blockchain) -> (outcome: Result<bool, Error>)
        ensures
            match outcome {
                Ok(replaced) => {
                    &&& replaced == (other@.blocks.len() > old(self)@.chain.blocks.len())
                    &&& replaced ==> other@.valid() && final(self)@ == old(self)@.with_chain(
                        other@,
                    ) && final(self).blockchain == other
                    &&& !replaced ==> final(self)@ == old(self)@ && final(self).blockchain == old(
                        self,
                    ).blockchain
                },
                Err(e) => {
                    &&& other@.blocks.len() > old(self)@.chain.blocks.len()
                    &&& !other@.valid()
                    &&& other@.reports(e@)
                    &&& final(self)@ == old(self)@
                    &&& final(self).blockchain == old(self).blockchain
                },
            },
    {
        self.blockchain.replace_chain(other)
    }

    /// Adds `peer` to the addresses that the node knows. Returns whether
    /// it was new; an address that is known already changes nothing.
    /// Whether the address can be reached is not looked at.
    pub fn register_peer(&mut self, peer: String) -> (fresh: bool)
        ensures
            fresh == !old(self)@.peers.contains(peer@),
            final(self)@ == (NodeView {
                peers: if fresh {
                    old(self)@.peers.push(peer@)
                } else {
                    old(self)@.peers
                },
                ..old(self)@
            }),
            final(self)@.peers.no_duplicates(),
    {
        self.peers.insert(peer)
    }

    /// The lines that list the node's chain, for printing.
    pub fn chain_listing(&self) -> (lines: Vec<String>)
        ensures
            lines@.len() == listing(self@).len(),
            forall|i: int| 0 <= i < lines@.len() ==> lines@[i]@ == listing(self@)[i],
    {
        let mut lines: Vec<String> = Vec::new();
        let mut heading = String::from_str("Chain of node ");
        heading.append(self.name.as_str());
        heading.append(":");
        lines.push(heading);
        let mut i: usize = 0;
        while i < self.blockchain.chain.len()
            invariant
                i <= self.blockchain.chain.len(),
                lines@.len() == i + 1,
                lines@[0]@ == "Chain of node "@ + self@.name + ":"@,
                forall|j: int| 0 <= j < i ==> lines@[j + 1]@ == self@.chain.blocks[j].description(),
            decreases self.blockchain.chain.len() - i,
        {
            lines.push(self.blockchain.chain[i].to_string());
            i += 1;
        }
        lines.push(String::from_str("-----------------------------"));
        lines
    }

    /// A copy of the node's chain as it is now.
    pub fn get_chain(&self) -> (chain: Blockchain)
        ensures
            chain@ == self@.chain,
    {
        self.blockchain.clone()
    }

    /// The balance of `address` over the node's chain, in two's complement
    /// of 64 bits: the exact balance wherever that fits in an `i64`.
    pub fn get_balance(&self, address: &str) -> (balance: i64)
        ensures
            balance == wrapped(self@.chain.balance(address@)),
            i64::MIN <= self@.chain.balance(address@) <= i64::MAX ==> balance
                == self@.chain.balance(address@),
    {
        self.blockchain.get_balance(address)
    }
}

} // verus!
