//! What a node has to tell its peers after a change of its own state. The
//! node decides, under whatever lock guards it, whom to tell and what; the
//! transport sends the messages afterwards, from the copies it is handed,
//! and a peer that cannot be reached changes nothing here.

use crate::block::Block;
use crate::blockchain::Blockchain;
use crate::errors::{Error, Fault};
use crate::node::{Node, NodeView};
use crate::text::same_text;
use crate::transaction::{views_of, Transaction};
use vstd::prelude::*;

verus! {

/// A message for the node at `target`: a node is reachable at `peer`.
#[derive(Debug, PartialEq)]
pub struct PeerNotice {
    pub target: String,
    pub peer: String,
}

/// The mathematical content of a [`PeerNotice`].
pub struct NoticeView {
    pub target: Seq<char>,
    pub peer: Seq<char>,
}

impl View for PeerNotice {
    type V = NoticeView;

    open spec fn view(&self) -> NoticeView {
        NoticeView { target: self.target@, peer: self.peer@ }
    }
}

/// A freshly mined block with what is to be sent after it: a copy of the
/// whole chain, for each of `targets`.
#[derive(Debug, PartialEq)]
pub struct ChainUpdate {
    pub block: Block,
    pub chain: Blockchain,
    pub targets: Vec<String>,
}

/// The views of a list of notices, in the same order.
pub open spec fn notice_views(notices: Seq<PeerNotice>) -> Seq<NoticeView> {
    Seq::new(notices.len(), |i: int| notices[i]@)
}

/// The views of a list of addresses, in the same order.
pub open spec fn address_views(addresses: Seq<String>) -> Seq<Seq<char>> {
    Seq::new(addresses.len(), |i: int| addresses[i]@)
}

/// One notice for each of `peers`, in their order: a node is reachable at
/// `address`.
pub open spec fn announcements(peers: Seq<Seq<char>>, address: Seq<char>) -> Seq<NoticeView> {
    Seq::new(peers.len(), |i: int| NoticeView { target: peers[i], peer: address })
}

/// One notice for each of `peers` but `newcomer` itself, in their order:
/// a node is reachable at `newcomer`.
pub open spec fn referrals(peers: Seq<Seq<char>>, newcomer: Seq<char>) -> Seq<NoticeView>
    decreases peers.len(),
{
    if peers.len() == 0 {
        Seq::empty()
    } else if peers.last() == newcomer {
        referrals(peers.drop_last(), newcomer)
    } else {
        referrals(peers.drop_last(), newcomer).push(
            NoticeView { target: peers.last(), peer: newcomer },
        )
    }
}

/// What follows the registration of `newcomer` at a node with address
/// `own` that then knows `peers`: the newcomer is told of the node, and
/// every other peer of the newcomer.
pub open spec fn introductions(
    peers: Seq<Seq<char>>,
    own: Seq<char>,
    newcomer: Seq<char>,
) -> Seq<NoticeView> {
    seq![NoticeView { target: newcomer, peer: own }] + referrals(peers, newcomer)
}

impl Node {
    /// Takes `address` as the node's own and says whom to tell: every
    /// peer, in the order of registration.
    pub fn announce(&mut self, address: String) -> (notices: Vec<PeerNotice>)
        ensures
            final(self)@ == (NodeView { address: address@, ..old(self)@ }),
            notice_views(notices@) == announcements(old(self)@.peers, address@),
    {
        let peers = self.peers.to_vec();
        let mut notices: Vec<PeerNotice> = Vec::new();
        let mut i: usize = 0;
        while i < peers.len()
            invariant
                i <= peers.len(),
                notices@.len() == i,
                peers@.len() == self@.peers.len(),
                forall|j: int| 0 <= j < peers@.len() ==> peers@[j]@ == self@.peers[j],
                forall|j: int|
                    0 <= j < i ==> notices@[j]@ == (NoticeView {
                        target: self@.peers[j],
                        peer: address@,
                    }),
            decreases peers.len() - i,
        {
            notices.push(PeerNotice { target: peers[i].clone(), peer: address.clone() });
            i += 1;
        }
        assert(notice_views(notices@) =~= announcements(self@.peers, address@));
        self.address = address;
        notices
    }

    /// Registers `peer` and says whom to tell. A peer that is new is told
    /// of this node, and every other peer is told of the new one, in the
    /// order of registration. A peer that was known already changes
    /// nothing, and nobody is told.
    pub fn introduce_peer(&mut self, peer: String) -> (notices: Vec<PeerNotice>)
        ensures
            final(self)@ == (NodeView {
                peers: if old(self)@.peers.contains(peer@) {
                    old(self)@.peers
                } else {
                    old(self)@.peers.push(peer@)
                },
                ..old(self)@
            }),
            notice_views(notices@) == if old(self)@.peers.contains(peer@) {
                Seq::<NoticeView>::empty()
            } else {
                introductions(final(self)@.peers, old(self)@.address, peer@)
            },
    {
        let mut notices: Vec<PeerNotice> = Vec::new();
        if !self.register_peer(peer.clone()) {
            assert(notice_views(notices@) =~= Seq::<NoticeView>::empty());
            return notices;
        }
        let peers = self.peers.to_vec();
        notices.push(PeerNotice { target: peer.clone(), peer: self.address.clone() });
        let ghost known = self@.peers;
        let ghost first = NoticeView { target: peer@, peer: self@.address };
        let mut i: usize = 0;
        while i < peers.len()
            invariant
                i <= peers.len(),
                peers@.len() == known.len(),
                forall|j: int| 0 <= j < peers@.len() ==> peers@[j]@ == known[j],
                notice_views(notices@) == seq![first] + referrals(known.take(i as int), peer@),
            decreases peers.len() - i,
        {
            let ghost sent = notice_views(notices@);
            assert(known.take(i + 1).drop_last() =~= known.take(i as int));
            assert(known.take(i + 1).last() == known[i as int]);
            if !same_text(peers[i].as_str(), peer.as_str()) {
                notices.push(PeerNotice { target: peers[i].clone(), peer: peer.clone() });
                assert(notice_views(notices@) =~= sent.push(
                    NoticeView { target: known[i as int], peer: peer@ },
                ));
            }
            assert(notice_views(notices@) =~= seq![first] + referrals(known.take(i + 1), peer@));
            i += 1;
        }
        assert(known.take(peers.len() as int) =~= known);
        notices
    }

    /// Mines a block of `transactions` at the present time onto the
    /// node's chain and says what to send: a copy of the chain as it then
    /// is, to every peer. On failure nothing changes and nothing is to be
    /// sent.
    pub fn mine_and_share(&mut self, transactions: Vec<Transaction>) -> (outcome: Result<
        ChainUpdate,
        Error,
    >)
        requires
            old(self)@.chain.has_room(),
        ensures
            match outcome {
                Ok(update) => {
                    &&& old(self)@.chain.blocks.len() > 0
                    &&& update.block@.mined_from(
                        old(self)@.chain.next_draft(
                            update.block@.timestamp,
                            views_of(transactions@),
                        ),
                        old(self)@.chain.difficulty,
                    )
                    &&& final(self)@ == old(self)@.with_chain(
                        old(self)@.chain.push(update.block@),
                    )
                    &&& old(self)@.chain.valid() ==> final(self)@.chain.valid()
                    &&& update.chain@ == final(self)@.chain
                    &&& address_views(update.targets@) == old(self)@.peers
                },
                Err(e) => {
                    &&& final(self)@ == old(self)@
                    &&& if old(self)@.chain.blocks.len() == 0 {
                        e@ == Fault::ChainIsEmpty
                    } else {
                        &&& exists|t: nat|
                            t <= u64::MAX && (#[trigger] old(self)@.chain.next_draft(
                                t,
                                views_of(transactions@),
                            )).unminable(old(self)@.chain.difficulty)
                        &&& e@ == Fault::UnsatisfiedDifficulty {
                            index: old(self)@.chain.blocks.last().index + 1,
                            difficulty: old(self)@.chain.difficulty,
                        }
                    }
                },
            },
    {
        let block = match self.add_block(transactions) {
            Ok(block) => block.clone(),
            Err(e) => {
                return Err(e);
            },
        };
        let chain = self.blockchain.clone();
        let targets = self.peers.to_vec();
        assert(address_views(targets@) =~= self@.peers);
        Ok(ChainUpdate { block, chain, targets })
    }
}

} // verus!
