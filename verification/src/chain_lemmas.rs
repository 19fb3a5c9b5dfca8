//! What holds of every chain: what validation accepts and reports, and
//! what mining keeps.

use crate::block::BlockView;
use crate::blockchain::{Blockchain, ChainView};
use crate::errors::Fault;
use crate::transaction::TransactionView;
use vstd::prelude::*;

verus! {

/// A well-formed chain validates, and every block of it, the genesis block
/// too, carries the digest of its own content.
pub proof fn lemma_well_formed_validates(chain: ChainView)
    requires
        chain.well_formed(),
    ensures
        chain.valid(),
        forall|i: int|
            0 <= i < chain.blocks.len() ==> (#[trigger] chain.blocks[i]).hash
                == chain.blocks[i].digest(),
{
    assert forall|i: int| 1 <= i < chain.blocks.len() implies chain.link_fault(i) is None by {
        assert(chain.in_place(i));
    }
    assert forall|i: int| 0 <= i < chain.blocks.len() implies (#[trigger] chain.blocks[i]).hash
        == chain.blocks[i].digest() by {
        assert(chain.in_place(i));
    }
}

/// In a chain that validates, every block after the first names the hash
/// of the block before it, meets the difficulty and carries the digest of
/// its own content. Of the first block validation says nothing.
pub proof fn lemma_valid_chain_is_linked(chain: ChainView)
    requires
        chain.valid(),
    ensures
        forall|i: int|
            1 <= i < chain.blocks.len() ==> {
                &&& (#[trigger] chain.blocks[i]).previous_hash == chain.blocks[i - 1].hash
                &&& chain.blocks[i].mined(chain.difficulty)
            },
{
    assert forall|i: int| 1 <= i < chain.blocks.len() implies {
        &&& (#[trigger] chain.blocks[i]).previous_hash == chain.blocks[i - 1].hash
        &&& chain.blocks[i].mined(chain.difficulty)
    } by {
        assert(chain.link_fault(i) is None);
    }
}

/// A well-formed chain in memory has room for one more block: its last
/// index is below the number of its blocks.
pub proof fn lemma_well_formed_has_room(chain: &Blockchain)
    requires
        chain@.well_formed(),
    ensures
        chain@.has_room(),
{
    let n = chain@.blocks.len() as int;
    assert(chain@.in_place(n - 1));
    assert(chain.chain@.len() == chain.chain.len() <= usize::MAX);
}

/// Validation reports one thing only: two faults that a chain reports are
/// the same fault.
pub proof fn lemma_report_is_unique(chain: ChainView, first: Fault, second: Fault)
    requires
        chain.reports(first),
        chain.reports(second),
    ensures
        first == second,
{
    if chain.blocks.len() > 0 {
        let i = choose|i: int| chain.first_fault_at(i) && chain.link_fault(i) == Some(first);
        let j = choose|j: int| chain.first_fault_at(j) && chain.link_fault(j) == Some(second);
        if i < j {
            assert(chain.link_fault(i) is None);
        } else if j < i {
            assert(chain.link_fault(j) is None);
        }
    }
}

/// A chain that validates does so no longer once a block after the first
/// is exchanged for one that is at fault in its place: validation then
/// reports that block's fault, whatever follows it.
pub proof fn lemma_tampering_is_reported(chain: ChainView, k: int, forged: BlockView)
    requires
        chain.valid(),
        1 <= k < chain.blocks.len(),
        forged.fault(chain.blocks[k - 1].hash, chain.difficulty) is Some,
    ensures
        !chain.tampered(k, forged).valid(),
        chain.tampered(k, forged).first_fault_at(k),
        chain.tampered(k, forged).reports(
            forged.fault(chain.blocks[k - 1].hash, chain.difficulty)->0,
        ),
{
    let bad = chain.tampered(k, forged);
    assert(bad.link_fault(k) == forged.fault(chain.blocks[k - 1].hash, chain.difficulty));
    assert forall|j: int| 1 <= j < k implies bad.link_fault(j) is None by {
        assert(bad.link_fault(j) == chain.link_fault(j));
    }
}

/// A chain that validates reports a hash mismatch at `k` once the content
/// of the block there is changed so that its digest is no longer the hash
/// it keeps, the link to the block before it left alone.
pub proof fn lemma_changed_content_is_reported(chain: ChainView, k: int, forged: BlockView)
    requires
        chain.valid(),
        1 <= k < chain.blocks.len(),
        forged.hash == chain.blocks[k].hash,
        forged.previous_hash == chain.blocks[k].previous_hash,
        forged.digest() != forged.hash,
    ensures
        chain.tampered(k, forged).reports(
            Fault::InvalidHash { index: forged.index, hash: forged.hash },
        ),
{
    assert(chain.link_fault(k) is None);
    lemma_tampering_is_reported(chain, k, forged);
}

/// A chain that validates reports a broken link at `k` once the block
/// there names another hash than that of the block before it.
pub proof fn lemma_changed_link_is_reported(chain: ChainView, k: int, forged: BlockView)
    requires
        chain.valid(),
        1 <= k < chain.blocks.len(),
        forged.previous_hash != chain.blocks[k - 1].hash,
    ensures
        chain.tampered(k, forged).reports(
            Fault::InvalidPreviousHash {
                index: forged.index,
                actual: forged.previous_hash,
                expected: chain.blocks[k - 1].hash,
            },
        ),
{
    lemma_tampering_is_reported(chain, k, forged);
}

/// A chain that validates still does when the block that mining makes of
/// its next draft is appended.
pub proof fn lemma_push_keeps_valid(
    chain: ChainView,
    block: BlockView,
    timestamp: nat,
    transactions: Seq<TransactionView>,
)
    requires
        chain.valid(),
        block.mined_from(chain.next_draft(timestamp, transactions), chain.difficulty),
    ensures
        chain.push(block).valid(),
{
    let longer = chain.push(block);
    let n = chain.blocks.len() as int;
    assert forall|i: int| 1 <= i < longer.blocks.len() implies longer.link_fault(i) is None by {
        if i < n {
            assert(longer.link_fault(i) == chain.link_fault(i));
        } else {
            assert(longer.blocks[i - 1] == chain.blocks.last());
        }
    }
}

/// A well-formed chain stays well-formed when the block that mining makes
/// of its next draft is appended.
pub proof fn lemma_push_keeps_well_formed(
    chain: ChainView,
    block: BlockView,
    timestamp: nat,
    transactions: Seq<TransactionView>,
)
    requires
        chain.well_formed(),
        block.mined_from(chain.next_draft(timestamp, transactions), chain.difficulty),
    ensures
        chain.push(block).well_formed(),
{
    let longer = chain.push(block);
    let n = chain.blocks.len() as int;
    assert(chain.in_place(n - 1));
    assert(block.mined(chain.difficulty));
    assert forall|i: int| 0 <= i < longer.blocks.len() implies #[trigger] longer.in_place(i) by {
        if i < n {
            assert(chain.in_place(i));
        }
    }
    assert(chain.in_place(0));
}

} // verus!
