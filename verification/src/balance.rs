//! The balance of an identity over a chain: what it received less what it
//! sent.

use crate::block::BlockView;
use crate::blockchain::{Blockchain, ChainView};
use crate::transaction::{flow, net_flow, views_of};
use vstd::prelude::*;

verus! {

/// The sum, over all transactions of all `blocks`, of what each adds to
/// the balance of `who`.
pub open spec fn total_flow(blocks: Seq<BlockView>, who: Seq<char>) -> int
    decreases blocks.len(),
{
    if blocks.len() == 0 {
        0
    } else {
        total_flow(blocks.drop_last(), who) + net_flow(blocks.last().transactions, who)
    }
}

/// The number in the range of `i64` that differs from `x` by a multiple of
/// 2^64: `x` itself where it fits.
pub open spec fn wrapped(x: int) -> int {
    let low = x % 0x1_0000_0000_0000_0000;
    if low < 0x8000_0000_0000_0000 {
        low
    } else {
        low - 0x1_0000_0000_0000_0000
    }
}

impl ChainView {
    /// The balance of `who`: received amounts less sent amounts, over all
    /// transactions of all blocks.
    pub open spec fn balance(self, who: Seq<char>) -> int {
        total_flow(self.blocks, who)
    }
}

impl Blockchain {
    /// The balance of `address` over the whole chain, in two's complement
    /// of 64 bits: the exact balance wherever that fits in an `i64`.
    pub fn get_balance(&self, address: &str) -> (balance: i64)
        ensures
            balance == wrapped(self@.balance(address@)),
            i64::MIN <= self@.balance(address@) <= i64::MAX ==> balance == self@.balance(
                address@,
            ),
    {
        let ghost who = address@;
        let ghost all = self@.blocks;
        let mut low: u64 = 0;
        let mut i: usize = 0;
        while i < self.chain.len()
            invariant
                i <= self.chain.len(),
                who == address@,
                all == self@.blocks,
                low == total_flow(all.take(i as int), who) % 0x1_0000_0000_0000_0000,
            decreases self.chain.len() - i,
        {
            let block = &self.chain[i];
            let ghost listed = all[i as int].transactions;
            let ghost before = total_flow(all.take(i as int), who);
            assert(all.take(i + 1).drop_last() =~= all.take(i as int));
            assert(all.take(i + 1).last() == all[i as int]);
            let mut k: usize = 0;
            while k < block.transactions.len()
                invariant
                    k <= block.transactions.len(),
                    who == address@,
                    listed == views_of(block.transactions@),
                    low == (before + net_flow(listed.take(k as int), who))
                        % 0x1_0000_0000_0000_0000,
                decreases block.transactions.len() - k,
            {
                let t = &block.transactions[k];
                let ghost sum = before + net_flow(listed.take(k as int), who);
                assert(listed.take(k + 1).drop_last() =~= listed.take(k as int));
                assert(listed.take(k + 1).last() == t@);
                if t.sent_by(address) {
                    proof {
                        lemma_wrapping_step(sum, -(t.amount as int));
                    }
                    low = low.wrapping_sub(t.amount);
                } else if t.received_by(address) {
                    proof {
                        lemma_wrapping_step(sum, t.amount as int);
                    }
                    low = low.wrapping_add(t.amount);
                }
                assert(flow(t@, who) == net_flow(listed.take(k + 1), who) - net_flow(
                    listed.take(k as int),
                    who,
                ));
                k += 1;
            }
            assert(listed.take(block.transactions.len() as int) =~= listed);
            i += 1;
        }
        assert(all.take(self.chain.len() as int) =~= all);
        if low < 0x8000_0000_0000_0000 {
            low as i64
        } else {
            (low - 0x8000_0000_0000_0000) as i64 + i64::MIN
        }
    }
}

/// Adding `step`, of a size below 2^64, to a number changes its remainder
/// modulo 2^64 as wrapping arithmetic on 64 bits does.
proof fn lemma_wrapping_step(sum: int, step: int)
    requires
        -0x1_0000_0000_0000_0000 < step < 0x1_0000_0000_0000_0000,
    ensures
        (sum + step) % 0x1_0000_0000_0000_0000 == {
            let moved = sum % 0x1_0000_0000_0000_0000 + step;
            if moved < 0 {
                moved + 0x1_0000_0000_0000_0000
            } else if moved >= 0x1_0000_0000_0000_0000 {
                moved - 0x1_0000_0000_0000_0000
            } else {
                moved
            }
        },
{
    let m = 0x1_0000_0000_0000_0000int;
    let q = sum / m;
    let r = sum % m;
    assert(sum == q * m + r && 0 <= r < m) by (nonlinear_arith)
        requires
            q == sum / m,
            r == sum % m,
            m == 0x1_0000_0000_0000_0000int,
    ;
    let moved = r + step;
    if moved < 0 {
        assert((sum + step) % m == moved + m) by (nonlinear_arith)
            requires
                sum + step == (q - 1) * m + (moved + m),
                0 <= moved + m < m,
                m > 0,
        ;
    } else if moved >= m {
        assert((sum + step) % m == moved - m) by (nonlinear_arith)
            requires
                sum + step == (q + 1) * m + (moved - m),
                0 <= moved - m < m,
                m > 0,
        ;
    } else {
        assert((sum + step) % m == moved) by (nonlinear_arith)
            requires
                sum + step == q * m + moved,
                0 <= moved < m,
                m > 0,
        ;
    }
}

} // verus!
