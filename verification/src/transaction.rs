//! Transfers of an amount from one identity to another, and the canonical
//! spelling of a list of them.

use crate::text::{decimal, push_decimal, push_quoted, quoted, same_text};
use vstd::prelude::*;

verus! {

/// A transfer of `amount` from one identity to another. Identities are
/// free-form names; nothing authenticates them.
#[derive(Debug, PartialEq, Hash)]
pub struct Transaction {
    pub from: String,
    pub to: String,
    pub amount: u64,
}

/// The mathematical content of a [`Transaction`].
pub struct TransactionView {
    pub from: Seq<char>,
    pub to: Seq<char>,
    pub amount: nat,
}

impl View for Transaction {
    type V = TransactionView;

    open spec fn view(&self) -> TransactionView {
        TransactionView { from: self.from@, to: self.to@, amount: self.amount as nat }
    }
}

/// The views of a sequence of transactions, in the same order.
pub open spec fn views_of(ts: Seq<Transaction>) -> Seq<TransactionView> {
    Seq::new(ts.len(), |i: int| ts[i]@)
}

/// The canonical spelling of one transaction.
pub open spec fn transaction_text(t: TransactionView) -> Seq<char> {
    "Transaction { from: "@ + quoted(t.from) + ", to: "@ + quoted(t.to) + ", amount: "@ + decimal(
        t.amount,
    ) + " }"@
}

/// The spellings of the transactions in `ts`, separated by a comma and a
/// space.
pub open spec fn transactions_body(ts: Seq<TransactionView>) -> Seq<char>
    decreases ts.len(),
{
    if ts.len() == 0 {
        Seq::empty()
    } else if ts.len() == 1 {
        transaction_text(ts[0])
    } else {
        transactions_body(ts.drop_last()) + ", "@ + transaction_text(ts.last())
    }
}

/// The canonical spelling of a list of transactions: the items between
/// square brackets, separated by a comma and a space.
pub open spec fn transactions_text(ts: Seq<TransactionView>) -> Seq<char> {
    "["@ + transactions_body(ts) + "]"@
}

/// What a transaction adds to the balance of `who`: the amount is taken
/// from the sender and given to the receiver. A transfer from an identity
/// to itself counts as sent.
pub open spec fn flow(t: TransactionView, who: Seq<char>) -> int {
    if t.from == who {
        -(t.amount as int)
    } else if t.to == who {
        t.amount as int
    } else {
        0
    }
}

/// The sum of [`flow`] over a list of transactions.
pub open spec fn net_flow(ts: Seq<TransactionView>, who: Seq<char>) -> int
    decreases ts.len(),
{
    if ts.len() == 0 {
        0
    } else {
        net_flow(ts.drop_last(), who) + flow(ts.last(), who)
    }
}

impl Clone for Transaction {
    fn clone(&self) -> (copy: Transaction)
        ensures
            copy@ == self@,
    {
        Transaction { from: self.from.clone(), to: self.to.clone(), amount: self.amount }
    }
}

impl Transaction {
    /// Tells whether `who` sends this transaction.
    pub fn sent_by(&self, who: &str) -> (sent: bool)
        ensures
            sent == (self@.from == who@),
    {
        same_text(self.from.as_str(), who)
    }

    /// Tells whether `who` receives this transaction.
    pub fn received_by(&self, who: &str) -> (received: bool)
        ensures
            received == (self@.to == who@),
    {
        same_text(self.to.as_str(), who)
    }
}

/// Appends the canonical spelling of `t` to `out`.
pub fn push_transaction(out: &mut String, t: &Transaction)
    ensures
        final(out)@ == old(out)@ + transaction_text(t@),
{
    out.append("Transaction { from: ");
    push_quoted(out, t.from.as_str());
    out.append(", to: ");
    push_quoted(out, t.to.as_str());
    out.append(", amount: ");
    push_decimal(out, t.amount);
    out.append(" }");
    assert(out@ =~= old(out)@ + transaction_text(t@));
}

/// Appends the canonical spelling of the list `ts` to `out`.
pub fn push_transactions(out: &mut String, ts: &Vec<Transaction>)
    ensures
        final(out)@ == old(out)@ + transactions_text(views_of(ts@)),
{
    let ghost all = views_of(ts@);
    out.append("[");
    let mut i: usize = 0;
    while i < ts.len()
        invariant
            i <= ts.len(),
            all == views_of(ts@),
            out@ == old(out)@ + "["@ + transactions_body(all.take(i as int)),
        decreases ts.len() - i,
    {
        let ghost before = all.take(i as int);
        let ghost after = all.take(i + 1);
        assert(after.drop_last() =~= before);
        assert(after.last() == ts[i as int]@);
        if i > 0 {
            out.append(", ");
        }
        push_transaction(out, &ts[i]);
        assert(out@ =~= old(out)@ + "["@ + transactions_body(after));
        i += 1;
    }
    assert(all.take(ts.len() as int) =~= all);
    out.append("]");
    assert(out@ =~= old(out)@ + transactions_text(all));
}

} // verus!
