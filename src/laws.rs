//! Laws of the ledger, stated over the changes that the account functions
//! promise in their contracts (`moved`).
use crate::account::{balanced, moved, Customer};
use crate::amount::{units, Amount};
use crate::customers::{accepted_log, rejected_count};
use crate::transaction::{transaction_of, InputTransaction};
use vstd::prelude::*;

verus! {

/// Along any run of steps that each change total by exactly the sum of the
/// changes to available and held, total stays the sum of available and held
/// after every step. Exact deposits, withdrawals, disputes, resolves and
/// chargebacks all change the balances so.
pub proof fn lemma_moves_keep_balance(states: Seq<Customer>, d_available: Seq<int>, d_held: Seq<int>)
    requires
        states.len() == d_available.len() + 1,
        d_held.len() == d_available.len(),
        balanced(states[0]),
        forall|i: int|
            0 <= i < d_available.len() ==> #[trigger] moved(
                states[i],
                states[i + 1],
                d_available[i],
                d_held[i],
                d_available[i] + d_held[i],
            ),
    ensures
        forall|i: int| 0 <= i < states.len() ==> balanced(#[trigger] states[i]),
    decreases d_available.len(),
{
    if d_available.len() > 0 {
        let n = d_available.len() as int;
        lemma_moves_keep_balance(states.drop_last(), d_available.drop_last(), d_held.drop_last());
        assert(balanced(states.drop_last()[n - 1]));
        assert(moved(states[n - 1], states[n], d_available[n - 1], d_held[n - 1], d_available[n - 1] + d_held[n - 1]));
        assert forall|i: int| 0 <= i < states.len() implies balanced(#[trigger] states[i]) by {
            if i < n {
                assert(states[i] == states.drop_last()[i]);
            }
        }
    }
}

/// Over any sequence of exact deposits and withdrawals on one customer
/// (each changing available and total by the same amount and leaving held
/// alone), total equals available plus held after every step.
pub proof fn lemma_deposits_withdrawals_keep_balance(states: Seq<Customer>, deltas: Seq<int>)
    requires
        states.len() == deltas.len() + 1,
        balanced(states[0]),
        forall|i: int|
            0 <= i < deltas.len() ==> #[trigger] moved(states[i], states[i + 1], deltas[i], 0, deltas[i]),
    ensures
        forall|i: int| 0 <= i < states.len() ==> balanced(#[trigger] states[i]),
{
    let d_held = Seq::new(deltas.len(), |i: int| 0int);
    assert forall|i: int| 0 <= i < deltas.len() implies #[trigger] moved(
        states[i],
        states[i + 1],
        deltas[i],
        d_held[i],
        deltas[i] + d_held[i],
    ) by {
        assert(moved(states[i], states[i + 1], deltas[i], 0, deltas[i]));
    }
    lemma_moves_keep_balance(states, deltas, d_held);
}

/// Depositing an amount and then disputing that deposit takes the amount
/// out of available and puts it in held, leaving total as the deposit left
/// it: available is back where it was before the deposit.
pub proof fn lemma_deposit_then_dispute(
    before: Customer,
    deposited: Customer,
    disputed: Customer,
    amount: Amount,
)
    requires
        moved(before, deposited, units(amount), 0, units(amount)),
        moved(deposited, disputed, -units(amount), units(amount), 0),
    ensures
        units(disputed.available) == units(deposited.available) - units(amount),
        units(disputed.held) == units(deposited.held) + units(amount),
        units(disputed.total) == units(deposited.total),
        units(disputed.available) == units(before.available),
        units(disputed.held) == units(before.held) + units(amount),
        units(disputed.total) == units(before.total) + units(amount),
{
}

/// Resolving a disputed deposit gives back to available what the dispute
/// took, and takes its contribution out of held: all three balances are as
/// before the dispute.
pub proof fn lemma_resolve_undoes_dispute(
    before: Customer,
    disputed: Customer,
    resolved: Customer,
    amount: Amount,
)
    requires
        moved(before, disputed, -units(amount), units(amount), 0),
        moved(disputed, resolved, units(amount), -units(amount), 0),
    ensures
        units(resolved.available) == units(before.available),
        units(resolved.held) == units(before.held),
        units(resolved.total) == units(before.total),
        units(resolved.total) == units(disputed.total),
{
}

/// Charging back a disputed deposit takes its amount out of held and out of
/// total; the account keeps total equal to available plus held.
pub proof fn lemma_chargeback_after_dispute(
    before: Customer,
    disputed: Customer,
    charged: Customer,
    amount: Amount,
)
    requires
        moved(before, disputed, -units(amount), units(amount), 0),
        moved(disputed, charged, 0, -units(amount), -units(amount)),
    ensures
        units(charged.held) == units(disputed.held) - units(amount),
        units(charged.total) == units(disputed.total) - units(amount),
        units(charged.held) == units(before.held),
        units(charged.available) == units(before.available) - units(amount),
        balanced(before) ==> balanced(disputed) && balanced(charged),
{
}

/// A row that does not decode (an unknown type, an unparsable amount or id)
/// is skipped: it adds nothing to any customer's log and one to the count of
/// rejected rows.
pub proof fn lemma_rejected_row_skipped(rows: Seq<InputTransaction>, row: InputTransaction, client: u32)
    requires
        transaction_of(row) is Err,
    ensures
        accepted_log(rows.push(row), client) == accepted_log(rows, client),
        rejected_count(rows.push(row)) == rejected_count(rows) + 1,
{
    assert(rows.push(row).drop_last() =~= rows);
}

} // verus!
