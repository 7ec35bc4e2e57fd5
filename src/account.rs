//! One customer's account: its balances, its transaction log, and the
//! transitions that replaying the log applies to the balances.
use crate::amount::{
    checked_add, checked_add_of, checked_sub, checked_sub_of, fits_exactly, saturating_add,
    less_than, saturating_add_of, saturating_sub, saturating_sub_of, units, Amount,
};
use crate::transaction::{Action, Transaction};
use vstd::prelude::*;

verus! {

/// Balances and log of one customer.
#[derive(Debug)]
pub struct Customer {
    pub available: Amount,
    pub held: Amount,
    pub total: Amount,
    pub locked: bool,
    pub transactions: Vec<Transaction>,
}

impl Customer {
    /// All balances and all logged amounts are valid decimals.
    pub open spec fn wf(&self) -> bool {
        &&& self.available.wf()
        &&& self.held.wf()
        &&& self.total.wf()
        &&& forall|i: int| 0 <= i < self.transactions@.len() ==> (#[trigger] self.transactions@[i]).wf()
    }

    /// A fresh account: zero balances, unlocked, empty log.
    pub fn new() -> (r: Customer)
        ensures
            r.wf(),
            units(r.available) == 0,
            units(r.held) == 0,
            units(r.total) == 0,
            !r.locked,
            r.transactions@.len() == 0,
    {
        Customer {
            available: Amount::zero(),
            held: Amount::zero(),
            total: Amount::zero(),
            locked: false,
            transactions: Vec::new(),
        }
    }
}

/// Total is the sum of available and held.
pub open spec fn balanced(c: Customer) -> bool {
    units(c.total) == units(c.available) + units(c.held)
}

/// `after` differs from `before` by the given changes (in units) of
/// available, held and total, with log and lock left alone.
pub open spec fn moved(before: Customer, after: Customer, d_available: int, d_held: int, d_total: int) -> bool {
    &&& units(after.available) == units(before.available) + d_available
    &&& units(after.held) == units(before.held) + d_held
    &&& units(after.total) == units(before.total) + d_total
    &&& after.transactions == before.transactions
}

/// The first record of the log with the given transaction id.
pub open spec fn find_in(log: Seq<Transaction>, id: u32) -> Option<Transaction>
    decreases log.len(),
{
    if log.len() == 0 {
        None
    } else if log[0].tx == id {
        Some(log[0])
    } else {
        find_in(log.skip(1), id)
    }
}

/// The amount of the deposit that `id` refers to in the customer's log, if
/// the first record with that id is a deposit.
pub open spec fn referenced_deposit(c: Customer, id: u32) -> Option<Amount> {
    match find_in(c.transactions@, id) {
        Some(t) => match t.action {
            Action::Deposit(a) => Some(a),
            _ => None,
        },
        None => None,
    }
}

/// A deposit: both total and available grow by the amount, or, where either
/// checked sum fails, nothing changes.
pub open spec fn deposit_result(c: Customer, amount: Amount) -> Customer {
    match (checked_add_of(c.total, amount), checked_add_of(c.available, amount)) {
        (Some(t), Some(a)) => Customer { total: t, available: a, ..c },
        _ => c,
    }
}

/// A withdrawal: both total and available shrink by the amount, or, where
/// either checked difference fails, nothing changes.
pub open spec fn withdrawal_result(c: Customer, amount: Amount) -> Customer {
    match (checked_sub_of(c.total, amount), checked_sub_of(c.available, amount)) {
        (Some(t), Some(a)) => Customer { total: t, available: a, ..c },
        _ => c,
    }
}

/// A dispute of a deposit: the amount moves from available to held.
pub open spec fn dispute_result(c: Customer, amount: Amount) -> Customer {
    Customer {
        held: saturating_add_of(c.held, amount),
        available: saturating_sub_of(c.available, amount),
        ..c
    }
}

/// A resolve of a deposit: the amount moves from held back to available.
pub open spec fn resolve_result(c: Customer, amount: Amount) -> Customer {
    Customer {
        held: saturating_sub_of(c.held, amount),
        available: saturating_add_of(c.available, amount),
        ..c
    }
}

/// A chargeback of a deposit: the amount leaves held and total, and the
/// account is locked.
pub open spec fn chargeback_result(c: Customer, amount: Amount) -> Customer {
    Customer {
        held: saturating_sub_of(c.held, amount),
        total: saturating_sub_of(c.total, amount),
        locked: true,
        ..c
    }
}

/// One record applied to the account. Disputes, resolves and chargebacks
/// act only where their id refers to a deposit in the log.
pub open spec fn step(c: Customer, t: Transaction) -> Customer {
    match t.action {
        Action::Deposit(a) => deposit_result(c, a),
        Action::Withdrawal(a) => withdrawal_result(c, a),
        Action::Dispute => match referenced_deposit(c, t.tx) {
            Some(a) => dispute_result(c, a),
            None => c,
        },
        Action::Resolve => match referenced_deposit(c, t.tx) {
            Some(a) => resolve_result(c, a),
            None => c,
        },
        Action::Chargeback => match referenced_deposit(c, t.tx) {
            Some(a) => chargeback_result(c, a),
            None => c,
        },
    }
}

/// The records of `log`, applied in order.
pub open spec fn replay(c: Customer, log: Seq<Transaction>) -> Customer
    decreases log.len(),
{
    if log.len() == 0 {
        c
    } else {
        step(replay(c, log.drop_last()), log.last())
    }
}

/// Adding (`debit` false) or subtracting (`debit` true) the amount to total
/// and to available needs no rounding.
pub open spec fn exact_change(c: Customer, amount: Amount, debit: bool) -> bool {
    let d = if debit {
        -units(amount)
    } else {
        units(amount)
    };
    fits_exactly(c.total, amount, units(c.total) + d) && fits_exactly(
        c.available,
        amount,
        units(c.available) + d,
    )
}

/// Applies a deposit (`debit` false) or a withdrawal (`debit` true): total
/// and available change together, or, where either checked operation
/// fails, not at all. A withdrawal may leave available below zero.
pub fn change_balance(customer: &mut Customer, amount: Amount, debit: bool)
    requires
        old(customer).wf(),
        amount.wf(),
    ensures
        final(customer).wf(),
        !debit ==> *final(customer) == deposit_result(*old(customer), amount),
        debit ==> *final(customer) == withdrawal_result(*old(customer), amount),
        !debit && exact_change(*old(customer), amount, debit) ==> moved(*old(customer), *final(customer), units(amount), 0, units(amount)),
        debit && exact_change(*old(customer), amount, debit) ==> moved(*old(customer), *final(customer), -units(amount), 0, -units(amount)),
        balanced(*old(customer)) && exact_change(*old(customer), amount, debit) ==> balanced(
            *final(customer),
        ),
{
    let (total, available) = if debit {
        (checked_sub(customer.total, amount), checked_sub(customer.available, amount))
    } else {
        (checked_add(customer.total, amount), checked_add(customer.available, amount))
    };
    match (total, available) {
        (Some(t), Some(a)) => {
            customer.total = t;
            customer.available = a;
        },
        _ => {},
    }
}

/// Applies a deposit of `amount`.
pub fn do_deposit(customer: &mut Customer, amount: Amount)
    requires
        old(customer).wf(),
        amount.wf(),
    ensures
        final(customer).wf(),
        *final(customer) == deposit_result(*old(customer), amount),
        exact_change(*old(customer), amount, false) ==> moved(*old(customer), *final(customer), units(amount), 0, units(amount)),
{
    change_balance(customer, amount, false)
}

/// Applies a withdrawal of `amount`.
pub fn do_withdrawal(customer: &mut Customer, amount: Amount)
    requires
        old(customer).wf(),
        amount.wf(),
    ensures
        final(customer).wf(),
        *final(customer) == withdrawal_result(*old(customer), amount),
        exact_change(*old(customer), amount, true) ==> moved(*old(customer), *final(customer), -units(amount), 0, -units(amount)),
{
    change_balance(customer, amount, true)
}

/// The first record of the customer's log whose transaction id is `tx_id`.
pub fn find_transaction(customer: &Customer, tx_id: u32) -> (r: Option<Transaction>)
    ensures
        r == find_in(customer.transactions@, tx_id),
{
    let n = customer.transactions.len();
    let mut i: usize = 0;
    assert(customer.transactions@.skip(0) =~= customer.transactions@);
    while i < n
        invariant
            n == customer.transactions@.len(),
            0 <= i <= n,
            find_in(customer.transactions@, tx_id) == find_in(customer.transactions@.skip(i as int), tx_id),
        decreases n - i,
    {
        let t = customer.transactions[i];
        let ghost rest = customer.transactions@.skip(i as int);
        if t.tx == tx_id {
            return Some(t);
        }
        assert(rest.skip(1) =~= customer.transactions@.skip(i + 1));
        i += 1;
    }
    assert(customer.transactions@.skip(n as int).len() == 0);
    None
}

/// The amount of the deposit that `reference` names, where the first record
/// of the log with that id is a deposit.
pub fn find_disputed_transaction(customer: &Customer, reference: &Transaction) -> (r: Option<Amount>)
    requires
        customer.wf(),
    ensures
        r == referenced_deposit(*customer, reference.tx),
        r matches Some(a) ==> a.wf(),
{
    match find_transaction(customer, reference.tx) {
        Some(t) => match t.action {
            Action::Deposit(a) => {
                proof { lemma_find_in_member(customer.transactions@, reference.tx); }
                Some(a)
            },
            _ => None,
        },
        None => None,
    }
}

/// A record that `find_in` returns is one of the log's records.
proof fn lemma_find_in_member(log: Seq<Transaction>, id: u32)
    ensures
        find_in(log, id) matches Some(t) ==> exists|i: int| 0 <= i < log.len() && log[i] == t,
    decreases log.len(),
{
    if log.len() > 0 && log[0].tx != id {
        lemma_find_in_member(log.skip(1), id);
        if let Some(t) = find_in(log.skip(1), id) {
            let i = choose|i: int| 0 <= i < log.skip(1).len() && log.skip(1)[i] == t;
            assert(log[i + 1] == t);
        }
    }
}

/// Moves a disputed deposit's amount from available to held.
pub fn dispute_transaction(customer: &mut Customer, amount: Amount)
    requires
        old(customer).wf(),
        amount.wf(),
    ensures
        final(customer).wf(),
        *final(customer) == dispute_result(*old(customer), amount),
        fits_exactly(old(customer).held, amount, units(old(customer).held) + units(amount))
            && fits_exactly(old(customer).available, amount, units(old(customer).available) - units(amount))
            ==> moved(*old(customer), *final(customer), -units(amount), units(amount), 0),
{
    customer.held = saturating_add(customer.held, amount);
    customer.available = saturating_sub(customer.available, amount);
}

/// Moves a disputed deposit's amount from held back to available.
pub fn resolve_transaction(customer: &mut Customer, amount: Amount)
    requires
        old(customer).wf(),
        amount.wf(),
    ensures
        final(customer).wf(),
        *final(customer) == resolve_result(*old(customer), amount),
        fits_exactly(old(customer).held, amount, units(old(customer).held) - units(amount))
            && fits_exactly(old(customer).available, amount, units(old(customer).available) + units(amount))
            ==> moved(*old(customer), *final(customer), units(amount), -units(amount), 0),
{
    customer.held = saturating_sub(customer.held, amount);
    customer.available = saturating_add(customer.available, amount);
}

/// Takes a charged-back deposit's amount out of held and total, and locks
/// the account.
pub fn chargeback_transaction(customer: &mut Customer, amount: Amount)
    requires
        old(customer).wf(),
        amount.wf(),
    ensures
        final(customer).wf(),
        *final(customer) == chargeback_result(*old(customer), amount),
        final(customer).locked,
        fits_exactly(old(customer).held, amount, units(old(customer).held) - units(amount))
            && fits_exactly(old(customer).total, amount, units(old(customer).total) - units(amount))
            ==> moved(*old(customer), *final(customer), 0, -units(amount), -units(amount)),
{
    customer.held = saturating_sub(customer.held, amount);
    customer.total = saturating_sub(customer.total, amount);
    customer.locked = true;
}

/// Applies a dispute record: where it refers to a deposit of the log, that
/// deposit is disputed; where the id is not in the log, or the record it
/// names is no deposit, nothing changes.
pub fn do_dispute(customer: &mut Customer, tx: &Transaction)
    requires
        old(customer).wf(),
    ensures
        final(customer).wf(),
        *final(customer) == match referenced_deposit(*old(customer), tx.tx) {
            Some(a) => dispute_result(*old(customer), a),
            None => *old(customer),
        },
        find_in(old(customer).transactions@, tx.tx) is None ==> *final(customer) == *old(customer),
        find_in(old(customer).transactions@, tx.tx) matches Some(t) && !(t.action is Deposit)
            ==> *final(customer) == *old(customer),
{
    if let Some(amount) = find_disputed_transaction(customer, tx) {
        dispute_transaction(customer, amount);
    }
}

/// Applies a resolve record: where it refers to a deposit of the log, that
/// deposit's amount returns from held to available; else nothing changes.
pub fn do_resolve(customer: &mut Customer, tx: &Transaction)
    requires
        old(customer).wf(),
    ensures
        final(customer).wf(),
        *final(customer) == match referenced_deposit(*old(customer), tx.tx) {
            Some(a) => resolve_result(*old(customer), a),
            None => *old(customer),
        },
{
    if let Some(amount) = find_disputed_transaction(customer, tx) {
        resolve_transaction(customer, amount);
    }
}

/// Applies a chargeback record: where it refers to a deposit of the log,
/// that deposit is charged back and the account locked; else nothing
/// changes.
pub fn do_chargeback(customer: &mut Customer, tx: &Transaction)
    requires
        old(customer).wf(),
    ensures
        final(customer).wf(),
        *final(customer) == match referenced_deposit(*old(customer), tx.tx) {
            Some(a) => chargeback_result(*old(customer), a),
            None => *old(customer),
        },
{
    if let Some(amount) = find_disputed_transaction(customer, tx) {
        chargeback_transaction(customer, amount);
    }
}

/// Applies one record to the account.
pub fn apply_transaction(customer: &mut Customer, tx: &Transaction)
    requires
        old(customer).wf(),
        tx.wf(),
    ensures
        final(customer).wf(),
        *final(customer) == step(*old(customer), *tx),
{
    match tx.action {
        Action::Deposit(amount) => do_deposit(customer, amount),
        Action::Withdrawal(amount) => do_withdrawal(customer, amount),
        Action::Dispute => do_dispute(customer, tx),
        Action::Resolve => do_resolve(customer, tx),
        Action::Chargeback => do_chargeback(customer, tx),
    }
}

/// Replays the customer's whole log, in order, on its balances, trusting
/// the input stream.
pub fn compute_customer_state(customer: &mut Customer)
    requires
        old(customer).wf(),
    ensures
        final(customer).wf(),
        *final(customer) == replay(*old(customer), old(customer).transactions@),
{
    let policy = Policy::permissive();
    compute_customer_state_with(customer, policy);
    proof {
        lemma_permissive_replay(policy, *old(customer), old(customer).transactions@);
    }
}

/// Choices of how strict the replay is. Both are off in the replay that
/// trusts the input stream.
#[derive(Clone, Copy, Debug, PartialEq, Eq)]
pub struct Policy {
    /// A withdrawal of more than is available is ignored.
    pub reject_overdraft: bool,
    /// Once an account is locked, every further record for it is ignored.
    pub freeze_locked: bool,
}

impl Policy {
    /// No check beyond arithmetic range: the input stream is trusted.
    pub fn permissive() -> (r: Policy)
        ensures
            !r.reject_overdraft,
            !r.freeze_locked,
    {
        Policy { reject_overdraft: false, freeze_locked: false }
    }
}

/// One record applied to the account under a policy.
pub open spec fn step_with(p: Policy, c: Customer, t: Transaction) -> Customer {
    if p.freeze_locked && c.locked {
        c
    } else {
        match t.action {
            Action::Withdrawal(a) => if p.reject_overdraft && units(c.available) < units(a) {
                c
            } else {
                step(c, t)
            },
            _ => step(c, t),
        }
    }
}

/// The records of `log`, applied in order under a policy.
pub open spec fn replay_with(p: Policy, c: Customer, log: Seq<Transaction>) -> Customer
    decreases log.len(),
{
    if log.len() == 0 {
        c
    } else {
        step_with(p, replay_with(p, c, log.drop_last()), log.last())
    }
}

/// With both checks off, a replay under the policy is the plain replay.
pub proof fn lemma_permissive_replay(p: Policy, c: Customer, log: Seq<Transaction>)
    requires
        !p.reject_overdraft,
        !p.freeze_locked,
    ensures
        replay_with(p, c, log) == replay(c, log),
    decreases log.len(),
{
    if log.len() > 0 {
        lemma_permissive_replay(p, c, log.drop_last());
    }
}

/// Applies one record to the account under a policy.
pub fn apply_transaction_with(customer: &mut Customer, tx: &Transaction, policy: Policy)
    requires
        old(customer).wf(),
        tx.wf(),
    ensures
        final(customer).wf(),
        *final(customer) == step_with(policy, *old(customer), *tx),
{
    if policy.freeze_locked && customer.locked {
        return;
    }
    if let Action::Withdrawal(amount) = tx.action {
        if policy.reject_overdraft && less_than(customer.available, amount) {
            return;
        }
    }
    apply_transaction(customer, tx)
}

/// Replays the customer's whole log, in order, under a policy.
pub fn compute_customer_state_with(customer: &mut Customer, policy: Policy)
    requires
        old(customer).wf(),
    ensures
        final(customer).wf(),
        *final(customer) == replay_with(policy, *old(customer), old(customer).transactions@),
{
    let ghost start = *customer;
    let ghost log = customer.transactions@;
    let n = customer.transactions.len();
    let mut i: usize = 0;
    while i < n
        invariant
            n == log.len(),
            0 <= i <= n,
            start == *old(customer),
            log == old(customer).transactions@,
            customer.transactions@ == log,
            customer.wf(),
            *customer == replay_with(policy, start, log.take(i as int)),
        decreases n - i,
    {
        let t = customer.transactions[i];
        assert(t.wf());
        apply_transaction_with(customer, &t, policy);
        assert(log.take(i + 1).drop_last() =~= log.take(i as int));
        i += 1;
    }
    assert(log.take(n as int) =~= log);
}

} // verus!
