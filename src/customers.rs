//! All customers' accounts, each created on the first record for its
//! client id, and the replay of every account's log.
use crate::account::{
    compute_customer_state_with, lemma_permissive_replay, replay, replay_with, Customer, Policy,
};
use crate::amount::units;
use crate::transaction::{parse_transaction, transaction_of, InputTransaction, Rejection, Transaction};
use std::collections::HashMap;
use vstd::prelude::*;

verus! {

broadcast use vstd::std_specs::hash::group_hash_axioms;

/// Accounts by client id, with the ids in the order in which they first
/// appeared.
pub struct CustomerMap {
    ids: Vec<u32>,
    accounts: HashMap<u32, Customer>,
}

/// The log that a customer has in `m`; empty for a customer not yet seen.
pub open spec fn log_of(m: Map<u32, Customer>, client: u32) -> Seq<Transaction> {
    if m.contains_key(client) {
        m[client].transactions@
    } else {
        Seq::empty()
    }
}

impl CustomerMap {
    /// The accounts by client id.
    pub closed spec fn view(&self) -> Map<u32, Customer> {
        self.accounts@
    }

    /// The client ids, in order of first appearance.
    pub closed spec fn order(&self) -> Seq<u32> {
        self.ids@
    }

    /// Each known id stands once in the order, the order holds exactly the
    /// known ids, and every account is well formed.
    pub closed spec fn wf(&self) -> bool {
        &&& self.ids@.no_duplicates()
        &&& forall|k: u32| self.accounts@.contains_key(k) <==> self.ids@.contains(k)
        &&& forall|k: u32| #[trigger] self.accounts@.contains_key(k) ==> self.accounts@[k].wf()
    }

    pub fn new() -> (r: CustomerMap)
        ensures
            r.wf(),
            r.view() == Map::<u32, Customer>::empty(),
            r.order() == Seq::<u32>::empty(),
    {
        CustomerMap { ids: Vec::new(), accounts: HashMap::new() }
    }

    /// The number of customers.
    pub fn len(&self) -> (r: usize)
        ensures
            r == self.view().len(),
    {
        self.accounts.len()
    }

    /// The account of a client, if it has one.
    pub fn get(&self, client: &u32) -> (r: Option<&Customer>)
        ensures
            match r {
                Some(c) => self.view().contains_key(*client) && *c == self.view()[*client],
                None => !self.view().contains_key(*client),
            },
    {
        self.accounts.get(client)
    }

    /// The client ids, in order of first appearance.
    pub fn ids(&self) -> (r: &Vec<u32>)
        ensures
            r@ == self.order(),
    {
        &self.ids
    }
}

/// Appends an accepted record to its customer's log, creating the account
/// (with zero balances) on the customer's first record.
pub fn append_transaction(customers: &mut CustomerMap, t: Transaction)
    requires
        old(customers).wf(),
        t.wf(),
    ensures
        final(customers).wf(),
        final(customers).view().dom() == old(customers).view().dom().insert(t.client),
        forall|k: u32|
            k != t.client && old(customers).view().contains_key(k) ==> final(customers).view()[k]
                == old(customers).view()[k],
        final(customers).view()[t.client].transactions@ == log_of(old(customers).view(), t.client).push(t),
        old(customers).view().contains_key(t.client) ==> {
            let (was, now) = (old(customers).view()[t.client], final(customers).view()[t.client]);
            now.available == was.available && now.held == was.held && now.total == was.total
                && now.locked == was.locked
        },
        !old(customers).view().contains_key(t.client) ==> {
            let now = final(customers).view()[t.client];
            units(now.available) == 0 && units(now.held) == 0 && units(now.total) == 0 && !now.locked
        },
        final(customers).order() == if old(customers).view().contains_key(t.client) {
            old(customers).order()
        } else {
            old(customers).order().push(t.client)
        },
{
    let client = t.client;
    match customers.accounts.remove(&client) {
        Some(mut customer) => {
            customer.transactions.push(t);
            customers.accounts.insert(client, customer);
            assert(customers.accounts@ =~= old(customers).accounts@.insert(client, customer));
        },
        None => {
            let mut customer = Customer::new();
            customer.transactions.push(t);
            assert(!old(customers).ids@.contains(client));
            customers.ids.push(client);
            customers.accounts.insert(client, customer);
            assert forall|k: u32| customers.accounts@.contains_key(k) <==> customers.ids@.contains(k) by {
                if k != client && customers.ids@.contains(k) {
                    let j = choose|j: int| 0 <= j < customers.ids@.len() && customers.ids@[j] == k;
                    assert(old(customers).ids@[j] == k);
                }
                if k == client {
                    assert(customers.ids@[customers.ids@.len() - 1] == k);
                }
                if old(customers).ids@.contains(k) {
                    let j = choose|j: int| 0 <= j < old(customers).ids@.len() && old(customers).ids@[j] == k;
                    assert(customers.ids@[j] == k);
                }
            }
        },
    }
    assert forall|k: u32| #[trigger] customers.accounts@.contains_key(k) implies customers.accounts@[k].wf() by {
        if k == client {
            let c = customers.accounts@[k];
            assert forall|i: int| 0 <= i < c.transactions@.len() implies (#[trigger] c.transactions@[i]).wf() by {
                if i < c.transactions@.len() - 1 {
                    assert(c.transactions@[i] == log_of(old(customers).accounts@, client)[i]);
                }
            }
        }
    }
}

/// Decodes a row and appends it to its customer's log; a row that cannot be
/// decoded is rejected and changes nothing.
pub fn add_customer_transaction(tx: InputTransaction, customers: &mut CustomerMap) -> (r: Result<(), Rejection>)
    requires
        old(customers).wf(),
    ensures
        final(customers).wf(),
        match transaction_of(tx) {
            Err(e) => r == Err::<(), Rejection>(e) && final(customers).view() == old(customers).view()
                && final(customers).order() == old(customers).order(),
            Ok(t) => r is Ok && final(customers).view().dom() == old(customers).view().dom().insert(t.client)
                && final(customers).view()[t.client].transactions@ == log_of(old(customers).view(), t.client).push(t)
                && (forall|k: u32| k != t.client && old(customers).view().contains_key(k)
                    ==> final(customers).view()[k] == old(customers).view()[k])
                && (old(customers).view().contains_key(t.client) ==> {
                    let (was, now) = (old(customers).view()[t.client], final(customers).view()[t.client]);
                    now.available == was.available && now.held == was.held && now.total == was.total
                        && now.locked == was.locked
                })
                && (!old(customers).view().contains_key(t.client) ==> {
                    let now = final(customers).view()[t.client];
                    units(now.available) == 0 && units(now.held) == 0 && units(now.total) == 0 && !now.locked
                })
                && final(customers).order() == if old(customers).view().contains_key(t.client) {
                    old(customers).order()
                } else {
                    old(customers).order().push(t.client)
                },
        },
{
    match parse_transaction(&tx) {
        Ok(t) => {
            append_transaction(customers, t);
            Ok(())
        },
        Err(e) => Err(e),
    }
}

/// Replays every customer's log on its balances under a policy.
pub fn compute_customer_state_from_transactions_with(customers: &mut CustomerMap, policy: Policy)
    requires
        old(customers).wf(),
    ensures
        final(customers).wf(),
        final(customers).order() == old(customers).order(),
        final(customers).view().dom() == old(customers).view().dom(),
        forall|k: u32| #[trigger] old(customers).view().contains_key(k) ==> final(customers).view()[k]
            == replay_with(policy, old(customers).view()[k], old(customers).view()[k].transactions@),
{
    let ghost start = customers.accounts@;
    let n = customers.ids.len();
    let mut i: usize = 0;
    while i < n
        invariant
            0 <= i <= n,
            n == customers.ids@.len(),
            customers.ids@ == old(customers).ids@,
            start == old(customers).accounts@,
            customers.wf(),
            customers.accounts@.dom() == start.dom(),
            forall|j: int| 0 <= j < i ==> #[trigger] customers.accounts@[customers.ids@[j]] == replay_with(
                policy,
                start[customers.ids@[j]],
                start[customers.ids@[j]].transactions@,
            ),
            forall|j: int| i <= j < n ==> #[trigger] customers.accounts@[customers.ids@[j]] == start[customers.ids@[j]],
        decreases n - i,
    {
        let client = customers.ids[i];
        assert(customers.ids@.contains(client));
        let ghost before = customers.accounts@;
        if let Some(mut customer) = customers.accounts.remove(&client) {
            compute_customer_state_with(&mut customer, policy);
            customers.accounts.insert(client, customer);
            assert(customers.accounts@ =~= before.insert(client, customer));
        }
        assert forall|j: int| 0 <= j < n && j != i implies customers.ids@[j] != client by {
            assert(customers.ids@.no_duplicates());
        }
        i += 1;
    }
    assert forall|k: u32| #[trigger] start.contains_key(k) implies customers.accounts@[k] == replay_with(
        policy,
        start[k],
        start[k].transactions@,
    ) by {
        assert(customers.ids@.contains(k));
        let j = choose|j: int| 0 <= j < n && customers.ids@[j] == k;
        assert(customers.accounts@[customers.ids@[j]] == replay_with(
            policy,
            start[customers.ids@[j]],
            start[customers.ids@[j]].transactions@,
        ));
    }
}

/// Replays every customer's log on its balances, trusting the input stream.
pub fn compute_customer_state_from_transactions(customers: &mut CustomerMap)
    requires
        old(customers).wf(),
    ensures
        final(customers).wf(),
        final(customers).order() == old(customers).order(),
        final(customers).view().dom() == old(customers).view().dom(),
        forall|k: u32| #[trigger] old(customers).view().contains_key(k) ==> final(customers).view()[k]
            == replay(old(customers).view()[k], old(customers).view()[k].transactions@),
{
    let policy = Policy::permissive();
    compute_customer_state_from_transactions_with(customers, policy);
    assert forall|k: u32| #[trigger] old(customers).view().contains_key(k) implies final(customers).view()[k]
        == replay(old(customers).view()[k], old(customers).view()[k].transactions@) by {
        lemma_permissive_replay(policy, old(customers).view()[k], old(customers).view()[k].transactions@);
    }
}

/// The records that the rows decode to for one client, in row order.
pub open spec fn accepted_log(rows: Seq<InputTransaction>, client: u32) -> Seq<Transaction>
    decreases rows.len(),
{
    if rows.len() == 0 {
        Seq::empty()
    } else {
        let prior = accepted_log(rows.drop_last(), client);
        match transaction_of(rows.last()) {
            Ok(t) => if t.client == client {
                prior.push(t)
            } else {
                prior
            },
            Err(_) => prior,
        }
    }
}

/// The number of rows that do not decode to a record.
pub open spec fn rejected_count(rows: Seq<InputTransaction>) -> nat
    decreases rows.len(),
{
    if rows.len() == 0 {
        0
    } else {
        rejected_count(rows.drop_last()) + if transaction_of(rows.last()) is Err {
            1nat
        } else {
            0nat
        }
    }
}

/// How many rows were read, and how many of them were rejected.
#[derive(Clone, Copy, Debug, PartialEq, Eq)]
pub struct IngestCounts {
    pub read: usize,
    pub rejected: usize,
}

/// Adds each row, in order, to its customer's log; rows that do not decode
/// are counted and skipped.
pub fn organize_transactions_by_customer(customers: &mut CustomerMap, rows: &Vec<InputTransaction>) -> (r: IngestCounts)
    requires
        old(customers).wf(),
    ensures
        final(customers).wf(),
        r.read == rows@.len(),
        r.rejected == rejected_count(rows@),
        forall|k: u32| #[trigger] log_of(final(customers).view(), k) == log_of(old(customers).view(), k) + accepted_log(rows@, k),
        forall|k: u32| #[trigger] final(customers).view().contains_key(k) ==> old(customers).view().contains_key(k)
            || accepted_log(rows@, k).len() > 0,
{
    let n = rows.len();
    let mut rejected: usize = 0;
    let mut i: usize = 0;
    let ghost start = customers.view();
    while i < n
        invariant
            0 <= i <= n,
            n == rows@.len(),
            start == old(customers).view(),
            customers.wf(),
            rejected == rejected_count(rows@.take(i as int)),
            rejected <= i,
            forall|k: u32| #[trigger] log_of(customers.view(), k) == log_of(start, k) + accepted_log(rows@.take(i as int), k),
            forall|k: u32| #[trigger] customers.view().contains_key(k) ==> start.contains_key(k)
                || accepted_log(rows@.take(i as int), k).len() > 0,
        decreases n - i,
    {
        let ghost before = customers.view();
        let ghost seen = rows@.take(i as int);
        assert(rows@.take(i + 1).drop_last() =~= seen);
        assert(rows@.take(i + 1).last() == rows@[i as int]);
        match parse_transaction(&rows[i]) {
            Ok(t) => append_transaction(customers, t),
            Err(_) => {
                rejected = rejected + 1;
            },
        }
        proof {
            assert forall|k: u32| #[trigger] log_of(customers.view(), k) == log_of(start, k) + accepted_log(rows@.take(i + 1), k) by {
                assert(log_of(before, k) == log_of(start, k) + accepted_log(seen, k));
                match transaction_of(rows@[i as int]) {
                    Ok(t) => {
                        if k == t.client {
                            assert(log_of(start, k) + accepted_log(seen, k).push(t) =~= (log_of(start, k) + accepted_log(seen, k)).push(t));
                        } else {
                            assert(log_of(customers.view(), k) == log_of(before, k));
                        }
                    },
                    Err(_) => {},
                }
            }
            assert forall|k: u32| #[trigger] customers.view().contains_key(k) implies start.contains_key(k)
                || accepted_log(rows@.take(i + 1), k).len() > 0 by {
                if !before.contains_key(k) && !start.contains_key(k) {
                    assert(accepted_log(rows@.take(i + 1), k).len() > 0);
                } else if before.contains_key(k) && !start.contains_key(k) {
                    assert(accepted_log(seen, k).len() > 0);
                    assert(accepted_log(rows@.take(i + 1), k).len() >= accepted_log(seen, k).len());
                }
            }
        }
        i += 1;
    }
    assert(rows@.take(n as int) =~= rows@);
    IngestCounts { read: n, rejected }
}

} // verus!
