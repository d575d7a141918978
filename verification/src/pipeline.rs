//! A whole run: the transactions are routed to the workers, each worker
//! applies its own to a ledger of its own, and the accounts of all workers
//! are brought together.

use crate::account::AccountView;
use crate::account::ClientState;
use crate::data::Transaction;
use crate::data::TransactionView;
use crate::io_ops::inbox;
use crate::io_ops::merge_results;
use crate::io_ops::merged;
use crate::io_ops::merged_accounts;
use crate::io_ops::partition_csv_events;
use crate::io_ops::parts_of;
use crate::io_ops::worker_of;
use crate::laws::law_transaction_touches_one_account;
use crate::ledger::account_views;
use crate::ledger::event_handler;
use crate::ledger::views_of;
use crate::ledger::LedgerView;
use ahash::AHashMap;
use std::collections::BTreeMap;
use vstd::prelude::*;

verus! {

/// The accounts that one worker ends with.
pub open spec fn worker_accounts(txs: Seq<TransactionView>, workers: nat, worker: nat) -> Map<
    u16,
    AccountView,
> {
    LedgerView::empty().process_all(inbox(txs, workers, worker)).accounts
}

/// The accounts of the first `count` workers, brought together.
pub open spec fn merged_upto(txs: Seq<TransactionView>, workers: nat, count: nat) -> Map<
    u16,
    AccountView,
>
    decreases count,
{
    if count == 0 {
        Map::empty()
    } else {
        merged_upto(txs, workers, (count - 1) as nat).union_prefer_right(
            worker_accounts(txs, workers, (count - 1) as nat),
        )
    }
}

/// The accounts that a run over `txs` with `workers` workers ends with.
pub open spec fn final_accounts(txs: Seq<TransactionView>, workers: nat) -> Map<u16, AccountView> {
    merged_upto(txs, workers, workers)
}

proof fn lemma_merged_views(
    parts: Seq<Map<u16, ClientState>>,
    txs: Seq<TransactionView>,
    workers: nat,
)
    requires
        forall|w: int|
            0 <= w < parts.len() ==> account_views(#[trigger] parts[w]) == worker_accounts(
                txs,
                workers,
                w as nat,
            ),
    ensures
        account_views(merged(parts)) == merged_upto(txs, workers, parts.len()),
    decreases parts.len(),
{
    if parts.len() > 0 {
        lemma_merged_views(parts.drop_last(), txs, workers);
    }
}

/// Runs the transactions through `num` workers, one after the other: routes
/// them, lets each worker apply its inbox, and brings the accounts together.
pub fn process_partitioned(events: &Vec<Transaction>, num: usize) -> (results: AHashMap<
    u16,
    ClientState,
>)
    requires
        num > 0,
    ensures
        account_views(merged_accounts(results)) == final_accounts(views_of(events@), num as nat),
{
    let ghost all = views_of(events@);
    let inboxes = partition_csv_events(events, num);
    let mut worker_results: Vec<BTreeMap<u16, ClientState>> = Vec::new();
    let mut worker: usize = 0;
    while worker < num
        invariant
            worker <= num,
            inboxes@.len() == num,
            worker_results@.len() == worker,
            forall|w: int|
                0 <= w < num ==> views_of(#[trigger] inboxes@[w]@) == inbox(
                    all,
                    num as nat,
                    w as nat,
                ),
            forall|w: int|
                0 <= w < worker ==> account_views(#[trigger] worker_results@[w]@)
                    == worker_accounts(all, num as nat, w as nat),
        decreases num - worker,
    {
        let accounts = event_handler(&inboxes[worker]);
        worker_results.push(accounts);
        worker = worker + 1;
    }
    let results = merge_results(&worker_results);
    proof {
        lemma_merged_views(parts_of(worker_results@), all, num as nat);
    }
    results
}

/// Whether some transaction of `txs` is of the client `client_id`.
pub open spec fn mentions(txs: Seq<TransactionView>, client_id: u16) -> bool {
    exists|i: int| 0 <= i < txs.len() && (#[trigger] txs[i]).client_id == client_id
}

proof fn lemma_mentions_step(txs: Seq<TransactionView>, client_id: u16)
    requires
        txs.len() > 0,
    ensures
        mentions(txs, client_id) <==> (mentions(txs.drop_last(), client_id)
            || txs.last().client_id == client_id),
{
    let before = txs.drop_last();
    if mentions(txs, client_id) {
        let i = choose|i: int| 0 <= i < txs.len() && (#[trigger] txs[i]).client_id == client_id;
        if i < before.len() {
            assert(before[i].client_id == client_id);
        }
    }
}

/// After a sequence of transactions a ledger holds the accounts it held
/// before and one more for each client that the sequence names.
pub proof fn law_accounts_after(ledger: LedgerView, txs: Seq<TransactionView>, client_id: u16)
    ensures
        ledger.process_all(txs).accounts.contains_key(client_id) <==> (
        ledger.accounts.contains_key(client_id) || mentions(txs, client_id)),
    decreases txs.len(),
{
    if txs.len() > 0 {
        law_accounts_after(ledger, txs.drop_last(), client_id);
        law_transaction_touches_one_account(ledger.process_all(txs.drop_last()), txs.last());
        lemma_mentions_step(txs, client_id);
    }
}

/// An inbox names the clients of its worker, all of them that the input
/// names, and no others.
pub proof fn law_inbox_clients(
    txs: Seq<TransactionView>,
    workers: nat,
    worker: nat,
    client_id: u16,
)
    ensures
        mentions(inbox(txs, workers, worker), client_id) <==> (mentions(txs, client_id)
            && worker_of(client_id, workers) == worker),
    decreases txs.len(),
{
    let routed = inbox(txs, workers, worker);
    if txs.len() > 0 {
        law_inbox_clients(txs.drop_last(), workers, worker, client_id);
        lemma_mentions_step(txs, client_id);
        if worker_of(txs.last().client_id, workers) == worker {
            assert(routed.drop_last() =~= inbox(txs.drop_last(), workers, worker));
            lemma_mentions_step(routed, client_id);
        }
    }
}

/// A worker ends with an account for each client it owns that the input
/// names, and with no other.
pub proof fn law_worker_owns_its_clients(
    txs: Seq<TransactionView>,
    workers: nat,
    worker: nat,
    client_id: u16,
)
    ensures
        worker_accounts(txs, workers, worker).contains_key(client_id) <==> (mentions(
            txs,
            client_id,
        ) && worker_of(client_id, workers) == worker),
{
    law_accounts_after(LedgerView::empty(), inbox(txs, workers, worker), client_id);
    law_inbox_clients(txs, workers, worker, client_id);
}

/// No client has an account with two workers, so that bringing the accounts
/// together never has to choose between two accounts of one client.
pub proof fn law_workers_share_no_client(
    txs: Seq<TransactionView>,
    workers: nat,
    one: nat,
    other: nat,
)
    requires
        one != other,
    ensures
        worker_accounts(txs, workers, one).dom().disjoint(
            worker_accounts(txs, workers, other).dom(),
        ),
{
    assert forall|id: u16|
        !(worker_accounts(txs, workers, one).dom().contains(id) && worker_accounts(
            txs,
            workers,
            other,
        ).dom().contains(id)) by {
        law_worker_owns_its_clients(txs, workers, one, id);
        law_worker_owns_its_clients(txs, workers, other, id);
    }
}

proof fn lemma_merged_upto(txs: Seq<TransactionView>, workers: nat, count: nat, client_id: u16)
    ensures
        merged_upto(txs, workers, count).contains_key(client_id) <==> (worker_of(
            client_id,
            workers,
        ) < count && mentions(txs, client_id)),
        merged_upto(txs, workers, count).contains_key(client_id) ==> merged_upto(
            txs,
            workers,
            count,
        )[client_id] == worker_accounts(txs, workers, worker_of(client_id, workers))[client_id],
    decreases count,
{
    if count > 0 {
        let last = (count - 1) as nat;
        lemma_merged_upto(txs, workers, last, client_id);
        law_worker_owns_its_clients(txs, workers, last, client_id);
    }
}

/// A run ends with one account for each client that the input names, and it
/// is the account that the worker who owns the client ends with.
pub proof fn law_final_account_is_the_owners(
    txs: Seq<TransactionView>,
    workers: nat,
    client_id: u16,
)
    requires
        workers > 0,
    ensures
        final_accounts(txs, workers).contains_key(client_id) <==> mentions(txs, client_id),
        mentions(txs, client_id) ==> final_accounts(txs, workers)[client_id] == worker_accounts(
            txs,
            workers,
            worker_of(client_id, workers),
        )[client_id],
{
    lemma_merged_upto(txs, workers, workers, client_id);
}

/// For a fixed number of workers, the account that a client ends with is
/// settled by the transactions of the worker who owns the client, in their
/// order: two inputs that route the same transactions to that worker, in the
/// same order, give the client the same account, however the transactions of
/// the other workers are placed among them.
pub proof fn law_partition_determinism(
    first: Seq<TransactionView>,
    second: Seq<TransactionView>,
    workers: nat,
    client_id: u16,
)
    requires
        workers > 0,
        inbox(first, workers, worker_of(client_id, workers)) == inbox(
            second,
            workers,
            worker_of(client_id, workers),
        ),
    ensures
        final_accounts(first, workers).contains_key(client_id) <==> final_accounts(
            second,
            workers,
        ).contains_key(client_id),
        final_accounts(first, workers).contains_key(client_id) ==> final_accounts(
            first,
            workers,
        )[client_id] == final_accounts(second, workers)[client_id],
{
    let owner = worker_of(client_id, workers);
    law_final_account_is_the_owners(first, workers, client_id);
    law_final_account_is_the_owners(second, workers, client_id);
    law_worker_owns_its_clients(first, workers, owner, client_id);
    law_worker_owns_its_clients(second, workers, owner, client_id);
}

/// The inbox of a worker for two inputs one after the other is its inbox
/// for the first followed by its inbox for the second.
pub proof fn lemma_inbox_of_concatenation(
    first: Seq<TransactionView>,
    second: Seq<TransactionView>,
    workers: nat,
    worker: nat,
)
    ensures
        inbox(first + second, workers, worker) == inbox(first, workers, worker) + inbox(
            second,
            workers,
            worker,
        ),
    decreases second.len(),
{
    if second.len() > 0 {
        lemma_inbox_of_concatenation(first, second.drop_last(), workers, worker);
        assert((first + second).drop_last() =~= first + second.drop_last());
    }
}

/// `txs` with the transactions at `at` and `at + 1` in each other's place.
pub open spec fn swapped(txs: Seq<TransactionView>, at: int) -> Seq<TransactionView>
    recommends
        0 <= at,
        at + 1 < txs.len(),
{
    txs.update(at, txs[at + 1]).update(at + 1, txs[at])
}

proof fn lemma_inbox_of_pair(a: TransactionView, b: TransactionView, workers: nat, worker: nat)
    ensures
        inbox(seq![a, b], workers, worker) == inbox(seq![a], workers, worker) + inbox(
            seq![b],
            workers,
            worker,
        ),
        inbox(seq![a], workers, worker) == (if worker_of(a.client_id, workers) == worker {
            seq![a]
        } else {
            Seq::empty()
        }),
{
    assert(seq![a, b] =~= seq![a] + seq![b]);
    lemma_inbox_of_concatenation(seq![a], seq![b], workers, worker);
    assert(seq![a].drop_last() =~= Seq::empty());
    assert(inbox(Seq::empty(), workers, worker) =~= Seq::empty());
}

proof fn lemma_swap_keeps_inbox(txs: Seq<TransactionView>, at: int, workers: nat, worker: nat)
    requires
        0 <= at,
        at + 1 < txs.len(),
        worker_of(txs[at].client_id, workers) != worker_of(txs[at + 1].client_id, workers),
    ensures
        inbox(swapped(txs, at), workers, worker) == inbox(txs, workers, worker),
{
    let head = txs.subrange(0, at);
    let tail = txs.subrange(at + 2, txs.len() as int);
    let a = txs[at];
    let b = txs[at + 1];
    assert(txs =~= head + seq![a, b] + tail);
    assert(swapped(txs, at) =~= head + seq![b, a] + tail);
    lemma_inbox_of_concatenation(head + seq![a, b], tail, workers, worker);
    lemma_inbox_of_concatenation(head, seq![a, b], workers, worker);
    lemma_inbox_of_concatenation(head + seq![b, a], tail, workers, worker);
    lemma_inbox_of_concatenation(head, seq![b, a], workers, worker);
    lemma_inbox_of_pair(a, b, workers, worker);
    lemma_inbox_of_pair(b, a, workers, worker);
}

proof fn lemma_same_inboxes_same_merge(
    first: Seq<TransactionView>,
    second: Seq<TransactionView>,
    workers: nat,
    count: nat,
)
    requires
        forall|worker: nat| inbox(first, workers, worker) == inbox(second, workers, worker),
    ensures
        merged_upto(first, workers, count) == merged_upto(second, workers, count),
    decreases count,
{
    if count > 0 {
        lemma_same_inboxes_same_merge(first, second, workers, (count - 1) as nat);
    }
}

/// Two transactions that stand next to each other and belong to clients of
/// different workers can change places without any account ending
/// differently.
pub proof fn law_order_across_workers_is_free(txs: Seq<TransactionView>, at: int, workers: nat)
    requires
        0 <= at,
        at + 1 < txs.len(),
        worker_of(txs[at].client_id, workers) != worker_of(txs[at + 1].client_id, workers),
    ensures
        final_accounts(swapped(txs, at), workers) == final_accounts(txs, workers),
{
    assert forall|worker: nat|
        inbox(swapped(txs, at), workers, worker) == inbox(txs, workers, worker) by {
        lemma_swap_keeps_inbox(txs, at, workers, worker);
    }
    lemma_same_inboxes_same_merge(swapped(txs, at), txs, workers, workers);
}

} // verus!
