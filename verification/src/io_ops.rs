//! The two ends of a run: routing the incoming transactions to the workers,
//! and laying out the final accounts as records.

use crate::account::AccountView;
use crate::account::ClientState;
use crate::data::Transaction;
use crate::data::TransactionView;
use crate::decimal::decimal_text;
use crate::decimal::rounded_half_away;
use crate::decimal::Amount;
use crate::decimal::DecimalValue;
use crate::ledger::views_of;
use crate::text::bool_string;
use crate::text::bool_text;
use crate::text::decimal_digits;
use crate::text::decimal_string;
use ahash::AHashMap;
use ahash::RandomState;
use std::collections::BTreeMap;
use vstd::prelude::*;

verus! {

/// The number of fractional digits that amounts are reported with.
pub const REPORT_PLACES: u32 = 4;

/// The worker that owns a client: the client's identifier modulo the number
/// of workers.
pub open spec fn worker_of(client_id: u16, workers: nat) -> nat
    recommends
        workers > 0,
{
    (client_id as nat) % workers
}

/// The transactions that are routed to one worker, in the order in which
/// they arrived.
pub open spec fn inbox(txs: Seq<TransactionView>, workers: nat, worker: nat) -> Seq<
    TransactionView,
>
    decreases txs.len(),
{
    if txs.len() == 0 {
        Seq::empty()
    } else {
        let before = inbox(txs.drop_last(), workers, worker);
        if worker_of(txs.last().client_id, workers) == worker {
            before.push(txs.last())
        } else {
            before
        }
    }
}

/// The worker that a transaction of `client_id` goes to, out of `num`.
pub fn worker_index(client_id: u16, num: usize) -> (index: usize)
    requires
        num > 0,
    ensures
        index == worker_of(client_id, num as nat),
        index < num,
{
    client_id as usize % num
}

/// Routes each transaction to the inbox of the worker that owns its client.
/// Every transaction of a client ends up in the same inbox, and each inbox
/// holds its transactions in the order in which they arrived.
pub fn partition_csv_events(events: &Vec<Transaction>, num: usize) -> (inboxes: Vec<
    Vec<Transaction>,
>)
    requires
        num > 0,
    ensures
        inboxes@.len() == num,
        forall|worker: int|
            0 <= worker < num ==> views_of(#[trigger] inboxes@[worker]@) == inbox(
                views_of(events@),
                num as nat,
                worker as nat,
            ),
{
    let ghost all = views_of(events@);
    let mut inboxes: Vec<Vec<Transaction>> = Vec::new();
    let mut worker: usize = 0;
    while worker < num
        invariant
            worker <= num,
            inboxes@.len() == worker,
            forall|w: int| 0 <= w < worker ==> (#[trigger] inboxes@[w])@ =~= Seq::empty(),
        decreases num - worker,
    {
        inboxes.push(Vec::new());
        worker = worker + 1;
    }
    let mut i: usize = 0;
    while i < events.len()
        invariant
            num > 0,
            i <= events.len(),
            all == views_of(events@),
            inboxes@.len() == num,
            forall|w: int|
                0 <= w < num ==> views_of(#[trigger] inboxes@[w]@) == inbox(
                    all.take(i as int),
                    num as nat,
                    w as nat,
                ),
        decreases events.len() - i,
    {
        let tx = events[i];
        let target = worker_index(tx.client_id(), num);
        inboxes[target].push(tx);
        assert(all.take(i + 1).drop_last() =~= all.take(i as int));
        i = i + 1;
    }
    assert(all.take(i as int) =~= all);
    inboxes
}

/// An amount as it is reported: rounded to four fractional digits, a tie
/// going away from zero, in decimal notation.
pub open spec fn reported_text(value: DecimalValue) -> Seq<char> {
    decimal_text(rounded_half_away(value, REPORT_PLACES as nat))
}

/// The amount as it is reported.
pub fn round_decimal(v: Amount) -> (text: String)
    ensures
        text@ == reported_text(v@),
{
    v.round_half_away(REPORT_PLACES).to_string()
}

/// The hasher of a map of `ahash`.
#[verifier::external_type_specification]
#[verifier::external_body]
pub struct ExRandomState(RandomState);

/// The hash map of `ahash`, in which the accounts of all workers are brought
/// together.
#[verifier::external_type_specification]
#[verifier::external_body]
#[verifier::reject_recursive_types(K)]
#[verifier::reject_recursive_types(V)]
#[verifier::reject_recursive_types(S)]
pub struct ExAHashMap<K, V, S>(AHashMap<K, V, S>);

/// The accounts that a map of results holds, by client.
pub uninterp spec fn merged_accounts(results: AHashMap<u16, ClientState>) -> Map<u16, ClientState>;

/// Whether `order` names every client of `accounts`, each of them once.
pub open spec fn lists_clients(order: Seq<u16>, accounts: Map<u16, ClientState>) -> bool {
    &&& order.no_duplicates()
    &&& forall|id: u16| order.contains(id) <==> accounts.contains_key(id)
}

/// The clients of a sequence of entries, in its order.
pub open spec fn clients_of(entries: Seq<(u16, ClientState)>) -> Seq<u16> {
    Seq::new(entries.len(), |i: int| entries[i].0)
}

/// Calls `AHashMap::new`, which makes a map that holds nothing.
#[verifier::external_body]
fn results_new() -> (results: AHashMap<u16, ClientState>)
    ensures
        merged_accounts(results) == (Map::<u16, ClientState>::empty()),
{
    AHashMap::new()
}

/// Calls `extend` of `AHashMap`, which hands the entries on to `extend` of
/// the hash map of std: each entry is put in, and takes the place of an entry
/// that the map held under the same key.
#[verifier::external_body]
fn results_extend(results: &mut AHashMap<u16, ClientState>, accounts: &BTreeMap<u16, ClientState>)
    ensures
        merged_accounts(*final(results)) == merged_accounts(*old(results)).union_prefer_right(
            accounts@,
        ),
{
    results.extend(accounts);
}

/// Calls `into_iter` of `AHashMap`, which walks the map in an order of its
/// own choosing. The contract claims that each entry of the map comes out
/// once, and nothing else; of the order it claims nothing.
#[verifier::external_body]
fn results_entries(results: AHashMap<u16, ClientState>) -> (entries: Vec<(u16, ClientState)>)
    ensures
        lists_clients(clients_of(entries@), merged_accounts(results)),
        forall|i: int|
            0 <= i < entries@.len() ==> merged_accounts(results)[(#[trigger] entries@[i]).0]
                == entries@[i].1,
{
    results.into_iter().collect()
}

/// Brings the accounts of all workers together in one map. Where two
/// workers hold an account of the same client, that of the later worker
/// stays.
pub open spec fn merged(parts: Seq<Map<u16, ClientState>>) -> Map<u16, ClientState>
    decreases parts.len(),
{
    if parts.len() == 0 {
        Map::empty()
    } else {
        merged(parts.drop_last()).union_prefer_right(parts.last())
    }
}

/// The accounts of each of a sequence of maps.
pub open spec fn parts_of(worker_results: Seq<BTreeMap<u16, ClientState>>) -> Seq<
    Map<u16, ClientState>,
> {
    Seq::new(worker_results.len(), |i: int| worker_results[i]@)
}

/// Brings the accounts that the workers hand over together in one map.
pub fn merge_results(worker_results: &Vec<BTreeMap<u16, ClientState>>) -> (results: AHashMap<
    u16,
    ClientState,
>)
    ensures
        merged_accounts(results) == merged(parts_of(worker_results@)),
{
    let ghost parts = parts_of(worker_results@);
    let mut results = results_new();
    let mut i: usize = 0;
    while i < worker_results.len()
        invariant
            i <= worker_results.len(),
            parts == parts_of(worker_results@),
            merged_accounts(results) == merged(parts.take(i as int)),
        decreases worker_results.len() - i,
    {
        assert(parts.take(i + 1).drop_last() =~= parts.take(i as int));
        results_extend(&mut results, &worker_results[i]);
        i = i + 1;
    }
    assert(parts.take(i as int) =~= parts);
    results
}

/// The text of each field of a record.
pub open spec fn record_text(record: Vec<String>) -> Seq<Seq<char>> {
    Seq::new(record@.len(), |i: int| record@[i]@)
}

/// The names of the fields of a record.
pub open spec fn header_text() -> Seq<Seq<char>> {
    seq!["client"@, "available"@, "held"@, "total"@, "locked"@]
}

/// The record of an account: its client, its available, held and total
/// funds as they are reported, and whether it is locked.
pub open spec fn account_text(account: AccountView) -> Seq<Seq<char>> {
    seq![
        decimal_digits(account.client_id as nat),
        reported_text(account.available),
        reported_text(account.held),
        reported_text(account.total()),
        bool_text(account.locked),
    ]
}

/// The record that names the fields.
pub fn header_record() -> (record: Vec<String>)
    ensures
        record_text(record) == header_text(),
{
    let mut record: Vec<String> = Vec::new();
    record.push(String::from_str("client"));
    record.push(String::from_str("available"));
    record.push(String::from_str("held"));
    record.push(String::from_str("total"));
    record.push(String::from_str("locked"));
    record
}

/// The record of one account.
pub fn account_record(client: &ClientState) -> (record: Vec<String>)
    ensures
        record_text(record) == account_text(client@),
{
    let mut record: Vec<String> = Vec::new();
    record.push(decimal_string(client.id() as u32));
    record.push(round_decimal(client.available()));
    record.push(round_decimal(client.held()));
    record.push(round_decimal(client.total()));
    record.push(bool_string(client.is_locked()));
    record
}

/// Whether `records` lays out `accounts` in the given order of their
/// clients: first the record that names the fields, then the record of each
/// account.
pub open spec fn lays_out(
    records: Seq<Vec<String>>,
    accounts: Map<u16, ClientState>,
    order: Seq<u16>,
) -> bool {
    &&& lists_clients(order, accounts)
    &&& records.len() == order.len() + 1
    &&& record_text(records[0]) == header_text()
    &&& forall|i: int|
        0 <= i < order.len() ==> record_text(#[trigger] records[i + 1]) == account_text(
            accounts[order[i]]@,
        )
}

/// Lays out the final accounts: the record that names the fields, then one
/// record for each client. The order of the clients is that in which the map
/// hands them out, which it does not fix.
pub fn display_results(results: AHashMap<u16, ClientState>) -> (records: Vec<Vec<String>>)
    ensures
        exists|order: Seq<u16>| lays_out(records@, merged_accounts(results), order),
{
    let entries = results_entries(results);
    let ghost order = clients_of(entries@);
    let mut records: Vec<Vec<String>> = Vec::new();
    records.push(header_record());
    let mut i: usize = 0;
    while i < entries.len()
        invariant
            i <= entries.len(),
            order == clients_of(entries@),
            forall|k: int|
                0 <= k < entries@.len() ==> merged_accounts(results)[(#[trigger] entries@[k]).0]
                    == entries@[k].1,
            records@.len() == i + 1,
            record_text(records@[0]) == header_text(),
            forall|k: int|
                0 <= k < i ==> record_text(#[trigger] records@[k + 1]) == account_text(
                    merged_accounts(results)[order[k]]@,
                ),
        decreases entries.len() - i,
    {
        let record = account_record(&entries[i].1);
        records.push(record);
        i = i + 1;
    }
    assert(lays_out(records@, merged_accounts(results), order));
    records
}

} // verus!
