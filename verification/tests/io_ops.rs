use ahash::AHashMap;
use std::collections::BTreeMap;
use transaction_processor::account::ClientState;
use transaction_processor::data::Transaction;
use transaction_processor::data::TransactionType;
use transaction_processor::decimal::Amount;
use transaction_processor::io_ops::account_record;
use transaction_processor::io_ops::display_results;
use transaction_processor::io_ops::header_record;
use transaction_processor::io_ops::merge_results;
use transaction_processor::io_ops::partition_csv_events;
use transaction_processor::io_ops::round_decimal;
use transaction_processor::io_ops::worker_index;
use transaction_processor::ledger::event_handler;
use transaction_processor::pipeline::process_partitioned;
use transaction_processor::text::bool_string;
use transaction_processor::text::decimal_string;

fn amount(mantissa: i128, scale: u32) -> Amount {
    Amount::new(mantissa, scale).unwrap()
}

fn parts(value: Amount) -> (i128, u32) {
    (value.mantissa(), value.scale())
}

fn tx(tx_type: TransactionType, client_id: u16, tx_id: u32, units: Option<i128>) -> Transaction {
    Transaction {
        tx_type,
        client_id,
        tx_id,
        amount: units.map(|units| amount(units, 0)),
        in_dispute: false,
    }
}

fn ids(inbox: &Vec<Transaction>) -> Vec<u32> {
    inbox.iter().map(|tx| tx.tx_id()).collect()
}

fn snapshot(
    results: &AHashMap<u16, ClientState>,
) -> BTreeMap<u16, ((i128, u32), (i128, u32), bool)> {
    results
        .iter()
        .map(|(id, state)| {
            assert_eq!(*id, state.id());
            (*id, (parts(state.available()), parts(state.held()), state.is_locked()))
        })
        .collect()
}

fn sample_events() -> Vec<Transaction> {
    vec![
        tx(TransactionType::Deposit, 1, 1, Some(100)),
        tx(TransactionType::Deposit, 2, 2, Some(50)),
        tx(TransactionType::Deposit, 3, 3, Some(70)),
        tx(TransactionType::Withdrawal, 1, 4, Some(30)),
        tx(TransactionType::Dispute, 2, 2, None),
        tx(TransactionType::Withdrawal, 3, 5, Some(700)),
        tx(TransactionType::Dispute, 1, 1, None),
        tx(TransactionType::Chargeback, 2, 2, None),
        tx(TransactionType::Resolve, 1, 1, None),
        tx(TransactionType::Deposit, 2, 6, Some(1)),
        tx(TransactionType::Dispute, 4, 3, None),
        tx(TransactionType::Deposit, 6, 7, Some(9)),
    ]
}

#[test]
fn worker_is_client_modulo_workers() {
    assert_eq!(worker_index(0, 4), 0);
    assert_eq!(worker_index(7, 4), 3);
    assert_eq!(worker_index(8, 4), 0);
    assert_eq!(worker_index(65_535, 1), 0);
    assert_eq!(worker_index(65_535, 65_536), 65_535);
    assert_eq!(worker_index(65_535, 16), 15);
    assert_eq!(worker_index(12, 5), 2);
}

#[test]
fn partition_keeps_arrival_order_within_each_inbox() {
    let events = sample_events();
    let inboxes = partition_csv_events(&events, 3);
    assert_eq!(inboxes.len(), 3);
    assert_eq!(ids(&inboxes[0]), vec![3, 5, 7]);
    assert_eq!(ids(&inboxes[1]), vec![1, 4, 1, 1, 3]);
    assert_eq!(ids(&inboxes[2]), vec![2, 2, 2, 6]);
    for (worker, inbox) in inboxes.iter().enumerate() {
        for routed in inbox {
            assert_eq!(routed.client_id() as usize % 3, worker);
        }
    }
    let alone = partition_csv_events(&events, 1);
    assert_eq!(ids(&alone[0]), ids(&events));
    let none = partition_csv_events(&Vec::new(), 2);
    assert_eq!(none.len(), 2);
    assert!(none[0].is_empty() && none[1].is_empty());
}

#[test]
fn amounts_are_reported_with_at_most_four_digits() {
    assert_eq!(round_decimal(amount(100, 0)), "100");
    assert_eq!(round_decimal(amount(15, 1)), "1.5");
    assert_eq!(round_decimal(amount(12_345, 4)), "1.2345");
    assert_eq!(round_decimal(amount(123_455, 5)), "1.2346");
    assert_eq!(round_decimal(amount(123_454, 5)), "1.2345");
    assert_eq!(round_decimal(amount(-123_455, 5)), "-1.2346");
    assert_eq!(round_decimal(amount(-123_454, 5)), "-1.2345");
    assert_eq!(round_decimal(amount(5, 5)), "0.0001");
    assert_eq!(round_decimal(amount(49_999, 9)), "0.0000");
    assert_eq!(round_decimal(amount(1_000_000, 6)), "1.0000");
}

#[test]
fn numbers_and_flags_are_spelled_out() {
    assert_eq!(decimal_string(0), "0");
    assert_eq!(decimal_string(9), "9");
    assert_eq!(decimal_string(10), "10");
    assert_eq!(decimal_string(4_294_967_295), "4294967295");
    assert_eq!(bool_string(true), "true");
    assert_eq!(bool_string(false), "false");
}

#[test]
fn record_of_an_account_has_five_fields() {
    assert_eq!(header_record(), vec!["client", "available", "held", "total", "locked"]);
    let state = ClientState {
        client_id: 42,
        available: amount(1_234_567, 6),
        held: amount(-5, 1),
        locked: true,
    };
    assert_eq!(account_record(&state), vec!["42", "1.2346", "-0.5", "0.7346", "true"]);
    assert_eq!(account_record(&ClientState::new(7)), vec!["7", "0", "0", "0", "false"]);
}

#[test]
fn merged_results_hold_every_account_once() {
    let mut first = BTreeMap::new();
    first.insert(2u16, ClientState::new(2));
    first.insert(4u16, ClientState { locked: true, ..ClientState::new(4) });
    let mut second = BTreeMap::new();
    second.insert(1u16, ClientState { available: amount(5, 0), ..ClientState::new(1) });
    let merged = merge_results(&vec![first, BTreeMap::new(), second]);
    assert_eq!(merged.len(), 3);
    assert_eq!(
        snapshot(&merged),
        BTreeMap::from([
            (1, ((5, 0), (0, 0), false)),
            (2, ((0, 0), (0, 0), false)),
            (4, ((0, 0), (0, 0), true)),
        ])
    );
    assert!(merge_results(&Vec::new()).is_empty());
}

#[test]
fn results_are_laid_out_one_record_per_client() {
    let mut results = AHashMap::new();
    results.insert(1u16, ClientState { available: amount(15, 1), ..ClientState::new(1) });
    results.insert(
        2u16,
        ClientState { held: amount(20_005, 4), locked: true, ..ClientState::new(2) },
    );
    results.insert(9u16, ClientState::new(9));
    let records = display_results(results);
    assert_eq!(records.len(), 4);
    assert_eq!(records[0], vec!["client", "available", "held", "total", "locked"]);
    let mut rows = records[1..].to_vec();
    rows.sort();
    assert_eq!(
        rows,
        vec![
            vec!["1", "1.5", "0", "1.5", "false"],
            vec!["2", "0", "2.0005", "2.0005", "true"],
            vec!["9", "0", "0", "0", "false"],
        ]
    );
    assert_eq!(display_results(AHashMap::new()), vec![header_record()]);
}

#[test]
fn worker_hands_over_the_accounts_of_its_inbox() {
    let accounts = event_handler(&sample_events());
    assert_eq!(accounts.keys().copied().collect::<Vec<u16>>(), vec![1, 2, 3, 4, 6]);
    let first = accounts.get(&1).unwrap();
    assert_eq!((parts(first.available()), parts(first.held())), ((70, 0), (0, 0)));
    let second = accounts.get(&2).unwrap();
    assert_eq!((parts(second.available()), parts(second.held())), ((0, 0), (0, 0)));
    assert!(second.is_locked());
    assert!(event_handler(&Vec::new()).is_empty());
}

#[test]
fn two_runs_over_one_input_agree() {
    let events = sample_events();
    for workers in [1usize, 2, 3, 4, 7] {
        let first = snapshot(&process_partitioned(&events, workers));
        let second = snapshot(&process_partitioned(&events, workers));
        assert_eq!(first, second);
        assert_eq!(first.keys().copied().collect::<Vec<u16>>(), vec![1, 2, 3, 4, 6]);
    }
}

#[test]
fn run_gives_each_client_the_account_of_its_worker() {
    let events = sample_events();
    let workers = 3;
    let merged = snapshot(&process_partitioned(&events, workers));
    let inboxes = partition_csv_events(&events, workers);
    let mut seen = 0;
    for inbox in &inboxes {
        for (id, state) in event_handler(inbox) {
            assert_eq!(
                merged.get(&id),
                Some(&(parts(state.available()), parts(state.held()), state.is_locked()))
            );
            seen += 1;
        }
    }
    assert_eq!(seen, merged.len());
    assert_eq!(merged.get(&1), Some(&((70, 0), (0, 0), false)));
    assert_eq!(merged.get(&2), Some(&((0, 0), (0, 0), true)));
    assert_eq!(merged.get(&3), Some(&((70, 0), (0, 0), false)));
    assert_eq!(merged.get(&4), Some(&((0, 0), (0, 0), false)));
    assert_eq!(merged.get(&6), Some(&((9, 0), (0, 0), false)));
}

#[test]
fn order_across_workers_does_not_matter() {
    let events = sample_events();
    let workers = 3;
    let expected = snapshot(&process_partitioned(&events, workers));
    // clients 1 and 2 belong to different workers: their neighbours may swap
    let mut swapped = events.clone();
    swapped.swap(0, 1);
    swapped.swap(3, 4);
    swapped.swap(8, 9);
    assert_eq!(snapshot(&process_partitioned(&swapped, workers)), expected);
    // worker by worker is one more such order
    let mut grouped = Vec::new();
    for inbox in partition_csv_events(&events, workers) {
        grouped.extend(inbox);
    }
    assert_eq!(snapshot(&process_partitioned(&grouped, workers)), expected);
}

#[test]
fn number_of_workers_can_matter_where_identifiers_collide() {
    // clients 1 and 2 both use the identifier 1
    let events = vec![
        tx(TransactionType::Deposit, 1, 1, Some(100)),
        tx(TransactionType::Deposit, 2, 1, Some(50)),
        tx(TransactionType::Dispute, 1, 1, None),
    ];
    let together = snapshot(&process_partitioned(&events, 1));
    let apart = snapshot(&process_partitioned(&events, 2));
    assert_eq!(together.get(&1), Some(&((100, 0), (0, 0), false)));
    assert_eq!(apart.get(&1), Some(&((0, 0), (100, 0), false)));
    assert_eq!(together.get(&2), apart.get(&2));
}
