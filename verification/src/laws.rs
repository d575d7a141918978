//! What holds of accounts and ledgers under every transaction.

use crate::account::AccountView;
use crate::data::TransactionView;
use crate::decimal::difference_is_exact;
use crate::decimal::lemma_add_then_sub;
use crate::decimal::lemma_exact_sum;
use crate::decimal::lemma_moderate_operands_are_exact;
use crate::decimal::lemma_order_in_units;
use crate::decimal::lemma_pow10_positive;
use crate::decimal::lemma_sub_then_add;
use crate::decimal::moderate;
use crate::decimal::pow10;
use crate::decimal::saturating_sum;
use crate::decimal::sum_is_exact;
use crate::decimal::DecimalValue;
use crate::decimal::MAX_MANTISSA;
use crate::decimal::MAX_SCALE;
use crate::error::rejection;
use crate::error::LedgerError;
use crate::error::Operation;
use crate::ledger::LedgerView;
use vstd::prelude::*;

verus! {

/// The total of an account denotes the sum of its available and its held
/// funds, where that sum is held without rounding or clamping.
pub proof fn law_total_is_available_plus_held(account: AccountView)
    requires
        account.available.valid(),
        account.held.valid(),
        sum_is_exact(account.available, account.held),
    ensures
        account.total().valid(),
        account.total().units() == account.available.units() + account.held.units(),
{
    lemma_exact_sum(account.available, account.held);
}

/// For balances and an amount of moderate size, every sum and difference that
/// an operation forms of them is held without rounding or clamping. Moderate
/// means: no more than `places` fractional digits, and a mantissa at that
/// scale within `bound`, twice of which fits.
pub proof fn law_moderate_funds_are_exact(
    account: AccountView,
    amount: DecimalValue,
    places: nat,
    bound: int,
)
    requires
        places <= MAX_SCALE,
        2 * bound <= MAX_MANTISSA,
        moderate(account.available, places, bound),
        moderate(account.held, places, bound),
        moderate(amount, places, bound),
    ensures
        sum_is_exact(account.available, account.held),
        sum_is_exact(account.available, amount),
        difference_is_exact(account.available, amount),
        sum_is_exact(account.held, amount),
        difference_is_exact(account.held, amount),
{
    lemma_moderate_operands_are_exact(account.available, account.held, places, bound);
    lemma_moderate_operands_are_exact(account.available, amount, places, bound);
    lemma_moderate_operands_are_exact(account.held, amount, places, bound);
}

/// A deposit followed by a withdrawal of the same amount is accepted and
/// brings the available funds back to the number they were, and leaves the
/// held funds and the lock untouched. This is stated for funds that were not
/// negative, so that the withdrawal is covered, and for a deposit that is held
/// without rounding or clamping.
pub proof fn law_deposit_then_withdraw(
    account: AccountView,
    deposit: TransactionView,
    withdrawal: TransactionView,
    amount: DecimalValue,
)
    requires
        account.available.valid(),
        amount.valid(),
        !account.locked,
        deposit.client_id == account.client_id,
        withdrawal.client_id == account.client_id,
        deposit.amount == Some(amount),
        withdrawal.amount == Some(amount),
        sum_is_exact(account.available, amount),
        account.available.mantissa >= 0,
    ensures
        account.deposit(deposit).result is Ok,
        account.deposit(deposit).account.withdraw(withdrawal).result is Ok,
        account.deposit(deposit).account.withdraw(withdrawal).account.available.units()
            == account.available.units(),
        account.deposit(deposit).account.withdraw(withdrawal).account.held == account.held,
        !account.deposit(deposit).account.withdraw(withdrawal).account.locked,
{
    let sum = saturating_sum(account.available, amount);
    lemma_exact_sum(account.available, amount);
    lemma_add_then_sub(account.available, amount);
    lemma_order_in_units(sum, amount);
    lemma_pow10_positive((MAX_SCALE - account.available.scale) as nat);
    assert(account.available.units() >= 0) by (nonlinear_arith)
        requires
            account.available.units() == account.available.mantissa * pow10(
                (MAX_SCALE - account.available.scale) as nat,
            ),
            account.available.mantissa >= 0,
            pow10((MAX_SCALE - account.available.scale) as nat) > 0,
    ;
}

/// A dispute of a transaction that is already under dispute, and that one of
/// the guards of a dispute refuses, is rejected with the error of that guard
/// and moves no funds.
pub proof fn law_refused_second_dispute(
    account: AccountView,
    tx: TransactionView,
    stored: TransactionView,
)
    requires
        stored.in_dispute,
        account.ready_for(tx, stored) is Err || !stored.is_disputable() || stored.amount is None,
    ensures
        account.dispute(tx, stored).result is Err,
        account.dispute(tx, stored).account == account,
        account.dispute(tx, stored).stored == stored,
        account.dispute(tx, stored).result == (match account.ready_for(tx, stored) {
            Err(e) => rejection(e),
            Ok(_) => rejection(LedgerError::NotDisputable { tx_id: stored.tx_id }),
        }),
{
}

/// Whether a transaction is already under dispute has no part in what a
/// dispute of it does.
pub proof fn law_dispute_ignores_flag(
    account: AccountView,
    tx: TransactionView,
    stored: TransactionView,
    flag: bool,
)
    ensures
        account.dispute(tx, stored.with_dispute(flag)).account == account.dispute(
            tx,
            stored,
        ).account,
        account.dispute(tx, stored.with_dispute(flag)).result == account.dispute(
            tx,
            stored,
        ).result,
{
}

/// A dispute followed by a resolve of the same transaction is accepted and
/// brings the available and the held funds back to the numbers they were,
/// and leaves the transaction undisputed. This is stated for a dispute that
/// is held without rounding or clamping.
pub proof fn law_dispute_then_resolve(
    account: AccountView,
    dispute: TransactionView,
    resolve: TransactionView,
    stored: TransactionView,
    amount: DecimalValue,
)
    requires
        account.available.valid(),
        account.held.valid(),
        amount.valid(),
        !account.locked,
        dispute.client_id == account.client_id,
        resolve.client_id == account.client_id,
        stored.client_id == account.client_id,
        stored.is_disputable(),
        stored.amount == Some(amount),
        difference_is_exact(account.available, amount),
        sum_is_exact(account.held, amount),
    ensures
        account.dispute(dispute, stored).result is Ok,
        account.dispute(dispute, stored).stored.in_dispute,
        ({
            let disputed = account.dispute(dispute, stored);
            let resolved = disputed.account.resolve(resolve, disputed.stored);
            &&& resolved.result is Ok
            &&& resolved.account.available.units() == account.available.units()
            &&& resolved.account.held.units() == account.held.units()
            &&& resolved.account.locked == account.locked
            &&& resolved.stored == stored.with_dispute(false)
        }),
{
    lemma_sub_then_add(account.available, amount);
    lemma_add_then_sub(account.held, amount);
}

/// A resolve of a transaction that is not under dispute is rejected as such,
/// whether or not the transaction has an amount, and changes nothing.
pub proof fn law_resolve_needs_dispute(
    account: AccountView,
    tx: TransactionView,
    stored: TransactionView,
)
    requires
        !stored.in_dispute,
        account.ready_for(tx, stored) is Ok,
    ensures
        account.resolve(tx, stored).result == rejection(
            (LedgerError::NotInDispute { tx_id: stored.tx_id }),
        ),
        account.resolve(tx, stored).account == account,
        account.resolve(tx, stored).stored == stored,
{
}

/// A chargeback by the owner of the account, of a transaction of that owner,
/// leaves the account locked, also where it is rejected for want of an
/// amount. An account that was locked before stays locked whoever asks.
pub proof fn law_chargeback_locks(
    account: AccountView,
    tx: TransactionView,
    stored: TransactionView,
)
    requires
        account.locked || (tx.client_id == account.client_id && stored.client_id
            == account.client_id),
    ensures
        account.chargeback(tx, stored).account.locked,
        !account.locked && stored.amount is None ==> account.chargeback(tx, stored).result
            == rejection(account.missing_amount(Operation::Chargeback)),
{
}

/// On a locked account every operation is rejected because of the lock,
/// whatever else holds of the transaction, and changes nothing.
pub proof fn law_locked_account_rejects(
    account: AccountView,
    tx: TransactionView,
    stored: TransactionView,
)
    requires
        account.locked,
    ensures
        account.deposit(tx) == account.rejected(account.locked_out()),
        account.withdraw(tx) == account.rejected(account.locked_out()),
        account.chargeback(tx, stored) == account.rejected(account.locked_out()),
        account.dispute(tx, stored).result == rejection(account.locked_out()),
        account.dispute(tx, stored).account == account,
        account.dispute(tx, stored).stored == stored,
        account.resolve(tx, stored).result == rejection(account.locked_out()),
        account.resolve(tx, stored).account == account,
        account.resolve(tx, stored).stored == stored,
{
}

/// A rejected transaction leaves the balances of the account as they were,
/// and a rejected deposit, withdrawal, dispute or resolve leaves the whole
/// account as it was.
pub proof fn law_rejection_leaves_balances(
    account: AccountView,
    tx: TransactionView,
    stored: TransactionView,
)
    ensures
        account.deposit(tx).result is Err ==> account.deposit(tx).account == account,
        account.withdraw(tx).result is Err ==> account.withdraw(tx).account == account,
        account.dispute(tx, stored).result is Err ==> account.dispute(tx, stored).account
            == account && account.dispute(tx, stored).stored == stored,
        account.resolve(tx, stored).result is Err ==> account.resolve(tx, stored).account
            == account && account.resolve(tx, stored).stored == stored,
        account.chargeback(tx, stored).result is Err ==> account.chargeback(
            tx,
            stored,
        ).account.available == account.available && account.chargeback(tx, stored).account.held
            == account.held,
{
}

/// No operation changes the owner of an account, and none unlocks it.
pub proof fn law_owner_and_lock_stay(
    account: AccountView,
    tx: TransactionView,
    stored: TransactionView,
)
    ensures
        account.deposit(tx).account.client_id == account.client_id,
        account.withdraw(tx).account.client_id == account.client_id,
        account.dispute(tx, stored).account.client_id == account.client_id,
        account.resolve(tx, stored).account.client_id == account.client_id,
        account.chargeback(tx, stored).account.client_id == account.client_id,
        account.locked ==> account.deposit(tx).account.locked,
        account.locked ==> account.withdraw(tx).account.locked,
        account.locked ==> account.dispute(tx, stored).account.locked,
        account.locked ==> account.resolve(tx, stored).account.locked,
        account.locked ==> account.chargeback(tx, stored).account.locked,
{
}

/// Whether a ledger is in order: each account is kept under its own client,
/// and each transaction on record is kept under its own identifier, is a
/// deposit or a withdrawal, and has an amount.
pub open spec fn consistent(ledger: LedgerView) -> bool {
    &&& forall|id: u16| #[trigger]
        ledger.accounts.contains_key(id) ==> ledger.accounts[id].client_id == id
    &&& forall|id: u32| #[trigger]
        ledger.approved_tx.contains_key(id) ==> {
            &&& ledger.approved_tx[id].tx_id == id
            &&& ledger.approved_tx[id].is_disputable()
            &&& ledger.approved_tx[id].amount is Some
        }
}

/// A transaction touches no account but that of its own client, which exists
/// afterwards whether or not the transaction was accepted.
pub proof fn law_transaction_touches_one_account(ledger: LedgerView, tx: TransactionView)
    ensures
        ledger.process(tx).ledger.accounts.contains_key(tx.client_id),
        ledger.process(tx).ledger.accounts == ledger.accounts.insert(
            tx.client_id,
            ledger.process(tx).ledger.accounts[tx.client_id],
        ),
{
}

/// The empty ledger is in order.
pub proof fn law_empty_ledger_is_consistent()
    ensures
        consistent(LedgerView::empty()),
{
}

/// A transaction leaves a ledger in order.
pub proof fn law_ledger_stays_consistent(ledger: LedgerView, tx: TransactionView)
    requires
        consistent(ledger),
    ensures
        consistent(ledger.process(tx).ledger),
{
    let account = ledger.account(tx.client_id);
    if ledger.approved_tx.contains_key(tx.tx_id) {
        law_owner_and_lock_stay(account, tx, ledger.approved_tx[tx.tx_id]);
    } else {
        law_owner_and_lock_stay(account, tx, tx);
    }
}

/// Every sequence of transactions leaves a ledger in order.
pub proof fn law_ledger_stays_consistent_throughout(ledger: LedgerView, txs: Seq<TransactionView>)
    requires
        consistent(ledger),
    ensures
        consistent(ledger.process_all(txs)),
    decreases txs.len(),
{
    if txs.len() > 0 {
        law_ledger_stays_consistent_throughout(ledger, txs.drop_last());
        law_ledger_stays_consistent(ledger.process_all(txs.drop_last()), txs.last());
    }
}

/// A rejected transaction leaves the transactions on record and the balances
/// of every account as they were.
pub proof fn law_rejection_is_local(ledger: LedgerView, tx: TransactionView, client_id: u16)
    requires
        ledger.process(tx).result is Err,
    ensures
        ledger.process(tx).ledger.approved_tx == ledger.approved_tx,
        ledger.process(tx).ledger.account(client_id).available == ledger.account(
            client_id,
        ).available,
        ledger.process(tx).ledger.account(client_id).held == ledger.account(client_id).held,
{
    let account = ledger.account(tx.client_id);
    if ledger.approved_tx.contains_key(tx.tx_id) {
        law_rejection_leaves_balances(account, tx, ledger.approved_tx[tx.tx_id]);
    } else {
        law_rejection_leaves_balances(account, tx, tx);
    }
}

/// Once the account of a client is locked, no transaction changes it, and
/// every transaction of that client is rejected.
pub proof fn law_locked_client_is_frozen(ledger: LedgerView, tx: TransactionView, client_id: u16)
    requires
        ledger.accounts.contains_key(client_id),
        ledger.accounts[client_id].client_id == client_id,
        ledger.accounts[client_id].locked,
    ensures
        ledger.process(tx).ledger.accounts.contains_key(client_id),
        ledger.process(tx).ledger.accounts[client_id] == ledger.accounts[client_id],
        tx.client_id == client_id ==> ledger.process(tx).result is Err,
{
    if tx.client_id == client_id {
        let account = ledger.account(tx.client_id);
        if ledger.approved_tx.contains_key(tx.tx_id) {
            law_locked_account_rejects(account, tx, ledger.approved_tx[tx.tx_id]);
        } else {
            law_locked_account_rejects(account, tx, tx);
        }
    }
}

/// Once the account of a client is locked, it stays as it is through every
/// sequence of transactions.
pub proof fn law_locked_client_stays_frozen(
    ledger: LedgerView,
    txs: Seq<TransactionView>,
    client_id: u16,
)
    requires
        ledger.accounts.contains_key(client_id),
        ledger.accounts[client_id].client_id == client_id,
        ledger.accounts[client_id].locked,
    ensures
        ledger.process_all(txs).accounts.contains_key(client_id),
        ledger.process_all(txs).accounts[client_id] == ledger.accounts[client_id],
    decreases txs.len(),
{
    if txs.len() > 0 {
        law_locked_client_stays_frozen(ledger, txs.drop_last(), client_id);
        law_locked_client_is_frozen(ledger.process_all(txs.drop_last()), txs.last(), client_id);
    }
}

/// A deposit or withdrawal that was accepted is on record afterwards, not
/// under dispute, so that a resolve of it by the same client is rejected
/// because there is no dispute to resolve.
pub proof fn law_resolve_of_fresh_record(
    ledger: LedgerView,
    payment: TransactionView,
    resolve: TransactionView,
)
    requires
        consistent(ledger),
        payment.tx_type is Deposit || payment.tx_type is Withdrawal,
        ledger.process(payment).result is Ok,
        resolve.tx_type is Resolve,
        resolve.tx_id == payment.tx_id,
        resolve.client_id == payment.client_id,
    ensures
        ledger.process(payment).ledger.approved_tx.contains_key(payment.tx_id),
        !ledger.process(payment).ledger.approved_tx[payment.tx_id].in_dispute,
        ledger.process(payment).ledger.process(resolve).result == rejection(
            (LedgerError::NotInDispute { tx_id: payment.tx_id }),
        ),
{
}

} // verus!
