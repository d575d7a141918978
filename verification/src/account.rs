//! Client accounts and the rules by which transactions change them.

use crate::data::Transaction;
use crate::data::TransactionView;
use crate::decimal::saturating_difference;
use crate::decimal::saturating_sum;
use crate::decimal::Amount;
use crate::decimal::DecimalValue;
use crate::error::LedgerError;
use crate::error::Operation;
use crate::ledger::Transact;
use vstd::prelude::*;

verus! {

/// A client account with valid transactions
#[derive(Debug, Clone, Copy)]
pub struct ClientState {
    pub client_id: u16,
    pub available: Amount,
    pub held: Amount,
    /// An account is locked if a chargeback occurs
    pub locked: bool,
}

/// The mathematical content of a [`ClientState`].
pub struct AccountView {
    pub client_id: u16,
    pub available: DecimalValue,
    pub held: DecimalValue,
    pub locked: bool,
}

/// What an operation on an account leaves behind: the account after it, and
/// whether the transaction was accepted.
pub struct AccountStep {
    pub account: AccountView,
    pub result: Result<(), LedgerError>,
}

/// What an operation on an account and a recorded transaction leaves behind.
pub struct DisputeStep {
    pub account: AccountView,
    pub stored: TransactionView,
    pub result: Result<(), LedgerError>,
}

impl AccountView {
    /// A fresh account: nothing available, nothing held, not locked.
    pub open spec fn new(client_id: u16) -> AccountView {
        AccountView {
            client_id,
            available: DecimalValue::zero(),
            held: DecimalValue::zero(),
            locked: false,
        }
    }

    /// The funds of the account, available and held together.
    pub open spec fn total(self) -> DecimalValue {
        saturating_sum(self.available, self.held)
    }

    /// The rejection that a locked account answers with.
    pub open spec fn locked_out(self) -> LedgerError {
        LedgerError::AccountLocked { client_id: self.client_id }
    }

    /// Whether the account may be touched on behalf of `client_id`. The lock
    /// is looked at before the identifier.
    pub open spec fn ready(self, client_id: u16) -> Result<(), LedgerError> {
        if self.locked {
            Err(self.locked_out())
        } else if client_id != self.client_id {
            Err(LedgerError::ClientIdMismatch { client_id })
        } else {
            Ok(())
        }
    }

    /// Whether the account may be touched on behalf of both a transaction and
    /// the recorded transaction that it refers to.
    pub open spec fn ready_for(self, tx: TransactionView, stored: TransactionView) -> Result<
        (),
        LedgerError,
    > {
        match self.ready(tx.client_id) {
            Err(e) => Err(e),
            Ok(_) => self.ready(stored.client_id),
        }
    }

    /// This account after a rejection that leaves it as it was.
    pub open spec fn rejected(self, error: LedgerError) -> AccountStep {
        AccountStep { account: self, result: Err(error) }
    }

    /// This account and a recorded transaction after a rejection that leaves
    /// both as they were.
    pub open spec fn refused(self, stored: TransactionView, error: LedgerError) -> DisputeStep {
        DisputeStep { account: self, stored, result: Err(error) }
    }

    /// The rejection for want of an amount.
    pub open spec fn missing_amount(self, operation: Operation) -> LedgerError {
        LedgerError::MissingAmount { operation, client_id: self.client_id }
    }

    /// A deposit adds its amount to the available funds.
    pub open spec fn deposit(self, tx: TransactionView) -> AccountStep {
        match self.ready(tx.client_id) {
            Err(e) => self.rejected(e),
            Ok(_) => match tx.amount {
                Some(amount) => AccountStep {
                    account: AccountView {
                        available: saturating_sum(self.available, amount),
                        ..self
                    },
                    result: Ok(()),
                },
                None => self.rejected(self.missing_amount(Operation::Deposit)),
            },
        }
    }

    /// A withdrawal takes its amount from the available funds, where they
    /// cover it.
    pub open spec fn withdraw(self, tx: TransactionView) -> AccountStep {
        match self.ready(tx.client_id) {
            Err(e) => self.rejected(e),
            Ok(_) => match tx.amount {
                Some(amount) => if self.available.at_least(amount) {
                    AccountStep {
                        account: AccountView {
                            available: saturating_difference(self.available, amount),
                            ..self
                        },
                        result: Ok(()),
                    }
                } else {
                    self.rejected(LedgerError::InsufficientFunds { client_id: self.client_id })
                },
                None => self.rejected(self.missing_amount(Operation::Withdrawal)),
            },
        }
    }

    /// A dispute moves the amount of the recorded transaction from the
    /// available to the held funds and flags that transaction.
    pub open spec fn dispute(self, tx: TransactionView, stored: TransactionView) -> DisputeStep {
        match self.ready_for(tx, stored) {
            Err(e) => self.refused(stored, e),
            Ok(_) => match stored.amount {
                Some(amount) => if stored.is_disputable() {
                    DisputeStep {
                        account: AccountView {
                            available: saturating_difference(self.available, amount),
                            held: saturating_sum(self.held, amount),
                            ..self
                        },
                        stored: stored.with_dispute(true),
                        result: Ok(()),
                    }
                } else {
                    self.refused(stored, LedgerError::NotDisputable { tx_id: stored.tx_id })
                },
                None => self.refused(stored, LedgerError::NotDisputable { tx_id: stored.tx_id }),
            },
        }
    }

    /// A resolve moves the amount of a disputed transaction back from the
    /// held to the available funds and clears its flag. That the transaction
    /// is under dispute is asked before whether it has an amount.
    pub open spec fn resolve(self, tx: TransactionView, stored: TransactionView) -> DisputeStep {
        match self.ready_for(tx, stored) {
            Err(e) => self.refused(stored, e),
            Ok(_) => if !stored.in_dispute {
                self.refused(stored, LedgerError::NotInDispute { tx_id: stored.tx_id })
            } else {
                match stored.amount {
                    Some(amount) => DisputeStep {
                        account: AccountView {
                            available: saturating_sum(self.available, amount),
                            held: saturating_difference(self.held, amount),
                            ..self
                        },
                        stored: stored.with_dispute(false),
                        result: Ok(()),
                    },
                    None => self.refused(stored, self.missing_amount(Operation::Resolve)),
                }
            },
        }
    }

    /// A chargeback locks the account and then takes the amount of the
    /// recorded transaction from the held funds. The lock is set before the
    /// amount is looked at, so it stays where the amount is missing.
    pub open spec fn chargeback(self, tx: TransactionView, stored: TransactionView) -> AccountStep {
        match self.ready_for(tx, stored) {
            Err(e) => self.rejected(e),
            Ok(_) => match stored.amount {
                Some(amount) => AccountStep {
                    account: AccountView {
                        held: saturating_difference(self.held, amount),
                        locked: true,
                        ..self
                    },
                    result: Ok(()),
                },
                None => AccountStep {
                    account: AccountView { locked: true, ..self },
                    result: Err(self.missing_amount(Operation::Chargeback)),
                },
            },
        }
    }
}

impl View for ClientState {
    type V = AccountView;

    open spec fn view(&self) -> AccountView {
        AccountView {
            client_id: self.client_id,
            available: self.available@,
            held: self.held@,
            locked: self.locked,
        }
    }
}

impl ClientState {
    pub fn new(client_id: u16) -> (account: ClientState)
        ensures
            account@ == AccountView::new(client_id),
    {
        ClientState { client_id, available: Amount::zero(), held: Amount::zero(), locked: false }
    }

    pub fn id(&self) -> (id: u16)
        ensures
            id == self@.client_id,
    {
        self.client_id
    }

    pub fn available(&self) -> (amount: Amount)
        ensures
            amount@ == self@.available,
            amount@.valid(),
    {
        proof {
            use_type_invariant(&self.available);
            self.available.lemma_well_formed();
        }
        self.available
    }

    pub fn held(&self) -> (amount: Amount)
        ensures
            amount@ == self@.held,
            amount@.valid(),
    {
        proof {
            use_type_invariant(&self.held);
            self.held.lemma_well_formed();
        }
        self.held
    }

    pub fn total(&self) -> (amount: Amount)
        ensures
            amount@ == self@.total(),
            amount@.valid(),
    {
        self.available.saturating_add(self.held)
    }

    fn account_ready(&self, client_id: u16) -> (result: Result<(), LedgerError>)
        ensures
            result == self@.ready(client_id),
    {
        if self.locked {
            Err(LedgerError::AccountLocked { client_id: self.client_id })
        } else if client_id != self.client_id {
            Err(LedgerError::ClientIdMismatch { client_id })
        } else {
            Ok(())
        }
    }

    fn account_ready_for(&self, tx: &Transaction, stored: &Transaction) -> (result: Result<
        (),
        LedgerError,
    >)
        ensures
            result == self@.ready_for(tx@, stored@),
    {
        match self.account_ready(tx.client_id()) {
            Err(e) => Err(e),
            Ok(_) => self.account_ready(stored.client_id()),
        }
    }

    pub fn is_locked(&self) -> (locked: bool)
        ensures
            locked == self@.locked,
    {
        self.locked
    }
}

impl Transact for ClientState {
    fn chargeback(&mut self, tx: &Transaction, chargeback_tx: &Transaction) -> (result: Result<
        (),
        LedgerError,
    >)
        ensures
            final(self)@ == old(self)@.chargeback(tx@, chargeback_tx@).account,
            result == old(self)@.chargeback(tx@, chargeback_tx@).result,
    {
        match self.account_ready_for(tx, chargeback_tx) {
            Err(e) => {
                return Err(e);
            },
            Ok(_) => {},
        }
        self.locked = true;

        match chargeback_tx.amount() {
            Some(amount) => {
                self.held = self.held.saturating_sub(amount);
                Ok(())
            },
            _ => Err(
                LedgerError::MissingAmount {
                    operation: Operation::Chargeback,
                    client_id: self.client_id,
                },
            ),
        }
    }

    fn deposit(&mut self, tx: &Transaction) -> (result: Result<(), LedgerError>)
        ensures
            final(self)@ == old(self)@.deposit(tx@).account,
            result == old(self)@.deposit(tx@).result,
    {
        match self.account_ready(tx.client_id()) {
            Err(e) => {
                return Err(e);
            },
            Ok(_) => {},
        }

        match tx.amount() {
            Some(amount) => {
                self.available = self.available.saturating_add(amount);
                Ok(())
            },
            _ => Err(
                LedgerError::MissingAmount {
                    operation: Operation::Deposit,
                    client_id: self.client_id,
                },
            ),
        }
    }

    fn dispute(&mut self, tx: &Transaction, disputed_tx: &mut Transaction) -> (result: Result<
        (),
        LedgerError,
    >)
        ensures
            final(self)@ == old(self)@.dispute(tx@, old(disputed_tx)@).account,
            final(disputed_tx)@ == old(self)@.dispute(tx@, old(disputed_tx)@).stored,
            result == old(self)@.dispute(tx@, old(disputed_tx)@).result,
    {
        match self.account_ready_for(tx, disputed_tx) {
            Err(e) => {
                return Err(e);
            },
            Ok(_) => {},
        }

        match disputed_tx.amount() {
            Some(amount) => {
                if disputed_tx.is_disputable() {
                    self.available = self.available.saturating_sub(amount);
                    self.held = self.held.saturating_add(amount);
                    disputed_tx.dispute();
                    Ok(())
                } else {
                    Err(LedgerError::NotDisputable { tx_id: disputed_tx.tx_id() })
                }
            },
            None => Err(LedgerError::NotDisputable { tx_id: disputed_tx.tx_id() }),
        }
    }

    fn resolve(&mut self, tx: &Transaction, disputed_tx: &mut Transaction) -> (result: Result<
        (),
        LedgerError,
    >)
        ensures
            final(self)@ == old(self)@.resolve(tx@, old(disputed_tx)@).account,
            final(disputed_tx)@ == old(self)@.resolve(tx@, old(disputed_tx)@).stored,
            result == old(self)@.resolve(tx@, old(disputed_tx)@).result,
    {
        match self.account_ready_for(tx, disputed_tx) {
            Err(e) => {
                return Err(e);
            },
            Ok(_) => {},
        }

        if !disputed_tx.in_dispute() {
            return Err(LedgerError::NotInDispute { tx_id: disputed_tx.tx_id() });
        }
        match disputed_tx.amount() {
            Some(amount) => {
                self.available = self.available.saturating_add(amount);
                self.held = self.held.saturating_sub(amount);
                disputed_tx.in_dispute = false;
                Ok(())
            },
            None => Err(
                LedgerError::MissingAmount {
                    operation: Operation::Resolve,
                    client_id: self.client_id,
                },
            ),
        }
    }

    fn withdraw(&mut self, tx: &Transaction) -> (result: Result<(), LedgerError>)
        ensures
            final(self)@ == old(self)@.withdraw(tx@).account,
            result == old(self)@.withdraw(tx@).result,
    {
        match self.account_ready(tx.client_id()) {
            Err(e) => {
                return Err(e);
            },
            Ok(_) => {},
        }

        match tx.amount() {
            Some(amount) => {
                if self.available.ge(&amount) {
                    self.available = self.available.saturating_sub(amount);
                    Ok(())
                } else {
                    Err(LedgerError::InsufficientFunds { client_id: self.client_id })
                }
            },
            _ => Err(
                LedgerError::MissingAmount {
                    operation: Operation::Withdrawal,
                    client_id: self.client_id,
                },
            ),
        }
    }
}

} // verus!
