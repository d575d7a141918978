//! The ledger: the accounts of a set of clients and the transactions on
//! record for them.

use crate::account::AccountView;
use crate::account::ClientState;
use crate::data::Transaction;
use crate::data::TransactionType;
use crate::data::TransactionView;
use crate::error::accepted;
use crate::error::LedgerError;
use std::collections::BTreeMap;
use vstd::prelude::*;

verus! {

/// The operations by which transactions act on an account, one for each kind
/// of transaction.
pub trait Transact {
    fn chargeback(&mut self, tx: &Transaction, chargeback_tx: &Transaction) -> Result<
        (),
        LedgerError,
    >;

    fn deposit(&mut self, tx: &Transaction) -> Result<(), LedgerError>;

    fn dispute(&mut self, tx: &Transaction, disputed_tx: &mut Transaction) -> Result<
        (),
        LedgerError,
    >;

    fn resolve(&mut self, tx: &Transaction, disputed_tx: &mut Transaction) -> Result<
        (),
        LedgerError,
    >;

    fn withdraw(&mut self, tx: &Transaction) -> Result<(), LedgerError>;
}

/// The accounts of one set of clients, and the deposits and withdrawals that
/// were accepted for them.
pub struct Ledger {
    accounts: BTreeMap<u16, ClientState>,
    approved_tx: BTreeMap<u32, Transaction>,
}

/// The mathematical content of a [`Ledger`].
pub struct LedgerView {
    pub accounts: Map<u16, AccountView>,
    pub approved_tx: Map<u32, TransactionView>,
}

/// What one transaction leaves behind: the ledger after it, and whether the
/// transaction was accepted.
pub struct LedgerStep {
    pub ledger: LedgerView,
    pub result: Result<(), LedgerError>,
}

/// The content of each account of a map of accounts.
pub open spec fn account_views(accounts: Map<u16, ClientState>) -> Map<u16, AccountView> {
    Map::new(|id: u16| accounts.contains_key(id), |id: u16| accounts[id]@)
}

/// The content of each transaction of a map of transactions.
pub open spec fn transaction_views(transactions: Map<u32, Transaction>) -> Map<
    u32,
    TransactionView,
> {
    Map::new(|id: u32| transactions.contains_key(id), |id: u32| transactions[id]@)
}

impl LedgerView {
    /// The ledger without accounts or transactions.
    pub open spec fn empty() -> LedgerView {
        LedgerView { accounts: Map::empty(), approved_tx: Map::empty() }
    }

    /// The account of a client; a client that was never seen has a fresh one.
    pub open spec fn account(self, client_id: u16) -> AccountView {
        if self.accounts.contains_key(client_id) {
            self.accounts[client_id]
        } else {
            AccountView::new(client_id)
        }
    }

    /// The ledger after a deposit or withdrawal was put to the account of its
    /// client: the account is kept in any case, the transaction is recorded
    /// where it was accepted. The record starts out undisputed, and takes the
    /// place of an earlier record with the same identifier.
    pub open spec fn after_payment(
        self,
        tx: TransactionView,
        account: AccountView,
        result: Result<(), LedgerError>,
    ) -> LedgerStep {
        LedgerStep {
            ledger: LedgerView {
                accounts: self.accounts.insert(tx.client_id, account),
                approved_tx: if result is Ok {
                    self.approved_tx.insert(tx.tx_id, tx.with_dispute(false))
                } else {
                    self.approved_tx
                },
            },
            result,
        }
    }

    /// The ledger after a dispute, resolve or chargeback was put to the
    /// account of its client and to the transaction on record.
    pub open spec fn after_reference(
        self,
        tx: TransactionView,
        account: AccountView,
        stored: TransactionView,
        result: Result<(), LedgerError>,
    ) -> LedgerStep {
        LedgerStep {
            ledger: LedgerView {
                accounts: self.accounts.insert(tx.client_id, account),
                approved_tx: self.approved_tx.insert(tx.tx_id, stored),
            },
            result,
        }
    }

    /// The ledger after a dispute, resolve or chargeback that names a
    /// transaction that is not on record: the account of the client exists,
    /// and nothing else has changed.
    pub open spec fn after_unmatched(self, tx: TransactionView) -> LedgerStep {
        LedgerStep {
            ledger: LedgerView {
                accounts: self.accounts.insert(tx.client_id, self.account(tx.client_id)),
                approved_tx: self.approved_tx,
            },
            result: Err(LedgerError::UnmatchedReference { tx_id: tx.tx_id }),
        }
    }

    /// The ledger after one transaction.
    pub open spec fn process(self, tx: TransactionView) -> LedgerStep {
        let account = self.account(tx.client_id);
        match tx.tx_type {
            TransactionType::Deposit => {
                let step = account.deposit(tx);
                self.after_payment(tx, step.account, step.result)
            },
            TransactionType::Withdrawal => {
                let step = account.withdraw(tx);
                self.after_payment(tx, step.account, step.result)
            },
            _ => if !self.approved_tx.contains_key(tx.tx_id) {
                self.after_unmatched(tx)
            } else {
                let stored = self.approved_tx[tx.tx_id];
                match tx.tx_type {
                    TransactionType::Dispute => {
                        let step = account.dispute(tx, stored);
                        self.after_reference(tx, step.account, step.stored, step.result)
                    },
                    TransactionType::Resolve => {
                        let step = account.resolve(tx, stored);
                        self.after_reference(tx, step.account, step.stored, step.result)
                    },
                    _ => {
                        let step = account.chargeback(tx, stored);
                        self.after_reference(tx, step.account, stored, step.result)
                    },
                }
            },
        }
    }

    /// The ledger after a sequence of transactions, each applied to what the
    /// ones before it left, whether or not they were accepted.
    pub open spec fn process_all(self, txs: Seq<TransactionView>) -> LedgerView
        decreases txs.len(),
    {
        if txs.len() == 0 {
            self
        } else {
            self.process_all(txs.drop_last()).process(txs.last()).ledger
        }
    }

    /// Whether each of the transactions was accepted, in their order.
    pub open spec fn results(self, txs: Seq<TransactionView>) -> Seq<Result<(), LedgerError>>
        decreases txs.len(),
    {
        if txs.len() == 0 {
            Seq::empty()
        } else {
            self.results(txs.drop_last()).push(
                self.process_all(txs.drop_last()).process(txs.last()).result,
            )
        }
    }
}

/// The content of each transaction of a sequence.
pub open spec fn views_of(txs: Seq<Transaction>) -> Seq<TransactionView> {
    Seq::new(txs.len(), |i: int| txs[i]@)
}

impl View for Ledger {
    type V = LedgerView;

    closed spec fn view(&self) -> LedgerView {
        LedgerView {
            accounts: account_views(self.accounts@),
            approved_tx: transaction_views(self.approved_tx@),
        }
    }
}

impl Ledger {
    pub fn new() -> (ledger: Ledger)
        ensures
            ledger@ == LedgerView::empty(),
    {
        let ledger = Ledger { accounts: BTreeMap::new(), approved_tx: BTreeMap::new() };
        assert(ledger@.accounts =~= Map::empty());
        assert(ledger@.approved_tx =~= Map::empty());
        ledger
    }

    /// The accounts of the ledger, by client.
    pub fn accounts(&self) -> (accounts: &BTreeMap<u16, ClientState>)
        ensures
            account_views(accounts@) == self@.accounts,
    {
        &self.accounts
    }

    /// The transactions on record, by their identifier.
    pub fn approved_tx(&self) -> (transactions: &BTreeMap<u32, Transaction>)
        ensures
            transaction_views(transactions@) == self@.approved_tx,
    {
        &self.approved_tx
    }

    /// Gives up the ledger for its accounts.
    pub fn into_accounts(self) -> (accounts: BTreeMap<u16, ClientState>)
        ensures
            account_views(accounts@) == self@.accounts,
    {
        self.accounts
    }

    fn record_tx(&mut self, tx: &Transaction) -> (result: Result<(), LedgerError>)
        ensures
            result == accepted(),
            final(self)@.accounts == old(self)@.accounts,
            final(self)@.approved_tx == old(self)@.approved_tx.insert(
                tx@.tx_id,
                tx@.with_dispute(false),
            ),
    {
        let mut record = *tx;
        record.in_dispute = false;
        self.approved_tx.insert(tx.tx_id(), record);
        Ok(())
    }

    fn account_of(&self, client_id: u16) -> (account: ClientState)
        ensures
            account@ == self@.account(client_id),
    {
        match self.accounts.get(&client_id) {
            Some(account) => *account,
            None => ClientState::new(client_id),
        }
    }

    fn lookup(&self, tx_id: u32) -> (stored: Option<Transaction>)
        ensures
            stored is Some <==> self@.approved_tx.contains_key(tx_id),
            stored matches Some(found) ==> found@ == self@.approved_tx[tx_id],
    {
        match self.approved_tx.get(&tx_id) {
            Some(found) => Some(*found),
            None => None,
        }
    }

    fn keep(&mut self, client_id: u16, account: ClientState, stored: Option<(u32, Transaction)>)
        ensures
            final(self)@.accounts == old(self)@.accounts.insert(client_id, account@),
            final(self)@.approved_tx == (match stored {
                Some((tx_id, record)) => old(self)@.approved_tx.insert(tx_id, record@),
                None => old(self)@.approved_tx,
            }),
    {
        self.accounts.insert(client_id, account);
        match stored {
            Some((tx_id, record)) => {
                self.approved_tx.insert(tx_id, record);
            },
            None => {},
        }
    }

    /// Applies one transaction. A deposit or withdrawal goes to the account of
    /// its client and is recorded where it was accepted. A dispute, resolve or
    /// chargeback goes to the account and to the transaction on record that
    /// it names, and is rejected where there is none. The account of the
    /// client exists afterwards in every case.
    pub fn process_transaction(&mut self, tx: &mut Transaction) -> (result: Result<
        (),
        LedgerError,
    >)
        ensures
            final(self)@ == old(self)@.process(old(tx)@).ledger,
            result == old(self)@.process(old(tx)@).result,
            *final(tx) == *old(tx),
    {
        let mut state = self.account_of(tx.client_id());
        let found = self.lookup(tx.tx_id());
        let result = match (tx.tx_type, found) {
            (TransactionType::Deposit, _) => {
                let accepted = state.deposit(tx);
                self.keep(tx.client_id(), state, None);
                match accepted {
                    Ok(_) => self.record_tx(tx),
                    Err(e) => Err(e),
                }
            },
            (TransactionType::Withdrawal, _) => {
                let accepted = state.withdraw(tx);
                self.keep(tx.client_id(), state, None);
                match accepted {
                    Ok(_) => self.record_tx(tx),
                    Err(e) => Err(e),
                }
            },
            (TransactionType::Dispute, Some(stored)) => {
                let mut disputed_tx = stored;
                let accepted = state.dispute(tx, &mut disputed_tx);
                self.keep(tx.client_id(), state, Some((tx.tx_id(), disputed_tx)));
                accepted
            },
            (TransactionType::Resolve, Some(stored)) => {
                let mut disputed_tx = stored;
                let accepted = state.resolve(tx, &mut disputed_tx);
                self.keep(tx.client_id(), state, Some((tx.tx_id(), disputed_tx)));
                accepted
            },
            (TransactionType::Chargeback, Some(chargeback_tx)) => {
                let accepted = state.chargeback(tx, &chargeback_tx);
                self.keep(tx.client_id(), state, Some((tx.tx_id(), chargeback_tx)));
                accepted
            },
            _ => {
                self.keep(tx.client_id(), state, None);
                Err(LedgerError::UnmatchedReference { tx_id: tx.tx_id() })
            },
        };
        result
    }

    /// Applies the transactions in their order. A rejection is local to its
    /// transaction: the ones after it are applied all the same. The result
    /// says of each transaction whether it was accepted.
    pub fn process_transactions(&mut self, txs: &Vec<Transaction>) -> (results: Vec<
        Result<(), LedgerError>,
    >)
        ensures
            final(self)@ == old(self)@.process_all(views_of(txs@)),
            results@ == old(self)@.results(views_of(txs@)),
    {
        let ghost all = views_of(txs@);
        let mut results: Vec<Result<(), LedgerError>> = Vec::new();
        let mut i: usize = 0;
        while i < txs.len()
            invariant
                i <= txs.len(),
                all == views_of(txs@),
                self@ == old(self)@.process_all(all.take(i as int)),
                results@ == old(self)@.results(all.take(i as int)),
            decreases txs.len() - i,
        {
            let mut tx = txs[i];
            assert(all.take(i + 1).drop_last() =~= all.take(i as int));
            let result = self.process_transaction(&mut tx);
            results.push(result);
            i = i + 1;
        }
        assert(all.take(i as int) =~= all);
        results
    }
}

/// The work of one worker: applies the transactions of its inbox, in their
/// order, to a ledger of its own, and hands over the accounts at the end.
pub fn event_handler(inbox: &Vec<Transaction>) -> (accounts: BTreeMap<u16, ClientState>)
    ensures
        account_views(accounts@) == LedgerView::empty().process_all(views_of(inbox@)).accounts,
{
    let mut ledger = Ledger::new();
    let _ = ledger.process_transactions(inbox);
    ledger.into_accounts()
}

} // verus!
