//! Transaction records.

use crate::decimal::Amount;
use crate::decimal::DecimalValue;
use vstd::prelude::*;

verus! {

/// The kind of a transaction.
#[derive(Debug, PartialEq, Eq, Clone, Copy, Structural)]
pub enum TransactionType {
    Deposit,
    Withdrawal,
    Dispute,
    Resolve,
    Chargeback,
}

/// One transaction as it arrives, and as the ledger keeps it once accepted.
#[derive(Debug, Clone, Copy)]
pub struct Transaction {
    pub tx_type: TransactionType,
    /// Clients are represented by u16 integers
    pub client_id: u16,
    pub tx_id: u32,
    pub amount: Option<Amount>,
    pub in_dispute: bool,
}

/// The mathematical content of a [`Transaction`].
pub struct TransactionView {
    pub tx_type: TransactionType,
    pub client_id: u16,
    pub tx_id: u32,
    pub amount: Option<DecimalValue>,
    pub in_dispute: bool,
}

impl TransactionView {
    /// Only deposits and withdrawals can be disputed.
    pub open spec fn is_disputable(self) -> bool {
        self.tx_type is Deposit || self.tx_type is Withdrawal
    }

    /// This record with its dispute flag set to `flag`.
    pub open spec fn with_dispute(self, flag: bool) -> TransactionView {
        TransactionView { in_dispute: flag, ..self }
    }
}

impl View for Transaction {
    type V = TransactionView;

    open spec fn view(&self) -> TransactionView {
        TransactionView {
            tx_type: self.tx_type,
            client_id: self.client_id,
            tx_id: self.tx_id,
            amount: match self.amount {
                Some(amount) => Some(amount@),
                None => None,
            },
            in_dispute: self.in_dispute,
        }
    }
}

impl Transaction {
    pub fn tx_id(&self) -> (id: u32)
        ensures
            id == self@.tx_id,
    {
        self.tx_id
    }

    pub fn tx_type(&self) -> (kind: &TransactionType)
        ensures
            *kind == self@.tx_type,
    {
        &self.tx_type
    }

    pub fn client_id(&self) -> (id: u16)
        ensures
            id == self@.client_id,
    {
        self.client_id
    }

    pub fn amount(&self) -> (amount: Option<Amount>)
        ensures
            amount == self.amount,
    {
        self.amount
    }

    /// Marks this transaction as disputed.
    pub fn dispute(&mut self)
        ensures
            final(self)@ == old(self)@.with_dispute(true),
    {
        self.in_dispute = true;
    }

    pub fn in_dispute(&self) -> (flag: bool)
        ensures
            flag == self@.in_dispute,
    {
        self.in_dispute
    }

    pub fn is_disputable(&self) -> (disputable: bool)
        ensures
            disputable == self@.is_disputable(),
    {
        match self.tx_type {
            TransactionType::Deposit | TransactionType::Withdrawal => true,
            _ => false,
        }
    }
}

} // verus!
