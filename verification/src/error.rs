//! Why a transaction was rejected.

use crate::text::append_decimal;
use crate::text::decimal_digits;
use vstd::prelude::*;

verus! {

/// The operations that need an amount to act on.
#[derive(Debug, Clone, Copy, PartialEq, Eq, Structural)]
pub enum Operation {
    Deposit,
    Withdrawal,
    Resolve,
    Chargeback,
}

/// A rejection. Each one is local to the transaction that caused it.
#[derive(Debug, Clone, Copy, PartialEq, Eq, Structural)]
pub enum LedgerError {
    /// The account is locked.
    AccountLocked { client_id: u16 },
    /// A transaction names a client other than the owner of the account.
    ClientIdMismatch { client_id: u16 },
    /// The operation needs an amount and the transaction has none.
    MissingAmount { operation: Operation, client_id: u16 },
    /// A withdrawal asks for more than is available.
    InsufficientFunds { client_id: u16 },
    /// The disputed transaction is no deposit or withdrawal, or has no amount.
    NotDisputable { tx_id: u32 },
    /// The transaction to resolve is not under dispute.
    NotInDispute { tx_id: u32 },
    /// A dispute, resolve or chargeback names a transaction that is not on record.
    UnmatchedReference { tx_id: u32 },
}

/// The result of a transaction that was accepted.
pub open spec fn accepted() -> Result<(), LedgerError> {
    Ok(())
}

/// The result of a transaction that was rejected with `error`.
pub open spec fn rejection(error: LedgerError) -> Result<(), LedgerError> {
    Err(error)
}

impl LedgerError {
    /// The words before the number in the message.
    pub open spec fn prefix(self) -> Seq<char> {
        match self {
            LedgerError::AccountLocked { .. } => "Account '"@,
            LedgerError::ClientIdMismatch { .. } =>
                "Client Id mismatch between Transaction Client Id and Client Id '"@,
            LedgerError::MissingAmount { operation, .. } => match operation {
                Operation::Deposit => "Deposit to Client account '"@,
                Operation::Withdrawal => "Withdrawal to Client account '"@,
                Operation::Chargeback => "Chargeback to Client account '"@,
                Operation::Resolve => "Attempting to resolve a dispute but has not got a amount"@,
            },
            LedgerError::InsufficientFunds { .. } =>
                "Withdrawal failed due to insufficient funds in Client Account `"@,
            LedgerError::NotDisputable { .. } => "Transaction `"@,
            LedgerError::NotInDispute { .. } => "Resolving Transaction failed as TxId `"@,
            LedgerError::UnmatchedReference { .. } => "Unmatched transaction `"@,
        }
    }

    /// The number in the message, if it has one.
    pub open spec fn subject(self) -> Option<nat> {
        match self {
            LedgerError::AccountLocked { client_id } => Some(client_id as nat),
            LedgerError::ClientIdMismatch { client_id } => Some(client_id as nat),
            LedgerError::MissingAmount { operation, client_id } => match operation {
                Operation::Resolve => None,
                _ => Some(client_id as nat),
            },
            LedgerError::InsufficientFunds { client_id } => Some(client_id as nat),
            LedgerError::NotDisputable { tx_id } => Some(tx_id as nat),
            LedgerError::NotInDispute { tx_id } => Some(tx_id as nat),
            LedgerError::UnmatchedReference { tx_id } => Some(tx_id as nat),
        }
    }

    /// The words after the number in the message.
    pub open spec fn suffix(self) -> Seq<char> {
        match self {
            LedgerError::AccountLocked { .. } => "' is locked"@,
            LedgerError::ClientIdMismatch { .. } => "'"@,
            LedgerError::MissingAmount { operation, .. } => match operation {
                Operation::Resolve => ""@,
                _ => "' failed"@,
            },
            LedgerError::InsufficientFunds { .. } => "`"@,
            LedgerError::NotDisputable { .. } => "` cannot be disputed"@,
            LedgerError::NotInDispute { .. } => "` is not under dispute"@,
            LedgerError::UnmatchedReference { .. } => "`"@,
        }
    }

    /// The message of this rejection.
    pub open spec fn message(self) -> Seq<char> {
        match self.subject() {
            Some(number) => self.prefix() + decimal_digits(number) + self.suffix(),
            None => self.prefix() + self.suffix(),
        }
    }

    fn prefix_str(&self) -> (text: &'static str)
        ensures
            text@ == self.prefix(),
    {
        match self {
            LedgerError::AccountLocked { .. } => "Account '",
            LedgerError::ClientIdMismatch { .. } =>
                "Client Id mismatch between Transaction Client Id and Client Id '",
            LedgerError::MissingAmount { operation, .. } => match operation {
                Operation::Deposit => "Deposit to Client account '",
                Operation::Withdrawal => "Withdrawal to Client account '",
                Operation::Chargeback => "Chargeback to Client account '",
                Operation::Resolve => "Attempting to resolve a dispute but has not got a amount",
            },
            LedgerError::InsufficientFunds { .. } =>
                "Withdrawal failed due to insufficient funds in Client Account `",
            LedgerError::NotDisputable { .. } => "Transaction `",
            LedgerError::NotInDispute { .. } => "Resolving Transaction failed as TxId `",
            LedgerError::UnmatchedReference { .. } => "Unmatched transaction `",
        }
    }

    fn subject_number(&self) -> (number: Option<u32>)
        ensures
            number is Some <==> self.subject() is Some,
            number matches Some(n) ==> self.subject() == Some(n as nat),
    {
        match self {
            LedgerError::AccountLocked { client_id } => Some(*client_id as u32),
            LedgerError::ClientIdMismatch { client_id } => Some(*client_id as u32),
            LedgerError::MissingAmount { operation, client_id } => match operation {
                Operation::Resolve => None,
                _ => Some(*client_id as u32),
            },
            LedgerError::InsufficientFunds { client_id } => Some(*client_id as u32),
            LedgerError::NotDisputable { tx_id } => Some(*tx_id),
            LedgerError::NotInDispute { tx_id } => Some(*tx_id),
            LedgerError::UnmatchedReference { tx_id } => Some(*tx_id),
        }
    }

    fn suffix_str(&self) -> (text: &'static str)
        ensures
            text@ == self.suffix(),
    {
        match self {
            LedgerError::AccountLocked { .. } => "' is locked",
            LedgerError::ClientIdMismatch { .. } => "'",
            LedgerError::MissingAmount { operation, .. } => match operation {
                Operation::Resolve => "",
                _ => "' failed",
            },
            LedgerError::InsufficientFunds { .. } => "`",
            LedgerError::NotDisputable { .. } => "` cannot be disputed",
            LedgerError::NotInDispute { .. } => "` is not under dispute",
            LedgerError::UnmatchedReference { .. } => "`",
        }
    }

    /// The message of this rejection.
    pub fn to_string(&self) -> (text: String)
        ensures
            text@ == self.message(),
    {
        let mut text = String::from_str(self.prefix_str());
        match self.subject_number() {
            Some(number) => {
                append_decimal(&mut text, number);
            },
            None => {},
        }
        text.append(self.suffix_str());
        text
    }
}

} // verus!
