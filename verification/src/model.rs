//! The ledger as a mathematical state machine: accounts, log and dispute set
//! over exact numbers, and the effect of one operation on them.

use vstd::prelude::*;
use crate::models::{Account, Operation, OperationType, Record};

verus! {

/// The whole state of a run.
pub struct LedgerModel {
    /// The account of every client that an operation has named.
    pub accounts: Map<u16, Account>,
    /// The deposits and withdrawals that can still be looked up.
    pub log: Map<u32, Record>,
    /// The ids under an open dispute.
    pub disputes: Set<u32>,
}

impl LedgerModel {
    /// The state before the first operation.
    pub open spec fn empty() -> LedgerModel {
        LedgerModel { accounts: Map::empty(), log: Map::empty(), disputes: Set::empty() }
    }

    /// The account of `client`, fresh if none exists yet.
    pub open spec fn account(self, client: u16) -> Account {
        if self.accounts.contains_key(client) {
            self.accounts[client]
        } else {
            Account::fresh()
        }
    }

    /// The state with the account of `client` replaced.
    pub open spec fn with_account(self, client: u16, account: Account) -> LedgerModel {
        LedgerModel { accounts: self.accounts.insert(client, account), ..self }
    }

    /// The state after an operation of `client` that was rejected: the
    /// account exists, and nothing else has changed.
    pub open spec fn touch(self, client: u16) -> LedgerModel {
        self.with_account(client, self.account(client))
    }

    /// The state with the record of `tx` forgotten, unless `tx` is under
    /// dispute.
    pub open spec fn forget_settled(self, tx: u32) -> LedgerModel {
        if self.disputes.contains(tx) {
            self
        } else {
            LedgerModel { log: self.log.remove(tx), ..self }
        }
    }

    /// The checks that deposits and withdrawals share.
    pub open spec fn movement_allowed(self, op: Operation) -> bool {
        &&& op.amount matches Some(a) && a > 0
        &&& !self.account(op.client).locked
        &&& !self.log.contains_key(op.tx)
    }

    pub open spec fn withdrawal_accepted(self, op: Operation) -> bool {
        &&& self.movement_allowed(op)
        &&& self.account(op.client).available >= op.amount.unwrap()
    }

    pub open spec fn dispute_accepted(self, op: Operation) -> bool {
        &&& self.log.contains_key(op.tx)
        &&& self.log[op.tx].client == op.client
        &&& self.log[op.tx].is_deposit
        &&& !self.disputes.contains(op.tx)
    }

    pub open spec fn settlement_accepted(self, op: Operation) -> bool {
        &&& self.log.contains_key(op.tx)
        &&& self.log[op.tx].client == op.client
        &&& self.disputes.contains(op.tx)
    }

    pub open spec fn deposit(self, op: Operation) -> LedgerModel {
        let acct = self.account(op.client);
        if self.movement_allowed(op) {
            let amount = op.amount.unwrap();
            LedgerModel {
                accounts: self.accounts.insert(
                    op.client,
                    Account { available: acct.available + amount, ..acct },
                ),
                log: self.log.insert(
                    op.tx,
                    Record { client: op.client, amount, is_deposit: true },
                ),
                disputes: self.disputes,
            }
        } else {
            self.touch(op.client)
        }
    }

    pub open spec fn withdrawal(self, op: Operation) -> LedgerModel {
        let acct = self.account(op.client);
        if self.withdrawal_accepted(op) {
            let amount = op.amount.unwrap();
            LedgerModel {
                accounts: self.accounts.insert(
                    op.client,
                    Account { available: acct.available - amount, ..acct },
                ),
                log: self.log.insert(
                    op.tx,
                    Record { client: op.client, amount, is_deposit: false },
                ),
                disputes: self.disputes,
            }
        } else {
            self.touch(op.client)
        }
    }

    pub open spec fn dispute(self, op: Operation) -> LedgerModel {
        let acct = self.account(op.client);
        if self.dispute_accepted(op) {
            let amount = self.log[op.tx].amount;
            LedgerModel {
                accounts: self.accounts.insert(
                    op.client,
                    Account {
                        available: acct.available - amount,
                        held: acct.held + amount,
                        locked: acct.locked,
                    },
                ),
                log: self.log,
                disputes: self.disputes.insert(op.tx),
            }
        } else {
            self.touch(op.client)
        }
    }

    /// A resolve before the log is cleaned up.
    pub open spec fn resolve(self, op: Operation) -> LedgerModel {
        let acct = self.account(op.client);
        if self.settlement_accepted(op) {
            let amount = self.log[op.tx].amount;
            LedgerModel {
                accounts: self.accounts.insert(
                    op.client,
                    Account {
                        available: acct.available + amount,
                        held: acct.held - amount,
                        locked: acct.locked,
                    },
                ),
                log: self.log,
                disputes: self.disputes.remove(op.tx),
            }
        } else {
            self.touch(op.client)
        }
    }

    /// A chargeback before the log is cleaned up.
    pub open spec fn chargeback(self, op: Operation) -> LedgerModel {
        let acct = self.account(op.client);
        if self.settlement_accepted(op) {
            let amount = self.log[op.tx].amount;
            LedgerModel {
                accounts: self.accounts.insert(
                    op.client,
                    Account { available: acct.available, held: acct.held - amount, locked: true },
                ),
                log: self.log,
                disputes: self.disputes.remove(op.tx),
            }
        } else {
            self.touch(op.client)
        }
    }

    /// The state after one operation.
    pub open spec fn step(self, op: Operation) -> LedgerModel {
        match op.kind {
            OperationType::Deposit => self.deposit(op),
            OperationType::Withdrawal => self.withdrawal(op),
            OperationType::Dispute => self.dispute(op),
            OperationType::Resolve => self.resolve(op).forget_settled(op.tx),
            OperationType::Chargeback => self.chargeback(op).forget_settled(op.tx),
        }
    }

    /// The state after a sequence of operations, applied in order.
    pub open spec fn run(self, ops: Seq<Operation>) -> LedgerModel
        decreases ops.len(),
    {
        if ops.len() == 0 {
            self
        } else {
            self.run(ops.drop_last()).step(ops.last())
        }
    }
}

} // verus!
