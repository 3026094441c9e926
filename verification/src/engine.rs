//! The transition rules, one function per kind of operation, and the
//! dispatcher that runs a stream of operations through them.

use vstd::prelude::*;
use std::collections::HashMap;
use std::collections::HashSet;
use crate::amount::Amount;
use crate::models::{
    Account, ClientBalance, Operation, OperationRecord, OperationType, Record, TransactionState,
};
use crate::model::LedgerModel;
use crate::laws::{
    consistent, lemma_empty_consistent, lemma_held_never_negative, lemma_step_consistent,
    lemma_touch_consistent,
};

verus! {

broadcast use vstd::std_specs::hash::group_hash_axioms;

/// Why an operation could not be applied.
#[derive(Debug, Clone, Copy, PartialEq, Eq, Structural)]
pub enum EngineError {
    /// A balance left the range that a decimal can hold exactly.
    Overflow,
}

/// Every record of the log holds a valid decimal.
pub open spec fn log_wf(log: Map<u32, TransactionState>) -> bool {
    forall|t: u32| #[trigger] log.contains_key(t) ==> log[t].wf()
}

/// A deposit or withdrawal passes the checks that both share: the amount is
/// present and above zero, the account is not locked, the id is new.
pub open spec fn movement_allowed(
    log: Map<u32, TransactionState>,
    balance: ClientBalance,
    tx: u32,
    amount: Option<Amount>,
) -> bool {
    &&& amount matches Some(a) && a@ > 0
    &&& !balance.locked
    &&& !log.contains_key(tx)
}

/// A withdrawal is accepted: it is allowed and the funds are there.
pub open spec fn withdrawal_accepted(
    log: Map<u32, TransactionState>,
    balance: ClientBalance,
    tx: u32,
    amount: Option<Amount>,
) -> bool {
    &&& movement_allowed(log, balance, tx, amount)
    &&& balance.available@ >= amount.unwrap()@
}

/// A dispute is accepted: the id is logged, by this client, as a deposit,
/// and is not under dispute yet.
pub open spec fn dispute_accepted(
    log: Map<u32, TransactionState>,
    disputes: Set<u32>,
    tx: u32,
    client: u16,
) -> bool {
    &&& log.contains_key(tx)
    &&& log[tx].client == client
    &&& log[tx].is_deposit
    &&& !disputes.contains(tx)
}

/// A resolve or chargeback is accepted: the id is logged, by this client,
/// and is under dispute.
pub open spec fn settlement_accepted(
    log: Map<u32, TransactionState>,
    disputes: Set<u32>,
    tx: u32,
    client: u16,
) -> bool {
    &&& log.contains_key(tx)
    &&& log[tx].client == client
    &&& disputes.contains(tx)
}

/// The balance after an accepted deposit of `a`.
pub open spec fn deposited(b: ClientBalance, a: Amount) -> ClientBalance {
    ClientBalance { available: b.available.spec_add(a).unwrap(), held: b.held, locked: b.locked }
}

/// The balance after an accepted withdrawal of `a`.
pub open spec fn withdrawn(b: ClientBalance, a: Amount) -> ClientBalance {
    ClientBalance { available: b.available.spec_sub(a).unwrap(), held: b.held, locked: b.locked }
}

/// The balance after an accepted dispute over `a`.
pub open spec fn disputed(b: ClientBalance, a: Amount) -> ClientBalance {
    ClientBalance {
        available: b.available.spec_sub(a).unwrap(),
        held: b.held.spec_add(a).unwrap(),
        locked: b.locked,
    }
}

/// The balance after an accepted resolve of a dispute over `a`.
pub open spec fn resolved(b: ClientBalance, a: Amount) -> ClientBalance {
    ClientBalance {
        available: b.available.spec_add(a).unwrap(),
        held: b.held.spec_sub(a).unwrap(),
        locked: b.locked,
    }
}

/// The balance after an accepted chargeback of a dispute over `a`.
pub open spec fn charged_back(b: ClientBalance, a: Amount) -> ClientBalance {
    ClientBalance { available: b.available, held: b.held.spec_sub(a).unwrap(), locked: true }
}

/// Adds `amount` to the available funds and records the deposit, unless the
/// amount is missing or not positive, the account is locked, or the id is
/// already logged: then nothing changes.
pub fn apply_deposit(
    transaction_log: &mut HashMap<u32, TransactionState>,
    balance: &mut ClientBalance,
    tx: u32,
    client: u16,
    amount: Option<Amount>,
) -> (r: Result<(), EngineError>)
    requires
        old(balance).wf(),
        amount matches Some(a) ==> a.wf(),
    ensures
        final(balance).wf(),
        r is Err <==> movement_allowed(old(transaction_log)@, *old(balance), tx, amount) && !old(
            balance,
        ).available.sum_fits(&amount.unwrap()),
        r is Ok && movement_allowed(old(transaction_log)@, *old(balance), tx, amount) ==> {
            &&& *final(balance) == deposited(*old(balance), amount.unwrap())
            &&& final(balance).available@ == old(balance).available@ + amount.unwrap()@
            &&& final(transaction_log)@ == old(transaction_log)@.insert(
                tx,
                TransactionState { client, amount: amount.unwrap(), is_deposit: true },
            )
        },
        r is Err || !movement_allowed(old(transaction_log)@, *old(balance), tx, amount) ==> {
            &&& *final(balance) == *old(balance)
            &&& final(transaction_log)@ == old(transaction_log)@
        },
{
    if let Some(amt) = amount {
        if amt.is_positive() && !balance.locked && !transaction_log.contains_key(&tx) {
            match balance.available.checked_add(&amt) {
                Some(sum) => {
                    balance.available = sum;
                    transaction_log.insert(
                        tx,
                        TransactionState { client, amount: amt, is_deposit: true },
                    );
                },
                None => {
                    return Err(EngineError::Overflow);
                },
            }
        }
    }
    Ok(())
}

/// Takes `amount` from the available funds and records the withdrawal,
/// unless the amount is missing or not positive, the account is locked, the
/// funds do not cover it, or the id is already logged: then nothing changes.
pub fn apply_withdrawal(
    balance: &mut ClientBalance,
    tx: u32,
    client: u16,
    amount: Option<Amount>,
    transaction_log: &mut HashMap<u32, TransactionState>,
) -> (r: Result<(), EngineError>)
    requires
        old(balance).wf(),
        amount matches Some(a) ==> a.wf(),
    ensures
        final(balance).wf(),
        r is Err <==> withdrawal_accepted(old(transaction_log)@, *old(balance), tx, amount)
            && !old(balance).available.difference_fits(&amount.unwrap()),
        r is Ok && withdrawal_accepted(old(transaction_log)@, *old(balance), tx, amount) ==> {
            &&& *final(balance) == withdrawn(*old(balance), amount.unwrap())
            &&& final(balance).available@ == old(balance).available@ - amount.unwrap()@
            &&& final(transaction_log)@ == old(transaction_log)@.insert(
                tx,
                TransactionState { client, amount: amount.unwrap(), is_deposit: false },
            )
        },
        r is Err || !withdrawal_accepted(old(transaction_log)@, *old(balance), tx, amount) ==> {
            &&& *final(balance) == *old(balance)
            &&& final(transaction_log)@ == old(transaction_log)@
        },
{
    if let Some(amt) = amount {
        if amt.is_positive() && !balance.locked && amt.le(&balance.available)
            && !transaction_log.contains_key(&tx) {
            match balance.available.checked_sub(&amt) {
                Some(rest) => {
                    balance.available = rest;
                    transaction_log.insert(
                        tx,
                        TransactionState { client, amount: amt, is_deposit: false },
                    );
                },
                None => {
                    return Err(EngineError::Overflow);
                },
            }
        }
    }
    Ok(())
}

/// Moves the amount of a logged deposit from available to held and marks the
/// id as disputed, unless the id is unknown, belongs to another client, is a
/// withdrawal, or is disputed already: then nothing changes.
pub fn apply_dispute(
    balance: &mut ClientBalance,
    tx: u32,
    client: u16,
    transaction_log: &HashMap<u32, TransactionState>,
    dispute_tracker: &mut HashSet<u32>,
) -> (r: Result<(), EngineError>)
    requires
        old(balance).wf(),
        log_wf(transaction_log@),
    ensures
        final(balance).wf(),
        r is Err <==> dispute_accepted(transaction_log@, old(dispute_tracker)@, tx, client) && !(
        old(balance).available.difference_fits(&transaction_log@[tx].amount) && old(
            balance,
        ).held.sum_fits(&transaction_log@[tx].amount)),
        r is Ok && dispute_accepted(transaction_log@, old(dispute_tracker)@, tx, client) ==> {
            &&& *final(balance) == disputed(*old(balance), transaction_log@[tx].amount)
            &&& final(balance).available@ == old(balance).available@ - transaction_log@[tx].amount@
            &&& final(balance).held@ == old(balance).held@ + transaction_log@[tx].amount@
            &&& final(dispute_tracker)@ == old(dispute_tracker)@.insert(tx)
        },
        r is Err || !dispute_accepted(transaction_log@, old(dispute_tracker)@, tx, client) ==> {
            &&& *final(balance) == *old(balance)
            &&& final(dispute_tracker)@ == old(dispute_tracker)@
        },
{
    if let Some(state) = transaction_log.get(&tx) {
        if state.client == client && state.is_deposit && !dispute_tracker.contains(&tx) {
            let amt = state.amount;
            match (balance.available.checked_sub(&amt), balance.held.checked_add(&amt)) {
                (Some(available), Some(held)) => {
                    balance.available = available;
                    balance.held = held;
                    dispute_tracker.insert(tx);
                },
                _ => {
                    return Err(EngineError::Overflow);
                },
            }
        }
    }
    Ok(())
}

/// Moves the amount of a disputed transaction back from held to available
/// and ends the dispute, unless the id is unknown, belongs to another
/// client, or is not under dispute: then nothing changes.
pub fn apply_resolve(
    balance: &mut ClientBalance,
    tx: u32,
    client: u16,
    transaction_log: &HashMap<u32, TransactionState>,
    dispute_tracker: &mut HashSet<u32>,
) -> (r: Result<(), EngineError>)
    requires
        old(balance).wf(),
        log_wf(transaction_log@),
    ensures
        final(balance).wf(),
        r is Err <==> settlement_accepted(transaction_log@, old(dispute_tracker)@, tx, client)
            && !(old(balance).available.sum_fits(&transaction_log@[tx].amount) && old(
            balance,
        ).held.difference_fits(&transaction_log@[tx].amount)),
        r is Ok && settlement_accepted(transaction_log@, old(dispute_tracker)@, tx, client) ==> {
            &&& *final(balance) == resolved(*old(balance), transaction_log@[tx].amount)
            &&& final(balance).available@ == old(balance).available@ + transaction_log@[tx].amount@
            &&& final(balance).held@ == old(balance).held@ - transaction_log@[tx].amount@
            &&& final(dispute_tracker)@ == old(dispute_tracker)@.remove(tx)
        },
        r is Err || !settlement_accepted(transaction_log@, old(dispute_tracker)@, tx, client)
            ==> {
            &&& *final(balance) == *old(balance)
            &&& final(dispute_tracker)@ == old(dispute_tracker)@
        },
{
    if let Some(state) = transaction_log.get(&tx) {
        if state.client == client && dispute_tracker.contains(&tx) {
            let amt = state.amount;
            match (balance.available.checked_add(&amt), balance.held.checked_sub(&amt)) {
                (Some(available), Some(held)) => {
                    balance.available = available;
                    balance.held = held;
                    dispute_tracker.remove(&tx);
                },
                _ => {
                    return Err(EngineError::Overflow);
                },
            }
        }
    }
    Ok(())
}

/// Removes the amount of a disputed transaction from held for good, locks
/// the account and ends the dispute, unless the id is unknown, belongs to
/// another client, or is not under dispute: then nothing changes.
pub fn apply_chargeback(
    balance: &mut ClientBalance,
    tx: u32,
    client: u16,
    transaction_log: &HashMap<u32, TransactionState>,
    dispute_tracker: &mut HashSet<u32>,
) -> (r: Result<(), EngineError>)
    requires
        old(balance).wf(),
        log_wf(transaction_log@),
    ensures
        final(balance).wf(),
        r is Err <==> settlement_accepted(transaction_log@, old(dispute_tracker)@, tx, client)
            && !old(balance).held.difference_fits(&transaction_log@[tx].amount),
        r is Ok && settlement_accepted(transaction_log@, old(dispute_tracker)@, tx, client) ==> {
            &&& *final(balance) == charged_back(*old(balance), transaction_log@[tx].amount)
            &&& final(balance).held@ == old(balance).held@ - transaction_log@[tx].amount@
            &&& final(dispute_tracker)@ == old(dispute_tracker)@.remove(tx)
        },
        r is Err || !settlement_accepted(transaction_log@, old(dispute_tracker)@, tx, client)
            ==> {
            &&& *final(balance) == *old(balance)
            &&& final(dispute_tracker)@ == old(dispute_tracker)@
        },
{
    if let Some(state) = transaction_log.get(&tx) {
        if state.client == client && dispute_tracker.contains(&tx) {
            let amt = state.amount;
            match balance.held.checked_sub(&amt) {
                Some(held) => {
                    balance.held = held;
                    balance.locked = true;
                    dispute_tracker.remove(&tx);
                },
                None => {
                    return Err(EngineError::Overflow);
                },
            }
        }
    }
    Ok(())
}

/// Forgets the record of `tx` unless the id is under dispute.
pub fn cleanup_transaction(
    transaction_log: &mut HashMap<u32, TransactionState>,
    dispute_tracker: &HashSet<u32>,
    tx: u32,
)
    ensures
        final(transaction_log)@ == if dispute_tracker@.contains(tx) {
            old(transaction_log)@
        } else {
            old(transaction_log)@.remove(tx)
        },
{
    if !dispute_tracker.contains(&tx) {
        transaction_log.remove(&tx);
    }
}

/// The accounts of a map as numbers.
pub open spec fn accounts_view(accounts: Map<u16, ClientBalance>) -> Map<u16, Account> {
    Map::new(|c: u16| accounts.contains_key(c), |c: u16| accounts[c]@)
}

/// The records of a log as numbers.
pub open spec fn log_view(log: Map<u32, TransactionState>) -> Map<u32, Record> {
    Map::new(|t: u32| log.contains_key(t), |t: u32| log[t]@)
}

/// The operations of a list as numbers.
pub open spec fn operations_view(records: Seq<OperationRecord>) -> Seq<Operation> {
    Seq::new(records.len(), |i: int| records[i]@)
}

/// What the three containers of a ledger hold.
pub struct LedgerState {
    pub accounts: Map<u16, ClientBalance>,
    pub log: Map<u32, TransactionState>,
    pub disputes: Set<u32>,
}

impl LedgerState {
    /// No account, no record, no dispute.
    pub open spec fn empty() -> LedgerState {
        LedgerState { accounts: Map::empty(), log: Map::empty(), disputes: Set::empty() }
    }

    /// Every amount held is a valid decimal.
    pub open spec fn wf(self) -> bool {
        &&& forall|c: u16| #[trigger] self.accounts.contains_key(c) ==> self.accounts[c].wf()
        &&& log_wf(self.log)
    }

    /// The same state over exact numbers.
    pub open spec fn model(self) -> LedgerModel {
        LedgerModel {
            accounts: accounts_view(self.accounts),
            log: log_view(self.log),
            disputes: self.disputes,
        }
    }

    /// The balance of `client`, fresh if there is none yet.
    pub open spec fn balance_of(self, client: u16) -> ClientBalance {
        if self.accounts.contains_key(client) {
            self.accounts[client]
        } else {
            ClientBalance::spec_new()
        }
    }

    /// The operation is accepted by the rule of its kind.
    pub open spec fn accepts(self, record: OperationRecord) -> bool {
        let b = self.balance_of(record.client);
        match record.kind {
            OperationType::Deposit => movement_allowed(self.log, b, record.tx, record.amount),
            OperationType::Withdrawal => withdrawal_accepted(
                self.log,
                b,
                record.tx,
                record.amount,
            ),
            OperationType::Dispute => dispute_accepted(
                self.log,
                self.disputes,
                record.tx,
                record.client,
            ),
            OperationType::Resolve => settlement_accepted(
                self.log,
                self.disputes,
                record.tx,
                record.client,
            ),
            OperationType::Chargeback => settlement_accepted(
                self.log,
                self.disputes,
                record.tx,
                record.client,
            ),
        }
    }

    /// Every balance that the operation produces can be written exactly.
    /// Asked only of an operation that is accepted.
    pub open spec fn fits(self, record: OperationRecord) -> bool {
        let b = self.balance_of(record.client);
        match record.kind {
            OperationType::Deposit => b.available.sum_fits(&record.amount.unwrap()),
            OperationType::Withdrawal => b.available.difference_fits(&record.amount.unwrap()),
            OperationType::Dispute => b.available.difference_fits(&self.log[record.tx].amount)
                && b.held.sum_fits(&self.log[record.tx].amount),
            OperationType::Resolve => b.available.sum_fits(&self.log[record.tx].amount)
                && b.held.difference_fits(&self.log[record.tx].amount),
            OperationType::Chargeback => b.held.difference_fits(&self.log[record.tx].amount),
        }
    }

    /// The operation is accepted, and one of the balances it produces cannot
    /// be written exactly.
    pub open spec fn overflows(self, record: OperationRecord) -> bool {
        self.accepts(record) && !self.fits(record)
    }

    /// The state after an operation that was rejected: the client has an
    /// account, nothing else has changed.
    pub open spec fn touched(self, client: u16) -> LedgerState {
        LedgerState { accounts: self.accounts.insert(client, self.balance_of(client)), ..self }
    }

    /// The state after an accepted operation whose balances fit, before the
    /// log is cleaned up.
    pub open spec fn moved(self, record: OperationRecord) -> LedgerState {
        let b = self.balance_of(record.client);
        match record.kind {
            OperationType::Deposit => LedgerState {
                accounts: self.accounts.insert(
                    record.client,
                    deposited(b, record.amount.unwrap()),
                ),
                log: self.log.insert(
                    record.tx,
                    TransactionState {
                        client: record.client,
                        amount: record.amount.unwrap(),
                        is_deposit: true,
                    },
                ),
                disputes: self.disputes,
            },
            OperationType::Withdrawal => LedgerState {
                accounts: self.accounts.insert(
                    record.client,
                    withdrawn(b, record.amount.unwrap()),
                ),
                log: self.log.insert(
                    record.tx,
                    TransactionState {
                        client: record.client,
                        amount: record.amount.unwrap(),
                        is_deposit: false,
                    },
                ),
                disputes: self.disputes,
            },
            OperationType::Dispute => LedgerState {
                accounts: self.accounts.insert(
                    record.client,
                    disputed(b, self.log[record.tx].amount),
                ),
                log: self.log,
                disputes: self.disputes.insert(record.tx),
            },
            OperationType::Resolve => LedgerState {
                accounts: self.accounts.insert(
                    record.client,
                    resolved(b, self.log[record.tx].amount),
                ),
                log: self.log,
                disputes: self.disputes.remove(record.tx),
            },
            OperationType::Chargeback => LedgerState {
                accounts: self.accounts.insert(
                    record.client,
                    charged_back(b, self.log[record.tx].amount),
                ),
                log: self.log,
                disputes: self.disputes.remove(record.tx),
            },
        }
    }

    /// The state with the record of `tx` forgotten, unless `tx` is under
    /// dispute.
    pub open spec fn forget_settled(self, tx: u32) -> LedgerState {
        if self.disputes.contains(tx) {
            self
        } else {
            LedgerState { log: self.log.remove(tx), ..self }
        }
    }

    /// The state after one operation, or `None` where the operation
    /// overflows.
    pub open spec fn advance(self, record: OperationRecord) -> Option<LedgerState> {
        if self.overflows(record) {
            None
        } else {
            let next = if self.accepts(record) {
                self.moved(record)
            } else {
                self.touched(record.client)
            };
            match record.kind {
                OperationType::Resolve => Some(next.forget_settled(record.tx)),
                OperationType::Chargeback => Some(next.forget_settled(record.tx)),
                _ => Some(next),
            }
        }
    }

    /// The state after a list of operations, applied in order, or `None`
    /// where one of them overflows.
    pub open spec fn replay(self, records: Seq<OperationRecord>) -> Option<LedgerState>
        decreases records.len(),
    {
        if records.len() == 0 {
            Some(self)
        } else {
            match self.replay(records.drop_last()) {
                Some(reached) => reached.advance(records.last()),
                None => None,
            }
        }
    }
}

/// Once a prefix of the operations has overflowed, so has the whole list.
proof fn lemma_replay_stops(start: LedgerState, records: Seq<OperationRecord>, i: int)
    requires
        0 <= i <= records.len(),
        start.replay(records.take(i)) is None,
    ensures
        start.replay(records) is None,
    decreases records.len(),
{
    if i == records.len() {
        assert(records.take(i) =~= records);
    } else {
        assert(records.drop_last().take(i) =~= records.take(i));
        lemma_replay_stops(start, records.drop_last(), i);
    }
}

/// The three containers that the dispatcher threads through a run.
pub struct Ledger {
    pub accounts: HashMap<u16, ClientBalance>,
    pub log: HashMap<u32, TransactionState>,
    pub disputes: HashSet<u32>,
}

impl View for Ledger {
    type V = LedgerModel;

    open spec fn view(&self) -> LedgerModel {
        self.state().model()
    }
}

impl Ledger {
    /// What the containers hold.
    pub open spec fn state(&self) -> LedgerState {
        LedgerState { accounts: self.accounts@, log: self.log@, disputes: self.disputes@ }
    }

    /// Every amount that the ledger holds is a valid decimal.
    pub open spec fn wf(&self) -> bool {
        self.state().wf()
    }

    /// A ledger with no account, no record and no dispute.
    pub fn new() -> (r: Ledger)
        ensures
            r.wf(),
            r.state() == LedgerState::empty(),
            r@ == LedgerModel::empty(),
            consistent(r@),
    {
        let r = Ledger { accounts: HashMap::new(), log: HashMap::new(), disputes: HashSet::new() };
        proof {
            lemma_empty_consistent();
            assert(r@.accounts =~= LedgerModel::empty().accounts);
            assert(r@.log =~= LedgerModel::empty().log);
        }
        r
    }

    /// Applies one operation: creates the client's account if there is
    /// none, runs the rule of the operation's kind, and after a resolve or
    /// chargeback forgets the record unless it is still disputed. Where a
    /// balance would overflow, only the account's creation is kept. A
    /// ledger in which every account holds what its open disputes freeze
    /// stays so.
    pub fn apply(&mut self, record: &OperationRecord) -> (r: Result<(), EngineError>)
        requires
            old(self).wf(),
            record.wf(),
        ensures
            final(self).wf(),
            r is Err <==> old(self).state().overflows(*record),
            r is Ok ==> old(self).state().advance(*record) == Some(final(self).state()),
            r is Ok ==> final(self)@ == old(self)@.step(record@),
            r is Err ==> final(self).state() == old(self).state().touched(record.client),
            r is Err ==> final(self)@ == old(self)@.touch(record.client),
            consistent(old(self)@) ==> consistent(final(self)@),
    {
        let mut balance = match self.accounts.get(&record.client) {
            Some(b) => *b,
            None => ClientBalance::new(),
        };
        let tx = record.tx;
        let client = record.client;
        let ghost before = *self;
        proof {
            assert(balance == before.state().balance_of(client));
            assert(balance@ == before@.account(client));
        }
        let r = match record.kind {
            OperationType::Deposit => apply_deposit(
                &mut self.log,
                &mut balance,
                tx,
                client,
                record.amount,
            ),
            OperationType::Withdrawal => apply_withdrawal(
                &mut balance,
                tx,
                client,
                record.amount,
                &mut self.log,
            ),
            OperationType::Dispute => apply_dispute(
                &mut balance,
                tx,
                client,
                &self.log,
                &mut self.disputes,
            ),
            OperationType::Resolve => {
                let r = apply_resolve(&mut balance, tx, client, &self.log, &mut self.disputes);
                cleanup_transaction(&mut self.log, &self.disputes, tx);
                r
            },
            OperationType::Chargeback => {
                let r = apply_chargeback(&mut balance, tx, client, &self.log, &mut self.disputes);
                cleanup_transaction(&mut self.log, &self.disputes, tx);
                r
            },
        };
        self.accounts.insert(client, balance);
        proof {
            let expected = if r is Ok {
                before@.step(record@)
            } else {
                before@.touch(client)
            };
            assert(self@.accounts =~= expected.accounts);
            assert(self@.log =~= expected.log);
            assert(self@.disputes =~= expected.disputes);
            if consistent(before@) {
                lemma_step_consistent(before@, record@);
                lemma_touch_consistent(before@, client);
            }
            if r is Ok {
                let next = before.state().advance(*record).unwrap();
                assert(self.state().accounts =~= next.accounts);
                assert(self.state().log =~= next.log);
                assert(self.state().disputes =~= next.disputes);
            } else {
                let next = before.state().touched(client);
                assert(self.state().accounts =~= next.accounts);
                assert(self.state().log =~= next.log);
                assert(self.state().disputes =~= next.disputes);
            }
        }
        r
    }
}

/// Runs the operations in order through a fresh ledger and returns the
/// balance of every client that an operation named, or an error where one
/// of the operations would take a balance out of the range that a decimal
/// holds exactly.
pub fn process_transactions(records: &Vec<OperationRecord>) -> (r: Result<
    HashMap<u16, ClientBalance>,
    EngineError,
>)
    requires
        forall|i: int| 0 <= i < records.len() ==> (#[trigger] records[i]).wf(),
    ensures
        r is Ok <==> LedgerState::empty().replay(records@) is Some,
        r matches Ok(balances) ==> {
            &&& balances@ == LedgerState::empty().replay(records@).unwrap().accounts
            &&& accounts_view(balances@) == LedgerModel::empty().run(
                operations_view(records@),
            ).accounts
            &&& forall|c: u16| #[trigger]
                balances@.contains_key(c) ==> balances@[c].wf() && balances@[c].held@ >= 0
        },
{
    let mut ledger = Ledger::new();
    let ghost ops = operations_view(records@);
    let mut i: usize = 0;
    proof {
        assert(ops.take(0) =~= Seq::<Operation>::empty());
        assert(records@.take(0) =~= Seq::<OperationRecord>::empty());
    }
    while i < records.len()
        invariant
            i <= records.len(),
            ops == operations_view(records@),
            ledger.wf(),
            ledger@ == LedgerModel::empty().run(ops.take(i as int)),
            LedgerState::empty().replay(records@.take(i as int)) == Some(ledger.state()),
            forall|j: int| 0 <= j < records.len() ==> (#[trigger] records[j]).wf(),
        decreases records.len() - i,
    {
        let applied = ledger.apply(&records[i]);
        proof {
            assert(ops.take(i + 1).drop_last() =~= ops.take(i as int));
            assert(ops.take(i + 1).last() == records[i as int]@);
            assert(records@.take(i + 1).drop_last() =~= records@.take(i as int));
            assert(records@.take(i + 1).last() == records[i as int]);
        }
        match applied {
            Ok(()) => {},
            Err(e) => {
                proof {
                    lemma_replay_stops(LedgerState::empty(), records@, i + 1);
                }
                return Err(e);
            },
        }
        i = i + 1;
    }
    proof {
        assert(ops.take(i as int) =~= ops);
        assert(records@.take(i as int) =~= records@);
        assert forall|c: u16| #[trigger] ledger.accounts@.contains_key(c) implies ledger.accounts@[c].held@
            >= 0 by {
            assert(ledger@.accounts.contains_key(c));
            lemma_held_never_negative(ops, c);
        }
    }
    Ok(ledger.accounts)
}

} // verus!
