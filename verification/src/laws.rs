//! What holds of every run of the state machine.

use vstd::prelude::*;
use crate::model::LedgerModel;
use crate::models::{Operation, OperationType};

verus! {

/// What `tx` adds to the held funds of `client`: its amount while it is
/// under dispute and owned by that client, nothing otherwise.
pub open spec fn frozen(m: LedgerModel, client: u16, tx: u32) -> int {
    if m.disputes.contains(tx) && m.log.contains_key(tx) && m.log[tx].client == client {
        m.log[tx].amount
    } else {
        0
    }
}

/// The sum of `frozen` over the ids below `n`.
pub open spec fn frozen_below(m: LedgerModel, client: u16, n: nat) -> int
    decreases n,
{
    if n == 0 {
        0
    } else {
        frozen_below(m, client, (n - 1) as nat) + frozen(m, client, (n - 1) as u32)
    }
}

/// The sum of the amounts of the open disputes of `client`.
pub open spec fn frozen_total(m: LedgerModel, client: u16) -> int {
    frozen_below(m, client, 0x1_0000_0000)
}

/// The state is one that a run can reach: logged amounts are positive,
/// disputed ids are logged, every owner has an account, and every account
/// holds exactly what its open disputes freeze.
pub open spec fn consistent(m: LedgerModel) -> bool {
    &&& forall|t: u32| #[trigger] m.log.contains_key(t) ==> m.log[t].amount > 0
    &&& forall|t: u32| #[trigger] m.disputes.contains(t) ==> m.log.contains_key(t)
    &&& forall|t: u32| #[trigger]
        m.log.contains_key(t) ==> m.accounts.contains_key(m.log[t].client)
    &&& forall|c: u16| #[trigger]
        m.accounts.contains_key(c) ==> m.accounts[c].held == frozen_total(m, c)
}

/// Two states that freeze the same for every id but `t` differ in their sums
/// by what they differ at `t`.
proof fn lemma_frozen_below_update(m1: LedgerModel, m2: LedgerModel, client: u16, t: u32, n: nat)
    requires
        n <= 0x1_0000_0000,
        forall|x: u32| x != t ==> frozen(m1, client, x) == frozen(m2, client, x),
    ensures
        frozen_below(m2, client, n) == frozen_below(m1, client, n) + if t < n {
            frozen(m2, client, t) - frozen(m1, client, t)
        } else {
            0
        },
    decreases n,
{
    if n > 0 {
        lemma_frozen_below_update(m1, m2, client, t, (n - 1) as nat);
    }
}

/// Where every logged amount is positive, no sum of frozen amounts is
/// negative.
proof fn lemma_frozen_below_nonnegative(m: LedgerModel, client: u16, n: nat)
    requires
        forall|t: u32| #[trigger] m.log.contains_key(t) ==> m.log[t].amount > 0,
    ensures
        frozen_below(m, client, n) >= 0,
    decreases n,
{
    if n > 0 {
        lemma_frozen_below_nonnegative(m, client, (n - 1) as nat);
    }
}

/// One operation changes what is frozen at its own id only.
proof fn lemma_step_frozen(m: LedgerModel, op: Operation, client: u16)
    ensures
        frozen_total(m.step(op), client) == frozen_total(m, client) + frozen(
            m.step(op),
            client,
            op.tx,
        ) - frozen(m, client, op.tx),
{
    let m2 = m.step(op);
    assert forall|x: u32| x != op.tx implies frozen(m, client, x) == frozen(m2, client, x) by {}
    lemma_frozen_below_update(m, m2, client, op.tx, 0x1_0000_0000);
}

/// The empty ledger is consistent.
pub proof fn lemma_empty_consistent()
    ensures
        consistent(LedgerModel::empty()),
{
}

/// Every operation keeps a consistent ledger consistent.
pub proof fn lemma_step_consistent(m: LedgerModel, op: Operation)
    requires
        consistent(m),
    ensures
        consistent(m.step(op)),
{
    let m2 = m.step(op);
    assert forall|c: u16| #[trigger] m2.accounts.contains_key(c) implies m2.accounts[c].held
        == frozen_total(m2, c) by {
        lemma_step_frozen(m, op, c);
        if !m.accounts.contains_key(c) {
            assert forall|x: u32| frozen(LedgerModel::empty(), c, x) == frozen(m, c, x) by {}
            lemma_frozen_below_update(LedgerModel::empty(), m, c, 0, 0x1_0000_0000);
            lemma_frozen_below_zero(c, 0x1_0000_0000);
        }
    }
}

/// Creating a client's account keeps a consistent ledger consistent.
pub proof fn lemma_touch_consistent(m: LedgerModel, client: u16)
    requires
        consistent(m),
    ensures
        consistent(m.touch(client)),
{
    let m2 = m.touch(client);
    assert forall|c: u16| #[trigger] m2.accounts.contains_key(c) implies m2.accounts[c].held
        == frozen_total(m2, c) by {
        assert forall|x: u32| x != 0u32 implies frozen(m, c, x) == frozen(m2, c, x) by {}
        lemma_frozen_below_update(m, m2, c, 0, 0x1_0000_0000);
        if !m.accounts.contains_key(c) {
            assert forall|x: u32| frozen(LedgerModel::empty(), c, x) == frozen(m, c, x) by {}
            lemma_frozen_below_update(LedgerModel::empty(), m, c, 0, 0x1_0000_0000);
            lemma_frozen_below_zero(c, 0x1_0000_0000);
        }
    }
}

/// Nothing is frozen in the empty ledger.
proof fn lemma_frozen_below_zero(client: u16, n: nat)
    ensures
        frozen_below(LedgerModel::empty(), client, n) == 0,
    decreases n,
{
    if n > 0 {
        lemma_frozen_below_zero(client, (n - 1) as nat);
    }
}

/// Every run from the empty ledger ends in a consistent state.
pub proof fn lemma_run_consistent(ops: Seq<Operation>)
    ensures
        consistent(LedgerModel::empty().run(ops)),
    decreases ops.len(),
{
    if ops.len() > 0 {
        lemma_run_consistent(ops.drop_last());
        lemma_step_consistent(LedgerModel::empty().run(ops.drop_last()), ops.last());
    }
}

/// After any finite sequence of operations, the held funds of every account
/// equal the sum of the amounts of that client's open disputes.
pub proof fn lemma_held_is_sum_of_open_disputes(ops: Seq<Operation>, client: u16)
    requires
        LedgerModel::empty().run(ops).accounts.contains_key(client),
    ensures
        LedgerModel::empty().run(ops).accounts[client].held == frozen_total(
            LedgerModel::empty().run(ops),
            client,
        ),
{
    lemma_run_consistent(ops);
}

/// After any finite sequence of operations, no account holds a negative
/// amount.
pub proof fn lemma_held_never_negative(ops: Seq<Operation>, client: u16)
    requires
        LedgerModel::empty().run(ops).accounts.contains_key(client),
    ensures
        LedgerModel::empty().run(ops).accounts[client].held >= 0,
{
    lemma_run_consistent(ops);
    lemma_frozen_below_nonnegative(LedgerModel::empty().run(ops), client, 0x1_0000_0000);
}

/// A deposit or withdrawal under an id that the log holds changes no
/// balance, no record and no dispute.
pub proof fn lemma_logged_id_rejected(m: LedgerModel, op: Operation)
    requires
        op.kind == OperationType::Deposit || op.kind == OperationType::Withdrawal,
        m.log.contains_key(op.tx),
    ensures
        m.step(op) == m.touch(op.client),
        m.step(op).account(op.client) == m.account(op.client),
{
}

/// A withdrawal of more than is available changes no balance, no record and
/// no dispute.
pub proof fn lemma_overdraft_rejected(m: LedgerModel, op: Operation)
    requires
        op.kind == OperationType::Withdrawal,
        op.amount matches Some(a) && a > m.account(op.client).available,
    ensures
        m.step(op) == m.touch(op.client),
        m.step(op).account(op.client) == m.account(op.client),
{
}

/// A dispute of an id that was logged by a withdrawal changes no balance, no
/// record and no dispute.
pub proof fn lemma_dispute_of_withdrawal_ignored(m: LedgerModel, op: Operation)
    requires
        op.kind == OperationType::Dispute,
        m.log.contains_key(op.tx),
        !m.log[op.tx].is_deposit,
    ensures
        m.step(op) == m.touch(op.client),
        m.step(op).account(op.client) == m.account(op.client),
{
}

/// An accepted chargeback locks the account of its client.
pub proof fn lemma_chargeback_locks(m: LedgerModel, op: Operation)
    requires
        op.kind == OperationType::Chargeback,
        m.settlement_accepted(op),
    ensures
        m.step(op).account(op.client).locked,
{
}

/// No operation unlocks an account.
pub proof fn lemma_lock_survives_step(m: LedgerModel, op: Operation, client: u16)
    requires
        m.account(client).locked,
    ensures
        m.step(op).account(client).locked,
{
}

/// A locked account stays locked through any sequence of operations.
pub proof fn lemma_lock_survives_run(m: LedgerModel, ops: Seq<Operation>, client: u16)
    requires
        m.account(client).locked,
    ensures
        m.run(ops).account(client).locked,
    decreases ops.len(),
{
    if ops.len() > 0 {
        lemma_lock_survives_run(m, ops.drop_last(), client);
        lemma_lock_survives_step(m.run(ops.drop_last()), ops.last(), client);
    }
}

/// A deposit or withdrawal for a locked account changes no balance, no
/// record and no dispute.
pub proof fn lemma_locked_rejects_movement(m: LedgerModel, op: Operation)
    requires
        op.kind == OperationType::Deposit || op.kind == OperationType::Withdrawal,
        m.account(op.client).locked,
    ensures
        m.step(op) == m.touch(op.client),
        m.step(op).account(op.client) == m.account(op.client),
{
}

/// After a resolve of an id, whoever sent it, a dispute of the same id is
/// rejected; and where the resolve was accepted, the record is gone.
pub proof fn lemma_resolved_cannot_be_disputed(
    m: LedgerModel,
    resolve: Operation,
    dispute: Operation,
)
    requires
        resolve.kind == OperationType::Resolve,
        dispute.kind == OperationType::Dispute,
        dispute.tx == resolve.tx,
    ensures
        m.step(resolve).step(dispute) == m.step(resolve).touch(dispute.client),
        m.settlement_accepted(resolve) ==> !m.step(resolve).log.contains_key(resolve.tx),
{
}

} // verus!
