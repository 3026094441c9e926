//! The records the engine consumes and the state it keeps, each with the
//! mathematical value that the contracts speak of.

use vstd::prelude::*;
use crate::amount::Amount;

verus! {

/// The five kinds of operation.
#[derive(Debug, Clone, Copy, PartialEq, Eq, Structural)]
pub enum OperationType {
    Deposit,
    Withdrawal,
    Dispute,
    Resolve,
    Chargeback,
}

/// The lower-case form of an ASCII letter; any other byte as it is.
pub open spec fn ascii_lower(b: u8) -> u8 {
    if 65 <= b <= 90 {
        (b + 32) as u8
    } else {
        b
    }
}

/// The bytes of a name with every ASCII letter in lower case.
pub open spec fn folded(name: Seq<u8>) -> Seq<u8> {
    Seq::new(name.len(), |i: int| ascii_lower(name[i]))
}

impl OperationType {
    /// The bytes of the kind's keyword, in lower case.
    pub open spec fn keyword(self) -> Seq<u8> {
        match self {
            OperationType::Deposit => seq![100u8, 101u8, 112u8, 111u8, 115u8, 105u8, 116u8],
            OperationType::Withdrawal => seq![
                119u8,
                105u8,
                116u8,
                104u8,
                100u8,
                114u8,
                97u8,
                119u8,
                97u8,
                108u8,
            ],
            OperationType::Dispute => seq![100u8, 105u8, 115u8, 112u8, 117u8, 116u8, 101u8],
            OperationType::Resolve => seq![114u8, 101u8, 115u8, 111u8, 108u8, 118u8, 101u8],
            OperationType::Chargeback => seq![
                99u8,
                104u8,
                97u8,
                114u8,
                103u8,
                101u8,
                98u8,
                97u8,
                99u8,
                107u8,
            ],
        }
    }

    /// The kind that a name spells once its ASCII letters are folded to
    /// lower case, if it spells one.
    pub open spec fn named(name: Seq<u8>) -> Option<OperationType> {
        if folded(name) == OperationType::Deposit.keyword() {
            Some(OperationType::Deposit)
        } else if folded(name) == OperationType::Withdrawal.keyword() {
            Some(OperationType::Withdrawal)
        } else if folded(name) == OperationType::Dispute.keyword() {
            Some(OperationType::Dispute)
        } else if folded(name) == OperationType::Resolve.keyword() {
            Some(OperationType::Resolve)
        } else if folded(name) == OperationType::Chargeback.keyword() {
            Some(OperationType::Chargeback)
        } else {
            None
        }
    }

    /// The kind's keyword as bytes.
    pub fn keyword_bytes(self) -> (r: Vec<u8>)
        ensures
            r@ == self.keyword(),
    {
        let r = match self {
            OperationType::Deposit => vec![100u8, 101u8, 112u8, 111u8, 115u8, 105u8, 116u8],
            OperationType::Withdrawal => vec![
                119u8,
                105u8,
                116u8,
                104u8,
                100u8,
                114u8,
                97u8,
                119u8,
                97u8,
                108u8,
            ],
            OperationType::Dispute => vec![100u8, 105u8, 115u8, 112u8, 117u8, 116u8, 101u8],
            OperationType::Resolve => vec![114u8, 101u8, 115u8, 111u8, 108u8, 118u8, 101u8],
            OperationType::Chargeback => vec![
                99u8,
                104u8,
                97u8,
                114u8,
                103u8,
                101u8,
                98u8,
                97u8,
                99u8,
                107u8,
            ],
        };
        proof {
            assert(r@ =~= self.keyword());
        }
        r
    }

    /// Whether the name spells this kind's keyword, letter case aside.
    pub fn spelled_by(self, name: &[u8]) -> (r: bool)
        ensures
            r == (folded(name@) == self.keyword()),
    {
        let word = self.keyword_bytes();
        if name.len() != word.len() {
            return false;
        }
        let mut i: usize = 0;
        while i < name.len()
            invariant
                i <= name.len(),
                name.len() == word.len(),
                word@ == self.keyword(),
                forall|j: int| 0 <= j < i ==> ascii_lower(name@[j]) == word@[j],
            decreases name.len() - i,
        {
            let b: u8 = name[i];
            let low: u8 = if b >= 65 && b <= 90 {
                b + 32
            } else {
                b
            };
            if low != word[i] {
                proof {
                    assert(folded(name@)[i as int] != word@[i as int]);
                }
                return false;
            }
            i = i + 1;
        }
        proof {
            assert(folded(name@) =~= word@);
        }
        true
    }

    /// Reads the kind of an operation from its name, whatever the case of
    /// its letters.
    pub fn from_name(name: &[u8]) -> (r: Option<OperationType>)
        ensures
            r == OperationType::named(name@),
    {
        if OperationType::Deposit.spelled_by(name) {
            Some(OperationType::Deposit)
        } else if OperationType::Withdrawal.spelled_by(name) {
            Some(OperationType::Withdrawal)
        } else if OperationType::Dispute.spelled_by(name) {
            Some(OperationType::Dispute)
        } else if OperationType::Resolve.spelled_by(name) {
            Some(OperationType::Resolve)
        } else if OperationType::Chargeback.spelled_by(name) {
            Some(OperationType::Chargeback)
        } else {
            None
        }
    }
}

/// One operation of the stream. `amount` is present for deposits and
/// withdrawals and absent for the other kinds.
#[derive(Debug, Clone, Copy)]
pub struct OperationRecord {
    pub kind: OperationType,
    pub client: u16,
    pub tx: u32,
    pub amount: Option<Amount>,
}

/// What the log remembers of a deposit or withdrawal.
#[derive(Debug, Clone, Copy)]
pub struct TransactionState {
    pub client: u16,
    pub amount: Amount,
    pub is_deposit: bool,
}

/// The balance of one client.
#[derive(Debug, Clone, Copy)]
pub struct ClientBalance {
    pub available: Amount,
    pub held: Amount,
    pub locked: bool,
}

/// An operation with its amount as a number.
pub struct Operation {
    pub kind: OperationType,
    pub client: u16,
    pub tx: u32,
    pub amount: Option<int>,
}

/// A log record with its amount as a number.
pub struct Record {
    pub client: u16,
    pub amount: int,
    pub is_deposit: bool,
}

/// An account with its balances as numbers.
pub struct Account {
    pub available: int,
    pub held: int,
    pub locked: bool,
}

impl Account {
    /// The account every client starts with.
    pub open spec fn fresh() -> Account {
        Account { available: 0, held: 0, locked: false }
    }

    /// Everything the client owns, frozen or not.
    pub open spec fn total(self) -> int {
        self.available + self.held
    }
}

impl View for OperationRecord {
    type V = Operation;

    open spec fn view(&self) -> Operation {
        Operation {
            kind: self.kind,
            client: self.client,
            tx: self.tx,
            amount: match self.amount {
                Some(a) => Some(a@),
                None => None,
            },
        }
    }
}

impl View for TransactionState {
    type V = Record;

    open spec fn view(&self) -> Record {
        Record { client: self.client, amount: self.amount@, is_deposit: self.is_deposit }
    }
}

impl View for ClientBalance {
    type V = Account;

    open spec fn view(&self) -> Account {
        Account { available: self.available@, held: self.held@, locked: self.locked }
    }
}

impl OperationRecord {
    /// The amount, where there is one, is a valid decimal.
    pub open spec fn wf(&self) -> bool {
        self.amount matches Some(a) ==> a.wf()
    }
}

impl TransactionState {
    pub open spec fn wf(&self) -> bool {
        self.amount.wf()
    }
}

impl ClientBalance {
    pub open spec fn wf(&self) -> bool {
        self.available.wf() && self.held.wf()
    }

    /// An unlocked account with nothing in it.
    pub open spec fn spec_new() -> ClientBalance {
        ClientBalance { available: Amount::spec_zero(), held: Amount::spec_zero(), locked: false }
    }

    /// An unlocked account with nothing in it.
    pub fn new() -> (r: ClientBalance)
        ensures
            r == ClientBalance::spec_new(),
            r.wf(),
            r@ == Account::fresh(),
    {
        ClientBalance { available: Amount::zero(), held: Amount::zero(), locked: false }
    }

    /// Available and held funds together, or `None` where the sum cannot be
    /// written exactly.
    pub fn total(&self) -> (r: Option<Amount>)
        requires
            self.wf(),
        ensures
            r is Some <==> self.available.sum_fits(&self.held),
            r matches Some(t) ==> t.wf() && t@ == self@.total(),
    {
        self.available.checked_add(&self.held)
    }
}

} // verus!
