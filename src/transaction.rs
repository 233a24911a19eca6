//! The five kinds of transaction that drive the ledger, and how one is read
//! from a row of the input.

use crate::amount::{Amount, amount_of_text, parse_unsigned, unsigned_value, unsigned_within};
use csv::StringRecord;
use vstd::prelude::*;

verus! {

/// Identifies a user and that user's account.
pub type UserId = u16;

/// Identifies a transaction.
pub type TransactionId = u32;

/// One record of the input stream.
#[derive(Copy, Clone, Debug, PartialEq, Eq, Structural)]
pub enum Transaction {
    Deposit { user: UserId, tx: TransactionId, amount: Amount },
    Withdrawal { user: UserId, tx: TransactionId, amount: Amount },
    Dispute { user: UserId, tx: TransactionId },
    Resolve { user: UserId, tx: TransactionId },
    Chargeback { user: UserId, tx: TransactionId },
}

/// The word in a row's first field that names its kind.
#[derive(Copy, Clone, Debug, PartialEq, Eq, Structural)]
pub enum TransactionKind {
    Deposit,
    Withdrawal,
    Dispute,
    Resolve,
    Chargeback,
}

#[verifier::external_type_specification]
#[verifier::external_body]
pub struct ExStringRecord(csv::StringRecord);

/// The fields of a record, each as its UTF-8 bytes.
pub uninterp spec fn record_fields(r: StringRecord) -> Seq<Seq<u8>>;

/// What `str::trim` leaves of a field: the field without leading and
/// trailing white space.
pub uninterp spec fn trimmed(f: Seq<u8>) -> Seq<u8>;

/// Relies on `csv::StringRecord::trim`: each field becomes what `str::trim`
/// leaves of it, and the number of fields stays.
#[verifier::external_body]
fn trim_record(r: &mut StringRecord)
    ensures
        record_fields(*final(r)) == record_fields(*old(r)).map_values(|f: Seq<u8>| trimmed(f)),
{
    r.trim()
}

/// Relies on `csv::StringRecord::get`: the field at index `i`, `None` past the
/// last field.
#[verifier::external_body]
fn record_field(r: &StringRecord, i: usize) -> (f: Option<&[u8]>)
    ensures
        match f {
            Some(b) => i < record_fields(*r).len() && b@ == record_fields(*r)[i as int],
            None => i >= record_fields(*r).len(),
        },
{
    match r.get(i) {
        Some(s) => Some(s.as_bytes()),
        None => None,
    }
}

pub open spec fn kind_word(k: TransactionKind) -> Seq<u8> {
    match k {
        TransactionKind::Deposit => seq![100u8, 101, 112, 111, 115, 105, 116],
        TransactionKind::Withdrawal => seq![119u8, 105, 116, 104, 100, 114, 97, 119, 97, 108],
        TransactionKind::Dispute => seq![100u8, 105, 115, 112, 117, 116, 101],
        TransactionKind::Resolve => seq![114u8, 101, 115, 111, 108, 118, 101],
        TransactionKind::Chargeback => seq![99u8, 104, 97, 114, 103, 101, 98, 97, 99, 107],
    }
}

/// The kind that the word `f` names, if any.
pub open spec fn kind_of_word(f: Seq<u8>) -> Option<TransactionKind> {
    if f == kind_word(TransactionKind::Deposit) {
        Some(TransactionKind::Deposit)
    } else if f == kind_word(TransactionKind::Withdrawal) {
        Some(TransactionKind::Withdrawal)
    } else if f == kind_word(TransactionKind::Dispute) {
        Some(TransactionKind::Dispute)
    } else if f == kind_word(TransactionKind::Resolve) {
        Some(TransactionKind::Resolve)
    } else if f == kind_word(TransactionKind::Chargeback) {
        Some(TransactionKind::Chargeback)
    } else {
        None
    }
}

/// The transaction of kind `k` whose user, id and (for deposits and
/// withdrawals) amount stand in `fs[1]`, `fs[2]` and `fs[3]`; further fields
/// are ignored.
pub open spec fn transaction_of_kind(k: TransactionKind, fs: Seq<Seq<u8>>) -> Option<Transaction> {
    let with_amount = k == TransactionKind::Deposit || k == TransactionKind::Withdrawal;
    if fs.len() < (if with_amount { 4int } else { 3int })
        || !unsigned_within(fs[1], u16::MAX as nat)
        || !unsigned_within(fs[2], u32::MAX as nat)
        || (with_amount && amount_of_text(fs[3]) is Err) {
        None
    } else {
        let user = unsigned_value(fs[1]) as u16;
        let tx = unsigned_value(fs[2]) as u32;
        Some(
            match k {
                TransactionKind::Deposit => Transaction::Deposit { user, tx, amount: amount_of_text(fs[3])->Ok_0 },
                TransactionKind::Withdrawal => Transaction::Withdrawal { user, tx, amount: amount_of_text(fs[3])->Ok_0 },
                TransactionKind::Dispute => Transaction::Dispute { user, tx },
                TransactionKind::Resolve => Transaction::Resolve { user, tx },
                TransactionKind::Chargeback => Transaction::Chargeback { user, tx },
            },
        )
    }
}

pub open spec fn wrong_format_message(k: TransactionKind) -> &'static str {
    match k {
        TransactionKind::Deposit => "wrong format for deposit transaction",
        TransactionKind::Withdrawal => "wrong format for withdrawal transaction",
        TransactionKind::Dispute => "wrong format for dispute transaction",
        TransactionKind::Resolve => "wrong format for resolve transaction",
        TransactionKind::Chargeback => "wrong format for chargeback transaction",
    }
}

/// The transaction that the fields `fs` of a row describe.
pub open spec fn transaction_of_fields(fs: Seq<Seq<u8>>) -> Result<Transaction, &'static str> {
    if fs.len() == 0 || kind_of_word(fs[0]) is None {
        Err("unknown transaction type")
    } else {
        let k = kind_of_word(fs[0])->Some_0;
        match transaction_of_kind(k, fs) {
            Some(t) => Ok(t),
            None => Err(wrong_format_message(k)),
        }
    }
}

fn same_bytes(a: &[u8], b: &[u8]) -> (r: bool)
    ensures
        r == (a@ == b@),
{
    if a.len() != b.len() {
        return false;
    }
    let mut i: usize = 0;
    while i < a.len()
        invariant
            i <= a@.len() == b@.len(),
            forall|j: int| 0 <= j < i ==> a@[j] == b@[j],
        decreases a.len() - i,
    {
        if a[i] != b[i] {
            return false;
        }
        i = i + 1;
    }
    assert(a@ =~= b@);
    true
}

fn read_kind(f: &[u8]) -> (r: Option<TransactionKind>)
    ensures
        r == kind_of_word(f@),
{
    let deposit: Vec<u8> = vec![100u8, 101, 112, 111, 115, 105, 116];
    let withdrawal: Vec<u8> = vec![119u8, 105, 116, 104, 100, 114, 97, 119, 97, 108];
    let dispute: Vec<u8> = vec![100u8, 105, 115, 112, 117, 116, 101];
    let resolve: Vec<u8> = vec![114u8, 101, 115, 111, 108, 118, 101];
    let chargeback: Vec<u8> = vec![99u8, 104, 97, 114, 103, 101, 98, 97, 99, 107];
    assert(deposit@ =~= kind_word(TransactionKind::Deposit));
    assert(withdrawal@ =~= kind_word(TransactionKind::Withdrawal));
    assert(dispute@ =~= kind_word(TransactionKind::Dispute));
    assert(resolve@ =~= kind_word(TransactionKind::Resolve));
    assert(chargeback@ =~= kind_word(TransactionKind::Chargeback));
    if same_bytes(f, deposit.as_slice()) {
        Some(TransactionKind::Deposit)
    } else if same_bytes(f, withdrawal.as_slice()) {
        Some(TransactionKind::Withdrawal)
    } else if same_bytes(f, dispute.as_slice()) {
        Some(TransactionKind::Dispute)
    } else if same_bytes(f, resolve.as_slice()) {
        Some(TransactionKind::Resolve)
    } else if same_bytes(f, chargeback.as_slice()) {
        Some(TransactionKind::Chargeback)
    } else {
        None
    }
}

/// The user and the transaction id in fields 1 and 2 of `row`.
fn read_ids(row: &StringRecord) -> (r: Option<(UserId, TransactionId)>)
    ensures
        ({
            let fs = record_fields(*row);
            r is Some <==> (fs.len() >= 3 && unsigned_within(fs[1], u16::MAX as nat)
                && unsigned_within(fs[2], u32::MAX as nat))
        }),
        r is Some ==> r->Some_0 == (
            unsigned_value(record_fields(*row)[1]) as u16,
            unsigned_value(record_fields(*row)[2]) as u32,
        ),
{
    let uf = match record_field(row, 1) {
        Some(b) => b,
        None => return None,
    };
    let tf = match record_field(row, 2) {
        Some(b) => b,
        None => return None,
    };
    let user = match parse_unsigned(uf, 0, uf.len(), 0xffff) {
        Some(u) => u as u16,
        None => {
            assert(uf@.subrange(0, uf@.len() as int) =~= uf@);
            return None;
        },
    };
    let tx = match parse_unsigned(tf, 0, tf.len(), 0xffff_ffff) {
        Some(t) => t as u32,
        None => {
            assert(tf@.subrange(0, tf@.len() as int) =~= tf@);
            return None;
        },
    };
    assert(uf@.subrange(0, uf@.len() as int) =~= uf@);
    assert(tf@.subrange(0, tf@.len() as int) =~= tf@);
    Some((user, tx))
}

/// The amount in field 3 of `row`.
fn read_amount(row: &StringRecord) -> (r: Option<Amount>)
    ensures
        ({
            let fs = record_fields(*row);
            r is Some <==> (fs.len() >= 4 && amount_of_text(fs[3]) is Ok)
        }),
        r is Some ==> r->Some_0 == amount_of_text(record_fields(*row)[3])->Ok_0,
{
    let af = match record_field(row, 3) {
        Some(b) => b,
        None => return None,
    };
    match Amount::parse_bytes(af) {
        Ok(a) => Some(a),
        Err(_) => None,
    }
}

impl Transaction {
    fn try_create_deposit_transaction(row: &StringRecord) -> (r: Option<Self>)
        requires
            record_fields(*row).len() >= 1,
        ensures
            r == transaction_of_kind(TransactionKind::Deposit, record_fields(*row)),
    {
        let (user, tx) = read_ids(row)?;
        let amount = read_amount(row)?;
        Some(Transaction::Deposit { user, tx, amount })
    }

    fn try_create_withdrawal_transaction(row: &StringRecord) -> (r: Option<Self>)
        requires
            record_fields(*row).len() >= 1,
        ensures
            r == transaction_of_kind(TransactionKind::Withdrawal, record_fields(*row)),
    {
        let (user, tx) = read_ids(row)?;
        let amount = read_amount(row)?;
        Some(Transaction::Withdrawal { user, tx, amount })
    }

    fn try_create_dispute_transaction(row: &StringRecord) -> (r: Option<Self>)
        requires
            record_fields(*row).len() >= 1,
        ensures
            r == transaction_of_kind(TransactionKind::Dispute, record_fields(*row)),
    {
        let (user, tx) = read_ids(row)?;
        Some(Transaction::Dispute { user, tx })
    }

    fn try_create_resolve_transaction(row: &StringRecord) -> (r: Option<Self>)
        requires
            record_fields(*row).len() >= 1,
        ensures
            r == transaction_of_kind(TransactionKind::Resolve, record_fields(*row)),
    {
        let (user, tx) = read_ids(row)?;
        Some(Transaction::Resolve { user, tx })
    }

    fn try_create_chargeback_transaction(row: &StringRecord) -> (r: Option<Self>)
        requires
            record_fields(*row).len() >= 1,
        ensures
            r == transaction_of_kind(TransactionKind::Chargeback, record_fields(*row)),
    {
        let (user, tx) = read_ids(row)?;
        Some(Transaction::Chargeback { user, tx })
    }

    /// Reads a transaction from a row whose fields are already trimmed: the
    /// kind's word, the user, the transaction id and, for deposits and
    /// withdrawals, the amount.
    pub fn from_trimmed_record(row: &StringRecord) -> (r: Result<Transaction, &'static str>)
        ensures
            r == transaction_of_fields(record_fields(*row)),
    {
        let kind = match record_field(row, 0) {
            Some(f) => read_kind(f),
            None => return Err("unknown transaction type"),
        };
        match kind {
            Some(TransactionKind::Deposit) => match Self::try_create_deposit_transaction(row) {
                Some(t) => Ok(t),
                None => Err("wrong format for deposit transaction"),
            },
            Some(TransactionKind::Withdrawal) => match Self::try_create_withdrawal_transaction(row) {
                Some(t) => Ok(t),
                None => Err("wrong format for withdrawal transaction"),
            },
            Some(TransactionKind::Dispute) => match Self::try_create_dispute_transaction(row) {
                Some(t) => Ok(t),
                None => Err("wrong format for dispute transaction"),
            },
            Some(TransactionKind::Resolve) => match Self::try_create_resolve_transaction(row) {
                Some(t) => Ok(t),
                None => Err("wrong format for resolve transaction"),
            },
            Some(TransactionKind::Chargeback) => match Self::try_create_chargeback_transaction(row) {
                Some(t) => Ok(t),
                None => Err("wrong format for chargeback transaction"),
            },
            None => Err("unknown transaction type"),
        }
    }

    /// Reads a transaction from a row after trimming white space around
    /// each of its fields.
    pub fn from_record(row: StringRecord) -> (r: Result<Transaction, &'static str>)
        ensures
            r == transaction_of_fields(record_fields(row).map_values(|f: Seq<u8>| trimmed(f))),
    {
        let mut row = row;
        trim_record(&mut row);
        Self::from_trimmed_record(&row)
    }
}

impl TryFrom<StringRecord> for Transaction {
    type Error = &'static str;

    fn try_from(row: StringRecord) -> Result<Transaction, &'static str> {
        Transaction::from_record(row)
    }
}

impl vstd::std_specs::convert::TryFromSpecImpl<StringRecord> for Transaction {
    open spec fn obeys_try_from_spec() -> bool {
        true
    }

    open spec fn try_from_spec(row: StringRecord) -> Result<Transaction, &'static str> {
        transaction_of_fields(record_fields(row).map_values(|f: Seq<u8>| trimmed(f)))
    }
}

} // verus!
