//! Core data types of the ledger: accounts, allowances, transaction
//! records, and the argument and error shapes of the public operations.
use vstd::prelude::*;
use crate::amount::Amount;

verus! {

/// An optional sub-identifier distinguishing balance holders under one owner.
pub type Subaccount = Vec<u8>;

/// Spec-level image of an account.
#[verifier::ext_equal]
pub struct AccountV {
    pub owner: Seq<u8>,
    pub subaccount: Option<Seq<u8>>,
}

/// A balance holder: an externally-authenticated owner identity (opaque
/// bytes) plus an optional sub-identifier.
#[derive(Debug)]
pub struct Account {
    pub owner: Vec<u8>,
    pub subaccount: Option<Subaccount>,
}

impl View for Account {
    type V = AccountV;

    open spec fn view(&self) -> AccountV {
        AccountV {
            owner: self.owner@,
            subaccount: match self.subaccount {
                Some(s) => Some(s@),
                None => None,
            },
        }
    }
}

/// Whether two byte vectors hold the same bytes.
pub fn bytes_eq(a: &Vec<u8>, b: &Vec<u8>) -> (r: bool)
    ensures
        r == (a@ == b@),
{
    let r = a == b;
    proof {
        if r {
            assert(a@ =~= b@);
        }
    }
    r
}

impl Account {
    /// Whether two accounts denote the same balance holder.
    pub fn eq_account(&self, other: &Account) -> (r: bool)
        ensures
            r == (self@ == other@),
    {
        if !bytes_eq(&self.owner, &other.owner) {
            return false;
        }
        match (&self.subaccount, &other.subaccount) {
            (None, None) => true,
            (Some(x), Some(y)) => bytes_eq(x, y),
            _ => false,
        }
    }
}

impl Clone for Account {
    /// Clones denote the same balance holder.
    fn clone(&self) -> (r: Self)
        ensures
            r@ == self@,
    {
        let owner = self.owner.clone();
        proof {
            assert(owner@ =~= self.owner@);
        }
        match &self.subaccount {
            None => Account { owner, subaccount: None },
            Some(s) => {
                let sub = s.clone();
                proof {
                    assert(sub@ =~= s@);
                }
                Account { owner, subaccount: Some(sub) }
            },
        }
    }
}

/// Spec-level image of an allowance.
#[verifier::ext_equal]
pub struct AllowanceV {
    pub allowance: nat,
    pub expires_at: Option<u64>,
}

/// A delegated-spend permission: a cap and an optional expiry instant.
#[derive(Debug)]
pub struct Allowance {
    pub allowance: Amount,
    pub expires_at: Option<u64>,
}

impl View for Allowance {
    type V = AllowanceV;

    open spec fn view(&self) -> AllowanceV {
        AllowanceV { allowance: self.allowance@, expires_at: self.expires_at }
    }
}

/// The allowance reported when no entry exists: zero, with no expiry.
pub open spec fn default_allowance() -> AllowanceV {
    AllowanceV { allowance: 0, expires_at: None }
}

impl Clone for Allowance {
    /// Clones denote the same allowance.
    fn clone(&self) -> (r: Self)
        ensures
            r@ == self@,
    {
        Allowance { allowance: self.allowance.clone(), expires_at: self.expires_at }
    }
}

/// An (owner, spender) key of the allowance table.
pub struct AccountPair(pub Account, pub Account);

impl View for AccountPair {
    type V = (AccountV, AccountV);

    open spec fn view(&self) -> (AccountV, AccountV) {
        (self.0@, self.1@)
    }
}

/// Spec-level image of an optional byte vector.
pub open spec fn opt_bytes_view(o: Option<Vec<u8>>) -> Option<Seq<u8>> {
    match o {
        Some(v) => Some(v@),
        None => None,
    }
}

/// Spec-level image of an optional amount.
pub open spec fn opt_amount_view(o: Option<Amount>) -> Option<nat> {
    match o {
        Some(v) => Some(v@),
        None => None,
    }
}

/// Spec-level image of an optional account.
pub open spec fn opt_account_view(o: Option<Account>) -> Option<AccountV> {
    match o {
        Some(v) => Some(v@),
        None => None,
    }
}

/// Spec-level image of a supply-creating record.
#[verifier::ext_equal]
pub struct MintV {
    pub amount: nat,
    pub to: AccountV,
    pub memo: Option<Seq<u8>>,
    pub created_at_time: Option<u64>,
}

/// A supply-creating record.
pub struct Mint {
    pub amount: Amount,
    pub to: Account,
    pub memo: Option<Vec<u8>>,
    pub created_at_time: Option<u64>,
}

impl View for Mint {
    type V = MintV;

    open spec fn view(&self) -> MintV {
        MintV {
            amount: self.amount@,
            to: self.to@,
            memo: opt_bytes_view(self.memo),
            created_at_time: self.created_at_time,
        }
    }
}

/// Spec-level image of a supply-destroying record.
#[verifier::ext_equal]
pub struct BurnV {
    pub amount: nat,
    pub from: AccountV,
    pub spender: Option<AccountV>,
    pub memo: Option<Seq<u8>>,
    pub created_at_time: Option<u64>,
}

/// A supply-destroying record.
pub struct Burn {
    pub amount: Amount,
    pub from: Account,
    pub spender: Option<Account>,
    pub memo: Option<Vec<u8>>,
    pub created_at_time: Option<u64>,
}

impl View for Burn {
    type V = BurnV;

    open spec fn view(&self) -> BurnV {
        BurnV {
            amount: self.amount@,
            from: self.from@,
            spender: opt_account_view(self.spender),
            memo: opt_bytes_view(self.memo),
            created_at_time: self.created_at_time,
        }
    }
}

/// Spec-level image of a balance-moving record.
#[verifier::ext_equal]
pub struct TransferV {
    pub amount: nat,
    pub from: AccountV,
    pub to: AccountV,
    pub spender: Option<AccountV>,
    pub memo: Option<Seq<u8>>,
    pub fee: Option<nat>,
    pub created_at_time: Option<u64>,
}

/// A balance-moving record, written both for direct and delegated transfers.
pub struct Transfer {
    pub amount: Amount,
    pub from: Account,
    pub to: Account,
    pub spender: Option<Account>,
    pub memo: Option<Vec<u8>>,
    pub fee: Option<Amount>,
    pub created_at_time: Option<u64>,
}

impl View for Transfer {
    type V = TransferV;

    open spec fn view(&self) -> TransferV {
        TransferV {
            amount: self.amount@,
            from: self.from@,
            to: self.to@,
            spender: opt_account_view(self.spender),
            memo: opt_bytes_view(self.memo),
            fee: opt_amount_view(self.fee),
            created_at_time: self.created_at_time,
        }
    }
}

/// Spec-level image of an allowance-setting record.
#[verifier::ext_equal]
pub struct ApproveV {
    pub from: AccountV,
    pub spender: AccountV,
    pub amount: nat,
    pub expected_allowance: Option<nat>,
    pub expires_at: Option<u64>,
    pub memo: Option<Seq<u8>>,
    pub fee: Option<nat>,
    pub created_at_time: Option<u64>,
}

/// An allowance-setting record.
pub struct Approve {
    pub from: Account,
    pub spender: Account,
    pub amount: Amount,
    pub expected_allowance: Option<Amount>,
    pub expires_at: Option<u64>,
    pub memo: Option<Vec<u8>>,
    pub fee: Option<Amount>,
    pub created_at_time: Option<u64>,
}

impl View for Approve {
    type V = ApproveV;

    open spec fn view(&self) -> ApproveV {
        ApproveV {
            from: self.from@,
            spender: self.spender@,
            amount: self.amount@,
            expected_allowance: opt_amount_view(self.expected_allowance),
            expires_at: self.expires_at,
            memo: opt_bytes_view(self.memo),
            fee: opt_amount_view(self.fee),
            created_at_time: self.created_at_time,
        }
    }
}

/// Spec-level image of one operation kind.
#[verifier::ext_equal]
pub enum OperationV {
    Mint(MintV),
    Burn(BurnV),
    Transfer(TransferV),
    Approve(ApproveV),
}

/// One operation kind, carrying only that kind's fields.
pub enum Operation {
    Mint(Mint),
    Burn(Burn),
    Transfer(Transfer),
    Approve(Approve),
}

impl View for Operation {
    type V = OperationV;

    open spec fn view(&self) -> OperationV {
        match self {
            Operation::Mint(m) => OperationV::Mint(m@),
            Operation::Burn(b) => OperationV::Burn(b@),
            Operation::Transfer(t) => OperationV::Transfer(t@),
            Operation::Approve(a) => OperationV::Approve(a@),
        }
    }
}

/// Spec-level image of a logged transaction.
#[verifier::ext_equal]
pub struct TransactionV {
    pub op: OperationV,
    pub timestamp: u64,
}

/// One immutable, indexed entry of the transaction log. The timestamp is
/// assigned by the engine at apply time, on every record kind.
pub struct Transaction {
    pub op: Operation,
    pub timestamp: u64,
}

impl View for Transaction {
    type V = TransactionV;

    open spec fn view(&self) -> TransactionV {
        TransactionV { op: self.op@, timestamp: self.timestamp }
    }
}

impl Transaction {
    /// Wraps a supply-destroying record with its apply-time timestamp.
    pub fn burn(burn: Burn, timestamp: u64) -> (r: Self)
        ensures
            r == (Transaction { op: Operation::Burn(burn), timestamp }),
    {
        Transaction { op: Operation::Burn(burn), timestamp }
    }

    /// Wraps a supply-creating record with its apply-time timestamp.
    pub fn mint(mint: Mint, timestamp: u64) -> (r: Self)
        ensures
            r == (Transaction { op: Operation::Mint(mint), timestamp }),
    {
        Transaction { op: Operation::Mint(mint), timestamp }
    }

    /// Wraps a balance-moving record with its apply-time timestamp.
    pub fn transfer(transfer: Transfer, timestamp: u64) -> (r: Self)
        ensures
            r == (Transaction { op: Operation::Transfer(transfer), timestamp }),
    {
        Transaction { op: Operation::Transfer(transfer), timestamp }
    }

    /// Wraps an allowance-setting record with its apply-time timestamp.
    pub fn approve(approve: Approve, timestamp: u64) -> (r: Self)
        ensures
            r == (Transaction { op: Operation::Approve(approve), timestamp }),
    {
        Transaction { op: Operation::Approve(approve), timestamp }
    }
}

/// Arguments of a direct transfer by the caller.
pub struct TransferArgs {
    pub from_subaccount: Option<Vec<u8>>,
    pub to: Account,
    pub amount: Amount,
    pub fee: Option<Amount>,
    pub memo: Option<Vec<u8>>,
    pub created_at_time: Option<u64>,
}

/// Rejections of a direct transfer, returned to the caller.
#[derive(Debug)]
pub enum TransferError {
    BadFee { expected_fee: Amount },
    BadBurn { min_burn_amount: Amount },
    InsufficientFunds { balance: Amount },
    TooOld,
    CreatedInFuture { ledger_time: u64 },
    Duplicate { duplicate_of: u64 },
    TemporarilyUnavailable,
    GenericError { error_code: Amount, message: String },
}

/// A direct transfer yields the index of its log record, or a rejection.
pub type TransferResult = Result<u64, TransferError>;

/// Arguments of an allowance grant.
pub struct ApproveArgs {
    pub from_subaccount: Option<Vec<u8>>,
    pub spender: Account,
    pub amount: Amount,
    pub expected_allowance: Option<Amount>,
    pub expires_at: Option<u64>,
    pub fee: Option<Amount>,
    pub memo: Option<Vec<u8>>,
    pub created_at_time: Option<u64>,
}

/// Rejections of an allowance grant, returned to the caller.
#[derive(Debug)]
pub enum ApproveError {
    BadFee { expected_fee: Amount },
    InsufficientFunds { balance: Amount },
    AllowanceChanged { current_allowance: Amount },
    Expired { ledger_time: u64 },
    TooOld,
    CreatedInFuture { ledger_time: u64 },
    Duplicate { duplicate_of: u64 },
    TemporarilyUnavailable,
    GenericError { error_code: Amount, message: String },
}

/// An allowance grant yields the index of its log record, or a rejection.
pub type ApproveResult = Result<u64, ApproveError>;

/// Arguments of an allowance query.
pub struct AllowanceArgs {
    pub account: Account,
    pub spender: Account,
}

/// Arguments of a delegated transfer by an approved spender.
pub struct TransferFromArgs {
    pub spender_subaccount: Option<Vec<u8>>,
    pub from: Account,
    pub to: Account,
    pub amount: Amount,
    pub fee: Option<Amount>,
    pub memo: Option<Vec<u8>>,
    pub created_at_time: Option<u64>,
}

/// Rejections of a delegated transfer, returned to the caller.
#[derive(Debug)]
pub enum TransferFromError {
    BadFee { expected_fee: Amount },
    BadBurn { min_burn_amount: Amount },
    InsufficientFunds { balance: Amount },
    InsufficientAllowance { allowance: Amount },
    TooOld,
    CreatedInFuture { ledger_time: u64 },
    Duplicate { duplicate_of: u64 },
    TemporarilyUnavailable,
    GenericError { error_code: Amount, message: String },
}

/// A delegated transfer yields the index of its log record, or a rejection.
pub type TransferFromResult = Result<u64, TransferFromError>;

/// A log position, densely assigned from zero.
pub struct StableBlockIndex(pub u64);

impl StableBlockIndex {
    /// Wraps a log position.
    pub fn new(value: u64) -> (r: Self)
        ensures
            r.0 == value,
    {
        Self(value)
    }

    /// The position as an arbitrary-precision quantity.
    pub fn to_nat(&self) -> (r: Amount)
        ensures
            r@ == self.0,
    {
        Amount::from_u64(self.0)
    }

    /// The position denoted by a quantity; quantities past the machine
    /// range collapse to position zero.
    pub fn from_nat(value: &Amount) -> (r: Self)
        ensures
            r.0 == if value@ <= u64::MAX {
                value@
            } else {
                0
            },
    {
        match value.to_u64() {
            Some(v) => Self(v),
            None => Self(0),
        }
    }
}

} // verus!
