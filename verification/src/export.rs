//! The block exporter: renders transaction log ranges into the canonical
//! tagged-map form used by audit queries, with a fixed key vocabulary per
//! operation kind and absent optional fields omitted.
use vstd::prelude::*;
use crate::amount::Amount;
use crate::ledger::Ledger;
use crate::txlog::range_count;
use crate::types::{
    Account, AccountV, ApproveV, BurnV, MintV, Operation, OperationV, Transaction, TransactionV,
    TransferV,
};

verus! {

/// A self-describing export value.
pub enum Value {
    Blob(Vec<u8>),
    Text(String),
    Nat(Amount),
    Nat64(u64),
    Array(Vec<Value>),
    Dict(Vec<(String, Value)>),
}

/// Spec-level image of an export value.
#[verifier::ext_equal]
pub enum ValueV {
    Blob(Seq<u8>),
    Text(Seq<char>),
    Nat(nat),
    Nat64(u64),
    Array(Seq<ValueV>),
    Dict(Seq<(Seq<char>, ValueV)>),
}

/// Spec-level image of an export value.
pub open spec fn value_view(v: Value) -> ValueV
    decreases v,
{
    match v {
        Value::Blob(b) => ValueV::Blob(b@),
        Value::Text(s) => ValueV::Text(s@),
        Value::Nat(n) => ValueV::Nat(n@),
        Value::Nat64(x) => ValueV::Nat64(x),
        Value::Array(items) => {
            proof {
                vstd::std_specs::vec::axiom_vec_decreases_to_view(items);
            }
            ValueV::Array(values_view(items@))
        },
        Value::Dict(entries) => {
            proof {
                vstd::std_specs::vec::axiom_vec_decreases_to_view(entries);
            }
            ValueV::Dict(entries_view(entries@))
        },
    }
}

/// Spec-level image of a value list.
pub open spec fn values_view(s: Seq<Value>) -> Seq<ValueV>
    decreases s,
{
    if s.len() == 0 {
        Seq::empty()
    } else {
        values_view(s.drop_last()).push(value_view(s.last()))
    }
}

/// Spec-level image of a key/value entry list.
pub open spec fn entries_view(s: Seq<(String, Value)>) -> Seq<(Seq<char>, ValueV)>
    decreases s,
{
    if s.len() == 0 {
        Seq::empty()
    } else {
        entries_view(s.drop_last()).push((s.last().0@, value_view(s.last().1)))
    }
}

/// Appending an entry appends its image.
pub proof fn lemma_entries_push(s: Seq<(String, Value)>, p: (String, Value))
    ensures
        entries_view(s.push(p)) == entries_view(s).push((p.0@, value_view(p.1))),
{
    assert(s.push(p).drop_last() =~= s);
}

/// The canonical rendering of an account: an ordered pair of owner bytes
/// and, when present, sub-identifier bytes.
pub open spec fn account_value(a: AccountV) -> ValueV {
    match a.subaccount {
        Some(s) => ValueV::Array(seq![ValueV::Blob(a.owner), ValueV::Blob(s)]),
        None => ValueV::Array(seq![ValueV::Blob(a.owner)]),
    }
}

/// The entries of a rendered mint record.
pub open spec fn mint_entries(m: MintV, ts: u64) -> Seq<(Seq<char>, ValueV)> {
    let s = seq![("ts"@, ValueV::Nat64(ts))].push(("op"@, ValueV::Text("mint"@))).push(
        ("to"@, account_value(m.to)),
    ).push(("amt"@, ValueV::Nat(m.amount)));
    match m.memo {
        Some(b) => s.push(("memo"@, ValueV::Blob(b))),
        None => s,
    }
}

/// The entries of a rendered burn record.
pub open spec fn burn_entries(b: BurnV, ts: u64) -> Seq<(Seq<char>, ValueV)> {
    let s = seq![("ts"@, ValueV::Nat64(ts))].push(("op"@, ValueV::Text("burn"@))).push(
        ("from"@, account_value(b.from)),
    ).push(("amt"@, ValueV::Nat(b.amount)));
    let s = match b.spender {
        Some(sp) => s.push(("spender"@, account_value(sp))),
        None => s,
    };
    match b.memo {
        Some(m) => s.push(("memo"@, ValueV::Blob(m))),
        None => s,
    }
}

/// The entries of a rendered transfer record.
pub open spec fn transfer_entries(t: TransferV, ts: u64) -> Seq<(Seq<char>, ValueV)> {
    let s = seq![("ts"@, ValueV::Nat64(ts))].push(("op"@, ValueV::Text("xfer"@))).push(
        ("from"@, account_value(t.from)),
    ).push(("to"@, account_value(t.to))).push(("amt"@, ValueV::Nat(t.amount)));
    let s = match t.spender {
        Some(sp) => s.push(("spender"@, account_value(sp))),
        None => s,
    };
    let s = match t.fee {
        Some(f) => s.push(("fee"@, ValueV::Nat(f))),
        None => s,
    };
    match t.memo {
        Some(m) => s.push(("memo"@, ValueV::Blob(m))),
        None => s,
    }
}

/// The entries of a rendered approve record.
pub open spec fn approve_entries(a: ApproveV, ts: u64) -> Seq<(Seq<char>, ValueV)> {
    let s = seq![("ts"@, ValueV::Nat64(ts))].push(("op"@, ValueV::Text("approve"@))).push(
        ("from"@, account_value(a.from)),
    ).push(("spender"@, account_value(a.spender))).push(("amt"@, ValueV::Nat(a.amount)));
    let s = match a.expected_allowance {
        Some(e) => s.push(("expected_allowance"@, ValueV::Nat(e))),
        None => s,
    };
    let s = match a.expires_at {
        Some(e) => s.push(("expires_at"@, ValueV::Nat64(e))),
        None => s,
    };
    let s = match a.fee {
        Some(f) => s.push(("fee"@, ValueV::Nat(f))),
        None => s,
    };
    match a.memo {
        Some(m) => s.push(("memo"@, ValueV::Blob(m))),
        None => s,
    }
}

/// The canonical rendering of a logged transaction: a tagged map whose
/// first entry is the apply-time timestamp.
pub open spec fn tx_value(t: TransactionV) -> ValueV {
    ValueV::Dict(
        match t.op {
            OperationV::Mint(m) => mint_entries(m, t.timestamp),
            OperationV::Burn(b) => burn_entries(b, t.timestamp),
            OperationV::Transfer(tr) => transfer_entries(tr, t.timestamp),
            OperationV::Approve(a) => approve_entries(a, t.timestamp),
        },
    )
}

/// Renders an account as an ordered pair of owner bytes and optional
/// sub-identifier bytes.
pub fn account_to_value(account: &Account) -> (r: Value)
    ensures
        value_view(r) == account_value(account@),
{
    let mut arr: Vec<Value> = Vec::new();
    let owner = account.owner.clone();
    proof {
        assert(owner@ =~= account.owner@);
    }
    arr.push(Value::Blob(owner));
    match &account.subaccount {
        Some(sub) => {
            let sub_bytes = sub.clone();
            proof {
                assert(sub_bytes@ =~= sub@);
            }
            arr.push(Value::Blob(sub_bytes));
            let r = Value::Array(arr);
            proof {
                reveal_with_fuel(values_view, 3);
                reveal_with_fuel(value_view, 2);
                assert(value_view(Value::Blob(owner)) == ValueV::Blob(owner@));
                assert(value_view(Value::Blob(sub_bytes)) == ValueV::Blob(sub_bytes@));
                assert(arr@.drop_last() =~= seq![Value::Blob(owner)]);
                assert(arr@.drop_last().drop_last() =~= Seq::<Value>::empty());
                assert(values_view(Seq::<Value>::empty()) =~= Seq::<ValueV>::empty());
                assert(values_view(arr@) =~= seq![
                    ValueV::Blob(account@.owner),
                    ValueV::Blob(sub@),
                ]);
            }
            r
        },
        None => {
            let r = Value::Array(arr);
            proof {
                reveal_with_fuel(values_view, 2);
                reveal_with_fuel(value_view, 2);
                assert(value_view(Value::Blob(owner)) == ValueV::Blob(owner@));
                assert(arr@.drop_last() =~= Seq::<Value>::empty());
                assert(values_view(Seq::<Value>::empty()) =~= Seq::<ValueV>::empty());
                assert(values_view(arr@) =~= seq![ValueV::Blob(account@.owner)]);
            }
            r
        },
    }
}

/// Appends one key/value entry to a rendering under construction.
fn push_entry(map: &mut Vec<(String, Value)>, key: &str, value: Value)
    ensures
        entries_view(final(map)@) == entries_view(old(map)@).push((key@, value_view(value))),
{
    let k = key.to_owned();
    map.push((k, value));
    proof {
        lemma_entries_push(old(map)@, (k, value));
    }
}

/// Renders a logged transaction into its canonical tagged-map form: the
/// apply-time timestamp, an operation tag, the participant accounts and
/// amount, and the optional fields that are present — absent optional
/// fields are omitted, never emitted as placeholders.
pub fn transaction_to_value(tx: &Transaction) -> (r: Value)
    ensures
        value_view(r) == tx_value(tx@),
{
    let mut map: Vec<(String, Value)> = Vec::new();
    push_entry(&mut map, "ts", Value::Nat64(tx.timestamp));
    match &tx.op {
        Operation::Mint(m) => {
            push_entry(&mut map, "op", Value::Text("mint".to_owned()));
            push_entry(&mut map, "to", account_to_value(&m.to));
            push_entry(&mut map, "amt", Value::Nat(m.amount.clone()));
            if let Some(memo) = &m.memo {
                let memo_bytes = memo.clone();
                proof {
                    assert(memo_bytes@ =~= memo@);
                }
                push_entry(&mut map, "memo", Value::Blob(memo_bytes));
            }
            let r = Value::Dict(map);
            proof {
                assert(entries_view(map@) =~= mint_entries(m@, tx.timestamp));
            }
            r
        },
        Operation::Burn(b) => {
            push_entry(&mut map, "op", Value::Text("burn".to_owned()));
            push_entry(&mut map, "from", account_to_value(&b.from));
            push_entry(&mut map, "amt", Value::Nat(b.amount.clone()));
            if let Some(spender) = &b.spender {
                push_entry(&mut map, "spender", account_to_value(spender));
            }
            if let Some(memo) = &b.memo {
                let memo_bytes = memo.clone();
                proof {
                    assert(memo_bytes@ =~= memo@);
                }
                push_entry(&mut map, "memo", Value::Blob(memo_bytes));
            }
            let r = Value::Dict(map);
            proof {
                assert(entries_view(map@) =~= burn_entries(b@, tx.timestamp));
            }
            r
        },
        Operation::Transfer(t) => {
            push_entry(&mut map, "op", Value::Text("xfer".to_owned()));
            push_entry(&mut map, "from", account_to_value(&t.from));
            push_entry(&mut map, "to", account_to_value(&t.to));
            push_entry(&mut map, "amt", Value::Nat(t.amount.clone()));
            if let Some(spender) = &t.spender {
                push_entry(&mut map, "spender", account_to_value(spender));
            }
            if let Some(fee) = &t.fee {
                push_entry(&mut map, "fee", Value::Nat(fee.clone()));
            }
            if let Some(memo) = &t.memo {
                let memo_bytes = memo.clone();
                proof {
                    assert(memo_bytes@ =~= memo@);
                }
                push_entry(&mut map, "memo", Value::Blob(memo_bytes));
            }
            let r = Value::Dict(map);
            proof {
                assert(entries_view(map@) =~= transfer_entries(t@, tx.timestamp));
            }
            r
        },
        Operation::Approve(a) => {
            push_entry(&mut map, "op", Value::Text("approve".to_owned()));
            push_entry(&mut map, "from", account_to_value(&a.from));
            push_entry(&mut map, "spender", account_to_value(&a.spender));
            push_entry(&mut map, "amt", Value::Nat(a.amount.clone()));
            if let Some(expected) = &a.expected_allowance {
                push_entry(&mut map, "expected_allowance", Value::Nat(expected.clone()));
            }
            if let Some(expires_at) = a.expires_at {
                push_entry(&mut map, "expires_at", Value::Nat64(expires_at));
            }
            if let Some(fee) = &a.fee {
                push_entry(&mut map, "fee", Value::Nat(fee.clone()));
            }
            if let Some(memo) = &a.memo {
                let memo_bytes = memo.clone();
                proof {
                    assert(memo_bytes@ =~= memo@);
                }
                push_entry(&mut map, "memo", Value::Blob(memo_bytes));
            }
            let r = Value::Dict(map);
            proof {
                assert(entries_view(map@) =~= approve_entries(a@, tx.timestamp));
            }
            r
        },
    }
}

/// Arguments of an audit-export query: a starting index and a record
/// count, both as arbitrary-precision quantities.
pub struct GetBlocksArgs {
    pub start: Amount,
    pub length: Amount,
}

/// One rendered log record together with its index.
pub struct BlockWithId {
    pub id: u64,
    pub block: Value,
}

/// A reference to records held by a secondary store. Archival paging is
/// unsupported: the ledger answers every query from the live log, and this
/// shape exists for forward compatibility only.
pub struct ArchivedBlocks {
    pub args: Vec<GetBlocksArgs>,
}

/// The result of an audit-export query.
pub struct GetBlocksResult {
    pub log_length: u64,
    pub blocks: Vec<BlockWithId>,
    pub archived_blocks: Vec<ArchivedBlocks>,
}

/// Full-export law: a query from position zero for the whole log length
/// returns exactly one record per appended operation; together with the
/// export contract, the records come in append order under indices
/// 0 .. log_length - 1.
pub proof fn lemma_full_export_count(log_length: nat)
    ensures
        range_count(0, log_length, log_length) == log_length,
{
}

impl Ledger {
    /// A fixed key/value listing of the token's configuration. Pure read.
    pub fn icrc1_metadata(&self) -> (r: Vec<(String, Value)>)
        ensures
            entries_view(r@) == seq![
                ("icrc1:name"@, ValueV::Text(self.token.name@)),
                ("icrc1:symbol"@, ValueV::Text(self.token.symbol@)),
                ("icrc1:decimals"@, ValueV::Nat(self.token.decimals as nat)),
                ("icrc1:fee"@, ValueV::Nat(self.token.fee@)),
            ],
    {
        let mut map: Vec<(String, Value)> = Vec::new();
        push_entry(&mut map, "icrc1:name", Value::Text(self.icrc1_name()));
        push_entry(&mut map, "icrc1:symbol", Value::Text(self.icrc1_symbol()));
        push_entry(
            &mut map,
            "icrc1:decimals",
            Value::Nat(Amount::from_u64(self.icrc1_decimals() as u64)),
        );
        push_entry(&mut map, "icrc1:fee", Value::Nat(self.icrc1_fee()));
        proof {
            assert(entries_view(map@) =~= seq![
                ("icrc1:name"@, ValueV::Text(self.token.name@)),
                ("icrc1:symbol"@, ValueV::Text(self.token.symbol@)),
                ("icrc1:decimals"@, ValueV::Nat(self.token.decimals as nat)),
                ("icrc1:fee"@, ValueV::Nat(self.token.fee@)),
            ]);
        }
        map
    }

    /// Renders the log records with indices in [start, min(start + length,
    /// log_length)), in ascending index order: an out-of-range start —
    /// however large — yields an empty listing, not an error, and a length
    /// reaching past the end yields the rest of the log. Read-only,
    /// answered from the live log in one atomic read; the archived-blocks
    /// listing is always empty.
    pub fn icrc3_get_blocks(&self, args: &GetBlocksArgs) -> (r: GetBlocksResult)
        ensures
            r.log_length == self.log@.len(),
            r.archived_blocks@.len() == 0,
            r.blocks@.len() == range_count(args.start@, args.length@, self.log@.len()),
            forall|i: int|
                0 <= i < r.blocks@.len() ==> {
                    &&& (#[trigger] r.blocks@[i]).id == args.start@ + i
                    &&& value_view(r.blocks@[i].block) == tx_value(self.log@[args.start@ + i])
                },
    {
        let log_length = self.log.length();
        let start = match args.start.to_u64() {
            Some(v) => v,
            None => {
                return GetBlocksResult {
                    log_length,
                    blocks: Vec::new(),
                    archived_blocks: Vec::new(),
                };
            },
        };
        let length = match args.length.to_u64() {
            Some(v) => v,
            None => log_length,
        };
        proof {
            assert(range_count(start as nat, length as nat, self.log@.len()) == range_count(
                args.start@,
                args.length@,
                self.log@.len(),
            ));
        }
        let items = self.log.range(start, length);
        let mut blocks: Vec<BlockWithId> = Vec::new();
        let mut i: usize = 0;
        while i < items.len()
            invariant
                i <= items@.len(),
                items@.len() == range_count(start as nat, length as nat, self.log@.len()),
                forall|j: int|
                    0 <= j < items@.len() ==> {
                        &&& (#[trigger] items@[j]).0 == start + j
                        &&& items@[j].1@ == self.log@[start + j]
                    },
                blocks@.len() == i,
                forall|j: int|
                    0 <= j < blocks@.len() ==> {
                        &&& (#[trigger] blocks@[j]).id == start + j
                        &&& value_view(blocks@[j].block) == tx_value(self.log@[start + j])
                    },
            decreases items@.len() - i,
        {
            let (idx, tx) = items[i];
            let block = transaction_to_value(tx);
            blocks.push(BlockWithId { id: idx, block });
            i = i + 1;
        }
        GetBlocksResult { log_length: self.log.length(), blocks, archived_blocks: Vec::new() }
    }
}

} // verus!
