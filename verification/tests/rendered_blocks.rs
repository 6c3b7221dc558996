use icrc_ledger::amount::Amount;
use icrc_ledger::export::{transaction_to_value, Value};
use icrc_ledger::types::{Account, Approve, Burn, Mint, Transaction, Transfer};

fn entries(v: &Value) -> &Vec<(String, Value)> {
    match v {
        Value::Dict(entries) => entries,
        _ => panic!("a rendered transaction is a tagged map"),
    }
}

fn keys(v: &Value) -> Vec<String> {
    entries(v).iter().map(|(k, _)| k.clone()).collect()
}

fn lookup<'a>(v: &'a Value, key: &str) -> &'a Value {
    for (k, val) in entries(v).iter() {
        if k == key {
            return val;
        }
    }
    panic!("missing key");
}

fn acct(owner: &[u8]) -> Account {
    Account { owner: owner.to_vec(), subaccount: None }
}

#[test]
fn rendered_mint_has_fixed_vocabulary() {
    let tx = Transaction::mint(
        Mint {
            amount: Amount::from_u64(77),
            to: acct(&[1]),
            memo: None,
            created_at_time: None,
        },
        42,
    );
    let v = transaction_to_value(&tx);
    assert_eq!(keys(&v), vec!["ts", "op", "to", "amt"]);
    assert!(matches!(lookup(&v, "ts"), Value::Nat64(42)));
    assert!(matches!(lookup(&v, "op"), Value::Text(t) if t == "mint"));
    assert!(matches!(lookup(&v, "amt"), Value::Nat(n) if n.to_u64() == Some(77)));
}

#[test]
fn rendered_mint_includes_present_memo() {
    let tx = Transaction::mint(
        Mint {
            amount: Amount::from_u64(1),
            to: acct(&[1]),
            memo: Some(vec![7, 8]),
            created_at_time: None,
        },
        1,
    );
    let v = transaction_to_value(&tx);
    assert_eq!(keys(&v), vec!["ts", "op", "to", "amt", "memo"]);
    assert!(matches!(lookup(&v, "memo"), Value::Blob(b) if *b == vec![7, 8]));
}

#[test]
fn rendered_transfer_omits_absent_optional_fields() {
    let tx = Transaction::transfer(
        Transfer {
            amount: Amount::from_u64(5),
            from: acct(&[1]),
            to: acct(&[2]),
            spender: None,
            memo: None,
            fee: None,
            created_at_time: None,
        },
        9,
    );
    let v = transaction_to_value(&tx);
    assert_eq!(keys(&v), vec!["ts", "op", "from", "to", "amt"]);
    assert!(matches!(lookup(&v, "op"), Value::Text(t) if t == "xfer"));
}

#[test]
fn rendered_transfer_lists_spender_fee_and_memo() {
    let tx = Transaction::transfer(
        Transfer {
            amount: Amount::from_u64(5),
            from: acct(&[1]),
            to: acct(&[2]),
            spender: Some(acct(&[3])),
            memo: Some(vec![1]),
            fee: Some(Amount::from_u64(10)),
            created_at_time: Some(4),
        },
        9,
    );
    let v = transaction_to_value(&tx);
    assert_eq!(keys(&v), vec!["ts", "op", "from", "to", "amt", "spender", "fee", "memo"]);
    assert!(matches!(lookup(&v, "fee"), Value::Nat(n) if n.to_u64() == Some(10)));
}

#[test]
fn rendered_burn_and_approve_carry_their_fields() {
    let burn = Transaction::burn(
        Burn {
            amount: Amount::from_u64(3),
            from: acct(&[1]),
            spender: Some(acct(&[4])),
            memo: None,
            created_at_time: None,
        },
        11,
    );
    let v = transaction_to_value(&burn);
    assert_eq!(keys(&v), vec!["ts", "op", "from", "amt", "spender"]);
    assert!(matches!(lookup(&v, "op"), Value::Text(t) if t == "burn"));

    let approve = Transaction::approve(
        Approve {
            from: acct(&[1]),
            spender: acct(&[2]),
            amount: Amount::from_u64(50),
            expected_allowance: Some(Amount::from_u64(0)),
            expires_at: Some(99),
            memo: Some(vec![2]),
            fee: Some(Amount::from_u64(10)),
            created_at_time: None,
        },
        12,
    );
    let v = transaction_to_value(&approve);
    assert_eq!(
        keys(&v),
        vec!["ts", "op", "from", "spender", "amt", "expected_allowance", "expires_at", "fee",
            "memo"]
    );
    assert!(matches!(lookup(&v, "expires_at"), Value::Nat64(99)));
}

#[test]
fn rendered_account_is_owner_then_subaccount() {
    let tx = Transaction::mint(
        Mint {
            amount: Amount::from_u64(1),
            to: Account { owner: vec![1, 2], subaccount: Some(vec![3, 4]) },
            memo: None,
            created_at_time: None,
        },
        1,
    );
    let v = transaction_to_value(&tx);
    match lookup(&v, "to") {
        Value::Array(parts) => {
            assert_eq!(parts.len(), 2);
            assert!(matches!(&parts[0], Value::Blob(b) if *b == vec![1, 2]));
            assert!(matches!(&parts[1], Value::Blob(b) if *b == vec![3, 4]));
        }
        _ => panic!("a rendered account is an ordered pair"),
    }
}
