use icrc_ledger::amount::Amount;
use icrc_ledger::export::{GetBlocksArgs, Value};
use icrc_ledger::ledger::Ledger;
use icrc_ledger::types::{
    Account, AllowanceArgs, ApproveArgs, Mint, Operation, Transaction, Transfer, TransferArgs,
};

fn new_ledger() -> Ledger {
    Ledger::new(
        "ICRC-3 Token".to_string(),
        "ICRC3".to_string(),
        8,
        Amount::from_u64(10000),
        Some(Account { owner: vec![9, 9], subaccount: None }),
    )
}

#[test]
fn test_icrc1_name() {
    let ledger = new_ledger();
    let name = ledger.icrc1_name();
    assert_eq!(name, "ICRC-3 Token");
}

#[test]
fn test_icrc1_symbol() {
    let ledger = new_ledger();
    let symbol = ledger.icrc1_symbol();
    assert_eq!(symbol, "ICRC3");
}

#[test]
fn test_icrc1_decimals() {
    let ledger = new_ledger();
    let decimals: u8 = ledger.icrc1_decimals();
    assert_eq!(decimals, 8);
}

#[test]
fn test_icrc1_fee() {
    let ledger = new_ledger();
    let fee = ledger.icrc1_fee().to_u64().unwrap();
    assert_eq!(fee, 10000);
}

#[test]
fn test_icrc1_metadata() {
    let ledger = new_ledger();
    let metadata = ledger.icrc1_metadata();

    let name_entry = metadata.iter().find(|(key, _)| key == "icrc1:name");
    assert!(name_entry.is_some());

    let symbol_entry = metadata.iter().find(|(key, _)| key == "icrc1:symbol");
    assert!(symbol_entry.is_some());
}

#[test]
fn test_icrc1_total_supply() {
    let mut ledger = new_ledger();
    let initial_supply = ledger.icrc1_total_supply().to_u64().unwrap();
    assert_eq!(initial_supply, 0);

    let to = Account { owner: vec![1, 2, 3], subaccount: None };
    let minter: Vec<u8> = vec![9, 9];
    ledger.mint(&minter, to, Amount::from_u64(1000000), 1).unwrap();
    let supply_after_mint = ledger.icrc1_total_supply().to_u64().unwrap();
    assert_eq!(supply_after_mint, 1000000);
}

#[test]
fn test_icrc1_minting_account() {
    let ledger = new_ledger();
    let minting_account = ledger.icrc1_minting_account();

    assert!(minting_account.is_some());
    let account = minting_account.unwrap();
    assert_eq!(account.owner, vec![9, 9]);
    assert_eq!(account.subaccount, None);
}

#[test]
fn test_icrc1_balance_of() {
    let mut ledger = new_ledger();
    let account = Account { owner: vec![1, 2, 3], subaccount: None };

    let initial_balance = ledger.icrc1_balance_of(&account).to_u64().unwrap();
    assert_eq!(initial_balance, 0);

    let minter: Vec<u8> = vec![9, 9];
    ledger.mint(&minter, account.clone(), Amount::from_u64(500000), 1).unwrap();
    let balance_after_mint = ledger.icrc1_balance_of(&account).to_u64().unwrap();
    assert_eq!(balance_after_mint, 500000);
}

#[test]
fn test_icrc2_allowance() {
    let mut ledger = new_ledger();
    let owner = Account { owner: vec![1, 2, 3], subaccount: None };
    let spender = Account { owner: vec![4, 5, 6], subaccount: None };

    let args = AllowanceArgs { account: owner.clone(), spender: spender.clone() };
    let initial_allowance = ledger.icrc2_allowance(&args);
    assert_eq!(initial_allowance.allowance.to_u64(), Some(0));

    let minter: Vec<u8> = vec![9, 9];
    ledger.mint(&minter, owner.clone(), Amount::from_u64(100000), 1).unwrap();
    ledger
        .icrc2_approve(
            vec![1, 2, 3],
            ApproveArgs {
                from_subaccount: None,
                spender: spender.clone(),
                amount: Amount::from_u64(50000),
                expected_allowance: None,
                expires_at: None,
                fee: None,
                memo: None,
                created_at_time: None,
            },
            2,
        )
        .unwrap();

    let args = AllowanceArgs { account: owner, spender };
    let allowance_after_approval = ledger.icrc2_allowance(&args);
    assert_eq!(allowance_after_approval.allowance.to_u64(), Some(50000));
}

fn op_tag(block: &Value) -> String {
    match block {
        Value::Dict(entries) => {
            for (k, v) in entries.iter() {
                if k == "op" {
                    match v {
                        Value::Text(t) => return t.clone(),
                        _ => panic!("operation tag is not text"),
                    }
                }
            }
            panic!("no operation tag");
        }
        _ => panic!("block is not a tagged map"),
    }
}

fn ts_of(block: &Value) -> u64 {
    match block {
        Value::Dict(entries) => {
            for (k, v) in entries.iter() {
                if k == "ts" {
                    match v {
                        Value::Nat64(t) => return *t,
                        _ => panic!("timestamp is not a 64-bit value"),
                    }
                }
            }
            panic!("no timestamp");
        }
        _ => panic!("block is not a tagged map"),
    }
}

#[test]
fn test_icrc3_get_blocks() {
    let mut ledger = new_ledger();
    let account1 = Account { owner: vec![1, 2, 3], subaccount: None };
    let account2 = Account { owner: vec![4, 5, 6], subaccount: None };

    let minter: Vec<u8> = vec![9, 9];
    ledger.mint(&minter, account1.clone(), Amount::from_u64(1000000), 1000000).unwrap();
    ledger
        .icrc1_transfer(
            vec![1, 2, 3],
            TransferArgs {
                from_subaccount: None,
                to: account2.clone(),
                amount: Amount::from_u64(200000),
                fee: Some(Amount::from_u64(10000)),
                memo: None,
                created_at_time: None,
            },
            1000100,
        )
        .unwrap();

    let blocks_result = ledger.icrc3_get_blocks(&GetBlocksArgs {
        start: Amount::from_u64(0),
        length: Amount::from_u64(10),
    });

    assert_eq!(blocks_result.blocks.len(), 2);
    assert_eq!(blocks_result.log_length, 2);
    assert!(blocks_result.archived_blocks.is_empty());

    assert_eq!(blocks_result.blocks[0].id, 0);
    assert_eq!(blocks_result.blocks[1].id, 1);

    assert_eq!(op_tag(&blocks_result.blocks[0].block), "mint");
    assert_eq!(ts_of(&blocks_result.blocks[0].block), 1000000);

    assert_eq!(op_tag(&blocks_result.blocks[1].block), "xfer");
    assert_eq!(ts_of(&blocks_result.blocks[1].block), 1000100);

    let mint_tx = Transaction::mint(
        Mint {
            to: account1.clone(),
            amount: Amount::from_u64(1000000),
            memo: None,
            created_at_time: None,
        },
        1000000,
    );
    let transfer_tx = Transaction::transfer(
        Transfer {
            from: account1,
            to: account2,
            amount: Amount::from_u64(200000),
            spender: None,
            fee: Some(Amount::from_u64(10000)),
            memo: None,
            created_at_time: None,
        },
        1000100,
    );
    assert!(matches!(mint_tx.op, Operation::Mint(_)));
    assert!(matches!(transfer_tx.op, Operation::Transfer(_)));
}
