use icrc_ledger::TX_WINDOW;
use icrc_ledger::amount::Amount;
use icrc_ledger::export::GetBlocksArgs;
use icrc_ledger::ledger::Ledger;
use icrc_ledger::types::{
    Account, AllowanceArgs, ApproveArgs, ApproveError, Mint, Transaction, Transfer, TransferArgs,
    TransferError, TransferFromArgs, TransferFromError,
};

const MINTER: [u8; 2] = [9, 9];

fn new_ledger() -> Ledger {
    Ledger::new(
        "ICRC-3 Token".to_string(),
        "ICRC3".to_string(),
        8,
        Amount::from_u64(10000),
        Some(Account { owner: MINTER.to_vec(), subaccount: None }),
    )
}

fn acct(owner: &[u8]) -> Account {
    Account { owner: owner.to_vec(), subaccount: None }
}

fn balance(ledger: &Ledger, a: &Account) -> u64 {
    ledger.icrc1_balance_of(a).to_u64().unwrap()
}

fn transfer_args(to: Account, amount: u64) -> TransferArgs {
    TransferArgs {
        from_subaccount: None,
        to,
        amount: Amount::from_u64(amount),
        fee: None,
        memo: None,
        created_at_time: None,
    }
}

#[test]
fn mint_credits_recipient_and_supply() {
    let mut ledger = new_ledger();
    let a = acct(&[1]);
    let idx = ledger.mint(&MINTER.to_vec(), a.clone(), Amount::from_u64(1000000), 7).unwrap();
    assert_eq!(idx, 0);
    assert_eq!(balance(&ledger, &a), 1000000);
    assert_eq!(ledger.icrc1_total_supply().to_u64(), Some(1000000));
}

#[test]
fn mint_rejects_other_callers() {
    let mut ledger = new_ledger();
    let a = acct(&[1]);
    let r = ledger.mint(&vec![7, 7], a.clone(), Amount::from_u64(5), 7);
    assert!(matches!(r, Err(TransferError::GenericError { .. })));
    assert_eq!(balance(&ledger, &a), 0);
    assert_eq!(ledger.icrc1_total_supply().to_u64(), Some(0));
}

#[test]
fn transfer_moves_amount_and_burns_fee() {
    let mut ledger = new_ledger();
    let a = acct(&[1]);
    let b = acct(&[2]);
    ledger.mint(&MINTER.to_vec(), a.clone(), Amount::from_u64(1000000), 1).unwrap();
    let mut args = transfer_args(b.clone(), 200000);
    args.fee = Some(Amount::from_u64(10000));
    let idx = ledger.icrc1_transfer(vec![1], args, 2).unwrap();
    assert_eq!(idx, 1);
    assert_eq!(balance(&ledger, &a), 790000);
    assert_eq!(balance(&ledger, &b), 200000);
    assert_eq!(ledger.icrc1_total_supply().to_u64(), Some(1000000));
}

#[test]
fn transfer_rejects_wrong_fee() {
    let mut ledger = new_ledger();
    let a = acct(&[1]);
    let b = acct(&[2]);
    ledger.mint(&MINTER.to_vec(), a.clone(), Amount::from_u64(1000000), 1).unwrap();
    let mut args = transfer_args(b.clone(), 200000);
    args.fee = Some(Amount::from_u64(5000));
    let r = ledger.icrc1_transfer(vec![1], args, 2);
    match r {
        Err(TransferError::BadFee { expected_fee }) => {
            assert_eq!(expected_fee.to_u64(), Some(10000));
        }
        _ => panic!("expected a fee rejection"),
    }
    assert_eq!(balance(&ledger, &a), 1000000);
    assert_eq!(balance(&ledger, &b), 0);
}

#[test]
fn transfer_rejects_insufficient_funds() {
    let mut ledger = new_ledger();
    let a = acct(&[1]);
    let b = acct(&[2]);
    ledger.mint(&MINTER.to_vec(), a.clone(), Amount::from_u64(15000), 1).unwrap();
    let r = ledger.icrc1_transfer(vec![1], transfer_args(b.clone(), 10000), 2);
    match r {
        Err(TransferError::InsufficientFunds { balance }) => {
            assert_eq!(balance.to_u64(), Some(15000));
        }
        _ => panic!("expected a funds rejection"),
    }
    assert_eq!(balance(&ledger, &a), 15000);
}

#[test]
fn approve_then_transfer_from_drains_allowance() {
    let mut ledger = new_ledger();
    let a = acct(&[1]);
    let spender = acct(&[2]);
    let c = acct(&[3]);
    ledger.mint(&MINTER.to_vec(), a.clone(), Amount::from_u64(100000), 1).unwrap();
    ledger
        .icrc2_approve(
            vec![1],
            ApproveArgs {
                from_subaccount: None,
                spender: spender.clone(),
                amount: Amount::from_u64(50000),
                expected_allowance: None,
                expires_at: None,
                fee: None,
                memo: None,
                created_at_time: None,
            },
            2,
        )
        .unwrap();
    let allowance = ledger.icrc2_allowance(&AllowanceArgs {
        account: a.clone(),
        spender: spender.clone(),
    });
    assert_eq!(allowance.allowance.to_u64(), Some(50000));
    assert_eq!(balance(&ledger, &a), 90000);

    ledger
        .icrc2_transfer_from(
            vec![2],
            TransferFromArgs {
                spender_subaccount: None,
                from: a.clone(),
                to: c.clone(),
                amount: Amount::from_u64(50000),
                fee: Some(Amount::from_u64(10000)),
                memo: None,
                created_at_time: None,
            },
            3,
        )
        .unwrap();
    assert_eq!(balance(&ledger, &a), 30000);
    assert_eq!(balance(&ledger, &c), 50000);

    let drained = ledger.icrc2_allowance(&AllowanceArgs { account: a, spender });
    assert_eq!(drained.allowance.to_u64(), Some(0));
    assert_eq!(drained.expires_at, None);
}

#[test]
fn approve_rejects_changed_allowance() {
    let mut ledger = new_ledger();
    let a = acct(&[1]);
    let spender = acct(&[2]);
    ledger.mint(&MINTER.to_vec(), a.clone(), Amount::from_u64(100000), 1).unwrap();
    ledger
        .icrc2_approve(
            vec![1],
            ApproveArgs {
                from_subaccount: None,
                spender: spender.clone(),
                amount: Amount::from_u64(50000),
                expected_allowance: None,
                expires_at: None,
                fee: None,
                memo: None,
                created_at_time: None,
            },
            2,
        )
        .unwrap();
    let r = ledger.icrc2_approve(
        vec![1],
        ApproveArgs {
            from_subaccount: None,
            spender: spender.clone(),
            amount: Amount::from_u64(70000),
            expected_allowance: Some(Amount::from_u64(10)),
            expires_at: None,
            fee: None,
            memo: None,
            created_at_time: None,
        },
        3,
    );
    match r {
        Err(ApproveError::AllowanceChanged { current_allowance }) => {
            assert_eq!(current_allowance.to_u64(), Some(50000));
        }
        _ => panic!("expected an optimistic-concurrency rejection"),
    }
    let live = ledger.icrc2_allowance(&AllowanceArgs { account: a, spender });
    assert_eq!(live.allowance.to_u64(), Some(50000));
}

#[test]
fn approve_of_zero_removes_the_entry() {
    let mut ledger = new_ledger();
    let a = acct(&[1]);
    let spender = acct(&[2]);
    ledger.mint(&MINTER.to_vec(), a.clone(), Amount::from_u64(100000), 1).unwrap();
    ledger
        .icrc2_approve(
            vec![1],
            ApproveArgs {
                from_subaccount: None,
                spender: spender.clone(),
                amount: Amount::from_u64(50000),
                expected_allowance: None,
                expires_at: Some(1000),
                fee: None,
                memo: None,
                created_at_time: None,
            },
            2,
        )
        .unwrap();
    ledger
        .icrc2_approve(
            vec![1],
            ApproveArgs {
                from_subaccount: None,
                spender: spender.clone(),
                amount: Amount::from_u64(0),
                expected_allowance: None,
                expires_at: Some(2000),
                fee: None,
                memo: None,
                created_at_time: None,
            },
            3,
        )
        .unwrap();
    let live = ledger.icrc2_allowance(&AllowanceArgs { account: a, spender });
    assert_eq!(live.allowance.to_u64(), Some(0));
    assert_eq!(live.expires_at, None);
}

#[test]
fn approve_rejects_past_expiry() {
    let mut ledger = new_ledger();
    let a = acct(&[1]);
    let spender = acct(&[2]);
    ledger.mint(&MINTER.to_vec(), a.clone(), Amount::from_u64(100000), 1).unwrap();
    let r = ledger.icrc2_approve(
        vec![1],
        ApproveArgs {
            from_subaccount: None,
            spender,
            amount: Amount::from_u64(50000),
            expected_allowance: None,
            expires_at: Some(50),
            fee: None,
            memo: None,
            created_at_time: None,
        },
        100,
    );
    assert!(matches!(r, Err(ApproveError::Expired { ledger_time: 100 })));
}

#[test]
fn approve_rejects_insufficient_fee_funds() {
    let mut ledger = new_ledger();
    let a = acct(&[1]);
    let spender = acct(&[2]);
    ledger.mint(&MINTER.to_vec(), a.clone(), Amount::from_u64(9999), 1).unwrap();
    let r = ledger.icrc2_approve(
        vec![1],
        ApproveArgs {
            from_subaccount: None,
            spender,
            amount: Amount::from_u64(1),
            expected_allowance: None,
            expires_at: None,
            fee: None,
            memo: None,
            created_at_time: None,
        },
        2,
    );
    match r {
        Err(ApproveError::InsufficientFunds { balance }) => {
            assert_eq!(balance.to_u64(), Some(9999));
        }
        _ => panic!("expected a funds rejection"),
    }
}

#[test]
fn transfer_from_rejects_insufficient_allowance() {
    let mut ledger = new_ledger();
    let a = acct(&[1]);
    let spender = acct(&[2]);
    let c = acct(&[3]);
    ledger.mint(&MINTER.to_vec(), a.clone(), Amount::from_u64(100000), 1).unwrap();
    ledger
        .icrc2_approve(
            vec![1],
            ApproveArgs {
                from_subaccount: None,
                spender: spender.clone(),
                amount: Amount::from_u64(5000),
                expected_allowance: None,
                expires_at: None,
                fee: None,
                memo: None,
                created_at_time: None,
            },
            2,
        )
        .unwrap();
    let r = ledger.icrc2_transfer_from(
        vec![2],
        TransferFromArgs {
            spender_subaccount: None,
            from: a.clone(),
            to: c,
            amount: Amount::from_u64(6000),
            fee: None,
            memo: None,
            created_at_time: None,
        },
        3,
    );
    match r {
        Err(TransferFromError::InsufficientAllowance { allowance }) => {
            assert_eq!(allowance.to_u64(), Some(5000));
        }
        _ => panic!("expected an allowance rejection"),
    }
}

#[test]
fn transfer_from_treats_expired_allowance_as_zero() {
    let mut ledger = new_ledger();
    let a = acct(&[1]);
    let spender = acct(&[2]);
    let c = acct(&[3]);
    ledger.mint(&MINTER.to_vec(), a.clone(), Amount::from_u64(100000), 1).unwrap();
    ledger
        .icrc2_approve(
            vec![1],
            ApproveArgs {
                from_subaccount: None,
                spender: spender.clone(),
                amount: Amount::from_u64(50000),
                expected_allowance: None,
                expires_at: Some(10),
                fee: None,
                memo: None,
                created_at_time: None,
            },
            2,
        )
        .unwrap();
    let r = ledger.icrc2_transfer_from(
        vec![2],
        TransferFromArgs {
            spender_subaccount: None,
            from: a,
            to: c,
            amount: Amount::from_u64(1000),
            fee: None,
            memo: None,
            created_at_time: None,
        },
        20,
    );
    match r {
        Err(TransferFromError::InsufficientAllowance { allowance }) => {
            assert_eq!(allowance.to_u64(), Some(0));
        }
        _ => panic!("expected an allowance rejection"),
    }
}

#[test]
fn freshness_window_boundaries() {
    let now: u64 = TX_WINDOW + 1000;
    let a = acct(&[1]);
    let b = acct(&[2]);

    let mut accepted_now = new_ledger();
    accepted_now.mint(&MINTER.to_vec(), a.clone(), Amount::from_u64(1000000), 1).unwrap();
    let mut args = transfer_args(b.clone(), 1000);
    args.created_at_time = Some(now);
    assert!(accepted_now.icrc1_transfer(vec![1], args, now).is_ok());

    let mut accepted_oldest = new_ledger();
    accepted_oldest.mint(&MINTER.to_vec(), a.clone(), Amount::from_u64(1000000), 1).unwrap();
    let mut args = transfer_args(b.clone(), 1000);
    args.created_at_time = Some(now - TX_WINDOW);
    assert!(accepted_oldest.icrc1_transfer(vec![1], args, now).is_ok());

    let mut too_old = new_ledger();
    too_old.mint(&MINTER.to_vec(), a.clone(), Amount::from_u64(1000000), 1).unwrap();
    let mut args = transfer_args(b.clone(), 1000);
    args.created_at_time = Some(now - TX_WINDOW - 1);
    assert!(matches!(too_old.icrc1_transfer(vec![1], args, now), Err(TransferError::TooOld)));

    let mut in_future = new_ledger();
    in_future.mint(&MINTER.to_vec(), a.clone(), Amount::from_u64(1000000), 1).unwrap();
    let mut args = transfer_args(b, 1000);
    args.created_at_time = Some(now + 1);
    assert!(matches!(
        in_future.icrc1_transfer(vec![1], args, now),
        Err(TransferError::CreatedInFuture { ledger_time }) if ledger_time == now
    ));
}

#[test]
fn burn_requires_owner_and_funds() {
    let mut ledger = new_ledger();
    let a = acct(&[1]);
    ledger.mint(&MINTER.to_vec(), a.clone(), Amount::from_u64(100000), 1).unwrap();

    let r = ledger.burn(&vec![2], a.clone(), Amount::from_u64(1000), 2);
    assert!(matches!(r, Err(TransferError::GenericError { .. })));

    let r = ledger.burn(&vec![1], a.clone(), Amount::from_u64(200000), 2);
    match r {
        Err(TransferError::InsufficientFunds { balance }) => {
            assert_eq!(balance.to_u64(), Some(100000));
        }
        _ => panic!("expected a funds rejection"),
    }

    ledger.burn(&vec![1], a.clone(), Amount::from_u64(40000), 2).unwrap();
    assert_eq!(balance(&ledger, &a), 60000);
    assert_eq!(ledger.icrc1_total_supply().to_u64(), Some(60000));
}

#[test]
fn update_minting_account_requires_current_owner() {
    let mut ledger = new_ledger();
    let other = acct(&[5]);
    let r = ledger.update_minting_account(&vec![1], other.clone());
    assert!(r.is_err());

    let r = ledger.update_minting_account(&MINTER.to_vec(), other.clone());
    assert!(r.is_ok());
    let current = ledger.icrc1_minting_account().unwrap();
    assert_eq!(current.owner, vec![5]);

    let r = ledger.mint(&vec![5], acct(&[1]), Amount::from_u64(10), 3);
    assert!(r.is_ok());
}

#[test]
fn full_export_lists_every_operation_in_order() {
    let mut ledger = new_ledger();
    let a = acct(&[1]);
    let b = acct(&[2]);
    ledger.mint(&MINTER.to_vec(), a.clone(), Amount::from_u64(1000000), 1).unwrap();
    ledger.icrc1_transfer(vec![1], transfer_args(b.clone(), 1000), 2).unwrap();
    ledger.burn(&vec![1], a.clone(), Amount::from_u64(500), 3).unwrap();

    let result = ledger.icrc3_get_blocks(&GetBlocksArgs {
        start: Amount::from_u64(0),
        length: Amount::from_u64(3),
    });
    assert_eq!(result.log_length, 3);
    assert_eq!(result.blocks.len(), 3);
    for (i, block) in result.blocks.iter().enumerate() {
        assert_eq!(block.id, i as u64);
    }
}

#[test]
fn get_blocks_out_of_range_start_is_empty() {
    let mut ledger = new_ledger();
    let a = acct(&[1]);
    ledger.mint(&MINTER.to_vec(), a, Amount::from_u64(10), 1).unwrap();
    let result = ledger.icrc3_get_blocks(&GetBlocksArgs {
        start: Amount::from_u64(50),
        length: Amount::from_u64(5),
    });
    assert_eq!(result.log_length, 1);
    assert_eq!(result.blocks.len(), 0);
}

#[test]
fn get_blocks_huge_start_is_empty_and_huge_length_takes_the_rest() {
    let mut ledger = new_ledger();
    let a = acct(&[1]);
    ledger.mint(&MINTER.to_vec(), a.clone(), Amount::from_u64(10), 1).unwrap();
    ledger.burn(&vec![1], a, Amount::from_u64(3), 2).unwrap();

    let beyond_u64 = Amount::from_u64(u64::MAX).add(&Amount::from_u64(1));
    let result = ledger.icrc3_get_blocks(&GetBlocksArgs {
        start: beyond_u64.clone(),
        length: Amount::from_u64(5),
    });
    assert_eq!(result.log_length, 2);
    assert_eq!(result.blocks.len(), 0);

    let result = ledger.icrc3_get_blocks(&GetBlocksArgs {
        start: Amount::from_u64(1),
        length: beyond_u64,
    });
    assert_eq!(result.log_length, 2);
    assert_eq!(result.blocks.len(), 1);
    assert_eq!(result.blocks[0].id, 1);
}

#[test]
fn restore_accepts_a_consistent_state_and_rejects_a_tampered_one() {
    let mut ledger = new_ledger();
    let a = acct(&[1]);
    let b = acct(&[2]);
    ledger.mint(&MINTER.to_vec(), a.clone(), Amount::from_u64(1000000), 1).unwrap();
    ledger.icrc1_transfer(vec![1], transfer_args(b.clone(), 200000), 2).unwrap();

    let records = vec![
        Transaction::mint(
            Mint {
                amount: Amount::from_u64(1000000),
                to: a.clone(),
                memo: None,
                created_at_time: Some(1),
            },
            1,
        ),
        Transaction::transfer(
            Transfer {
                amount: Amount::from_u64(200000),
                from: a.clone(),
                to: b.clone(),
                spender: None,
                memo: None,
                fee: Some(Amount::from_u64(10000)),
                created_at_time: None,
            },
            2,
        ),
    ];
    let balances = vec![
        (a.clone(), Amount::from_u64(790000)),
        (b.clone(), Amount::from_u64(200000)),
    ];
    let restored = Ledger::restore(
        "ICRC-3 Token".to_string(),
        "ICRC3".to_string(),
        8,
        Amount::from_u64(10000),
        Some(acct(&MINTER)),
        Amount::from_u64(1000000),
        balances,
        vec![],
        records,
    )
    .unwrap();
    assert_eq!(balance(&restored, &a), 790000);
    assert_eq!(balance(&restored, &b), 200000);
    assert_eq!(restored.icrc1_total_supply().to_u64(), Some(1000000));
    let export = restored.icrc3_get_blocks(&GetBlocksArgs {
        start: Amount::from_u64(0),
        length: Amount::from_u64(10),
    });
    assert_eq!(export.log_length, 2);

    let tampered = Ledger::restore(
        "ICRC-3 Token".to_string(),
        "ICRC3".to_string(),
        8,
        Amount::from_u64(10000),
        Some(acct(&MINTER)),
        Amount::from_u64(1000000),
        vec![(a.clone(), Amount::from_u64(999999))],
        vec![],
        vec![Transaction::mint(
            Mint {
                amount: Amount::from_u64(1000000),
                to: a,
                memo: None,
                created_at_time: Some(1),
            },
            1,
        )],
    );
    assert!(tampered.is_none());
}

#[test]
fn reads_are_idempotent_between_changes() {
    let mut ledger = new_ledger();
    let a = acct(&[1]);
    ledger.mint(&MINTER.to_vec(), a.clone(), Amount::from_u64(12345), 1).unwrap();
    let first = balance(&ledger, &a);
    let second = balance(&ledger, &a);
    assert_eq!(first, second);

    let args = AllowanceArgs { account: a.clone(), spender: acct(&[2]) };
    let al1 = ledger.icrc2_allowance(&args);
    let al2 = ledger.icrc2_allowance(&args);
    assert_eq!(al1.allowance.to_u64(), al2.allowance.to_u64());
    assert_eq!(al1.expires_at, al2.expires_at);
}
