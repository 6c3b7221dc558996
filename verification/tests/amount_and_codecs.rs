use icrc_ledger::amount::Amount;
use icrc_ledger::types::{Account, AccountPair, Allowance, StableBlockIndex};

#[test]
fn amount_from_and_to_machine_integers() {
    assert_eq!(Amount::zero().to_u64(), Some(0));
    assert_eq!(Amount::from_u64(1).to_u64(), Some(1));
    assert_eq!(Amount::from_u64(0xFFFF_FFFF).to_u64(), Some(0xFFFF_FFFF));
    assert_eq!(Amount::from_u64(0x1_0000_0000).to_u64(), Some(0x1_0000_0000));
    assert_eq!(Amount::from_u64(u64::MAX).to_u64(), Some(u64::MAX));
}

#[test]
fn amount_addition_carries_across_limbs() {
    let a = Amount::from_u64(0xFFFF_FFFF);
    let one = Amount::from_u64(1);
    assert_eq!(a.add(&one).to_u64(), Some(0x1_0000_0000));

    let big = Amount::from_u64(u64::MAX);
    let sum = big.add(&big);
    assert_eq!(sum.to_u64(), None);
    assert_eq!(sum.checked_sub(&big).unwrap().to_u64(), Some(u64::MAX));
}

#[test]
fn amount_checked_sub_reports_underflow() {
    let a = Amount::from_u64(300);
    let b = Amount::from_u64(200);
    assert_eq!(a.checked_sub(&b).unwrap().to_u64(), Some(100));
    assert_eq!(a.checked_sub(&a).unwrap().to_u64(), Some(0));
    assert!(b.checked_sub(&a).is_none());
}

#[test]
fn amount_comparisons_follow_values() {
    let a = Amount::from_u64(5);
    let b = Amount::from_u64(7);
    assert!(a.le(&b));
    assert!(a.lt(&b));
    assert!(!b.le(&a));
    assert!(a.le(&a));
    assert!(!a.lt(&a));
    assert!(a.eq_val(&a));
    assert!(!a.eq_val(&b));
    assert!(a.clone().eq_val(&a));
    assert!(Amount::zero().is_zero());
    assert!(!a.is_zero());
}

#[test]
fn amount_bytes_round_trip() {
    let values: [u64; 5] = [0, 1, 0xFFFF_FFFF, 0x1_0000_0000, u64::MAX];
    for v in values.iter() {
        let a = Amount::from_u64(*v);
        let bytes = a.to_bytes();
        let back = Amount::from_bytes(&bytes).unwrap();
        assert_eq!(back.to_u64(), Some(*v));
    }
    let big = Amount::from_u64(u64::MAX).add(&Amount::from_u64(u64::MAX));
    let back = Amount::from_bytes(&big.to_bytes()).unwrap();
    assert!(back.eq_val(&big));
}

#[test]
fn amount_bytes_rejects_malformed_encodings() {
    assert!(Amount::from_bytes(&vec![1, 2, 3]).is_none());
    assert!(Amount::from_bytes(&vec![0, 0, 0, 0]).is_none());
    assert!(Amount::from_bytes(&vec![1, 0, 0, 0, 0, 0, 0, 0]).is_none());
    assert_eq!(Amount::from_bytes(&vec![]).unwrap().to_u64(), Some(0));
    assert_eq!(Amount::from_bytes(&vec![5, 0, 0, 0]).unwrap().to_u64(), Some(5));
}

#[test]
fn account_bytes_round_trip() {
    let plain = Account { owner: vec![1, 2, 3], subaccount: None };
    let bytes = plain.to_bytes();
    let back = Account::from_bytes(&bytes).unwrap();
    assert_eq!(back.owner, vec![1, 2, 3]);
    assert_eq!(back.subaccount, None);

    let with_sub = Account { owner: vec![9], subaccount: Some(vec![4, 5]) };
    let bytes = with_sub.to_bytes();
    let back = Account::from_bytes(&bytes).unwrap();
    assert_eq!(back.owner, vec![9]);
    assert_eq!(back.subaccount, Some(vec![4, 5]));
}

#[test]
fn account_bytes_rejects_malformed_encodings() {
    assert!(Account::from_bytes(&vec![]).is_none());
    assert!(Account::from_bytes(&vec![0, 0, 0, 9, 1]).is_none());
    let mut bytes = Account { owner: vec![1], subaccount: None }.to_bytes();
    bytes.push(0);
    assert!(Account::from_bytes(&bytes).is_none());
    let bad_flag = vec![0, 0, 0, 1, 7, 2];
    assert!(Account::from_bytes(&bad_flag).is_none());
}

#[test]
fn allowance_bytes_round_trip() {
    let no_expiry = Allowance { allowance: Amount::from_u64(50000), expires_at: None };
    let back = Allowance::from_bytes(&no_expiry.to_bytes()).unwrap();
    assert_eq!(back.allowance.to_u64(), Some(50000));
    assert_eq!(back.expires_at, None);

    let with_expiry = Allowance {
        allowance: Amount::from_u64(123456789),
        expires_at: Some(0xDEAD_BEEF_0123_4567),
    };
    let back = Allowance::from_bytes(&with_expiry.to_bytes()).unwrap();
    assert_eq!(back.allowance.to_u64(), Some(123456789));
    assert_eq!(back.expires_at, Some(0xDEAD_BEEF_0123_4567));

    assert!(Allowance::from_bytes(&vec![1, 2, 3]).is_none());
}

#[test]
fn account_pair_bytes_round_trip() {
    let pair = AccountPair(
        Account { owner: vec![1, 2], subaccount: Some(vec![3]) },
        Account { owner: vec![4], subaccount: None },
    );
    let back = AccountPair::from_bytes(&pair.to_bytes()).unwrap();
    assert_eq!(back.0.owner, vec![1, 2]);
    assert_eq!(back.0.subaccount, Some(vec![3]));
    assert_eq!(back.1.owner, vec![4]);
    assert_eq!(back.1.subaccount, None);

    assert!(AccountPair::from_bytes(&vec![0, 0, 0, 0]).is_none());
}

#[test]
fn block_index_bytes_round_trip() {
    let idx = StableBlockIndex::new(0x0102_0304_0506_0708);
    let bytes = idx.to_bytes();
    assert_eq!(bytes.len(), 8);
    assert_eq!(bytes[0], 8);
    let back = StableBlockIndex::from_bytes(&bytes);
    assert_eq!(back.0, 0x0102_0304_0506_0708);

    let short = StableBlockIndex::from_bytes(&vec![1, 2, 3]);
    assert_eq!(short.0, 0);

    let mut long = idx.to_bytes();
    long.push(0xFF);
    assert_eq!(StableBlockIndex::from_bytes(&long).0, 0x0102_0304_0506_0708);
}

#[test]
fn block_index_nat_conversions() {
    let idx = StableBlockIndex::new(42);
    assert_eq!(idx.to_nat().to_u64(), Some(42));
    assert_eq!(StableBlockIndex::from_nat(&Amount::from_u64(7)).0, 7);
    let too_big = Amount::from_u64(u64::MAX).add(&Amount::from_u64(1));
    assert_eq!(StableBlockIndex::from_nat(&too_big).0, 0);
}
