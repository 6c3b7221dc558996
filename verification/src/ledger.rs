//! The ledger context and its transfer engine: one object owning the four
//! stores, whose state-changing operations validate in a fixed order and
//! then apply atomically — on any rejection no store is touched.
use vstd::prelude::*;
use crate::TX_WINDOW;
use crate::amount::Amount;
use crate::allowances::{AllowanceStore, allow_of, entry_key};
use crate::balances::{BalanceLedger, key_total, sum_of};
use crate::txlog::{
    TransactionLog, burn_total, fees_total, lemma_log_view_push, lemma_totals_push, log_view,
    mint_total,
};
use crate::types::{
    Account, AccountV, Allowance, AllowanceArgs, AllowanceV, Approve, ApproveArgs, ApproveError,
    ApproveResult, ApproveV, Burn, BurnV, Mint, MintV, Operation, OperationV, Transaction,
    TransactionV,
    Transfer, TransferArgs, TransferError, TransferFromArgs, TransferFromError, TransferFromResult,
    TransferResult, TransferV, bytes_eq, default_allowance, opt_account_view, opt_amount_view,
    opt_bytes_view,
};

verus! {

/// The singleton token record: static configuration plus mutable counters
/// and the minting authority. The next log index is not tracked here: it is
/// always the log's current length.
pub struct TokenData {
    pub name: String,
    pub symbol: String,
    pub decimals: u8,
    pub fee: Amount,
    pub total_supply: Amount,
    pub minting_account: Option<Account>,
}

/// The ledger context: the four stores, owned exclusively, constructed once
/// and passed by reference into every operation handler.
pub struct Ledger {
    pub token: TokenData,
    pub balances: BalanceLedger,
    pub allowances: AllowanceStore,
    pub log: TransactionLog,
}

/// The account acting in an operation: the externally-authenticated caller
/// owner plus the caller-supplied sub-identifier.
pub open spec fn acting_account(owner: Seq<u8>, subaccount: Option<Seq<u8>>) -> AccountV {
    AccountV { owner, subaccount }
}

/// A caller-supplied creation timestamp lying in the future.
pub open spec fn created_in_future(created: Option<u64>, now: u64) -> bool {
    match created {
        Some(c) => c > now,
        None => false,
    }
}

/// A caller-supplied creation timestamp older than the replay window.
pub open spec fn created_too_old(created: Option<u64>, now: u64) -> bool {
    match created {
        Some(c) => c <= now && now - c > TX_WINDOW,
        None => false,
    }
}

/// A caller-supplied fee disagreeing with the configured fee.
pub open spec fn fee_mismatch(fee: Option<nat>, configured: nat) -> bool {
    match fee {
        Some(f) => f != configured,
        None => false,
    }
}

/// Whether the caller may mint: it must own the minting account.
pub open spec fn may_mint(minting_account: Option<Account>, caller: Seq<u8>) -> bool {
    match minting_account {
        Some(m) => m.owner@ == caller,
        None => false,
    }
}

/// Accounting law: in every well-formed ledger state — and every operation
/// carries well-formedness from state to state, starting from `Ledger::new`
/// — the total supply is exactly the sum of minted amounts minus the sum of
/// burned amounts recorded in the transaction log.
pub proof fn lemma_supply_matches_log(l: &Ledger)
    requires
        l.wf(),
    ensures
        l.token.total_supply@ == mint_total(l.log@) - burn_total(l.log@),
{
}

/// Accounting law: in every well-formed ledger state, the sum of all
/// balances plus the sum of all fees ever charged equals the total supply —
/// fees are burned from their payer, not credited anywhere.
pub proof fn lemma_balances_plus_fees_match_supply(l: &Ledger)
    requires
        l.wf(),
    ensures
        l.balances.total() + fees_total(l.log@) == l.token.total_supply@,
{
}

/// Read idempotence: balance and allowance reads are functions of the
/// state alone, so two reads with no intervening state change see one
/// value. `icrc1_balance_of` and `icrc2_allowance` each pin their result
/// to the state, which this law composes.
pub proof fn lemma_reads_idempotent(
    l: &Ledger,
    a: AccountV,
    k: (AccountV, AccountV),
    b1: nat,
    b2: nat,
    al1: AllowanceV,
    al2: AllowanceV,
)
    requires
        b1 == l.balances.bal(a),
        b2 == l.balances.bal(a),
        al1 == l.allowances.allow(k),
        al2 == l.allowances.allow(k),
    ensures
        b1 == b2,
        al1 == al2,
{
}

impl Ledger {
    /// Well-formedness: distinct store keys, and the accounting invariants
    /// — the total supply is exactly the minted minus the burned amounts
    /// recorded in the log, and the sum of all balances plus all fees ever
    /// charged is exactly the total supply.
    pub open spec fn wf(&self) -> bool {
        &&& self.balances.wf()
        &&& self.allowances.wf()
        &&& self.token.total_supply@ + burn_total(self.log@) == mint_total(self.log@)
        &&& self.balances.total() + fees_total(self.log@) == self.token.total_supply@
    }

    /// A fresh ledger: the given configuration, no balances, no
    /// allowances, an empty log, and zero supply.
    pub fn new(
        name: String,
        symbol: String,
        decimals: u8,
        fee: Amount,
        minting_account: Option<Account>,
    ) -> (r: Ledger)
        ensures
            r.wf(),
            r.token.name == name,
            r.token.symbol == symbol,
            r.token.decimals == decimals,
            r.token.fee == fee,
            r.token.total_supply@ == 0,
            r.token.minting_account == minting_account,
            r.log@ == Seq::<TransactionV>::empty(),
            forall|k: AccountV| r.balances.bal(k) == 0,
            forall|k: (AccountV, AccountV)| r.allowances.allow(k) == default_allowance(),
    {
        Ledger {
            token: TokenData {
                name,
                symbol,
                decimals,
                fee,
                total_supply: Amount::zero(),
                minting_account,
            },
            balances: BalanceLedger::new(),
            allowances: AllowanceStore::new(),
            log: TransactionLog::new(),
        }
    }

    /// Rebuilds a ledger from the durable tables' contents, validating the
    /// accounting invariants before trusting them: the result is `Some`
    /// exactly when the recorded total supply equals the log's minted
    /// minus burned amounts and the recorded balances plus the log's fees
    /// make up that supply. Amounts recorded twice under one account
    /// accumulate; a later allowance entry for a pair replaces an earlier
    /// one.
    pub fn restore(
        name: String,
        symbol: String,
        decimals: u8,
        fee: Amount,
        minting_account: Option<Account>,
        total_supply: Amount,
        balance_entries: Vec<(Account, Amount)>,
        allowance_entries: Vec<(Account, Account, Allowance)>,
        records: Vec<Transaction>,
    ) -> (r: Option<Ledger>)
        ensures
            r is Some <==> {
                &&& total_supply@ + burn_total(log_view(records@)) == mint_total(
                    log_view(records@),
                )
                &&& sum_of(balance_entries@) + fees_total(log_view(records@)) == total_supply@
            },
            r matches Some(l) ==> {
                &&& l.wf()
                &&& l.token.name == name
                &&& l.token.symbol == symbol
                &&& l.token.decimals == decimals
                &&& l.token.fee == fee
                &&& l.token.minting_account == minting_account
                &&& l.token.total_supply == total_supply
                &&& l.log@ == log_view(records@)
                &&& forall|k: AccountV|
                    #[trigger] l.balances.bal(k) == key_total(balance_entries@, k)
                &&& forall|k: (AccountV, AccountV)|
                    #[trigger] l.allowances.allow(k) == allow_of(allowance_entries@, k)
            },
    {
        let mut balances = BalanceLedger::new();
        let mut balance_sum = Amount::zero();
        let mut i: usize = 0;
        while i < balance_entries.len()
            invariant
                i <= balance_entries@.len(),
                balances.wf(),
                balance_sum@ == sum_of(balance_entries@.take(i as int)),
                balances.total() == sum_of(balance_entries@.take(i as int)),
                forall|k: AccountV|
                    #[trigger] balances.bal(k) == key_total(
                        balance_entries@.take(i as int),
                        k,
                    ),
            decreases balance_entries@.len() - i,
        {
            let e = &balance_entries[i];
            let ghost prev = balance_entries@.take(i as int);
            balances.credit(&e.0, &e.1);
            balance_sum = balance_sum.add(&e.1);
            proof {
                let cur = balance_entries@.take(i + 1 as int);
                assert(cur.drop_last() =~= prev);
                assert(cur.last() == balance_entries@[i as int]);
                assert forall|k: AccountV| #[trigger]
                    balances.bal(k) == key_total(cur, k) by {
                    assert(key_total(cur, k) == key_total(prev, k) + if cur.last().0@ == k {
                        cur.last().1@
                    } else {
                        0
                    });
                }
            }
            i += 1;
        }
        proof {
            assert(balance_entries@.take(balance_entries@.len() as int) =~= balance_entries@);
        }
        let mut allowances = AllowanceStore::new();
        let mut i: usize = 0;
        while i < allowance_entries.len()
            invariant
                i <= allowance_entries@.len(),
                allowances.wf(),
                forall|k: (AccountV, AccountV)|
                    #[trigger] allowances.allow(k) == allow_of(
                        allowance_entries@.take(i as int),
                        k,
                    ),
            decreases allowance_entries@.len() - i,
        {
            let e = &allowance_entries[i];
            let ghost prev = allowance_entries@.take(i as int);
            allowances.set(e.0.clone(), e.1.clone(), e.2.clone());
            proof {
                let cur = allowance_entries@.take(i + 1 as int);
                assert(cur.drop_last() =~= prev);
                assert(cur.last() == allowance_entries@[i as int]);
                assert forall|k: (AccountV, AccountV)| #[trigger]
                    allowances.allow(k) == allow_of(cur, k) by {
                    assert(allow_of(cur, k) == if entry_key(cur.last()) == k {
                        cur.last().2@
                    } else {
                        allow_of(prev, k)
                    });
                }
            }
            i += 1;
        }
        proof {
            assert(allowance_entries@.take(allowance_entries@.len() as int)
                =~= allowance_entries@);
        }
        let mut log = TransactionLog::new();
        let mut mints = Amount::zero();
        let mut burns = Amount::zero();
        let mut fees = Amount::zero();
        let ghost rv = records@;
        let mut records = records;
        let ghost done = 0int;
        while records.len() > 0
            invariant
                0 <= done <= rv.len(),
                records@ == rv.subrange(done, rv.len() as int),
                log@ == log_view(rv.take(done)),
                mints@ == mint_total(log_view(rv.take(done))),
                burns@ == burn_total(log_view(rv.take(done))),
                fees@ == fees_total(log_view(rv.take(done))),
            decreases records@.len(),
        {
            let tx = records.remove(0);
            proof {
                assert(tx == rv[done]);
                assert(records@ =~= rv.subrange(done + 1, rv.len() as int));
            }
            match &tx.op {
                Operation::Mint(m) => {
                    mints = mints.add(&m.amount);
                },
                Operation::Burn(b) => {
                    burns = burns.add(&b.amount);
                },
                Operation::Transfer(t) => {
                    if let Some(f) = &t.fee {
                        fees = fees.add(f);
                    }
                },
                Operation::Approve(a) => {
                    if let Some(f) = &a.fee {
                        fees = fees.add(f);
                    }
                },
            }
            let ghost txv = tx@;
            log.append(tx);
            proof {
                assert(rv.take(done + 1) =~= rv.take(done).push(rv[done]));
                lemma_log_view_push(rv.take(done), rv[done]);
                lemma_totals_push(log_view(rv.take(done)), txv);
                done = done + 1;
            }
        }
        proof {
            assert(rv.take(rv.len() as int) =~= rv);
        }
        let supply_ok = match mints.checked_sub(&burns) {
            Some(minted_net) => minted_net.eq_val(&total_supply),
            None => false,
        };
        let balance_ok = balance_sum.add(&fees).eq_val(&total_supply);
        if supply_ok && balance_ok {
            Some(
                Ledger {
                    token: TokenData {
                        name,
                        symbol,
                        decimals,
                        fee,
                        total_supply,
                        minting_account,
                    },
                    balances,
                    allowances,
                    log,
                },
            )
        } else {
            None
        }
    }

    /// The token's name. Pure read.
    pub fn icrc1_name(&self) -> (r: String)
        ensures
            r@ == self.token.name@,
    {
        self.token.name.clone()
    }

    /// The token's symbol. Pure read.
    pub fn icrc1_symbol(&self) -> (r: String)
        ensures
            r@ == self.token.symbol@,
    {
        self.token.symbol.clone()
    }

    /// The token's decimal precision. Pure read.
    pub fn icrc1_decimals(&self) -> (r: u8)
        ensures
            r == self.token.decimals,
    {
        self.token.decimals
    }

    /// The configured transfer fee. Pure read.
    pub fn icrc1_fee(&self) -> (r: Amount)
        ensures
            r@ == self.token.fee@,
    {
        self.token.fee.clone()
    }

    /// The current total supply. Pure read.
    pub fn icrc1_total_supply(&self) -> (r: Amount)
        ensures
            r@ == self.token.total_supply@,
    {
        self.token.total_supply.clone()
    }

    /// The current minting authority. Pure read.
    pub fn icrc1_minting_account(&self) -> (r: Option<Account>)
        ensures
            opt_account_view(r) == opt_account_view(self.token.minting_account),
    {
        match &self.token.minting_account {
            None => None,
            Some(a) => Some(a.clone()),
        }
    }

    /// The balance of the given account: zero when it has no entry.
    pub fn get_account_balance(&self, account: &Account) -> (r: Amount)
        requires
            self.wf(),
        ensures
            r@ == self.balances.bal(account@),
    {
        self.balances.balance_of(account)
    }

    /// The balance of the given account. Pure read: two calls with no
    /// intervening state change return identical results.
    pub fn icrc1_balance_of(&self, account: &Account) -> (r: Amount)
        requires
            self.wf(),
        ensures
            r@ == self.balances.bal(account@),
    {
        self.get_account_balance(account)
    }

    /// The allowance of the (account, spender) pair: the zero default when
    /// no entry exists. Pure read: two calls with no intervening state
    /// change return identical results.
    pub fn icrc2_allowance(&self, args: &AllowanceArgs) -> (r: Allowance)
        requires
            self.wf(),
        ensures
            r@ == self.allowances.allow((args.account@, args.spender@)),
    {
        self.allowances.allowance_of(&args.account, &args.spender)
    }

    /// Appends the record under the next sequential index — always the
    /// log's current length — and returns the assigned index.
    pub fn record_transaction(&mut self, tx: Transaction) -> (idx: u64)
        ensures
            idx == old(self).log_len(),
            final(self).log@ == old(self).log@.push(tx@),
            final(self).token == old(self).token,
            final(self).balances == old(self).balances,
            final(self).allowances == old(self).allowances,
    {
        self.log.append(tx)
    }

    /// The log's current length, which is also the next index to assign.
    pub open spec fn log_len(&self) -> nat {
        self.log@.len()
    }

    /// Creates supply: credits the recipient, raises the total supply, and
    /// logs a mint record. Restricted to the owner of the minting account;
    /// any other caller is rejected and nothing changes. Mint carries no
    /// fee and no freshness check, but still stamps the apply-time
    /// timestamp.
    pub fn mint(&mut self, caller: &Vec<u8>, to: Account, amount: Amount, now: u64) -> (r:
        TransferResult)
        requires
            old(self).wf(),
        ensures
            final(self).wf(),
            r is Ok <==> may_mint(old(self).token.minting_account, caller@),
            r matches Err(e) ==> {
                &&& *final(self) == *old(self)
                &&& e matches TransferError::GenericError { error_code, message }
                &&& error_code@ == 1
                &&& message@ == "Only the minting account can mint tokens"@
            },
            r matches Ok(idx) ==> {
                &&& idx == old(self).log_len()
                &&& final(self).log@ == old(self).log@.push(
                    TransactionV {
                        op: OperationV::Mint(
                            MintV {
                                amount: amount@,
                                to: to@,
                                memo: None,
                                created_at_time: Some(now),
                            },
                        ),
                        timestamp: now,
                    },
                )
                &&& forall|k: AccountV|
                    #[trigger] final(self).balances.bal(k) == if k == to@ {
                        old(self).balances.bal(k) + amount@
                    } else {
                        old(self).balances.bal(k)
                    }
                &&& final(self).token.total_supply@ == old(self).token.total_supply@ + amount@
                &&& final(self).allowances == old(self).allowances
                &&& final(self).token.name == old(self).token.name
                &&& final(self).token.symbol == old(self).token.symbol
                &&& final(self).token.decimals == old(self).token.decimals
                &&& final(self).token.fee == old(self).token.fee
                &&& final(self).token.minting_account == old(self).token.minting_account
            },
    {
        let authorized = match &self.token.minting_account {
            Some(m) => bytes_eq(&m.owner, caller),
            None => false,
        };
        if !authorized {
            return Err(
                TransferError::GenericError {
                    error_code: Amount::from_u64(1),
                    message: "Only the minting account can mint tokens".to_owned(),
                },
            );
        }
        self.balances.credit(&to, &amount);
        let new_supply = self.token.total_supply.add(&amount);
        self.token.total_supply = new_supply;
        let ghost pre_log = self.log@;
        let record = Mint { amount, to, memo: None, created_at_time: Some(now) };
        let tx = Transaction::mint(record, now);
        let idx = self.record_transaction(tx);
        proof {
            lemma_totals_push(pre_log, tx@);
        }
        Ok(idx)
    }

    /// Destroys supply: debits the source account, lowers the total
    /// supply, and logs a burn record. Restricted to the owner of the
    /// source account; an unauthorized caller, or a balance below the
    /// requested amount, is rejected and nothing changes.
    pub fn burn(&mut self, caller: &Vec<u8>, from: Account, amount: Amount, now: u64) -> (r:
        TransferResult)
        requires
            old(self).wf(),
        ensures
            final(self).wf(),
            r matches Err(e) ==> *final(self) == *old(self),
            (r matches Err(TransferError::GenericError { error_code, message }) ==> {
                &&& from@.owner != caller@
                &&& error_code@ == 1
                &&& message@ == "Only the account owner can burn their tokens"@
            }),
            (from@.owner != caller@ ==> r matches Err(TransferError::GenericError { .. })),
            (r matches Err(TransferError::InsufficientFunds { balance }) ==> {
                &&& from@.owner == caller@
                &&& old(self).balances.bal(from@) < amount@
                &&& balance@ == old(self).balances.bal(from@)
            }),
            (from@.owner == caller@ && old(self).balances.bal(from@) < amount@ ==> r matches Err(
                TransferError::InsufficientFunds { .. },
            )),
            r is Ok <==> (from@.owner == caller@ && old(self).balances.bal(from@) >= amount@),
            r matches Ok(idx) ==> {
                &&& idx == old(self).log_len()
                &&& final(self).log@ == old(self).log@.push(
                    TransactionV {
                        op: OperationV::Burn(
                            BurnV {
                                amount: amount@,
                                from: from@,
                                spender: None,
                                memo: None,
                                created_at_time: Some(now),
                            },
                        ),
                        timestamp: now,
                    },
                )
                &&& forall|k: AccountV|
                    #[trigger] final(self).balances.bal(k) == if k == from@ {
                        old(self).balances.bal(k) - amount@
                    } else {
                        old(self).balances.bal(k) as int
                    }
                &&& final(self).token.total_supply@ == old(self).token.total_supply@ - amount@
                &&& final(self).allowances == old(self).allowances
                &&& final(self).token.name == old(self).token.name
                &&& final(self).token.symbol == old(self).token.symbol
                &&& final(self).token.decimals == old(self).token.decimals
                &&& final(self).token.fee == old(self).token.fee
                &&& final(self).token.minting_account == old(self).token.minting_account
            },
    {
        if !bytes_eq(&from.owner, caller) {
            return Err(
                TransferError::GenericError {
                    error_code: Amount::from_u64(1),
                    message: "Only the account owner can burn their tokens".to_owned(),
                },
            );
        }
        let from_balance = self.get_account_balance(&from);
        if from_balance.lt(&amount) {
            return Err(TransferError::InsufficientFunds { balance: from_balance });
        }
        proof {
            self.balances.lemma_bal_le_total(from@);
        }
        let ok = self.balances.debit(&from, &amount);
        proof {
            assert(ok);
        }
        let new_supply = match self.token.total_supply.checked_sub(&amount) {
            Some(s) => s,
            None => {
                proof {
                    assert(false);
                }
                Amount::zero()
            },
        };
        self.token.total_supply = new_supply;
        let ghost pre_log = self.log@;
        let record = Burn { amount, from, spender: None, memo: None, created_at_time: Some(now) };
        let tx = Transaction::burn(record, now);
        let idx = self.record_transaction(tx);
        proof {
            lemma_totals_push(pre_log, tx@);
        }
        Ok(idx)
    }

    /// Moves tokens from the caller's account to the recipient and burns
    /// the configured fee from the caller, logging a transfer record.
    /// Validation runs in a fixed order — freshness, fee, funds — and the
    /// first failure is returned with nothing changed.
    pub fn icrc1_transfer(&mut self, caller: Vec<u8>, args: TransferArgs, now: u64) -> (r:
        TransferResult)
        requires
            old(self).wf(),
        ensures
            final(self).wf(),
            r matches Err(e) ==> *final(self) == *old(self),
            (r matches Err(TransferError::CreatedInFuture { ledger_time }) ==> created_in_future(
                args.created_at_time,
                now,
            ) && ledger_time == now),
            (created_in_future(args.created_at_time, now) ==> r matches Err(
                TransferError::CreatedInFuture { .. },
            )),
            (r matches Err(TransferError::TooOld) <==> !created_in_future(args.created_at_time, now)
                && created_too_old(args.created_at_time, now)),
            (r matches Err(TransferError::BadFee { expected_fee }) ==> {
                &&& !created_in_future(args.created_at_time, now)
                &&& !created_too_old(args.created_at_time, now)
                &&& fee_mismatch(opt_amount_view(args.fee), old(self).token.fee@)
                &&& expected_fee@ == old(self).token.fee@
            }),
            (!created_in_future(args.created_at_time, now) && !created_too_old(
                args.created_at_time,
                now,
            ) && fee_mismatch(opt_amount_view(args.fee), old(self).token.fee@) ==> r matches Err(
                TransferError::BadFee { .. },
            )),
            (r matches Err(TransferError::InsufficientFunds { balance }) ==> {
                &&& !created_in_future(args.created_at_time, now)
                &&& !created_too_old(args.created_at_time, now)
                &&& !fee_mismatch(opt_amount_view(args.fee), old(self).token.fee@)
                &&& old(self).balances.bal(
                    acting_account(caller@, opt_bytes_view(args.from_subaccount)),
                ) < args.amount@ + old(self).token.fee@
                &&& balance@ == old(self).balances.bal(
                    acting_account(caller@, opt_bytes_view(args.from_subaccount)),
                )
            }),
            (!created_in_future(args.created_at_time, now) && !created_too_old(
                args.created_at_time,
                now,
            ) && !fee_mismatch(opt_amount_view(args.fee), old(self).token.fee@) && old(
                self,
            ).balances.bal(acting_account(caller@, opt_bytes_view(args.from_subaccount)))
                < args.amount@ + old(self).token.fee@ ==> r matches Err(
                TransferError::InsufficientFunds { .. },
            )),
            r is Ok <==> {
                &&& !created_in_future(args.created_at_time, now)
                &&& !created_too_old(args.created_at_time, now)
                &&& !fee_mismatch(opt_amount_view(args.fee), old(self).token.fee@)
                &&& old(self).balances.bal(
                    acting_account(caller@, opt_bytes_view(args.from_subaccount)),
                ) >= args.amount@ + old(self).token.fee@
            },
            r matches Ok(idx) ==> {
                let f = acting_account(caller@, opt_bytes_view(args.from_subaccount));
                let cfg = old(self).token.fee@;
                let amt = args.amount@;
                &&& idx == old(self).log_len()
                &&& final(self).log@ == old(self).log@.push(
                    TransactionV {
                        op: OperationV::Transfer(
                            TransferV {
                                amount: amt,
                                from: f,
                                to: args.to@,
                                spender: None,
                                memo: opt_bytes_view(args.memo),
                                fee: Some(cfg),
                                created_at_time: args.created_at_time,
                            },
                        ),
                        timestamp: now,
                    },
                )
                &&& forall|k: AccountV|
                    #[trigger] final(self).balances.bal(k) == {
                        let pre = old(self).balances.bal(k) as int;
                        if k == f && k == args.to@ {
                            pre - cfg
                        } else if k == f {
                            pre - (amt + cfg)
                        } else if k == args.to@ {
                            pre + amt
                        } else {
                            pre
                        }
                    }
                &&& final(self).token.total_supply == old(self).token.total_supply
                &&& final(self).allowances == old(self).allowances
                &&& final(self).token.name == old(self).token.name
                &&& final(self).token.symbol == old(self).token.symbol
                &&& final(self).token.decimals == old(self).token.decimals
                &&& final(self).token.fee == old(self).token.fee
                &&& final(self).token.minting_account == old(self).token.minting_account
            },
    {
        let from = Account { owner: caller, subaccount: args.from_subaccount };
        if let Some(created_at) = args.created_at_time {
            if created_at > now {
                return Err(TransferError::CreatedInFuture { ledger_time: now });
            }
            if now - created_at > TX_WINDOW {
                return Err(TransferError::TooOld);
            }
        }
        if let Some(fee) = &args.fee {
            if !fee.eq_val(&self.token.fee) {
                return Err(TransferError::BadFee { expected_fee: self.token.fee.clone() });
            }
        }
        let from_balance = self.get_account_balance(&from);
        let total_deduction = args.amount.add(&self.token.fee);
        if from_balance.lt(&total_deduction) {
            return Err(TransferError::InsufficientFunds { balance: from_balance });
        }
        let ok = self.balances.debit(&from, &total_deduction);
        proof {
            assert(ok);
        }
        self.balances.credit(&args.to, &args.amount);
        let ghost pre_log = self.log@;
        let fee_paid = self.token.fee.clone();
        let record = Transfer {
            amount: args.amount,
            from,
            to: args.to,
            spender: None,
            memo: args.memo,
            fee: Some(fee_paid),
            created_at_time: args.created_at_time,
        };
        let tx = Transaction::transfer(record, now);
        let idx = self.record_transaction(tx);
        proof {
            lemma_totals_push(pre_log, tx@);
        }
        Ok(idx)
    }

    /// Grants the spender an allowance over the caller's account, burning
    /// the configured fee from the caller and logging an approve record.
    /// Validation runs in a fixed order — freshness, fee, funds, the
    /// optimistic-concurrency check against `expected_allowance`, expiry —
    /// and the first failure is returned with nothing changed. A grant of
    /// exactly zero removes the allowance entry.
    pub fn icrc2_approve(&mut self, caller: Vec<u8>, args: ApproveArgs, now: u64) -> (r:
        ApproveResult)
        requires
            old(self).wf(),
        ensures
            final(self).wf(),
            r matches Err(e) ==> *final(self) == *old(self),
            (r matches Err(ApproveError::CreatedInFuture { ledger_time }) ==> created_in_future(
                args.created_at_time,
                now,
            ) && ledger_time == now),
            (created_in_future(args.created_at_time, now) ==> r matches Err(
                ApproveError::CreatedInFuture { .. },
            )),
            (r matches Err(ApproveError::TooOld) <==> !created_in_future(args.created_at_time, now)
                && created_too_old(args.created_at_time, now)),
            (r matches Err(ApproveError::BadFee { expected_fee }) ==> {
                &&& !created_in_future(args.created_at_time, now)
                &&& !created_too_old(args.created_at_time, now)
                &&& fee_mismatch(opt_amount_view(args.fee), old(self).token.fee@)
                &&& expected_fee@ == old(self).token.fee@
            }),
            (!created_in_future(args.created_at_time, now) && !created_too_old(
                args.created_at_time,
                now,
            ) && fee_mismatch(opt_amount_view(args.fee), old(self).token.fee@) ==> r matches Err(
                ApproveError::BadFee { .. },
            )),
            (r matches Err(ApproveError::InsufficientFunds { balance }) ==> {
                &&& !created_in_future(args.created_at_time, now)
                &&& !created_too_old(args.created_at_time, now)
                &&& !fee_mismatch(opt_amount_view(args.fee), old(self).token.fee@)
                &&& old(self).balances.bal(
                    acting_account(caller@, opt_bytes_view(args.from_subaccount)),
                ) < old(self).token.fee@
                &&& balance@ == old(self).balances.bal(
                    acting_account(caller@, opt_bytes_view(args.from_subaccount)),
                )
            }),
            (!created_in_future(args.created_at_time, now) && !created_too_old(
                args.created_at_time,
                now,
            ) && !fee_mismatch(opt_amount_view(args.fee), old(self).token.fee@) && old(
                self,
            ).balances.bal(acting_account(caller@, opt_bytes_view(args.from_subaccount))) < old(
                self,
            ).token.fee@ ==> r matches Err(ApproveError::InsufficientFunds { .. })),
            ({
                let f = acting_account(caller@, opt_bytes_view(args.from_subaccount));
                let live = old(self).allowances.allow((f, args.spender@)).allowance;
                &&& !created_in_future(args.created_at_time, now)
                &&& !created_too_old(args.created_at_time, now)
                &&& !fee_mismatch(opt_amount_view(args.fee), old(self).token.fee@)
                &&& old(self).balances.bal(f) >= old(self).token.fee@
                &&& match opt_amount_view(args.expected_allowance) {
                    Some(e) => e != live,
                    None => false,
                }
            } ==> r matches Err(ApproveError::AllowanceChanged { .. })),
            ({
                let f = acting_account(caller@, opt_bytes_view(args.from_subaccount));
                let live = old(self).allowances.allow((f, args.spender@)).allowance;
                &&& !created_in_future(args.created_at_time, now)
                &&& !created_too_old(args.created_at_time, now)
                &&& !fee_mismatch(opt_amount_view(args.fee), old(self).token.fee@)
                &&& old(self).balances.bal(f) >= old(self).token.fee@
                &&& match opt_amount_view(args.expected_allowance) {
                    Some(e) => e == live,
                    None => true,
                }
                &&& match args.expires_at {
                    Some(e) => e < now,
                    None => false,
                }
            } ==> r matches Err(ApproveError::Expired { .. })),
            (r matches Err(ApproveError::AllowanceChanged { current_allowance }) ==> {
                let f = acting_account(caller@, opt_bytes_view(args.from_subaccount));
                let live = old(self).allowances.allow((f, args.spender@)).allowance;
                &&& !created_in_future(args.created_at_time, now)
                &&& !created_too_old(args.created_at_time, now)
                &&& !fee_mismatch(opt_amount_view(args.fee), old(self).token.fee@)
                &&& old(self).balances.bal(f) >= old(self).token.fee@
                &&& match opt_amount_view(args.expected_allowance) {
                    Some(e) => e != live,
                    None => false,
                }
                &&& current_allowance@ == live
            }),
            (r matches Err(ApproveError::Expired { ledger_time }) ==> {
                let f = acting_account(caller@, opt_bytes_view(args.from_subaccount));
                let live = old(self).allowances.allow((f, args.spender@)).allowance;
                &&& !created_in_future(args.created_at_time, now)
                &&& !created_too_old(args.created_at_time, now)
                &&& !fee_mismatch(opt_amount_view(args.fee), old(self).token.fee@)
                &&& old(self).balances.bal(f) >= old(self).token.fee@
                &&& match opt_amount_view(args.expected_allowance) {
                    Some(e) => e == live,
                    None => true,
                }
                &&& match args.expires_at {
                    Some(e) => e < now,
                    None => false,
                }
                &&& ledger_time == now
            }),
            r is Ok <==> {
                let f = acting_account(caller@, opt_bytes_view(args.from_subaccount));
                let live = old(self).allowances.allow((f, args.spender@)).allowance;
                &&& !created_in_future(args.created_at_time, now)
                &&& !created_too_old(args.created_at_time, now)
                &&& !fee_mismatch(opt_amount_view(args.fee), old(self).token.fee@)
                &&& old(self).balances.bal(f) >= old(self).token.fee@
                &&& match opt_amount_view(args.expected_allowance) {
                    Some(e) => e == live,
                    None => true,
                }
                &&& match args.expires_at {
                    Some(e) => e >= now,
                    None => true,
                }
            },
            r matches Ok(idx) ==> {
                let f = acting_account(caller@, opt_bytes_view(args.from_subaccount));
                let cfg = old(self).token.fee@;
                let amt = args.amount@;
                &&& idx == old(self).log_len()
                &&& final(self).log@ == old(self).log@.push(
                    TransactionV {
                        op: OperationV::Approve(
                            ApproveV {
                                from: f,
                                spender: args.spender@,
                                amount: amt,
                                expected_allowance: opt_amount_view(args.expected_allowance),
                                expires_at: args.expires_at,
                                memo: opt_bytes_view(args.memo),
                                fee: Some(cfg),
                                created_at_time: args.created_at_time,
                            },
                        ),
                        timestamp: now,
                    },
                )
                &&& forall|k: AccountV|
                    #[trigger] final(self).balances.bal(k) == if k == f {
                        old(self).balances.bal(k) - cfg
                    } else {
                        old(self).balances.bal(k) as int
                    }
                &&& forall|k: (AccountV, AccountV)|
                    #[trigger] final(self).allowances.allow(k) == if k == (f, args.spender@) {
                        if amt == 0 {
                            default_allowance()
                        } else {
                            AllowanceV { allowance: amt, expires_at: args.expires_at }
                        }
                    } else {
                        old(self).allowances.allow(k)
                    }
                &&& final(self).token.total_supply == old(self).token.total_supply
                &&& final(self).token.name == old(self).token.name
                &&& final(self).token.symbol == old(self).token.symbol
                &&& final(self).token.decimals == old(self).token.decimals
                &&& final(self).token.fee == old(self).token.fee
                &&& final(self).token.minting_account == old(self).token.minting_account
            },
    {
        let from = Account { owner: caller, subaccount: args.from_subaccount };
        if let Some(created_at) = args.created_at_time {
            if created_at > now {
                return Err(ApproveError::CreatedInFuture { ledger_time: now });
            }
            if now - created_at > TX_WINDOW {
                return Err(ApproveError::TooOld);
            }
        }
        if let Some(fee) = &args.fee {
            if !fee.eq_val(&self.token.fee) {
                return Err(ApproveError::BadFee { expected_fee: self.token.fee.clone() });
            }
        }
        let from_balance = self.get_account_balance(&from);
        if from_balance.lt(&self.token.fee) {
            return Err(ApproveError::InsufficientFunds { balance: from_balance });
        }
        if let Some(expected) = &args.expected_allowance {
            let current = self.allowances.allowance_of(&from, &args.spender);
            if !expected.eq_val(&current.allowance) {
                return Err(ApproveError::AllowanceChanged { current_allowance: current.allowance });
            }
        }
        if let Some(expires) = args.expires_at {
            if expires < now {
                return Err(ApproveError::Expired { ledger_time: now });
            }
        }
        let fee_paid = self.token.fee.clone();
        let ok = self.balances.debit(&from, &fee_paid);
        proof {
            assert(ok);
        }
        if args.amount.is_zero() {
            self.allowances.clear(&from, &args.spender);
        } else {
            let granted = Allowance { allowance: args.amount.clone(), expires_at: args.expires_at };
            self.allowances.set(from.clone(), args.spender.clone(), granted);
        }
        let ghost pre_log = self.log@;
        let record = Approve {
            from,
            spender: args.spender,
            amount: args.amount,
            expected_allowance: args.expected_allowance,
            expires_at: args.expires_at,
            memo: args.memo,
            fee: Some(fee_paid),
            created_at_time: args.created_at_time,
        };
        let tx = Transaction::approve(record, now);
        let idx = self.record_transaction(tx);
        proof {
            lemma_totals_push(pre_log, tx@);
        }
        Ok(idx)
    }

    /// Moves tokens from a third-party account, spending the caller's
    /// allowance over it: debits the source by amount plus the configured
    /// fee, credits the recipient, decrements the (source, spender)
    /// allowance by the amount — removing the entry when it reaches
    /// exactly zero — and logs a transfer record naming the spender.
    /// Validation runs in a fixed order — freshness, fee, funds,
    /// delegation — and the first failure is returned with nothing
    /// changed. An allowance whose expiry has passed counts as zero.
    pub fn icrc2_transfer_from(&mut self, caller: Vec<u8>, args: TransferFromArgs, now: u64) -> (r:
        TransferFromResult)
        requires
            old(self).wf(),
        ensures
            final(self).wf(),
            r matches Err(e) ==> *final(self) == *old(self),
            (r matches Err(TransferFromError::CreatedInFuture { ledger_time })
                ==> created_in_future(args.created_at_time, now) && ledger_time == now),
            (created_in_future(args.created_at_time, now) ==> r matches Err(
                TransferFromError::CreatedInFuture { .. },
            )),
            (r matches Err(TransferFromError::TooOld) <==> !created_in_future(
                args.created_at_time,
                now,
            ) && created_too_old(args.created_at_time, now)),
            (r matches Err(TransferFromError::BadFee { expected_fee }) ==> {
                &&& !created_in_future(args.created_at_time, now)
                &&& !created_too_old(args.created_at_time, now)
                &&& fee_mismatch(opt_amount_view(args.fee), old(self).token.fee@)
                &&& expected_fee@ == old(self).token.fee@
            }),
            (!created_in_future(args.created_at_time, now) && !created_too_old(
                args.created_at_time,
                now,
            ) && fee_mismatch(opt_amount_view(args.fee), old(self).token.fee@) ==> r matches Err(
                TransferFromError::BadFee { .. },
            )),
            (r matches Err(TransferFromError::InsufficientFunds { balance }) ==> {
                &&& !created_in_future(args.created_at_time, now)
                &&& !created_too_old(args.created_at_time, now)
                &&& !fee_mismatch(opt_amount_view(args.fee), old(self).token.fee@)
                &&& old(self).balances.bal(args.from@) < args.amount@ + old(self).token.fee@
                &&& balance@ == old(self).balances.bal(args.from@)
            }),
            (r matches Err(TransferFromError::InsufficientAllowance { allowance }) ==> {
                let spender = acting_account(caller@, opt_bytes_view(args.spender_subaccount));
                let live = old(self).allowances.allow((args.from@, spender));
                &&& !created_in_future(args.created_at_time, now)
                &&& !created_too_old(args.created_at_time, now)
                &&& !fee_mismatch(opt_amount_view(args.fee), old(self).token.fee@)
                &&& old(self).balances.bal(args.from@) >= args.amount@ + old(self).token.fee@
                &&& {
                    ||| (match live.expires_at {
                        Some(e) => e < now,
                        None => false,
                    } && allowance@ == 0)
                    ||| (match live.expires_at {
                        Some(e) => e >= now,
                        None => true,
                    } && live.allowance < args.amount@ && allowance@ == live.allowance)
                }
            }),
            (!created_in_future(args.created_at_time, now) && !created_too_old(
                args.created_at_time,
                now,
            ) && !fee_mismatch(opt_amount_view(args.fee), old(self).token.fee@) && old(
                self,
            ).balances.bal(args.from@) < args.amount@ + old(self).token.fee@ ==> r matches Err(
                TransferFromError::InsufficientFunds { .. },
            )),
            ({
                let spender = acting_account(caller@, opt_bytes_view(args.spender_subaccount));
                let live = old(self).allowances.allow((args.from@, spender));
                &&& !created_in_future(args.created_at_time, now)
                &&& !created_too_old(args.created_at_time, now)
                &&& !fee_mismatch(opt_amount_view(args.fee), old(self).token.fee@)
                &&& old(self).balances.bal(args.from@) >= args.amount@ + old(self).token.fee@
                &&& {
                    ||| match live.expires_at {
                        Some(e) => e < now,
                        None => false,
                    }
                    ||| live.allowance < args.amount@
                }
            } ==> r matches Err(TransferFromError::InsufficientAllowance { .. })),
            r is Ok <==> {
                let spender = acting_account(caller@, opt_bytes_view(args.spender_subaccount));
                let live = old(self).allowances.allow((args.from@, spender));
                &&& !created_in_future(args.created_at_time, now)
                &&& !created_too_old(args.created_at_time, now)
                &&& !fee_mismatch(opt_amount_view(args.fee), old(self).token.fee@)
                &&& old(self).balances.bal(args.from@) >= args.amount@ + old(self).token.fee@
                &&& match live.expires_at {
                    Some(e) => e >= now,
                    None => true,
                }
                &&& live.allowance >= args.amount@
            },
            r matches Ok(idx) ==> {
                let spender = acting_account(caller@, opt_bytes_view(args.spender_subaccount));
                let live = old(self).allowances.allow((args.from@, spender));
                let cfg = old(self).token.fee@;
                let amt = args.amount@;
                &&& idx == old(self).log_len()
                &&& final(self).log@ == old(self).log@.push(
                    TransactionV {
                        op: OperationV::Transfer(
                            TransferV {
                                amount: amt,
                                from: args.from@,
                                to: args.to@,
                                spender: Some(spender),
                                memo: opt_bytes_view(args.memo),
                                fee: Some(cfg),
                                created_at_time: args.created_at_time,
                            },
                        ),
                        timestamp: now,
                    },
                )
                &&& forall|k: AccountV|
                    #[trigger] final(self).balances.bal(k) == {
                        let pre = old(self).balances.bal(k) as int;
                        if k == args.from@ && k == args.to@ {
                            pre - cfg
                        } else if k == args.from@ {
                            pre - (amt + cfg)
                        } else if k == args.to@ {
                            pre + amt
                        } else {
                            pre
                        }
                    }
                &&& forall|k: (AccountV, AccountV)|
                    #[trigger] final(self).allowances.allow(k) == if k == (args.from@, spender) {
                        if live.allowance == amt {
                            default_allowance()
                        } else {
                            AllowanceV {
                                allowance: (live.allowance - amt) as nat,
                                expires_at: live.expires_at,
                            }
                        }
                    } else {
                        old(self).allowances.allow(k)
                    }
                &&& final(self).token.total_supply == old(self).token.total_supply
                &&& final(self).token.name == old(self).token.name
                &&& final(self).token.symbol == old(self).token.symbol
                &&& final(self).token.decimals == old(self).token.decimals
                &&& final(self).token.fee == old(self).token.fee
                &&& final(self).token.minting_account == old(self).token.minting_account
            },
    {
        let spender = Account { owner: caller, subaccount: args.spender_subaccount };
        if let Some(created_at) = args.created_at_time {
            if created_at > now {
                return Err(TransferFromError::CreatedInFuture { ledger_time: now });
            }
            if now - created_at > TX_WINDOW {
                return Err(TransferFromError::TooOld);
            }
        }
        if let Some(fee) = &args.fee {
            if !fee.eq_val(&self.token.fee) {
                return Err(TransferFromError::BadFee { expected_fee: self.token.fee.clone() });
            }
        }
        let from_balance = self.get_account_balance(&args.from);
        let total_deduction = args.amount.add(&self.token.fee);
        if from_balance.lt(&total_deduction) {
            return Err(TransferFromError::InsufficientFunds { balance: from_balance });
        }
        let current = self.allowances.allowance_of(&args.from, &spender);
        if let Some(expires_at) = current.expires_at {
            if expires_at < now {
                return Err(
                    TransferFromError::InsufficientAllowance { allowance: Amount::zero() },
                );
            }
        }
        if current.allowance.lt(&args.amount) {
            return Err(
                TransferFromError::InsufficientAllowance { allowance: current.allowance },
            );
        }
        let ok = self.balances.debit(&args.from, &total_deduction);
        proof {
            assert(ok);
        }
        self.balances.credit(&args.to, &args.amount);
        let remaining = match current.allowance.checked_sub(&args.amount) {
            Some(d) => d,
            None => {
                proof {
                    assert(false);
                }
                Amount::zero()
            },
        };
        if remaining.is_zero() {
            self.allowances.clear(&args.from, &spender);
        } else {
            let reduced = Allowance { allowance: remaining, expires_at: current.expires_at };
            self.allowances.set(args.from.clone(), spender.clone(), reduced);
        }
        let ghost pre_log = self.log@;
        let fee_paid = self.token.fee.clone();
        let record = Transfer {
            amount: args.amount,
            from: args.from,
            to: args.to,
            spender: Some(spender),
            memo: args.memo,
            fee: Some(fee_paid),
            created_at_time: args.created_at_time,
        };
        let tx = Transaction::transfer(record, now);
        let idx = self.record_transaction(tx);
        proof {
            lemma_totals_push(pre_log, tx@);
        }
        Ok(idx)
    }

    /// Replaces the minting authority. Restricted to the owner of the
    /// current minting account; when none is set (initial setup), any
    /// caller may claim it.
    pub fn update_minting_account(&mut self, caller: &Vec<u8>, new_minting_account: Account) -> (r:
        Result<(), String>)
        requires
            old(self).wf(),
        ensures
            final(self).wf(),
            r is Ok <==> match old(self).token.minting_account {
                Some(m) => m.owner@ == caller@,
                None => true,
            },
            r matches Err(message) ==> {
                &&& *final(self) == *old(self)
                &&& message@ == "Only the minting account can replace the minting account"@
            },
            r is Ok ==> {
                &&& final(self).token.minting_account == Some(new_minting_account)
                &&& final(self).balances == old(self).balances
                &&& final(self).allowances == old(self).allowances
                &&& final(self).log == old(self).log
                &&& final(self).token.name == old(self).token.name
                &&& final(self).token.symbol == old(self).token.symbol
                &&& final(self).token.decimals == old(self).token.decimals
                &&& final(self).token.fee == old(self).token.fee
                &&& final(self).token.total_supply == old(self).token.total_supply
            },
    {
        let authorized = match &self.token.minting_account {
            Some(m) => bytes_eq(&m.owner, caller),
            None => true,
        };
        if !authorized {
            return Err("Only the minting account can replace the minting account".to_owned());
        }
        self.token.minting_account = Some(new_minting_account);
        Ok(())
    }
}

} // verus!
