//! Byte encodings of the ledger's stored records, as the durable tables
//! keep them: length-prefixed fields with single-byte presence flags.
//! Every decoder accepts exactly the well-formed encodings and returns
//! what was written; corrupt bytes are reported, never misread.
use vstd::prelude::*;
use crate::amount::Amount;
use crate::types::{Account, AccountV, Allowance, AccountPair, StableBlockIndex};

verus! {

/// The four big-endian bytes of a 32-bit length.
pub open spec fn be32_bytes(n: nat) -> Seq<u8> {
    seq![
        ((n / 16777216) % 256) as u8,
        ((n / 65536) % 256) as u8,
        ((n / 256) % 256) as u8,
        (n % 256) as u8,
    ]
}

/// The length denoted by four big-endian bytes.
pub open spec fn be32_value(b0: u8, b1: u8, b2: u8, b3: u8) -> nat {
    (b0 as nat) * 16777216 + (b1 as nat) * 65536 + (b2 as nat) * 256 + (b3 as nat)
}

/// Reading four big-endian bytes undoes writing them.
pub proof fn lemma_be32_round(n: nat)
    requires
        n <= u32::MAX,
    ensures
        be32_value(
            ((n / 16777216) % 256) as u8,
            ((n / 65536) % 256) as u8,
            ((n / 256) % 256) as u8,
            (n % 256) as u8,
        ) == n,
{
    vstd::arithmetic::div_mod::lemma_fundamental_div_mod(n as int, 256);
    vstd::arithmetic::div_mod::lemma_fundamental_div_mod((n / 256) as int, 256);
    vstd::arithmetic::div_mod::lemma_fundamental_div_mod((n / 65536) as int, 256);
    assert(n / 256 / 256 == n / 65536) by (nonlinear_arith);
    assert(n / 65536 / 256 == n / 16777216) by (nonlinear_arith);
    assert(n / 16777216 < 256);
}

/// Appends the four big-endian bytes of a length.
fn push_be32(out: &mut Vec<u8>, n: u32)
    ensures
        final(out)@ == old(out)@ + be32_bytes(n as nat),
{
    let ghost pre = out@;
    out.push((n / 16777216) as u8);
    out.push(((n / 65536) % 256) as u8);
    out.push(((n / 256) % 256) as u8);
    out.push((n % 256) as u8);
    proof {
        assert((n / 16777216) as u8 == ((n as nat) / 16777216 % 256) as u8);
        assert(out@ =~= pre + be32_bytes(n as nat));
    }
}

/// Reads four big-endian bytes at the given position.
fn read_be32(src: &Vec<u8>, pos: usize) -> (r: u64)
    requires
        pos + 4 <= src@.len(),
    ensures
        r == be32_value(src@[pos as int], src@[pos + 1], src@[pos + 2], src@[pos + 3]),
        r <= u32::MAX,
{
    let n = src.len();
    let b0 = src[pos];
    let b1 = src[pos + 1];
    let b2 = src[pos + 2];
    let b3 = src[pos + 3];
    b0 as u64 * 16777216 + b1 as u64 * 65536 + b2 as u64 * 256 + b3 as u64
}

/// Appends all bytes of a vector.
fn push_bytes(out: &mut Vec<u8>, src: &Vec<u8>)
    ensures
        final(out)@ == old(out)@ + src@,
{
    let mut i: usize = 0;
    while i < src.len()
        invariant
            i <= src@.len(),
            out@ == old(out)@ + src@.take(i as int),
        decreases src@.len() - i,
    {
        out.push(src[i]);
        proof {
            assert(old(out)@ + src@.take(i + 1 as int) =~= (old(out)@ + src@.take(i as int)).push(
                src@[i as int],
            ));
        }
        i += 1;
    }
    proof {
        assert(src@.take(src@.len() as int) =~= src@);
    }
}

/// Copies the bytes in [start, end).
fn copy_range(src: &Vec<u8>, start: usize, end: usize) -> (r: Vec<u8>)
    requires
        start <= end,
        end <= src@.len(),
    ensures
        r@ == src@.subrange(start as int, end as int),
{
    let mut out: Vec<u8> = Vec::new();
    let mut i: usize = start;
    while i < end
        invariant
            start <= i,
            i <= end,
            end <= src@.len(),
            out@ == src@.subrange(start as int, i as int),
        decreases end - i,
    {
        out.push(src[i]);
        proof {
            assert(src@.subrange(start as int, i + 1 as int) =~= src@.subrange(
                start as int,
                i as int,
            ).push(src@[i as int]));
        }
        i += 1;
    }
    out
}

/// The stored encoding of an account: a length-prefixed owner, then a
/// presence flag, then — when present — a length-prefixed sub-identifier.
pub open spec fn account_bytes(a: AccountV) -> Seq<u8> {
    be32_bytes(a.owner.len()) + a.owner + match a.subaccount {
        None => seq![0u8],
        Some(s) => seq![1u8] + be32_bytes(s.len()) + s,
    }
}

/// A well-formed account encoding.
pub open spec fn valid_account_bytes(b: Seq<u8>) -> bool {
    &&& b.len() >= 5
    &&& {
        let ol = be32_value(b[0], b[1], b[2], b[3]);
        &&& 5 + ol <= b.len()
        &&& (b[4 + ol as int] == 0 || b[4 + ol as int] == 1)
        &&& (b[4 + ol as int] == 0 ==> b.len() == 5 + ol)
        &&& (b[4 + ol as int] == 1 ==> 9 + ol <= b.len() && b.len() == 9 + ol + be32_value(
            b[5 + ol as int],
            b[6 + ol as int],
            b[7 + ol as int],
            b[8 + ol as int],
        ))
    }
}

/// The account denoted by a well-formed encoding.
pub open spec fn decoded_account(b: Seq<u8>) -> AccountV {
    let ol = be32_value(b[0], b[1], b[2], b[3]);
    AccountV {
        owner: b.subrange(4, 4 + ol as int),
        subaccount: if b[4 + ol as int] == 0 {
            None
        } else {
            Some(b.subrange(9 + ol as int, b.len() as int))
        },
    }
}

/// A well-formed encoding reads back as the account written.
pub proof fn lemma_account_bytes_round_trip(a: AccountV)
    requires
        a.owner.len() <= u32::MAX,
        a.subaccount matches Some(s) ==> s.len() <= u32::MAX,
    ensures
        valid_account_bytes(account_bytes(a)),
        decoded_account(account_bytes(a)) == a,
{
    let b = account_bytes(a);
    let ol = a.owner.len();
    lemma_be32_round(ol);
    assert(b[0] == be32_bytes(ol)[0]);
    assert(b[1] == be32_bytes(ol)[1]);
    assert(b[2] == be32_bytes(ol)[2]);
    assert(b[3] == be32_bytes(ol)[3]);
    assert(be32_value(b[0], b[1], b[2], b[3]) == ol);
    assert(b.subrange(4, 4 + ol as int) =~= a.owner);
    match a.subaccount {
        None => {
            assert(b[4 + ol as int] == 0);
            assert(b.len() == 5 + ol);
        },
        Some(s) => {
            let sl = s.len();
            lemma_be32_round(sl);
            assert(b[4 + ol as int] == 1);
            assert(b[5 + ol as int] == be32_bytes(sl)[0]);
            assert(b[6 + ol as int] == be32_bytes(sl)[1]);
            assert(b[7 + ol as int] == be32_bytes(sl)[2]);
            assert(b[8 + ol as int] == be32_bytes(sl)[3]);
            assert(be32_value(b[5 + ol as int], b[6 + ol as int], b[7 + ol as int], b[8 + ol as int]) == sl);
            assert(b.len() == 9 + ol + sl);
            assert(b.subrange(9 + ol as int, b.len() as int) =~= s);
        },
    }
}

impl Account {
    /// Writes the account in its stored form.
    pub fn to_bytes(&self) -> (r: Vec<u8>)
        requires
            self.owner@.len() <= u32::MAX,
            self@.subaccount matches Some(s) ==> s.len() <= u32::MAX,
        ensures
            r@ == account_bytes(self@),
    {
        let mut out: Vec<u8> = Vec::new();
        push_be32(&mut out, self.owner.len() as u32);
        push_bytes(&mut out, &self.owner);
        match &self.subaccount {
            None => {
                out.push(0u8);
                proof {
                    assert(out@ =~= account_bytes(self@));
                }
            },
            Some(sub) => {
                out.push(1u8);
                push_be32(&mut out, sub.len() as u32);
                push_bytes(&mut out, sub);
                proof {
                    assert(out@ =~= account_bytes(self@));
                }
            },
        }
        out
    }

    /// Reads an account back from its stored form. Exactly the
    /// well-formed encodings are accepted.
    pub fn from_bytes(bytes: &Vec<u8>) -> (r: Option<Account>)
        ensures
            r is Some <==> valid_account_bytes(bytes@),
            r matches Some(a) ==> a@ == decoded_account(bytes@),
    {
        let n = bytes.len();
        if n < 5 {
            return None;
        }
        let ol64 = read_be32(bytes, 0);
        if ol64 > (n - 5) as u64 {
            return None;
        }
        let ol = ol64 as usize;
        let owner = copy_range(bytes, 4, 4 + ol);
        let flag = bytes[4 + ol];
        if flag == 0 {
            if n != 5 + ol {
                return None;
            }
            Some(Account { owner, subaccount: None })
        } else if flag == 1 {
            if n - 5 - ol < 4 {
                return None;
            }
            let sl64 = read_be32(bytes, 5 + ol);
            if sl64 != (n - 9 - ol) as u64 {
                return None;
            }
            let sl = sl64 as usize;
            let sub = copy_range(bytes, 9 + ol, 9 + ol + sl);
            proof {
                assert(bytes@.subrange(9 + ol as int, (9 + ol + sl) as int) =~= bytes@.subrange(
                    9 + ol as int,
                    bytes@.len() as int,
                ));
            }
            Some(Account { owner, subaccount: Some(sub) })
        } else {
            None
        }
    }
}

/// The eight big-endian bytes of an expiry instant.
pub open spec fn be64_bytes(x: u64) -> Seq<u8> {
    seq![
        ((x as nat) / 0x100000000000000 % 256) as u8,
        ((x as nat) / 0x1000000000000 % 256) as u8,
        ((x as nat) / 0x10000000000 % 256) as u8,
        ((x as nat) / 0x100000000 % 256) as u8,
        ((x as nat) / 0x1000000 % 256) as u8,
        ((x as nat) / 0x10000 % 256) as u8,
        ((x as nat) / 0x100 % 256) as u8,
        ((x as nat) % 256) as u8,
    ]
}

/// The instant denoted by eight big-endian bytes.
pub open spec fn be64_value(b: Seq<u8>) -> nat {
    (b[0] as nat) * 0x100000000000000 + (b[1] as nat) * 0x1000000000000 + (b[2] as nat)
        * 0x10000000000 + (b[3] as nat) * 0x100000000 + (b[4] as nat) * 0x1000000 + (b[5] as nat)
        * 0x10000 + (b[6] as nat) * 0x100 + (b[7] as nat)
}

/// Appends the eight big-endian bytes of an instant.
fn push_be64(out: &mut Vec<u8>, x: u64)
    ensures
        final(out)@ == old(out)@ + be64_bytes(x),
{
    let ghost pre = out@;
    out.push((x / 0x100000000000000) as u8);
    out.push(((x / 0x1000000000000) % 256) as u8);
    out.push(((x / 0x10000000000) % 256) as u8);
    out.push(((x / 0x100000000) % 256) as u8);
    out.push(((x / 0x1000000) % 256) as u8);
    out.push(((x / 0x10000) % 256) as u8);
    out.push(((x / 0x100) % 256) as u8);
    out.push((x % 256) as u8);
    proof {
        assert((x / 0x100000000000000) as u8 == ((x as nat) / 0x100000000000000 % 256) as u8);
        assert(out@ =~= pre + be64_bytes(x));
    }
}

/// Reads eight big-endian bytes at the given position.
fn read_be64(src: &Vec<u8>, pos: usize) -> (r: u64)
    requires
        pos + 8 <= src@.len(),
    ensures
        r == be64_value(src@.subrange(pos as int, pos + 8)),
{
    let n = src.len();
    let ghost b = src@;
    let r = src[pos] as u64 * 0x100000000000000 + src[pos + 1] as u64 * 0x1000000000000 + src[pos
        + 2] as u64 * 0x10000000000 + src[pos + 3] as u64 * 0x100000000 + src[pos + 4] as u64
        * 0x1000000 + src[pos + 5] as u64 * 0x10000 + src[pos + 6] as u64 * 0x100 + src[pos
        + 7] as u64;
    proof {
        let s = b.subrange(pos as int, pos + 8);
        assert(s[0] == b[pos as int]);
        assert(s[1] == b[pos + 1]);
        assert(s[2] == b[pos + 2]);
        assert(s[3] == b[pos + 3]);
        assert(s[4] == b[pos + 4]);
        assert(s[5] == b[pos + 5]);
        assert(s[6] == b[pos + 6]);
        assert(s[7] == b[pos + 7]);
    }
    r
}

/// The stored encoding of an allowance: the length-prefixed quantity
/// encoding, then a presence flag, then — when present — the big-endian
/// expiry instant.
pub open spec fn allowance_bytes(amount_enc: Seq<u8>, expires_at: Option<u64>) -> Seq<u8> {
    be32_bytes(amount_enc.len()) + amount_enc + match expires_at {
        None => seq![0u8],
        Some(e) => seq![1u8] + be64_bytes(e),
    }
}

/// A well-formed allowance encoding.
pub open spec fn valid_allowance_bytes(b: Seq<u8>) -> bool {
    &&& b.len() >= 5
    &&& {
        let al = be32_value(b[0], b[1], b[2], b[3]);
        &&& 5 + al <= b.len()
        &&& crate::amount::valid_amount_bytes(b.subrange(4, 4 + al as int))
        &&& (b[4 + al as int] == 0 || b[4 + al as int] == 1)
        &&& (b[4 + al as int] == 0 ==> b.len() == 5 + al)
        &&& (b[4 + al as int] == 1 ==> b.len() == 13 + al)
    }
}

/// The quantity segment of a well-formed allowance encoding.
pub open spec fn allowance_amount_seg(b: Seq<u8>) -> Seq<u8> {
    b.subrange(4, 4 + be32_value(b[0], b[1], b[2], b[3]) as int)
}

/// The expiry of a well-formed allowance encoding.
pub open spec fn decoded_allowance_expiry(b: Seq<u8>) -> Option<u64> {
    let al = be32_value(b[0], b[1], b[2], b[3]);
    if b[4 + al as int] == 0 {
        None
    } else {
        Some(be64_value(b.subrange(5 + al as int, 13 + al as int)) as u64)
    }
}

impl Allowance {
    /// Writes the allowance in its stored form.
    pub fn to_bytes(&self) -> (r: Vec<u8>)
        requires
            self.allowance.encoded().len() <= u32::MAX,
        ensures
            r@ == allowance_bytes(self.allowance.encoded(), self.expires_at),
    {
        let enc = self.allowance.to_bytes();
        let mut out: Vec<u8> = Vec::new();
        push_be32(&mut out, enc.len() as u32);
        push_bytes(&mut out, &enc);
        match self.expires_at {
            None => {
                out.push(0u8);
                proof {
                    assert(out@ =~= allowance_bytes(self.allowance.encoded(), self.expires_at));
                }
            },
            Some(e) => {
                out.push(1u8);
                push_be64(&mut out, e);
                proof {
                    assert(out@ =~= allowance_bytes(self.allowance.encoded(), self.expires_at));
                }
            },
        }
        out
    }

    /// Reads an allowance back from its stored form. Exactly the
    /// well-formed encodings are accepted.
    pub fn from_bytes(bytes: &Vec<u8>) -> (r: Option<Allowance>)
        ensures
            r is Some <==> valid_allowance_bytes(bytes@),
            r matches Some(v) ==> {
                &&& v.allowance@ == Amount::decoded_value(allowance_amount_seg(bytes@))
                &&& v.allowance.encoded() == allowance_amount_seg(bytes@)
                &&& v.expires_at == decoded_allowance_expiry(bytes@)
            },
    {
        let n = bytes.len();
        if n < 5 {
            return None;
        }
        let al64 = read_be32(bytes, 0);
        if al64 > (n - 5) as u64 {
            return None;
        }
        let al = al64 as usize;
        let seg = copy_range(bytes, 4, 4 + al);
        let amount = match Amount::from_bytes(&seg) {
            Some(a) => a,
            None => {
                return None;
            },
        };
        let flag = bytes[4 + al];
        if flag == 0 {
            if n != 5 + al {
                return None;
            }
            Some(Allowance { allowance: amount, expires_at: None })
        } else if flag == 1 {
            if n - 5 - al != 8 {
                return None;
            }
            let e = read_be64(bytes, 5 + al);
            Some(Allowance { allowance: amount, expires_at: Some(e) })
        } else {
            None
        }
    }
}

/// The stored encoding of an (owner, spender) key: the two accounts'
/// encodings, each length-prefixed.
pub open spec fn pair_bytes(a1: Seq<u8>, a2: Seq<u8>) -> Seq<u8> {
    be32_bytes(a1.len()) + a1 + be32_bytes(a2.len()) + a2
}

/// A well-formed key encoding.
pub open spec fn valid_pair_bytes(b: Seq<u8>) -> bool {
    &&& b.len() >= 8
    &&& {
        let l1 = be32_value(b[0], b[1], b[2], b[3]);
        &&& 8 + l1 <= b.len()
        &&& {
            let l2 = be32_value(
                b[4 + l1 as int],
                b[5 + l1 as int],
                b[6 + l1 as int],
                b[7 + l1 as int],
            );
            &&& b.len() == 8 + l1 + l2
            &&& valid_account_bytes(b.subrange(4, 4 + l1 as int))
            &&& valid_account_bytes(b.subrange(8 + l1 as int, b.len() as int))
        }
    }
}

/// The first account segment of a well-formed key encoding.
pub open spec fn pair_first_seg(b: Seq<u8>) -> Seq<u8> {
    b.subrange(4, 4 + be32_value(b[0], b[1], b[2], b[3]) as int)
}

/// The second account segment of a well-formed key encoding.
pub open spec fn pair_second_seg(b: Seq<u8>) -> Seq<u8> {
    b.subrange(8 + be32_value(b[0], b[1], b[2], b[3]) as int, b.len() as int)
}

impl AccountPair {
    /// Writes the key in its stored form.
    pub fn to_bytes(&self) -> (r: Vec<u8>)
        requires
            self.0.owner@.len() <= u32::MAX,
            self.0@.subaccount matches Some(s) ==> s.len() <= u32::MAX,
            self.1.owner@.len() <= u32::MAX,
            self.1@.subaccount matches Some(s) ==> s.len() <= u32::MAX,
            account_bytes(self.0@).len() <= u32::MAX,
            account_bytes(self.1@).len() <= u32::MAX,
        ensures
            r@ == pair_bytes(account_bytes(self.0@), account_bytes(self.1@)),
    {
        let b1 = self.0.to_bytes();
        let b2 = self.1.to_bytes();
        let mut out: Vec<u8> = Vec::new();
        push_be32(&mut out, b1.len() as u32);
        push_bytes(&mut out, &b1);
        push_be32(&mut out, b2.len() as u32);
        push_bytes(&mut out, &b2);
        proof {
            assert(out@ =~= pair_bytes(account_bytes(self.0@), account_bytes(self.1@)));
        }
        out
    }

    /// Reads a key back from its stored form. Exactly the well-formed
    /// encodings are accepted.
    pub fn from_bytes(bytes: &Vec<u8>) -> (r: Option<AccountPair>)
        ensures
            r is Some <==> valid_pair_bytes(bytes@),
            r matches Some(p) ==> {
                &&& p.0@ == decoded_account(pair_first_seg(bytes@))
                &&& p.1@ == decoded_account(pair_second_seg(bytes@))
            },
    {
        let n = bytes.len();
        if n < 8 {
            return None;
        }
        let l1of = read_be32(bytes, 0);
        if l1of > (n - 8) as u64 {
            return None;
        }
        let l1 = l1of as usize;
        let seg1 = copy_range(bytes, 4, 4 + l1);
        let a1 = match Account::from_bytes(&seg1) {
            Some(a) => a,
            None => {
                return None;
            },
        };
        let l2of = read_be32(bytes, 4 + l1);
        if l2of != (n - 8 - l1) as u64 {
            return None;
        }
        let seg2 = copy_range(bytes, 8 + l1, n);
        let a2 = match Account::from_bytes(&seg2) {
            Some(a) => a,
            None => {
                return None;
            },
        };
        Some(AccountPair(a1, a2))
    }
}

/// The eight little-endian bytes of a log position.
pub open spec fn le64_bytes(x: u64) -> Seq<u8> {
    seq![
        ((x as nat) % 256) as u8,
        ((x as nat) / 0x100 % 256) as u8,
        ((x as nat) / 0x10000 % 256) as u8,
        ((x as nat) / 0x1000000 % 256) as u8,
        ((x as nat) / 0x100000000 % 256) as u8,
        ((x as nat) / 0x10000000000 % 256) as u8,
        ((x as nat) / 0x1000000000000 % 256) as u8,
        ((x as nat) / 0x100000000000000 % 256) as u8,
    ]
}

/// The position denoted by eight little-endian bytes.
pub open spec fn le64_value(b: Seq<u8>) -> nat {
    (b[0] as nat) + (b[1] as nat) * 0x100 + (b[2] as nat) * 0x10000 + (b[3] as nat) * 0x1000000 + (
    b[4] as nat) * 0x100000000 + (b[5] as nat) * 0x10000000000 + (b[6] as nat) * 0x1000000000000 + (
    b[7] as nat) * 0x100000000000000
}

/// Reading eight little-endian bytes undoes writing them.
pub proof fn lemma_le64_round(x: u64)
    ensures
        le64_value(le64_bytes(x)) == x,
{
    let n = x as int;
    vstd::arithmetic::div_mod::lemma_fundamental_div_mod(n, 256);
    vstd::arithmetic::div_mod::lemma_fundamental_div_mod(n / 0x100, 256);
    vstd::arithmetic::div_mod::lemma_fundamental_div_mod(n / 0x10000, 256);
    vstd::arithmetic::div_mod::lemma_fundamental_div_mod(n / 0x1000000, 256);
    vstd::arithmetic::div_mod::lemma_fundamental_div_mod(n / 0x100000000, 256);
    vstd::arithmetic::div_mod::lemma_fundamental_div_mod(n / 0x10000000000, 256);
    vstd::arithmetic::div_mod::lemma_fundamental_div_mod(n / 0x1000000000000, 256);
    assert(n / 0x100 / 256 == n / 0x10000) by (nonlinear_arith);
    assert(n / 0x10000 / 256 == n / 0x1000000) by (nonlinear_arith);
    assert(n / 0x1000000 / 256 == n / 0x100000000) by (nonlinear_arith);
    assert(n / 0x100000000 / 256 == n / 0x10000000000) by (nonlinear_arith);
    assert(n / 0x10000000000 / 256 == n / 0x1000000000000) by (nonlinear_arith);
    assert(n / 0x1000000000000 / 256 == n / 0x100000000000000) by (nonlinear_arith);
    assert(n / 0x100000000000000 < 256);
}

impl StableBlockIndex {
    /// Writes the position as eight little-endian bytes.
    pub fn to_bytes(&self) -> (r: Vec<u8>)
        ensures
            r@ == le64_bytes(self.0),
            le64_value(r@) == self.0,
    {
        let x = self.0;
        let mut out: Vec<u8> = Vec::new();
        out.push((x % 256) as u8);
        out.push(((x / 0x100) % 256) as u8);
        out.push(((x / 0x10000) % 256) as u8);
        out.push(((x / 0x1000000) % 256) as u8);
        out.push(((x / 0x100000000) % 256) as u8);
        out.push(((x / 0x10000000000) % 256) as u8);
        out.push(((x / 0x1000000000000) % 256) as u8);
        out.push((x / 0x100000000000000) as u8);
        proof {
            assert((x / 0x100000000000000) as u8 == ((x as nat) / 0x100000000000000 % 256) as u8);
            assert(out@ =~= le64_bytes(x));
            lemma_le64_round(x);
        }
        out
    }

    /// Reads a position back: the first eight bytes, little-endian; any
    /// shorter input denotes position zero.
    pub fn from_bytes(bytes: &Vec<u8>) -> (r: Self)
        ensures
            r.0 == if bytes@.len() >= 8 {
                le64_value(bytes@.subrange(0, 8))
            } else {
                0
            },
    {
        if bytes.len() >= 8 {
            let mut v: u64 = bytes[0] as u64;
            v = v + bytes[1] as u64 * 0x100;
            v = v + bytes[2] as u64 * 0x10000;
            v = v + bytes[3] as u64 * 0x1000000;
            v = v + bytes[4] as u64 * 0x100000000;
            v = v + bytes[5] as u64 * 0x10000000000;
            v = v + bytes[6] as u64 * 0x1000000000000;
            v = v + bytes[7] as u64 * 0x100000000000000;
            proof {
                let s = bytes@.subrange(0, 8);
                assert(s[0] == bytes@[0]);
                assert(s[1] == bytes@[1]);
                assert(s[2] == bytes@[2]);
                assert(s[3] == bytes@[3]);
                assert(s[4] == bytes@[4]);
                assert(s[5] == bytes@[5]);
                assert(s[6] == bytes@[6]);
                assert(s[7] == bytes@[7]);
            }
            StableBlockIndex(v)
        } else {
            StableBlockIndex(0)
        }
    }
}

} // verus!
