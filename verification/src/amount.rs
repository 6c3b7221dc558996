//! Arbitrary-precision unsigned token quantities.
//!
//! An `Amount` is a little-endian sequence of base-2^32 limbs in canonical
//! form (no trailing zero limb). All ledger arithmetic routes through the
//! exact operations here; subtraction below zero is reported, never wrapped.
use vstd::prelude::*;

verus! {

/// 2^(32 * n): the weight of the limb at position n.
pub open spec fn pow32(n: nat) -> nat
    decreases n,
{
    if n == 0 {
        1
    } else {
        0x1_0000_0000 * pow32((n - 1) as nat)
    }
}

/// The limb at position i, where positions past the end weigh zero.
pub open spec fn limb_at(s: Seq<u32>, i: nat) -> u32 {
    if i < s.len() {
        s[i as int]
    } else {
        0
    }
}

/// Value of the first i limb positions of s.
pub open spec fn val_upto(s: Seq<u32>, i: nat) -> nat
    decreases i,
{
    if i == 0 {
        0
    } else {
        val_upto(s, (i - 1) as nat) + (limb_at(s, (i - 1) as nat) as nat) * pow32((i - 1) as nat)
    }
}

/// Mathematical value of a little-endian limb sequence.
pub open spec fn limbs_value(s: Seq<u32>) -> nat {
    val_upto(s, s.len())
}

/// Canonical form: no trailing zero limb, so zero is the empty sequence.
pub open spec fn canonical(s: Seq<u32>) -> bool {
    s.len() == 0 || s.last() != 0
}

pub proof fn lemma_pow32_pos(n: nat)
    ensures
        pow32(n) >= 1,
    decreases n,
{
    if n > 0 {
        lemma_pow32_pos((n - 1) as nat);
    }
}

/// Sequences that agree on their first i limb positions have equal values there.
pub proof fn lemma_val_upto_agree(s: Seq<u32>, t: Seq<u32>, i: nat)
    requires
        forall|k: nat| k < i ==> limb_at(s, k) == limb_at(t, k),
    ensures
        val_upto(s, i) == val_upto(t, i),
    decreases i,
{
    if i > 0 {
        lemma_val_upto_agree(s, t, (i - 1) as nat);
    }
}

/// Positions at or past the end contribute nothing.
pub proof fn lemma_val_upto_past_len(s: Seq<u32>, i: nat)
    requires
        i >= s.len(),
    ensures
        val_upto(s, i) == limbs_value(s),
    decreases i,
{
    if i > s.len() {
        let j = (i - 1) as nat;
        lemma_val_upto_past_len(s, j);
        assert(limb_at(s, j) == 0);
        assert((limb_at(s, j) as nat) * pow32(j) == 0) by (nonlinear_arith)
            requires
                limb_at(s, j) == 0,
        {
        }
        assert(val_upto(s, i) == val_upto(s, j) + (limb_at(s, j) as nat) * pow32(j));
    }
}

/// Appending a limb adds its weighted value.
pub proof fn lemma_value_push(s: Seq<u32>, x: u32)
    ensures
        limbs_value(s.push(x)) == limbs_value(s) + x * pow32(s.len()),
{
    let t = s.push(x);
    assert(forall|k: nat| k < s.len() ==> limb_at(t, k) == limb_at(s, k));
    lemma_val_upto_agree(t, s, s.len());
    assert(val_upto(t, t.len()) == val_upto(t, s.len()) + limb_at(t, s.len()) * pow32(s.len()));
}

/// The value of i limb positions is below the weight of position i.
pub proof fn lemma_val_upto_bound(s: Seq<u32>, i: nat)
    ensures
        val_upto(s, i) < pow32(i),
    decreases i,
{
    if i == 0 {
    } else {
        let j = (i - 1) as nat;
        lemma_val_upto_bound(s, j);
        let l = limb_at(s, j) as nat;
        let p = pow32(j);
        assert(val_upto(s, i) == val_upto(s, j) + l * p);
        assert(val_upto(s, j) + l * p < 0x1_0000_0000 * p) by (nonlinear_arith)
            requires
                val_upto(s, j) < p,
                l < 0x1_0000_0000,
        {
        }
    }
}

/// A canonical, nonempty sequence has a value at least the weight of its last limb.
pub proof fn lemma_canonical_lower_bound(s: Seq<u32>)
    requires
        canonical(s),
        s.len() > 0,
    ensures
        limbs_value(s) >= pow32((s.len() - 1) as nat),
{
    let j = (s.len() - 1) as nat;
    let l = limb_at(s, j) as nat;
    let p = pow32(j);
    assert(limbs_value(s) == val_upto(s, j) + l * p);
    assert(l >= 1);
    assert(l * p >= p) by (nonlinear_arith)
        requires
            l >= 1,
            p >= 0,
    {
    }
}

/// The value of a single limb is that limb.
pub proof fn lemma_value_single(s: Seq<u32>)
    requires
        s.len() == 1,
    ensures
        limbs_value(s) == s[0],
{
    reveal_with_fuel(val_upto, 3);
    reveal_with_fuel(pow32, 3);
    assert(pow32(0) == 1);
    assert(val_upto(s, 0) == 0);
    assert(limb_at(s, 0) == s[0]);
    assert(val_upto(s, 1) == val_upto(s, 0) + (limb_at(s, 0) as nat) * pow32(0));
    assert((limb_at(s, 0) as nat) * pow32(0) == limb_at(s, 0));
}

/// The value of a two-limb sequence.
pub proof fn lemma_value_double(s: Seq<u32>)
    requires
        s.len() == 2,
    ensures
        limbs_value(s) == s[0] + (s[1] as nat) * 0x1_0000_0000,
{
    reveal_with_fuel(val_upto, 3);
    reveal_with_fuel(pow32, 2);
    assert(pow32(1) == 0x1_0000_0000 * pow32(0));
    assert(val_upto(s, 1) == val_upto(s, 0) + (limb_at(s, 0) as nat) * pow32(0));
    assert((limb_at(s, 0) as nat) * pow32(0) == limb_at(s, 0));
    assert(val_upto(s, 2) == val_upto(s, 1) + (limb_at(s, 1) as nat) * pow32(1));
    assert((limb_at(s, 1) as nat) * pow32(1) == (s[1] as nat) * 0x1_0000_0000);
}

/// An arbitrary-precision nonnegative token quantity.
#[derive(Debug)]
pub struct Amount {
    limbs: Vec<u32>,
}

impl View for Amount {
    type V = nat;

    closed spec fn view(&self) -> nat {
        limbs_value(self.limbs@)
    }
}

impl Amount {
    #[verifier::type_invariant]
    spec fn inv(&self) -> bool {
        canonical(self.limbs@)
    }

    /// The zero quantity.
    pub fn zero() -> (r: Amount)
        ensures
            r@ == 0,
    {
        Amount { limbs: Vec::new() }
    }

    /// The quantity equal to the given machine integer.
    pub fn from_u64(v: u64) -> (r: Amount)
        ensures
            r@ == v,
    {
        let lo: u32 = (v % 0x1_0000_0000) as u32;
        let hi: u32 = (v / 0x1_0000_0000) as u32;
        proof {
            vstd::arithmetic::div_mod::lemma_fundamental_div_mod(v as int, 0x1_0000_0000);
        }
        let mut limbs: Vec<u32> = Vec::new();
        if hi != 0 {
            limbs.push(lo);
            limbs.push(hi);
            proof {
                lemma_value_double(limbs@);
            }
            Amount { limbs }
        } else if lo != 0 {
            limbs.push(lo);
            proof {
                lemma_value_single(limbs@);
            }
            Amount { limbs }
        } else {
            proof {
                reveal_with_fuel(val_upto, 1);
            }
            Amount { limbs }
        }
    }

    /// The machine integer equal to this quantity, where one exists.
    pub fn to_u64(&self) -> (r: Option<u64>)
        ensures
            match r {
                Some(x) => self@ == x,
                None => self@ > u64::MAX,
            },
    {
        proof {
            use_type_invariant(self);
        }
        if self.limbs.len() == 0 {
            proof {
                reveal_with_fuel(val_upto, 1);
            }
            Some(0u64)
        } else if self.limbs.len() == 1 {
            let lo = self.limbs[0];
            proof {
                lemma_value_single(self.limbs@);
            }
            Some(lo as u64)
        } else if self.limbs.len() == 2 {
            let lo = self.limbs[0];
            let hi = self.limbs[1];
            proof {
                lemma_value_double(self.limbs@);
            }
            Some(lo as u64 + (hi as u64) * 0x1_0000_0000)
        } else {
            proof {
                lemma_canonical_lower_bound(self.limbs@);
                lemma_pow32_grows(self.limbs@.len() - 3);
            }
            None
        }
    }

    /// Whether this quantity is zero.
    pub fn is_zero(&self) -> (r: bool)
        ensures
            r == (self@ == 0),
    {
        proof {
            use_type_invariant(self);
            if self.limbs@.len() == 0 {
            } else {
                lemma_canonical_lower_bound(self.limbs@);
                lemma_pow32_pos((self.limbs@.len() - 1) as nat);
            }
        }
        self.limbs.len() == 0
    }
}

/// Dropping a trailing zero limb keeps the value.
pub proof fn lemma_value_drop_zero(s: Seq<u32>)
    requires
        s.len() > 0,
        s.last() == 0,
    ensures
        limbs_value(s) == limbs_value(s.drop_last()),
{
    let t = s.drop_last();
    assert(t.push(0u32) =~= s);
    lemma_value_push(t, 0u32);
    assert((0u32 as nat) * pow32(t.len()) == 0) by (nonlinear_arith) {
    }
}

impl Clone for Amount {
    /// Clones preserve the quantity exactly.
    fn clone(&self) -> (r: Self)
        ensures
            r@ == self@,
    {
        proof {
            use_type_invariant(self);
        }
        let limbs = self.limbs.clone();
        proof {
            assert(limbs@ =~= self.limbs@);
        }
        Amount { limbs }
    }
}

impl Amount {
    /// Removes trailing zero limbs, keeping the value.
    fn trim(v: Vec<u32>) -> (r: Vec<u32>)
        ensures
            limbs_value(r@) == limbs_value(v@),
            canonical(r@),
    {
        let mut out = v;
        while out.len() > 0 && out[out.len() - 1] == 0
            invariant
                limbs_value(out@) == limbs_value(v@),
            decreases out.len(),
        {
            proof {
                lemma_value_drop_zero(out@);
            }
            out.pop();
        }
        out
    }

    /// The exact sum of the two quantities.
    pub fn add(&self, other: &Amount) -> (r: Amount)
        ensures
            r@ == self@ + other@,
    {
        proof {
            use_type_invariant(self);
            use_type_invariant(other);
        }
        let a = &self.limbs;
        let b = &other.limbs;
        let n = if a.len() > b.len() {
            a.len()
        } else {
            b.len()
        };
        let mut out: Vec<u32> = Vec::new();
        let mut carry: u64 = 0;
        let mut i: usize = 0;
        while i < n
            invariant
                i <= n,
                n >= a@.len(),
                n >= b@.len(),
                n == a@.len() || n == b@.len(),
                out@.len() == i,
                carry <= 1,
                limbs_value(out@) + (carry as nat) * pow32(i as nat) == val_upto(a@, i as nat)
                    + val_upto(b@, i as nat),
            decreases n - i,
        {
            let av: u64 = if i < a.len() {
                a[i] as u64
            } else {
                0
            };
            let bv: u64 = if i < b.len() {
                b[i] as u64
            } else {
                0
            };
            let sum: u64 = av + bv + carry;
            let limb: u32 = (sum % 0x1_0000_0000) as u32;
            let new_carry: u64 = sum / 0x1_0000_0000;
            proof {
                let gi = i as nat;
                let gj = (i + 1) as nat;
                let p = pow32(gi);
                assert(pow32(gj) == 0x1_0000_0000 * p);
                vstd::arithmetic::div_mod::lemma_fundamental_div_mod(sum as int, 0x1_0000_0000);
                lemma_value_push(out@, limb);
                assert(val_upto(a@, gj) == val_upto(a@, gi) + (limb_at(a@, gi) as nat) * p);
                assert(val_upto(b@, gj) == val_upto(b@, gi) + (limb_at(b@, gi) as nat) * p);
                assert(limb_at(a@, gi) == av);
                assert(limb_at(b@, gi) == bv);
                assert(limbs_value(out@.push(limb)) + (new_carry as nat) * pow32(gj) == val_upto(
                    a@,
                    gj,
                ) + val_upto(b@, gj)) by (nonlinear_arith)
                    requires
                        limbs_value(out@.push(limb)) == limbs_value(out@) + (limb as nat) * p,
                        pow32(gj) == 0x1_0000_0000 * p,
                        sum == 0x1_0000_0000 * (new_carry as int) + limb,
                        sum == av + bv + carry,
                        limbs_value(out@) + (carry as nat) * p == val_upto(a@, gi) + val_upto(
                            b@,
                            gi,
                        ),
                        val_upto(a@, gj) == val_upto(a@, gi) + (av as nat) * p,
                        val_upto(b@, gj) == val_upto(b@, gi) + (bv as nat) * p,
                {
                }
            }
            out.push(limb);
            carry = new_carry;
            i += 1;
        }
        proof {
            lemma_val_upto_past_len(a@, n as nat);
            lemma_val_upto_past_len(b@, n as nat);
        }
        if carry > 0 {
            proof {
                lemma_value_push(out@, 1u32);
                assert((1u32 as nat) * pow32(out@.len()) == pow32(out@.len())) by (nonlinear_arith)
                {
                }
            }
            out.push(1u32);
            Amount { limbs: out }
        } else {
            let out = Self::trim(out);
            Amount { limbs: out }
        }
    }

    /// The exact difference, or `None` when the subtrahend exceeds this quantity.
    pub fn checked_sub(&self, other: &Amount) -> (r: Option<Amount>)
        ensures
            match r {
                Some(d) => self@ >= other@ && d@ == self@ - other@,
                None => self@ < other@,
            },
    {
        proof {
            use_type_invariant(self);
            use_type_invariant(other);
        }
        let a = &self.limbs;
        let b = &other.limbs;
        if b.len() > a.len() {
            proof {
                lemma_canonical_lower_bound(b@);
                lemma_val_upto_bound(a@, a@.len());
                lemma_pow32_increases(a@.len(), (b@.len() - 1) as nat);
            }
            return None;
        }
        let n = a.len();
        let mut out: Vec<u32> = Vec::new();
        let mut borrow: u64 = 0;
        let mut i: usize = 0;
        while i < n
            invariant
                i <= n,
                n == a@.len(),
                n >= b@.len(),
                out@.len() == i,
                borrow <= 1,
                limbs_value(out@) + val_upto(b@, i as nat) == val_upto(a@, i as nat) + (
                borrow as nat) * pow32(i as nat),
            decreases n - i,
        {
            let av: u64 = a[i] as u64;
            let bv: u64 = if i < b.len() {
                b[i] as u64
            } else {
                0
            };
            let need: u64 = bv + borrow;
            let limb: u32;
            let new_borrow: u64;
            if av >= need {
                limb = (av - need) as u32;
                new_borrow = 0;
            } else {
                limb = (av + 0x1_0000_0000 - need) as u32;
                new_borrow = 1;
            }
            proof {
                let gi = i as nat;
                let gj = (i + 1) as nat;
                let p = pow32(gi);
                assert(pow32(gj) == 0x1_0000_0000 * p);
                lemma_value_push(out@, limb);
                assert(val_upto(a@, gj) == val_upto(a@, gi) + (limb_at(a@, gi) as nat) * p);
                assert(val_upto(b@, gj) == val_upto(b@, gi) + (limb_at(b@, gi) as nat) * p);
                assert(limb_at(a@, gi) == av);
                assert(limb_at(b@, gi) == bv);
                assert(limbs_value(out@.push(limb)) + val_upto(b@, gj) == val_upto(a@, gj) + (
                new_borrow as nat) * pow32(gj)) by (nonlinear_arith)
                    requires
                        limbs_value(out@.push(limb)) == limbs_value(out@) + (limb as nat) * p,
                        pow32(gj) == 0x1_0000_0000 * p,
                        limb == av - bv - borrow + 0x1_0000_0000 * (new_borrow as int),
                        limbs_value(out@) + val_upto(b@, gi) == val_upto(a@, gi) + (borrow as nat)
                            * p,
                        val_upto(a@, gj) == val_upto(a@, gi) + (av as nat) * p,
                        val_upto(b@, gj) == val_upto(b@, gi) + (bv as nat) * p,
                {
                }
            }
            out.push(limb);
            borrow = new_borrow;
            i += 1;
        }
        proof {
            lemma_val_upto_past_len(b@, n as nat);
            assert(val_upto(a@, n as nat) == limbs_value(a@));
        }
        if borrow > 0 {
            proof {
                lemma_val_upto_bound(out@, out@.len());
                assert(val_upto(out@, out@.len()) == limbs_value(out@));
            }
            None
        } else {
            let out = Self::trim(out);
            Some(Amount { limbs: out })
        }
    }

    /// Whether this quantity is at most the other.
    pub fn le(&self, other: &Amount) -> (r: bool)
        ensures
            r == (self@ <= other@),
    {
        match other.checked_sub(self) {
            Some(_) => true,
            None => false,
        }
    }

    /// Whether this quantity is strictly below the other.
    pub fn lt(&self, other: &Amount) -> (r: bool)
        ensures
            r == (self@ < other@),
    {
        match other.checked_sub(self) {
            Some(d) => !d.is_zero(),
            None => false,
        }
    }

    /// Whether the two quantities are equal.
    pub fn eq_val(&self, other: &Amount) -> (r: bool)
        ensures
            r == (self@ == other@),
    {
        self.le(other) && other.le(self)
    }
}

/// The four little-endian bytes of one limb.
pub open spec fn le32_bytes(x: u32) -> Seq<u8> {
    seq![
        (x % 256) as u8,
        ((x / 256) % 256) as u8,
        ((x / 65536) % 256) as u8,
        ((x / 16777216) % 256) as u8,
    ]
}

/// The limb denoted by four little-endian bytes.
pub open spec fn le32_value(b0: u8, b1: u8, b2: u8, b3: u8) -> u32 {
    (b0 + b1 * 256 + b2 * 65536 + b3 * 16777216) as u32
}

/// The encoding of a limb sequence: four little-endian bytes per limb,
/// least significant limb first.
pub open spec fn limbs_bytes(s: Seq<u32>) -> Seq<u8>
    decreases s.len(),
{
    if s.len() == 0 {
        Seq::empty()
    } else {
        limbs_bytes(s.drop_last()) + le32_bytes(s.last())
    }
}

/// The limb sequence read back from an encoding, four bytes per limb.
pub open spec fn bytes_limbs(b: Seq<u8>) -> Seq<u32>
    decreases b.len(),
{
    if b.len() < 4 {
        Seq::empty()
    } else {
        bytes_limbs(b.take(b.len() - 4)).push(
            le32_value(b[b.len() - 4], b[b.len() - 3], b[b.len() - 2], b[b.len() - 1]),
        )
    }
}

/// A well-formed quantity encoding: whole limbs, in canonical form.
pub open spec fn valid_amount_bytes(b: Seq<u8>) -> bool {
    b.len() % 4 == 0 && canonical(bytes_limbs(b))
}

/// Reading four little-endian bytes undoes writing them.
pub proof fn lemma_le32_round(x: u32)
    ensures
        le32_value(
            (x % 256) as u8,
            ((x / 256) % 256) as u8,
            ((x / 65536) % 256) as u8,
            ((x / 16777216) % 256) as u8,
        ) == x,
{
    vstd::arithmetic::div_mod::lemma_fundamental_div_mod(x as int, 256);
    vstd::arithmetic::div_mod::lemma_fundamental_div_mod((x / 256) as int, 256);
    vstd::arithmetic::div_mod::lemma_fundamental_div_mod((x / 65536) as int, 256);
    assert(x / 256 / 256 == x / 65536) by (nonlinear_arith);
    assert(x / 65536 / 256 == x / 16777216) by (nonlinear_arith);
    assert(x / 16777216 < 256);
}

/// Reading an encoding undoes writing it, limb for limb.
pub proof fn lemma_limbs_bytes_round(s: Seq<u32>)
    ensures
        limbs_bytes(s).len() == 4 * s.len(),
        limbs_bytes(s).len() % 4 == 0,
        bytes_limbs(limbs_bytes(s)) =~= s,
    decreases s.len(),
{
    if s.len() > 0 {
        let t = s.drop_last();
        let x = s.last();
        lemma_limbs_bytes_round(t);
        let b = limbs_bytes(s);
        assert(b == limbs_bytes(t) + le32_bytes(x));
        assert(b.len() == 4 * s.len());
        assert(b.take(b.len() - 4) =~= limbs_bytes(t));
        assert(b[b.len() - 4] == (x % 256) as u8);
        assert(b[b.len() - 3] == ((x / 256) % 256) as u8);
        assert(b[b.len() - 2] == ((x / 65536) % 256) as u8);
        assert(b[b.len() - 1] == ((x / 16777216) % 256) as u8);
        lemma_le32_round(x);
        assert(bytes_limbs(b) == bytes_limbs(limbs_bytes(t)).push(x));
    }
}

/// Writing four little-endian bytes undoes reading them.
pub proof fn lemma_le32_bytes_round(b0: u8, b1: u8, b2: u8, b3: u8)
    ensures
        le32_bytes(le32_value(b0, b1, b2, b3)) =~= seq![b0, b1, b2, b3],
{
    let v = le32_value(b0, b1, b2, b3) as int;
    vstd::arithmetic::div_mod::lemma_fundamental_div_mod_converse(
        v,
        256,
        b1 + 256 * (b2 as int) + 65536 * (b3 as int),
        b0 as int,
    );
    vstd::arithmetic::div_mod::lemma_fundamental_div_mod_converse(
        v / 256,
        256,
        b2 + 256 * (b3 as int),
        b1 as int,
    );
    vstd::arithmetic::div_mod::lemma_fundamental_div_mod_converse(
        v / 65536,
        256,
        b3 as int,
        b2 as int,
    );
    assert(v / 256 / 256 == v / 65536) by (nonlinear_arith);
    assert(v / 65536 / 256 == v / 16777216) by (nonlinear_arith);
}

/// Writing the limbs read from a whole-limb encoding restores it.
pub proof fn lemma_bytes_limbs_round(b: Seq<u8>)
    requires
        b.len() % 4 == 0,
    ensures
        limbs_bytes(bytes_limbs(b)) =~= b,
    decreases b.len(),
{
    if b.len() >= 4 {
        let t = b.take(b.len() - 4);
        assert(t.len() % 4 == 0);
        lemma_bytes_limbs_round(t);
        let s = bytes_limbs(b);
        assert(s.drop_last() =~= bytes_limbs(t));
        lemma_le32_bytes_round(b[b.len() - 4], b[b.len() - 3], b[b.len() - 2], b[b.len() - 1]);
        assert(limbs_bytes(s) == limbs_bytes(bytes_limbs(t)) + le32_bytes(s.last()));
    }
}

impl Amount {
    /// The canonical byte encoding of this quantity.
    pub closed spec fn encoded(&self) -> Seq<u8> {
        limbs_bytes(self.limbs@)
    }

    /// The value denoted by a well-formed encoding.
    pub open spec fn decoded_value(b: Seq<u8>) -> nat {
        limbs_value(bytes_limbs(b))
    }

    /// Writes the quantity as four little-endian bytes per limb, least
    /// significant limb first.
    pub fn to_bytes(&self) -> (r: Vec<u8>)
        ensures
            r@ == self.encoded(),
            valid_amount_bytes(r@),
            Self::decoded_value(r@) == self@,
    {
        proof {
            use_type_invariant(self);
            lemma_limbs_bytes_round(self.limbs@);
        }
        let mut out: Vec<u8> = Vec::new();
        let mut i: usize = 0;
        while i < self.limbs.len()
            invariant
                i <= self.limbs@.len(),
                out@ == limbs_bytes(self.limbs@.take(i as int)),
            decreases self.limbs@.len() - i,
        {
            let ghost pre = self.limbs@.take(i as int);
            let x = self.limbs[i];
            out.push((x % 256) as u8);
            out.push(((x / 256) % 256) as u8);
            out.push(((x / 65536) % 256) as u8);
            out.push(((x / 16777216) % 256) as u8);
            proof {
                let cur = self.limbs@.take(i + 1 as int);
                assert(cur.drop_last() =~= pre);
                assert(cur.last() == x);
                assert(out@ =~= limbs_bytes(pre) + le32_bytes(x));
            }
            i += 1;
        }
        proof {
            assert(self.limbs@.take(self.limbs@.len() as int) =~= self.limbs@);
        }
        out
    }

    /// Reads a quantity back from its encoding. Rejects ragged lengths and
    /// non-canonical trailing zero limbs: exactly the well-formed
    /// encodings are accepted.
    pub fn from_bytes(bytes: &Vec<u8>) -> (r: Option<Amount>)
        ensures
            r is Some <==> valid_amount_bytes(bytes@),
            r matches Some(a) ==> {
                &&& a@ == Self::decoded_value(bytes@)
                &&& a.encoded() == bytes@
            },
    {
        let n = bytes.len();
        if n % 4 != 0 {
            return None;
        }
        let count = n / 4;
        let mut limbs: Vec<u32> = Vec::new();
        let mut i: usize = 0;
        while i < count
            invariant
                i <= count,
                count == bytes@.len() / 4,
                bytes@.len() % 4 == 0,
                bytes@.len() == n,
                limbs@ == bytes_limbs(bytes@.take(4 * i as int)),
                limbs@.len() == i,
            decreases count - i,
        {
            let ghost pre = bytes@.take(4 * i as int);
            let b0 = bytes[4 * i];
            let b1 = bytes[4 * i + 1];
            let b2 = bytes[4 * i + 2];
            let b3 = bytes[4 * i + 3];
            let limb: u32 = b0 as u32 + b1 as u32 * 256 + b2 as u32 * 65536 + b3 as u32
                * 16777216;
            limbs.push(limb);
            proof {
                let cur = bytes@.take(4 * (i + 1) as int);
                assert(cur.take(cur.len() - 4) =~= pre);
                assert(cur[cur.len() - 4] == b0);
                assert(cur[cur.len() - 3] == b1);
                assert(cur[cur.len() - 2] == b2);
                assert(cur[cur.len() - 1] == b3);
                assert(limb == le32_value(b0, b1, b2, b3));
                assert(bytes_limbs(cur) == bytes_limbs(pre).push(le32_value(b0, b1, b2, b3)));
            }
            i += 1;
        }
        proof {
            assert(bytes@.take(4 * (bytes@.len() / 4) as int) =~= bytes@);
        }
        if limbs.len() > 0 && limbs[limbs.len() - 1] == 0 {
            return None;
        }
        let a = Amount { limbs };
        proof {
            lemma_bytes_limbs_round(bytes@);
        }
        Some(a)
    }
}

/// Weights grow with the position.
pub proof fn lemma_pow32_increases(m: nat, n: nat)
    requires
        m <= n,
    ensures
        pow32(m) <= pow32(n),
    decreases n,
{
    if m < n {
        lemma_pow32_increases(m, (n - 1) as nat);
        assert(pow32(n) == 0x1_0000_0000 * pow32((n - 1) as nat));
        assert(0x1_0000_0000 * pow32((n - 1) as nat) >= pow32((n - 1) as nat))
            by (nonlinear_arith)
            requires
                pow32((n - 1) as nat) >= 0,
        {
        }
    }
}

/// Weights at position 2 or later exceed u64::MAX.
pub proof fn lemma_pow32_grows(n: int)
    requires
        n >= 0,
    ensures
        pow32((n + 2) as nat) > u64::MAX,
    decreases n,
{
    if n == 0 {
        reveal_with_fuel(pow32, 3);
        assert(pow32(2) == 0x1_0000_0000 * (0x1_0000_0000 * pow32(0)));
    } else {
        lemma_pow32_grows(n - 1);
        assert(pow32((n + 2) as nat) == 0x1_0000_0000 * pow32((n + 1) as nat));
        assert(0x1_0000_0000 * pow32((n + 1) as nat) >= pow32((n + 1) as nat)) by (nonlinear_arith)
            requires
                pow32((n + 1) as nat) >= 0,
        {
        }
    }
}

} // verus!
