use vstd::prelude::*;
use vstd::bytes::{spec_u64_from_le_bytes, spec_u64_to_le_bytes, u64_from_le_bytes, u64_to_le_bytes};
use vstd::slice::slice_subrange;
use vstd::arithmetic::div_mod::{lemma_fundamental_div_mod, lemma_fundamental_div_mod_converse};
use ark_ff::{BigInt, PrimeField};

verus! {

/// An element of the BN254 scalar field, held as the four little-endian
/// 64-bit limbs of its canonical integer representative.
#[derive(Clone, Copy, Debug, PartialEq, Eq, Structural)]
pub struct Fe {
    pub l0: u64,
    pub l1: u64,
    pub l2: u64,
    pub l3: u64,
}

/// A commitment to a private object.
pub type Com = Fe;

/// A nullifier: the one-time tag that consumes a committed object.
pub type Nul = Fe;

/// An epoch counter, compared as an integer.
pub type Time = Fe;

/// An identifier of a callback method.
pub type Id = Fe;

/// The limbs of the scalar field's modulus, least significant first.
pub const MODULUS_L0: u64 = 0x43e1f593f0000001;
pub const MODULUS_L1: u64 = 0x2833e84879b97091;
pub const MODULUS_L2: u64 = 0xb85045b68181585d;
pub const MODULUS_L3: u64 = 0x30644e72e131a029;

/// `a > b` on limb sequences of equal length compared from the most
/// significant limb: the order of the integers they represent.
pub open spec fn limbs_gt(a: (u64, u64, u64, u64), b: (u64, u64, u64, u64)) -> bool {
    if a.3 != b.3 {
        a.3 > b.3
    } else if a.2 != b.2 {
        a.2 > b.2
    } else if a.1 != b.1 {
        a.1 > b.1
    } else {
        a.0 > b.0
    }
}

/// `a > b` on field elements, viewing them as integers in `0..p`.
pub open spec fn fe_gt(a: Fe, b: Fe) -> bool {
    limbs_gt(a.limbs(), b.limbs())
}

/// The encoding of a field element: 32 bytes, little-endian.
pub open spec fn fe_bytes(x: Fe) -> Seq<u8> {
    spec_u64_to_le_bytes(x.l0) + spec_u64_to_le_bytes(x.l1) + spec_u64_to_le_bytes(x.l2)
        + spec_u64_to_le_bytes(x.l3)
}

/// The element whose encoding is the 32 bytes `b`.
pub open spec fn fe_from_bytes(b: Seq<u8>) -> Fe {
    Fe {
        l0: spec_u64_from_le_bytes(b.subrange(0, 8)),
        l1: spec_u64_from_le_bytes(b.subrange(8, 16)),
        l2: spec_u64_from_le_bytes(b.subrange(16, 24)),
        l3: spec_u64_from_le_bytes(b.subrange(24, 32)),
    }
}

/// Decoding an encoding gives the element back, and every 32 bytes are the
/// encoding of what they decode to.
pub proof fn lemma_fe_bytes_round_trip(x: Fe, b: Seq<u8>)
    ensures
        fe_bytes(x).len() == 32,
        fe_from_bytes(fe_bytes(x)) == x,
        b.len() == 32 ==> fe_bytes(fe_from_bytes(b)) == b,
{
    vstd::bytes::lemma_auto_spec_u64_to_from_le_bytes();
    let e = fe_bytes(x);
    assert(e.subrange(0, 8) =~= spec_u64_to_le_bytes(x.l0));
    assert(e.subrange(8, 16) =~= spec_u64_to_le_bytes(x.l1));
    assert(e.subrange(16, 24) =~= spec_u64_to_le_bytes(x.l2));
    assert(e.subrange(24, 32) =~= spec_u64_to_le_bytes(x.l3));
    if b.len() == 32 {
        let y = fe_from_bytes(b);
        assert(spec_u64_to_le_bytes(spec_u64_from_le_bytes(b.subrange(0, 8))) == b.subrange(0, 8));
        assert(spec_u64_to_le_bytes(spec_u64_from_le_bytes(b.subrange(8, 16))) == b.subrange(8, 16));
        assert(spec_u64_to_le_bytes(spec_u64_from_le_bytes(b.subrange(16, 24))) == b.subrange(16, 24));
        assert(spec_u64_to_le_bytes(spec_u64_from_le_bytes(b.subrange(24, 32))) == b.subrange(24, 32));
        assert(fe_bytes(y) =~= b);
    }
}

/// Two to the 64th: the base of the limbs.
pub open spec fn limb_base() -> nat {
    u64::MAX as nat + 1
}

/// The integer that the limbs represent.
pub open spec fn fe_value(x: Fe) -> nat {
    x.l0 as nat + limb_base() * (x.l1 as nat + limb_base() * (x.l2 as nat + limb_base() * (
    x.l3 as nat)))
}

/// The modulus of the scalar field.
pub open spec fn modulus() -> nat {
    fe_value(Fe { l0: MODULUS_L0, l1: MODULUS_L1, l2: MODULUS_L2, l3: MODULUS_L3 })
}

/// The element whose limbs represent `n`, for `n` below two to the 256th.
pub open spec fn fe_of_nat(n: nat) -> Fe {
    Fe {
        l0: (n % limb_base()) as u64,
        l1: ((n / limb_base()) % limb_base()) as u64,
        l2: ((n / limb_base() / limb_base()) % limb_base()) as u64,
        l3: ((n / limb_base() / limb_base() / limb_base()) % limb_base()) as u64,
    }
}

impl View for Fe {
    type V = Seq<u64>;

    open spec fn view(&self) -> Seq<u64> {
        seq![self.l0, self.l1, self.l2, self.l3]
    }
}

impl Fe {
    pub open spec fn limbs(self) -> (u64, u64, u64, u64) {
        (self.l0, self.l1, self.l2, self.l3)
    }

    /// The element whose limbs are `s` (the first four of them).
    pub open spec fn from_limbs(s: Seq<u64>) -> Fe {
        Fe { l0: s[0], l1: s[1], l2: s[2], l3: s[3] }
    }

    /// The limbs are those of an integer below the modulus.
    pub open spec fn wf(self) -> bool {
        limbs_gt((MODULUS_L0, MODULUS_L1, MODULUS_L2, MODULUS_L3), self.limbs())
    }

    pub open spec fn spec_zero() -> Fe {
        Fe { l0: 0, l1: 0, l2: 0, l3: 0 }
    }

    pub open spec fn spec_from_u64(n: u64) -> Fe {
        Fe { l0: n, l1: 0, l2: 0, l3: 0 }
    }

    pub open spec fn spec_from_bool(b: bool) -> Fe {
        Fe::spec_from_u64(if b { 1 } else { 0 })
    }

    /// `self - o` modulo the field's modulus.
    pub open spec fn spec_sub(self, o: Fe) -> Fe {
        fe_of_nat(((fe_value(self) - fe_value(o)) % (modulus() as int)) as nat)
    }

    /// `self + o` modulo the field's modulus.
    pub open spec fn spec_add(self, o: Fe) -> Fe {
        fe_of_nat((fe_value(self) + fe_value(o)) % modulus())
    }

    pub proof fn lemma_view_roundtrip(self)
        ensures
            Fe::from_limbs(self@) == self,
            self@.len() == 4,
    {
    }

    pub fn zero() -> (r: Fe)
        ensures
            r == Fe::spec_zero(),
            r.wf(),
    {
        Fe { l0: 0, l1: 0, l2: 0, l3: 0 }
    }

    /// The element `n`, for any 64-bit `n` (all of them lie below the modulus).
    pub fn from_u64(n: u64) -> (r: Fe)
        ensures
            r == Fe::spec_from_u64(n),
            r.wf(),
    {
        Fe { l0: n, l1: 0, l2: 0, l3: 0 }
    }

    /// One for `true`, zero for `false`.
    pub fn from_bool(b: bool) -> (r: Fe)
        ensures
            r == Fe::spec_from_bool(b),
            r.wf(),
    {
        if b {
            Fe::from_u64(1)
        } else {
            Fe::from_u64(0)
        }
    }

    /// The limbs are those of an integer below the modulus.
    pub fn is_canonical(&self) -> (r: bool)
        ensures
            r == self.wf(),
    {
        let m = Fe { l0: MODULUS_L0, l1: MODULUS_L1, l2: MODULUS_L2, l3: MODULUS_L3 };
        m.gt(self)
    }

    /// Integer comparison of canonical representatives: `self > other`.
    pub fn gt(&self, other: &Fe) -> (r: bool)
        ensures
            r == fe_gt(*self, *other),
    {
        if self.l3 != other.l3 {
            self.l3 > other.l3
        } else if self.l2 != other.l2 {
            self.l2 > other.l2
        } else if self.l1 != other.l1 {
            self.l1 > other.l1
        } else {
            self.l0 > other.l0
        }
    }

    /// The 32-byte little-endian encoding.
    pub fn to_bytes(&self) -> (r: Vec<u8>)
        ensures
            r@ == fe_bytes(*self),
            r@.len() == 32,
    {
        proof {
            vstd::bytes::lemma_auto_spec_u64_to_from_le_bytes();
        }
        let mut out = u64_to_le_bytes(self.l0);
        let mut b1 = u64_to_le_bytes(self.l1);
        let mut b2 = u64_to_le_bytes(self.l2);
        let mut b3 = u64_to_le_bytes(self.l3);
        out.append(&mut b1);
        out.append(&mut b2);
        out.append(&mut b3);
        out
    }

    /// Decodes the 32 bytes of `b` from `start` on.
    pub fn from_bytes(b: &[u8], start: usize) -> (r: Fe)
        requires
            start + 32 <= b@.len(),
        ensures
            r == fe_from_bytes(b@.subrange(start as int, start + 32)),
    {
        let ghost s = b@.subrange(start as int, start + 32);
        let n = b.len();
        assert(start + 32 <= n);
        let l0 = u64_from_le_bytes(slice_subrange(b, start, start + 8));
        let l1 = u64_from_le_bytes(slice_subrange(b, start + 8, start + 16));
        let l2 = u64_from_le_bytes(slice_subrange(b, start + 16, start + 24));
        let l3 = u64_from_le_bytes(slice_subrange(b, start + 24, start + 32));
        proof {
            assert(s.subrange(0, 8) =~= b@.subrange(start as int, start + 8));
            assert(s.subrange(8, 16) =~= b@.subrange(start + 8, start + 16));
            assert(s.subrange(16, 24) =~= b@.subrange(start + 16, start + 24));
            assert(s.subrange(24, 32) =~= b@.subrange(start + 24, start + 32));
        }
        Fe { l0, l1, l2, l3 }
    }

    /// Field subtraction `self - o`.
    pub fn sub(&self, o: &Fe) -> (r: Fe)
        requires
            self.wf(),
            o.wf(),
        ensures
            r == self.spec_sub(*o),
            r.wf(),
    {
        field_sub(self, o)
    }

    /// Field addition `self + o`.
    pub fn add(&self, o: &Fe) -> (r: Fe)
        requires
            self.wf(),
            o.wf(),
        ensures
            r == self.spec_add(*o),
            r.wf(),
    {
        field_add(self, o)
    }
}

proof fn lemma_limb_step(la: int, lb: int, ha: int, hb: int)
    requires
        0 <= la < limb_base(),
        0 <= lb < limb_base(),
        ha >= hb + 1,
    ensures
        la + limb_base() * ha >= lb + limb_base() * hb + 1,
{
    let b = limb_base() as int;
    assert(b * ha >= b * hb + b) by (nonlinear_arith)
        requires
            ha >= hb + 1,
            b > 0,
    ;
}

/// Comparing limbs from the most significant one compares the represented
/// integers.
pub proof fn lemma_gt_is_value_gt(a: Fe, b: Fe)
    ensures
        fe_gt(a, b) ==> fe_value(a) > fe_value(b),
{
    let bb = limb_base() as int;
    let ha2 = a.l2 as int + bb * a.l3;
    let hb2 = b.l2 as int + bb * b.l3;
    let ha1 = a.l1 as int + bb * ha2;
    let hb1 = b.l1 as int + bb * hb2;
    if fe_gt(a, b) {
        if a.l3 != b.l3 {
            lemma_limb_step(a.l2 as int, b.l2 as int, a.l3 as int, b.l3 as int);
            lemma_limb_step(a.l1 as int, b.l1 as int, ha2, hb2);
            lemma_limb_step(a.l0 as int, b.l0 as int, ha1, hb1);
        } else if a.l2 != b.l2 {
            lemma_limb_step(a.l1 as int, b.l1 as int, ha2, hb2);
            lemma_limb_step(a.l0 as int, b.l0 as int, ha1, hb1);
        } else if a.l1 != b.l1 {
            lemma_limb_step(a.l0 as int, b.l0 as int, ha1, hb1);
        }
    }
}

/// The limbs of the integer that an element represents are its own limbs.
pub proof fn lemma_of_value(x: Fe)
    ensures
        fe_of_nat(fe_value(x)) == x,
{
    let bb = limb_base() as int;
    let v = fe_value(x) as int;
    let h2 = x.l2 as int + bb * x.l3;
    let h1 = x.l1 as int + bb * h2;
    lemma_fundamental_div_mod_converse(v, bb, h1, x.l0 as int);
    lemma_fundamental_div_mod_converse(h1, bb, h2, x.l1 as int);
    assert(h2 == x.l3 as int * bb + x.l2 as int) by (nonlinear_arith)
        requires
            h2 == x.l2 as int + bb * x.l3,
    ;
    lemma_fundamental_div_mod_converse(h2, bb, x.l3 as int, x.l2 as int);
    lemma_fundamental_div_mod_converse(x.l3 as int, bb, 0, x.l3 as int);
}

/// An integer below the modulus is the value of its limbs.
pub proof fn lemma_value_of(n: nat)
    requires
        n < modulus(),
    ensures
        fe_value(fe_of_nat(n)) == n,
{
    let bb = limb_base() as int;
    let m = Fe { l0: MODULUS_L0, l1: MODULUS_L1, l2: MODULUS_L2, l3: MODULUS_L3 };
    let top = bb * (bb * (bb * bb));
    assert(modulus() < top) by {
        assert(fe_value(m) < bb * (bb * (bb * bb))) by (nonlinear_arith)
            requires
                fe_value(m) == m.l0 as int + bb * (m.l1 as int + bb * (m.l2 as int + bb * m.l3 as int)),
                0 <= m.l0 < bb,
                0 <= m.l1 < bb,
                0 <= m.l2 < bb,
                0 <= m.l3 < bb,
        ;
    }
    let q1 = n as int / bb;
    let q2 = q1 / bb;
    let q3 = q2 / bb;
    lemma_fundamental_div_mod(n as int, bb);
    lemma_fundamental_div_mod(q1, bb);
    lemma_fundamental_div_mod(q2, bb);
    assert(q3 < bb) by (nonlinear_arith)
        requires
            n as int == bb * q1 + n as int % bb,
            q1 == bb * q2 + q1 % bb,
            q2 == bb * q3 + q2 % bb,
            0 <= n as int % bb,
            0 <= q1 % bb,
            0 <= q2 % bb,
            n < top,
            top == bb * (bb * (bb * bb)),
            bb > 0,
    ;
    lemma_fundamental_div_mod_converse(q3, bb, 0, q3);
}

/// Adding `k` and subtracting it again gives back `m`: decrypting what a
/// ticket key encrypted gives the message back.
pub proof fn lemma_add_sub_round_trip(m: Fe, k: Fe)
    requires
        m.wf(),
        k.wf(),
    ensures
        m.spec_add(k).spec_sub(k) == m,
{
    let md = Fe { l0: MODULUS_L0, l1: MODULUS_L1, l2: MODULUS_L2, l3: MODULUS_L3 };
    lemma_gt_is_value_gt(md, m);
    lemma_gt_is_value_gt(md, k);
    let p = modulus() as int;
    let vm = fe_value(m) as int;
    let vk = fe_value(k) as int;
    let s = (vm + vk) % p;
    if vm + vk < p {
        lemma_fundamental_div_mod_converse(vm + vk, p, 0, vm + vk);
    } else {
        lemma_fundamental_div_mod_converse(vm + vk, p, 1, vm + vk - p);
    }
    lemma_value_of(s as nat);
    if vm + vk < p {
        lemma_fundamental_div_mod_converse(s - vk, p, 0, vm);
    } else {
        lemma_fundamental_div_mod_converse(s - vk, p, -1, vm);
    }
    lemma_of_value(m);
}

/// Relies on `ark_ff`'s `Sub` for the BN254 scalar field: the difference of
/// the represented integers modulo the modulus, whose canonical limbs
/// `into_bigint` returns. `from_bigint` returns `Some` below the modulus.
#[verifier::external_body]
fn field_sub(a: &Fe, b: &Fe) -> (r: Fe)
    requires
        a.wf(),
        b.wf(),
    ensures
        r == a.spec_sub(*b),
        r.wf(),
{
    let x = ark_bn254::Fr::from_bigint(BigInt::new([a.l0, a.l1, a.l2, a.l3])).unwrap();
    let y = ark_bn254::Fr::from_bigint(BigInt::new([b.l0, b.l1, b.l2, b.l3])).unwrap();
    let [l0, l1, l2, l3] = (x - y).into_bigint().0;
    Fe { l0, l1, l2, l3 }
}

/// Relies on `ark_ff`'s `Add` for the BN254 scalar field: the sum of the
/// represented integers modulo the modulus, whose canonical limbs
/// `into_bigint` returns. `from_bigint` returns `Some` below the modulus.
#[verifier::external_body]
fn field_add(a: &Fe, b: &Fe) -> (r: Fe)
    requires
        a.wf(),
        b.wf(),
    ensures
        r == a.spec_add(*b),
        r.wf(),
{
    let x = ark_bn254::Fr::from_bigint(BigInt::new([a.l0, a.l1, a.l2, a.l3])).unwrap();
    let y = ark_bn254::Fr::from_bigint(BigInt::new([b.l0, b.l1, b.l2, b.l3])).unwrap();
    let [l0, l1, l2, l3] = (x + y).into_bigint().0;
    Fe { l0, l1, l2, l3 }
}

} // verus!
