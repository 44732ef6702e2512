//! The scalar field and the three pairing groups, backed by `zeropool_bn`.
//!
//! A value of each type holds the outside element and, as ghost state, its
//! exponent: for `Scalar` the field value, for `G1Elem` and `G2Elem` the discrete log
//! with respect to the group's generator, and for `GtElem` the discrete log with
//! respect to `e(G1Elem::one(), G2Elem::one())`. All exponents lie in `[0, order())`.
use vstd::prelude::*;
use vstd::arithmetic::div_mod::*;
use vstd::arithmetic::mul::*;

verus! {

/// The prime order shared by the scalar field and the three groups.
pub open spec fn order() -> int {
    21888242871839275222246405745257275088548364400416034343698204186575808495617int
}

/// Reduction of an integer into `[0, order())`.
pub open spec fn md(a: int) -> int {
    a % order()
}

pub proof fn lemma_md_range(a: int)
    ensures
        0 <= md(a) < order(),
{
    lemma_mod_bound(a, order());
}

pub proof fn lemma_md_small(a: int)
    requires
        0 <= a < order(),
    ensures
        md(a) == a,
{
    lemma_small_mod(a as nat, order() as nat);
}

/// Reduction may be applied to either operand of a sum first.
pub proof fn lemma_md_add(a: int, b: int)
    ensures
        md(md(a) + b) == md(a + b),
        md(a + md(b)) == md(a + b),
        md(md(a) + md(b)) == md(a + b),
{
    lemma_add_mod_noop(a, b, order());
    lemma_add_mod_noop_right(a, b, order());
    lemma_mod_twice(a, order());
    lemma_mod_twice(b, order());
    lemma_add_mod_noop(md(a), b, order());
}

/// Reduction may be applied to either operand of a product first.
pub proof fn lemma_md_mul(a: int, b: int)
    ensures
        md(md(a) * b) == md(a * b),
        md(a * md(b)) == md(a * b),
        md(md(a) * md(b)) == md(a * b),
{
    lemma_mul_mod_noop_left(a, b, order());
    lemma_mul_mod_noop_right(a, b, order());
    lemma_mul_mod_noop(a, b, order());
}

/// Reduction may be applied to either operand of a difference first.
pub proof fn lemma_md_sub(a: int, b: int)
    ensures
        md(md(a) - b) == md(a - b),
        md(a - md(b)) == md(a - b),
        md(a + md(-b)) == md(a - b),
{
    lemma_sub_mod_noop(a, b, order());
    lemma_sub_mod_noop_right(a, b, order());
    lemma_mod_twice(a, order());
    lemma_mod_twice(b, order());
    lemma_sub_mod_noop(md(a), b, order());
    lemma_add_mod_noop_right(a, -b, order());
}

/// Adding a multiple of the order does not change the reduction.
pub proof fn lemma_md_shift(a: int, k: int)
    ensures
        md(a + k * order()) == md(a),
{
    lemma_mod_multiples_vanish(k, a, order());
    lemma_mul_is_commutative(k, order());
}

/// The integer that a byte string spells in big-endian order.
pub open spec fn be_int(b: Seq<u8>) -> int
    decreases b.len(),
{
    if b.len() == 0 {
        0
    } else {
        be_int(b.drop_last()) * 256 + b.last() as int
    }
}

#[verifier::external_type_specification]
#[verifier::external_body]
pub struct ExFr(zeropool_bn::Fr);

#[verifier::external_type_specification]
#[verifier::external_body]
pub struct ExG1(zeropool_bn::G1);

#[verifier::external_type_specification]
#[verifier::external_body]
pub struct ExG2(zeropool_bn::G2);

#[verifier::external_type_specification]
#[verifier::external_body]
pub struct ExGt(zeropool_bn::Gt);

#[verifier::external_type_specification]
#[verifier::external_body]
pub struct ExThreadRng(rand::rngs::ThreadRng);

/// An element of the scalar field; `val` is its value.
#[derive(Clone, Copy)]
pub struct Scalar {
    fr: zeropool_bn::Fr,
    pub val: Ghost<int>,
}

/// A point of G1; `log` is its discrete log with respect to `G1Elem::one()`.
#[derive(Clone, Copy)]
pub struct G1Elem {
    pt: zeropool_bn::G1,
    pub log: Ghost<int>,
}

/// A point of G2; `log` is its discrete log with respect to `G2Elem::one()`.
#[derive(Clone, Copy)]
pub struct G2Elem {
    pt: zeropool_bn::G2,
    pub log: Ghost<int>,
}

/// An element of the target group; `log` is its discrete log with respect to
/// `pairing(G1Elem::one(), G2Elem::one())`.
#[derive(Clone, Copy)]
pub struct GtElem {
    el: zeropool_bn::Gt,
    pub log: Ghost<int>,
}

impl View for Scalar {
    type V = int;

    closed spec fn view(&self) -> int {
        self.val@
    }
}

impl View for G1Elem {
    type V = int;

    closed spec fn view(&self) -> int {
        self.log@
    }
}

impl View for G2Elem {
    type V = int;

    closed spec fn view(&self) -> int {
        self.log@
    }
}

impl View for GtElem {
    type V = int;

    closed spec fn view(&self) -> int {
        self.log@
    }
}

impl Scalar {
    pub open spec fn wf(&self) -> bool {
        0 <= self@ < order()
    }
}

impl G1Elem {
    pub open spec fn wf(&self) -> bool {
        0 <= self@ < order()
    }
}

impl G2Elem {
    pub open spec fn wf(&self) -> bool {
        0 <= self@ < order()
    }
}

impl GtElem {
    pub open spec fn wf(&self) -> bool {
        0 <= self@ < order()
    }
}

/// A source of cryptographically secure randomness, owned by its caller.
pub struct SecureRng {
    rng: rand::rngs::ThreadRng,
}

impl SecureRng {
    /// Relies on rand::thread_rng: a handle on the thread's CSPRNG.
    #[verifier::external_body]
    pub(crate) fn bn_thread_rng() -> (r: SecureRng) {
        SecureRng { rng: rand::thread_rng() }
    }

    /// Relies on zeropool_bn::Fr::random: a value of the field.
    #[verifier::external_body]
    pub(crate) fn bn_scalar(&mut self) -> (r: Scalar)
        ensures
            r.wf(),
    {
        Scalar { fr: zeropool_bn::Fr::random(&mut self.rng), val: Ghost(vstd::pervasive::arbitrary()) }
    }

    /// Relies on zeropool_bn::G1::random: a point of G1.
    #[verifier::external_body]
    pub(crate) fn bn_g1(&mut self) -> (r: G1Elem)
        ensures
            r.wf(),
    {
        G1Elem { pt: <zeropool_bn::G1 as zeropool_bn::Group>::random(&mut self.rng), log: Ghost(vstd::pervasive::arbitrary()) }
    }

    /// Relies on zeropool_bn::G2::random: a point of G2.
    #[verifier::external_body]
    pub(crate) fn bn_g2(&mut self) -> (r: G2Elem)
        ensures
            r.wf(),
    {
        G2Elem { pt: <zeropool_bn::G2 as zeropool_bn::Group>::random(&mut self.rng), log: Ghost(vstd::pervasive::arbitrary()) }
    }

    /// The calling thread's cryptographically secure generator.
    pub fn new() -> SecureRng {
        Self::bn_thread_rng()
    }

    /// A uniformly drawn scalar.
    pub fn scalar(&mut self) -> (r: Scalar)
        ensures
            r.wf(),
    {
        self.bn_scalar()
    }

    /// A uniformly drawn point of G1.
    pub fn g1(&mut self) -> (r: G1Elem)
        ensures
            r.wf(),
    {
        self.bn_g1()
    }

    /// A uniformly drawn point of G2.
    pub fn g2(&mut self) -> (r: G2Elem)
        ensures
            r.wf(),
    {
        self.bn_g2()
    }
}

/// The SHA-256 digest of a byte string.
pub uninterp spec fn sha256_of(b: Seq<u8>) -> Seq<u8>;

/// The integer that a byte string spells in little-endian order.
pub open spec fn le_int(b: Seq<u8>) -> int
    decreases b.len(),
{
    if b.len() == 0 {
        0
    } else {
        b[0] as int + 256 * le_int(b.drop_first())
    }
}

/// The canonical encoding of the G2 point whose discrete log is `log`.
pub uninterp spec fn g2_bytes_of(log: int) -> Seq<u8>;

/// The canonical encoding of the G1 point whose discrete log is `log`.
pub uninterp spec fn g1_bytes_of(log: int) -> Seq<u8>;

/// Relies on sha2::Sha256::digest: a 32-byte digest that depends on the input alone.
#[verifier::external_body]
pub(crate) fn sha256(b: &[u8]) -> (r: Vec<u8>)
    ensures
        r@ == sha256_of(b@),
        r@.len() == 32,
{
    <sha2::Sha256 as sha2::Digest>::digest(b).to_vec()
}

/// Relies on zeropool_bn::pairing: the bilinear map, under which
/// `e(a·g1, b·g2) = e(g1, g2)^(a·b)`.
#[verifier::external_body]
pub(crate) fn bn_pairing(p: &G1Elem, q: &G2Elem) -> (r: GtElem)
    ensures
        r@ == md(p@ * q@),
{
    GtElem { el: zeropool_bn::pairing(p.pt, q.pt), log: Ghost(md(p@ * q@)) }
}

/// The pairing `e(p, q)`.
pub fn pairing(p: &G1Elem, q: &G2Elem) -> (r: GtElem)
    ensures
        r@ == md(p@ * q@),
{
    bn_pairing(p, q)
}

impl Scalar {
    /// Relies on zeropool_bn::Fr::new_mul_factor: the field element of value `x`.
    #[verifier::external_body]
    pub(crate) fn bn_from_u64(x: u64) -> (r: Scalar)
        ensures
            r@ == x as int,
    {
        Scalar { fr: zeropool_bn::Fr::new_mul_factor(zeropool_bn::arith::U256::from(x)), val: Ghost(x as int) }
    }

    /// Relies on zeropool_bn::arith::U256::from_slice and Fr::new_mul_factor:
    /// the big-endian integer of a 32-byte string, reduced into the field.
    #[verifier::external_body]
    pub(crate) fn from_digest(d: &Vec<u8>) -> (r: Scalar)
        requires
            d@.len() == 32,
        ensures
            r@ == md(be_int(d@)),
    {
        let u = zeropool_bn::arith::U256::from_slice(d.as_slice()).unwrap();
        Scalar { fr: zeropool_bn::Fr::new_mul_factor(u), val: Ghost(md(be_int(d@))) }
    }

    /// Relies on zeropool_bn::Fr's `+`.
    #[verifier::external_body]
    pub(crate) fn bn_add(&self, o: &Scalar) -> (r: Scalar)
        ensures
            r@ == md(self@ + o@),
    {
        Scalar { fr: self.fr + o.fr, val: Ghost(md(self@ + o@)) }
    }

    /// Relies on zeropool_bn::Fr's `*`.
    #[verifier::external_body]
    pub(crate) fn bn_mul(&self, o: &Scalar) -> (r: Scalar)
        ensures
            r@ == md(self@ * o@),
    {
        Scalar { fr: self.fr * o.fr, val: Ghost(md(self@ * o@)) }
    }

    /// Relies on zeropool_bn::Fr's unary `-`.
    #[verifier::external_body]
    pub(crate) fn bn_neg(&self) -> (r: Scalar)
        ensures
            r@ == md(-self@),
    {
        Scalar { fr: -self.fr, val: Ghost(md(-self@)) }
    }

    /// Relies on zeropool_bn::Fr's `==`, which compares reduced field elements.
    #[verifier::external_body]
    pub(crate) fn bn_equals(&self, o: &Scalar) -> (r: bool)
        ensures
            r == (self@ == o@),
    {
        self.fr == o.fr
    }

    /// Relies on zeropool_bn::Fr::into_u256: the value of the element as a
    /// `U256`, whose limb 0 holds its lowest 128 bits.
    #[verifier::external_body]
    pub(crate) fn bn_low_u128(&self) -> (r: u128)
        requires
            self.wf(),
        ensures
            r as int == self@ % 0x1_0000_0000_0000_0000_0000_0000_0000_0000int,
    {
        self.fr.into_u256().0[0]
    }

    /// Relies on zeropool_bn::Fr's BorshSerialize: the value as a `U256`,
    /// two 128-bit limbs, each little-endian, low limb first.
    #[verifier::external_body]
    pub(crate) fn bn_to_bytes(&self) -> (r: Vec<u8>)
        ensures
            le_int(r@) == self@,
            r@.len() == 32,
    {
        borsh::BorshSerialize::try_to_vec(&self.fr).unwrap()
    }

    /// The canonical encoding: the value in 32 little-endian bytes.
    pub fn to_bytes(&self) -> (r: Vec<u8>)
        ensures
            le_int(r@) == self@,
            r@.len() == 32,
    {
        self.bn_to_bytes()
    }

    /// The field element of value `x`.
    pub fn from_u64(x: u64) -> (r: Scalar)
        ensures
            r@ == x as int,
    {
        Self::bn_from_u64(x)
    }

    pub fn add(&self, o: &Scalar) -> (r: Scalar)
        ensures
            r@ == md(self@ + o@),
    {
        self.bn_add(o)
    }

    pub fn sub(&self, o: &Scalar) -> (r: Scalar)
        ensures
            r@ == md(self@ - o@),
    {
        let r = self.add(&o.neg());
        proof {
            lemma_md_sub(self@, o@);
        }
        r
    }

    pub fn mul(&self, o: &Scalar) -> (r: Scalar)
        ensures
            r@ == md(self@ * o@),
    {
        self.bn_mul(o)
    }

    pub fn neg(&self) -> (r: Scalar)
        ensures
            r@ == md(-self@),
    {
        self.bn_neg()
    }

    pub fn equals(&self, o: &Scalar) -> (r: bool)
        ensures
            r == (self@ == o@),
    {
        self.bn_equals(o)
    }
}

impl G1Elem {
    /// Relies on zeropool_bn::G1::one: the generator.
    #[verifier::external_body]
    pub(crate) fn bn_one() -> (r: G1Elem)
        ensures
            r@ == 1,
    {
        G1Elem { pt: <zeropool_bn::G1 as zeropool_bn::Group>::one(), log: Ghost(1) }
    }

    /// Relies on zeropool_bn::G1's `+`.
    #[verifier::external_body]
    pub(crate) fn bn_add(&self, o: &G1Elem) -> (r: G1Elem)
        ensures
            r@ == md(self@ + o@),
    {
        G1Elem { pt: self.pt + o.pt, log: Ghost(md(self@ + o@)) }
    }

    /// Relies on zeropool_bn::G1's unary `-`.
    #[verifier::external_body]
    pub(crate) fn bn_neg(&self) -> (r: G1Elem)
        ensures
            r@ == md(-self@),
    {
        G1Elem { pt: -self.pt, log: Ghost(md(-self@)) }
    }

    /// Relies on zeropool_bn::G1's `* Fr`: scalar multiplication.
    #[verifier::external_body]
    pub(crate) fn bn_mul(&self, k: &Scalar) -> (r: G1Elem)
        ensures
            r@ == md(self@ * k@),
    {
        G1Elem { pt: self.pt * k.fr, log: Ghost(md(self@ * k@)) }
    }

    /// Relies on zeropool_bn::G1's `==`, which compares points, not coordinates.
    #[verifier::external_body]
    pub(crate) fn bn_equals(&self, o: &G1Elem) -> (r: bool)
        ensures
            r == (self@ == o@),
    {
        self.pt == o.pt
    }

    /// Relies on zeropool_bn::G1's BorshSerialize: the affine coordinates of
    /// the point, each as 32 little-endian bytes, which depend on the point alone.
    #[verifier::external_body]
    pub(crate) fn bn_to_bytes(&self) -> (r: Vec<u8>)
        ensures
            r@ == g1_bytes_of(self@),
            r@.len() == 64,
    {
        borsh::BorshSerialize::try_to_vec(&self.pt).unwrap()
    }

    /// The generator of G1.
    pub fn one() -> (r: G1Elem)
        ensures
            r@ == 1,
    {
        Self::bn_one()
    }

    pub fn add(&self, o: &G1Elem) -> (r: G1Elem)
        ensures
            r@ == md(self@ + o@),
    {
        self.bn_add(o)
    }

    pub fn sub(&self, o: &G1Elem) -> (r: G1Elem)
        ensures
            r@ == md(self@ - o@),
    {
        let r = self.add(&o.neg());
        proof {
            lemma_md_sub(self@, o@);
        }
        r
    }

    pub fn neg(&self) -> (r: G1Elem)
        ensures
            r@ == md(-self@),
    {
        self.bn_neg()
    }

    pub fn mul(&self, k: &Scalar) -> (r: G1Elem)
        ensures
            r@ == md(self@ * k@),
    {
        self.bn_mul(k)
    }

    pub fn equals(&self, o: &G1Elem) -> (r: bool)
        ensures
            r == (self@ == o@),
    {
        self.bn_equals(o)
    }

    /// The canonical encoding of the point.
    pub fn to_bytes(&self) -> (r: Vec<u8>)
        ensures
            r@ == g1_bytes_of(self@),
            r@.len() == 64,
    {
        self.bn_to_bytes()
    }
}

impl G2Elem {
    /// Relies on zeropool_bn::G2::one: the generator.
    #[verifier::external_body]
    pub(crate) fn bn_one() -> (r: G2Elem)
        ensures
            r@ == 1,
    {
        G2Elem { pt: <zeropool_bn::G2 as zeropool_bn::Group>::one(), log: Ghost(1) }
    }

    /// Relies on zeropool_bn::G2's `+`.
    #[verifier::external_body]
    pub(crate) fn bn_add(&self, o: &G2Elem) -> (r: G2Elem)
        ensures
            r@ == md(self@ + o@),
    {
        G2Elem { pt: self.pt + o.pt, log: Ghost(md(self@ + o@)) }
    }

    /// Relies on zeropool_bn::G2's `* Fr`: scalar multiplication.
    #[verifier::external_body]
    pub(crate) fn bn_mul(&self, k: &Scalar) -> (r: G2Elem)
        ensures
            r@ == md(self@ * k@),
    {
        G2Elem { pt: self.pt * k.fr, log: Ghost(md(self@ * k@)) }
    }

    /// Relies on zeropool_bn::G2's `==`, which compares points, not coordinates.
    #[verifier::external_body]
    pub(crate) fn bn_equals(&self, o: &G2Elem) -> (r: bool)
        ensures
            r == (self@ == o@),
    {
        self.pt == o.pt
    }

    /// Relies on zeropool_bn::G2's BorshSerialize: the affine coordinates of
    /// the point, each two 32-byte field elements, which depend on the point alone.
    #[verifier::external_body]
    pub(crate) fn bn_to_bytes(&self) -> (r: Vec<u8>)
        ensures
            r@ == g2_bytes_of(self@),
            r@.len() == 128,
    {
        borsh::BorshSerialize::try_to_vec(&self.pt).unwrap()
    }

    /// The canonical encoding of the point.
    pub fn to_bytes(&self) -> (r: Vec<u8>)
        ensures
            r@ == g2_bytes_of(self@),
            r@.len() == 128,
    {
        self.bn_to_bytes()
    }

    /// The generator of G2.
    pub fn one() -> (r: G2Elem)
        ensures
            r@ == 1,
    {
        Self::bn_one()
    }

    pub fn add(&self, o: &G2Elem) -> (r: G2Elem)
        ensures
            r@ == md(self@ + o@),
    {
        self.bn_add(o)
    }

    pub fn mul(&self, k: &Scalar) -> (r: G2Elem)
        ensures
            r@ == md(self@ * k@),
    {
        self.bn_mul(k)
    }

    pub fn equals(&self, o: &G2Elem) -> (r: bool)
        ensures
            r == (self@ == o@),
    {
        self.bn_equals(o)
    }
}

impl GtElem {
    /// Relies on zeropool_bn::Gt::one: the neutral element.
    #[verifier::external_body]
    pub(crate) fn bn_one() -> (r: GtElem)
        ensures
            r@ == 0,
    {
        GtElem { el: zeropool_bn::Gt::one(), log: Ghost(0) }
    }

    /// Relies on zeropool_bn::Gt's `*`: the group operation.
    #[verifier::external_body]
    pub(crate) fn bn_mul(&self, o: &GtElem) -> (r: GtElem)
        ensures
            r@ == md(self@ + o@),
    {
        GtElem { el: self.el * o.el, log: Ghost(md(self@ + o@)) }
    }

    /// Relies on zeropool_bn::Gt::pow: exponentiation by a scalar.
    #[verifier::external_body]
    pub(crate) fn bn_pow(&self, k: &Scalar) -> (r: GtElem)
        ensures
            r@ == md(self@ * k@),
    {
        GtElem { el: self.el.pow(k.fr), log: Ghost(md(self@ * k@)) }
    }

    /// Relies on zeropool_bn::Gt::inverse, which fails only on the zero of the
    /// field, never on an element of the group.
    #[verifier::external_body]
    pub(crate) fn bn_inverse(&self) -> (r: Option<GtElem>)
        ensures
            r is Some,
            r.unwrap()@ == md(-self@),
    {
        self.el.inverse().map(|el| GtElem { el, log: Ghost(md(-self@)) })
    }

    /// Relies on zeropool_bn::Gt's `==`, which compares reduced field elements.
    #[verifier::external_body]
    pub(crate) fn bn_equals(&self, o: &GtElem) -> (r: bool)
        ensures
            r == (self@ == o@),
    {
        self.el == o.el
    }

    /// The neutral element of the target group.
    pub fn one() -> (r: GtElem)
        ensures
            r@ == 0,
    {
        Self::bn_one()
    }

    pub fn mul(&self, o: &GtElem) -> (r: GtElem)
        ensures
            r@ == md(self@ + o@),
    {
        self.bn_mul(o)
    }

    pub fn pow(&self, k: &Scalar) -> (r: GtElem)
        ensures
            r@ == md(self@ * k@),
    {
        self.bn_pow(k)
    }

    pub fn inverse(&self) -> (r: Option<GtElem>)
        ensures
            r is Some,
            r.unwrap()@ == md(-self@),
    {
        self.bn_inverse()
    }

    pub fn equals(&self, o: &GtElem) -> (r: bool)
        ensures
            r == (self@ == o@),
    {
        self.bn_equals(o)
    }
}

} // verus!

