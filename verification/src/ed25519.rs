//! Trusted interface to the Ed25519 prime-order group of `dalek-ff-group`
//! and the canonical codec of `ciphersuite`, plus the round-trip laws the
//! codec obeys.

use vstd::prelude::*;

verus! {

#[verifier::external_type_specification]
#[verifier::external_body]
pub struct ExEdwardsPoint(dalek_ff_group::EdwardsPoint);

#[verifier::external_type_specification]
#[verifier::external_body]
pub struct ExScalar(dalek_ff_group::Scalar);

/// The canonical 32-byte encoding of a point, as `GroupEncoding::to_bytes`
/// computes it: a function of the point alone.
pub uninterp spec fn point_repr(p: dalek_ff_group::EdwardsPoint) -> Seq<u8>;

/// The canonical 32-byte little-endian encoding of a scalar, as
/// `PrimeField::to_repr` computes it: a function of the scalar alone.
pub uninterp spec fn scalar_repr(s: dalek_ff_group::Scalar) -> Seq<u8>;

/// The group sum of two points, as `Add::add` computes it.
pub uninterp spec fn ed_add(
    a: dalek_ff_group::EdwardsPoint,
    b: dalek_ff_group::EdwardsPoint,
) -> dalek_ff_group::EdwardsPoint;

/// The group difference of two points, as `Sub::sub` computes it.
pub uninterp spec fn ed_sub(
    a: dalek_ff_group::EdwardsPoint,
    b: dalek_ff_group::EdwardsPoint,
) -> dalek_ff_group::EdwardsPoint;

/// The scalar multiple of a point, as `Mul::mul` computes it.
pub uninterp spec fn ed_mul(
    s: dalek_ff_group::Scalar,
    p: dalek_ff_group::EdwardsPoint,
) -> dalek_ff_group::EdwardsPoint;

/// The scalar a 64-byte little-endian integer reduces to, as
/// `Scalar::from_bytes_mod_order_wide` computes it: a function of the
/// bytes alone.
pub uninterp spec fn sc_wide(bytes: Seq<u8>) -> dalek_ff_group::Scalar;

/// The field sum of two scalars, as `Add::add` of
/// `dalek_ff_group::Scalar` computes it.
pub uninterp spec fn sc_add(
    a: dalek_ff_group::Scalar,
    b: dalek_ff_group::Scalar,
) -> dalek_ff_group::Scalar;

/// The order of the Ed25519 scalar field:
/// 2^252 + 27742317777372353535851937790883648493.
pub open spec fn group_order() -> nat {
    0x1000000000000000000000000000000014def9dea2f79cd65812631a5cf5d3ednat
}

/// A byte sequence read as a little-endian integer.
pub open spec fn le_val(bytes: Seq<u8>) -> nat
    decreases bytes.len(),
{
    if bytes.len() == 0 {
        0
    } else {
        (bytes[0] + 256 * le_val(bytes.skip(1))) as nat
    }
}

/// The integer a scalar stands for: the little-endian value of its
/// canonical encoding, always below `group_order`.
pub open spec fn scalar_val(s: dalek_ff_group::Scalar) -> nat {
    le_val(scalar_repr(s))
}

/// A 32-byte block padded with 32 zero bytes, the form the cycle-scalar
/// projection reduces.
pub open spec fn pad64(b: Seq<u8>) -> Seq<u8> {
    b + Seq::new(32, |i: int| 0u8)
}

/// The scalar a point projects to on the cycle partner: the wide
/// reduction of its padded canonical encoding.
pub open spec fn cycle_scalar_of(p: dalek_ff_group::EdwardsPoint) -> dalek_ff_group::Scalar {
    sc_wide(pad64(point_repr(p)))
}

/// Whether some point of the prime-order subgroup has this canonical
/// encoding.
pub open spec fn point_decodable(b: Seq<u8>) -> bool {
    exists|q: dalek_ff_group::EdwardsPoint| point_repr(q) == b
}

/// A byte run that splits into 32-byte blocks, each the canonical
/// encoding of some point.
pub open spec fn chunks_decodable(b: Seq<u8>) -> bool {
    &&& b.len() % 32 == 0
    &&& forall|k: int|
        0 <= k < b.len() / 32 ==> point_decodable(#[trigger] b.subrange(32 * k, 32 * k + 32))
}

/// Laying two runs of decodable 32-byte blocks back to back yields a run
/// of decodable blocks again.
pub proof fn lemma_chunks_decodable_concat(a: Seq<u8>, b: Seq<u8>)
    requires
        chunks_decodable(a),
        chunks_decodable(b),
    ensures
        chunks_decodable(a + b),
{
    let c = a + b;
    let al = a.len() as int;
    let bl = b.len() as int;
    assert(c.len() == al + bl);
    assert(al == 32 * (al / 32)) by {
        vstd::arithmetic::div_mod::lemma_fundamental_div_mod(al, 32);
    }
    assert(bl == 32 * (bl / 32)) by {
        vstd::arithmetic::div_mod::lemma_fundamental_div_mod(bl, 32);
    }
    assert(c.len() % 32 == 0) by (nonlinear_arith)
        requires
            c.len() == al + bl,
            al == 32 * (al / 32),
            bl == 32 * (bl / 32),
    ;
    assert((al + bl) / 32 == al / 32 + bl / 32) by (nonlinear_arith)
        requires
            al == 32 * (al / 32),
            bl == 32 * (bl / 32),
    ;
    assert forall|k: int| 0 <= k < c.len() / 32 implies point_decodable(
        #[trigger] c.subrange(32 * k, 32 * k + 32),
    ) by {
        if k < al / 32 {
            assert(32 * k + 32 <= al) by (nonlinear_arith)
                requires
                    k + 1 <= al / 32,
                    al == 32 * (al / 32),
            ;
            assert(c.subrange(32 * k, 32 * k + 32) =~= a.subrange(32 * k, 32 * k + 32));
            assert(point_decodable(a.subrange(32 * k, 32 * k + 32)));
        } else {
            let k2 = k - al / 32;
            assert(0 <= k2 < bl / 32);
            assert(32 * k == al + 32 * k2) by (nonlinear_arith)
                requires
                    k == k2 + al / 32,
                    al == 32 * (al / 32),
            ;
            assert(32 * k2 + 32 <= bl) by (nonlinear_arith)
                requires
                    k2 + 1 <= bl / 32,
                    bl == 32 * (bl / 32),
            ;
            assert(c.subrange(32 * k, 32 * k + 32) =~= b.subrange(32 * k2, 32 * k2 + 32));
            assert(point_decodable(b.subrange(32 * k2, 32 * k2 + 32)));
        }
    }
}

/// The canonical encoding of the group identity: one, then thirty-one
/// zero bytes.
pub open spec fn identity_repr() -> Seq<u8> {
    Seq::new(32, |i: int| if i == 0 { 1u8 } else { 0u8 })
}

/// Relies on `GroupEncoding::to_bytes` of `dalek_ff_group::EdwardsPoint`:
/// the canonical 32-byte compressed encoding of the point.
#[verifier::external_body]
pub fn point_to_bytes(p: &dalek_ff_group::EdwardsPoint) -> (r: [u8; 32])
    ensures
        r@ == point_repr(*p),
{
    <dalek_ff_group::EdwardsPoint as ciphersuite::group::GroupEncoding>::to_bytes(p)
}

/// Relies on `Ciphersuite::read_G` for `Ed25519`: decodes exactly the
/// canonical encodings of the prime-order subgroup's points (it re-encodes
/// the decoded point and compares), and `dalek-ff-group` only ever yields
/// points of that subgroup.
#[verifier::external_body]
pub fn point_from_bytes(bytes: &[u8]) -> (r: Option<dalek_ff_group::EdwardsPoint>)
    requires
        bytes@.len() == 32,
    ensures
        forall|q: dalek_ff_group::EdwardsPoint| point_repr(q) == bytes@ ==> r == Some(q),
        r matches Some(p) ==> point_repr(p) == bytes@ && point_repr(p).len() == 32,
        (r is None) <==> (forall|q: dalek_ff_group::EdwardsPoint| point_repr(q) != bytes@),
{
    let mut slice: &[u8] = bytes;
    match <ciphersuite::Ed25519 as ciphersuite::Ciphersuite>::read_G(&mut slice) {
        Ok(p) => Some(p),
        Err(_) => None,
    }
}

/// Relies on `PrimeField::to_repr` of `dalek_ff_group::Scalar`: the
/// canonical little-endian encoding, below the group order and distinct
/// for distinct scalars (the last clause: no other scalar shares it).
#[verifier::external_body]
pub fn scalar_to_bytes(s: &dalek_ff_group::Scalar) -> (r: [u8; 32])
    ensures
        r@ == scalar_repr(*s),
        le_val(r@) < group_order(),
        forall|t: dalek_ff_group::Scalar| scalar_repr(t) == r@ ==> t == *s,
{
    <dalek_ff_group::Scalar as ciphersuite::group::ff::PrimeField>::to_repr(s)
}

/// Relies on `Ciphersuite::read_F` for `Ed25519`: accepts exactly the
/// canonical encodings, the little-endian values below the group order.
#[verifier::external_body]
pub fn scalar_from_bytes(bytes: &[u8]) -> (r: Option<dalek_ff_group::Scalar>)
    requires
        bytes@.len() == 32,
    ensures
        forall|t: dalek_ff_group::Scalar| scalar_repr(t) == bytes@ ==> r == Some(t),
        r matches Some(s) ==> scalar_repr(s) == bytes@ && scalar_repr(s).len() == 32,
        (r is Some) <==> le_val(bytes@) < group_order(),
{
    let mut slice: &[u8] = bytes;
    match <ciphersuite::Ed25519 as ciphersuite::Ciphersuite>::read_F(&mut slice) {
        Ok(s) => Some(s),
        Err(_) => None,
    }
}

/// Relies on `Scalar::from_bytes_mod_order_wide`: wide reduction of a
/// 64-byte little-endian integer modulo the group order.
#[verifier::external_body]
pub fn scalar_from_wide_bytes(bytes: &[u8]) -> (r: dalek_ff_group::Scalar)
    requires
        bytes@.len() == 64,
    ensures
        r == sc_wide(bytes@),
        scalar_val(r) == le_val(bytes@) % group_order(),
        scalar_repr(r).len() == 32,
{
    let mut wide = [0u8; 64];
    wide.copy_from_slice(bytes);
    dalek_ff_group::Scalar::from_bytes_mod_order_wide(&wide)
}

/// Relies on `Add::add` of `dalek_ff_group::Scalar`: field addition
/// modulo the group order.
#[verifier::external_body]
pub fn scalar_add(
    a: &dalek_ff_group::Scalar,
    b: &dalek_ff_group::Scalar,
) -> (r: dalek_ff_group::Scalar)
    ensures
        r == sc_add(*a, *b),
        scalar_val(r) == (scalar_val(*a) + scalar_val(*b)) % group_order(),
        scalar_repr(r).len() == 32,
{
    *a + *b
}

/// Relies on `Sub::sub` of `dalek_ff_group::Scalar`: field subtraction
/// modulo the group order.
#[verifier::external_body]
pub fn scalar_sub(
    a: &dalek_ff_group::Scalar,
    b: &dalek_ff_group::Scalar,
) -> (r: dalek_ff_group::Scalar)
    ensures
        scalar_val(r) as int == (scalar_val(*a) as int - scalar_val(*b) as int)
            % (group_order() as int),
        scalar_repr(r).len() == 32,
{
    *a - *b
}

/// Relies on `Field::ZERO` of `dalek_ff_group::Scalar`: the additive
/// identity of the field, which encodes as zero.
#[verifier::external_body]
pub fn scalar_zero() -> (r: dalek_ff_group::Scalar)
    ensures
        scalar_val(r) == 0,
        scalar_repr(r).len() == 32,
{
    <dalek_ff_group::Scalar as ciphersuite::group::ff::Field>::ZERO
}

/// Relies on `Field::random` of `dalek_ff_group::Scalar` over the
/// operating system's generator: an unpredictable scalar, of which only
/// canonicity holds of every outcome.
#[verifier::external_body]
pub fn scalar_random() -> (r: dalek_ff_group::Scalar)
    ensures
        scalar_val(r) < group_order(),
        scalar_repr(r).len() == 32,
{
    <dalek_ff_group::Scalar as ciphersuite::group::ff::Field>::random(&mut rand_core::OsRng)
}

/// Relies on `Add::add` of `dalek_ff_group::EdwardsPoint`, the group law
/// of the prime-order subgroup: the second clause is the group fact that
/// subtracting `b` from `a + b` yields `a` again.
#[verifier::external_body]
pub fn point_add(
    a: &dalek_ff_group::EdwardsPoint,
    b: &dalek_ff_group::EdwardsPoint,
) -> (r: dalek_ff_group::EdwardsPoint)
    ensures
        r == ed_add(*a, *b),
        ed_sub(r, *b) == *a,
        point_repr(r).len() == 32,
{
    *a + *b
}

/// Relies on `Sub::sub` of `dalek_ff_group::EdwardsPoint`, the inverse of
/// the group law: the second clause is the group fact that adding `b`
/// back onto `a - b` yields `a` again.
#[verifier::external_body]
pub fn point_sub(
    a: &dalek_ff_group::EdwardsPoint,
    b: &dalek_ff_group::EdwardsPoint,
) -> (r: dalek_ff_group::EdwardsPoint)
    ensures
        r == ed_sub(*a, *b),
        ed_add(r, *b) == *a,
        point_repr(r).len() == 32,
{
    *a - *b
}

/// Relies on `Mul::mul` of `dalek_ff_group::EdwardsPoint` by a scalar.
/// The last clause is the prime-order-group fact (`EdwardsPoint`
/// implements `PrimeGroup`): a multiple of a non-identity point by a
/// scalar that is non-zero below the group order is not the identity.
#[verifier::external_body]
pub fn point_mul(
    s: &dalek_ff_group::Scalar,
    p: &dalek_ff_group::EdwardsPoint,
) -> (r: dalek_ff_group::EdwardsPoint)
    ensures
        r == ed_mul(*s, *p),
        point_repr(r).len() == 32,
        (scalar_val(*s) != 0 && scalar_val(*s) < group_order() && point_repr(*p)
            != identity_repr()) ==> point_repr(r) != identity_repr(),
{
    *p * *s
}

/// Relies on `PartialEq::eq` of `dalek_ff_group::EdwardsPoint`, which
/// compares the points themselves (constant-time equality of their
/// canonical forms).
#[verifier::external_body]
pub fn point_eq(
    a: &dalek_ff_group::EdwardsPoint,
    b: &dalek_ff_group::EdwardsPoint,
) -> (r: bool)
    ensures
        r <==> *a == *b,
{
    *a == *b
}

/// Relies on `Group::is_identity` of `dalek_ff_group::EdwardsPoint`; the
/// identity is the one point whose canonical encoding is one followed by
/// thirty-one zero bytes.
#[verifier::external_body]
pub fn point_is_identity(p: &dalek_ff_group::EdwardsPoint) -> (r: bool)
    ensures
        r <==> point_repr(*p) == identity_repr(),
{
    bool::from(<dalek_ff_group::EdwardsPoint as ciphersuite::group::Group>::is_identity(p))
}

/// A sequence of zero bytes stands for the integer zero.
pub proof fn lemma_le_val_zeros(t: Seq<u8>)
    requires
        forall|i: int| 0 <= i < t.len() ==> t[i] == 0,
    ensures
        le_val(t) == 0,
    decreases t.len(),
{
    if t.len() > 0 {
        lemma_le_val_zeros(t.skip(1));
    }
}

/// Appending zero bytes to a little-endian integer leaves its value as it
/// was.
pub proof fn lemma_le_val_zero_extend(s: Seq<u8>, t: Seq<u8>)
    requires
        forall|i: int| 0 <= i < t.len() ==> t[i] == 0,
    ensures
        le_val(s + t) == le_val(s),
    decreases s.len(),
{
    if s.len() == 0 {
        assert(s + t =~= t);
        lemma_le_val_zeros(t);
    } else {
        assert((s + t).skip(1) =~= s.skip(1) + t);
        lemma_le_val_zero_extend(s.skip(1), t);
    }
}

/// Project a point into the scalar field of the cycle partner. This
/// instantiation stands in for an affine x-coordinate on a cycle curve:
/// it reduces the point's canonical encoding modulo the group order,
/// which is injective enough for tree addressing and total on every
/// non-identity point. Fails on the identity, the one point with no
/// defined affine representation.
pub fn point_to_cycle_scalar(p: &dalek_ff_group::EdwardsPoint) -> (r: Result<
    dalek_ff_group::Scalar,
    crate::FcmpError,
>)
    ensures
        r is Err <==> point_repr(*p) == identity_repr(),
        r matches Err(e) ==> e == crate::FcmpError::ProjectionError,
        r matches Ok(s) ==> s == cycle_scalar_of(*p) && scalar_val(s) == le_val(point_repr(*p))
            % group_order(),
{
    if point_is_identity(p) {
        return Err(crate::FcmpError::ProjectionError);
    }
    let bytes = point_to_bytes(p);
    let mut wide: Vec<u8> = Vec::new();
    let mut i: usize = 0;
    while i < 32
        invariant
            i <= 32,
            wide@ == bytes@.subrange(0, i as int),
        decreases 32 - i,
    {
        wide.push(bytes[i]);
        assert(wide@ == bytes@.subrange(0, i + 1 as int));
        i = i + 1;
    }
    assert(bytes@.subrange(0, 32) =~= bytes@);
    let mut j: usize = 0;
    while j < 32
        invariant
            j <= 32,
            wide@.len() == 32 + j,
            wide@.subrange(0, 32) =~= bytes@,
            forall|k: int| 32 <= k < wide@.len() ==> wide@[k] == 0,
        decreases 32 - j,
    {
        wide.push(0u8);
        j = j + 1;
    }
    proof {
        assert(wide@ =~= bytes@ + wide@.subrange(32, 64));
        assert(wide@ =~= pad64(point_repr(*p)));
        lemma_le_val_zero_extend(bytes@, wide@.subrange(32, 64));
    }
    Ok(scalar_from_wide_bytes(wide.as_slice()))
}

/// Whether two 32-byte blocks hold the same bytes.
pub fn bytes32_eq(a: &[u8; 32], b: &[u8; 32]) -> (r: bool)
    ensures
        r <==> a@ == b@,
{
    let mut i: usize = 0;
    while i < 32
        invariant
            i <= 32,
            forall|j: int| 0 <= j < i ==> a@[j] == b@[j],
        decreases 32 - i,
    {
        if a[i] != b[i] {
            return false;
        }
        i = i + 1;
    }
    proof {
        assert(a@ =~= b@);
    }
    true
}

/// Round trip: decoding the encoding of a point yields that point again,
/// for every point, and the encoding is exactly 32 bytes.
pub fn point_roundtrip(p: &dalek_ff_group::EdwardsPoint) -> (r: (
    [u8; 32],
    Option<dalek_ff_group::EdwardsPoint>,
))
    ensures
        r.0@ == point_repr(*p),
        r.1 == Some(*p),
{
    let bytes = point_to_bytes(p);
    let back = point_from_bytes(bytes.as_slice());
    (bytes, back)
}

/// Round trip: decoding the encoding of a scalar yields that scalar
/// again, for every scalar, and the encoding is exactly 32 bytes.
pub fn scalar_roundtrip(s: &dalek_ff_group::Scalar) -> (r: (
    [u8; 32],
    Option<dalek_ff_group::Scalar>,
))
    ensures
        r.0@ == scalar_repr(*s),
        r.1 == Some(*s),
{
    let bytes = scalar_to_bytes(s);
    let back = scalar_from_bytes(bytes.as_slice());
    (bytes, back)
}

} // verus!
