//! Blinding commitments: each blinding scalar is committed under its fixed
//! generator before it enters a proof, and a degenerate (zero) scalar is
//! rejected. Branch blinds are drawn fresh per layer and per proof.

use vstd::prelude::*;

use crate::FcmpError;
use crate::ed25519::{
    ed_mul, group_order, le_val, point_mul, point_repr, scalar_random, scalar_repr,
    scalar_to_bytes, scalar_val,
};

verus! {

/// A little-endian integer is zero exactly when every byte is zero.
pub proof fn lemma_le_val_zero_iff(b: Seq<u8>)
    ensures
        le_val(b) == 0 <==> (forall|i: int| 0 <= i < b.len() ==> b[i] == 0),
    decreases b.len(),
{
    if b.len() > 0 {
        lemma_le_val_zero_iff(b.skip(1));
        if le_val(b) == 0 {
            assert forall|i: int| 0 <= i < b.len() implies b[i] == 0 by {
                if i > 0 {
                    assert(b[i] == b.skip(1)[i - 1]);
                }
            }
        } else {
            if forall|i: int| 0 <= i < b.len() ==> b[i] == 0 {
                assert forall|i: int| 0 <= i < b.skip(1).len() implies b.skip(1)[i] == 0 by {
                    assert(b.skip(1)[i] == b[i + 1]);
                }
            }
        }
    }
}

/// Whether a scalar is zero, decided on its canonical encoding.
pub fn scalar_is_zero(s: &dalek_ff_group::Scalar) -> (r: bool)
    ensures
        r <==> scalar_val(*s) == 0,
{
    let bytes = scalar_to_bytes(s);
    let mut i: usize = 0;
    let mut all_zero = true;
    while i < 32
        invariant
            i <= 32,
            bytes@ == scalar_repr(*s),
            all_zero <==> (forall|j: int| 0 <= j < i ==> bytes@[j] == 0),
        decreases 32 - i,
    {
        if bytes[i] != 0 {
            all_zero = false;
        }
        i = i + 1;
    }
    proof {
        lemma_le_val_zero_iff(bytes@);
    }
    all_zero
}

/// The output-key blind, committed under the generator `t`.
#[derive(Clone, Copy)]
pub struct OBlind {
    pub scalar: dalek_ff_group::Scalar,
    pub commitment: dalek_ff_group::EdwardsPoint,
}

/// The commitment blind, committed under the commitment generator `g`.
#[derive(Clone, Copy)]
pub struct CBlind {
    pub scalar: dalek_ff_group::Scalar,
    pub commitment: dalek_ff_group::EdwardsPoint,
}

/// The key-image blind, committed under the two generators `u` and `v`.
#[derive(Clone, Copy)]
pub struct IBlind {
    pub scalar: dalek_ff_group::Scalar,
    pub commitment_u: dalek_ff_group::EdwardsPoint,
    pub commitment_v: dalek_ff_group::EdwardsPoint,
}

/// The key-image-blind blind, committed under the generator `t`.
#[derive(Clone, Copy)]
pub struct IBlindBlind {
    pub scalar: dalek_ff_group::Scalar,
    pub commitment: dalek_ff_group::EdwardsPoint,
}

/// Commit the output blind under `t`. Fails on the degenerate zero
/// scalar, which the blinding proofs exclude.
pub fn blind_o_blind(
    o_blind: &dalek_ff_group::Scalar,
    t: &dalek_ff_group::EdwardsPoint,
) -> (r: Result<OBlind, FcmpError>)
    ensures
        r is Ok <==> scalar_val(*o_blind) != 0,
        r matches Err(e) ==> e == FcmpError::CryptographicError,
        r matches Ok(b) ==> b.scalar == *o_blind && b.commitment == ed_mul(*o_blind, *t),
{
    if scalar_is_zero(o_blind) {
        return Err(FcmpError::CryptographicError);
    }
    Ok(OBlind { scalar: *o_blind, commitment: point_mul(o_blind, t) })
}

/// Commit the commitment blind under `g`. Fails on the degenerate zero
/// scalar.
pub fn blind_c_blind(
    c_blind: &dalek_ff_group::Scalar,
    g: &dalek_ff_group::EdwardsPoint,
) -> (r: Result<CBlind, FcmpError>)
    ensures
        r is Ok <==> scalar_val(*c_blind) != 0,
        r matches Err(e) ==> e == FcmpError::CryptographicError,
        r matches Ok(b) ==> b.scalar == *c_blind && b.commitment == ed_mul(*c_blind, *g),
{
    if scalar_is_zero(c_blind) {
        return Err(FcmpError::CryptographicError);
    }
    Ok(CBlind { scalar: *c_blind, commitment: point_mul(c_blind, g) })
}

/// Commit the key-image blind under `u` and `v`. Fails on the degenerate
/// zero scalar.
pub fn blind_i_blind(
    i_blind: &dalek_ff_group::Scalar,
    u: &dalek_ff_group::EdwardsPoint,
    v: &dalek_ff_group::EdwardsPoint,
) -> (r: Result<IBlind, FcmpError>)
    ensures
        r is Ok <==> scalar_val(*i_blind) != 0,
        r matches Err(e) ==> e == FcmpError::CryptographicError,
        r matches Ok(b) ==> b.scalar == *i_blind && b.commitment_u == ed_mul(*i_blind, *u)
            && b.commitment_v == ed_mul(*i_blind, *v),
{
    if scalar_is_zero(i_blind) {
        return Err(FcmpError::CryptographicError);
    }
    Ok(
        IBlind {
            scalar: *i_blind,
            commitment_u: point_mul(i_blind, u),
            commitment_v: point_mul(i_blind, v),
        },
    )
}

/// Commit the key-image-blind blind under `t`. Fails on the degenerate
/// zero scalar.
pub fn blind_i_blind_blind(
    i_blind_blind: &dalek_ff_group::Scalar,
    t: &dalek_ff_group::EdwardsPoint,
) -> (r: Result<IBlindBlind, FcmpError>)
    ensures
        r is Ok <==> scalar_val(*i_blind_blind) != 0,
        r matches Err(e) ==> e == FcmpError::CryptographicError,
        r matches Ok(b) ==> b.scalar == *i_blind_blind && b.commitment == ed_mul(
            *i_blind_blind,
            *t,
        ),
{
    if scalar_is_zero(i_blind_blind) {
        return Err(FcmpError::CryptographicError);
    }
    Ok(IBlindBlind { scalar: *i_blind_blind, commitment: point_mul(i_blind_blind, t) })
}

/// The bundle of all four blinds for one output, consumed exactly once
/// when the output's branches are blinded.
#[derive(Clone, Copy)]
pub struct OutputBlinds {
    pub o_blind: OBlind,
    pub i_blind: IBlind,
    pub i_blind_blind: IBlindBlind,
    pub c_blind: CBlind,
}

/// Bundle the four blinds of one output.
pub fn output_blinds_new(
    o_blind: &OBlind,
    i_blind: &IBlind,
    i_blind_blind: &IBlindBlind,
    c_blind: &CBlind,
) -> (r: OutputBlinds)
    ensures
        r.o_blind == *o_blind,
        r.i_blind == *i_blind,
        r.i_blind_blind == *i_blind_blind,
        r.c_blind == *c_blind,
{
    OutputBlinds {
        o_blind: *o_blind,
        i_blind: *i_blind,
        i_blind_blind: *i_blind_blind,
        c_blind: *c_blind,
    }
}

/// A per-layer branch blind: a fresh scalar committed under the layer's
/// blinding generator.
#[derive(Clone, Copy)]
pub struct BranchBlind {
    pub scalar: dalek_ff_group::Scalar,
    pub commitment: dalek_ff_group::EdwardsPoint,
}

/// A branch blind's commitment opens to its scalar under the generator,
/// the scalar is canonical and not zero, and the commitment has its
/// 32-byte encoding.
pub open spec fn branch_blind_wf(
    b: BranchBlind,
    h: dalek_ff_group::EdwardsPoint,
) -> bool {
    &&& b.commitment == ed_mul(b.scalar, h)
    &&& scalar_val(b.scalar) != 0
    &&& scalar_val(b.scalar) < group_order()
    &&& point_repr(b.commitment).len() == 32
}

/// Commit a given branch-blind scalar under the layer's blinding
/// generator `h`. Fails exactly on the degenerate zero scalar, and
/// otherwise returns that scalar with its commitment pinned.
pub fn branch_blind_new(
    scalar: &dalek_ff_group::Scalar,
    h: &dalek_ff_group::EdwardsPoint,
) -> (r: Result<BranchBlind, FcmpError>)
    ensures
        r is Ok <==> scalar_val(*scalar) != 0,
        r matches Err(e) ==> e == FcmpError::CryptographicError,
        r matches Ok(b) ==> b.scalar == *scalar && b.commitment == ed_mul(*scalar, *h),
        r matches Ok(b) ==> scalar_val(*scalar) < group_order() ==> branch_blind_wf(b, *h),
{
    if scalar_is_zero(scalar) {
        return Err(FcmpError::CryptographicError);
    }
    Ok(BranchBlind { scalar: *scalar, commitment: point_mul(scalar, h) })
}

/// Draw a fresh branch blind and commit it under the layer's blinding
/// generator `h` through `branch_blind_new`. The scalar is unpredictable,
/// so success cannot be promised: the call fails only in the degenerate
/// case that the draw is zero, and every success is a well-formed blind.
pub fn generate_branch_blind(h: &dalek_ff_group::EdwardsPoint) -> (r: Result<
    BranchBlind,
    FcmpError,
>)
    ensures
        r matches Err(e) ==> e == FcmpError::CryptographicError,
        r matches Ok(b) ==> branch_blind_wf(b, *h),
{
    let scalar = scalar_random();
    branch_blind_new(&scalar, h)
}

} // verus!
