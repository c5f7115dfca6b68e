//! Transaction outputs and their rerandomization: an output is a triple of
//! curve points, and rerandomizing it draws four fresh blinding scalars and
//! re-blinds the points into the input tuple the proofs open. The 8 x 32
//! byte serialization of a rerandomized output, and the 4 x 32 byte input
//! tuple it begins with, are pinned down byte for byte.

use vstd::prelude::*;
use vstd::slice::slice_subrange;

use crate::FcmpError;
use crate::ed25519::{
    ed_add, ed_mul, group_order, identity_repr, le_val, point_add, point_decodable,
    point_from_bytes, point_is_identity, point_mul, point_repr, point_to_bytes,
    scalar_from_bytes, scalar_random, scalar_repr, scalar_to_bytes, scalar_val,
};

verus! {

/// The three canonical encodings a transaction output crosses the
/// boundary as: key, key-image base, and amount commitment.
#[derive(Clone, Copy)]
pub struct OutputBytes {
    pub o: [u8; 32],
    pub i: [u8; 32],
    pub c: [u8; 32],
}

/// A transaction output: key `o`, key-image base `i`, amount commitment
/// `c`. Well-formed only when none of the three is the identity.
#[derive(Clone, Copy, PartialEq, Eq, Debug)]
pub struct Output {
    pub o: dalek_ff_group::EdwardsPoint,
    pub i: dalek_ff_group::EdwardsPoint,
    pub c: dalek_ff_group::EdwardsPoint,
}

/// An output is well-formed when none of its points is the identity: the
/// identity has no affine representation and may not enter the tree.
/// This is a reduction of the protocol's full well-formedness: decoding
/// already confines every point to the prime-order subgroup, and the
/// relation tying the key-image base `i` to the key `o` belongs to the
/// external generator set and is not checked here.
pub open spec fn output_wf(out: Output) -> bool {
    &&& point_repr(out.o) != identity_repr()
    &&& point_repr(out.i) != identity_repr()
    &&& point_repr(out.c) != identity_repr()
}

impl Output {
    /// Construct an output, rejecting any identity point.
    pub fn new(
        o: dalek_ff_group::EdwardsPoint,
        i: dalek_ff_group::EdwardsPoint,
        c: dalek_ff_group::EdwardsPoint,
    ) -> (r: Result<Output, FcmpError>)
        ensures
            r is Ok <==> output_wf(Output { o, i, c }),
            r matches Ok(out) ==> out == (Output { o, i, c }),
            r matches Err(e) ==> e == FcmpError::CryptographicError,
    {
        if point_is_identity(&o) || point_is_identity(&i) || point_is_identity(&c) {
            Err(FcmpError::CryptographicError)
        } else {
            Ok(Output { o, i, c })
        }
    }
}

/// The three encodings of an `OutputBytes` are each the canonical
/// encoding of some point of the prime-order subgroup.
pub open spec fn output_encodings_ok(b: OutputBytes) -> bool {
    &&& point_decodable(b.o@)
    &&& point_decodable(b.i@)
    &&& point_decodable(b.c@)
}

/// The three encodings of an `OutputBytes` decode to a well-formed output:
/// each is the canonical encoding of some point and none is the identity.
pub open spec fn output_bytes_decodable(b: OutputBytes) -> bool {
    &&& output_encodings_ok(b)
    &&& b.o@ != identity_repr()
    &&& b.i@ != identity_repr()
    &&& b.c@ != identity_repr()
}

/// Decode the three points of an output, then construct it. Fails with
/// `DecodeError` exactly when some component is not a canonical
/// encoding, and with `CryptographicError` exactly when all three decode
/// but one of them is the identity.
pub fn output_from_bytes(bytes: &OutputBytes) -> (r: Result<Output, FcmpError>)
    ensures
        r is Ok <==> output_bytes_decodable(*bytes),
        r == Err::<Output, FcmpError>(FcmpError::DecodeError) <==> !output_encodings_ok(
            *bytes,
        ),
        r == Err::<Output, FcmpError>(FcmpError::CryptographicError) <==> (output_encodings_ok(
            *bytes,
        ) && !output_bytes_decodable(*bytes)),
        r matches Ok(out) ==> {
            &&& point_repr(out.o) == bytes.o@
            &&& point_repr(out.i) == bytes.i@
            &&& point_repr(out.c) == bytes.c@
            &&& output_wf(out)
        },
        forall|out2: Output|
            output_bytes_decodable(*bytes) && point_repr(out2.o) == bytes.o@ && point_repr(
                out2.i,
            ) == bytes.i@ && point_repr(out2.c) == bytes.c@ ==> r == Ok::<Output, FcmpError>(out2),
{
    let o = match point_from_bytes(bytes.o.as_slice()) {
        Some(p) => p,
        None => {
            return Err(FcmpError::DecodeError);
        },
    };
    let i = match point_from_bytes(bytes.i.as_slice()) {
        Some(p) => p,
        None => {
            return Err(FcmpError::DecodeError);
        },
    };
    let c = match point_from_bytes(bytes.c.as_slice()) {
        Some(p) => p,
        None => {
            return Err(FcmpError::DecodeError);
        },
    };
    Output::new(o, i, c)
}

/// The generators rerandomization commits under: the commitment generator
/// `g` and the three auxiliary generators `t`, `u`, `v` of the protocol.
pub struct RerandGens {
    pub g: dalek_ff_group::EdwardsPoint,
    pub t: dalek_ff_group::EdwardsPoint,
    pub u: dalek_ff_group::EdwardsPoint,
    pub v: dalek_ff_group::EdwardsPoint,
}

/// A rerandomized output: the rerandomized input tuple (o~, i~, r, c~)
/// and the four blinding scalars that produced it.
#[derive(Clone, Copy, PartialEq, Eq, Debug)]
pub struct RerandomizedOutput {
    pub o_tilde: dalek_ff_group::EdwardsPoint,
    pub i_tilde: dalek_ff_group::EdwardsPoint,
    pub big_r: dalek_ff_group::EdwardsPoint,
    pub c_tilde: dalek_ff_group::EdwardsPoint,
    pub o_blind: dalek_ff_group::Scalar,
    pub i_blind: dalek_ff_group::Scalar,
    pub i_blind_blind: dalek_ff_group::Scalar,
    pub c_blind: dalek_ff_group::Scalar,
}

/// Every field of the rerandomized output has its canonical 32-byte
/// encoding, and every blind is a canonical scalar.
pub open spec fn ro_wf(ro: RerandomizedOutput) -> bool {
    &&& point_repr(ro.o_tilde).len() == 32
    &&& point_repr(ro.i_tilde).len() == 32
    &&& point_repr(ro.big_r).len() == 32
    &&& point_repr(ro.c_tilde).len() == 32
    &&& scalar_repr(ro.o_blind).len() == 32
    &&& scalar_repr(ro.i_blind).len() == 32
    &&& scalar_repr(ro.i_blind_blind).len() == 32
    &&& scalar_repr(ro.c_blind).len() == 32
    &&& scalar_val(ro.o_blind) < group_order()
    &&& scalar_val(ro.i_blind) < group_order()
    &&& scalar_val(ro.i_blind_blind) < group_order()
    &&& scalar_val(ro.c_blind) < group_order()
}

/// How a rerandomized output relates to the output it came from: each
/// point of the tuple is the original re-blinded under the generators.
pub open spec fn rerand_rel(ro: RerandomizedOutput, out: Output, gens: RerandGens) -> bool {
    &&& ro.o_tilde == ed_add(out.o, ed_mul(ro.o_blind, gens.t))
    &&& ro.i_tilde == ed_add(out.i, ed_mul(ro.i_blind, gens.u))
    &&& ro.big_r == ed_add(ed_mul(ro.i_blind, gens.v), ed_mul(ro.i_blind_blind, gens.t))
    &&& ro.c_tilde == ed_add(out.c, ed_mul(ro.c_blind, gens.g))
}

/// Draw four fresh blinding scalars and re-blind the output under the
/// given generators. The blinds are unpredictable; what is promised holds
/// of every outcome of the draw.
pub fn rerandomize(output: &Output, gens: &RerandGens) -> (ro: RerandomizedOutput)
    ensures
        rerand_rel(ro, *output, *gens),
        ro_wf(ro),
{
    let o_blind = scalar_random();
    let i_blind = scalar_random();
    let i_blind_blind = scalar_random();
    let c_blind = scalar_random();
    let o_tilde = point_add(&output.o, &point_mul(&o_blind, &gens.t));
    let i_tilde = point_add(&output.i, &point_mul(&i_blind, &gens.u));
    let big_r = point_add(&point_mul(&i_blind, &gens.v), &point_mul(&i_blind_blind, &gens.t));
    let c_tilde = point_add(&output.c, &point_mul(&c_blind, &gens.g));
    RerandomizedOutput {
        o_tilde,
        i_tilde,
        big_r,
        c_tilde,
        o_blind,
        i_blind,
        i_blind_blind,
        c_blind,
    }
}

/// The 8 x 32 byte serialization of a rerandomized output: the four tuple
/// points, then the four blinding scalars.
pub open spec fn ro_bytes_spec(ro: RerandomizedOutput) -> Seq<u8> {
    point_repr(ro.o_tilde) + point_repr(ro.i_tilde) + point_repr(ro.big_r) + point_repr(
        ro.c_tilde,
    ) + scalar_repr(ro.o_blind) + scalar_repr(ro.i_blind) + scalar_repr(ro.i_blind_blind)
        + scalar_repr(ro.c_blind)
}

/// Append a 32-byte block to a buffer.
pub fn push_chunk(out: &mut Vec<u8>, bytes: &[u8; 32])
    ensures
        final(out)@ == old(out)@ + bytes@,
{
    let mut i: usize = 0;
    while i < 32
        invariant
            i <= 32,
            out@ == old(out)@ + bytes@.subrange(0, i as int),
        decreases 32 - i,
    {
        out.push(bytes[i]);
        assert(out@ == old(out)@ + bytes@.subrange(0, i + 1 as int));
        i = i + 1;
    }
    assert(bytes@.subrange(0, 32) =~= bytes@);
}

/// Serialize a rerandomized output to its 8 x 32 byte form.
pub fn rerandomized_output_to_bytes(ro: &RerandomizedOutput) -> (r: Vec<u8>)
    ensures
        r@ == ro_bytes_spec(*ro),
        ro_wf(*ro) ==> r@.len() == 256,
{
    let mut out: Vec<u8> = Vec::new();
    push_chunk(&mut out, &point_to_bytes(&ro.o_tilde));
    push_chunk(&mut out, &point_to_bytes(&ro.i_tilde));
    push_chunk(&mut out, &point_to_bytes(&ro.big_r));
    push_chunk(&mut out, &point_to_bytes(&ro.c_tilde));
    push_chunk(&mut out, &scalar_to_bytes(&ro.o_blind));
    push_chunk(&mut out, &scalar_to_bytes(&ro.i_blind));
    push_chunk(&mut out, &scalar_to_bytes(&ro.i_blind_blind));
    push_chunk(&mut out, &scalar_to_bytes(&ro.c_blind));
    proof {
        assert(out@ =~= ro_bytes_spec(*ro));
    }
    out
}

/// The 8 x 32 byte form parses when each point chunk is the canonical
/// encoding of some point and each scalar chunk is canonical.
pub open spec fn ro_bytes_parseable(b: Seq<u8>) -> bool {
    &&& b.len() == 256
    &&& point_decodable(b.subrange(0, 32))
    &&& point_decodable(b.subrange(32, 64))
    &&& point_decodable(b.subrange(64, 96))
    &&& point_decodable(b.subrange(96, 128))
    &&& le_val(b.subrange(128, 160)) < group_order()
    &&& le_val(b.subrange(160, 192)) < group_order()
    &&& le_val(b.subrange(192, 224)) < group_order()
    &&& le_val(b.subrange(224, 256)) < group_order()
}

/// A serialized well-formed rerandomized output carves into its eight
/// 32-byte chunks, one per field.
pub proof fn lemma_ro_carve(ro: RerandomizedOutput, b: Seq<u8>)
    requires
        ro_wf(ro),
        ro_bytes_spec(ro) == b,
    ensures
        point_repr(ro.o_tilde) == b.subrange(0, 32),
        point_repr(ro.i_tilde) == b.subrange(32, 64),
        point_repr(ro.big_r) == b.subrange(64, 96),
        point_repr(ro.c_tilde) == b.subrange(96, 128),
        scalar_repr(ro.o_blind) == b.subrange(128, 160),
        scalar_repr(ro.i_blind) == b.subrange(160, 192),
        scalar_repr(ro.i_blind_blind) == b.subrange(192, 224),
        scalar_repr(ro.c_blind) == b.subrange(224, 256),
        b.len() == 256,
{
    assert(point_repr(ro.o_tilde) =~= b.subrange(0, 32));
    assert(point_repr(ro.i_tilde) =~= b.subrange(32, 64));
    assert(point_repr(ro.big_r) =~= b.subrange(64, 96));
    assert(point_repr(ro.c_tilde) =~= b.subrange(96, 128));
    assert(scalar_repr(ro.o_blind) =~= b.subrange(128, 160));
    assert(scalar_repr(ro.i_blind) =~= b.subrange(160, 192));
    assert(scalar_repr(ro.i_blind_blind) =~= b.subrange(192, 224));
    assert(scalar_repr(ro.c_blind) =~= b.subrange(224, 256));
}

/// Parse a rerandomized output from its 8 x 32 byte form. Exactly the
/// serializations of well-formed rerandomized outputs parse, and parsing
/// identifies the serialized value.
pub fn rerandomized_output_from_bytes(bytes: &[u8]) -> (r: Result<RerandomizedOutput, FcmpError>)
    ensures
        r is Ok <==> ro_bytes_parseable(bytes@),
        r matches Err(e) ==> e == FcmpError::DecodeError,
        r matches Ok(ro) ==> ro_wf(ro) && ro_bytes_spec(ro) == bytes@,
        forall|ro2: RerandomizedOutput|
            ro_wf(ro2) && ro_bytes_spec(ro2) == bytes@ ==> r == Ok::<
                RerandomizedOutput,
                FcmpError,
            >(ro2),
{
    if bytes.len() != 256 {
        proof {
            assert forall|ro2: RerandomizedOutput|
                !(ro_wf(ro2) && ro_bytes_spec(ro2) == bytes@) by {
                if ro_wf(ro2) && ro_bytes_spec(ro2) == bytes@ {
                    lemma_ro_carve(ro2, bytes@);
                }
            }
        }
        return Err(FcmpError::DecodeError);
    }
    let p0 = point_from_bytes(slice_subrange(bytes, 0, 32));
    let p1 = point_from_bytes(slice_subrange(bytes, 32, 64));
    let p2 = point_from_bytes(slice_subrange(bytes, 64, 96));
    let p3 = point_from_bytes(slice_subrange(bytes, 96, 128));
    let s0 = scalar_from_bytes(slice_subrange(bytes, 128, 160));
    let s1 = scalar_from_bytes(slice_subrange(bytes, 160, 192));
    let s2 = scalar_from_bytes(slice_subrange(bytes, 192, 224));
    let s3 = scalar_from_bytes(slice_subrange(bytes, 224, 256));
    if let (
        Some(o_tilde),
        Some(i_tilde),
        Some(big_r),
        Some(c_tilde),
        Some(o_blind),
        Some(i_blind),
        Some(i_blind_blind),
        Some(c_blind),
    ) = (p0, p1, p2, p3, s0, s1, s2, s3) {
        let ro = RerandomizedOutput {
            o_tilde,
            i_tilde,
            big_r,
            c_tilde,
            o_blind,
            i_blind,
            i_blind_blind,
            c_blind,
        };
        proof {
            assert(ro_bytes_spec(ro) =~= bytes@);
            assert forall|ro2: RerandomizedOutput|
                ro_wf(ro2) && ro_bytes_spec(ro2) == bytes@ implies ro2 == ro by {
                lemma_ro_carve(ro2, bytes@);
            }
        }
        Ok(ro)
    } else {
        proof {
            assert forall|ro2: RerandomizedOutput|
                !(ro_wf(ro2) && ro_bytes_spec(ro2) == bytes@) by {
                if ro_wf(ro2) && ro_bytes_spec(ro2) == bytes@ {
                    lemma_ro_carve(ro2, bytes@);
                }
            }
        }
        Err(FcmpError::DecodeError)
    }
}

} // verus!

verus! {

/// Rerandomize an output handed over in its byte form: decode it, draw
/// the blinds, and hand back the 8 x 32 byte serialization of the result.
/// Fails with `DecodeError` exactly when some component encoding is not
/// canonical, and with `CryptographicError` exactly when all three decode
/// but one is the identity; no error case writes any output bytes.
pub fn rerandomize_output(output: &OutputBytes, gens: &RerandGens) -> (r: Result<
    Vec<u8>,
    FcmpError,
>)
    ensures
        r is Ok <==> output_bytes_decodable(*output),
        r == Err::<Vec<u8>, FcmpError>(FcmpError::DecodeError) <==> !output_encodings_ok(
            *output,
        ),
        r == Err::<Vec<u8>, FcmpError>(FcmpError::CryptographicError) <==> (
        output_encodings_ok(*output) && !output_bytes_decodable(*output)),
        r matches Ok(bytes) ==> bytes@.len() == 256 && ro_bytes_parseable(bytes@),
        r matches Ok(bytes) ==> forall|out: Output|
            point_repr(out.o) == output.o@ && point_repr(out.i) == output.i@ && point_repr(
                out.c,
            ) == output.c@ ==> exists|ro: RerandomizedOutput|
                ro_wf(ro) && rerand_rel(ro, out, *gens) && bytes@ == ro_bytes_spec(ro),
{
    let decoded = match output_from_bytes(output) {
        Ok(out) => out,
        Err(e) => {
            return Err(e);
        },
    };
    let ro = rerandomize(&decoded, gens);
    let bytes = rerandomized_output_to_bytes(&ro);
    proof {
        lemma_ro_carve(ro, bytes@);
        assert forall|out: Output|
            point_repr(out.o) == output.o@ && point_repr(out.i) == output.i@ && point_repr(
                out.c,
            ) == output.c@ implies exists|ro2: RerandomizedOutput|
            ro_wf(ro2) && rerand_rel(ro2, out, *gens) && bytes@ == ro_bytes_spec(ro2) by {
            assert(out == decoded);
            assert(ro_wf(ro) && rerand_rel(ro, out, *gens) && bytes@ == ro_bytes_spec(ro));
        }
    }
    Ok(bytes)
}

/// The output blind of a serialized rerandomized output.
pub fn o_blind(rerandomized_output_bytes: &[u8]) -> (r: Result<dalek_ff_group::Scalar, FcmpError>)
    ensures
        r is Ok <==> ro_bytes_parseable(rerandomized_output_bytes@),
        r matches Err(e) ==> e == FcmpError::DecodeError,
        forall|ro: RerandomizedOutput|
            ro_wf(ro) && ro_bytes_spec(ro) == rerandomized_output_bytes@ ==> r == Ok::<
                dalek_ff_group::Scalar,
                FcmpError,
            >(ro.o_blind),
{
    match rerandomized_output_from_bytes(rerandomized_output_bytes) {
        Ok(ro) => Ok(ro.o_blind),
        Err(e) => Err(e),
    }
}

/// The key-image blind of a serialized rerandomized output.
pub fn i_blind(rerandomized_output_bytes: &[u8]) -> (r: Result<dalek_ff_group::Scalar, FcmpError>)
    ensures
        r is Ok <==> ro_bytes_parseable(rerandomized_output_bytes@),
        r matches Err(e) ==> e == FcmpError::DecodeError,
        forall|ro: RerandomizedOutput|
            ro_wf(ro) && ro_bytes_spec(ro) == rerandomized_output_bytes@ ==> r == Ok::<
                dalek_ff_group::Scalar,
                FcmpError,
            >(ro.i_blind),
{
    match rerandomized_output_from_bytes(rerandomized_output_bytes) {
        Ok(ro) => Ok(ro.i_blind),
        Err(e) => Err(e),
    }
}

/// The key-image-blind blind of a serialized rerandomized output.
pub fn i_blind_blind(rerandomized_output_bytes: &[u8]) -> (r: Result<
    dalek_ff_group::Scalar,
    FcmpError,
>)
    ensures
        r is Ok <==> ro_bytes_parseable(rerandomized_output_bytes@),
        r matches Err(e) ==> e == FcmpError::DecodeError,
        forall|ro: RerandomizedOutput|
            ro_wf(ro) && ro_bytes_spec(ro) == rerandomized_output_bytes@ ==> r == Ok::<
                dalek_ff_group::Scalar,
                FcmpError,
            >(ro.i_blind_blind),
{
    match rerandomized_output_from_bytes(rerandomized_output_bytes) {
        Ok(ro) => Ok(ro.i_blind_blind),
        Err(e) => Err(e),
    }
}

/// The commitment blind of a serialized rerandomized output.
pub fn c_blind(rerandomized_output_bytes: &[u8]) -> (r: Result<dalek_ff_group::Scalar, FcmpError>)
    ensures
        r is Ok <==> ro_bytes_parseable(rerandomized_output_bytes@),
        r matches Err(e) ==> e == FcmpError::DecodeError,
        forall|ro: RerandomizedOutput|
            ro_wf(ro) && ro_bytes_spec(ro) == rerandomized_output_bytes@ ==> r == Ok::<
                dalek_ff_group::Scalar,
                FcmpError,
            >(ro.c_blind),
{
    match rerandomized_output_from_bytes(rerandomized_output_bytes) {
        Ok(ro) => Ok(ro.c_blind),
        Err(e) => Err(e),
    }
}

/// The rerandomized input tuple (o~, i~, r, c~): what a verifier looks an
/// input up by. It serializes to 4 x 32 bytes, the first half of the
/// rerandomized output's form.
#[derive(Clone, Copy, PartialEq, Eq, Debug)]
pub struct InputTuple {
    pub o_tilde: dalek_ff_group::EdwardsPoint,
    pub i_tilde: dalek_ff_group::EdwardsPoint,
    pub big_r: dalek_ff_group::EdwardsPoint,
    pub c_tilde: dalek_ff_group::EdwardsPoint,
}

impl RerandomizedOutput {
    /// The input tuple of this rerandomized output.
    pub fn input(&self) -> (r: InputTuple)
        ensures
            r.o_tilde == self.o_tilde,
            r.i_tilde == self.i_tilde,
            r.big_r == self.big_r,
            r.c_tilde == self.c_tilde,
    {
        InputTuple {
            o_tilde: self.o_tilde,
            i_tilde: self.i_tilde,
            big_r: self.big_r,
            c_tilde: self.c_tilde,
        }
    }
}

/// Every point of the input tuple has its canonical 32-byte encoding.
pub open spec fn input_wf(t: InputTuple) -> bool {
    &&& point_repr(t.o_tilde).len() == 32
    &&& point_repr(t.i_tilde).len() == 32
    &&& point_repr(t.big_r).len() == 32
    &&& point_repr(t.c_tilde).len() == 32
}

/// The 4 x 32 byte serialization of an input tuple.
pub open spec fn input_bytes_spec(t: InputTuple) -> Seq<u8> {
    point_repr(t.o_tilde) + point_repr(t.i_tilde) + point_repr(t.big_r) + point_repr(t.c_tilde)
}

/// The 4 x 32 byte form parses when each chunk is the canonical encoding
/// of some point.
pub open spec fn input_bytes_parseable(b: Seq<u8>) -> bool {
    &&& b.len() == 128
    &&& point_decodable(b.subrange(0, 32))
    &&& point_decodable(b.subrange(32, 64))
    &&& point_decodable(b.subrange(64, 96))
    &&& point_decodable(b.subrange(96, 128))
}

/// A serialized well-formed input tuple carves into its four 32-byte
/// chunks, one per point.
pub proof fn lemma_input_carve(t: InputTuple, b: Seq<u8>)
    requires
        input_wf(t),
        input_bytes_spec(t) == b,
    ensures
        point_repr(t.o_tilde) == b.subrange(0, 32),
        point_repr(t.i_tilde) == b.subrange(32, 64),
        point_repr(t.big_r) == b.subrange(64, 96),
        point_repr(t.c_tilde) == b.subrange(96, 128),
        b.len() == 128,
{
    assert(point_repr(t.o_tilde) =~= b.subrange(0, 32));
    assert(point_repr(t.i_tilde) =~= b.subrange(32, 64));
    assert(point_repr(t.big_r) =~= b.subrange(64, 96));
    assert(point_repr(t.c_tilde) =~= b.subrange(96, 128));
}

/// Serialize an input tuple to its 4 x 32 byte form.
pub fn input_to_bytes(t: &InputTuple) -> (r: Vec<u8>)
    ensures
        r@ == input_bytes_spec(*t),
        input_wf(*t) ==> r@.len() == 128,
{
    let mut out: Vec<u8> = Vec::new();
    push_chunk(&mut out, &point_to_bytes(&t.o_tilde));
    push_chunk(&mut out, &point_to_bytes(&t.i_tilde));
    push_chunk(&mut out, &point_to_bytes(&t.big_r));
    push_chunk(&mut out, &point_to_bytes(&t.c_tilde));
    proof {
        assert(out@ =~= input_bytes_spec(*t));
    }
    out
}

/// Parse an input tuple from its 4 x 32 byte form. Exactly the
/// serializations of well-formed tuples parse, and parsing identifies the
/// serialized value.
pub fn input_from_bytes(input_bytes: &[u8]) -> (r: Result<InputTuple, FcmpError>)
    ensures
        r is Ok <==> input_bytes_parseable(input_bytes@),
        r matches Err(e) ==> e == FcmpError::DecodeError,
        r matches Ok(t) ==> input_wf(t) && input_bytes_spec(t) == input_bytes@,
        forall|t2: InputTuple|
            input_wf(t2) && input_bytes_spec(t2) == input_bytes@ ==> r == Ok::<
                InputTuple,
                FcmpError,
            >(t2),
{
    if input_bytes.len() != 128 {
        proof {
            assert forall|t2: InputTuple|
                !(input_wf(t2) && input_bytes_spec(t2) == input_bytes@) by {
                if input_wf(t2) && input_bytes_spec(t2) == input_bytes@ {
                    lemma_input_carve(t2, input_bytes@);
                }
            }
        }
        return Err(FcmpError::DecodeError);
    }
    let p0 = point_from_bytes(slice_subrange(input_bytes, 0, 32));
    let p1 = point_from_bytes(slice_subrange(input_bytes, 32, 64));
    let p2 = point_from_bytes(slice_subrange(input_bytes, 64, 96));
    let p3 = point_from_bytes(slice_subrange(input_bytes, 96, 128));
    if let (Some(o_tilde), Some(i_tilde), Some(big_r), Some(c_tilde)) = (p0, p1, p2, p3) {
        let t = InputTuple { o_tilde, i_tilde, big_r, c_tilde };
        proof {
            assert(input_bytes_spec(t) =~= input_bytes@);
            assert forall|t2: InputTuple|
                input_wf(t2) && input_bytes_spec(t2) == input_bytes@ implies t2 == t by {
                lemma_input_carve(t2, input_bytes@);
            }
        }
        Ok(t)
    } else {
        proof {
            assert forall|t2: InputTuple|
                !(input_wf(t2) && input_bytes_spec(t2) == input_bytes@) by {
                if input_wf(t2) && input_bytes_spec(t2) == input_bytes@ {
                    lemma_input_carve(t2, input_bytes@);
                }
            }
        }
        Err(FcmpError::DecodeError)
    }
}

} // verus!
