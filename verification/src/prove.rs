//! The proof composer: bundles each input's path, output blinds and branch
//! blinds, enforces the structural fit between supplied branch blinds and
//! tree depth before any expensive proving work, validates the claimed
//! opening of each input, derives its key image, and lays the membership
//! statement's blinded branch commitments out as bytes.

use vstd::prelude::*;

use crate::FcmpError;
use crate::blinds::{BranchBlind, OutputBlinds};
use crate::ed25519::{
    chunks_decodable, ed_add, ed_mul, ed_sub, group_order, identity_repr,
    lemma_chunks_decodable_concat, point_add, point_decodable, point_eq, point_mul, point_repr,
    point_sub, point_to_bytes, sc_add, scalar_add, scalar_val,
};
use crate::output::{
    RerandGens, ro_bytes_parseable, ro_bytes_spec, ro_wf, rerandomized_output_from_bytes,
    RerandomizedOutput,
};
use crate::output::push_chunk;
use crate::path::Path;

verus! {

/// One input's share of a membership proof: its authentication path, its
/// output blinds, and its branch blinds for either curve role.
pub struct FcmpPpProveMembershipInput {
    pub path: Path,
    pub output_blinds: OutputBlinds,
    pub c1_branch_blinds: Vec<BranchBlind>,
    pub c2_branch_blinds: Vec<BranchBlind>,
}

/// Bundle one input's proving material.
pub fn fcmp_pp_prove_input_new(
    path: Path,
    output_blinds: OutputBlinds,
    c1_branch_blinds: Vec<BranchBlind>,
    c2_branch_blinds: Vec<BranchBlind>,
) -> (r: FcmpPpProveMembershipInput)
    ensures
        r.path == path,
        r.output_blinds == output_blinds,
        r.c1_branch_blinds == c1_branch_blinds,
        r.c2_branch_blinds == c2_branch_blinds,
{
    FcmpPpProveMembershipInput { path, output_blinds, c1_branch_blinds, c2_branch_blinds }
}

/// The commitments of a run of branch blinds, serialized back to back.
pub open spec fn blinds_bytes(bs: Seq<BranchBlind>) -> Seq<u8>
    decreases bs.len(),
{
    if bs.len() == 0 {
        Seq::empty()
    } else {
        blinds_bytes(bs.drop_last()) + point_repr(bs.last().commitment)
    }
}

/// One input's share of the membership statement: its first-role blind
/// commitments, then its second-role blind commitments.
pub open spec fn input_blob(inp: FcmpPpProveMembershipInput) -> Seq<u8> {
    blinds_bytes(inp.c1_branch_blinds@) + blinds_bytes(inp.c2_branch_blinds@)
}

/// The whole membership statement: every input's share, in order.
pub open spec fn membership_blob(inputs: Seq<FcmpPpProveMembershipInput>) -> Seq<u8>
    decreases inputs.len(),
{
    if inputs.len() == 0 {
        Seq::empty()
    } else {
        membership_blob(inputs.drop_last()) + input_blob(inputs.last())
    }
}

/// Every blind commitment of the run has its canonical 32-byte encoding.
pub open spec fn blinds_encoded(bs: Seq<BranchBlind>) -> bool {
    forall|k: int| 0 <= k < bs.len() ==> point_repr(#[trigger] bs[k].commitment).len() == 32
}

/// Every blind commitment of every input has its canonical encoding.
pub open spec fn inputs_encoded(inputs: Seq<FcmpPpProveMembershipInput>) -> bool {
    forall|j: int|
        0 <= j < inputs.len() ==> blinds_encoded((#[trigger] inputs[j]).c1_branch_blinds@)
            && blinds_encoded(inputs[j].c2_branch_blinds@)
}

/// Canonically encoded blind runs serialize to 32 bytes per blind.
pub proof fn lemma_blinds_bytes_len(bs: Seq<BranchBlind>)
    requires
        blinds_encoded(bs),
    ensures
        blinds_bytes(bs).len() == 32 * bs.len(),
    decreases bs.len(),
{
    if bs.len() > 0 {
        assert(blinds_encoded(bs.drop_last()));
        lemma_blinds_bytes_len(bs.drop_last());
    }
}

/// The first-role branch blinds a batch supplies, pooled over all its
/// inputs.
pub open spec fn total_c1_blinds(inputs: Seq<FcmpPpProveMembershipInput>) -> int
    decreases inputs.len(),
{
    if inputs.len() == 0 {
        0
    } else {
        total_c1_blinds(inputs.drop_last()) + inputs.last().c1_branch_blinds@.len()
    }
}

/// The second-role branch blinds a batch supplies, pooled over all its
/// inputs.
pub open spec fn total_c2_blinds(inputs: Seq<FcmpPpProveMembershipInput>) -> int
    decreases inputs.len(),
{
    if inputs.len() == 0 {
        0
    } else {
        total_c2_blinds(inputs.drop_last()) + inputs.last().c2_branch_blinds@.len()
    }
}

/// A prefix of the batch never supplies more blinds than the whole batch.
pub proof fn lemma_total_blinds_mono(inputs: Seq<FcmpPpProveMembershipInput>, j: int)
    requires
        0 <= j <= inputs.len(),
    ensures
        total_c1_blinds(inputs.subrange(0, j)) <= total_c1_blinds(inputs),
        total_c2_blinds(inputs.subrange(0, j)) <= total_c2_blinds(inputs),
    decreases inputs.len() - j,
{
    if j == inputs.len() {
        assert(inputs.subrange(0, j) =~= inputs);
    } else {
        assert(inputs.subrange(0, j + 1).drop_last() =~= inputs.subrange(0, j));
        assert(inputs.subrange(0, j + 1).last() == inputs[j]);
        lemma_total_blinds_mono(inputs, j + 1);
    }
}

/// Canonically encoded inputs serialize to 32 bytes per blind, over all
/// the blinds the batch pools.
pub proof fn lemma_membership_blob_len(inputs: Seq<FcmpPpProveMembershipInput>)
    requires
        inputs_encoded(inputs),
    ensures
        membership_blob(inputs).len() == 32 * (total_c1_blinds(inputs) + total_c2_blinds(
            inputs,
        )),
    decreases inputs.len(),
{
    if inputs.len() > 0 {
        assert(inputs_encoded(inputs.drop_last()));
        lemma_membership_blob_len(inputs.drop_last());
        lemma_blinds_bytes_len(inputs.last().c1_branch_blinds@);
        lemma_blinds_bytes_len(inputs.last().c2_branch_blinds@);
        assert(membership_blob(inputs).len() == membership_blob(inputs.drop_last()).len()
            + input_blob(inputs.last()).len());
    }
}

/// A run of canonically encoded blind commitments lays out as decodable
/// 32-byte blocks.
pub proof fn lemma_blinds_bytes_decodable(bs: Seq<BranchBlind>)
    requires
        blinds_encoded(bs),
    ensures
        chunks_decodable(blinds_bytes(bs)),
    decreases bs.len(),
{
    if bs.len() == 0 {
        assert(blinds_bytes(bs).len() == 0);
    } else {
        assert(blinds_encoded(bs.drop_last()));
        lemma_blinds_bytes_decodable(bs.drop_last());
        let last = point_repr(bs.last().commitment);
        assert(chunks_decodable(last)) by {
            assert(last.len() == 32);
            assert(last.subrange(0, 32) =~= last);
            assert(point_decodable(last)) by {
                assert(point_repr(bs.last().commitment) == last);
            }
        }
        lemma_chunks_decodable_concat(blinds_bytes(bs.drop_last()), last);
    }
}

/// A membership statement over canonically encoded inputs lays out as
/// decodable 32-byte blocks: what the composer writes, a verifier can
/// decode block by block.
pub proof fn lemma_membership_blob_decodable(inputs: Seq<FcmpPpProveMembershipInput>)
    requires
        inputs_encoded(inputs),
    ensures
        chunks_decodable(membership_blob(inputs)),
    decreases inputs.len(),
{
    if inputs.len() == 0 {
        assert(membership_blob(inputs).len() == 0);
    } else {
        assert(inputs_encoded(inputs.drop_last()));
        lemma_membership_blob_decodable(inputs.drop_last());
        let last = inputs.last();
        lemma_blinds_bytes_decodable(last.c1_branch_blinds@);
        lemma_blinds_bytes_decodable(last.c2_branch_blinds@);
        lemma_chunks_decodable_concat(
            blinds_bytes(last.c1_branch_blinds@),
            blinds_bytes(last.c2_branch_blinds@),
        );
        lemma_chunks_decodable_concat(membership_blob(inputs.drop_last()), input_blob(last));
    }
}

/// The structural conditions the composer enforces before proving: a
/// non-empty batch, one shared tree shape with a legal role alternation,
/// exactly the branch blinds that shape needs on each role — counted
/// pooled over the whole batch, so any distribution across the inputs is
/// accepted — and a claimed layer count that equals the shape's, that
/// is, one more than the branch blinds per input on average.
pub open spec fn membership_checks_ok(
    inputs: Seq<FcmpPpProveMembershipInput>,
    n_tree_layers: int,
) -> bool {
    let a = inputs[0].path.curve_1_layers@.len() as int;
    let b = inputs[0].path.curve_2_layers@.len() as int;
    let layers = 1 + a + b;
    &&& inputs.len() >= 1
    &&& forall|j: int|
        0 <= j < inputs.len() ==> (#[trigger] inputs[j]).path.curve_1_layers@.len() == a
            && inputs[j].path.curve_2_layers@.len() == b
    &&& (b == a || b == a + 1)
    &&& layers <= usize::MAX
    &&& inputs.len() * (layers / 2) <= usize::MAX
    &&& inputs.len() * ((layers - 1) / 2) <= usize::MAX
    &&& total_c1_blinds(inputs) == inputs.len() * (layers / 2)
    &&& total_c2_blinds(inputs) == inputs.len() * ((layers - 1) / 2)
    &&& n_tree_layers == layers
}

/// Compose the membership statement for a batch of inputs: enforce the
/// structural conditions, then lay out every input's blinded branch
/// commitments. The blind counts are pooled over the batch, as the
/// statement consumes them, so any distribution across the inputs is
/// accepted; a batch whose claimed layer count does not fit its shape is
/// rejected here, before any proving work.
pub fn fcmp_pp_prove_membership(
    inputs: &Vec<FcmpPpProveMembershipInput>,
    n_tree_layers: usize,
) -> (r: Result<Vec<u8>, FcmpError>)
    ensures
        r is Ok <==> membership_checks_ok(inputs@, n_tree_layers as int),
        r matches Err(e) ==> e == FcmpError::StructuralMismatch,
        r matches Ok(bytes) ==> bytes@ == membership_blob(inputs@) && (inputs_encoded(inputs@)
            ==> bytes@.len() == 32 * (n_tree_layers - 1) * inputs@.len()),
{
    let n = inputs.len();
    if n == 0 {
        return Err(FcmpError::StructuralMismatch);
    }
    let a = inputs[0].path.curve_1_layers.len();
    let b = inputs[0].path.curve_2_layers.len();
    if !(b == a || (a < usize::MAX && b == a + 1)) {
        return Err(FcmpError::StructuralMismatch);
    }
    if a > usize::MAX - 1 || b > usize::MAX - 1 - a {
        return Err(FcmpError::StructuralMismatch);
    }
    let layers: usize = 1 + a + b;
    if n_tree_layers != layers {
        return Err(FcmpError::StructuralMismatch);
    }
    let c1_per: usize = layers / 2;
    let c2_per: usize = (layers - 1) / 2;
    let necessary_c1 = match inputs.len().checked_mul(c1_per) {
        Some(v) => v,
        None => {
            return Err(FcmpError::StructuralMismatch);
        },
    };
    let necessary_c2 = match inputs.len().checked_mul(c2_per) {
        Some(v) => v,
        None => {
            return Err(FcmpError::StructuralMismatch);
        },
    };
    let mut tot1: usize = 0;
    let mut tot2: usize = 0;
    let mut j: usize = 0;
    while j < n
        invariant
            n == inputs@.len(),
            j <= n,
            a == inputs@[0].path.curve_1_layers@.len(),
            b == inputs@[0].path.curve_2_layers@.len(),
            layers == 1 + a + b,
            c1_per == layers / 2,
            c2_per == (layers as int - 1) / 2,
            necessary_c1 == n * c1_per,
            necessary_c2 == n * c2_per,
            forall|k: int|
                0 <= k < j ==> (#[trigger] inputs@[k]).path.curve_1_layers@.len() == a
                    && inputs@[k].path.curve_2_layers@.len() == b,
            tot1 == total_c1_blinds(inputs@.subrange(0, j as int)),
            tot2 == total_c2_blinds(inputs@.subrange(0, j as int)),
        decreases n - j,
    {
        if inputs[j].path.curve_1_layers.len() != a || inputs[j].path.curve_2_layers.len() != b {
            return Err(FcmpError::StructuralMismatch);
        }
        proof {
            assert(inputs@.subrange(0, j + 1 as int).drop_last() =~= inputs@.subrange(
                0,
                j as int,
            ));
            assert(inputs@.subrange(0, j + 1 as int).last() == inputs@[j as int]);
        }
        tot1 = match tot1.checked_add(inputs[j].c1_branch_blinds.len()) {
            Some(v) => v,
            None => {
                proof {
                    // The pooled first-role count already exceeds the
                    // machine, so it cannot equal the (machine-sized)
                    // necessary count.
                    lemma_total_blinds_mono(inputs@, j + 1 as int);
                }
                return Err(FcmpError::StructuralMismatch);
            },
        };
        tot2 = match tot2.checked_add(inputs[j].c2_branch_blinds.len()) {
            Some(v) => v,
            None => {
                proof {
                    lemma_total_blinds_mono(inputs@, j + 1 as int);
                }
                return Err(FcmpError::StructuralMismatch);
            },
        };
        j = j + 1;
    }
    proof {
        assert(inputs@.subrange(0, n as int) =~= inputs@);
    }
    if tot1 != necessary_c1 || tot2 != necessary_c2 {
        return Err(FcmpError::StructuralMismatch);
    }
    let mut out: Vec<u8> = Vec::new();
    let mut i: usize = 0;
    while i < n
        invariant
            n == inputs@.len(),
            i <= n,
            out@ == membership_blob(inputs@.subrange(0, i as int)),
        decreases n - i,
    {
        let inp = &inputs[i];
        let mut k: usize = 0;
        let ghost blob_before = out@;
        while k < inp.c1_branch_blinds.len()
            invariant
                k <= inp.c1_branch_blinds@.len(),
                inp == &inputs@[i as int],
                i < n == inputs@.len(),
                out@ == blob_before + blinds_bytes(inp.c1_branch_blinds@.subrange(0, k as int)),
            decreases inp.c1_branch_blinds@.len() - k,
        {
            push_chunk(&mut out, &point_to_bytes(&inp.c1_branch_blinds[k].commitment));
            proof {
                let bs = inp.c1_branch_blinds@;
                assert(bs.subrange(0, k + 1 as int).drop_last() =~= bs.subrange(0, k as int));
                assert(bs.subrange(0, k + 1 as int).last() == bs[k as int]);
            }
            k = k + 1;
        }
        proof {
            let bs = inp.c1_branch_blinds@;
            assert(bs.subrange(0, bs.len() as int) =~= bs);
        }
        let mut k2: usize = 0;
        let ghost blob_mid = out@;
        while k2 < inp.c2_branch_blinds.len()
            invariant
                k2 <= inp.c2_branch_blinds@.len(),
                inp == &inputs@[i as int],
                i < n == inputs@.len(),
                out@ == blob_mid + blinds_bytes(inp.c2_branch_blinds@.subrange(0, k2 as int)),
            decreases inp.c2_branch_blinds@.len() - k2,
        {
            push_chunk(&mut out, &point_to_bytes(&inp.c2_branch_blinds[k2].commitment));
            proof {
                let bs = inp.c2_branch_blinds@;
                assert(bs.subrange(0, k2 + 1 as int).drop_last() =~= bs.subrange(0, k2 as int));
                assert(bs.subrange(0, k2 + 1 as int).last() == bs[k2 as int]);
            }
            k2 = k2 + 1;
        }
        proof {
            let bs = inp.c2_branch_blinds@;
            assert(bs.subrange(0, bs.len() as int) =~= bs);
            let s = inputs@;
            assert(s.subrange(0, i + 1 as int).drop_last() =~= s.subrange(0, i as int));
            assert(s.subrange(0, i + 1 as int).last() == s[i as int]);
            assert(out@ == membership_blob(s.subrange(0, i + 1 as int)));
        }
        i = i + 1;
    }
    proof {
        assert(inputs@.subrange(0, n as int) =~= inputs@);
        if inputs_encoded(inputs@) {
            lemma_membership_blob_len(inputs@);
            // The two role counts pool to one blind per non-root layer.
            vstd::arithmetic::div_mod::lemma_fundamental_div_mod(layers as int, 2);
            vstd::arithmetic::div_mod::lemma_fundamental_div_mod(layers as int - 1, 2);
            vstd::arithmetic::div_mod::lemma_mod_bound(layers as int, 2);
            vstd::arithmetic::div_mod::lemma_mod_bound(layers as int - 1, 2);
            assert(c1_per + c2_per == layers as int - 1);
            assert(32 * ((n as int) * (c1_per as int) + (n as int) * (c2_per as int)) == 32 * (
            layers as int - 1) * (n as int)) by (nonlinear_arith)
                requires
                    c1_per as int + c2_per as int == layers as int - 1,
            ;
            assert(32 * (n_tree_layers - 1) * inputs@.len() == membership_blob(inputs@).len());
        }
    }
    Ok(out)
}

/// Validate the claimed opening of a rerandomized output and derive its
/// key image. The opening `o = x g + y t` is consistent exactly when the
/// rerandomized key equals `x g + (y + o_blind) t`; the key image is `x`
/// times the un-blinded key-image base, so it depends on the spend key
/// and the output alone. A caller error here is adversarial input, never
/// a panic.
///
/// The 12 x 32 byte spend-authorization proof object itself is the
/// external argument system's output, not produced here: this function
/// hands back only what that system does not own, the validated opening's
/// key image. For a non-zero spend key over a non-identity key-image
/// base, that key image is never the identity (the prime-order-group
/// fact carried by the multiplication).
pub fn fcmp_pp_prove_sal(
    x: &dalek_ff_group::Scalar,
    y: &dalek_ff_group::Scalar,
    rerandomized_output_bytes: &[u8],
    gens: &RerandGens,
) -> (r: Result<[u8; 32], FcmpError>)
    ensures
        r == Err::<[u8; 32], FcmpError>(FcmpError::DecodeError) <==> !ro_bytes_parseable(
            rerandomized_output_bytes@,
        ),
        forall|ro: RerandomizedOutput|
            ro_wf(ro) && ro_bytes_spec(ro) == rerandomized_output_bytes@ ==> ((r is Ok)
                <==> ro.o_tilde == ed_add(
                ed_mul(*x, gens.g),
                ed_mul(sc_add(*y, ro.o_blind), gens.t),
            )),
        forall|ro: RerandomizedOutput|
            ro_wf(ro) && ro_bytes_spec(ro) == rerandomized_output_bytes@ ==> ((r == Err::<
                [u8; 32],
                FcmpError,
            >(FcmpError::CryptographicError)) <==> ro.o_tilde != ed_add(
                ed_mul(*x, gens.g),
                ed_mul(sc_add(*y, ro.o_blind), gens.t),
            )),
        forall|ro: RerandomizedOutput|
            ro_wf(ro) && ro_bytes_spec(ro) == rerandomized_output_bytes@ ==> (r matches Ok(ki)
                ==> ki@ == point_repr(
                ed_mul(*x, ed_sub(ro.i_tilde, ed_mul(ro.i_blind, gens.u))),
            )),
        forall|ro: RerandomizedOutput|
            ro_wf(ro) && ro_bytes_spec(ro) == rerandomized_output_bytes@ ==> (r matches Ok(ki)
                ==> ((scalar_val(*x) != 0 && scalar_val(*x) < group_order() && point_repr(
                ed_sub(ro.i_tilde, ed_mul(ro.i_blind, gens.u)),
            ) != identity_repr()) ==> ki@ != identity_repr())),
{
    let ro = match rerandomized_output_from_bytes(rerandomized_output_bytes) {
        Ok(ro) => ro,
        Err(_) => {
            return Err(FcmpError::DecodeError);
        },
    };
    let claimed = point_add(
        &point_mul(x, &gens.g),
        &point_mul(&scalar_add(y, &ro.o_blind), &gens.t),
    );
    if !point_eq(&claimed, &ro.o_tilde) {
        return Err(FcmpError::CryptographicError);
    }
    let i_base = point_sub(&ro.i_tilde, &point_mul(&ro.i_blind, &gens.u));
    let key_image = point_mul(x, &i_base);
    Ok(point_to_bytes(&key_image))
}

} // verus!
