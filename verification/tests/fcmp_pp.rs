use ciphersuite::group::ff::Field;
use ciphersuite::group::{Group, GroupEncoding};
use dalek_ff_group::{EdwardsPoint, Scalar};

use fcmp_pp::blinds::{blind_c_blind, blind_i_blind, blind_i_blind_blind, blind_o_blind,
    branch_blind_new, generate_branch_blind, output_blinds_new};
use fcmp_pp::ed25519::{point_from_bytes, point_roundtrip, point_to_bytes,
    point_to_cycle_scalar, scalar_from_bytes, scalar_roundtrip, scalar_to_bytes, scalar_zero};
use fcmp_pp::output::{c_blind, i_blind, i_blind_blind, input_from_bytes, o_blind, output_from_bytes,
    rerandomize, rerandomize_output, rerandomized_output_from_bytes,
    rerandomized_output_to_bytes, Output, OutputBytes, RerandGens};
use fcmp_pp::path::{balance_last_pseudo_out, path_new, path_root, Branches};
use fcmp_pp::prove::{fcmp_pp_prove_input_new, fcmp_pp_prove_membership, fcmp_pp_prove_sal};
use fcmp_pp::tree::{grow_then_trim, hash_grow, hash_new, hash_trim, TreeRoot};
use fcmp_pp::verify::{batch_admissible, fcmp_plus_plus_from_bytes, fcmp_plus_plus_to_bytes,
    fcmp_pp_input_admissible, fcmp_pp_proof_size, fcmp_pp_verify_input_new,
    membership_material_admissible, membership_proof_size, sal_material_admissible,
    FcmpPlusPlus, SAL_PROOF_SIZE};
use fcmp_pp::{c_u8_32, CResult, FcmpError};

fn g() -> EdwardsPoint {
    EdwardsPoint::generator()
}

fn gp(k: u64) -> EdwardsPoint {
    g() * Scalar::from(k)
}

fn sc(k: u64) -> Scalar {
    Scalar::from(k)
}

fn rerand_gens() -> RerandGens {
    RerandGens { g: g(), t: gp(5), u: gp(7), v: gp(9) }
}

/// The canonical encoding of a small-order (torsioned) point, which the
/// prime-subgroup decoder must reject.
fn torsioned_bytes() -> [u8; 32] {
    let mut b = [0xffu8; 32];
    b[0] = 0xec;
    b[31] = 0x7f;
    b
}

fn output_bytes(o: EdwardsPoint, i: EdwardsPoint, c: EdwardsPoint) -> OutputBytes {
    OutputBytes { o: o.to_bytes(), i: i.to_bytes(), c: c.to_bytes() }
}

#[test]
fn point_codec_roundtrip() {
    let p = gp(7);
    let (bytes, back) = point_roundtrip(&p);
    assert_eq!(bytes.len(), 32);
    assert_eq!(bytes, p.to_bytes());
    assert_eq!(point_to_bytes(&p), p.to_bytes());
    assert_eq!(back, Some(p));
}

#[test]
fn point_codec_rejects_torsion() {
    assert!(point_from_bytes(&torsioned_bytes()).is_none());
}

#[test]
fn scalar_codec_roundtrip() {
    let s = sc(123456789);
    let (bytes, back) = scalar_roundtrip(&s);
    assert_eq!(bytes.len(), 32);
    assert_eq!(bytes, scalar_to_bytes(&s));
    assert_eq!(back, Some(s));
}

#[test]
fn scalar_codec_rejects_non_canonical() {
    assert!(scalar_from_bytes(&[0xffu8; 32]).is_none());
}

#[test]
fn zero_scalar_encodes_as_zeros() {
    assert_eq!(scalar_to_bytes(&scalar_zero()), [0u8; 32]);
}

#[test]
fn cycle_scalar_projection() {
    let p = gp(11);
    let mut wide = [0u8; 64];
    wide[..32].copy_from_slice(&p.to_bytes());
    let expected = Scalar::from_bytes_mod_order_wide(&wide);
    assert_eq!(point_to_cycle_scalar(&p), Ok(expected));
}

#[test]
fn cycle_scalar_rejects_identity() {
    let id = EdwardsPoint::identity();
    assert_eq!(point_to_cycle_scalar(&id), Err(FcmpError::ProjectionError));
}

#[test]
fn hash_grow_matches_direct_arithmetic() {
    let gens = vec![gp(101), gp(102), gp(103)];
    let h = gp(11);
    let prior = sc(4);
    let children = vec![sc(6), sc(8)];
    let grown = hash_grow(&gens, &h, 0, &prior, &children).unwrap();
    let expected = h - gens[0] * prior + gens[0] * children[0] + gens[1] * children[1];
    assert_eq!(grown, expected);

    let trimmed = hash_trim(&gens, &grown, 0, &children, &prior).unwrap();
    assert_eq!(trimmed, h);
}

#[test]
fn hash_grow_then_trim_restores_hash() {
    let gens = vec![gp(31), gp(32), gp(33), gp(34)];
    let h = gp(12);
    let prior = sc(9);
    let children = vec![sc(1), sc(2), sc(3)];
    assert_eq!(grow_then_trim(&gens, &h, 1, &prior, &children), Ok(h));
}

#[test]
fn hash_grow_checks_branching_factor() {
    let gens = vec![gp(41), gp(42)];
    let h = gp(3);
    let children = vec![sc(1), sc(2)];
    assert_eq!(
        hash_grow(&gens, &h, 1, &sc(0), &children),
        Err(FcmpError::StructuralMismatch)
    );
    let empty: Vec<Scalar> = Vec::new();
    assert_eq!(hash_grow(&gens, &h, 0, &sc(0), &empty), Err(FcmpError::StructuralMismatch));
    assert_eq!(hash_trim(&gens, &h, 1, &children, &sc(0)), Err(FcmpError::StructuralMismatch));
}

#[test]
fn output_decode_checks() {
    let ok = output_bytes(gp(1), gp(2), gp(3));
    let out = output_from_bytes(&ok).unwrap();
    assert_eq!(out.o, gp(1));
    assert_eq!(out.i, gp(2));
    assert_eq!(out.c, gp(3));

    let mut bad = output_bytes(gp(1), gp(2), gp(3));
    bad.i = torsioned_bytes();
    assert_eq!(output_from_bytes(&bad), Err(FcmpError::DecodeError));

    let ident = output_bytes(gp(1), EdwardsPoint::identity(), gp(3));
    assert_eq!(output_from_bytes(&ident), Err(FcmpError::CryptographicError));
}

#[test]
fn rerandomize_output_roundtrip() {
    let gens = rerand_gens();
    let o = gp(1);
    let i = gp(2);
    let c = gp(3);
    let bytes = rerandomize_output(&output_bytes(o, i, c), &gens).unwrap();
    assert_eq!(bytes.len(), 256);
    let ro = rerandomized_output_from_bytes(&bytes).unwrap();
    assert_eq!(ro.o_tilde, o + gens.t * ro.o_blind);
    assert_eq!(ro.i_tilde, i + gens.u * ro.i_blind);
    assert_eq!(ro.big_r, gens.v * ro.i_blind + gens.t * ro.i_blind_blind);
    assert_eq!(ro.c_tilde, c + gens.g * ro.c_blind);
    assert_eq!(rerandomized_output_to_bytes(&ro), bytes);

    assert_eq!(o_blind(&bytes), Ok(ro.o_blind));
    assert_eq!(i_blind(&bytes), Ok(ro.i_blind));
    assert_eq!(i_blind_blind(&bytes), Ok(ro.i_blind_blind));
    assert_eq!(c_blind(&bytes), Ok(ro.c_blind));

    let tuple = input_from_bytes(&bytes[..128]).unwrap();
    assert_eq!(tuple.o_tilde, ro.o_tilde);
    assert_eq!(tuple.i_tilde, ro.i_tilde);
    assert_eq!(tuple.big_r, ro.big_r);
    assert_eq!(tuple.c_tilde, ro.c_tilde);

    assert_eq!(input_from_bytes(&bytes[..127]), Err(FcmpError::DecodeError));
    assert_eq!(
        rerandomized_output_from_bytes(&bytes[..255]),
        Err(FcmpError::DecodeError)
    );
}

#[test]
fn blinds_reject_zero_scalars() {
    let z = Scalar::ZERO;
    assert_eq!(blind_o_blind(&z, &gp(5)).err(), Some(FcmpError::CryptographicError));
    assert_eq!(blind_c_blind(&z, &g()).err(), Some(FcmpError::CryptographicError));
    assert_eq!(blind_i_blind(&z, &gp(7), &gp(9)).err(), Some(FcmpError::CryptographicError));
    assert_eq!(blind_i_blind_blind(&z, &gp(5)).err(), Some(FcmpError::CryptographicError));
}

#[test]
fn blinds_commit_under_generators() {
    let t = gp(5);
    let u = gp(7);
    let v = gp(9);
    let s = sc(13);
    let ob = blind_o_blind(&s, &t).unwrap();
    assert_eq!(ob.commitment, t * s);
    let cb = blind_c_blind(&s, &g()).unwrap();
    assert_eq!(cb.commitment, g() * s);
    let ib = blind_i_blind(&s, &u, &v).unwrap();
    assert_eq!(ib.commitment_u, u * s);
    assert_eq!(ib.commitment_v, v * s);
    let ibb = blind_i_blind_blind(&s, &t).unwrap();
    assert_eq!(ibb.commitment, t * s);
    let bundle = output_blinds_new(&ob, &ib, &ibb, &cb);
    assert_eq!(bundle.o_blind.scalar, s);

    let h = gp(77);
    let branch = generate_branch_blind(&h).unwrap();
    assert_eq!(branch.commitment, h * branch.scalar);

    // The committer under the draw: zero rejected, the commitment pinned.
    assert_eq!(branch_blind_new(&Scalar::ZERO, &h).err(), Some(FcmpError::CryptographicError));
    let fixed = branch_blind_new(&sc(21), &h).unwrap();
    assert_eq!(fixed.scalar, sc(21));
    assert_eq!(fixed.commitment, h * sc(21));
}

#[test]
fn path_new_validates_leaves() {
    let leaves: Vec<OutputBytes> = (0..4)
        .map(|k| output_bytes(gp(k + 1), gp(k + 10), gp(k + 20)))
        .collect();
    let path = path_new(&leaves, 2, Vec::new(), Vec::new()).unwrap();
    assert_eq!(path.leaves.len(), 4);
    assert_eq!(path.output.o, gp(3));

    assert_eq!(
        path_new(&leaves, 4, Vec::new(), Vec::new()).err(),
        Some(FcmpError::StructuralMismatch)
    );

    let mut bad = vec![output_bytes(gp(1), gp(2), gp(3))];
    bad[0].o = torsioned_bytes();
    assert_eq!(
        path_new(&bad, 0, Vec::new(), Vec::new()).err(),
        Some(FcmpError::DecodeError)
    );
}

#[test]
fn branches_shape_and_blind_counts() {
    let leaves: Vec<OutputBytes> = (0..2)
        .map(|k| output_bytes(gp(k + 1), gp(k + 10), gp(k + 20)))
        .collect();
    // Depth two: one second-role sibling chunk, none on the first role.
    let p0 = path_new(&leaves, 0, vec![vec![sc(40), sc(41)]], Vec::new()).unwrap();
    let p1 = path_new(&leaves, 1, vec![vec![sc(42), sc(43)]], Vec::new()).unwrap();
    let branches = Branches::new(vec![p0, p1]).unwrap();
    assert_eq!(branches.necessary_c1_blinds(), Some(2));
    assert_eq!(branches.necessary_c2_blinds(), Some(0));

    let q0 = path_new(&leaves, 0, vec![vec![sc(40)]], Vec::new()).unwrap();
    let q1 = path_new(&leaves, 1, Vec::new(), Vec::new()).unwrap();
    assert_eq!(Branches::new(vec![q0, q1]).err(), Some(FcmpError::StructuralMismatch));
    assert_eq!(Branches::new(Vec::new()).err(), Some(FcmpError::StructuralMismatch));
}

#[test]
fn balance_last_pseudo_out_balances() {
    let gens = rerand_gens();
    let out_a = output_from_bytes(&output_bytes(gp(1), gp(2), gp(3))).unwrap();
    let out_b = output_from_bytes(&output_bytes(gp(4), gp(5), gp(6))).unwrap();
    let ro_a = rerandomize(&out_a, &gens);
    let ro_b = rerandomize(&out_b, &gens);
    let mut inputs = vec![ro_a, ro_b];

    let sum_input_masks = ro_a.c_blind + ro_b.c_blind;
    let sum_output_masks = sum_input_masks + sc(42);
    balance_last_pseudo_out(&sum_input_masks, &sum_output_masks, &mut inputs, &gens.g).unwrap();

    assert_eq!(inputs[0], ro_a);
    assert_eq!(inputs[1].c_blind, ro_b.c_blind + sc(42));
    assert_eq!(inputs[0].c_blind + inputs[1].c_blind, sum_output_masks);
    // The rerandomized commitment is re-derived for the new blind.
    assert_eq!(inputs[1].c_tilde, out_b.c + gens.g * inputs[1].c_blind);
    assert_eq!(inputs[1].o_tilde, ro_b.o_tilde);

    let mut empty: Vec<fcmp_pp::output::RerandomizedOutput> = Vec::new();
    assert_eq!(
        balance_last_pseudo_out(&sum_input_masks, &sum_output_masks, &mut empty, &gens.g).err(),
        Some(FcmpError::StructuralMismatch)
    );
}

#[test]
fn prove_membership_enforces_blind_counts() {
    let gens = rerand_gens();
    let leaves: Vec<OutputBytes> =
        (0..2).map(|k| output_bytes(gp(k + 1), gp(k + 10), gp(k + 20))).collect();
    let path = path_new(&leaves, 0, vec![vec![sc(40), sc(41)]], Vec::new()).unwrap();
    let out = output_from_bytes(&leaves[0]).unwrap();
    let ro = rerandomize(&out, &gens);
    let ob = blind_o_blind(&ro.o_blind, &gens.t).unwrap();
    let ib = blind_i_blind(&ro.i_blind, &gens.u, &gens.v).unwrap();
    let ibb = blind_i_blind_blind(&ro.i_blind_blind, &gens.t).unwrap();
    let cb = blind_c_blind(&ro.c_blind, &gens.g).unwrap();
    let blinds = output_blinds_new(&ob, &ib, &ibb, &cb);
    let branch = generate_branch_blind(&gp(77)).unwrap();

    let input = fcmp_pp_prove_input_new(path, blinds, vec![branch], Vec::new());
    let blob = fcmp_pp_prove_membership(&vec![input], 2).unwrap();
    assert_eq!(blob, branch.commitment.to_bytes().to_vec());

    // A claimed depth that is not one more than the blinds per input
    // fails before any proving work.
    let path2 = path_new(&leaves, 0, vec![vec![sc(40), sc(41)]], Vec::new()).unwrap();
    let input2 = fcmp_pp_prove_input_new(path2, blinds, vec![branch], Vec::new());
    assert_eq!(
        fcmp_pp_prove_membership(&vec![input2], 3).err(),
        Some(FcmpError::StructuralMismatch)
    );

    // Too many branch blinds for the shape fail as well.
    let path3 = path_new(&leaves, 0, vec![vec![sc(40), sc(41)]], Vec::new()).unwrap();
    let input3 = fcmp_pp_prove_input_new(path3, blinds, vec![branch, branch], Vec::new());
    assert_eq!(
        fcmp_pp_prove_membership(&vec![input3], 2).err(),
        Some(FcmpError::StructuralMismatch)
    );

    assert_eq!(
        fcmp_pp_prove_membership(&Vec::new(), 2).err(),
        Some(FcmpError::StructuralMismatch)
    );
}

#[test]
fn prove_sal_checks_opening_and_derives_key_image() {
    let gens = rerand_gens();
    let x = sc(31);
    let y = sc(17);
    let o = gens.g * x + gens.t * y;
    let i = gp(4);
    let c = gp(6);
    let bytes = rerandomize_output(&output_bytes(o, i, c), &gens).unwrap();

    let ki = fcmp_pp_prove_sal(&x, &y, &bytes, &gens).unwrap();
    assert_eq!(ki, (i * x).to_bytes());
    assert_ne!(ki, EdwardsPoint::identity().to_bytes());

    let wrong_x = sc(32);
    assert_eq!(
        fcmp_pp_prove_sal(&wrong_x, &y, &bytes, &gens).err(),
        Some(FcmpError::CryptographicError)
    );
    assert_eq!(
        fcmp_pp_prove_sal(&x, &y, &bytes[..200], &gens).err(),
        Some(FcmpError::DecodeError)
    );
}

#[test]
fn proof_sizes_are_computed() {
    assert_eq!(membership_proof_size(1, 2), Some(32));
    assert_eq!(membership_proof_size(3, 1), Some(0));
    assert_eq!(fcmp_pp_proof_size(1, 2), Some(SAL_PROOF_SIZE + 32));
    assert_eq!(fcmp_pp_proof_size(2, 3), Some(2 * SAL_PROOF_SIZE + 128));
}

#[test]
fn aggregate_proof_roundtrip() {
    let fp = FcmpPlusPlus {
        sal_proofs: vec![vec![0xabu8; 384]],
        membership_proof: gp(77).to_bytes().to_vec(),
    };
    let bytes = fcmp_plus_plus_to_bytes(&fp);
    assert_eq!(bytes.len(), 384 + 32);
    let parsed = fcmp_plus_plus_from_bytes(&bytes, 1, 2).unwrap();
    assert_eq!(parsed.sal_proofs, fp.sal_proofs);
    assert_eq!(parsed.membership_proof, fp.membership_proof);

    assert_eq!(
        fcmp_plus_plus_from_bytes(&bytes[..400], 1, 2).err(),
        Some(FcmpError::StructuralMismatch)
    );
    assert_eq!(
        fcmp_plus_plus_from_bytes(&bytes, 0, 2).err(),
        Some(FcmpError::StructuralMismatch)
    );
}

fn sample_verify_input(
    membership_chunk: [u8; 32],
    key_image: [u8; 32],
    root: TreeRoot,
) -> Result<fcmp_pp::verify::FcmpPpVerifyInput, FcmpError> {
    let fp = FcmpPlusPlus {
        sal_proofs: vec![vec![0u8; 384]],
        membership_proof: membership_chunk.to_vec(),
    };
    let proof = fcmp_plus_plus_to_bytes(&fp);
    fcmp_pp_verify_input_new(
        &[0x11u8; 32],
        &proof,
        2,
        &root,
        vec![gp(6).to_bytes()],
        &vec![key_image],
    )
}

// The admission tests below exercise structural admissibility only: the
// library never reads the sub-proof blobs, and the accept/reject
// decision on the proofs belongs to the external argument systems.
#[test]
fn verify_input_structural_checks() {
    let root = TreeRoot::C2(gp(50));
    let ok = sample_verify_input(gp(77).to_bytes(), gp(5).to_bytes(), root);
    assert!(ok.is_ok());

    // A depth-two root lives on the second role; a first-role tag fails.
    let wrong_tag = sample_verify_input(gp(77).to_bytes(), gp(5).to_bytes(), TreeRoot::C1(gp(50)));
    assert_eq!(wrong_tag.err(), Some(FcmpError::StructuralMismatch));

    // A key image that does not decode canonically fails.
    let bad_ki = sample_verify_input(gp(77).to_bytes(), torsioned_bytes(), TreeRoot::C2(gp(50)));
    assert_eq!(bad_ki.err(), Some(FcmpError::DecodeError));

    // Mismatched pseudo-output and key-image counts fail.
    let fp = FcmpPlusPlus {
        sal_proofs: vec![vec![0u8; 384]],
        membership_proof: gp(77).to_bytes().to_vec(),
    };
    let proof = fcmp_plus_plus_to_bytes(&fp);
    let r = fcmp_pp_verify_input_new(
        &[0x11u8; 32],
        &proof,
        2,
        &TreeRoot::C2(gp(50)),
        vec![gp(6).to_bytes()],
        &vec![gp(5).to_bytes(), gp(8).to_bytes()],
    );
    assert_eq!(r.err(), Some(FcmpError::StructuralMismatch));

    let r = fcmp_pp_verify_input_new(
        &[0x11u8; 32],
        &proof,
        2,
        &TreeRoot::C2(gp(50)),
        Vec::new(),
        &Vec::new(),
    );
    assert_eq!(r.err(), Some(FcmpError::StructuralMismatch));
}

// Batch admission is the conjunction of each member's admissibility;
// the cryptographic content of the blobs is out of scope here.
#[test]
fn batch_admission_is_conjunction() {
    let root = TreeRoot::C2(gp(50));
    let good = sample_verify_input(gp(77).to_bytes(), gp(5).to_bytes(), root).unwrap();
    // An identity key image decodes but must be rejected by verification.
    let ident_ki =
        sample_verify_input(gp(77).to_bytes(), EdwardsPoint::identity().to_bytes(), root)
            .unwrap();
    // A membership block that is no canonical point must be rejected.
    let bad_chunk = sample_verify_input(torsioned_bytes(), gp(5).to_bytes(), root).unwrap();

    let a = fcmp_pp_input_admissible(&good);
    let b = fcmp_pp_input_admissible(&ident_ki);
    let c = fcmp_pp_input_admissible(&bad_chunk);
    assert!(a);
    assert!(!b);
    assert!(!c);

    let good2 = sample_verify_input(gp(78).to_bytes(), gp(15).to_bytes(), root).unwrap();
    let a2 = fcmp_pp_input_admissible(&good2);
    assert!(batch_admissible(&vec![good, good2]));
    let good = sample_verify_input(gp(77).to_bytes(), gp(5).to_bytes(), root).unwrap();
    let good2 = sample_verify_input(gp(78).to_bytes(), gp(15).to_bytes(), root).unwrap();
    assert_eq!(batch_admissible(&vec![good, good2]), a && a2);
    let good = sample_verify_input(gp(77).to_bytes(), gp(5).to_bytes(), root).unwrap();
    assert_eq!(batch_admissible(&vec![good, ident_ki]), a && b);
    assert!(!batch_admissible(&vec![bad_chunk]));
    assert!(batch_admissible(&Vec::new()));
}

#[test]
fn boundary_helpers() {
    let bytes = [9u8; 32];
    assert_eq!(c_u8_32(bytes), bytes.to_vec());
    let ok: CResult<u32, FcmpError> = CResult::ok(5);
    assert_eq!(ok.value, Some(5));
    assert_eq!(ok.err, None);
    let e: CResult<u32, FcmpError> = CResult::err(FcmpError::DecodeError);
    assert_eq!(e.value, None);
    assert_eq!(e.err, Some(FcmpError::DecodeError));
}

/// A depth-two tree with four leaves: hash the leaf layer, project its
/// hash onto the cycle partner, hash the branch layer into the root, then
/// run the whole proving front for the output at index two and verify the
/// assembled aggregate structurally. A different leaf set yields a
/// different root.
#[test]
fn depth_two_tree_scenario() {
    let gens = rerand_gens();
    let x = sc(3);
    let y = sc(2);
    let target_o = gens.g * x + gens.t * y;
    let mut leaves: Vec<OutputBytes> = Vec::new();
    let mut outputs: Vec<Output> = Vec::new();
    for k in 0..4u64 {
        let o = if k == 2 { target_o } else { gp(k + 1) };
        let ob = output_bytes(o, gp(k + 10), gp(k + 20));
        outputs.push(output_from_bytes(&ob).unwrap());
        leaves.push(ob);
    }

    // Leaf layer: three projected scalars per output, hashed under the
    // first role's generators.
    let mut leaf_scalars: Vec<Scalar> = Vec::new();
    for out in &outputs {
        leaf_scalars.push(point_to_cycle_scalar(&out.o).unwrap());
        leaf_scalars.push(point_to_cycle_scalar(&out.i).unwrap());
        leaf_scalars.push(point_to_cycle_scalar(&out.c).unwrap());
    }
    let gens1: Vec<EdwardsPoint> = (0..12).map(|k| gp(100 + k)).collect();
    let init1 = gp(55);
    let h0 = hash_grow(&gens1, &init1, 0, &Scalar::ZERO, &leaf_scalars).unwrap();

    // Branch layer: the projected leaf hash is the root's only child.
    let s1 = point_to_cycle_scalar(&h0).unwrap();
    let chunk1 = vec![s1];
    let gens2: Vec<EdwardsPoint> = vec![gp(200)];
    let init2 = gp(56);
    let root_point = hash_grow(&gens2, &init2, 0, &Scalar::ZERO, &chunk1).unwrap();
    let root = TreeRoot::C2(root_point);

    // The proving front: path, blinds, opening, key image, composition.
    let path = path_new(&leaves, 2, vec![chunk1], Vec::new()).unwrap();
    // Recomputing the root through the path agrees with building the
    // tree layer by layer.
    assert_eq!(
        path_root(&path, &gens1, &gens2, &init1, &init2),
        Ok(TreeRoot::C2(root_point))
    );
    let ro_bytes = rerandomize_output(&leaves[2], &gens).unwrap();
    let ro = rerandomized_output_from_bytes(&ro_bytes).unwrap();
    let ob = blind_o_blind(&o_blind(&ro_bytes).unwrap(), &gens.t).unwrap();
    let ib = blind_i_blind(&i_blind(&ro_bytes).unwrap(), &gens.u, &gens.v).unwrap();
    let ibb = blind_i_blind_blind(&i_blind_blind(&ro_bytes).unwrap(), &gens.t).unwrap();
    let cb = blind_c_blind(&c_blind(&ro_bytes).unwrap(), &gens.g).unwrap();
    let blinds = output_blinds_new(&ob, &ib, &ibb, &cb);
    let branch = generate_branch_blind(&gp(177)).unwrap();
    let input = fcmp_pp_prove_input_new(path, blinds, vec![branch], Vec::new());
    let membership = fcmp_pp_prove_membership(&vec![input], 2).unwrap();

    let key_image = fcmp_pp_prove_sal(&x, &y, &ro_bytes, &gens).unwrap();
    assert_eq!(key_image, (outputs[2].i * x).to_bytes());

    let fp = FcmpPlusPlus { sal_proofs: vec![vec![0u8; 384]], membership_proof: membership };
    let proof = fcmp_plus_plus_to_bytes(&fp);
    let vi = fcmp_pp_verify_input_new(
        &[0x42u8; 32],
        &proof,
        2,
        &root,
        vec![ro.c_tilde.to_bytes()],
        &vec![key_image],
    )
    .unwrap();
    assert!(fcmp_pp_input_admissible(&vi));
    assert!(batch_admissible(&vec![vi]));

    // A tree over a different leaf set has a different root.
    let mut other_scalars = leaf_scalars.clone();
    other_scalars[0] = point_to_cycle_scalar(&gp(99)).unwrap();
    let other_h0 = hash_grow(&gens1, &init1, 0, &Scalar::ZERO, &other_scalars).unwrap();
    let other_root =
        hash_grow(&gens2, &init2, 0, &Scalar::ZERO, &vec![point_to_cycle_scalar(&other_h0).unwrap()])
            .unwrap();
    assert_ne!(root_point.to_bytes(), other_root.to_bytes());

    // The same proof against a root tagged for the wrong role fails the
    // structural checks.
    let wrong = fcmp_pp_verify_input_new(
        &[0x42u8; 32],
        &proof,
        2,
        &TreeRoot::C1(root_point),
        vec![ro.c_tilde.to_bytes()],
        &vec![key_image],
    );
    assert_eq!(wrong.err(), Some(FcmpError::StructuralMismatch));
}

// Admissibility of the spend-authorization material; the 384-byte blob
// itself is opaque to the library.
#[test]
fn sal_material_checks() {
    let gens = rerand_gens();
    let ro_bytes = rerandomize_output(&output_bytes(gp(1), gp(2), gp(3)), &gens).unwrap();
    let input = &ro_bytes[..128];
    let tx = [0x33u8; 32];
    let ki = gp(5).to_bytes();
    let sal = vec![0u8; 384];

    assert!(sal_material_admissible(&tx, input, &ki, &sal));
    assert!(!sal_material_admissible(&tx[..31], input, &ki, &sal));
    assert!(!sal_material_admissible(&tx, &input[..127], &ki, &sal));
    assert!(!sal_material_admissible(&tx, input, &torsioned_bytes(), &sal));
    assert!(!sal_material_admissible(&tx, input, &EdwardsPoint::identity().to_bytes(), &sal));
    assert!(!sal_material_admissible(&tx, input, &ki, &sal[..383]));
}

// Admissibility of the membership statement; whether it opens to the
// root is the external argument system's question.
#[test]
fn membership_material_checks() {
    let gens = rerand_gens();
    let ro_bytes = rerandomize_output(&output_bytes(gp(1), gp(2), gp(3)), &gens).unwrap();
    let tuples = vec![ro_bytes[..128].to_vec()];
    let root = TreeRoot::C2(gp(50));
    let chunk = gp(77).to_bytes();

    assert!(membership_material_admissible(&tuples, &root, 2, &chunk));
    assert!(!membership_material_admissible(&tuples, &TreeRoot::C1(gp(50)), 2, &chunk));
    assert!(!membership_material_admissible(&tuples, &root, 3, &chunk));
    assert!(!membership_material_admissible(&tuples, &root, 2, &chunk[..31]));
    assert!(!membership_material_admissible(&tuples, &root, 2, &torsioned_bytes()));
    assert!(!membership_material_admissible(&Vec::new(), &root, 2, &[]));
    let bad_tuples = vec![ro_bytes[..127].to_vec()];
    assert!(!membership_material_admissible(&bad_tuples, &root, 2, &chunk));
}

#[test]
fn path_root_authenticates_membership() {
    let leaves: Vec<OutputBytes> = (0..4)
        .map(|k| output_bytes(gp(k + 1), gp(k + 10), gp(k + 20)))
        .collect();
    let outputs: Vec<Output> = leaves.iter().map(|b| output_from_bytes(b).unwrap()).collect();
    let mut leaf_scalars: Vec<Scalar> = Vec::new();
    for out in &outputs {
        leaf_scalars.push(point_to_cycle_scalar(&out.o).unwrap());
        leaf_scalars.push(point_to_cycle_scalar(&out.i).unwrap());
        leaf_scalars.push(point_to_cycle_scalar(&out.c).unwrap());
    }
    let gens1: Vec<EdwardsPoint> = (0..12).map(|k| gp(300 + k)).collect();
    let gens2: Vec<EdwardsPoint> = vec![gp(400), gp(401)];
    let init1 = gp(55);
    let init2 = gp(56);

    let h0 = hash_new(&gens1, &init1, &leaf_scalars).unwrap();
    let s1 = point_to_cycle_scalar(&h0).unwrap();
    let sibling = point_to_cycle_scalar(&gp(500)).unwrap();
    let chunk1 = vec![s1, sibling];
    let expected_root = hash_new(&gens2, &init2, &chunk1).unwrap();

    let path = path_new(&leaves, 2, vec![chunk1], Vec::new()).unwrap();
    assert_eq!(
        path_root(&path, &gens1, &gens2, &init1, &init2),
        Ok(TreeRoot::C2(expected_root))
    );

    // A sibling chunk that does not contain the leaf hash's projection
    // does not authenticate.
    let bad_chunk = vec![sibling, sibling];
    let bad_path = path_new(&leaves, 2, vec![bad_chunk], Vec::new()).unwrap();
    assert_eq!(
        path_root(&bad_path, &gens1, &gens2, &init1, &init2).err(),
        Some(FcmpError::CryptographicError)
    );

    // A path over a different leaf set climbs to a different root.
    let mut other_leaves = leaves.clone();
    other_leaves[0] = output_bytes(gp(99), gp(10), gp(20));
    let other_outputs: Vec<Output> =
        other_leaves.iter().map(|b| output_from_bytes(b).unwrap()).collect();
    let mut other_scalars: Vec<Scalar> = Vec::new();
    for out in &other_outputs {
        other_scalars.push(point_to_cycle_scalar(&out.o).unwrap());
        other_scalars.push(point_to_cycle_scalar(&out.i).unwrap());
        other_scalars.push(point_to_cycle_scalar(&out.c).unwrap());
    }
    let other_h0 = hash_new(&gens1, &init1, &other_scalars).unwrap();
    let other_chunk = vec![point_to_cycle_scalar(&other_h0).unwrap(), sibling];
    let other_path = path_new(&other_leaves, 2, vec![other_chunk], Vec::new()).unwrap();
    let other_root = path_root(&other_path, &gens1, &gens2, &init1, &init2).unwrap();
    assert_ne!(other_root, TreeRoot::C2(expected_root));

    // Chunks that outnumber the branching factor are structural errors.
    let wide_chunk = vec![s1, sibling, sibling];
    let wide_path = path_new(&leaves, 2, vec![wide_chunk], Vec::new()).unwrap();
    assert_eq!(
        path_root(&wide_path, &gens1, &gens2, &init1, &init2).err(),
        Some(FcmpError::StructuralMismatch)
    );
}

#[test]
fn path_root_depth_three_alternates_roles() {
    let leaves: Vec<OutputBytes> =
        (0..2).map(|k| output_bytes(gp(k + 1), gp(k + 10), gp(k + 20))).collect();
    let outputs: Vec<Output> = leaves.iter().map(|b| output_from_bytes(b).unwrap()).collect();
    let mut leaf_scalars: Vec<Scalar> = Vec::new();
    for out in &outputs {
        leaf_scalars.push(point_to_cycle_scalar(&out.o).unwrap());
        leaf_scalars.push(point_to_cycle_scalar(&out.i).unwrap());
        leaf_scalars.push(point_to_cycle_scalar(&out.c).unwrap());
    }
    let gens1: Vec<EdwardsPoint> = (0..6).map(|k| gp(700 + k)).collect();
    let gens2: Vec<EdwardsPoint> = vec![gp(800), gp(801)];
    let init1 = gp(57);
    let init2 = gp(58);

    // Layer one: the leaf hash and one sibling, on the second role.
    let h0 = hash_new(&gens1, &init1, &leaf_scalars).unwrap();
    let chunk1 = vec![point_to_cycle_scalar(&h0).unwrap(), point_to_cycle_scalar(&gp(900)).unwrap()];
    let h1 = hash_new(&gens2, &init2, &chunk1).unwrap();

    // Layer two: the root's children, back on the first role.
    let chunk2 = vec![point_to_cycle_scalar(&h1).unwrap()];
    let root = hash_new(&gens1, &init1, &chunk2).unwrap();

    let path = path_new(&leaves, 0, vec![chunk1], vec![chunk2]).unwrap();
    assert_eq!(
        path_root(&path, &gens1, &gens2, &init1, &init2),
        Ok(TreeRoot::C1(root))
    );
}

// The blind counts are pooled over the batch, so an uneven distribution
// across the inputs is accepted when the totals fit the shape.
#[test]
fn prove_membership_pools_blind_counts() {
    let gens = rerand_gens();
    let leaves: Vec<OutputBytes> =
        (0..2).map(|k| output_bytes(gp(k + 1), gp(k + 10), gp(k + 20))).collect();
    // Depth three: per input the shape needs one blind per role; pooled,
    // the batch needs two per role.
    let shape = (vec![vec![sc(40)]], vec![vec![sc(41)]]);
    let out = output_from_bytes(&leaves[0]).unwrap();
    let ro = rerandomize(&out, &gens);
    let ob = blind_o_blind(&ro.o_blind, &gens.t).unwrap();
    let ib = blind_i_blind(&ro.i_blind, &gens.u, &gens.v).unwrap();
    let ibb = blind_i_blind_blind(&ro.i_blind_blind, &gens.t).unwrap();
    let cb = blind_c_blind(&ro.c_blind, &gens.g).unwrap();
    let blinds = output_blinds_new(&ob, &ib, &ibb, &cb);
    let branch = generate_branch_blind(&gp(77)).unwrap();

    let path_a = path_new(&leaves, 0, shape.0.clone(), shape.1.clone()).unwrap();
    let path_b = path_new(&leaves, 1, shape.0.clone(), shape.1.clone()).unwrap();
    // Input A carries both first-role blinds, input B none of them; the
    // second-role blinds sit one per input.
    let input_a = fcmp_pp_prove_input_new(path_a, blinds, vec![branch, branch], vec![branch]);
    let input_b = fcmp_pp_prove_input_new(path_b, blinds, Vec::new(), vec![branch]);
    let blob = fcmp_pp_prove_membership(&vec![input_a, input_b], 3).unwrap();
    assert_eq!(blob.len(), 2 * 2 * 32);

    // Wrong pooled totals still fail.
    let path_c = path_new(&leaves, 0, shape.0.clone(), shape.1.clone()).unwrap();
    let path_d = path_new(&leaves, 1, shape.0.clone(), shape.1.clone()).unwrap();
    let input_c = fcmp_pp_prove_input_new(path_c, blinds, vec![branch, branch], vec![branch]);
    let input_d = fcmp_pp_prove_input_new(path_d, blinds, vec![branch], vec![branch]);
    assert_eq!(
        fcmp_pp_prove_membership(&vec![input_c, input_d], 3).err(),
        Some(FcmpError::StructuralMismatch)
    );
}
