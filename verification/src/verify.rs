//! The batch verifier's front: the aggregate proof layout (one fixed-size
//! spend-authorization proof per input, then the membership statement),
//! the structural checks that reject a malformed call before any curve
//! arithmetic, and the batch law: a batch is accepted exactly when every
//! one of its inputs passes verification.
//!
//! What verification decides here is structural admissibility of the
//! material — counts, lengths, parity of the root's tag, canonical
//! encodings, non-identity key images — and never cryptographic
//! validity: the spend-authorization and membership blobs belong to the
//! external argument systems and pass through unread. In particular,
//! acceptance does not depend on the signable hash's value, the root's
//! point, the pseudo-output values, or any byte of the sub-proof blobs;
//! material; these functions only refuse material the systems could not
//! consume.

use vstd::prelude::*;
use vstd::slice::slice_subrange;

use crate::FcmpError;
use crate::ed25519::{chunks_decodable, identity_repr, point_decodable, point_from_bytes,
    point_is_identity, point_repr};
use crate::tree::TreeRoot;

verus! {

/// The byte size of one serialized spend-authorization-and-linkability
/// proof: twelve 32-byte elements.
pub const SAL_PROOF_SIZE: usize = 384;

/// The byte size of the membership statement for a batch: one 32-byte
/// blinded branch commitment per non-root layer, per input.
pub fn membership_proof_size(n_inputs: usize, n_tree_layers: usize) -> (r: Option<usize>)
    requires
        n_tree_layers >= 1,
    ensures
        r matches Some(s) ==> s == 32 * (n_tree_layers - 1) * n_inputs,
        r is None <==> 32 * (n_tree_layers - 1) * n_inputs > usize::MAX,
{
    match 32usize.checked_mul(n_tree_layers - 1) {
        Some(per) => {
            let r = per.checked_mul(n_inputs);
            proof {
                assert(32 * (n_tree_layers - 1) * n_inputs == (32 * (n_tree_layers - 1))
                    * n_inputs) by (nonlinear_arith);
            }
            r
        },
        None => {
            proof {
                assert(32 * (n_tree_layers as int - 1) > usize::MAX && n_inputs >= 1 ==> 32 * (
                n_tree_layers as int - 1) * n_inputs > usize::MAX) by (nonlinear_arith);
                assert(n_inputs == 0 ==> 32 * (n_tree_layers as int - 1) * n_inputs == 0)
                    by (nonlinear_arith);
                if n_inputs == 0 {
                    assert(32 * (n_tree_layers as int - 1) * n_inputs <= usize::MAX);
                }
            }
            if n_inputs == 0 {
                Some(0)
            } else {
                None
            }
        },
    }
}

/// The byte size of a whole aggregate proof: one fixed-size
/// spend-authorization proof per input, then the membership statement.
pub fn fcmp_pp_proof_size(n_inputs: usize, n_tree_layers: usize) -> (r: Option<usize>)
    requires
        n_tree_layers >= 1,
    ensures
        r matches Some(s) ==> s == n_inputs * 384 + 32 * (n_tree_layers - 1) * n_inputs,
        r is None <==> n_inputs * 384 + 32 * (n_tree_layers - 1) * n_inputs > usize::MAX,
{
    let sal = match n_inputs.checked_mul(SAL_PROOF_SIZE) {
        Some(s) => s,
        None => {
            proof {
                assert(n_inputs * 384 > usize::MAX ==> n_inputs * 384 + 32 * (n_tree_layers
                    as int - 1) * n_inputs > usize::MAX) by (nonlinear_arith)
                    requires
                        n_tree_layers >= 1,
                ;
            }
            return None;
        },
    };
    match membership_proof_size(n_inputs, n_tree_layers) {
        Some(m) => sal.checked_add(m),
        None => None,
    }
}

/// A parsed aggregate proof: the per-input spend-authorization proofs and
/// the opaque membership statement.
pub struct FcmpPlusPlus {
    pub sal_proofs: Vec<Vec<u8>>,
    pub membership_proof: Vec<u8>,
}

/// Each spend-authorization proof has its fixed size.
pub open spec fn fcmp_pp_wf(fp: FcmpPlusPlus) -> bool {
    forall|j: int| 0 <= j < fp.sal_proofs@.len() ==> (#[trigger] fp.sal_proofs@[j])@.len() == 384
}

/// A run of byte blocks laid out back to back.
pub open spec fn concat_bytes(s: Seq<Seq<u8>>) -> Seq<u8>
    decreases s.len(),
{
    if s.len() == 0 {
        Seq::empty()
    } else {
        concat_bytes(s.drop_last()) + s.last()
    }
}

/// The wire form of an aggregate proof: the spend-authorization proofs in
/// input order, then the membership statement.
pub open spec fn fcmp_pp_bytes_spec(fp: FcmpPlusPlus) -> Seq<u8> {
    concat_bytes(fp.sal_proofs@.map_values(|v: Vec<u8>| v@)) + fp.membership_proof@
}

/// A run of 384-byte blocks lays out to 384 bytes per block.
pub proof fn lemma_concat_fixed_len(s: Seq<Seq<u8>>)
    requires
        forall|j: int| 0 <= j < s.len() ==> (#[trigger] s[j]).len() == 384,
    ensures
        concat_bytes(s).len() == 384 * s.len(),
    decreases s.len(),
{
    if s.len() > 0 {
        assert(forall|j: int|
            0 <= j < s.drop_last().len() ==> (#[trigger] s.drop_last()[j]).len() == 384);
        lemma_concat_fixed_len(s.drop_last());
    }
}

/// A well-formed aggregate proof serializes to exactly the precomputed
/// proof size for its shape: its byte length is a function of the input
/// count and tree depth alone.
pub proof fn lemma_proof_size_exact(fp: FcmpPlusPlus, n_inputs: int, n_tree_layers: int)
    requires
        fcmp_pp_wf(fp),
        fp.sal_proofs@.len() == n_inputs,
        n_tree_layers >= 1,
        fp.membership_proof@.len() == 32 * (n_tree_layers - 1) * n_inputs,
    ensures
        fcmp_pp_bytes_spec(fp).len() == n_inputs * 384 + 32 * (n_tree_layers - 1) * n_inputs,
{
    let s = fp.sal_proofs@.map_values(|v: Vec<u8>| v@);
    assert(forall|j: int| 0 <= j < s.len() ==> (#[trigger] s[j]).len() == 384) by {
        assert(forall|j: int|
            0 <= j < s.len() ==> s[j] == (#[trigger] fp.sal_proofs@[j])@);
    }
    lemma_concat_fixed_len(s);
}

/// Append a byte slice to a buffer.
pub fn push_bytes(out: &mut Vec<u8>, bytes: &[u8])
    ensures
        final(out)@ == old(out)@ + bytes@,
{
    let n = bytes.len();
    let mut i: usize = 0;
    while i < n
        invariant
            n == bytes@.len(),
            i <= n,
            out@ == old(out)@ + bytes@.subrange(0, i as int),
        decreases n - i,
    {
        out.push(bytes[i]);
        assert(out@ == old(out)@ + bytes@.subrange(0, i + 1 as int));
        i = i + 1;
    }
    assert(bytes@.subrange(0, n as int) =~= bytes@);
}

/// Serialize an aggregate proof to its wire form.
pub fn fcmp_plus_plus_to_bytes(fp: &FcmpPlusPlus) -> (r: Vec<u8>)
    ensures
        r@ == fcmp_pp_bytes_spec(*fp),
{
    let mut out: Vec<u8> = Vec::new();
    let n = fp.sal_proofs.len();
    let mut j: usize = 0;
    while j < n
        invariant
            n == fp.sal_proofs@.len(),
            j <= n,
            out@ == concat_bytes(
                fp.sal_proofs@.subrange(0, j as int).map_values(|v: Vec<u8>| v@),
            ),
        decreases n - j,
    {
        push_bytes(&mut out, fp.sal_proofs[j].as_slice());
        proof {
            let s = fp.sal_proofs@.subrange(0, j + 1 as int).map_values(|v: Vec<u8>| v@);
            let pre = fp.sal_proofs@.subrange(0, j as int).map_values(|v: Vec<u8>| v@);
            assert(s.drop_last() =~= pre);
            assert(s.last() == fp.sal_proofs@[j as int]@);
        }
        j = j + 1;
    }
    proof {
        assert(fp.sal_proofs@.subrange(0, n as int) =~= fp.sal_proofs@);
    }
    push_bytes(&mut out, fp.membership_proof.as_slice());
    out
}

/// Copy a range of a slice into an owned buffer.
pub fn copy_range(bytes: &[u8], start: usize, end: usize) -> (r: Vec<u8>)
    requires
        start <= end <= bytes@.len(),
    ensures
        r@ == bytes@.subrange(start as int, end as int),
{
    let mut out: Vec<u8> = Vec::new();
    push_bytes(&mut out, slice_subrange(bytes, start, end));
    out
}

/// Parse an aggregate proof: the byte length must match the expected size
/// for the batch shape exactly, the spend-authorization proofs are split
/// off at their fixed stride, and the rest is the membership statement.
pub fn fcmp_plus_plus_from_bytes(proof: &[u8], n_inputs: usize, n_tree_layers: usize) -> (r:
    Result<FcmpPlusPlus, FcmpError>)
    requires
        n_tree_layers >= 1,
    ensures
        r is Ok <==> (n_inputs >= 1 && proof@.len() == n_inputs * 384 + 32 * (n_tree_layers
            - 1) * n_inputs),
        r matches Err(e) ==> e == FcmpError::StructuralMismatch,
        r matches Ok(fp) ==> {
            &&& fcmp_pp_wf(fp)
            &&& fp.sal_proofs@.len() == n_inputs
            &&& fcmp_pp_bytes_spec(fp) == proof@
            &&& forall|j: int|
                0 <= j < n_inputs ==> (#[trigger] fp.sal_proofs@[j])@ == proof@.subrange(
                    384 * j,
                    384 * j + 384,
                )
            &&& fp.membership_proof@ == proof@.subrange(
                384 * (n_inputs as int),
                proof@.len() as int,
            )
        },
{
    let plen = proof.len();
    if n_inputs == 0 {
        return Err(FcmpError::StructuralMismatch);
    }
    let expected = match fcmp_pp_proof_size(n_inputs, n_tree_layers) {
        Some(s) => s,
        None => {
            return Err(FcmpError::StructuralMismatch);
        },
    };
    if plen != expected {
        return Err(FcmpError::StructuralMismatch);
    }
    proof {
        assert(n_inputs * 384 <= plen) by (nonlinear_arith)
            requires
                plen == n_inputs * 384 + 32 * (n_tree_layers as int - 1) * n_inputs,
                n_tree_layers >= 1,
        ;
    }
    let mut sal_proofs: Vec<Vec<u8>> = Vec::new();
    let mut j: usize = 0;
    while j < n_inputs
        invariant
            j <= n_inputs,
            plen == proof@.len(),
            n_inputs * 384 <= plen,
            sal_proofs@.len() == j,
            forall|k: int|
                0 <= k < j ==> (#[trigger] sal_proofs@[k])@ == proof@.subrange(
                    384 * k,
                    384 * k + 384,
                ),
            concat_bytes(sal_proofs@.map_values(|v: Vec<u8>| v@)) == proof@.subrange(
                0,
                384 * j as int,
            ),
        decreases n_inputs - j,
    {
        proof {
            assert(384 * (j + 1 as int) <= 384 * (n_inputs as int)) by (nonlinear_arith)
                requires
                    j + 1 <= n_inputs,
            ;
        }
        let chunk = copy_range(proof, 384 * j, 384 * j + 384);
        let ghost pre_seq = sal_proofs@;
        sal_proofs.push(chunk);
        proof {
            let s = sal_proofs@.map_values(|v: Vec<u8>| v@);
            assert(sal_proofs@.drop_last() =~= pre_seq);
            assert(s.drop_last() =~= pre_seq.map_values(|v: Vec<u8>| v@));
            assert(s.last() == chunk@);
            assert(concat_bytes(s) == concat_bytes(s.drop_last()) + s.last());
            assert(concat_bytes(s) =~= proof@.subrange(0, 384 * (j + 1 as int)));
        }
        j = j + 1;
    }
    let membership_proof = copy_range(proof, 384 * n_inputs, proof.len());
    let fp = FcmpPlusPlus { sal_proofs, membership_proof };
    proof {
        assert(fcmp_pp_bytes_spec(fp) =~= proof@);
    }
    Ok(fp)
}

} // verus!

verus! {

/// The root's curve tag matches the tree depth: an odd number of layers
/// hashes onto the first role, an even number onto the second.
pub open spec fn root_matches_layers(root: TreeRoot, n_tree_layers: int) -> bool {
    if n_tree_layers % 2 == 1 {
        root is C1
    } else {
        root is C2
    }
}

/// One transaction's verification material: its parsed aggregate proof,
/// the claimed tree root and depth, the signable transaction hash, and
/// the decoded key images with their raw pseudo-output commitments.
pub struct FcmpPpVerifyInput {
    pub fcmp_pp: FcmpPlusPlus,
    pub tree_root: TreeRoot,
    pub n_tree_layers: usize,
    pub signable_tx_hash: Vec<u8>,
    pub pseudo_outs: Vec<[u8; 32]>,
    pub key_images: Vec<dalek_ff_group::EdwardsPoint>,
}

/// The shape conditions of a verification call: a 32-byte signable hash,
/// a non-empty input set with matching pseudo-output and key-image
/// counts, a positive depth whose parity the root's tag matches, and a
/// proof of exactly the expected size.
pub open spec fn verify_input_shape_ok(
    signable_tx_hash: Seq<u8>,
    proof: Seq<u8>,
    n_tree_layers: int,
    tree_root: TreeRoot,
    pseudo_outs: Seq<[u8; 32]>,
    key_images: Seq<[u8; 32]>,
) -> bool {
    &&& signable_tx_hash.len() == 32
    &&& pseudo_outs.len() >= 1
    &&& key_images.len() == pseudo_outs.len()
    &&& n_tree_layers >= 1
    &&& root_matches_layers(tree_root, n_tree_layers)
    &&& proof.len() == pseudo_outs.len() * 384 + 32 * (n_tree_layers - 1) * pseudo_outs.len()
}

/// Every structural condition a verification call must meet before any
/// curve arithmetic: the shape conditions, plus canonically encoded key
/// images.
pub open spec fn verify_input_ok(
    signable_tx_hash: Seq<u8>,
    proof: Seq<u8>,
    n_tree_layers: int,
    tree_root: TreeRoot,
    pseudo_outs: Seq<[u8; 32]>,
    key_images: Seq<[u8; 32]>,
) -> bool {
    &&& verify_input_shape_ok(
        signable_tx_hash,
        proof,
        n_tree_layers,
        tree_root,
        pseudo_outs,
        key_images,
    )
    &&& forall|j: int| 0 <= j < key_images.len() ==> point_decodable((#[trigger] key_images[j])@)
}

/// Assemble one transaction's verification material, rejecting any
/// structural mismatch before curve arithmetic: the checks are exactly
/// those of `verify_input_ok`. A shape fault is a `StructuralMismatch`;
/// with the shape sound, a key image that is no canonical encoding is a
/// `DecodeError`. Assembly reads no byte of the sub-proof blobs beyond
/// splitting them at their fixed strides.
pub fn fcmp_pp_verify_input_new(
    signable_tx_hash: &[u8],
    proof: &[u8],
    n_tree_layers: usize,
    tree_root: &TreeRoot,
    pseudo_outs: Vec<[u8; 32]>,
    key_images: &Vec<[u8; 32]>,
) -> (r: Result<FcmpPpVerifyInput, FcmpError>)
    ensures
        r is Ok <==> verify_input_ok(
            signable_tx_hash@,
            proof@,
            n_tree_layers as int,
            *tree_root,
            pseudo_outs@,
            key_images@,
        ),
        r == Err::<FcmpPpVerifyInput, FcmpError>(FcmpError::StructuralMismatch)
            <==> !verify_input_shape_ok(
            signable_tx_hash@,
            proof@,
            n_tree_layers as int,
            *tree_root,
            pseudo_outs@,
            key_images@,
        ),
        r == Err::<FcmpPpVerifyInput, FcmpError>(FcmpError::DecodeError)
            <==> (verify_input_shape_ok(
            signable_tx_hash@,
            proof@,
            n_tree_layers as int,
            *tree_root,
            pseudo_outs@,
            key_images@,
        ) && !(forall|j: int|
            0 <= j < key_images@.len() ==> point_decodable((#[trigger] key_images@[j])@))),
        r matches Ok(vi) ==> {
            &&& vi.n_tree_layers == n_tree_layers
            &&& vi.tree_root == *tree_root
            &&& vi.signable_tx_hash@ == signable_tx_hash@
            &&& vi.pseudo_outs == pseudo_outs
            &&& vi.key_images@.len() == key_images@.len()
            &&& forall|j: int|
                0 <= j < key_images@.len() ==> point_repr(#[trigger] vi.key_images@[j])
                    == key_images@[j]@
            &&& fcmp_pp_wf(vi.fcmp_pp)
            &&& vi.fcmp_pp.sal_proofs@.len() == pseudo_outs@.len()
            &&& fcmp_pp_bytes_spec(vi.fcmp_pp) == proof@
            &&& vi.fcmp_pp.membership_proof@ == proof@.subrange(
                384 * (pseudo_outs@.len() as int),
                proof@.len() as int,
            )
        },
{
    if signable_tx_hash.len() != 32 {
        return Err(FcmpError::StructuralMismatch);
    }
    let n_inputs = pseudo_outs.len();
    if n_inputs == 0 {
        return Err(FcmpError::StructuralMismatch);
    }
    if key_images.len() != n_inputs {
        return Err(FcmpError::StructuralMismatch);
    }
    if n_tree_layers == 0 {
        return Err(FcmpError::StructuralMismatch);
    }
    let parity_ok = if n_tree_layers % 2 == 1 {
        matches!(tree_root, TreeRoot::C1(_))
    } else {
        matches!(tree_root, TreeRoot::C2(_))
    };
    if !parity_ok {
        return Err(FcmpError::StructuralMismatch);
    }
    let fcmp_pp = match fcmp_plus_plus_from_bytes(proof, n_inputs, n_tree_layers) {
        Ok(fp) => fp,
        Err(e) => {
            return Err(e);
        },
    };
    let mut decoded_kis: Vec<dalek_ff_group::EdwardsPoint> = Vec::new();
    let mut j: usize = 0;
    while j < n_inputs
        invariant
            n_inputs == key_images@.len(),
            j <= n_inputs,
            verify_input_shape_ok(
                signable_tx_hash@,
                proof@,
                n_tree_layers as int,
                *tree_root,
                pseudo_outs@,
                key_images@,
            ),
            decoded_kis@.len() == j,
            forall|k: int|
                0 <= k < j ==> point_repr(#[trigger] decoded_kis@[k]) == key_images@[k]@,
            forall|k: int| 0 <= k < j ==> point_decodable((#[trigger] key_images@[k])@),
        decreases n_inputs - j,
    {
        let ki = match point_from_bytes(key_images[j].as_slice()) {
            Some(p) => p,
            None => {
                proof {
                    assert(!point_decodable(key_images@[j as int]@));
                }
                return Err(FcmpError::DecodeError);
            },
        };
        proof {
            assert(point_decodable(key_images@[j as int]@)) by {
                assert(point_repr(ki) == key_images@[j as int]@);
            }
        }
        decoded_kis.push(ki);
        j = j + 1;
    }
    let mut hash: Vec<u8> = Vec::new();
    push_bytes(&mut hash, signable_tx_hash);
    Ok(
        FcmpPpVerifyInput {
            fcmp_pp,
            tree_root: *tree_root,
            n_tree_layers,
            signable_tx_hash: hash,
            pseudo_outs,
            key_images: decoded_kis,
        },
    )
}

/// What admission decides of one transaction's material, past the
/// structural checks its assembly already enforced: no key image is the
/// identity, the membership statement splits into 32-byte blocks, and
/// every block is the canonical encoding of a blinded branch commitment.
/// Nothing here reads the signable hash's value, the root's point, the
/// pseudo-outputs, or a byte of the sub-proof blobs: those belong to the
/// external argument systems, which make the accept/reject decision on
/// the admitted material.
pub open spec fn input_admissible(vi: FcmpPpVerifyInput) -> bool {
    &&& forall|j: int|
        0 <= j < vi.key_images@.len() ==> point_repr(#[trigger] vi.key_images@[j])
            != identity_repr()
    &&& chunks_decodable(vi.fcmp_pp.membership_proof@)
}

/// Admit or refuse one transaction's material: exactly the checks of
/// `input_admissible`. This stands in front of the external argument
/// systems and is not the decision on the proofs themselves.
pub fn fcmp_pp_input_admissible(vi: &FcmpPpVerifyInput) -> (r: bool)
    ensures
        r == input_admissible(*vi),
{
    let n = vi.key_images.len();
    let mut j: usize = 0;
    while j < n
        invariant
            n == vi.key_images@.len(),
            j <= n,
            forall|k: int|
                0 <= k < j ==> point_repr(#[trigger] vi.key_images@[k]) != identity_repr(),
        decreases n - j,
    {
        if point_is_identity(&vi.key_images[j]) {
            return false;
        }
        j = j + 1;
    }
    scan_chunks(vi.fcmp_pp.membership_proof.as_slice())
}

/// Scan a byte run for the 32-byte block structure of a statement: the
/// length must be a multiple of 32 and every block a canonical point
/// encoding.
fn scan_chunks(bytes: &[u8]) -> (r: bool)
    ensures
        r == chunks_decodable(bytes@),
{
    let mlen = bytes.len();
    if mlen % 32 != 0 {
        return false;
    }
    let chunks = mlen / 32;
    let mut k: usize = 0;
    while k < chunks
        invariant
            mlen == bytes@.len(),
            mlen % 32 == 0,
            chunks == mlen / 32,
            k <= chunks,
            forall|c: int|
                0 <= c < k ==> point_decodable(#[trigger] bytes@.subrange(32 * c, 32 * c + 32)),
        decreases chunks - k,
    {
        proof {
            assert(32 * (k + 1 as int) <= mlen) by (nonlinear_arith)
                requires
                    k + 1 <= chunks,
                    chunks == mlen / 32,
                    mlen % 32 == 0,
            ;
        }
        let chunk = slice_subrange(bytes, 32 * k, 32 * k + 32);
        match point_from_bytes(chunk) {
            Some(p) => {
                proof {
                    assert(point_decodable(bytes@.subrange(32 * k as int, 32 * k + 32 as int)))
                        by {
                        assert(point_repr(p) == bytes@.subrange(
                            32 * k as int,
                            32 * k + 32 as int,
                        ));
                    }
                }
            },
            None => {
                return false;
            },
        }
        k = k + 1;
    }
    true
}

/// The batch law: a batch of transactions is admitted exactly when every
/// one of them is admissible on its own — the same decision as
/// `fcmp_pp_input_admissible`, over every member. The shared check is
/// never short-circuited into admitting a batch with a failing member,
/// and an admitted batch certifies each member individually.
pub fn batch_admissible(inputs: &Vec<FcmpPpVerifyInput>) -> (r: bool)
    ensures
        r <==> (forall|j: int| 0 <= j < inputs@.len() ==> input_admissible(#[trigger] inputs@[j])),
{
    let n = inputs.len();
    let mut j: usize = 0;
    while j < n
        invariant
            n == inputs@.len(),
            j <= n,
            forall|k: int| 0 <= k < j ==> input_admissible(#[trigger] inputs@[k]),
        decreases n - j,
    {
        if !fcmp_pp_input_admissible(&inputs[j]) {
            return false;
        }
        j = j + 1;
    }
    true
}

} // verus!

verus! {

/// The checks a spend-authorization-and-linkability proof's material must
/// pass before its algebra is handed to the external argument system: a
/// 32-byte signable hash, a parseable 4 x 32 byte input tuple, a
/// canonically encoded non-identity key image, and a proof blob of the
/// fixed size. No byte of the blob itself is read: passing here is
/// admissibility of the material, never validity of the proof.
pub open spec fn sal_material_ok(
    signable_tx_hash: Seq<u8>,
    input_bytes: Seq<u8>,
    key_image: Seq<u8>,
    sal_proof: Seq<u8>,
) -> bool {
    &&& signable_tx_hash.len() == 32
    &&& crate::output::input_bytes_parseable(input_bytes)
    &&& key_image.len() == 32
    &&& point_decodable(key_image)
    &&& key_image != identity_repr()
    &&& sal_proof.len() == 384
}

/// Admit or refuse one spend-authorization proof's material: exactly the
/// checks of `sal_material_ok`. The proof's algebraic binding of the key
/// image to the tuple and hash is the external argument system's to
/// check, not this function's.
pub fn sal_material_admissible(
    signable_tx_hash: &[u8],
    input_bytes: &[u8],
    key_image: &[u8],
    sal_proof: &[u8],
) -> (r: bool)
    ensures
        r == sal_material_ok(signable_tx_hash@, input_bytes@, key_image@, sal_proof@),
{
    if signable_tx_hash.len() != 32 {
        return false;
    }
    if key_image.len() != 32 {
        return false;
    }
    if sal_proof.len() != 384 {
        return false;
    }
    if crate::output::input_from_bytes(input_bytes).is_err() {
        return false;
    }
    let ki = match point_from_bytes(key_image) {
        Some(p) => p,
        None => {
            proof {
                assert(!point_decodable(key_image@));
            }
            return false;
        },
    };
    proof {
        assert(point_decodable(key_image@)) by {
            assert(point_repr(ki) == key_image@);
        }
    }
    !point_is_identity(&ki)
}

/// The checks a membership statement must pass before its algebra is
/// handed to the cycle curves' batched verifiers: at least one parseable
/// 4 x 32 byte input tuple, a positive depth whose parity the root's tag
/// matches, and a statement of exactly one canonically encoded blinded
/// branch commitment per non-root layer, per input. The root's point is
/// not consulted — whether the statement actually opens to that root is
/// the external argument system's question.
pub open spec fn membership_material_ok(
    input_tuples: Seq<Vec<u8>>,
    tree_root: TreeRoot,
    n_tree_layers: int,
    fcmp_proof: Seq<u8>,
) -> bool {
    &&& input_tuples.len() >= 1
    &&& forall|j: int|
        0 <= j < input_tuples.len() ==> crate::output::input_bytes_parseable(
            (#[trigger] input_tuples[j])@,
        )
    &&& n_tree_layers >= 1
    &&& root_matches_layers(tree_root, n_tree_layers)
    &&& fcmp_proof.len() == 32 * (n_tree_layers - 1) * input_tuples.len()
    &&& chunks_decodable(fcmp_proof)
}

/// The prove-then-admit law, at the level this library decides: material
/// assembled from this library's own membership statement, with
/// non-identity key images, passes every residual admission check.
/// Whether the opaque sub-proofs are cryptographically valid remains the
/// external argument systems' question.
pub proof fn lemma_composed_material_admissible(
    vi: FcmpPpVerifyInput,
    pinputs: Seq<crate::prove::FcmpPpProveMembershipInput>,
)
    requires
        crate::prove::inputs_encoded(pinputs),
        vi.fcmp_pp.membership_proof@ == crate::prove::membership_blob(pinputs),
        forall|j: int|
            0 <= j < vi.key_images@.len() ==> point_repr(#[trigger] vi.key_images@[j])
                != identity_repr(),
    ensures
        input_admissible(vi),
{
    crate::prove::lemma_membership_blob_decodable(pinputs);
}

/// Admit or refuse a membership statement for a batch: exactly the
/// checks of `membership_material_ok` — admissibility of the material,
/// never validity of the membership argument.
pub fn membership_material_admissible(
    input_tuples: &Vec<Vec<u8>>,
    tree_root: &TreeRoot,
    n_tree_layers: usize,
    fcmp_proof: &[u8],
) -> (r: bool)
    ensures
        r == membership_material_ok(input_tuples@, *tree_root, n_tree_layers as int, fcmp_proof@),
{
    let n = input_tuples.len();
    if n == 0 {
        return false;
    }
    if n_tree_layers == 0 {
        return false;
    }
    let parity_ok = if n_tree_layers % 2 == 1 {
        matches!(tree_root, TreeRoot::C1(_))
    } else {
        matches!(tree_root, TreeRoot::C2(_))
    };
    if !parity_ok {
        return false;
    }
    let plen = fcmp_proof.len();
    let size_ok = match membership_proof_size(n, n_tree_layers) {
        Some(s) => plen == s,
        None => false,
    };
    if !size_ok {
        return false;
    }
    let mut j: usize = 0;
    while j < n
        invariant
            n == input_tuples@.len(),
            j <= n,
            forall|k: int|
                0 <= k < j ==> crate::output::input_bytes_parseable(
                    (#[trigger] input_tuples@[k])@,
                ),
        decreases n - j,
    {
        if crate::output::input_from_bytes(input_tuples[j].as_slice()).is_err() {
            return false;
        }
        j = j + 1;
    }
    scan_chunks(fcmp_proof)
}

} // verus!
