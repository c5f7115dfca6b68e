//! Authentication paths and their batched form: a path holds the leaf set
//! containing the proved output and the layered sibling scalars alternating
//! between the two curve roles; a batch of paths fixes how many branch
//! blinds the proof structurally needs. Pseudo-output balancing rewrites
//! the last input's commitment blind so the commitment masks balance.

use vstd::prelude::*;
use vstd::arithmetic::div_mod::lemma_add_mod_noop;

use crate::FcmpError;
use crate::ed25519::{ed_add, ed_mul, ed_sub, group_order, point_add, point_mul, point_sub,
    point_repr, scalar_add, scalar_sub, scalar_val};
use crate::tree::{chain_add, TreeRoot};
use crate::output::{
    Output, OutputBytes, RerandomizedOutput, output_bytes_decodable, output_encodings_ok,
    output_from_bytes, output_wf,
};

verus! {

/// An authentication path: the designated output, the leaf set it sits
/// in, and the sibling-scalar chunks of the non-leaf layers, alternating
/// between the two curve roles from the leaves toward the root. The
/// second role owns the first non-leaf layer.
pub struct Path {
    pub output: Output,
    pub leaves: Vec<Output>,
    pub curve_2_layers: Vec<Vec<dalek_ff_group::Scalar>>,
    pub curve_1_layers: Vec<Vec<dalek_ff_group::Scalar>>,
}

/// How many layers a tree with this path has: the leaf layer plus one per
/// sibling chunk.
pub open spec fn path_layers(p: Path) -> int {
    1 + p.curve_1_layers@.len() as int + p.curve_2_layers@.len() as int
}

/// Build a path: the designated index must be in range, and every leaf
/// must decode to a well-formed output. The sibling chunks are stored as
/// given. The error names the first fault found: an out-of-range index
/// is a structural mismatch, checked before any leaf; the leaves are then
/// scanned in order, and the first bad one yields `DecodeError` where a
/// component encoding is not canonical, else `CryptographicError` for an
/// identity component.
pub fn path_new(
    leaves: &Vec<OutputBytes>,
    output_idx: usize,
    curve_2_layers: Vec<Vec<dalek_ff_group::Scalar>>,
    curve_1_layers: Vec<Vec<dalek_ff_group::Scalar>>,
) -> (r: Result<Path, FcmpError>)
    ensures
        r == Err::<Path, FcmpError>(FcmpError::StructuralMismatch) <==> output_idx
            >= leaves@.len(),
        r == Err::<Path, FcmpError>(FcmpError::DecodeError) <==> output_idx < leaves@.len()
            && (exists|j: int|
            0 <= j < leaves@.len() && !output_encodings_ok(#[trigger] leaves@[j]) && (forall|
                k: int,
            | 0 <= k < j ==> output_bytes_decodable(#[trigger] leaves@[k]))),
        r == Err::<Path, FcmpError>(FcmpError::CryptographicError) <==> output_idx
            < leaves@.len() && (exists|j: int|
            0 <= j < leaves@.len() && output_encodings_ok(#[trigger] leaves@[j])
                && !output_bytes_decodable(leaves@[j]) && (forall|k: int|
                0 <= k < j ==> output_bytes_decodable(#[trigger] leaves@[k]))),
        r is Ok <==> output_idx < leaves@.len() && (forall|j: int|
            0 <= j < leaves@.len() ==> output_bytes_decodable(leaves@[j])),
        r matches Ok(p) ==> {
            &&& p.leaves@.len() == leaves@.len()
            &&& forall|j: int|
                0 <= j < leaves@.len() ==> point_repr(#[trigger] p.leaves@[j].o)
                    == leaves@[j].o@ && point_repr(p.leaves@[j].i) == leaves@[j].i@
                    && point_repr(p.leaves@[j].c) == leaves@[j].c@
            &&& forall|j: int| 0 <= j < leaves@.len() ==> output_wf(#[trigger] p.leaves@[j])
            &&& p.output == p.leaves@[output_idx as int]
            &&& p.curve_2_layers == curve_2_layers
            &&& p.curve_1_layers == curve_1_layers
        },
{
    let n = leaves.len();
    if output_idx >= n {
        return Err(FcmpError::StructuralMismatch);
    }
    let mut decoded: Vec<Output> = Vec::new();
    let mut j: usize = 0;
    while j < n
        invariant
            n == leaves@.len(),
            output_idx < n,
            j <= n,
            decoded@.len() == j,
            forall|k: int|
                0 <= k < j ==> point_repr(#[trigger] decoded@[k].o) == leaves@[k].o@
                    && point_repr(decoded@[k].i) == leaves@[k].i@ && point_repr(decoded@[k].c)
                    == leaves@[k].c@,
            forall|k: int| 0 <= k < j ==> output_wf(#[trigger] decoded@[k]),
            forall|k: int| 0 <= k < j ==> output_bytes_decodable(#[trigger] leaves@[k]),
        decreases n - j,
    {
        let out = match output_from_bytes(&leaves[j]) {
            Ok(out) => out,
            Err(e) => {
                proof {
                    // Only the first undecodable leaf can satisfy either
                    // error condition: every later candidate's run of
                    // decodable predecessors would include this one.
                    assert forall|jj: int|
                        0 <= jj < leaves@.len() && !output_bytes_decodable(
                            #[trigger] leaves@[jj],
                        ) && (forall|k: int|
                            0 <= k < jj ==> output_bytes_decodable(
                                #[trigger] leaves@[k],
                            )) implies jj == j as int by {
                        if jj < j as int {
                            assert(output_bytes_decodable(leaves@[jj]));
                        }
                        if jj > j as int {
                            assert(output_bytes_decodable(leaves@[j as int]));
                        }
                    }
                }
                return Err(e);
            },
        };
        decoded.push(out);
        j = j + 1;
    }
    let output = decoded[output_idx];
    Ok(Path { output, leaves: decoded, curve_2_layers, curve_1_layers })
}

/// The batched, shape-checked form of one or more paths.
pub struct Branches {
    pub paths: Vec<Path>,
}

/// All paths share one tree shape, the chunk counts alternate legally
/// (the second role owns the first non-leaf layer, so it has as many
/// chunks as the first role, or one more), and the layer count fits the
/// machine.
pub open spec fn branches_shape_ok(paths: Seq<Path>) -> bool {
    &&& paths.len() >= 1
    &&& forall|j: int|
        0 <= j < paths.len() ==> (#[trigger] paths[j]).curve_1_layers@.len()
            == paths[0].curve_1_layers@.len() && paths[j].curve_2_layers@.len()
            == paths[0].curve_2_layers@.len()
    &&& {
        let a = paths[0].curve_1_layers@.len();
        let b = paths[0].curve_2_layers@.len();
        b == a || b == a + 1
    }
    &&& path_layers(paths[0]) <= usize::MAX
}

impl Branches {
    /// Batch paths, rejecting an empty batch and structurally incompatible
    /// shapes (mismatched depths or an illegal alternation).
    pub fn new(paths: Vec<Path>) -> (r: Result<Branches, FcmpError>)
        ensures
            r is Ok <==> branches_shape_ok(paths@),
            r matches Err(e) ==> e == FcmpError::StructuralMismatch,
            r matches Ok(b) ==> b.paths == paths,
    {
        let n = paths.len();
        if n == 0 {
            return Err(FcmpError::StructuralMismatch);
        }
        let a = paths[0].curve_1_layers.len();
        let b = paths[0].curve_2_layers.len();
        if !(b == a || (a < usize::MAX && b == a + 1)) {
            return Err(FcmpError::StructuralMismatch);
        }
        if a > usize::MAX - 1 || b > usize::MAX - 1 - a {
            return Err(FcmpError::StructuralMismatch);
        }
        let mut j: usize = 1;
        while j < n
            invariant
                n == paths@.len(),
                1 <= j <= n,
                a == paths@[0].curve_1_layers@.len(),
                b == paths@[0].curve_2_layers@.len(),
                forall|k: int|
                    0 <= k < j ==> (#[trigger] paths@[k]).curve_1_layers@.len() == a
                        && paths@[k].curve_2_layers@.len() == b,
            decreases n - j,
        {
            if paths[j].curve_1_layers.len() != a || paths[j].curve_2_layers.len() != b {
                return Err(FcmpError::StructuralMismatch);
            }
            j = j + 1;
        }
        Ok(Branches { paths })
    }

    /// How many layers the batched tree has.
    pub fn n_tree_layers(&self) -> (r: usize)
        requires
            branches_shape_ok(self.paths@),
        ensures
            r == path_layers(self.paths@[0]),
    {
        1 + self.paths[0].curve_1_layers.len() + self.paths[0].curve_2_layers.len()
    }

    /// How many first-role branch blinds the batch structurally needs:
    /// one per first-role non-root layer, per path. The leaf layer hashes
    /// onto the first role, and the roles alternate above it.
    pub fn necessary_c1_blinds(&self) -> (r: Option<usize>)
        requires
            branches_shape_ok(self.paths@),
        ensures
            r matches Some(c) ==> c == self.paths@.len() * (path_layers(self.paths@[0]) / 2),
            r is None <==> self.paths@.len() * (path_layers(self.paths@[0]) / 2) > usize::MAX,
    {
        let layers = self.n_tree_layers();
        self.paths.len().checked_mul(layers / 2)
    }

    /// How many second-role branch blinds the batch structurally needs:
    /// one per second-role non-root layer, per path.
    pub fn necessary_c2_blinds(&self) -> (r: Option<usize>)
        requires
            branches_shape_ok(self.paths@),
        ensures
            r matches Some(c) ==> c == self.paths@.len() * ((path_layers(self.paths@[0]) - 1)
                / 2),
            r is None <==> self.paths@.len() * ((path_layers(self.paths@[0]) - 1) / 2)
                > usize::MAX,
    {
        let layers = self.n_tree_layers();
        self.paths.len().checked_mul((layers - 1) / 2)
    }
}

/// The sum of the commitment blinds of a run of rerandomized outputs.
pub open spec fn sum_blind_vals(s: Seq<RerandomizedOutput>) -> int
    decreases s.len(),
{
    if s.len() == 0 {
        0
    } else {
        sum_blind_vals(s.drop_last()) + scalar_val(s.last().c_blind)
    }
}

/// Rewrite the last input's commitment blind so the inputs' commitment
/// masks sum to the outputs' masks, and re-derive its rerandomized
/// commitment under the commitment generator `g`. Fails only on an empty
/// batch, which it leaves untouched.
///
/// The balance invariant: the blinds' sum moves by exactly the gap
/// between the two mask sums, so whenever `sum_input_masks` was the old
/// blind sum, the new blind sum is `sum_output_masks`.
#[verifier::rlimit(50)]
pub fn balance_last_pseudo_out(
    sum_input_masks: &dalek_ff_group::Scalar,
    sum_output_masks: &dalek_ff_group::Scalar,
    inputs: &mut Vec<RerandomizedOutput>,
    g: &dalek_ff_group::EdwardsPoint,
) -> (r: Result<(), FcmpError>)
    ensures
        r is Err <==> old(inputs)@.len() == 0,
        r matches Err(e) ==> e == FcmpError::StructuralMismatch && final(inputs)@ == old(
            inputs,
        )@,
        r is Ok ==> {
            let n = old(inputs)@.len() as int;
            let was = old(inputs)@[n - 1];
            let now = final(inputs)@[n - 1];
            &&& final(inputs)@.len() == n
            &&& forall|j: int| 0 <= j < n - 1 ==> final(inputs)@[j] == old(inputs)@[j]
            &&& now.o_tilde == was.o_tilde && now.i_tilde == was.i_tilde && now.big_r
                == was.big_r && now.o_blind == was.o_blind && now.i_blind == was.i_blind
                && now.i_blind_blind == was.i_blind_blind
            &&& scalar_val(now.c_blind) as int == (scalar_val(was.c_blind) + scalar_val(
                *sum_output_masks,
            ) - scalar_val(*sum_input_masks)) % (group_order() as int)
            &&& now.c_tilde == ed_add(
                ed_sub(was.c_tilde, ed_mul(was.c_blind, *g)),
                ed_mul(now.c_blind, *g),
            )
            &&& sum_blind_vals(final(inputs)@) % (group_order() as int) == (sum_blind_vals(
                old(inputs)@,
            ) + scalar_val(*sum_output_masks) - scalar_val(*sum_input_masks)) % (
            group_order() as int)
            &&& (sum_blind_vals(old(inputs)@) % (group_order() as int) == (scalar_val(
                *sum_input_masks,
            ) as int) % (group_order() as int) ==> sum_blind_vals(final(inputs)@) % (
            group_order() as int) == (scalar_val(*sum_output_masks) as int) % (
            group_order() as int))
        },
{
    let n = inputs.len();
    if n == 0 {
        return Err(FcmpError::StructuralMismatch);
    }
    let last = inputs[n - 1];
    let gap = scalar_sub(sum_output_masks, sum_input_masks);
    let new_blind = scalar_add(&last.c_blind, &gap);
    let new_c_tilde = point_add(
        &point_sub(&last.c_tilde, &point_mul(&last.c_blind, g)),
        &point_mul(&new_blind, g),
    );
    let updated = RerandomizedOutput {
        c_blind: new_blind,
        c_tilde: new_c_tilde,
        ..last
    };
    inputs.set(n - 1, updated);
    proof {
        let m = group_order() as int;
        let old_s = old(inputs)@;
        let new_s = inputs@;
        let was = old_s[n - 1];
        let out_v = scalar_val(*sum_output_masks) as int;
        let in_v = scalar_val(*sum_input_masks) as int;
        let gap_v = scalar_val(gap) as int;
        let was_v = scalar_val(was.c_blind) as int;
        assert(new_s.drop_last() =~= old_s.drop_last());
        assert(new_s.last() == updated);
        assert(old_s.last() == was);
        // The new blind is the old blind shifted by the mask gap, mod the
        // group order.
        assert(scalar_val(new_blind) as int == (was_v + out_v - in_v) % m) by {
            lemma_add_mod_noop(was_v, gap_v, m);
            lemma_add_mod_noop(was_v, out_v - in_v, m);
            assert((was_v % m + gap_v % m) % m == (was_v + gap_v) % m);
            assert(gap_v % m == gap_v) by {
                lemma_small_mod_int(gap_v, m);
            }
        }
        // The blind sum moves by exactly the gap.
        let prefix = sum_blind_vals(old_s.drop_last());
        assert(sum_blind_vals(new_s) == prefix + scalar_val(new_blind));
        assert(sum_blind_vals(old_s) == prefix + was_v);
        assert(sum_blind_vals(new_s) % m == (sum_blind_vals(old_s) + out_v - in_v) % m) by {
            lemma_add_mod_noop(prefix, scalar_val(new_blind) as int, m);
            lemma_add_mod_noop(prefix, was_v + out_v - in_v, m);
            lemma_add_mod_noop(was_v, out_v - in_v, m);
        }
        // Whence the balance: an exact input-mask sum becomes the exact
        // output-mask sum.
        if sum_blind_vals(old_s) % m == in_v % m {
            assert(sum_blind_vals(new_s) % m == out_v % m) by {
                lemma_add_mod_noop(sum_blind_vals(old_s), out_v - in_v, m);
                lemma_add_mod_noop(in_v, out_v - in_v, m);
            }
        }
    }
    Ok(())
}

/// A nonnegative value below the modulus is its own remainder.
proof fn lemma_small_mod_int(x: int, m: int)
    requires
        0 <= x < m,
    ensures
        x % m == x,
{
    vstd::arithmetic::div_mod::lemma_small_mod(x as nat, m as nat);
}

} // verus!

verus! {

/// Whether a sibling chunk holds a given scalar, decided on the scalars'
/// canonical encodings.
pub fn chunk_contains(chunk: &Vec<dalek_ff_group::Scalar>, s: &dalek_ff_group::Scalar) -> (r:
    bool)
    ensures
        r <==> chunk@.contains(*s),
{
    let target = crate::ed25519::scalar_to_bytes(s);
    let n = chunk.len();
    let mut i: usize = 0;
    while i < n
        invariant
            n == chunk@.len(),
            i <= n,
            target@ == crate::ed25519::scalar_repr(*s),
            forall|t: dalek_ff_group::Scalar|
                crate::ed25519::scalar_repr(t) == target@ ==> t == *s,
            forall|j: int| 0 <= j < i ==> chunk@[j] != *s,
        decreases n - i,
    {
        let candidate = crate::ed25519::scalar_to_bytes(&chunk[i]);
        if crate::ed25519::bytes32_eq(&candidate, &target) {
            proof {
                assert(chunk@[i as int] == *s);
            }
            return true;
        }
        i = i + 1;
    }
    proof {
        if chunk@.contains(*s) {
            let w = choose|j: int| 0 <= j < chunk@.len() && chunk@[j] == *s;
            assert(chunk@[w] == *s);
        }
    }
    false
}

/// The projected scalars a leaf set contributes to the leaf layer: three
/// per output, its key, key-image base and commitment, in order.
pub open spec fn leaf_scalars_spec(leaves: Seq<Output>) -> Seq<dalek_ff_group::Scalar>
    decreases leaves.len(),
{
    if leaves.len() == 0 {
        Seq::empty()
    } else {
        leaf_scalars_spec(leaves.drop_last()) + seq![
            crate::ed25519::cycle_scalar_of(leaves.last().o),
            crate::ed25519::cycle_scalar_of(leaves.last().i),
            crate::ed25519::cycle_scalar_of(leaves.last().c),
        ]
    }
}

/// The path's sibling chunks in climbing order: the second role owns the
/// first non-leaf layer, and the roles alternate above it.
pub open spec fn chunks_spec(p: Path) -> Seq<Seq<dalek_ff_group::Scalar>> {
    Seq::new(
        (p.curve_1_layers@.len() + p.curve_2_layers@.len()) as nat,
        |k: int|
            if k % 2 == 0 {
                p.curve_2_layers@[k / 2]@
            } else {
                p.curve_1_layers@[k / 2]@
            },
    )
}

/// Climb the tree from a freshly hashed node: at each non-leaf layer the
/// node's projected scalar must sit among the supplied siblings, which
/// are hashed into the next node under the layer's role generators. The
/// climb fails on an identity node, a missing membership, or a chunk that
/// does not fit the branching factor.
pub open spec fn climb(
    gens1: Seq<dalek_ff_group::EdwardsPoint>,
    gens2: Seq<dalek_ff_group::EdwardsPoint>,
    init1: dalek_ff_group::EdwardsPoint,
    init2: dalek_ff_group::EdwardsPoint,
    cur: dalek_ff_group::EdwardsPoint,
    k: int,
    chunks: Seq<Seq<dalek_ff_group::Scalar>>,
) -> Option<dalek_ff_group::EdwardsPoint>
    decreases chunks.len() - k,
{
    if k < 0 || k >= chunks.len() {
        Some(cur)
    } else {
        let chunk = chunks[k];
        let gens = if k % 2 == 0 {
            gens2
        } else {
            gens1
        };
        let init = if k % 2 == 0 {
            init2
        } else {
            init1
        };
        if point_repr(cur) == crate::ed25519::identity_repr() {
            None
        } else if !chunk.contains(crate::ed25519::cycle_scalar_of(cur)) {
            None
        } else if !(1 <= chunk.len() && chunk.len() <= gens.len()) {
            None
        } else {
            climb(gens1, gens2, init1, init2, chain_add(gens, init, 0, chunk), k + 1, chunks)
        }
    }
}

/// What recomputing a path's root yields: hash the leaf set under the
/// first role, climb the sibling chunks, and tag the final hash with the
/// role its layer parity lands on. `None` where the path's shape is
/// illegal, a leaf is malformed, or the climb fails.
pub open spec fn path_root_spec(
    p: Path,
    gens1: Seq<dalek_ff_group::EdwardsPoint>,
    gens2: Seq<dalek_ff_group::EdwardsPoint>,
    init1: dalek_ff_group::EdwardsPoint,
    init2: dalek_ff_group::EdwardsPoint,
) -> Option<TreeRoot> {
    let a = p.curve_1_layers@.len() as int;
    let b = p.curve_2_layers@.len() as int;
    let lls = leaf_scalars_spec(p.leaves@);
    if !(b == a || b == a + 1) {
        Option::None
    } else if !(a + b <= usize::MAX) {
        Option::None
    } else if !(forall|j: int| 0 <= j < p.leaves@.len() ==> output_wf(#[trigger] p.leaves@[j])) {
        Option::None
    } else if !(1 <= lls.len() && lls.len() <= gens1.len()) {
        Option::None
    } else {
        match climb(gens1, gens2, init1, init2, chain_add(gens1, init1, 0, lls), 0, chunks_spec(p)) {
            Option::None => Option::None,
            Option::Some(h) => Option::Some(
                if (a + b) % 2 == 0 {
                    TreeRoot::C1(h)
                } else {
                    TreeRoot::C2(h)
                },
            ),
        }
    }
}

/// Recompute the root a path authenticates against: exactly
/// `path_root_spec`, with the failures mapped to the taxonomy (an
/// illegal shape or branching factor is structural, a malformed leaf or
/// identity node cannot be projected, a missing membership is an
/// adversary-triggerable failure).
pub fn path_root(
    path: &Path,
    gens1: &Vec<dalek_ff_group::EdwardsPoint>,
    gens2: &Vec<dalek_ff_group::EdwardsPoint>,
    init1: &dalek_ff_group::EdwardsPoint,
    init2: &dalek_ff_group::EdwardsPoint,
) -> (r: Result<TreeRoot, FcmpError>)
    ensures
        r is Ok <==> path_root_spec(*path, gens1@, gens2@, *init1, *init2) is Some,
        r matches Ok(root) ==> path_root_spec(*path, gens1@, gens2@, *init1, *init2) == Some(
            root,
        ),
{
    let a = path.curve_1_layers.len();
    let b = path.curve_2_layers.len();
    if !(b == a || (a < usize::MAX && b == a + 1)) {
        return Err(FcmpError::StructuralMismatch);
    }
    if a > usize::MAX - b {
        return Err(FcmpError::StructuralMismatch);
    }
    let n_leaves = path.leaves.len();
    let mut leaf_scalars: Vec<dalek_ff_group::Scalar> = Vec::new();
    let mut j: usize = 0;
    while j < n_leaves
        invariant
            n_leaves == path.leaves@.len(),
            j <= n_leaves,
            leaf_scalars@ == leaf_scalars_spec(path.leaves@.subrange(0, j as int)),
            forall|k: int| 0 <= k < j ==> output_wf(#[trigger] path.leaves@[k]),
        decreases n_leaves - j,
    {
        let leaf = &path.leaves[j];
        let so = match crate::ed25519::point_to_cycle_scalar(&leaf.o) {
            Ok(s) => s,
            Err(e) => {
                return Err(e);
            },
        };
        let si = match crate::ed25519::point_to_cycle_scalar(&leaf.i) {
            Ok(s) => s,
            Err(e) => {
                return Err(e);
            },
        };
        let sc = match crate::ed25519::point_to_cycle_scalar(&leaf.c) {
            Ok(s) => s,
            Err(e) => {
                return Err(e);
            },
        };
        leaf_scalars.push(so);
        leaf_scalars.push(si);
        leaf_scalars.push(sc);
        proof {
            let pre = path.leaves@.subrange(0, j as int);
            let post = path.leaves@.subrange(0, j + 1 as int);
            assert(post.drop_last() =~= pre);
            assert(post.last() == path.leaves@[j as int]);
            assert(leaf_scalars@ =~= leaf_scalars_spec(post));
        }
        j = j + 1;
    }
    proof {
        assert(path.leaves@.subrange(0, n_leaves as int) =~= path.leaves@);
    }
    let mut cur = match crate::tree::hash_new(gens1, init1, &leaf_scalars) {
        Ok(h) => h,
        Err(e) => {
            return Err(e);
        },
    };
    let m = a + b;
    let ghost chunks = chunks_spec(*path);
    let ghost goal = climb(gens1@, gens2@, *init1, *init2, cur, 0, chunks);
    let mut k: usize = 0;
    while k < m
        invariant
            a == path.curve_1_layers@.len(),
            b == path.curve_2_layers@.len(),
            b == a || b == a + 1,
            m == a + b,
            k <= m,
            chunks == chunks_spec(*path),
            chunks.len() == m,
            forall|jj: int| 0 <= jj < path.leaves@.len() ==> output_wf(#[trigger] path.leaves@[jj]),
            1 <= leaf_scalars_spec(path.leaves@).len(),
            leaf_scalars_spec(path.leaves@).len() <= gens1@.len(),
            goal == climb(
                gens1@,
                gens2@,
                *init1,
                *init2,
                chain_add(gens1@, *init1, 0, leaf_scalars_spec(path.leaves@)),
                0,
                chunks,
            ),
            goal == climb(gens1@, gens2@, *init1, *init2, cur, k as int, chunks),
        decreases m - k,
    {
        let chunk = if k % 2 == 0 {
            &path.curve_2_layers[k / 2]
        } else {
            &path.curve_1_layers[k / 2]
        };
        proof {
            assert(chunks[k as int] == chunk@);
        }
        let projected = match crate::ed25519::point_to_cycle_scalar(&cur) {
            Ok(s) => s,
            Err(e) => {
                proof {
                    assert(climb(gens1@, gens2@, *init1, *init2, cur, k as int, chunks)
                        is None);
                }
                return Err(e);
            },
        };
        if !chunk_contains(chunk, &projected) {
            proof {
                assert(climb(gens1@, gens2@, *init1, *init2, cur, k as int, chunks) is None);
            }
            return Err(FcmpError::CryptographicError);
        }
        let next = if k % 2 == 0 {
            match crate::tree::hash_new(gens2, init2, chunk) {
                Ok(h) => h,
                Err(e) => {
                    proof {
                        assert(climb(gens1@, gens2@, *init1, *init2, cur, k as int, chunks)
                            is None);
                    }
                    return Err(e);
                },
            }
        } else {
            match crate::tree::hash_new(gens1, init1, chunk) {
                Ok(h) => h,
                Err(e) => {
                    proof {
                        assert(climb(gens1@, gens2@, *init1, *init2, cur, k as int, chunks)
                            is None);
                    }
                    return Err(e);
                },
            }
        };
        cur = next;
        k = k + 1;
    }
    if m % 2 == 0 {
        Ok(TreeRoot::C1(cur))
    } else {
        Ok(TreeRoot::C2(cur))
    }
}

} // verus!
