//! The incremental curve-tree hasher: a node's hash is a vector commitment
//! to its children under a fixed generator set, and `hash_grow` /
//! `hash_trim` update it without rehashing every child. Trimming what was
//! grown restores the original hash, and that inverse law is proved here.
//!
//! A commitment alone cannot reveal whether the supplied prior values
//! reconcile with the hash being updated, so no such check is attempted:
//! an update against wrong priors yields a hash no later recomputation
//! matches, which is where the mismatch surfaces.

use vstd::prelude::*;

use crate::FcmpError;
use crate::ed25519::{ed_add, ed_mul, ed_sub, point_add, point_mul, point_sub};

verus! {

/// The tree root, tagged by the curve role the final layer hashes onto:
/// even depths land on the second role, odd depths on the first.
#[derive(Clone, Copy, PartialEq, Eq, Debug)]
pub enum TreeRoot {
    C1(dalek_ff_group::EdwardsPoint),
    C2(dalek_ff_group::EdwardsPoint),
}

/// The commitment after the children `cs` are added at slots
/// `off, off + 1, ...`: each child is committed under its slot's generator.
pub open spec fn chain_add(
    gens: Seq<dalek_ff_group::EdwardsPoint>,
    p: dalek_ff_group::EdwardsPoint,
    off: int,
    cs: Seq<dalek_ff_group::Scalar>,
) -> dalek_ff_group::EdwardsPoint
    decreases cs.len(),
{
    if cs.len() == 0 {
        p
    } else {
        chain_add(gens, ed_add(p, ed_mul(cs[0], gens[off])), off + 1, cs.skip(1))
    }
}

/// The commitment after the children `cs` at slots `off, off + 1, ...`
/// are removed again, last slot first.
pub open spec fn chain_sub(
    gens: Seq<dalek_ff_group::EdwardsPoint>,
    p: dalek_ff_group::EdwardsPoint,
    off: int,
    cs: Seq<dalek_ff_group::Scalar>,
) -> dalek_ff_group::EdwardsPoint
    decreases cs.len(),
{
    if cs.len() == 0 {
        p
    } else {
        chain_sub(
            gens,
            ed_sub(p, ed_mul(cs.last(), gens[off + cs.len() - 1])),
            off,
            cs.drop_last(),
        )
    }
}

/// What growing a node computes: the prior value at the first touched slot
/// leaves the commitment, the new children enter at their slots.
pub open spec fn grow_spec(
    gens: Seq<dalek_ff_group::EdwardsPoint>,
    existing_hash: dalek_ff_group::EdwardsPoint,
    off: int,
    prior: dalek_ff_group::Scalar,
    cs: Seq<dalek_ff_group::Scalar>,
) -> dalek_ff_group::EdwardsPoint {
    chain_add(gens, ed_sub(existing_hash, ed_mul(prior, gens[off])), off, cs)
}

/// What trimming a node computes: the children leave their slots and the
/// single prior value returns to the first of them.
pub open spec fn trim_spec(
    gens: Seq<dalek_ff_group::EdwardsPoint>,
    existing_hash: dalek_ff_group::EdwardsPoint,
    off: int,
    cs: Seq<dalek_ff_group::Scalar>,
    back: dalek_ff_group::Scalar,
) -> dalek_ff_group::EdwardsPoint {
    ed_add(chain_sub(gens, existing_hash, off, cs), ed_mul(back, gens[off]))
}

/// Recompute a node's commitment hash after the slots starting at `offset`
/// are populated with `new_children`, `existing_child_at_offset` being the
/// value the first touched slot held before (the default zero scalar where
/// it was empty). Fails, before any curve arithmetic, where the touched
/// slots run past the node's branching factor or no children are given:
/// the prior value is replaced by the first new child, so an update
/// without a first child is malformed rather than a no-op.
///
/// The second and third clauses record that removing the same children
/// again (`chain_sub`) returns the commitment to its pre-grow state.
pub fn hash_grow(
    generators: &Vec<dalek_ff_group::EdwardsPoint>,
    existing_hash: &dalek_ff_group::EdwardsPoint,
    offset: usize,
    existing_child_at_offset: &dalek_ff_group::Scalar,
    new_children: &Vec<dalek_ff_group::Scalar>,
) -> (r: Result<dalek_ff_group::EdwardsPoint, FcmpError>)
    ensures
        r is Ok <==> (1 <= new_children@.len()
            && offset + new_children@.len() <= generators@.len()),
        r matches Err(e) ==> e == FcmpError::StructuralMismatch,
        r matches Ok(h) ==> {
            &&& h == grow_spec(
                generators@,
                *existing_hash,
                offset as int,
                *existing_child_at_offset,
                new_children@,
            )
            &&& chain_sub(generators@, h, offset as int, new_children@) == ed_sub(
                *existing_hash,
                ed_mul(*existing_child_at_offset, generators@[offset as int]),
            )
            &&& ed_add(
                ed_sub(
                    *existing_hash,
                    ed_mul(*existing_child_at_offset, generators@[offset as int]),
                ),
                ed_mul(*existing_child_at_offset, generators@[offset as int]),
            ) == *existing_hash
        },
{
    let n = new_children.len();
    let glen = generators.len();
    if n == 0 || offset >= glen || n > glen - offset {
        return Err(FcmpError::StructuralMismatch);
    }
    let prior_term = point_mul(existing_child_at_offset, &generators[offset]);
    let start = point_sub(existing_hash, &prior_term);
    let ghost base = ed_sub(*existing_hash, ed_mul(*existing_child_at_offset, generators@[offset as int]));
    proof {
        assert(new_children@.skip(0) =~= new_children@);
        assert(new_children@.subrange(0, 0) =~= Seq::<dalek_ff_group::Scalar>::empty());
    }
    let mut acc = start;
    let mut i: usize = 0;
    while i < n
        invariant
            n == new_children@.len(),
            glen == generators@.len(),
            offset + n <= glen,
            i <= n,
            base == ed_sub(
                *existing_hash,
                ed_mul(*existing_child_at_offset, generators@[offset as int]),
            ),
            grow_spec(
                generators@,
                *existing_hash,
                offset as int,
                *existing_child_at_offset,
                new_children@,
            ) == chain_add(generators@, acc, offset + i, new_children@.skip(i as int)),
            chain_sub(generators@, acc, offset as int, new_children@.subrange(0, i as int))
                == base,
        decreases n - i,
    {
        let term = point_mul(&new_children[i], &generators[offset + i]);
        let next = point_add(&acc, &term);
        proof {
            let cs = new_children@;
            let pre = cs.subrange(0, i as int);
            let post = cs.subrange(0, i + 1 as int);
            assert(post.drop_last() =~= pre);
            assert(post.last() == cs[i as int]);
            assert(chain_sub(generators@, next, offset as int, post) == base);
            assert(cs.skip(i as int)[0] == cs[i as int]);
            assert(cs.skip(i as int).skip(1) =~= cs.skip(i + 1 as int));
        }
        acc = next;
        i = i + 1;
    }
    proof {
        assert(new_children@.skip(n as int) =~= Seq::<dalek_ff_group::Scalar>::empty());
        assert(new_children@.subrange(0, n as int) =~= new_children@);
    }
    Ok(acc)
}

/// Hash a fresh node: commit the children into the empty node's
/// initialization point, each under its slot's generator. Fails, before
/// any curve arithmetic, where the children outnumber the node's
/// branching factor or none are given: a node is only ever created for
/// at least one child, so an empty list is a caller error, not a no-op.
pub fn hash_new(
    generators: &Vec<dalek_ff_group::EdwardsPoint>,
    init: &dalek_ff_group::EdwardsPoint,
    children: &Vec<dalek_ff_group::Scalar>,
) -> (r: Result<dalek_ff_group::EdwardsPoint, FcmpError>)
    ensures
        r is Ok <==> (1 <= children@.len() && children@.len() <= generators@.len()),
        r matches Err(e) ==> e == FcmpError::StructuralMismatch,
        r matches Ok(h) ==> h == chain_add(generators@, *init, 0, children@),
{
    let n = children.len();
    let glen = generators.len();
    if n == 0 || n > glen {
        return Err(FcmpError::StructuralMismatch);
    }
    proof {
        assert(children@.skip(0) =~= children@);
    }
    let mut acc = *init;
    let mut i: usize = 0;
    while i < n
        invariant
            n == children@.len(),
            glen == generators@.len(),
            n <= glen,
            i <= n,
            chain_add(generators@, *init, 0, children@) == chain_add(
                generators@,
                acc,
                i as int,
                children@.skip(i as int),
            ),
        decreases n - i,
    {
        let term = point_mul(&children[i], &generators[i]);
        let next = point_add(&acc, &term);
        proof {
            let cs = children@;
            assert(cs.skip(i as int)[0] == cs[i as int]);
            assert(cs.skip(i as int).skip(1) =~= cs.skip(i + 1 as int));
        }
        acc = next;
        i = i + 1;
    }
    proof {
        assert(children@.skip(n as int) =~= Seq::<dalek_ff_group::Scalar>::empty());
    }
    Ok(acc)
}

/// Recompute a node's commitment hash after the `children` at the slots
/// starting at `offset` are removed and the single value
/// `child_to_grow_back` is restored at that offset. Fails, before any
/// curve arithmetic, where the named slots run past the node's branching
/// factor or no children are given: the restored value takes the place
/// of the first removed child, so removing nothing is malformed rather
/// than a no-op.
pub fn hash_trim(
    generators: &Vec<dalek_ff_group::EdwardsPoint>,
    existing_hash: &dalek_ff_group::EdwardsPoint,
    offset: usize,
    children: &Vec<dalek_ff_group::Scalar>,
    child_to_grow_back: &dalek_ff_group::Scalar,
) -> (r: Result<dalek_ff_group::EdwardsPoint, FcmpError>)
    ensures
        r is Ok <==> (1 <= children@.len() && offset + children@.len() <= generators@.len()),
        r matches Err(e) ==> e == FcmpError::StructuralMismatch,
        r matches Ok(h) ==> h == trim_spec(
            generators@,
            *existing_hash,
            offset as int,
            children@,
            *child_to_grow_back,
        ),
{
    let n = children.len();
    let glen = generators.len();
    if n == 0 || offset >= glen || n > glen - offset {
        return Err(FcmpError::StructuralMismatch);
    }
    proof {
        assert(children@.subrange(0, n as int) =~= children@);
    }
    let mut acc = *existing_hash;
    let mut k: usize = n;
    while k > 0
        invariant
            n == children@.len(),
            glen == generators@.len(),
            offset + n <= glen,
            k <= n,
            chain_sub(generators@, acc, offset as int, children@.subrange(0, k as int))
                == chain_sub(generators@, *existing_hash, offset as int, children@),
        decreases k,
    {
        let term = point_mul(&children[k - 1], &generators[offset + k - 1]);
        let next = point_sub(&acc, &term);
        proof {
            let cs = children@;
            let cur = cs.subrange(0, k as int);
            assert(cur.drop_last() =~= cs.subrange(0, k - 1 as int));
            assert(cur.last() == cs[k - 1 as int]);
        }
        acc = next;
        k = k - 1;
    }
    proof {
        assert(children@.subrange(0, 0) =~= Seq::<dalek_ff_group::Scalar>::empty());
        assert(children@.subrange(0, n as int) =~= children@);
    }
    let restored = point_mul(child_to_grow_back, &generators[offset]);
    Ok(point_add(&acc, &restored))
}

/// The tree-hash inverse law: growing a node from a single prior value and
/// trimming the same children straight back off restores the hash the node
/// had before, at every offset within the branching factor.
pub fn grow_then_trim(
    generators: &Vec<dalek_ff_group::EdwardsPoint>,
    existing_hash: &dalek_ff_group::EdwardsPoint,
    offset: usize,
    prior: &dalek_ff_group::Scalar,
    children: &Vec<dalek_ff_group::Scalar>,
) -> (r: Result<dalek_ff_group::EdwardsPoint, FcmpError>)
    requires
        1 <= children@.len(),
        offset + children@.len() <= generators@.len(),
    ensures
        r == Ok::<dalek_ff_group::EdwardsPoint, FcmpError>(*existing_hash),
{
    let grown = match hash_grow(generators, existing_hash, offset, prior, children) {
        Ok(h) => h,
        Err(e) => {
            return Err(e);
        },
    };
    hash_trim(generators, &grown, offset, children, prior)
}

} // verus!
