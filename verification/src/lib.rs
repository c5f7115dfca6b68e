//! Full-chain membership proof plus plus (FCMP++) core: incremental
//! curve-tree hashing, output rerandomization and blinding, path and branch
//! assembly, proof composition and the batch admission checks.
//!
//! Elliptic-curve arithmetic is consumed through a narrow trusted interface
//! over `dalek-ff-group` / `ciphersuite`; everything the protocol decides on
//! top of it is verified.
//!
//! The two inner argument systems — the spend-authorization-and-linkability
//! proof and the bulletproof-style membership argument — are external
//! collaborators: their byte blobs pass through this library opaque and
//! their algebra is never checked here. The library therefore exposes no
//! accept/reject decision on proofs, only admission checks that decide
//! structural admissibility of the material those systems consume; the
//! module docs of `verify` say exactly what is and is not checked.

use vstd::prelude::*;

pub mod blinds;
pub mod ed25519;
pub mod output;
pub mod path;
pub mod prove;
pub mod tree;
pub mod verify;

verus! {

/// The errors this library reports, by the taxonomy of the protocol:
/// malformed encodings, structural mismatches between a call's arguments,
/// and expected cryptographic failures (degenerate scalars, inconsistent
/// openings). None of these panics.
#[derive(Clone, Copy, Debug, PartialEq, Eq, Structural)]
pub enum FcmpError {
    /// A point or scalar encoding failed to decode canonically.
    DecodeError,
    /// A point with no defined affine representation (the identity) was
    /// handed to a coordinate projection.
    ProjectionError,
    /// Counts or lengths supplied by the caller do not fit together.
    StructuralMismatch,
    /// An adversary-triggerable failure: a degenerate scalar or an
    /// algebraically inconsistent opening.
    CryptographicError,
}

/// A result in the shape the host boundary expects: exactly one of the two
/// slots is populated.
pub struct CResult<T, E> {
    pub value: Option<T>,
    pub err: Option<E>,
}

impl<T, E> CResult<T, E> {
    /// Wrap a success value for the boundary.
    pub fn ok(value: T) -> (r: CResult<T, E>)
        ensures
            r.value == Some(value),
            r.err is None,
    {
        CResult { value: Some(value), err: None }
    }

    /// Wrap an error value for the boundary.
    pub fn err(err: E) -> (r: CResult<T, E>)
        ensures
            r.value is None,
            r.err == Some(err),
    {
        CResult { value: None, err: Some(err) }
    }
}

/// Hand a fixed 32-byte value across the boundary as an owned buffer.
pub fn c_u8_32(bytes: [u8; 32]) -> (r: Vec<u8>)
    ensures
        r@ == bytes@,
        r@.len() == 32,
{
    let mut out: Vec<u8> = Vec::new();
    let mut i: usize = 0;
    while i < 32
        invariant
            i <= 32,
            out@ == bytes@.subrange(0, i as int),
        decreases 32 - i,
    {
        out.push(bytes[i]);
        assert(out@ == bytes@.subrange(0, i + 1 as int));
        i = i + 1;
    }
    assert(bytes@.subrange(0, 32) == bytes@);
    out
}

} // verus!
