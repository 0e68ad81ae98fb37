//! SHA-256 digests, computed by the `sha2` crate.

use vstd::prelude::*;
use sha2::Digest;

verus! {

/// The SHA-256 digest of `data`, as `sha2` computes it.
pub uninterp spec fn sha256(data: Seq<u8>) -> Seq<u8>;

/// A running SHA-256 computation. The `sha2` hasher it holds is opaque here
/// (its type is an alias of a generic wrapper that cannot be declared to the
/// verifier); [`absorbed`] names the bytes fed to it so far.
#[verifier::external_body]
pub struct DigestState {
    hasher: sha2::Sha256,
}

/// The bytes fed to a running digest so far, in order.
pub uninterp spec fn absorbed(state: DigestState) -> Seq<u8>;

/// `Sha256::new`: a digest that has absorbed nothing.
#[verifier::external_body]
pub(crate) fn digest_new() -> (r: DigestState)
    ensures
        absorbed(r) == Seq::<u8>::empty(),
{
    DigestState { hasher: sha2::Sha256::new() }
}

/// `Digest::update`: feeds `data` to the digest; it has then absorbed what
/// it had before followed by `data`.
#[verifier::external_body]
pub(crate) fn digest_update(state: &mut DigestState, data: &[u8])
    ensures
        absorbed(*final(state)) == absorbed(*old(state)) + data@,
{
    state.hasher.update(data);
}

/// `Digest::finalize`: the SHA-256 digest of everything absorbed, named by
/// [`sha256`] (a function of those bytes alone); it is 32 bytes long, as the
/// algorithm fixes. Its bytes are not stated.
#[verifier::external_body]
pub(crate) fn digest_finish(state: DigestState) -> (r: Vec<u8>)
    ensures
        r@ == sha256(absorbed(state)),
        r@.len() == 32,
{
    state.hasher.finalize().to_vec()
}

} // verus!
