//! The one computation the ledger takes from outside: a SHA-256 digest.

use sha2::Digest;
use vstd::prelude::*;

verus! {

/// The SHA-256 digest of a byte string: a function of the bytes alone.
/// The ledger never states which 32 bytes these are; it only stores them
/// and compares them.
pub uninterp spec fn digesto_sha256(dados: Seq<u8>) -> Seq<u8>;

/// Relies on `sha2::Sha256::digest` (through the `Digest` trait): the
/// SHA-256 digest of the given bytes, always 32 bytes long and determined
/// by the input alone.
#[verifier::external_body]
pub(crate) fn calcular_sha256(dados: &[u8]) -> (r: Vec<u8>)
    ensures
        r@ == digesto_sha256(dados@),
        r@.len() == 32,
{
    sha2::Sha256::digest(dados).to_vec()
}

} // verus!
