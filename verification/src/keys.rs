//! Identifiers exchanged with the signer and the ledger: the signer's public
//! address and the submission signature used as the correlation key when
//! polling for confirmation.

use vstd::prelude::*;

verus! {

/// Number of bytes in a signer's public address.
pub const PUBKEY_LEN: usize = 32;

/// Number of bytes in a transaction signature.
pub const SIGNATURE_LEN: usize = 64;

/// A signer's public address: a fixed-length opaque identifier.
#[derive(Debug, PartialEq, Eq)]
pub struct Pubkey {
    pub bytes: Vec<u8>,
}

impl Pubkey {
    /// A well-formed address holds exactly `PUBKEY_LEN` bytes.
    pub open spec fn wf(&self) -> bool {
        self.bytes@.len() == PUBKEY_LEN
    }

    /// Accepts exactly the byte strings of address length.
    pub fn new(bytes: Vec<u8>) -> (r: Option<Pubkey>)
        ensures
            r matches Some(p) ==> p.wf() && p.bytes@ == bytes@,
            r is Some <==> bytes@.len() == PUBKEY_LEN,
    {
        if bytes.len() == PUBKEY_LEN {
            Some(Pubkey { bytes })
        } else {
            None
        }
    }
}

/// An opaque identifier returned by the ledger upon submission; one signature
/// corresponds to exactly one submitted transaction.
#[derive(Debug, PartialEq, Eq)]
pub struct Signature {
    pub bytes: Vec<u8>,
}

impl Signature {
    /// A well-formed signature holds exactly `SIGNATURE_LEN` bytes.
    pub open spec fn wf(&self) -> bool {
        self.bytes@.len() == SIGNATURE_LEN
    }
}

/// Byte-for-byte copy; lets callers duplicate identifiers without relying on
/// anything unstated about derived `Clone`.
pub fn copy_bytes(src: &Vec<u8>) -> (r: Vec<u8>)
    ensures
        r@ == src@,
{
    let mut out: Vec<u8> = Vec::new();
    let mut i: usize = 0;
    while i < src.len()
        invariant
            i <= src@.len(),
            out@ == src@.take(i as int),
        decreases src@.len() - i,
    {
        out.push(src[i]);
        assert(out@ =~= src@.take(i as int + 1));
        i = i + 1;
    }
    assert(src@.take(src@.len() as int) =~= src@);
    out
}

} // verus!
