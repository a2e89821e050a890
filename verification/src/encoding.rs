//! Text-safe framing of binary payloads for the boundary channel.
//!
//! The payloads crossing the signer boundary are framed as standard base64
//! text. The encoding itself is done by the `base64` crate; its result is
//! named by the uninterpreted function [`b64_of`], and the two wrappers below
//! state the round trip that the crate's strict, canonical-padding `STANDARD`
//! engine provides.

use base64::Engine;
use vstd::prelude::*;

verus! {

/// The base64 text of a byte string, as produced by the `STANDARD` engine.
pub uninterp spec fn b64_of(b: Seq<u8>) -> Seq<char>;

/// Upper bound on payload sizes handed to the encoder; the encoder computes
/// `4 * ceil(len / 3)` in `usize` and must not overflow doing so.
pub const B64_INPUT_MAX: usize = usize::MAX / 4;

/// Relies on `base64::engine::general_purpose::STANDARD.encode`: the encoding
/// is a deterministic function of the input bytes alone. The length bound
/// keeps the engine's output-size computation from overflowing.
#[verifier::external_body]
pub(crate) fn b64_encode(b: &Vec<u8>) -> (r: String)
    requires
        b@.len() <= B64_INPUT_MAX,
    ensures
        r@ == b64_of(b@),
{
    base64::engine::general_purpose::STANDARD.encode(b)
}

/// Relies on `base64::engine::general_purpose::STANDARD.decode`: decoding the
/// encoding of any byte string succeeds and yields exactly that byte string
/// (so the encoding determines its input), and the engine's strict
/// configuration (canonical padding required, no trailing bits) accepts only
/// canonical encodings, so every accepted input is the encoding of the bytes
/// returned.
#[verifier::external_body]
pub(crate) fn b64_decode(s: &str) -> (r: Option<Vec<u8>>)
    ensures
        r matches Some(v) ==> s@ == b64_of(v@) && (forall|b: Seq<u8>|
            s@ == #[trigger] b64_of(b) ==> b == v@),
        r is Some <== exists|b: Seq<u8>| s@ == #[trigger] b64_of(b),
{
    base64::engine::general_purpose::STANDARD.decode(s).ok()
}

} // verus!
