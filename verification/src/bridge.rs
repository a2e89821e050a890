//! The signer bridge: request and response framing for the boundary channel.
//!
//! A signing request is the text-safe framing of a transaction's wire form; a
//! response is either such a framing of the signed transaction, which decodes
//! back to it bit for bit, or any other value, treated as a rejection.

use vstd::prelude::*;

use crate::encoding::{b64_decode, b64_encode, b64_of, B64_INPUT_MAX};
use crate::wire::{
    lemma_tx_decode_sound, lemma_tx_round_trip, spec_tx_decode, spec_tx_encode, tx_decode,
    tx_encode, wf_view, Transaction, TxView,
};

verus! {

/// A transaction that the bridge can frame: well-formed, with a wire form
/// small enough for the text encoder.
pub open spec fn spec_encodable(tx: Transaction) -> bool {
    tx.wf() && spec_tx_encode(tx@).len() <= B64_INPUT_MAX
}

/// A response line is valid exactly when it is the text framing of bytes that
/// parse as a transaction.
pub open spec fn spec_valid_reply(s: Seq<char>) -> bool {
    exists|bs: Seq<u8>| s == #[trigger] b64_of(bs) && spec_tx_decode(bs) is Some
}

/// Law: a reply is valid exactly when it is the framing of some well-formed
/// transaction — so every non-conforming response, whatever its shape, is
/// rejected, and nothing but a framed transaction is ever accepted.
pub proof fn lemma_valid_reply_is_a_framed_transaction(s: Seq<char>)
    ensures
        spec_valid_reply(s) <==> exists|v: TxView|
            wf_view(v) && s == b64_of(#[trigger] spec_tx_encode(v)),
{
    if spec_valid_reply(s) {
        let bs = choose|bs: Seq<u8>| s == #[trigger] b64_of(bs) && spec_tx_decode(bs) is Some;
        let v = choose|v: TxView| spec_tx_decode(bs) == Some(v);
        lemma_tx_decode_sound(bs, v);
        assert(wf_view(v) && s == b64_of(spec_tx_encode(v)));
    }
    if exists|v: TxView| wf_view(v) && s == b64_of(#[trigger] spec_tx_encode(v)) {
        let v = choose|v: TxView| wf_view(v) && s == b64_of(#[trigger] spec_tx_encode(v));
        lemma_tx_round_trip(v);
        assert(s == b64_of(spec_tx_encode(v)) && spec_tx_decode(spec_tx_encode(v)) is Some);
    }
}

/// Frames a transaction for the boundary channel. A malformed transaction is
/// refused without crossing the boundary; every encodable one is framed.
pub fn encode_request(tx: &Transaction) -> (r: Option<String>)
    ensures
        r matches Some(s) ==> tx.wf() && s@ == b64_of(spec_tx_encode(tx@)),
        r is Some <==> spec_encodable(*tx),
{
    match tx_encode(tx) {
        None => None,
        Some(bytes) => {
            if bytes.len() <= B64_INPUT_MAX {
                Some(b64_encode(&bytes))
            } else {
                None
            }
        },
    }
}

/// Decodes a response line. Exactly the valid replies are accepted; every
/// accepted reply is precisely the framing of the well-formed transaction
/// returned, and the framing of any well-formed transaction decodes back to
/// that transaction, bit for bit.
pub fn decode_response(s: &str) -> (r: Option<Transaction>)
    ensures
        r matches Some(t) ==> t.wf() && s@ == b64_of(spec_tx_encode(t@)),
        r is Some <==> spec_valid_reply(s@),
        forall|v: TxView|
            wf_view(v) && s@ == b64_of(#[trigger] spec_tx_encode(v)) ==> (r matches Some(t)
                && t@ == v),
{
    match b64_decode(s) {
        None => {
            proof {
                assert forall|v: TxView|
                    !(wf_view(v) && s@ == b64_of(spec_tx_encode(v))) by {
                    if wf_view(v) && s@ == b64_of(spec_tx_encode(v)) {
                        lemma_tx_round_trip(v);
                    }
                }
            }
            None
        },
        Some(bytes) => {
            match tx_decode(&bytes) {
                None => {
                    proof {
                        assert forall|v: TxView|
                            !(wf_view(v) && s@ == b64_of(spec_tx_encode(v))) by {
                            if wf_view(v) && s@ == b64_of(spec_tx_encode(v)) {
                                lemma_tx_round_trip(v);
                            }
                        }
                    }
                    None
                },
                Some(t) => {
                    proof {
                        assert(s@ == b64_of(bytes@) && spec_tx_decode(bytes@) is Some);
                        assert(spec_valid_reply(s@));
                        lemma_tx_decode_sound(bytes@, t@);
                        assert forall|v: TxView|
                            wf_view(v) && s@ == b64_of(spec_tx_encode(v)) implies t@ == v by {
                            lemma_tx_round_trip(v);
                        }
                    }
                    Some(t)
                },
            }
        },
    }
}

} // verus!
