use base64::Engine;
use wallet_adapter::bridge::{decode_response, encode_request};
use wallet_adapter::keys::Pubkey;
use wallet_adapter::wire::{tx_decode, tx_encode, Transaction};

fn sample_tx() -> Transaction {
    Transaction {
        fee_payer: Pubkey { bytes: vec![1u8; 32] },
        recent_anchor: vec![2u8; 32],
        signatures: vec![vec![3u8; 64]],
        instructions: vec![0xDE, 0xAD, 0xBE, 0xEF],
    }
}

fn wire_bytes_of(tx: &Transaction) -> Vec<u8> {
    let mut bytes = Vec::new();
    bytes.extend_from_slice(&tx.fee_payer.bytes);
    bytes.extend_from_slice(&tx.recent_anchor);
    bytes.extend_from_slice(&(tx.signatures.len() as u64).to_le_bytes());
    for sig in &tx.signatures {
        bytes.extend_from_slice(sig);
    }
    bytes.extend_from_slice(&(tx.instructions.len() as u64).to_le_bytes());
    bytes.extend_from_slice(&tx.instructions);
    bytes
}

#[test]
fn wire_form_matches_hand_built_bytes() {
    let tx = sample_tx();
    let encoded = tx_encode(&tx).expect("well-formed transaction must encode");
    assert_eq!(encoded, wire_bytes_of(&tx));
}

#[test]
fn wire_round_trip_is_bit_for_bit() {
    let tx = sample_tx();
    let encoded = tx_encode(&tx).unwrap();
    let decoded = tx_decode(&encoded).expect("encoded transaction must decode");
    assert_eq!(decoded, tx);
}

#[test]
fn malformed_transaction_is_refused() {
    let mut tx = sample_tx();
    tx.recent_anchor = vec![2u8; 31];
    assert!(tx_encode(&tx).is_none());
    assert!(encode_request(&tx).is_none());

    let mut tx2 = sample_tx();
    tx2.signatures = vec![vec![3u8; 63]];
    assert!(tx_encode(&tx2).is_none());
}

#[test]
fn truncated_wire_forms_are_refused() {
    let tx = sample_tx();
    let encoded = tx_encode(&tx).unwrap();
    // Short header.
    assert!(tx_decode(&encoded[..71].to_vec()).is_none());
    // Truncated signature list.
    assert!(tx_decode(&encoded[..100].to_vec()).is_none());
    // Instruction data shorter than its length field claims.
    let mut clipped = encoded.clone();
    clipped.pop();
    assert!(tx_decode(&clipped).is_none());
}

#[test]
fn request_is_base64_of_wire_form() {
    let tx = sample_tx();
    let req = encode_request(&tx).expect("well-formed transaction must frame");
    let expected = base64::engine::general_purpose::STANDARD.encode(wire_bytes_of(&tx));
    assert_eq!(req, expected);
    // The wire form opens with the 32 `0x01` fee-payer bytes, whose base64
    // text is a run of "AQEB" groups.
    assert!(req.starts_with("AQEBAQEBAQEB"));
    // The framing really is transformed text, not the raw bytes.
    assert_ne!(req.as_bytes(), wire_bytes_of(&tx).as_slice());
}

#[test]
fn response_round_trip_recovers_the_transaction() {
    let tx = sample_tx();
    let req = encode_request(&tx).unwrap();
    let back = decode_response(&req).expect("framed transaction must decode");
    assert_eq!(back, tx);
}

#[test]
fn non_base64_response_is_rejected() {
    assert!(decode_response("not valid base64 !!!").is_none());
}

#[test]
fn base64_of_garbage_is_rejected() {
    let garbage = base64::engine::general_purpose::STANDARD.encode([1u8, 2, 3]);
    assert!(decode_response(&garbage).is_none());
}

#[test]
fn non_canonical_base64_is_rejected() {
    let tx = sample_tx();
    let req = encode_request(&tx).unwrap();
    // Strip the final padding; the strict engine refuses the frame.
    let unpadded = req.trim_end_matches('=').to_string();
    if unpadded != req {
        assert!(decode_response(&unpadded).is_none());
    }
}

#[test]
fn empty_signature_list_round_trips() {
    let mut tx = sample_tx();
    tx.signatures = Vec::new();
    tx.instructions = Vec::new();
    let req = encode_request(&tx).unwrap();
    let back = decode_response(&req).unwrap();
    assert_eq!(back, tx);
}
