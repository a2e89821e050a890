use base64::Engine;
use serde_json::{Number, Value};
use wallet_adapter::connection::{ConnectionStateHolder, WalletAdapter};
use wallet_adapter::keys::{Pubkey, Signature};
use wallet_adapter::orchestrator::{invoke_signature, InvokeSignatureStatus, SigningFlow};
use wallet_adapter::poller::{CommitmentLevel, PollStatus, CONFIRM_RETRIES};
use wallet_adapter::wire::{tx_decode, tx_encode, Transaction};

fn tx_for(payer: &[u8; 32]) -> Transaction {
    Transaction {
        fee_payer: Pubkey { bytes: payer.to_vec() },
        recent_anchor: vec![5u8; 32],
        signatures: Vec::new(),
        instructions: b"Hello, world".to_vec(),
    }
}

/// Plays the wallet: decodes the framed request, attaches a signature, and
/// frames the signed transaction as the boundary response.
fn wallet_signs(request: &str) -> String {
    let engine = &base64::engine::general_purpose::STANDARD;
    let bytes = engine.decode(request).expect("request must be base64");
    let mut tx = tx_decode(&bytes).expect("request must carry a transaction");
    tx.signatures.push(vec![9u8; 64]);
    engine.encode(tx_encode(&tx).expect("signed transaction must encode"))
}

#[test]
fn scenario_signed_submitted_and_finalized() {
    // The wallet connects with an address; the bridge returns a validly
    // signed transaction; submission succeeds; the third poll is finalized.
    let mut holder = ConnectionStateHolder::new();
    let payer = [1u8; 32];
    let payload = Value::Array(payer.iter().map(|b| Value::Number(Number::from(*b as u64))).collect());
    holder.on_boundary_event(&payload);
    let payer_bytes = match holder.state() {
        WalletAdapter::Connected { pubkey } => pubkey.bytes.clone(),
        WalletAdapter::Disconnected => panic!("wallet should be connected"),
    };

    let tx = tx_for(&payer);
    assert_eq!(payer_bytes, tx.fee_payer.bytes);

    let mut flow = SigningFlow::new();
    let request = {
        let req = flow.begin(&tx);
        assert!(matches!(flow.status(), InvokeSignatureStatus::Waiting));
        req.expect("well-formed transaction must frame")
    };
    let reply = wallet_signs(&request);

    let submission_sig = Signature { bytes: vec![11u8; 64] };
    let polls = vec![
        PollStatus::NoRecord,
        PollStatus::Commitment(CommitmentLevel::Processed),
        PollStatus::Commitment(CommitmentLevel::Finalized),
    ];
    invoke_signature(&mut flow, &tx, Some(&reply), Some(submission_sig), &polls);
    assert_eq!(*flow.status(), InvokeSignatureStatus::Done(Signature { bytes: vec![11u8; 64] }));
}

#[test]
fn scenario_rejected_signing_makes_no_submission() {
    // The wallet rejects: the boundary hands back a non-conforming response;
    // the flow ends in error without any submission step.
    let tx = tx_for(&[2u8; 32]);
    let mut flow = SigningFlow::new();
    flow.begin(&tx).expect("well-formed transaction must frame");
    let submit = flow.on_signer_response(&Value::Bool(false));
    assert!(submit.is_none(), "a rejected signing must hand nothing on for submission");
    assert_eq!(*flow.status(), InvokeSignatureStatus::DoneWithError);
}

#[test]
fn scenario_submission_never_confirms_times_out() {
    // Submission succeeds; every poll within the budget sees no record.
    let tx = tx_for(&[3u8; 32]);
    let mut flow = SigningFlow::new();
    let request = flow.begin(&tx).unwrap();
    let reply = wallet_signs(&request);
    let polls = vec![PollStatus::NoRecord; CONFIRM_RETRIES];
    invoke_signature(&mut flow, &tx, Some(&reply), Some(Signature { bytes: vec![12u8; 64] }), &polls);
    assert_eq!(*flow.status(), InvokeSignatureStatus::Timeout);
}

#[test]
fn scenario_submission_failure_ends_in_error() {
    let tx = tx_for(&[4u8; 32]);
    let mut flow = SigningFlow::new();
    let request = flow.begin(&tx).unwrap();
    let reply = wallet_signs(&request);
    invoke_signature(&mut flow, &tx, Some(&reply), None, &Vec::new());
    assert_eq!(*flow.status(), InvokeSignatureStatus::DoneWithError);
}

#[test]
fn scenario_malformed_reply_text_ends_in_error() {
    let tx = tx_for(&[6u8; 32]);
    let mut flow = SigningFlow::new();
    flow.begin(&tx).unwrap();
    let submit = flow.on_signer_response_text(Some("@@@ not a framed transaction"));
    assert!(submit.is_none());
    assert_eq!(*flow.status(), InvokeSignatureStatus::DoneWithError);
}

#[test]
fn scenario_absent_reply_ends_in_error() {
    let tx = tx_for(&[6u8; 32]);
    let mut flow = SigningFlow::new();
    flow.begin(&tx).unwrap();
    let submit = flow.on_signer_response_text(None);
    assert!(submit.is_none());
    assert_eq!(*flow.status(), InvokeSignatureStatus::DoneWithError);
}

#[test]
fn malformed_transaction_fails_before_the_boundary() {
    let mut tx = tx_for(&[7u8; 32]);
    tx.recent_anchor = vec![5u8; 7];
    let mut flow = SigningFlow::new();
    assert!(flow.begin(&tx).is_none());
    assert_eq!(*flow.status(), InvokeSignatureStatus::DoneWithError);
}

#[test]
fn signed_reply_carries_the_original_transaction() {
    // The signed transaction handed on for submission equals the request
    // with the wallet's signature attached, bit for bit.
    let tx = tx_for(&[8u8; 32]);
    let mut flow = SigningFlow::new();
    let request = flow.begin(&tx).unwrap();
    let reply = wallet_signs(&request);
    let signed = flow.on_signer_response_text(Some(&reply)).expect("valid reply must hand a transaction on");
    assert_eq!(signed.fee_payer, tx.fee_payer);
    assert_eq!(signed.recent_anchor, tx.recent_anchor);
    assert_eq!(signed.instructions, tx.instructions);
    assert_eq!(signed.signatures, vec![vec![9u8; 64]]);
}

#[test]
fn two_invocations_are_independent() {
    // A failed first invocation leaves no trace in the second; a successful
    // first invocation leaves no trace in a failing second.
    let tx = tx_for(&[9u8; 32]);
    let mut flow = SigningFlow::new();

    invoke_signature(&mut flow, &tx, None, None, &Vec::new());
    assert_eq!(*flow.status(), InvokeSignatureStatus::DoneWithError);

    let request = flow.begin(&tx).unwrap();
    let reply = wallet_signs(&request);
    let polls = vec![PollStatus::Commitment(CommitmentLevel::Confirmed)];
    invoke_signature(&mut flow, &tx, Some(&reply), Some(Signature { bytes: vec![13u8; 64] }), &polls);
    assert_eq!(*flow.status(), InvokeSignatureStatus::Done(Signature { bytes: vec![13u8; 64] }));

    invoke_signature(&mut flow, &tx, Some("still not a reply"), Some(Signature { bytes: vec![13u8; 64] }), &polls);
    assert_eq!(*flow.status(), InvokeSignatureStatus::DoneWithError);
}
