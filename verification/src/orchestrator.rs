//! The signing orchestrator: the end-to-end flow from trigger to terminal
//! status.
//!
//! One invocation runs a single forward path — frame and send the signing
//! request, receive the signed transaction or a rejection, submit, then wait
//! for confirmation — and drives an observable [`InvokeSignatureStatus`].
//! Each boundary and network result enters through one step method; every
//! failure becomes a terminal status, never a crash, and a terminal status
//! does not change for the rest of the invocation, since no step accepts a
//! finished flow. The outcome of an invocation is a function of that
//! invocation's inputs alone; nothing carries over from an earlier one.

use vstd::prelude::*;

use crate::bridge::{decode_response, encode_request, spec_encodable, spec_valid_reply};
use crate::encoding::b64_of;
use crate::json::value_as_string;
use crate::keys::{copy_bytes, Signature};
use crate::poller::{
    confirm_signature, spec_confirmed_within, ConfirmOutcome, PollStatus, CONFIRM_RETRIES,
};
use crate::wire::{spec_tx_encode, Transaction};

verus! {

/// Status of one signing flow, as shown to observers.
#[derive(Debug, PartialEq, Eq)]
pub enum InvokeSignatureStatus {
    Start,
    Waiting,
    DoneWithError,
    Timeout,
    Done(Signature),
}

/// The mathematical value of a status; terminal `Done` carries the
/// submission signature's bytes.
#[verifier::ext_equal]
pub enum StatusView {
    Start,
    Waiting,
    DoneWithError,
    Timeout,
    Done(Seq<u8>),
}

impl View for InvokeSignatureStatus {
    type V = StatusView;

    open spec fn view(&self) -> StatusView {
        match self {
            InvokeSignatureStatus::Start => StatusView::Start,
            InvokeSignatureStatus::Waiting => StatusView::Waiting,
            InvokeSignatureStatus::DoneWithError => StatusView::DoneWithError,
            InvokeSignatureStatus::Timeout => StatusView::Timeout,
            InvokeSignatureStatus::Done(sig) => StatusView::Done(sig.bytes@),
        }
    }
}

enum Phase {
    Idle,
    AwaitingSignature,
    AwaitingSubmission,
    AwaitingConfirmation { sig: Signature },
    Finished,
}

/// One signing flow and its observable status.
pub struct SigningFlow {
    status: InvokeSignatureStatus,
    phase: Phase,
}

impl SigningFlow {
    /// The status an observer reads.
    pub closed spec fn spec_status(&self) -> StatusView {
        self.status@
    }

    /// The flow has sent its request and awaits the signer's response.
    pub closed spec fn awaiting_signature(&self) -> bool {
        self.phase is AwaitingSignature
    }

    /// The flow holds a signed transaction and awaits the submission result.
    pub closed spec fn awaiting_submission(&self) -> bool {
        self.phase is AwaitingSubmission
    }

    /// The flow has submitted and awaits the confirmation outcome.
    pub closed spec fn awaiting_confirmation(&self) -> bool {
        self.phase is AwaitingConfirmation
    }

    /// The submission signature the flow is waiting on.
    pub closed spec fn spec_pending_sig(&self) -> Seq<u8>
        recommends
            self.awaiting_confirmation(),
    {
        self.phase->sig.bytes@
    }

    /// The invocation has reached a terminal status.
    pub closed spec fn finished(&self) -> bool {
        self.phase is Finished
    }

    /// A fresh flow, not yet triggered.
    pub fn new() -> (r: Self)
        ensures
            r.spec_status() is Start,
            !r.finished(),
            !r.awaiting_signature(),
            !r.awaiting_submission(),
            !r.awaiting_confirmation(),
    {
        SigningFlow { status: InvokeSignatureStatus::Start, phase: Phase::Idle }
    }

    /// Reads the current status.
    pub fn status(&self) -> (r: &InvokeSignatureStatus)
        ensures
            r@ == self.spec_status(),
    {
        &self.status
    }

    /// Starts a new invocation on `tx`, restarting from any prior state: the
    /// result does not depend on what the flow held before. An encodable
    /// transaction is framed and the flow awaits the signature; a malformed
    /// one ends the invocation at once, without crossing the boundary.
    pub fn begin(&mut self, tx: &Transaction) -> (req: Option<String>)
        ensures
            req is Some <==> spec_encodable(*tx),
            req matches Some(s) ==> s@ == b64_of(spec_tx_encode(tx@))
                && final(self).spec_status() is Waiting && final(self).awaiting_signature(),
            req is None ==> final(self).spec_status() is DoneWithError && final(self).finished(),
    {
        self.status = InvokeSignatureStatus::Waiting;
        match encode_request(tx) {
            Some(s) => {
                self.phase = Phase::AwaitingSignature;
                Some(s)
            },
            None => {
                self.status = InvokeSignatureStatus::DoneWithError;
                self.phase = Phase::Finished;
                None
            },
        }
    }

    /// Receives the response text from the boundary (`None`: no response
    /// arrived). A valid reply hands the signed transaction on for
    /// submission; anything else is a rejection ending the invocation.
    pub fn on_signer_response_text(&mut self, text: Option<&str>) -> (submit: Option<Transaction>)
        requires
            old(self).awaiting_signature(),
        ensures
            submit is Some <==> (text matches Some(s) && spec_valid_reply(s@)),
            submit matches Some(t) ==> t.wf() && (text matches Some(s) && s@ == b64_of(
                spec_tx_encode(t@),
            )) && final(self).spec_status() is Waiting && final(self).awaiting_submission(),
            submit is None ==> final(self).spec_status() is DoneWithError
                && final(self).finished(),
    {
        match text {
            None => {
                self.status = InvokeSignatureStatus::DoneWithError;
                self.phase = Phase::Finished;
                None
            },
            Some(s) => {
                match decode_response(s) {
                    Some(t) => {
                        self.status = InvokeSignatureStatus::Waiting;
                        self.phase = Phase::AwaitingSubmission;
                        Some(t)
                    },
                    None => {
                        self.status = InvokeSignatureStatus::DoneWithError;
                        self.phase = Phase::Finished;
                        None
                    },
                }
            },
        }
    }

    /// Receives the boundary response as a structured value; any non-string
    /// shape is a rejection.
    pub fn on_signer_response(&mut self, resp: &serde_json::Value) -> (submit: Option<Transaction>)
        requires
            old(self).awaiting_signature(),
        ensures
            submit matches Some(t) ==> t.wf() && final(self).spec_status() is Waiting
                && final(self).awaiting_submission(),
            submit is None ==> final(self).spec_status() is DoneWithError
                && final(self).finished(),
    {
        match value_as_string(resp) {
            Some(s) => self.on_signer_response_text(Some(s.as_str())),
            None => self.on_signer_response_text(None),
        }
    }

    /// Receives the submission result: a failed submission ends the
    /// invocation; a signature starts the confirmation wait on it.
    pub fn on_submit_result(&mut self, sig: Option<Signature>)
        requires
            old(self).awaiting_submission(),
        ensures
            sig matches Some(s) ==> final(self).spec_status() is Waiting
                && final(self).awaiting_confirmation() && final(self).spec_pending_sig()
                == s.bytes@,
            sig is None ==> final(self).spec_status() is DoneWithError && final(self).finished(),
    {
        match sig {
            Some(s) => {
                self.status = InvokeSignatureStatus::Waiting;
                self.phase = Phase::AwaitingConfirmation { sig: s };
            },
            None => {
                self.status = InvokeSignatureStatus::DoneWithError;
                self.phase = Phase::Finished;
            },
        }
    }

    /// Receives the confirmation outcome: `Confirmed` ends the invocation
    /// `Done` with the submission signature it was waiting on; `TimedOut`
    /// ends it `Timeout`.
    pub fn on_confirm_outcome(&mut self, oc: ConfirmOutcome)
        requires
            old(self).awaiting_confirmation(),
        ensures
            final(self).finished(),
            oc is Confirmed ==> final(self).spec_status() == StatusView::Done(
                old(self).spec_pending_sig(),
            ),
            oc is TimedOut ==> final(self).spec_status() is Timeout,
    {
        let sig_bytes = match &self.phase {
            Phase::AwaitingConfirmation { sig } => copy_bytes(&sig.bytes),
            _ => Vec::new(),
        };
        match oc {
            ConfirmOutcome::Confirmed => {
                self.status = InvokeSignatureStatus::Done(Signature { bytes: sig_bytes });
            },
            ConfirmOutcome::TimedOut => {
                self.status = InvokeSignatureStatus::Timeout;
            },
        }
        self.phase = Phase::Finished;
    }
}

/// The terminal status an invocation reaches, as a function of its inputs:
/// the transaction, the signer's reply, the submission result, and the
/// status observations.
pub open spec fn spec_flow_status(
    tx: Transaction,
    reply: Option<&str>,
    submit: Option<Signature>,
    polls: Seq<PollStatus>,
) -> StatusView {
    if !spec_encodable(tx) {
        StatusView::DoneWithError
    } else if !(reply matches Some(s) && spec_valid_reply(s@)) {
        StatusView::DoneWithError
    } else {
        match submit {
            None => StatusView::DoneWithError,
            Some(sig) => if spec_confirmed_within(polls, CONFIRM_RETRIES as int) {
                StatusView::Done(sig.bytes@)
            } else {
                StatusView::Timeout
            },
        }
    }
}

/// Runs one whole signing flow against its collaborators' results: the
/// boundary reply text, the submission result, and the script of status
/// observations. The final status is exactly [`spec_flow_status`] of this
/// invocation's inputs — independent of the flow's prior state, so two
/// sequential invocations produce two independent terminal outcomes.
pub fn invoke_signature(
    flow: &mut SigningFlow,
    tx: &Transaction,
    reply: Option<&str>,
    submit: Option<Signature>,
    polls: &Vec<PollStatus>,
)
    ensures
        final(flow).spec_status() == spec_flow_status(*tx, reply, submit, polls@),
        final(flow).finished(),
{
    let req = flow.begin(tx);
    if req.is_none() {
        return ;
    }
    let signed = flow.on_signer_response_text(reply);
    if signed.is_none() {
        return ;
    }
    let has_sig = submit.is_some();
    flow.on_submit_result(submit);
    if has_sig {
        let (oc, _used) = confirm_signature(polls);
        flow.on_confirm_outcome(oc);
    }
}

} // verus!
