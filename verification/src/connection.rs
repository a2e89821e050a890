//! The connection state holder: the process-wide record of the active signer.
//!
//! Boundary events carry the signer's address in a structured payload. Each
//! event is decoded defensively: a payload that is an array of exactly
//! `PUBKEY_LEN` byte values connects that address; any other shape — null, a
//! non-array, a wrong length, an out-of-range element — disconnects,
//! whatever state was held before.

use vstd::prelude::*;

use crate::json::{value_as_array, value_as_u64};
use crate::keys::{Pubkey, PUBKEY_LEN};

verus! {

/// The current signer identity.
#[derive(Debug, PartialEq, Eq)]
pub enum WalletAdapter {
    Connected { pubkey: Pubkey },
    Disconnected,
}

/// The address a list of numeric payload elements decodes to: accepted
/// exactly when there are `PUBKEY_LEN` elements, each a byte value.
pub open spec fn spec_address_bytes(vals: Seq<u64>) -> Option<Seq<u8>> {
    if vals.len() == PUBKEY_LEN && (forall|i: int| 0 <= i < vals.len() ==> vals[i] <= 255) {
        Some(Seq::new(vals.len(), |i: int| vals[i] as u8))
    } else {
        None
    }
}

/// Decodes the numeric elements of a payload as an address: exactly
/// [`spec_address_bytes`], so a wrong count or an out-of-range element is
/// refused and an accepted address carries exactly the given bytes.
pub fn pubkey_from_u64s(vals: &Vec<u64>) -> (r: Option<Pubkey>)
    ensures
        r is Some <==> spec_address_bytes(vals@) is Some,
        r matches Some(p) ==> p.wf() && spec_address_bytes(vals@) == Some(p.bytes@),
{
    if vals.len() != PUBKEY_LEN {
        return None;
    }
    let mut bytes: Vec<u8> = Vec::new();
    let mut i: usize = 0;
    while i < vals.len()
        invariant
            i <= vals@.len(),
            vals@.len() == PUBKEY_LEN,
            bytes@.len() == i,
            forall|j: int| 0 <= j < i ==> (#[trigger] vals@[j]) <= 255,
            forall|j: int| 0 <= j < i ==> (#[trigger] bytes@[j]) == vals@[j] as u8,
        decreases vals@.len() - i,
    {
        let n = vals[i];
        if n > 255 {
            return None;
        }
        let ghost prev = bytes@;
        bytes.push(n as u8);
        proof {
            assert(bytes@ == prev.push(n as u8));
            assert(forall|j: int| 0 <= j < i ==> (#[trigger] bytes@[j]) == prev[j]);
            assert(bytes@[i as int] == n as u8);
        }
        i = i + 1;
    }
    let r = Pubkey::new(bytes);
    proof {
        let expected = Seq::new(vals@.len(), |j: int| vals@[j] as u8);
        assert(r matches Some(p) && p.bytes@ =~= expected);
    }
    r
}

/// Structurally decodes a boundary payload as an address: a JSON array of
/// exactly `PUBKEY_LEN` values, each a number below 256. Whatever the
/// boundary sent, a decoded address is well-formed; the numeric elements,
/// once extracted, decide acceptance exactly as [`spec_address_bytes`] says.
pub fn decode_pubkey_value(v: &serde_json::Value) -> (r: Option<Pubkey>)
    ensures
        r matches Some(p) ==> p.wf(),
{
    match value_as_array(v) {
        None => None,
        Some(items) => {
            let mut vals: Vec<u64> = Vec::new();
            let mut i: usize = 0;
            while i < items.len()
                invariant
                    i <= items@.len(),
                decreases items@.len() - i,
            {
                match value_as_u64(&items[i]) {
                    Some(n) => {
                        vals.push(n);
                    },
                    None => {
                        return None;
                    },
                }
                i = i + 1;
            }
            pubkey_from_u64s(&vals)
        },
    }
}

/// The state one decoded boundary event leads to: a decoded address
/// connects; a failed decode disconnects.
pub open spec fn spec_next_state(d: Option<Pubkey>) -> WalletAdapter {
    match d {
        Some(p) => WalletAdapter::Connected { pubkey: p },
        None => WalletAdapter::Disconnected,
    }
}

/// Law: an event whose payload fails to decode leads to `Disconnected`.
/// [`ConnectionStateHolder::apply_decoded`] sets the state to
/// `spec_next_state` of the decoded event alone, so this holds whatever
/// state — connected or not, with whatever address — was held before.
pub proof fn lemma_malformed_event_disconnects()
    ensures
        spec_next_state(None) is Disconnected,
{
}

/// Holds the current connection state for the whole process. The boundary
/// event subscriber is the only writer; every other component reads.
pub struct ConnectionStateHolder {
    state: WalletAdapter,
}

impl ConnectionStateHolder {
    /// The state currently held.
    pub closed spec fn spec_state(&self) -> WalletAdapter {
        self.state
    }

    /// A held `Connected` state always carries a well-formed address.
    pub open spec fn wf(&self) -> bool {
        self.spec_state() matches WalletAdapter::Connected { pubkey } ==> pubkey.wf()
    }

    /// At process start the signer is disconnected.
    pub fn new() -> (r: Self)
        ensures
            r.spec_state() is Disconnected,
            r.wf(),
    {
        ConnectionStateHolder { state: WalletAdapter::Disconnected }
    }

    /// Reads the current state.
    pub fn state(&self) -> (r: &WalletAdapter)
        ensures
            *r == self.spec_state(),
    {
        &self.state
    }

    /// Applies one decoded boundary event. The new state is a function of
    /// the event alone: a failed decode forces `Disconnected` regardless of
    /// the prior state.
    pub fn apply_decoded(&mut self, d: Option<Pubkey>)
        ensures
            final(self).spec_state() == spec_next_state(d),
    {
        match d {
            Some(p) => {
                self.state = WalletAdapter::Connected { pubkey: p };
            },
            None => {
                self.state = WalletAdapter::Disconnected;
            },
        }
    }

    /// Receives one boundary payload: decodes it, then applies the result.
    /// Decode failure of any kind disconnects; success connects a
    /// well-formed address.
    pub fn on_boundary_event(&mut self, payload: &serde_json::Value)
        ensures
            final(self).wf(),
    {
        let d = decode_pubkey_value(payload);
        self.apply_decoded(d);
    }
}

} // verus!
