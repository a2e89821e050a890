//! Transaction payloads and their binary wire form.
//!
//! A transaction is an opaque, serializable payload: instruction data, the
//! fee payer's address, a recent ledger anchor, and the signatures the signer
//! has attached. Crossing the boundary it travels in a length-framed binary
//! form, defined by [`spec_tx_encode`] / [`spec_tx_decode`] and produced and
//! checked by the verified [`tx_encode`] / [`tx_decode`]; decoding an encoded
//! transaction recovers it bit for bit ([`lemma_tx_round_trip`]).

use vstd::bytes::*;
use vstd::prelude::*;

use crate::keys::{Pubkey, PUBKEY_LEN, SIGNATURE_LEN};

verus! {

/// Number of bytes in a ledger-sequence anchor.
pub const ANCHOR_LEN: usize = 32;

/// Bytes of wire form that precede the signature list: fee payer, anchor,
/// signature count.
pub const TX_HEADER_LEN: usize = 72;

/// A transaction payload. Unsigned and signed transactions share this shape;
/// the signer attaches entries to `signatures`.
#[derive(Debug, PartialEq, Eq)]
pub struct Transaction {
    /// Address paying the transaction fee.
    pub fee_payer: Pubkey,
    /// Recent ledger-sequence marker bounding the validity window.
    pub recent_anchor: Vec<u8>,
    /// Signatures attached by the signer, each `SIGNATURE_LEN` bytes.
    pub signatures: Vec<Vec<u8>>,
    /// Opaque instruction data.
    pub instructions: Vec<u8>,
}

/// The mathematical value of a transaction: its fields as byte sequences.
#[verifier::ext_equal]
pub struct TxView {
    pub fee_payer: Seq<u8>,
    pub recent_anchor: Seq<u8>,
    pub signatures: Seq<Seq<u8>>,
    pub instructions: Seq<u8>,
}

impl View for Transaction {
    type V = TxView;

    open spec fn view(&self) -> TxView {
        TxView {
            fee_payer: self.fee_payer.bytes@,
            recent_anchor: self.recent_anchor@,
            signatures: Seq::new(
                self.signatures@.len(),
                |i: int| self.signatures@[i]@,
            ),
            instructions: self.instructions@,
        }
    }
}

/// Well-formedness of a transaction value: fixed-length address, anchor and
/// signatures, and list lengths that fit the wire form's length fields.
pub open spec fn wf_view(v: TxView) -> bool {
    &&& v.fee_payer.len() == PUBKEY_LEN
    &&& v.recent_anchor.len() == ANCHOR_LEN
    &&& v.signatures.len() <= u64::MAX
    &&& v.instructions.len() <= u64::MAX
    &&& forall|i: int|
        0 <= i < v.signatures.len() ==> (#[trigger] v.signatures[i]).len() == SIGNATURE_LEN
}

impl Transaction {
    /// A well-formed transaction is one whose value is well-formed.
    pub open spec fn wf(&self) -> bool {
        wf_view(self@)
    }
}

/// The concatenation of a signature list.
pub open spec fn spec_sigs_encode(sigs: Seq<Seq<u8>>) -> Seq<u8>
    decreases sigs.len(),
{
    if sigs.len() == 0 {
        Seq::empty()
    } else {
        sigs.first() + spec_sigs_encode(sigs.drop_first())
    }
}

/// The wire form: fee payer, anchor, signature count, signatures,
/// instruction length, instruction data.
pub open spec fn spec_tx_encode(v: TxView) -> Seq<u8> {
    v.fee_payer + (v.recent_anchor + (spec_u64_to_le_bytes(v.signatures.len() as u64) + (
    spec_sigs_encode(v.signatures) + (spec_u64_to_le_bytes(v.instructions.len() as u64)
        + v.instructions))))
}

/// Splits `b` into `n` signatures and the remainder, if `b` is long enough.
pub open spec fn spec_sigs_decode(b: Seq<u8>, n: nat) -> Option<(Seq<Seq<u8>>, Seq<u8>)> {
    if b.len() < n * (SIGNATURE_LEN as nat) {
        None
    } else {
        Some(
            (
                Seq::new(
                    n,
                    |i: int|
                        b.subrange(
                            i * (SIGNATURE_LEN as int),
                            i * (SIGNATURE_LEN as int) + (SIGNATURE_LEN as int),
                        ),
                ),
                b.skip(n as int * (SIGNATURE_LEN as int)),
            ),
        )
    }
}

/// Parses the wire form; `None` on any structural fault: a short header, a
/// truncated signature list, a truncated length field, or instruction data
/// whose length disagrees with its length field.
pub open spec fn spec_tx_decode(b: Seq<u8>) -> Option<TxView> {
    if b.len() < TX_HEADER_LEN {
        None
    } else {
        let fee = b.subrange(0, PUBKEY_LEN as int);
        let anchor = b.subrange(PUBKEY_LEN as int, PUBKEY_LEN as int + ANCHOR_LEN as int);
        let n = spec_u64_from_le_bytes(
            b.subrange(PUBKEY_LEN as int + ANCHOR_LEN as int, TX_HEADER_LEN as int),
        );
        match spec_sigs_decode(b.skip(TX_HEADER_LEN as int), n as nat) {
            None => None,
            Some((sigs, rest)) => {
                if rest.len() < 8 {
                    None
                } else {
                    let ilen = spec_u64_from_le_bytes(rest.subrange(0, 8));
                    let body = rest.skip(8);
                    if body.len() == ilen {
                        Some(
                            (TxView {
                                fee_payer: fee,
                                recent_anchor: anchor,
                                signatures: sigs,
                                instructions: body,
                            }),
                        )
                    } else {
                        None
                    }
                }
            },
        }
    }
}

/// The concatenation of well-formed signatures has their combined length.
pub proof fn lemma_sigs_encode_len(sigs: Seq<Seq<u8>>)
    requires
        forall|i: int| 0 <= i < sigs.len() ==> (#[trigger] sigs[i]).len() == SIGNATURE_LEN,
    ensures
        spec_sigs_encode(sigs).len() == sigs.len() * (SIGNATURE_LEN as int),
    decreases sigs.len(),
{
    if sigs.len() > 0 {
        lemma_sigs_encode_len(sigs.drop_first());
    }
}

proof fn lemma_sigs_encode_index(sigs: Seq<Seq<u8>>, rest: Seq<u8>, i: int)
    requires
        forall|k: int| 0 <= k < sigs.len() ==> (#[trigger] sigs[k]).len() == SIGNATURE_LEN,
        0 <= i < sigs.len(),
    ensures
        (spec_sigs_encode(sigs) + rest).subrange(
            i * (SIGNATURE_LEN as int),
            i * (SIGNATURE_LEN as int) + (SIGNATURE_LEN as int),
        ) == sigs[i],
    decreases i,
{
    lemma_sigs_encode_len(sigs);
    let full = spec_sigs_encode(sigs) + rest;
    if i == 0 {
        assert(full.subrange(0, SIGNATURE_LEN as int) =~= sigs[0]);
    } else {
        lemma_sigs_encode_index(sigs.drop_first(), rest, i - 1);
        let tailfull = spec_sigs_encode(sigs.drop_first()) + rest;
        assert(full.subrange(
            i * (SIGNATURE_LEN as int),
            i * (SIGNATURE_LEN as int) + (SIGNATURE_LEN as int),
        ) =~= tailfull.subrange(
            (i - 1) * (SIGNATURE_LEN as int),
            (i - 1) * (SIGNATURE_LEN as int) + (SIGNATURE_LEN as int),
        ));
    }
}

/// Decoding the concatenation of `sigs` followed by `rest` recovers `sigs`
/// and leaves `rest`.
pub proof fn lemma_sigs_round_trip(sigs: Seq<Seq<u8>>, rest: Seq<u8>)
    requires
        forall|i: int| 0 <= i < sigs.len() ==> (#[trigger] sigs[i]).len() == SIGNATURE_LEN,
    ensures
        spec_sigs_decode(spec_sigs_encode(sigs) + rest, sigs.len()) == Some((sigs, rest)),
{
    lemma_sigs_encode_len(sigs);
    let full = spec_sigs_encode(sigs) + rest;
    let n = sigs.len();
    assert(full.len() >= n * (SIGNATURE_LEN as nat));
    let dec = Seq::new(
        n,
        |i: int|
            full.subrange(
                i * (SIGNATURE_LEN as int),
                i * (SIGNATURE_LEN as int) + (SIGNATURE_LEN as int),
            ),
    );
    assert forall|i: int| 0 <= i < n implies dec[i] == sigs[i] by {
        lemma_sigs_encode_index(sigs, rest, i);
    }
    assert(dec =~= sigs);
    assert(full.skip(n as int * (SIGNATURE_LEN as int)) =~= rest);
}

/// Round trip: decoding the wire form of a well-formed transaction value
/// recovers it, bit for bit.
pub proof fn lemma_tx_round_trip(v: TxView)
    requires
        wf_view(v),
    ensures
        spec_tx_decode(spec_tx_encode(v)) == Some(v),
{
    lemma_auto_spec_u64_to_from_le_bytes();
    lemma_sigs_encode_len(v.signatures);
    let cnt = spec_u64_to_le_bytes(v.signatures.len() as u64);
    let ilen = spec_u64_to_le_bytes(v.instructions.len() as u64);
    let sigblob = spec_sigs_encode(v.signatures);
    let e = spec_tx_encode(v);
    assert(e.len() >= TX_HEADER_LEN);
    assert(e.subrange(0, PUBKEY_LEN as int) =~= v.fee_payer);
    assert(e.subrange(PUBKEY_LEN as int, PUBKEY_LEN as int + ANCHOR_LEN as int)
        =~= v.recent_anchor);
    assert(e.subrange(PUBKEY_LEN as int + ANCHOR_LEN as int, TX_HEADER_LEN as int) =~= cnt);
    let tail = sigblob + (ilen + v.instructions);
    assert(e.skip(TX_HEADER_LEN as int) =~= tail);
    lemma_sigs_round_trip(v.signatures, ilen + v.instructions);
    let rest = ilen + v.instructions;
    assert(spec_sigs_decode(tail, v.signatures.len()) == Some((v.signatures, rest)));
    assert(rest.subrange(0, 8) =~= ilen);
    assert(rest.skip(8) =~= v.instructions);
    let d = spec_tx_decode(e);
    assert(d matches Some(w) && w =~= v);
}

proof fn lemma_sigs_decode_encode(b: Seq<u8>, n: nat)
    requires
        b.len() >= n * (SIGNATURE_LEN as nat),
    ensures
        spec_sigs_encode(
            Seq::new(
                n,
                |i: int|
                    b.subrange(
                        i * (SIGNATURE_LEN as int),
                        i * (SIGNATURE_LEN as int) + (SIGNATURE_LEN as int),
                    ),
            ),
        ) == b.take(n as int * (SIGNATURE_LEN as int)),
    decreases n,
{
    let f = Seq::new(
        n,
        |i: int|
            b.subrange(
                i * (SIGNATURE_LEN as int),
                i * (SIGNATURE_LEN as int) + (SIGNATURE_LEN as int),
            ),
    );
    if n == 0 {
        assert(f =~= Seq::<Seq<u8>>::empty());
        assert(spec_sigs_encode(f) =~= b.take(0));
    } else {
        let tail = b.skip(SIGNATURE_LEN as int);
        let g = Seq::new(
            (n - 1) as nat,
            |i: int|
                tail.subrange(
                    i * (SIGNATURE_LEN as int),
                    i * (SIGNATURE_LEN as int) + (SIGNATURE_LEN as int),
                ),
        );
        assert forall|i: int| 0 <= i < n - 1 implies f.drop_first()[i] == g[i] by {
            assert(b.subrange(
                (i + 1) * (SIGNATURE_LEN as int),
                (i + 1) * (SIGNATURE_LEN as int) + (SIGNATURE_LEN as int),
            ) =~= tail.subrange(
                i * (SIGNATURE_LEN as int),
                i * (SIGNATURE_LEN as int) + (SIGNATURE_LEN as int),
            ));
        }
        assert(f.drop_first() =~= g);
        lemma_sigs_decode_encode(tail, (n - 1) as nat);
        assert(f.first() == b.subrange(0, SIGNATURE_LEN as int));
        assert(spec_sigs_encode(f) == f.first() + spec_sigs_encode(g));
        assert(b.subrange(0, SIGNATURE_LEN as int) + tail.take(
            (n - 1) as int * (SIGNATURE_LEN as int),
        ) =~= b.take(n as int * (SIGNATURE_LEN as int)));
    }
}

/// The wire form is canonical: a value that parses is the encoding of what
/// it parses to, which is well-formed, so there is exactly one wire form per
/// transaction value.
pub proof fn lemma_tx_decode_sound(b: Seq<u8>, v: TxView)
    requires
        spec_tx_decode(b) == Some(v),
    ensures
        wf_view(v),
        b == spec_tx_encode(v),
{
    lemma_auto_spec_u64_to_from_le_bytes();
    let n = spec_u64_from_le_bytes(
        b.subrange(PUBKEY_LEN as int + ANCHOR_LEN as int, TX_HEADER_LEN as int),
    );
    let skipped = b.skip(TX_HEADER_LEN as int);
    assert(skipped.len() >= n as nat * (SIGNATURE_LEN as nat));
    let rest = skipped.skip(n as int * (SIGNATURE_LEN as int));
    lemma_sigs_decode_encode(skipped, n as nat);
    assert(v.signatures.len() == n);
    assert(spec_sigs_encode(v.signatures) == skipped.take(n as int * (SIGNATURE_LEN as int)));
    assert(spec_u64_to_le_bytes(v.signatures.len() as u64) == b.subrange(
        PUBKEY_LEN as int + ANCHOR_LEN as int,
        TX_HEADER_LEN as int,
    ));
    assert(spec_u64_to_le_bytes(v.instructions.len() as u64) == rest.subrange(0, 8));
    assert(forall|i: int|
        0 <= i < v.signatures.len() ==> (#[trigger] v.signatures[i]).len() == SIGNATURE_LEN);
    assert(b =~= b.subrange(0, PUBKEY_LEN as int) + (b.subrange(
        PUBKEY_LEN as int,
        PUBKEY_LEN as int + ANCHOR_LEN as int,
    ) + (b.subrange(PUBKEY_LEN as int + ANCHOR_LEN as int, TX_HEADER_LEN as int) + (skipped.take(
        n as int * (SIGNATURE_LEN as int),
    ) + (rest.subrange(0, 8) + rest.skip(8))))));
}

/// Appends `src` to `dst`.
pub fn append_bytes(dst: &mut Vec<u8>, src: &Vec<u8>)
    ensures
        final(dst)@ == old(dst)@ + src@,
{
    let mut i: usize = 0;
    while i < src.len()
        invariant
            i <= src@.len(),
            dst@ == old(dst)@ + src@.take(i as int),
        decreases src@.len() - i,
    {
        dst.push(src[i]);
        assert(dst@ =~= old(dst)@ + src@.take(i as int + 1));
        i = i + 1;
    }
    assert(old(dst)@ + src@.take(src@.len() as int) =~= old(dst)@ + src@);
}

/// Copies `src[from..to]` into a fresh vector.
pub fn copy_range(src: &Vec<u8>, from: usize, to: usize) -> (r: Vec<u8>)
    requires
        from <= to <= src@.len(),
    ensures
        r@ == src@.subrange(from as int, to as int),
{
    let mut out: Vec<u8> = Vec::new();
    let mut i: usize = from;
    while i < to
        invariant
            from <= i <= to <= src@.len(),
            out@ == src@.subrange(from as int, i as int),
        decreases to - i,
    {
        out.push(src[i]);
        assert(out@ =~= src@.subrange(from as int, i as int + 1));
        i = i + 1;
    }
    out
}

proof fn lemma_sigs_encode_snoc(sigs: Seq<Seq<u8>>, x: Seq<u8>)
    ensures
        spec_sigs_encode(sigs.push(x)) == spec_sigs_encode(sigs) + x,
    decreases sigs.len(),
{
    if sigs.len() == 0 {
        assert(sigs.push(x).first() == x);
        assert(sigs.push(x).drop_first() =~= Seq::<Seq<u8>>::empty());
        assert(spec_sigs_encode(sigs.push(x)) == x + spec_sigs_encode(Seq::<Seq<u8>>::empty()));
        assert(x + Seq::<u8>::empty() =~= x);
        assert(spec_sigs_encode(sigs) + x =~= x);
    } else {
        lemma_sigs_encode_snoc(sigs.drop_first(), x);
        assert(sigs.push(x).drop_first() =~= sigs.drop_first().push(x));
        assert(sigs.push(x).first() == sigs.first());
        assert(sigs.first() + (spec_sigs_encode(sigs.drop_first()) + x) =~= (sigs.first()
            + spec_sigs_encode(sigs.drop_first())) + x);
    }
}

/// Checks well-formedness of a transaction.
pub fn tx_check_wf(tx: &Transaction) -> (r: bool)
    ensures
        r == tx.wf(),
{
    if tx.fee_payer.bytes.len() != PUBKEY_LEN {
        return false;
    }
    if tx.recent_anchor.len() != ANCHOR_LEN {
        return false;
    }
    let n = tx.signatures.len();
    let _ilen = tx.instructions.len();
    let mut i: usize = 0;
    while i < n
        invariant
            i <= n,
            n == tx.signatures@.len(),
            forall|j: int| 0 <= j < i ==> (#[trigger] tx@.signatures[j]).len() == SIGNATURE_LEN,
        decreases n - i,
    {
        if tx.signatures[i].len() != SIGNATURE_LEN {
            assert(tx@.signatures[i as int].len() != SIGNATURE_LEN);
            return false;
        }
        i = i + 1;
    }
    true
}

/// Produces the wire form of a well-formed transaction; a malformed one is
/// refused.
pub fn tx_encode(tx: &Transaction) -> (r: Option<Vec<u8>>)
    ensures
        r is Some <==> tx.wf(),
        r matches Some(b) ==> b@ == spec_tx_encode(tx@),
{
    if !tx_check_wf(tx) {
        return None;
    }
    let mut out: Vec<u8> = Vec::new();
    append_bytes(&mut out, &tx.fee_payer.bytes);
    append_bytes(&mut out, &tx.recent_anchor);
    let n = tx.signatures.len();
    let cnt = u64_to_le_bytes(n as u64);
    append_bytes(&mut out, &cnt);
    let ghost header: Seq<u8> = tx@.fee_payer + tx@.recent_anchor + spec_u64_to_le_bytes(
        tx@.signatures.len() as u64,
    );
    let mut i: usize = 0;
    while i < n
        invariant
            i <= n,
            n == tx.signatures@.len(),
            tx.wf(),
            header == tx@.fee_payer + tx@.recent_anchor + spec_u64_to_le_bytes(
                tx@.signatures.len() as u64,
            ),
            out@ == header + spec_sigs_encode(tx@.signatures.take(i as int)),
        decreases n - i,
    {
        append_bytes(&mut out, &tx.signatures[i]);
        proof {
            lemma_sigs_encode_snoc(tx@.signatures.take(i as int), tx@.signatures[i as int]);
            assert(tx@.signatures.take(i as int).push(tx@.signatures[i as int])
                =~= tx@.signatures.take(i as int + 1));
        }
        i = i + 1;
    }
    proof {
        assert(tx@.signatures.take(n as int) =~= tx@.signatures);
    }
    let ilen = u64_to_le_bytes(tx.instructions.len() as u64);
    append_bytes(&mut out, &ilen);
    append_bytes(&mut out, &tx.instructions);
    proof {
        assert(out@ =~= spec_tx_encode(tx@));
    }
    Some(out)
}

/// Parses the wire form; exactly the values [`spec_tx_decode`] accepts are
/// accepted, and the result is always well-formed.
pub fn tx_decode(b: &Vec<u8>) -> (r: Option<Transaction>)
    ensures
        r matches Some(t) ==> t.wf() && spec_tx_decode(b@) == Some(t@),
        r is Some <==> spec_tx_decode(b@) is Some,
{
    let blen = b.len();
    if blen < TX_HEADER_LEN {
        return None;
    }
    let fee = copy_range(b, 0, PUBKEY_LEN);
    let anchor = copy_range(b, PUBKEY_LEN, PUBKEY_LEN + ANCHOR_LEN);
    let cnt = copy_range(b, PUBKEY_LEN + ANCHOR_LEN, TX_HEADER_LEN);
    let n64 = u64_from_le_bytes(cnt.as_slice());
    let rem = blen - TX_HEADER_LEN;
    let quot = rem / SIGNATURE_LEN;
    proof {
        vstd::arithmetic::div_mod::lemma_fundamental_div_mod(rem as int, SIGNATURE_LEN as int);
    }
    if n64 > quot as u64 {
        proof {
            assert(b@.skip(TX_HEADER_LEN as int).len() < (n64 as nat) * (SIGNATURE_LEN as nat));
        }
        return None;
    }
    let n = n64 as usize;
    proof {
        assert(n as int * (SIGNATURE_LEN as int) <= quot as int * (SIGNATURE_LEN as int));
    }
    let mut sigs: Vec<Vec<u8>> = Vec::new();
    let mut i: usize = 0;
    while i < n
        invariant
            i <= n,
            blen == b@.len(),
            (TX_HEADER_LEN as int) + n as int * (SIGNATURE_LEN as int) <= blen,
            sigs@.len() == i,
            forall|j: int|
                0 <= j < i ==> (#[trigger] sigs@[j])@ == b@.subrange(
                    (TX_HEADER_LEN as int) + j * (SIGNATURE_LEN as int),
                    (TX_HEADER_LEN as int) + j * (SIGNATURE_LEN as int) + (SIGNATURE_LEN as int),
                ),
        decreases n - i,
    {
        let start = TX_HEADER_LEN + SIGNATURE_LEN * i;
        let sig = copy_range(b, start, start + SIGNATURE_LEN);
        sigs.push(sig);
        i = i + 1;
    }
    let off = TX_HEADER_LEN + SIGNATURE_LEN * n;
    if blen - off < 8 {
        return None;
    }
    let il = copy_range(b, off, off + 8);
    let ilen64 = u64_from_le_bytes(il.as_slice());
    let body_len = blen - off - 8;
    proof {
        assert(b@.skip(TX_HEADER_LEN as int).skip(n as int * (SIGNATURE_LEN as int))
            =~= b@.skip(off as int));
        assert(b@.skip(off as int).subrange(0, 8) =~= b@.subrange(off as int, off as int + 8));
        assert(b@.skip(off as int).skip(8) =~= b@.skip(off as int + 8));
    }
    if ilen64 != body_len as u64 {
        return None;
    }
    let instr = copy_range(b, off + 8, blen);
    let t = Transaction {
        fee_payer: Pubkey { bytes: fee },
        recent_anchor: anchor,
        signatures: sigs,
        instructions: instr,
    };
    proof {
        let skip72 = b@.skip(TX_HEADER_LEN as int);
        assert forall|j: int| 0 <= j < n implies t@.signatures[j] == skip72.subrange(
            j * (SIGNATURE_LEN as int),
            j * (SIGNATURE_LEN as int) + (SIGNATURE_LEN as int),
        ) by {
            assert(skip72.subrange(
                j * (SIGNATURE_LEN as int),
                j * (SIGNATURE_LEN as int) + (SIGNATURE_LEN as int),
            ) =~= b@.subrange(
                (TX_HEADER_LEN as int) + j * (SIGNATURE_LEN as int),
                (TX_HEADER_LEN as int) + j * (SIGNATURE_LEN as int) + (SIGNATURE_LEN as int),
            ));
        }
        let d = spec_tx_decode(b@);
        assert(d matches Some(w) && w =~= t@);
    }
    Some(t)
}

} // verus!
