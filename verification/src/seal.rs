use vstd::prelude::*;

use crate::util::clone_bytes;

verus! {

/// How a seal commitment is anchored inside its witness transaction.
#[derive(Clone, Copy, PartialEq, Eq, Structural, Debug)]
pub enum CloseMethod {
    /// Commitment in the first OP_RETURN-carrying output.
    OpretFirst,
    /// Taproot-based commitment in the first Taproot output.
    TapretFirst,
}

/// The tag byte under which a close method enters the seal commitment.
pub open spec fn method_tag(m: CloseMethod) -> u8 {
    match m {
        CloseMethod::OpretFirst => 0,
        CloseMethod::TapretFirst => 1,
    }
}

/// A spendable Bitcoin output: a 32-byte transaction id and an output index.
#[derive(Debug)]
pub struct Outpoint {
    pub txid: Vec<u8>,
    pub vout: u32,
}

impl Outpoint {
    pub open spec fn wf(&self) -> bool {
        self.txid@.len() == 32
    }
}

/// The digest that bp-core's seal commitment computes for a revealed seal:
/// a deterministic one-way function of (close method, txid, vout, blinding).
pub uninterp spec fn conceal_of(method: u8, txid: Seq<u8>, vout: u32, blinding: u64) -> Seq<u8>;

/// The revealed form of a single-use seal: the outpoint it commits to, the
/// close method, and the secret blinding factor. Known only to its creator
/// until disclosed when a transfer against it is accepted.
#[derive(Debug)]
pub struct RevealedSeal {
    pub method: CloseMethod,
    pub txid: Vec<u8>,
    pub vout: u32,
    pub blinding: u64,
}

impl RevealedSeal {
    pub open spec fn wf(&self) -> bool {
        self.txid@.len() == 32
    }

    /// The concealed digest this revealed seal conceals to.
    pub open spec fn concealed_spec(&self) -> Seq<u8> {
        conceal_of(method_tag(self.method), self.txid@, self.vout, self.blinding)
    }

    /// Recompute the concealed digest; used both when publishing a seal and
    /// when checking a disclosed seal against a transition output.
    pub fn conceal(&self) -> (r: ConcealedSeal)
        requires
            self.wf(),
        ensures
            r.bytes@ == self.concealed_spec(),
            r.wf(),
    {
        ConcealedSeal { bytes: conceal_bytes(self.method, &self.txid, self.vout, self.blinding) }
    }

    pub fn duplicate(&self) -> (r: RevealedSeal)
        ensures
            r.method == self.method,
            r.txid@ == self.txid@,
            r.vout == self.vout,
            r.blinding == self.blinding,
            r.concealed_spec() == self.concealed_spec(),
            r.wf() == self.wf(),
    {
        RevealedSeal {
            method: self.method,
            txid: clone_bytes(&self.txid),
            vout: self.vout,
            blinding: self.blinding,
        }
    }
}

/// The concealed (published) form of a seal: the one-way digest alone.
#[derive(Debug)]
pub struct ConcealedSeal {
    pub bytes: Vec<u8>,
}

impl ConcealedSeal {
    pub open spec fn wf(&self) -> bool {
        self.bytes@.len() == 32
    }

    pub fn same(&self, other: &ConcealedSeal) -> (r: bool)
        ensures
            r == (self.bytes@ == other.bytes@),
    {
        crate::util::bytes_eq(&self.bytes, &other.bytes)
    }

    pub fn duplicate(&self) -> (r: ConcealedSeal)
        ensures
            r.bytes@ == self.bytes@,
    {
        ConcealedSeal { bytes: clone_bytes(&self.bytes) }
    }
}

/// Relies on rand::random for the blinding factor. Nothing is promised of the
/// value: callers must work for every outcome.
#[verifier::external_body]
fn fresh_blinding() -> u64 {
    rand::random::<u64>()
}

/// Relies on bp-core's seal commitment (RevealedSeal::to_concealed_seal and
/// the CommitVerify impl behind it): a deterministic tagged-sha256 digest of
/// (close method byte, txid, vout, blinding), 32 bytes long.
#[verifier::external_body]
fn conceal_bytes(method: CloseMethod, txid: &Vec<u8>, vout: u32, blinding: u64) -> (r: Vec<u8>)
    requires
        txid@.len() == 32,
    ensures
        r@ == conceal_of(method_tag(method), txid@, vout, blinding),
        r@.len() == 32,
{
    let m = match method {
        CloseMethod::OpretFirst => bp::seals::txout::CloseMethod::OpretFirst,
        CloseMethod::TapretFirst => bp::seals::txout::CloseMethod::TapretFirst,
    };
    let txid = <bitcoin::Txid as bitcoin::hashes::Hash>::from_slice(txid.as_slice())
        .expect("32-byte txid");
    let seal = bp::seals::txout::blind::RevealedSeal { method: m, txid: Some(txid), vout, blinding };
    seal.to_concealed_seal()[..].to_vec()
}

/// Convert a spendable output into a concealed seal commitment plus the
/// revealed seal that reproduces it. The blinding factor is drawn fresh from
/// the process randomness source; the concealed digest is the deterministic
/// commitment to (method, outpoint, blinding), so the creator can later prove
/// a transition targeted this seal by disclosing the revealed form.
pub fn blind(utxo: &Outpoint, method: CloseMethod) -> (r: (RevealedSeal, ConcealedSeal))
    requires
        utxo.wf(),
    ensures
        r.0.method == method,
        r.0.txid@ == utxo.txid@,
        r.0.vout == utxo.vout,
        r.0.wf(),
        r.1.bytes@ == r.0.concealed_spec(),
        r.1.wf(),
{
    let blinding = fresh_blinding();
    let revealed = RevealedSeal { method, txid: clone_bytes(&utxo.txid), vout: utxo.vout, blinding };
    let concealed = revealed.conceal();
    (revealed, concealed)
}

/// The response the blinding endpoint hands back: the blinding factor the
/// creator must retain and the concealed commitment safe to publish.
#[derive(Debug)]
pub struct BlindResponse {
    pub blinding: u64,
    pub conceal: ConcealedSeal,
}

/// Blind a UTXO under the taproot-first close method, as the public blinding
/// endpoint does, returning the response together with the outpoint it was
/// built from.
pub fn blind_utxo(utxo: Outpoint) -> (r: (BlindResponse, Outpoint))
    requires
        utxo.wf(),
    ensures
        r.1.txid@ == utxo.txid@,
        r.1.vout == utxo.vout,
        r.0.conceal.bytes@ == conceal_of(
            method_tag(CloseMethod::TapretFirst),
            utxo.txid@,
            utxo.vout,
            r.0.blinding,
        ),
        r.0.conceal.wf(),
{
    let (revealed, concealed) = blind(&utxo, CloseMethod::TapretFirst);
    (BlindResponse { blinding: revealed.blinding, conceal: concealed }, utxo)
}

/// Concealment is deterministic: two revealed seals with the same method,
/// outpoint and blinding factor conceal to the same digest. (The converse —
/// that distinct seals stay unlinkable — rests on the blinding factor's
/// entropy and is not a statement this library can make.)
pub proof fn lemma_conceal_deterministic(a: RevealedSeal, b: RevealedSeal)
    requires
        a.method == b.method,
        a.txid@ == b.txid@,
        a.vout == b.vout,
        a.blinding == b.blinding,
    ensures
        a.concealed_spec() == b.concealed_spec(),
{
}

} // verus!
