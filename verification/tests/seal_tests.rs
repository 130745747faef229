use bitmaskd::seal::{blind, blind_utxo, CloseMethod, Outpoint, RevealedSeal};

#[test]
fn conceal_is_deterministic_for_fixed_blinding() {
    let seal = RevealedSeal {
        method: CloseMethod::TapretFirst,
        txid: vec![7u8; 32],
        vout: 3,
        blinding: 123456789,
    };
    let again = RevealedSeal {
        method: CloseMethod::TapretFirst,
        txid: vec![7u8; 32],
        vout: 3,
        blinding: 123456789,
    };
    assert_eq!(seal.conceal().bytes, again.conceal().bytes);
    assert_eq!(seal.conceal().bytes.len(), 32);
}

#[test]
fn conceal_depends_on_every_seal_field() {
    let base = RevealedSeal {
        method: CloseMethod::TapretFirst,
        txid: vec![7u8; 32],
        vout: 3,
        blinding: 1,
    };
    let other_blinding = RevealedSeal { blinding: 2, txid: vec![7u8; 32], ..base.duplicate() };
    let other_vout = RevealedSeal { vout: 4, txid: vec![7u8; 32], ..base.duplicate() };
    let other_method = RevealedSeal {
        method: CloseMethod::OpretFirst,
        txid: vec![7u8; 32],
        ..base.duplicate()
    };
    let other_txid = RevealedSeal { txid: vec![8u8; 32], ..base.duplicate() };
    let d = base.conceal().bytes;
    assert_ne!(d, other_blinding.conceal().bytes);
    assert_ne!(d, other_vout.conceal().bytes);
    assert_ne!(d, other_method.conceal().bytes);
    assert_ne!(d, other_txid.conceal().bytes);
}

#[test]
fn blind_twice_yields_distinct_commitments() {
    let utxo = Outpoint { txid: vec![9u8; 32], vout: 5 };
    let (_, first) = blind(&utxo, CloseMethod::TapretFirst);
    let (_, second) = blind(&utxo, CloseMethod::TapretFirst);
    assert_ne!(first.bytes, second.bytes);
}

#[test]
fn blind_binds_the_given_outpoint() {
    let utxo = Outpoint { txid: vec![9u8; 32], vout: 5 };
    let (revealed, concealed) = blind(&utxo, CloseMethod::TapretFirst);
    assert_eq!(revealed.txid, vec![9u8; 32]);
    assert_eq!(revealed.vout, 5);
    assert_eq!(revealed.conceal().bytes, concealed.bytes);
}

#[test]
fn blind_utxo_returns_reproducible_commitment() {
    let utxo = Outpoint { txid: vec![9u8; 32], vout: 5 };
    let (response, back) = blind_utxo(utxo);
    assert_eq!(back.txid, vec![9u8; 32]);
    assert_eq!(back.vout, 5);
    let reproduced = RevealedSeal {
        method: CloseMethod::TapretFirst,
        txid: back.txid.clone(),
        vout: back.vout,
        blinding: response.blinding,
    };
    assert_eq!(reproduced.conceal().bytes, response.conceal.bytes);
}
