use bitmaskd::contract::Iface;
use bitmaskd::errors::ProtocolError;
use bitmaskd::ledger::{
    sum_input_amounts, sum_output_amounts, AcceptResult, Ledger, RejectReason, SignedTransfer,
    StateTransition, TransitionInput, TransitionOutput,
};
use bitmaskd::seal::{CloseMethod, Outpoint, RevealedSeal};

fn outpoint(fill: u8, vout: u32) -> Outpoint {
    Outpoint { txid: vec![fill; 32], vout }
}

fn genesis_seal(fill: u8) -> RevealedSeal {
    RevealedSeal { method: CloseMethod::TapretFirst, txid: vec![fill; 32], vout: 0, blinding: 7 }
}

#[test]
fn issue_is_idempotent_for_identical_parameters() {
    let mut ledger = Ledger::new();
    let g = genesis_seal(1);
    let id1 = ledger
        .issue(b"TCKR".to_vec(), b"Token".to_vec(), b"demo".to_vec(), 2, 1000, &g, Iface::Rgb20)
        .unwrap();
    let id2 = ledger
        .issue(b"TCKR".to_vec(), b"Token".to_vec(), b"demo".to_vec(), 2, 1000, &g, Iface::Rgb20)
        .unwrap();
    assert!(id1.same(&id2));
    assert_eq!(ledger.list_contracts().len(), 1);
}

#[test]
fn issue_differs_when_any_parameter_differs() {
    let mut ledger = Ledger::new();
    let g = genesis_seal(1);
    let id1 = ledger
        .issue(b"TCKR".to_vec(), b"Token".to_vec(), b"demo".to_vec(), 2, 1000, &g, Iface::Rgb20)
        .unwrap();
    let id2 = ledger
        .issue(b"OTHR".to_vec(), b"Token".to_vec(), b"demo".to_vec(), 2, 1000, &genesis_seal(2), Iface::Rgb20)
        .unwrap();
    assert!(!id1.same(&id2));
    let id3 = ledger
        .issue(b"TCKR".to_vec(), b"Token".to_vec(), b"demo".to_vec(), 3, 1000, &genesis_seal(3), Iface::Rgb20)
        .unwrap();
    assert!(!id1.same(&id3));
    assert!(!id2.same(&id3));
}

#[test]
fn issue_rejects_malformed_parameters() {
    let mut ledger = Ledger::new();
    let g = genesis_seal(1);
    let r = ledger.issue(b"".to_vec(), b"n".to_vec(), b"d".to_vec(), 2, 10, &g, Iface::Rgb20);
    assert_eq!(r.unwrap_err(), ProtocolError::Validation);
    let r = ledger.issue(b"LONGTICKER".to_vec(), b"n".to_vec(), b"d".to_vec(), 2, 10, &g, Iface::Rgb20);
    assert_eq!(r.unwrap_err(), ProtocolError::Validation);
    let r = ledger.issue(b"T".to_vec(), b"n".to_vec(), b"d".to_vec(), 19, 10, &g, Iface::Rgb20);
    assert_eq!(r.unwrap_err(), ProtocolError::Validation);
    let r = ledger.issue(b"T".to_vec(), b"n".to_vec(), b"d".to_vec(), 2, 0, &g, Iface::Rgb20);
    assert_eq!(r.unwrap_err(), ProtocolError::Validation);
}

#[test]
fn invoice_requires_known_contract_and_positive_amount() {
    let mut ledger = Ledger::new();
    let g = genesis_seal(1);
    let id = ledger
        .issue(b"TCKR".to_vec(), b"Token".to_vec(), b"demo".to_vec(), 2, 1000, &g, Iface::Rgb20)
        .unwrap();
    let unknown = {
        let mut other = Ledger::new();
        other
            .issue(b"OTHR".to_vec(), b"Token".to_vec(), b"demo".to_vec(), 2, 5, &genesis_seal(9), Iface::Rgb20)
            .unwrap()
    };
    let r = ledger.create_invoice(&unknown, Iface::Rgb20, 10, &outpoint(3, 1), CloseMethod::TapretFirst);
    assert_eq!(r.unwrap_err(), ProtocolError::NotFound);
    let r = ledger.create_invoice(&id, Iface::Rgb21, 10, &outpoint(3, 1), CloseMethod::TapretFirst);
    assert_eq!(r.unwrap_err(), ProtocolError::NotFound);
    let r = ledger.create_invoice(&id, Iface::Rgb20, 0, &outpoint(3, 1), CloseMethod::TapretFirst);
    assert_eq!(r.unwrap_err(), ProtocolError::Validation);
}

#[test]
fn transfer_lifecycle_with_change_and_idempotent_accept() {
    let mut ledger = Ledger::new();
    let sk = bitmaskd::keys::SecretKey::parse(vec![5u8; 32]).unwrap();
    let g = genesis_seal(1);
    let id = ledger
        .issue(b"TCKR".to_vec(), b"Token".to_vec(), b"demo".to_vec(), 2, 1000, &g, Iface::Rgb20)
        .unwrap();

    let invoice = ledger
        .create_invoice(&id, Iface::Rgb20, 250, &outpoint(3, 1), CloseMethod::TapretFirst)
        .unwrap();

    let unsigned = ledger.create_transition(&invoice).unwrap();
    assert_eq!(unsigned.transition.outputs.len(), 2);
    assert_eq!(unsigned.transition.outputs[0].amount, 250);
    assert_eq!(unsigned.transition.outputs[1].amount, 750);
    assert_eq!(unsigned.transition.inputs.len(), 1);
    assert_eq!(unsigned.transition.inputs[0].amount, 1000);
    assert_eq!(
        sum_input_amounts(&unsigned.transition.inputs),
        sum_output_amounts(&unsigned.transition.outputs)
    );

    let signed = ledger.execute(&sk, &unsigned).unwrap();
    assert!(!signed.signature.is_empty());

    let disclosed = ledger.invoices[0].revealed.duplicate();
    let first = ledger.accept(&signed, &disclosed);
    assert_eq!(first, AcceptResult::Success);
    let committed_after_first = ledger.committed.len();
    let allocations_after_first = ledger.allocations.len();

    let second = ledger.accept(&signed, &disclosed);
    assert_eq!(second, AcceptResult::Success);
    assert_eq!(ledger.committed.len(), committed_after_first);
    assert_eq!(ledger.allocations.len(), allocations_after_first);

    let tampered = RevealedSeal {
        method: disclosed.method,
        txid: disclosed.txid.clone(),
        vout: disclosed.vout,
        blinding: disclosed.blinding.wrapping_add(1),
    };
    let mut other = Ledger::new();
    let other_id = other
        .issue(b"TCKR".to_vec(), b"Token".to_vec(), b"demo".to_vec(), 2, 1000, &g, Iface::Rgb20)
        .unwrap();
    assert!(other_id.same(&id));
    let rejected = other.accept(&signed, &tampered);
    assert_eq!(rejected, AcceptResult::Rejected(RejectReason::SealMismatch));
}

#[test]
fn transfer_without_change_has_single_output() {
    let mut ledger = Ledger::new();
    let g = genesis_seal(1);
    let id = ledger
        .issue(b"TCKR".to_vec(), b"Token".to_vec(), b"demo".to_vec(), 0, 400, &g, Iface::Rgb20)
        .unwrap();
    let invoice = ledger
        .create_invoice(&id, Iface::Rgb20, 400, &outpoint(3, 1), CloseMethod::OpretFirst)
        .unwrap();
    let unsigned = ledger.create_transition(&invoice).unwrap();
    assert_eq!(unsigned.transition.outputs.len(), 1);
    assert_eq!(unsigned.transition.outputs[0].amount, 400);
    assert!(unsigned.change.is_none());
}

#[test]
fn transfer_rejects_insufficient_funds_and_reuse() {
    let mut ledger = Ledger::new();
    let sk = bitmaskd::keys::SecretKey::parse(vec![5u8; 32]).unwrap();
    let g = genesis_seal(1);
    let id = ledger
        .issue(b"TCKR".to_vec(), b"Token".to_vec(), b"demo".to_vec(), 2, 100, &g, Iface::Rgb20)
        .unwrap();
    let too_big = ledger
        .create_invoice(&id, Iface::Rgb20, 500, &outpoint(3, 1), CloseMethod::TapretFirst)
        .unwrap();
    let r = ledger.create_transition(&too_big);
    assert_eq!(r.unwrap_err(), ProtocolError::InsufficientFunds);

    let invoice = ledger
        .create_invoice(&id, Iface::Rgb20, 40, &outpoint(4, 1), CloseMethod::TapretFirst)
        .unwrap();
    let unsigned = ledger.create_transition(&invoice).unwrap();
    ledger.execute(&sk, &unsigned).unwrap();
    let r = ledger.create_transition(&invoice);
    assert_eq!(r.unwrap_err(), ProtocolError::InvoiceAlreadyUsed);
}

#[test]
fn issue_rejects_reused_genesis_seal() {
    let mut ledger = Ledger::new();
    let g = genesis_seal(1);
    ledger
        .issue(b"TCKR".to_vec(), b"Token".to_vec(), b"demo".to_vec(), 2, 1000, &g, Iface::Rgb20)
        .unwrap();
    let r = ledger.issue(b"OTHR".to_vec(), b"Other".to_vec(), b"demo".to_vec(), 2, 5, &g, Iface::Rgb20);
    assert_eq!(r.unwrap_err(), ProtocolError::Seal);
}

#[test]
fn execute_rejects_inputs_this_identity_does_not_own() {
    let mut payer = Ledger::new();
    let sk = bitmaskd::keys::SecretKey::parse(vec![5u8; 32]).unwrap();
    let g = genesis_seal(1);
    let id = payer
        .issue(b"TCKR".to_vec(), b"Token".to_vec(), b"demo".to_vec(), 2, 1000, &g, Iface::Rgb20)
        .unwrap();
    let invoice = payer
        .create_invoice(&id, Iface::Rgb20, 250, &outpoint(3, 1), CloseMethod::TapretFirst)
        .unwrap();
    let unsigned = payer.create_transition(&invoice).unwrap();
    let mut stranger = Ledger::new();
    let r = stranger.execute(&sk, &unsigned);
    assert_eq!(r.unwrap_err(), ProtocolError::Signing);
}

#[test]
fn accept_rejections_name_their_reason() {
    let mut ledger = Ledger::new();
    let g = genesis_seal(1);
    let id = ledger
        .issue(b"TCKR".to_vec(), b"Token".to_vec(), b"demo".to_vec(), 2, 1000, &g, Iface::Rgb20)
        .unwrap();
    let genesis_digest = g.conceal();

    let (target_rev, target_conc) = bitmaskd::seal::blind(&outpoint(6, 0), CloseMethod::TapretFirst);

    // a fabricated input that was never committed
    let fabricated = SignedTransfer {
        transition: StateTransition {
            contract: id.duplicate(),
            inputs: vec![TransitionInput {
                concealed: bitmaskd::seal::ConcealedSeal { bytes: vec![0xAA; 32] },
                amount: 100,
            }],
            outputs: vec![TransitionOutput { concealed: target_conc.duplicate(), amount: 100 }],
        },
        signature: Vec::new(),
        signer: Vec::new(),
    };
    assert_eq!(
        ledger.accept(&fabricated, &target_rev),
        AcceptResult::Rejected(RejectReason::InputNotCommitted)
    );

    // an unknown contract
    let unknown = {
        let mut other = Ledger::new();
        other
            .issue(b"OTHR".to_vec(), b"Other".to_vec(), b"demo".to_vec(), 2, 5, &genesis_seal(9), Iface::Rgb20)
            .unwrap()
    };
    let foreign = SignedTransfer {
        transition: StateTransition {
            contract: unknown,
            inputs: Vec::new(),
            outputs: vec![TransitionOutput { concealed: target_conc.duplicate(), amount: 0 }],
        },
        signature: Vec::new(),
        signer: Vec::new(),
    };
    assert_eq!(
        ledger.accept(&foreign, &target_rev),
        AcceptResult::Rejected(RejectReason::UnknownContract)
    );

    // amounts that do not balance
    let lossy = SignedTransfer {
        transition: StateTransition {
            contract: id.duplicate(),
            inputs: vec![TransitionInput { concealed: genesis_digest.duplicate(), amount: 1000 }],
            outputs: vec![TransitionOutput { concealed: target_conc.duplicate(), amount: 999 }],
        },
        signature: Vec::new(),
        signer: Vec::new(),
    };
    assert_eq!(
        ledger.accept(&lossy, &target_rev),
        AcceptResult::Rejected(RejectReason::AmountMismatch)
    );

    // a target seal that is already bound to committed state
    let reuse = SignedTransfer {
        transition: StateTransition {
            contract: id.duplicate(),
            inputs: vec![TransitionInput { concealed: genesis_digest.duplicate(), amount: 1000 }],
            outputs: vec![TransitionOutput { concealed: genesis_digest.duplicate(), amount: 1000 }],
        },
        signature: Vec::new(),
        signer: Vec::new(),
    };
    assert_eq!(
        ledger.accept(&reuse, &g),
        AcceptResult::Rejected(RejectReason::SealReused)
    );
}

#[test]
fn accepted_transitions_conserve_amounts_exactly() {
    let mut ledger = Ledger::new();
    let sk = bitmaskd::keys::SecretKey::parse(vec![5u8; 32]).unwrap();
    let g = genesis_seal(1);
    let id = ledger
        .issue(b"TCKR".to_vec(), b"Token".to_vec(), b"demo".to_vec(), 18, 123456789, &g, Iface::Rgb20)
        .unwrap();
    let invoice = ledger
        .create_invoice(&id, Iface::Rgb20, 89, &outpoint(3, 1), CloseMethod::TapretFirst)
        .unwrap();
    let unsigned = ledger.create_transition(&invoice).unwrap();
    let signed = ledger.execute(&sk, &unsigned).unwrap();
    let disclosed = ledger.invoices[0].revealed.duplicate();
    assert_eq!(ledger.accept(&signed, &disclosed), AcceptResult::Success);
    for t in &ledger.committed {
        assert_eq!(sum_input_amounts(&t.inputs), sum_output_amounts(&t.outputs));
    }
}
