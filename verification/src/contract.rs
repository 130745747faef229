use vstd::prelude::*;

use crate::seal::{CloseMethod, RevealedSeal};
use crate::util::{bytes_eq, clone_bytes};

verus! {

/// The interface a fungible-asset contract is issued under.
#[derive(Clone, Copy, PartialEq, Eq, Structural, Debug)]
pub enum Iface {
    Rgb20,
    Rgb21,
    Rgb25,
}

/// Issuance parameters the issuer must get right: a non-empty ticker of at
/// most eight bytes, a precision of at most eighteen decimal places, and a
/// positive supply.
pub open spec fn valid_issue_params(ticker: Seq<u8>, precision: u8, supply: u64) -> bool {
    &&& 1 <= ticker.len() <= 8
    &&& precision <= 18
    &&& supply > 0
}

/// A content-derived contract identifier: it binds every issuance field plus
/// the genesis seal, so identical issuances collide deterministically and any
/// differing field yields a distinct identifier.
#[derive(Debug)]
pub struct ContractId {
    pub ticker: Vec<u8>,
    pub name: Vec<u8>,
    pub description: Vec<u8>,
    pub precision: u8,
    pub supply: u64,
    pub genesis_method: CloseMethod,
    pub genesis_txid: Vec<u8>,
    pub genesis_vout: u32,
    pub genesis_blinding: u64,
    pub iface: Iface,
}

/// Two contract identifiers denote the same contract exactly when all their
/// content agrees.
pub open spec fn id_eq(a: &ContractId, b: &ContractId) -> bool {
    &&& a.ticker@ == b.ticker@
    &&& a.name@ == b.name@
    &&& a.description@ == b.description@
    &&& a.precision == b.precision
    &&& a.supply == b.supply
    &&& a.genesis_method == b.genesis_method
    &&& a.genesis_txid@ == b.genesis_txid@
    &&& a.genesis_vout == b.genesis_vout
    &&& a.genesis_blinding == b.genesis_blinding
    &&& a.iface == b.iface
}

/// Whether an identifier is the one derived from exactly these issuance
/// parameters and genesis seal.
pub open spec fn id_matches(
    id: &ContractId,
    ticker: Seq<u8>,
    name: Seq<u8>,
    description: Seq<u8>,
    precision: u8,
    supply: u64,
    genesis: &RevealedSeal,
    iface: Iface,
) -> bool {
    &&& id.ticker@ == ticker
    &&& id.name@ == name
    &&& id.description@ == description
    &&& id.precision == precision
    &&& id.supply == supply
    &&& id.genesis_method == genesis.method
    &&& id.genesis_txid@ == genesis.txid@
    &&& id.genesis_vout == genesis.vout
    &&& id.genesis_blinding == genesis.blinding
    &&& id.iface == iface
}

impl ContractId {
    pub fn same(&self, other: &ContractId) -> (r: bool)
        ensures
            r == id_eq(self, other),
    {
        bytes_eq(&self.ticker, &other.ticker) && bytes_eq(&self.name, &other.name) && bytes_eq(
            &self.description,
            &other.description,
        ) && self.precision == other.precision && self.supply == other.supply
            && self.genesis_method == other.genesis_method && bytes_eq(
            &self.genesis_txid,
            &other.genesis_txid,
        ) && self.genesis_vout == other.genesis_vout && self.genesis_blinding
            == other.genesis_blinding && self.iface == other.iface
    }

    pub fn duplicate(&self) -> (r: ContractId)
        ensures
            id_eq(&r, self),
    {
        ContractId {
            ticker: clone_bytes(&self.ticker),
            name: clone_bytes(&self.name),
            description: clone_bytes(&self.description),
            precision: self.precision,
            supply: self.supply,
            genesis_method: self.genesis_method,
            genesis_txid: clone_bytes(&self.genesis_txid),
            genesis_vout: self.genesis_vout,
            genesis_blinding: self.genesis_blinding,
            iface: self.iface,
        }
    }
}

/// Issuance is deterministic: identifiers derived from the same parameters
/// and the same genesis seal denote the same contract, so retrying an
/// identical issuance is idempotent.
pub proof fn lemma_contract_id_deterministic(
    a: &ContractId,
    b: &ContractId,
    ticker: Seq<u8>,
    name: Seq<u8>,
    description: Seq<u8>,
    precision: u8,
    supply: u64,
    genesis: &RevealedSeal,
    iface: Iface,
)
    requires
        id_matches(a, ticker, name, description, precision, supply, genesis, iface),
        id_matches(b, ticker, name, description, precision, supply, genesis, iface),
    ensures
        id_eq(a, b),
{
}

/// Issuance is injective: identifiers derived from two parameter lists are
/// equal exactly when every parameter and the genesis seal agree, so any
/// single differing parameter yields a distinct contract identifier.
pub proof fn lemma_contract_id_injective(
    a: &ContractId,
    b: &ContractId,
    ticker_a: Seq<u8>,
    name_a: Seq<u8>,
    description_a: Seq<u8>,
    precision_a: u8,
    supply_a: u64,
    genesis_a: &RevealedSeal,
    iface_a: Iface,
    ticker_b: Seq<u8>,
    name_b: Seq<u8>,
    description_b: Seq<u8>,
    precision_b: u8,
    supply_b: u64,
    genesis_b: &RevealedSeal,
    iface_b: Iface,
)
    requires
        id_matches(a, ticker_a, name_a, description_a, precision_a, supply_a, genesis_a, iface_a),
        id_matches(b, ticker_b, name_b, description_b, precision_b, supply_b, genesis_b, iface_b),
    ensures
        id_eq(a, b) <==> {
            &&& ticker_a == ticker_b
            &&& name_a == name_b
            &&& description_a == description_b
            &&& precision_a == precision_b
            &&& supply_a == supply_b
            &&& genesis_a.method == genesis_b.method
            &&& genesis_a.txid@ == genesis_b.txid@
            &&& genesis_a.vout == genesis_b.vout
            &&& genesis_a.blinding == genesis_b.blinding
            &&& iface_a == iface_b
        },
{
}

} // verus!
