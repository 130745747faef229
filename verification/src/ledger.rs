use vstd::prelude::*;

use crate::contract::{id_eq, id_matches, valid_issue_params, ContractId, Iface};
use crate::errors::ProtocolError;
use crate::seal::{blind, CloseMethod, ConcealedSeal, Outpoint, RevealedSeal};
use crate::util::bytes_eq;

verus! {

/// One allocation of contract state: an amount bound to a single-use seal.
#[derive(Debug)]
pub struct Allocation {
    pub contract: ContractId,
    pub concealed: ConcealedSeal,
    pub amount: u64,
    /// Consumed by an outgoing transfer this identity signed.
    pub spent: bool,
    /// Closed by a state transition committed to the local ledger.
    pub closed: bool,
    /// The revealed seal, held exactly when this identity can spend the
    /// allocation.
    pub revealed: Option<RevealedSeal>,
}

impl Allocation {
    pub open spec fn wf(&self) -> bool {
        &&& self.concealed.wf()
        &&& self.revealed is Some ==> (self.revealed->0.wf() && self.revealed->0.concealed_spec()
            == self.concealed.bytes@)
    }

    /// Selectable as a transfer input: owned, never consumed nor closed, and
    /// belonging to the given contract.
    pub open spec fn spendable_for(&self, c: &ContractId) -> bool {
        &&& id_eq(&self.contract, c)
        &&& !self.spent
        &&& !self.closed
        &&& self.revealed is Some
    }
}

/// A payment request: a contract, the interface it is served under, an
/// amount, and the concealed seal the payment must target.
#[derive(Debug)]
pub struct Invoice {
    pub contract: ContractId,
    pub iface: Iface,
    pub amount: u64,
    pub concealed: ConcealedSeal,
}

impl Invoice {
    pub open spec fn wf(&self) -> bool {
        self.concealed.wf()
    }

    pub fn duplicate(&self) -> (r: Invoice)
        ensures
            id_eq(&r.contract, &self.contract),
            r.iface == self.iface,
            r.amount == self.amount,
            r.concealed.bytes@ == self.concealed.bytes@,
    {
        Invoice {
            contract: self.contract.duplicate(),
            iface: self.iface,
            amount: self.amount,
            concealed: self.concealed.duplicate(),
        }
    }
}

/// An invoice this identity created, together with the retained revealed
/// seal, to be disclosed when the incoming transfer is accepted.
#[derive(Debug)]
pub struct InvoiceRecord {
    pub invoice: Invoice,
    pub revealed: RevealedSeal,
}

/// A transfer input: the concealed seal of the allocation it closes and the
/// amount that allocation carries.
#[derive(Debug)]
pub struct TransitionInput {
    pub concealed: ConcealedSeal,
    pub amount: u64,
}

/// A transfer output: a newly created seal and the amount assigned to it.
#[derive(Debug)]
pub struct TransitionOutput {
    pub concealed: ConcealedSeal,
    pub amount: u64,
}

/// A ledger update moving asset ownership from input seals to output seals.
/// The payment output always sits first; an optional change output follows.
#[derive(Debug)]
pub struct StateTransition {
    pub contract: ContractId,
    pub inputs: Vec<TransitionInput>,
    pub outputs: Vec<TransitionOutput>,
}

pub open spec fn input_eq(a: TransitionInput, b: TransitionInput) -> bool {
    a.concealed.bytes@ == b.concealed.bytes@ && a.amount == b.amount
}

pub open spec fn output_eq(a: TransitionOutput, b: TransitionOutput) -> bool {
    a.concealed.bytes@ == b.concealed.bytes@ && a.amount == b.amount
}

/// Content equality of transitions; the transition identity used for
/// idempotent acceptance.
pub open spec fn transition_eq(a: &StateTransition, b: &StateTransition) -> bool {
    &&& id_eq(&a.contract, &b.contract)
    &&& a.inputs@.len() == b.inputs@.len()
    &&& forall|i: int| 0 <= i < a.inputs@.len() ==> input_eq(#[trigger] a.inputs@[i], b.inputs@[i])
    &&& a.outputs@.len() == b.outputs@.len()
    &&& forall|i: int|
        0 <= i < a.outputs@.len() ==> output_eq(#[trigger] a.outputs@[i], b.outputs@[i])
}

/// The total amount a transition consumes.
pub open spec fn sum_inputs(s: Seq<TransitionInput>) -> int
    decreases s.len(),
{
    if s.len() == 0 {
        0
    } else {
        sum_inputs(s.drop_last()) + s.last().amount
    }
}

/// The total amount a transition assigns.
pub open spec fn sum_outputs(s: Seq<TransitionOutput>) -> int
    decreases s.len(),
{
    if s.len() == 0 {
        0
    } else {
        sum_outputs(s.drop_last()) + s.last().amount
    }
}

/// Amount conservation: a transition assigns exactly what it consumes.
pub open spec fn conserved(t: &StateTransition) -> bool {
    sum_inputs(t.inputs@) == sum_outputs(t.outputs@)
}

/// Content-equal input sequences consume the same total.
proof fn lemma_sum_inputs_congruent(a: Seq<TransitionInput>, b: Seq<TransitionInput>)
    requires
        a.len() == b.len(),
        forall|i: int| 0 <= i < a.len() ==> input_eq(#[trigger] a[i], b[i]),
    ensures
        sum_inputs(a) == sum_inputs(b),
    decreases a.len(),
{
    if a.len() > 0 {
        lemma_sum_inputs_congruent(a.drop_last(), b.drop_last());
    }
}

/// Content-equal output sequences assign the same total.
proof fn lemma_sum_outputs_congruent(a: Seq<TransitionOutput>, b: Seq<TransitionOutput>)
    requires
        a.len() == b.len(),
        forall|i: int| 0 <= i < a.len() ==> output_eq(#[trigger] a[i], b[i]),
    ensures
        sum_outputs(a) == sum_outputs(b),
    decreases a.len(),
{
    if a.len() > 0 {
        lemma_sum_outputs_congruent(a.drop_last(), b.drop_last());
    }
}

impl StateTransition {
    pub fn same(&self, other: &StateTransition) -> (r: bool)
        ensures
            r == transition_eq(self, other),
    {
        if !self.contract.same(&other.contract) {
            return false;
        }
        if self.inputs.len() != other.inputs.len() || self.outputs.len() != other.outputs.len() {
            return false;
        }
        let mut i: usize = 0;
        while i < self.inputs.len()
            invariant
                i <= self.inputs@.len(),
                self.inputs@.len() == other.inputs@.len(),
                forall|j: int| 0 <= j < i ==> input_eq(#[trigger] self.inputs@[j], other.inputs@[j]),
            decreases self.inputs@.len() - i,
        {
            if !self.inputs[i].concealed.same(&other.inputs[i].concealed) || self.inputs[i].amount
                != other.inputs[i].amount {
                return false;
            }
            i += 1;
        }
        let mut i: usize = 0;
        while i < self.outputs.len()
            invariant
                i <= self.outputs@.len(),
                self.outputs@.len() == other.outputs@.len(),
                id_eq(&self.contract, &other.contract),
                self.inputs@.len() == other.inputs@.len(),
                forall|j: int|
                    0 <= j < self.inputs@.len() ==> input_eq(
                        #[trigger] self.inputs@[j],
                        other.inputs@[j],
                    ),
                forall|j: int|
                    0 <= j < i ==> output_eq(#[trigger] self.outputs@[j], other.outputs@[j]),
            decreases self.outputs@.len() - i,
        {
            if !self.outputs[i].concealed.same(&other.outputs[i].concealed) || self.outputs[i].amount
                != other.outputs[i].amount {
                return false;
            }
            i += 1;
        }
        true
    }

    pub fn duplicate(&self) -> (r: StateTransition)
        ensures
            transition_eq(&r, self),
            r.inputs@.len() == self.inputs@.len(),
            r.outputs@.len() == self.outputs@.len(),
    {
        let mut inputs: Vec<TransitionInput> = Vec::new();
        let mut i: usize = 0;
        while i < self.inputs.len()
            invariant
                i <= self.inputs@.len(),
                inputs@.len() == i,
                forall|j: int| 0 <= j < i ==> input_eq(#[trigger] inputs@[j], self.inputs@[j]),
            decreases self.inputs@.len() - i,
        {
            inputs.push(
                TransitionInput {
                    concealed: self.inputs[i].concealed.duplicate(),
                    amount: self.inputs[i].amount,
                },
            );
            i += 1;
        }
        let mut outputs: Vec<TransitionOutput> = Vec::new();
        let mut i: usize = 0;
        while i < self.outputs.len()
            invariant
                i <= self.outputs@.len(),
                outputs@.len() == i,
                forall|j: int| 0 <= j < i ==> output_eq(#[trigger] outputs@[j], self.outputs@[j]),
            decreases self.outputs@.len() - i,
        {
            outputs.push(
                TransitionOutput {
                    concealed: self.outputs[i].concealed.duplicate(),
                    amount: self.outputs[i].amount,
                },
            );
            i += 1;
        }
        StateTransition { contract: self.contract.duplicate(), inputs, outputs }
    }
}

/// The total amount currently spendable for a contract.
pub open spec fn spendable_total(s: Seq<Allocation>, c: &ContractId) -> int
    decreases s.len(),
{
    if s.len() == 0 {
        0
    } else {
        spendable_total(s.drop_last(), c) + if s.last().spendable_for(c) {
            s.last().amount as int
        } else {
            0
        }
    }
}

/// A prefix never holds more spendable value than the whole sequence.
proof fn lemma_spendable_prefix(s: Seq<Allocation>, c: &ContractId, j: int)
    requires
        0 <= j <= s.len(),
    ensures
        spendable_total(s.take(j), c) <= spendable_total(s, c),
    decreases s.len() - j,
{
    if j < s.len() {
        assert(s.take(j + 1).drop_last() =~= s.take(j));
        assert(s.take(j + 1).last() == s[j]);
        lemma_spendable_prefix(s, c, j + 1);
    } else {
        assert(s.take(j) =~= s);
    }
}

/// The per-identity ledger: the contracts this identity knows, the seal
/// allocations of their state, the invoices it issued, the invoices it paid,
/// the transitions committed to its view of contract state, and the signed
/// transfers awaiting acceptance by a counterparty.
///
/// Every mutating operation takes the ledger exclusively, so within one
/// process two transfers can never race for the same seal; a server holding
/// one ledger per identity must serialize each identity's requests the same
/// way.
#[derive(Debug)]
pub struct Ledger {
    pub contracts: Vec<ContractId>,
    pub allocations: Vec<Allocation>,
    pub invoices: Vec<InvoiceRecord>,
    pub consumed: Vec<ConcealedSeal>,
    pub committed: Vec<StateTransition>,
    pub pending: Vec<SignedTransfer>,
}

/// A transfer whose transition is embedded in a signed artifact, ready to be
/// handed to the counterparty.
#[derive(Debug)]
pub struct SignedTransfer {
    pub transition: StateTransition,
    pub signature: Vec<u8>,
    pub signer: Vec<u8>,
}

/// A transfer embedded in an unsigned artifact, together with the change
/// seal's revealed form when a change output exists.
#[derive(Debug)]
pub struct UnsignedTransfer {
    pub transition: StateTransition,
    pub change: Option<RevealedSeal>,
}

impl Ledger {
    /// Well-formedness: every allocation is internally consistent, no two
    /// allocations share a concealed seal (single-use seals are never
    /// double-bound), and every committed transition conserves amounts.
    pub open spec fn wf(&self) -> bool {
        &&& forall|i: int|
            #![trigger self.allocations@[i]]
            0 <= i < self.allocations@.len() ==> self.allocations@[i].wf()
        &&& forall|i: int, j: int|
            #![trigger self.allocations@[i], self.allocations@[j]]
            0 <= i < j < self.allocations@.len() ==> self.allocations@[i].concealed.bytes@
                != self.allocations@[j].concealed.bytes@
        &&& forall|i: int|
            #![trigger self.committed@[i]]
            0 <= i < self.committed@.len() ==> conserved(&self.committed@[i])
    }

    pub open spec fn has_contract(&self, c: &ContractId) -> bool {
        exists|i: int|
            #![trigger self.contracts@[i]]
            0 <= i < self.contracts@.len() && id_eq(&self.contracts@[i], c)
    }

    pub open spec fn has_allocation(&self, digest: Seq<u8>) -> bool {
        exists|i: int|
            #![trigger self.allocations@[i]]
            0 <= i < self.allocations@.len() && self.allocations@[i].concealed.bytes@ == digest
    }

    pub open spec fn is_consumed(&self, digest: Seq<u8>) -> bool {
        exists|i: int|
            #![trigger self.consumed@[i]]
            0 <= i < self.consumed@.len() && self.consumed@[i].bytes@ == digest
    }

    pub open spec fn has_committed(&self, t: &StateTransition) -> bool {
        exists|i: int|
            #![trigger self.committed@[i]]
            0 <= i < self.committed@.len() && transition_eq(&self.committed@[i], t)
    }

    pub fn new() -> (r: Ledger)
        ensures
            r.wf(),
            r.contracts@.len() == 0,
            r.allocations@.len() == 0,
            r.invoices@.len() == 0,
            r.consumed@.len() == 0,
            r.committed@.len() == 0,
            r.pending@.len() == 0,
    {
        Ledger {
            contracts: Vec::new(),
            allocations: Vec::new(),
            invoices: Vec::new(),
            consumed: Vec::new(),
            committed: Vec::new(),
            pending: Vec::new(),
        }
    }

    fn find_contract(&self, c: &ContractId) -> (r: Option<usize>)
        ensures
            r is Some ==> r->0 < self.contracts@.len() && id_eq(
                &self.contracts@[r->0 as int],
                c,
            ),
            r is None ==> !self.has_contract(c),
            r is Some <==> self.has_contract(c),
    {
        let mut i: usize = 0;
        while i < self.contracts.len()
            invariant
                i <= self.contracts@.len(),
                forall|j: int|
                    #![trigger self.contracts@[j]]
                    0 <= j < i ==> !id_eq(&self.contracts@[j], c),
            decreases self.contracts@.len() - i,
        {
            if self.contracts[i].same(c) {
                return Some(i);
            }
            i += 1;
        }
        None
    }

    fn find_allocation(&self, digest: &Vec<u8>) -> (r: Option<usize>)
        ensures
            r is Some ==> r->0 < self.allocations@.len()
                && self.allocations@[r->0 as int].concealed.bytes@ == digest@,
            r is Some <==> self.has_allocation(digest@),
    {
        let mut i: usize = 0;
        while i < self.allocations.len()
            invariant
                i <= self.allocations@.len(),
                forall|j: int|
                    #![trigger self.allocations@[j]]
                    0 <= j < i ==> self.allocations@[j].concealed.bytes@ != digest@,
            decreases self.allocations@.len() - i,
        {
            if bytes_eq(&self.allocations[i].concealed.bytes, digest) {
                return Some(i);
            }
            i += 1;
        }
        None
    }

    /// Issue a new fungible-asset contract bound to a genesis seal. The
    /// contract identifier binds every parameter, so an identical retry
    /// returns the same identifier and changes nothing; the whole supply is
    /// allocated to the genesis seal, owned by this identity. Rejected with
    /// `Validation` on malformed parameters and with `Seal` when the genesis
    /// seal is already bound to other contract state.
    pub fn issue(
        &mut self,
        ticker: Vec<u8>,
        name: Vec<u8>,
        description: Vec<u8>,
        precision: u8,
        supply: u64,
        genesis: &RevealedSeal,
        iface: Iface,
    ) -> (r: Result<ContractId, ProtocolError>)
        requires
            old(self).wf(),
            genesis.wf(),
        ensures
            final(self).wf(),
            r is Ok ==> id_matches(
                &r->Ok_0,
                ticker@,
                name@,
                description@,
                precision,
                supply,
                genesis,
                iface,
            ),
            r is Err ==> *final(self) == *old(self),
            !valid_issue_params(ticker@, precision, supply) ==> r == Err::<
                ContractId,
                ProtocolError,
            >(ProtocolError::Validation),
            valid_issue_params(ticker@, precision, supply) ==> (r is Err <==> {
                &&& !(exists|i: int|
                    #![trigger old(self).contracts@[i]]
                    0 <= i < old(self).contracts@.len() && id_matches(
                        &old(self).contracts@[i],
                        ticker@,
                        name@,
                        description@,
                        precision,
                        supply,
                        genesis,
                        iface,
                    ))
                &&& old(self).has_allocation(genesis.concealed_spec())
            }),
            valid_issue_params(ticker@, precision, supply) && r is Err ==> r->Err_0
                == ProtocolError::Seal,
            r is Ok && (exists|i: int|
                #![trigger old(self).contracts@[i]]
                0 <= i < old(self).contracts@.len() && id_matches(
                    &old(self).contracts@[i],
                    ticker@,
                    name@,
                    description@,
                    precision,
                    supply,
                    genesis,
                    iface,
                )) ==> *final(self) == *old(self),
            r is Ok && !(exists|i: int|
                #![trigger old(self).contracts@[i]]
                0 <= i < old(self).contracts@.len() && id_matches(
                    &old(self).contracts@[i],
                    ticker@,
                    name@,
                    description@,
                    precision,
                    supply,
                    genesis,
                    iface,
                )) ==> {
                &&& final(self).contracts@.len() == old(self).contracts@.len() + 1
                &&& id_eq(&final(self).contracts@.last(), &r->Ok_0)
                &&& final(self).contracts@.take(old(self).contracts@.len() as int) == old(
                    self,
                ).contracts@
                &&& final(self).allocations@.len() == old(self).allocations@.len() + 1
                &&& final(self).allocations@.take(old(self).allocations@.len() as int) == old(
                    self,
                ).allocations@
                &&& final(self).allocations@.last().amount == supply
                &&& final(self).allocations@.last().concealed.bytes@ == genesis.concealed_spec()
                &&& final(self).allocations@.last().revealed is Some
                &&& final(self).allocations@.last().spendable_for(&r->Ok_0)
                &&& final(self).invoices@ == old(self).invoices@
                &&& final(self).consumed@ == old(self).consumed@
                &&& final(self).committed@ == old(self).committed@
                &&& final(self).pending@ == old(self).pending@
            },
    {
        if ticker.len() < 1 || ticker.len() > 8 || precision > 18 || supply == 0 {
            return Err(ProtocolError::Validation);
        }
        let id = ContractId {
            ticker,
            name,
            description,
            precision,
            supply,
            genesis_method: genesis.method,
            genesis_txid: crate::util::clone_bytes(&genesis.txid),
            genesis_vout: genesis.vout,
            genesis_blinding: genesis.blinding,
            iface,
        };
        match self.find_contract(&id) {
            Some(ci) => {
                proof {
                    assert(id_matches(
                        &self.contracts@[ci as int],
                        ticker@,
                        name@,
                        description@,
                        precision,
                        supply,
                        genesis,
                        iface,
                    ));
                }
                Ok(id)
            },
            None => {
                let digest = genesis.conceal();
                match self.find_allocation(&digest.bytes) {
                    Some(_) => Err(ProtocolError::Seal),
                    None => {
                        proof {
                            assert forall|i: int|
                                #![trigger self.contracts@[i]]
                                0 <= i < self.contracts@.len() implies !id_matches(
                                &self.contracts@[i],
                                ticker@,
                                name@,
                                description@,
                                precision,
                                supply,
                                genesis,
                                iface,
                            ) by {
                                assert(!id_eq(&self.contracts@[i], &id));
                            }
                        }
                        let dup = id.duplicate();
                        self.contracts.push(dup);
                        let genesis_dup = genesis.duplicate();
                        let allocation = Allocation {
                            contract: id.duplicate(),
                            concealed: digest,
                            amount: supply,
                            spent: false,
                            closed: false,
                            revealed: Some(genesis_dup),
                        };
                        self.allocations.push(allocation);
                        proof {
                            assert(self.contracts@.take(old(self).contracts@.len() as int)
                                =~= old(self).contracts@);
                            assert(self.allocations@.take(old(self).allocations@.len() as int)
                                =~= old(self).allocations@);
                        }
                        Ok(id)
                    },
                }
            },
        }
    }
    /// The read-only catalog of contracts this identity has issued or
    /// accepted.
    pub fn list_contracts(&self) -> (r: &Vec<ContractId>)
        ensures
            r@ == self.contracts@,
    {
        &self.contracts
    }

    fn find_consumed(&self, digest: &Vec<u8>) -> (r: bool)
        ensures
            r == self.is_consumed(digest@),
    {
        let mut i: usize = 0;
        while i < self.consumed.len()
            invariant
                i <= self.consumed@.len(),
                forall|j: int|
                    #![trigger self.consumed@[j]]
                    0 <= j < i ==> self.consumed@[j].bytes@ != digest@,
            decreases self.consumed@.len() - i,
        {
            if bytes_eq(&self.consumed[i].bytes, digest) {
                return true;
            }
            i += 1;
        }
        false
    }

    /// Create a payment request against a known contract: blind the supplied
    /// outpoint into a fresh concealed seal, bind it to the amount, and retain
    /// the revealed seal for disclosure at acceptance time. `NotFound` when
    /// the contract is unknown under the requested interface; `Validation`
    /// for a zero amount.
    pub fn create_invoice(
        &mut self,
        contract: &ContractId,
        iface: Iface,
        amount: u64,
        utxo: &Outpoint,
        method: CloseMethod,
    ) -> (r: Result<Invoice, ProtocolError>)
        requires
            old(self).wf(),
            utxo.wf(),
        ensures
            final(self).wf(),
            r is Ok <==> old(self).has_contract(contract) && contract.iface == iface && amount > 0,
            r is Err ==> *final(self) == *old(self),
            r is Err ==> (r->Err_0 == ProtocolError::NotFound <==> !(old(self).has_contract(contract)
                && contract.iface == iface)),
            r is Err ==> (r->Err_0 == ProtocolError::NotFound || r->Err_0
                == ProtocolError::Validation),
            r is Ok ==> ({
                let inv = &r->Ok_0;
                &&& id_eq(&inv.contract, contract)
                &&& inv.iface == iface
                &&& inv.amount == amount
                &&& inv.wf()
                &&& final(self).invoices@.len() == old(self).invoices@.len() + 1
                &&& final(self).invoices@.take(old(self).invoices@.len() as int) == old(
                    self,
                ).invoices@
                &&& final(self).invoices@.last().invoice.amount == amount
                &&& id_eq(&final(self).invoices@.last().invoice.contract, contract)
                &&& final(self).invoices@.last().invoice.concealed.bytes@ == inv.concealed.bytes@
                &&& final(self).invoices@.last().revealed.wf()
                &&& final(self).invoices@.last().revealed.concealed_spec() == inv.concealed.bytes@
                &&& final(self).invoices@.last().revealed.txid@ == utxo.txid@
                &&& final(self).invoices@.last().revealed.vout == utxo.vout
                &&& final(self).invoices@.last().revealed.method == method
                &&& final(self).contracts@ == old(self).contracts@
                &&& final(self).allocations@ == old(self).allocations@
                &&& final(self).consumed@ == old(self).consumed@
                &&& final(self).committed@ == old(self).committed@
                &&& final(self).pending@ == old(self).pending@
            }),
    {
        if self.find_contract(contract).is_none() || contract.iface != iface {
            return Err(ProtocolError::NotFound);
        }
        if amount == 0 {
            return Err(ProtocolError::Validation);
        }
        let (revealed, concealed) = blind(utxo, method);
        let inv = Invoice { contract: contract.duplicate(), iface, amount, concealed };
        let record = InvoiceRecord { invoice: inv.duplicate(), revealed };
        self.invoices.push(record);
        proof {
            assert(self.invoices@.take(old(self).invoices@.len() as int) =~= old(self).invoices@);
        }
        Ok(inv)
    }

    /// Build the unsigned transfer paying an invoice: select owned seals of
    /// the invoice's contract, scanning the ledger in order until the amount
    /// is covered, and assign the invoice amount to the invoice's concealed
    /// seal plus any excess to a freshly blinded change seal. Nothing is
    /// consumed yet; consumption happens when the transfer is executed.
    /// `Validation` for a zero amount, `InvoiceAlreadyUsed` when the invoice
    /// was paid before, `InsufficientFunds` when no covering set exists.
    pub fn create_transition(&self, invoice: &Invoice) -> (r: Result<UnsignedTransfer, ProtocolError>)
        requires
            self.wf(),
            invoice.wf(),
        ensures
            r is Ok <==> invoice.amount > 0 && !self.is_consumed(invoice.concealed.bytes@)
                && spendable_total(self.allocations@, &invoice.contract) >= invoice.amount,
            r is Err ==> (r->Err_0 == ProtocolError::Validation <==> invoice.amount == 0),
            r is Err ==> (r->Err_0 == ProtocolError::InvoiceAlreadyUsed <==> invoice.amount > 0
                && self.is_consumed(invoice.concealed.bytes@)),
            r is Err ==> (r->Err_0 == ProtocolError::InsufficientFunds <==> invoice.amount > 0
                && !self.is_consumed(invoice.concealed.bytes@) && spendable_total(
                self.allocations@,
                &invoice.contract,
            ) < invoice.amount),
            r is Ok ==> ({
                let t = &r->Ok_0.transition;
                &&& id_eq(&t.contract, &invoice.contract)
                &&& sum_inputs(t.inputs@) == sum_outputs(t.outputs@)
                &&& 1 <= t.outputs@.len() <= 2
                &&& t.outputs@[0].concealed.bytes@ == invoice.concealed.bytes@
                &&& t.outputs@[0].amount == invoice.amount
                &&& (t.outputs@.len() == 2 ==> {
                    &&& t.outputs@[1].amount == sum_inputs(t.inputs@) - invoice.amount
                    &&& r->Ok_0.change is Some
                    &&& r->Ok_0.change->0.wf()
                    &&& r->Ok_0.change->0.concealed_spec() == t.outputs@[1].concealed.bytes@
                })
                &&& (t.outputs@.len() == 1 ==> sum_inputs(t.inputs@) == invoice.amount)
                &&& forall|k: int|
                    #![trigger t.inputs@[k]]
                    0 <= k < t.inputs@.len() ==> exists|j: int|
                        #![trigger self.allocations@[j]]
                        0 <= j < self.allocations@.len() && input_matches_alloc(
                            self.allocations@[j],
                            t.inputs@[k],
                            &invoice.contract,
                        )
                &&& forall|k1: int, k2: int|
                    #![trigger t.inputs@[k1], t.inputs@[k2]]
                    0 <= k1 < k2 < t.inputs@.len() ==> t.inputs@[k1].concealed.bytes@
                        != t.inputs@[k2].concealed.bytes@
            }),
    {
        if invoice.amount == 0 {
            return Err(ProtocolError::Validation);
        }
        if self.find_consumed(&invoice.concealed.bytes) {
            return Err(ProtocolError::InvoiceAlreadyUsed);
        }
        let mut inputs: Vec<TransitionInput> = Vec::new();
        let mut change_base: Option<RevealedSeal> = None;
        let mut total: u128 = 0;
        let mut j: usize = 0;
        while j < self.allocations.len() && total < invoice.amount as u128
            invariant
                self.wf(),
                j <= self.allocations@.len(),
                total == sum_inputs(inputs@),
                total == spendable_total(self.allocations@.take(j as int), &invoice.contract),
                total <= invoice.amount as u128 + u64::MAX as u128,
                inputs@.len() > 0 ==> change_base is Some,
                change_base is Some ==> change_base->0.wf(),
                forall|k: int|
                    #![trigger inputs@[k]]
                    0 <= k < inputs@.len() ==> exists|jj: int|
                        #![trigger self.allocations@[jj]]
                        0 <= jj < j && input_matches_alloc(
                            self.allocations@[jj],
                            inputs@[k],
                            &invoice.contract,
                        ),
                forall|k1: int, k2: int|
                    #![trigger inputs@[k1], inputs@[k2]]
                    0 <= k1 < k2 < inputs@.len() ==> inputs@[k1].concealed.bytes@
                        != inputs@[k2].concealed.bytes@,
            decreases self.allocations@.len() - j,
        {
            let selectable = self.allocations[j].contract.same(&invoice.contract)
                && !self.allocations[j].spent && !self.allocations[j].closed
                && self.allocations[j].revealed.is_some();
            if selectable {
                let ghost pre_inputs = inputs@;
                let rv = match &self.allocations[j].revealed {
                    Some(rv) => rv,
                    // unreachable: selection demanded a revealed seal
                    None => {
                        return Err(ProtocolError::Signing);
                    },
                };
                if change_base.is_none() {
                    change_base = Some(rv.duplicate());
                }
                proof {
                    assert forall|k1: int| 0 <= k1 < pre_inputs.len() implies pre_inputs[k1].concealed.bytes@
                        != self.allocations@[j as int].concealed.bytes@ by {
                        let jj = choose|jj: int|
                            #![trigger self.allocations@[jj]]
                            0 <= jj < j && input_matches_alloc(
                                self.allocations@[jj],
                                pre_inputs[k1],
                                &invoice.contract,
                            );
                        assert(self.allocations@[jj].concealed.bytes@
                            != self.allocations@[j as int].concealed.bytes@);
                    }
                }
                inputs.push(
                    TransitionInput {
                        concealed: self.allocations[j].concealed.duplicate(),
                        amount: self.allocations[j].amount,
                    },
                );
                proof {
                    assert(inputs@.drop_last() =~= pre_inputs);
                }
                total = total + self.allocations[j].amount as u128;
            }
            proof {
                assert(self.allocations@.take(j as int + 1).drop_last() =~= self.allocations@.take(
                    j as int,
                ));
                assert(self.allocations@.take(j as int + 1).last() == self.allocations@[j as int]);
            }
            j += 1;
        }
        if total < invoice.amount as u128 {
            proof {
                assert(j == self.allocations@.len());
                assert(self.allocations@.take(j as int) =~= self.allocations@);
            }
            return Err(ProtocolError::InsufficientFunds);
        }
        proof {
            lemma_spendable_prefix(self.allocations@, &invoice.contract, j as int);
        }
        let mut outputs: Vec<TransitionOutput> = Vec::new();
        outputs.push(
            TransitionOutput { concealed: invoice.concealed.duplicate(), amount: invoice.amount },
        );
        let ghost payment_only = outputs@;
        let mut change: Option<RevealedSeal> = None;
        if total > invoice.amount as u128 {
            let base = match change_base {
                Some(base) => base,
                // unreachable: covering a positive amount selected an input
                None => {
                    return Err(ProtocolError::Signing);
                },
            };
            proof {
                assert(total - invoice.amount as u128 <= u64::MAX as u128);
            }
            let change_amount: u64 = (total - invoice.amount as u128) as u64;
            let outp = Outpoint { txid: crate::util::clone_bytes(&base.txid), vout: base.vout };
            let (change_rev, change_conc) = blind(&outp, base.method);
            outputs.push(TransitionOutput { concealed: change_conc, amount: change_amount });
            change = Some(change_rev);
            proof {
                assert(outputs@.drop_last() =~= payment_only);
                assert(payment_only.drop_last() =~= Seq::<TransitionOutput>::empty());
                assert(sum_outputs(Seq::<TransitionOutput>::empty()) == 0);
                assert(sum_outputs(payment_only) == invoice.amount as int);
                assert(change_amount as int == total as int - invoice.amount as int);
                assert(sum_outputs(outputs@) == invoice.amount + change_amount);
                assert(sum_outputs(outputs@) == sum_inputs(inputs@));
            }
        } else {
            proof {
                assert(payment_only.drop_last() =~= Seq::<TransitionOutput>::empty());
                assert(sum_outputs(Seq::<TransitionOutput>::empty()) == 0);
                assert(sum_outputs(outputs@) == invoice.amount as int);
                assert(total == invoice.amount as u128);
                assert(sum_outputs(outputs@) == sum_inputs(inputs@));
            }
        }
        let transition = StateTransition { contract: invoice.contract.duplicate(), inputs, outputs };
        Ok(UnsignedTransfer { transition, change })
    }
}

/// Whether an allocation is exactly what a transfer input claims: spendable
/// for the contract, under the same seal, carrying the same amount.
pub open spec fn input_matches_alloc(a: Allocation, inp: TransitionInput, c: &ContractId) -> bool {
    &&& a.spendable_for(c)
    &&& a.concealed.bytes@ == inp.concealed.bytes@
    &&& a.amount == inp.amount
}

/// Whether an allocation satisfies a transfer input's claim. In owned mode
/// (the payer signing a transfer) the allocation must also be unspent and
/// carry its revealed seal; in committed mode (the receiver validating) it
/// must merely exist and not be closed by an earlier committed transition.
pub open spec fn alloc_accepts(
    a: Allocation,
    c: ContractId,
    inp: TransitionInput,
    owned: bool,
) -> bool {
    &&& id_eq(&a.contract, &c)
    &&& !a.closed
    &&& (owned ==> !a.spent && a.revealed is Some)
    &&& a.concealed.bytes@ == inp.concealed.bytes@
    &&& a.amount == inp.amount
}

/// Whether the inputs, taken in order, each match a distinct allocation, the
/// allocations being scanned in ledger order. Because no two allocations
/// share a seal, a matching of this shape exists exactly when the inputs can
/// be bound to allocations at all.
pub open spec fn inputs_match_from(
    allocs: Seq<Allocation>,
    c: ContractId,
    inputs: Seq<TransitionInput>,
    owned: bool,
    i: int,
    k: int,
) -> bool
    decreases allocs.len() - i,
{
    if k >= inputs.len() {
        true
    } else if i >= allocs.len() || i < 0 {
        false
    } else if alloc_accepts(allocs[i], c, inputs[k], owned) {
        inputs_match_from(allocs, c, inputs, owned, i + 1, k + 1)
    } else {
        inputs_match_from(allocs, c, inputs, owned, i + 1, k)
    }
}

/// An allocation with its seal consumed by a transfer this identity signed.
pub open spec fn mark_spent(a: Allocation) -> Allocation {
    Allocation {
        contract: a.contract,
        concealed: a.concealed,
        amount: a.amount,
        spent: true,
        closed: a.closed,
        revealed: a.revealed,
    }
}

/// An allocation whose seal was closed by a committed transition.
pub open spec fn mark_closed(a: Allocation) -> Allocation {
    Allocation {
        contract: a.contract,
        concealed: a.concealed,
        amount: a.amount,
        spent: a.spent,
        closed: true,
        revealed: a.revealed,
    }
}

/// The structural shape every executable transfer artifact must have: a
/// payment output first, at most one change output, and when change exists,
/// the retained revealed change seal that reproduces it.
pub open spec fn transfer_struct_ok(t: &UnsignedTransfer) -> bool {
    &&& 1 <= t.transition.outputs@.len() <= 2
    &&& t.transition.outputs@[0].concealed.bytes@.len() == 32
    &&& (t.transition.outputs@.len() == 2 ==> t.change is Some && t.change->0.wf()
        && t.change->0.concealed_spec() == t.transition.outputs@[1].concealed.bytes@)
}

/// Everything the receiver demands of an incoming transfer: the disclosed
/// seal reproduces an output's concealed seal, the contract is known, every
/// input closes a previously committed open allocation, amounts are conserved
/// exactly, and the disclosed seal was never bound before.
pub open spec fn acceptable(l: &Ledger, t: &StateTransition, disclosed: &RevealedSeal) -> bool {
    &&& exists|p: int|
        #![trigger t.outputs@[p]]
        0 <= p < t.outputs@.len() && t.outputs@[p].concealed.bytes@ == disclosed.concealed_spec()
    &&& l.has_contract(&t.contract)
    &&& inputs_match_from(l.allocations@, t.contract, t.inputs@, false, 0, 0)
    &&& conserved(t)
    &&& !l.has_allocation(disclosed.concealed_spec())
}

/// Sum a transfer's input amounts exactly.
pub fn sum_input_amounts(inputs: &Vec<TransitionInput>) -> (r: u128)
    ensures
        r == sum_inputs(inputs@),
{
    let mut r: u128 = 0;
    let mut i: usize = 0;
    while i < inputs.len()
        invariant
            i <= inputs@.len(),
            r == sum_inputs(inputs@.take(i as int)),
            r <= (i as int) * (u64::MAX as int),
        decreases inputs@.len() - i,
    {
        proof {
            assert(inputs@.take(i as int + 1).drop_last() =~= inputs@.take(i as int));
            assert(inputs@.take(i as int + 1).last() == inputs@[i as int]);
            assert((i as int + 1) * (u64::MAX as int) == (i as int) * (u64::MAX as int) + (
            u64::MAX as int)) by (nonlinear_arith);
            assert((i as int + 1) * (u64::MAX as int)
                <= 0xffff_ffff_ffff_ffff_0000_0000_0000_0000int) by (nonlinear_arith)
                requires
                    0 <= i as int + 1 <= 0x1_0000_0000_0000_0000,
            ;
        }
        r = r + inputs[i].amount as u128;
        i += 1;
    }
    proof {
        assert(inputs@.take(inputs@.len() as int) =~= inputs@);
    }
    r
}

/// Sum a transfer's output amounts exactly.
pub fn sum_output_amounts(outputs: &Vec<TransitionOutput>) -> (r: u128)
    ensures
        r == sum_outputs(outputs@),
{
    let mut r: u128 = 0;
    let mut i: usize = 0;
    while i < outputs.len()
        invariant
            i <= outputs@.len(),
            r == sum_outputs(outputs@.take(i as int)),
            r <= (i as int) * (u64::MAX as int),
        decreases outputs@.len() - i,
    {
        proof {
            assert(outputs@.take(i as int + 1).drop_last() =~= outputs@.take(i as int));
            assert(outputs@.take(i as int + 1).last() == outputs@[i as int]);
            assert((i as int + 1) * (u64::MAX as int) == (i as int) * (u64::MAX as int) + (
            u64::MAX as int)) by (nonlinear_arith);
            assert((i as int + 1) * (u64::MAX as int)
                <= 0xffff_ffff_ffff_ffff_0000_0000_0000_0000int) by (nonlinear_arith)
                requires
                    0 <= i as int + 1 <= 0x1_0000_0000_0000_0000,
            ;
        }
        r = r + outputs[i].amount as u128;
        i += 1;
    }
    proof {
        assert(outputs@.take(outputs@.len() as int) =~= outputs@);
    }
    r
}

/// Every transition committed to a well-formed ledger conserves amounts: the
/// inputs it consumed sum to exactly what its outputs assign, at every
/// supported precision, with no rounding loss.
pub proof fn lemma_committed_conserved(l: &Ledger, i: int)
    requires
        l.wf(),
        0 <= i < l.committed@.len(),
    ensures
        conserved(&l.committed@[i]),
{
}

impl Ledger {
    fn match_inputs(&self, c: &ContractId, inputs: &Vec<TransitionInput>, owned: bool) -> (r:
        Option<Vec<usize>>)
        requires
            self.wf(),
        ensures
            r is Some <==> inputs_match_from(self.allocations@, *c, inputs@, owned, 0, 0),
            r is Some ==> ({
                let ix = r->0@;
                &&& ix.len() == inputs@.len()
                &&& forall|k: int|
                    #![trigger ix[k]]
                    0 <= k < ix.len() ==> ix[k] < self.allocations@.len() && alloc_accepts(
                        self.allocations@[ix[k] as int],
                        *c,
                        inputs@[k],
                        owned,
                    )
                &&& forall|k1: int, k2: int|
                    #![trigger ix[k1], ix[k2]]
                    0 <= k1 < k2 < ix.len() ==> ix[k1] < ix[k2]
            }),
    {
        let mut i: usize = 0;
        let mut k: usize = 0;
        let mut ix: Vec<usize> = Vec::new();
        while i < self.allocations.len() && k < inputs.len()
            invariant
                self.wf(),
                i <= self.allocations@.len(),
                k <= inputs@.len(),
                ix@.len() == k,
                inputs_match_from(self.allocations@, *c, inputs@, owned, 0, 0)
                    == inputs_match_from(self.allocations@, *c, inputs@, owned, i as int, k as int),
                forall|q: int|
                    #![trigger ix@[q]]
                    0 <= q < ix@.len() ==> ix@[q] < i && alloc_accepts(
                        self.allocations@[ix@[q] as int],
                        *c,
                        inputs@[q],
                        owned,
                    ),
                forall|q1: int, q2: int|
                    #![trigger ix@[q1], ix@[q2]]
                    0 <= q1 < q2 < ix@.len() ==> ix@[q1] < ix@[q2],
            decreases self.allocations@.len() - i,
        {
            let a = &self.allocations[i];
            let accepted = a.contract.same(c) && !a.closed && (!owned || (!a.spent
                && a.revealed.is_some())) && bytes_eq(&a.concealed.bytes, &inputs[k].concealed.bytes)
                && a.amount == inputs[k].amount;
            if accepted {
                ix.push(i);
                k += 1;
            }
            i += 1;
        }
        if k == inputs.len() {
            Some(ix)
        } else {
            None
        }
    }

    fn mark_allocations(&mut self, ix: &Vec<usize>, close: bool)
        requires
            old(self).wf(),
            forall|q: int| #![trigger ix@[q]] 0 <= q < ix@.len() ==> ix@[q] < old(self).allocations@.len(),
            forall|q1: int, q2: int|
                #![trigger ix@[q1], ix@[q2]]
                0 <= q1 < q2 < ix@.len() ==> ix@[q1] < ix@[q2],
        ensures
            final(self).wf(),
            final(self).allocations@.len() == old(self).allocations@.len(),
            forall|q: int|
                #![trigger ix@[q]]
                0 <= q < ix@.len() ==> final(self).allocations@[ix@[q] as int] == (if close {
                    mark_closed(old(self).allocations@[ix@[q] as int])
                } else {
                    mark_spent(old(self).allocations@[ix@[q] as int])
                }),
            forall|p: int|
                #![trigger final(self).allocations@[p]]
                0 <= p < old(self).allocations@.len() && (forall|q: int|
                    #![trigger ix@[q]]
                    0 <= q < ix@.len() ==> ix@[q] != p) ==> final(self).allocations@[p] == old(
                    self,
                ).allocations@[p],
            final(self).contracts@ == old(self).contracts@,
            final(self).invoices@ == old(self).invoices@,
            final(self).consumed@ == old(self).consumed@,
            final(self).committed@ == old(self).committed@,
            final(self).pending@ == old(self).pending@,
    {
        let mut m: usize = 0;
        while m < ix.len()
            invariant
                forall|q: int|
                    #![trigger ix@[q]]
                    0 <= q < ix@.len() ==> ix@[q] < old(self).allocations@.len(),
                forall|q1: int, q2: int|
                    #![trigger ix@[q1], ix@[q2]]
                    0 <= q1 < q2 < ix@.len() ==> ix@[q1] < ix@[q2],
                m <= ix@.len(),
                self.allocations@.len() == old(self).allocations@.len(),
                forall|q: int|
                    #![trigger ix@[q]]
                    0 <= q < m ==> self.allocations@[ix@[q] as int] == (if close {
                        mark_closed(old(self).allocations@[ix@[q] as int])
                    } else {
                        mark_spent(old(self).allocations@[ix@[q] as int])
                    }),
                forall|p: int|
                    #![trigger self.allocations@[p]]
                    0 <= p < old(self).allocations@.len() && (forall|q: int|
                        #![trigger ix@[q]]
                        0 <= q < m ==> ix@[q] != p) ==> self.allocations@[p] == old(
                        self,
                    ).allocations@[p],
                self.contracts@ == old(self).contracts@,
                self.invoices@ == old(self).invoices@,
                self.consumed@ == old(self).consumed@,
                self.committed@ == old(self).committed@,
                self.pending@ == old(self).pending@,
                self.wf(),
            decreases ix@.len() - m,
        {
            let idx = ix[m];
            let ghost pre = self.allocations@;
            let a = self.allocations.remove(idx);
            let a2 = if close {
                Allocation {
                    contract: a.contract,
                    concealed: a.concealed,
                    amount: a.amount,
                    spent: a.spent,
                    closed: true,
                    revealed: a.revealed,
                }
            } else {
                Allocation {
                    contract: a.contract,
                    concealed: a.concealed,
                    amount: a.amount,
                    spent: true,
                    closed: a.closed,
                    revealed: a.revealed,
                }
            };
            self.allocations.insert(idx, a2);
            proof {
                assert(self.allocations@ =~= pre.update(
                    idx as int,
                    if close {
                        mark_closed(pre[idx as int])
                    } else {
                        mark_spent(pre[idx as int])
                    },
                ));
                assert forall|q: int| #![trigger ix@[q]] 0 <= q < m implies ix@[q] != idx by {
                    assert(ix@[q] < ix@[m as int]);
                }
                assert(pre[idx as int] == old(self).allocations@[idx as int]);
            }
            m += 1;
        }
    }

    /// Execute a built transfer: sign the payment commitment with the
    /// identity key and, at a single commit point after signing succeeds,
    /// mark the consumed allocations spent, mark the invoice consumed, keep
    /// the change allocation, and record the pending transfer. On every
    /// failure the ledger is unchanged: partial application — signed but not
    /// marked, or marked but not signed — is never observable.
    pub fn execute(&mut self, sk: &crate::keys::SecretKey, transfer: &UnsignedTransfer) -> (r: Result<
        SignedTransfer,
        ProtocolError,
    >)
        requires
            old(self).wf(),
            sk.wf(),
        ensures
            final(self).wf(),
            r is Err ==> *final(self) == *old(self),
            r is Ok <==> {
                &&& transfer_struct_ok(transfer)
                &&& !old(self).is_consumed(transfer.transition.outputs@[0].concealed.bytes@)
                &&& inputs_match_from(
                    old(self).allocations@,
                    transfer.transition.contract,
                    transfer.transition.inputs@,
                    true,
                    0,
                    0,
                )
                &&& (transfer.transition.outputs@.len() == 2 ==> !old(self).has_allocation(
                    transfer.transition.outputs@[1].concealed.bytes@,
                ))
            },
            r is Err ==> (r->Err_0 == ProtocolError::Validation <==> !transfer_struct_ok(transfer)),
            r is Err ==> (r->Err_0 == ProtocolError::InvoiceAlreadyUsed <==> transfer_struct_ok(
                transfer,
            ) && old(self).is_consumed(transfer.transition.outputs@[0].concealed.bytes@)),
            r is Err ==> (r->Err_0 == ProtocolError::Signing <==> transfer_struct_ok(transfer)
                && !old(self).is_consumed(transfer.transition.outputs@[0].concealed.bytes@)
                && !inputs_match_from(
                old(self).allocations@,
                transfer.transition.contract,
                transfer.transition.inputs@,
                true,
                0,
                0,
            )),
            r is Err ==> (r->Err_0 == ProtocolError::Seal <==> transfer_struct_ok(transfer) && !old(
                self,
            ).is_consumed(transfer.transition.outputs@[0].concealed.bytes@) && inputs_match_from(
                old(self).allocations@,
                transfer.transition.contract,
                transfer.transition.inputs@,
                true,
                0,
                0,
            ) && transfer.transition.outputs@.len() == 2 && old(self).has_allocation(
                transfer.transition.outputs@[1].concealed.bytes@,
            )),
            r is Ok ==> ({
                let signed = &r->Ok_0;
                &&& transition_eq(&signed.transition, &transfer.transition)
                &&& signed.signature@ == crate::keys::ecdsa_sig_of(
                    sk.bytes@,
                    transfer.transition.outputs@[0].concealed.bytes@,
                )
                &&& signed.signer@ == crate::keys::pubkey_bytes_of(sk.bytes@)
                &&& final(self).consumed@.len() == old(self).consumed@.len() + 1
                &&& final(self).consumed@.take(old(self).consumed@.len() as int) == old(
                    self,
                ).consumed@
                &&& final(self).consumed@.last().bytes@
                    == transfer.transition.outputs@[0].concealed.bytes@
                &&& final(self).pending@.len() == old(self).pending@.len() + 1
                &&& transition_eq(&final(self).pending@.last().transition, &transfer.transition)
                &&& final(self).contracts@ == old(self).contracts@
                &&& final(self).invoices@ == old(self).invoices@
                &&& final(self).committed@ == old(self).committed@
                &&& (transfer.transition.outputs@.len() == 2 ==> {
                    &&& final(self).allocations@.len() == old(self).allocations@.len() + 1
                    &&& final(self).allocations@.last().concealed.bytes@
                        == transfer.transition.outputs@[1].concealed.bytes@
                    &&& final(self).allocations@.last().amount
                        == transfer.transition.outputs@[1].amount
                    &&& final(self).allocations@.last().spendable_for(&transfer.transition.contract)
                })
                &&& (transfer.transition.outputs@.len() == 1 ==> final(self).allocations@.len()
                    == old(self).allocations@.len())
                &&& forall|p: int|
                    #![trigger final(self).allocations@[p]]
                    0 <= p < old(self).allocations@.len() ==> (final(self).allocations@[p] == old(
                        self,
                    ).allocations@[p] || final(self).allocations@[p] == mark_spent(
                        old(self).allocations@[p],
                    ))
                &&& forall|k: int|
                    #![trigger transfer.transition.inputs@[k]]
                    0 <= k < transfer.transition.inputs@.len() ==> exists|j: int|
                        #![trigger old(self).allocations@[j]]
                        0 <= j < old(self).allocations@.len()
                            && old(self).allocations@[j].concealed.bytes@
                            == transfer.transition.inputs@[k].concealed.bytes@
                            && final(self).allocations@[j] == mark_spent(
                            old(self).allocations@[j],
                        )
                &&& forall|p: int|
                    #![trigger final(self).allocations@[p]]
                    0 <= p < old(self).allocations@.len() && (forall|k: int|
                        0 <= k < transfer.transition.inputs@.len()
                            ==> (#[trigger] transfer.transition.inputs@[k]).concealed.bytes@ != old(
                            self,
                        ).allocations@[p].concealed.bytes@) ==> final(self).allocations@[p] == old(
                        self,
                    ).allocations@[p]
            }),
    {
        let t = &transfer.transition;
        if t.outputs.len() < 1 || t.outputs.len() > 2 {
            return Err(ProtocolError::Validation);
        }
        if t.outputs[0].concealed.bytes.len() != 32 {
            return Err(ProtocolError::Validation);
        }
        if t.outputs.len() == 2 {
            match &transfer.change {
                Some(ch) => {
                    if ch.txid.len() != 32 {
                        return Err(ProtocolError::Validation);
                    }
                    let chc = ch.conceal();
                    if !bytes_eq(&chc.bytes, &t.outputs[1].concealed.bytes) {
                        return Err(ProtocolError::Validation);
                    }
                },
                None => {
                    return Err(ProtocolError::Validation);
                },
            }
        }
        if self.find_consumed(&t.outputs[0].concealed.bytes) {
            return Err(ProtocolError::InvoiceAlreadyUsed);
        }
        let ix = match self.match_inputs(&t.contract, &t.inputs, true) {
            Some(ix) => ix,
            None => {
                return Err(ProtocolError::Signing);
            },
        };
        if t.outputs.len() == 2 {
            if self.find_allocation(&t.outputs[1].concealed.bytes).is_some() {
                return Err(ProtocolError::Seal);
            }
        }
        let signature = crate::keys::sign_digest(sk, &t.outputs[0].concealed.bytes);
        let signer = crate::keys::PublicKey::of_secret(sk);
        let ghost pre_alloc = self.allocations@;
        self.mark_allocations(&ix, false);
        let ghost marked = self.allocations@;
        self.consumed.push(t.outputs[0].concealed.duplicate());
        proof {
            assert(self.consumed@.take(old(self).consumed@.len() as int) =~= old(self).consumed@);
        }
        if t.outputs.len() == 2 {
            proof {
                assert forall|p: int|
                    #![trigger marked[p]]
                    0 <= p < marked.len() implies marked[p].concealed.bytes@
                    != t.outputs@[1].concealed.bytes@ by {
                    if exists|q: int| 0 <= q < ix@.len() && #[trigger] ix@[q] == p {
                        let q = choose|q: int| 0 <= q < ix@.len() && #[trigger] ix@[q] == p;
                        assert(marked[p] == mark_spent(pre_alloc[p]));
                    } else {
                        assert(forall|q: int| 0 <= q < ix@.len() ==> #[trigger] ix@[q] != p);
                        assert(marked[p] == pre_alloc[p]);
                    }
                }
            }
            let ch = match &transfer.change {
                Some(ch) => ch,
                // unreachable: the change seal was validated before signing
                None => {
                    return Err(ProtocolError::Validation);
                },
            };
            let chc = ch.conceal();
            let change_alloc = Allocation {
                contract: t.contract.duplicate(),
                concealed: chc,
                amount: t.outputs[1].amount,
                spent: false,
                closed: false,
                revealed: Some(ch.duplicate()),
            };
            self.allocations.push(change_alloc);
        }
        let signed = SignedTransfer {
            transition: t.duplicate(),
            signature,
            signer: signer.bytes,
        };
        let record = SignedTransfer {
            transition: t.duplicate(),
            signature: crate::util::clone_bytes(&signed.signature),
            signer: crate::util::clone_bytes(&signed.signer),
        };
        self.pending.push(record);
        proof {
            assert forall|k: int|
                #![trigger t.inputs@[k]]
                0 <= k < t.inputs@.len() implies exists|j: int|
                #![trigger old(self).allocations@[j]]
                0 <= j < old(self).allocations@.len()
                    && old(self).allocations@[j].concealed.bytes@ == t.inputs@[k].concealed.bytes@
                    && self.allocations@[j] == mark_spent(old(self).allocations@[j]) by {
                let j = ix@[k] as int;
                assert(alloc_accepts(pre_alloc[j], t.contract, t.inputs@[k], true));
                assert(marked[j] == mark_spent(pre_alloc[j]));
                assert(old(self).allocations@[j] == pre_alloc[j]);
                assert(self.allocations@[j] == marked[j]);
            }
            assert forall|p: int|
                #![trigger self.allocations@[p]]
                0 <= p < old(self).allocations@.len() && (forall|k: int|
                    0 <= k < t.inputs@.len() ==> (#[trigger] t.inputs@[k]).concealed.bytes@ != old(
                        self,
                    ).allocations@[p].concealed.bytes@) implies self.allocations@[p] == old(
                self,
            ).allocations@[p] by {
                assert forall|q: int| 0 <= q < ix@.len() implies #[trigger] ix@[q] != p by {
                    if ix@[q] == p {
                        assert(alloc_accepts(pre_alloc[p], t.contract, t.inputs@[q], true));
                        assert(t.inputs@[q].concealed.bytes@ == pre_alloc[p].concealed.bytes@);
                    }
                }
                assert(marked[p] == pre_alloc[p]);
            }
        }
        Ok(signed)
    }

    /// Validate and commit an incoming transfer: check that the disclosed
    /// seal reproduces the transition's target output, that every consumed
    /// input closes a previously committed allocation, and that amounts are
    /// conserved exactly. On success the transition enters the local ledger
    /// and the target output becomes an allocation owned through the
    /// disclosed seal. Accepting an already committed transition succeeds and
    /// changes nothing; every rejection leaves the ledger untouched.
    pub fn accept(&mut self, transfer: &SignedTransfer, disclosed: &RevealedSeal) -> (r:
        AcceptResult)
        requires
            old(self).wf(),
            disclosed.wf(),
        ensures
            final(self).wf(),
            old(self).has_committed(&transfer.transition) ==> (r == AcceptResult::Success
                && *final(self) == *old(self)),
            r matches AcceptResult::Rejected(_) ==> *final(self) == *old(self),
            r == AcceptResult::Success <==> (old(self).has_committed(&transfer.transition)
                || acceptable(old(self), &transfer.transition, disclosed)),
            r == AcceptResult::Success ==> final(self).has_committed(&transfer.transition),
            r == AcceptResult::Rejected(RejectReason::SealMismatch) <==> (!old(self).has_committed(
                &transfer.transition,
            ) && !(exists|p: int|
                #![trigger transfer.transition.outputs@[p]]
                0 <= p < transfer.transition.outputs@.len()
                    && transfer.transition.outputs@[p].concealed.bytes@
                    == disclosed.concealed_spec())),
            r == AcceptResult::Rejected(RejectReason::UnknownContract) ==> !old(self).has_contract(
                &transfer.transition.contract,
            ),
            r == AcceptResult::Rejected(RejectReason::InputNotCommitted) ==> !inputs_match_from(
                old(self).allocations@,
                transfer.transition.contract,
                transfer.transition.inputs@,
                false,
                0,
                0,
            ),
            r == AcceptResult::Rejected(RejectReason::AmountMismatch) ==> !conserved(
                &transfer.transition,
            ),
            r == AcceptResult::Rejected(RejectReason::SealReused) ==> old(self).has_allocation(
                disclosed.concealed_spec(),
            ),
            r == AcceptResult::Success && !old(self).has_committed(&transfer.transition) ==> ({
                &&& conserved(&transfer.transition)
                &&& final(self).committed@.len() == old(self).committed@.len() + 1
                &&& final(self).committed@.take(old(self).committed@.len() as int) == old(
                    self,
                ).committed@
                &&& transition_eq(&final(self).committed@.last(), &transfer.transition)
                &&& final(self).allocations@.len() == old(self).allocations@.len() + 1
                &&& final(self).allocations@.last().concealed.bytes@ == disclosed.concealed_spec()
                &&& final(self).allocations@.last().revealed is Some
                &&& !final(self).allocations@.last().spent
                &&& !final(self).allocations@.last().closed
                &&& forall|p: int|
                    #![trigger final(self).allocations@[p]]
                    0 <= p < old(self).allocations@.len() ==> (final(self).allocations@[p] == old(
                        self,
                    ).allocations@[p] || final(self).allocations@[p] == mark_closed(
                        old(self).allocations@[p],
                    ))
                &&& forall|k: int|
                    #![trigger transfer.transition.inputs@[k]]
                    0 <= k < transfer.transition.inputs@.len() ==> exists|j: int|
                        #![trigger old(self).allocations@[j]]
                        0 <= j < old(self).allocations@.len()
                            && old(self).allocations@[j].concealed.bytes@
                            == transfer.transition.inputs@[k].concealed.bytes@
                            && final(self).allocations@[j] == mark_closed(
                            old(self).allocations@[j],
                        )
                &&& forall|p: int|
                    #![trigger final(self).allocations@[p]]
                    0 <= p < old(self).allocations@.len() && (forall|k: int|
                        0 <= k < transfer.transition.inputs@.len()
                            ==> (#[trigger] transfer.transition.inputs@[k]).concealed.bytes@ != old(
                            self,
                        ).allocations@[p].concealed.bytes@) ==> final(self).allocations@[p] == old(
                        self,
                    ).allocations@[p]
                &&& final(self).contracts@ == old(self).contracts@
                &&& final(self).invoices@ == old(self).invoices@
                &&& final(self).consumed@ == old(self).consumed@
                &&& final(self).pending@ == old(self).pending@
            }),
    {
        let t = &transfer.transition;
        if self.find_committed(t) {
            return AcceptResult::Success;
        }
        let digest = disclosed.conceal();
        let target = match self.find_target_output(&t.outputs, &digest.bytes) {
            Some(p) => p,
            None => {
                return AcceptResult::Rejected(RejectReason::SealMismatch);
            },
        };
        if self.find_contract(&t.contract).is_none() {
            return AcceptResult::Rejected(RejectReason::UnknownContract);
        }
        let ix = match self.match_inputs(&t.contract, &t.inputs, false) {
            Some(ix) => ix,
            None => {
                return AcceptResult::Rejected(RejectReason::InputNotCommitted);
            },
        };
        let total_in = sum_input_amounts(&t.inputs);
        let total_out = sum_output_amounts(&t.outputs);
        if total_in != total_out {
            return AcceptResult::Rejected(RejectReason::AmountMismatch);
        }
        if self.find_allocation(&digest.bytes).is_some() {
            return AcceptResult::Rejected(RejectReason::SealReused);
        }
        let ghost pre_alloc = self.allocations@;
        self.mark_allocations(&ix, true);
        let ghost marked = self.allocations@;
        let dup = t.duplicate();
        proof {
            lemma_sum_inputs_congruent(dup.inputs@, t.inputs@);
            lemma_sum_outputs_congruent(dup.outputs@, t.outputs@);
            assert(conserved(&dup));
        }
        self.committed.push(dup);
        proof {
            assert(self.committed@.take(old(self).committed@.len() as int) =~= old(
                self,
            ).committed@);
            assert(transition_eq(&self.committed@.last(), t));
            assert forall|p: int|
                #![trigger marked[p]]
                0 <= p < marked.len() implies marked[p].concealed.bytes@
                != digest.bytes@ by {
                if exists|q: int| 0 <= q < ix@.len() && #[trigger] ix@[q] == p {
                    let q = choose|q: int| 0 <= q < ix@.len() && #[trigger] ix@[q] == p;
                    assert(marked[p] == mark_closed(pre_alloc[p]));
                } else {
                    assert(forall|q: int| 0 <= q < ix@.len() ==> #[trigger] ix@[q] != p);
                    assert(marked[p] == pre_alloc[p]);
                }
            }
        }
        let new_alloc = Allocation {
            contract: t.contract.duplicate(),
            concealed: digest,
            amount: t.outputs[target].amount,
            spent: false,
            closed: false,
            revealed: Some(disclosed.duplicate()),
        };
        self.allocations.push(new_alloc);
        proof {
            assert forall|k: int|
                #![trigger t.inputs@[k]]
                0 <= k < t.inputs@.len() implies exists|j: int|
                #![trigger old(self).allocations@[j]]
                0 <= j < old(self).allocations@.len()
                    && old(self).allocations@[j].concealed.bytes@ == t.inputs@[k].concealed.bytes@
                    && self.allocations@[j] == mark_closed(old(self).allocations@[j]) by {
                let j = ix@[k] as int;
                assert(alloc_accepts(pre_alloc[j], t.contract, t.inputs@[k], false));
                assert(marked[j] == mark_closed(pre_alloc[j]));
                assert(old(self).allocations@[j] == pre_alloc[j]);
                assert(self.allocations@[j] == marked[j]);
            }
            assert forall|p: int|
                #![trigger self.allocations@[p]]
                0 <= p < old(self).allocations@.len() && (forall|k: int|
                    0 <= k < t.inputs@.len() ==> (#[trigger] t.inputs@[k]).concealed.bytes@ != old(
                        self,
                    ).allocations@[p].concealed.bytes@) implies self.allocations@[p] == old(
                self,
            ).allocations@[p] by {
                assert forall|q: int| 0 <= q < ix@.len() implies #[trigger] ix@[q] != p by {
                    if ix@[q] == p {
                        assert(alloc_accepts(pre_alloc[p], t.contract, t.inputs@[q], false));
                        assert(t.inputs@[q].concealed.bytes@ == pre_alloc[p].concealed.bytes@);
                    }
                }
                assert(marked[p] == pre_alloc[p]);
            }
        }
        AcceptResult::Success
    }

    fn find_committed(&self, t: &StateTransition) -> (r: bool)
        ensures
            r == self.has_committed(t),
    {
        let mut i: usize = 0;
        while i < self.committed.len()
            invariant
                i <= self.committed@.len(),
                forall|j: int|
                    #![trigger self.committed@[j]]
                    0 <= j < i ==> !transition_eq(&self.committed@[j], t),
            decreases self.committed@.len() - i,
        {
            if self.committed[i].same(t) {
                return true;
            }
            i += 1;
        }
        false
    }

    fn find_target_output(&self, outputs: &Vec<TransitionOutput>, digest: &Vec<u8>) -> (r: Option<
        usize,
    >)
        ensures
            r is Some ==> r->0 < outputs@.len() && outputs@[r->0 as int].concealed.bytes@
                == digest@,
            r is Some <==> exists|p: int|
                #![trigger outputs@[p]]
                0 <= p < outputs@.len() && outputs@[p].concealed.bytes@ == digest@,
    {
        let mut i: usize = 0;
        while i < outputs.len()
            invariant
                i <= outputs@.len(),
                forall|j: int|
                    #![trigger outputs@[j]]
                    0 <= j < i ==> outputs@[j].concealed.bytes@ != digest@,
            decreases outputs@.len() - i,
        {
            if bytes_eq(&outputs[i].concealed.bytes, digest) {
                return Some(i);
            }
            i += 1;
        }
        None
    }
}

/// The result of accepting an incoming transfer. Rejection is not fatal and
/// names its reason; the caller may retry with a corrected transfer.
#[derive(Clone, Copy, PartialEq, Eq, Structural, Debug)]
pub enum RejectReason {
    /// The disclosed seal does not reproduce any transition output's seal.
    SealMismatch,
    /// The transition's contract is unknown to this ledger.
    UnknownContract,
    /// Some consumed input seal was never committed, or is already closed.
    InputNotCommitted,
    /// The transition does not conserve amounts exactly.
    AmountMismatch,
    /// The disclosed seal is already bound to committed contract state.
    SealReused,
}

#[derive(Clone, Copy, PartialEq, Eq, Structural, Debug)]
pub enum AcceptResult {
    Success,
    Rejected(RejectReason),
}

} // verus!
