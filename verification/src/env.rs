//! The execution environment: the host that deployment requests are made to.
//!
//! It answers the requests against a ledger in memory, and keeps the ledger as
//! it was when the invocation began, so that a failed invocation leaves no
//! trace.

use vstd::prelude::*;
use crate::addressing::{get_asset_contract_id, get_contract_id};
use crate::hash::{sha256, sha256_digest};
use crate::ledger::{Executable, Ledger};
use crate::model::{EnvView, LedgerView};
use crate::types::{Address, DeployError, Digest, Salt};

verus! {

/// The addresses that `list` holds.
pub open spec fn address_set(list: Seq<Address>) -> Set<Seq<u8>> {
    Set::new(
        |identity: Seq<u8>|
            exists|i: int| 0 <= i < list.len() && (#[trigger] list[i])@ == identity,
    )
}

/// What a request for an address reports, with the address as plain bytes.
pub open spec fn outcome_view(outcome: Result<Address, DeployError>) -> Result<
    Seq<u8>,
    DeployError,
> {
    match outcome {
        Ok(address) => Ok(address@),
        Err(error) => Err(error),
    }
}

/// An execution environment over a ledger in memory.
pub struct Env {
    current_contract: Address,
    authorized: Vec<Address>,
    entry_ttl: u32,
    ledger: Ledger,
    committed: Ledger,
}

impl View for Env {
    type V = EnvView;

    closed spec fn view(&self) -> EnvView {
        EnvView {
            current_contract: self.current_contract@,
            authorized: address_set(self.authorized@),
            entry_ttl: self.entry_ttl,
            ledger: self.ledger@,
            committed: self.committed@,
        }
    }
}

impl Env {
    /// Both ledgers are well formed.
    pub closed spec fn wf(&self) -> bool {
        self.ledger.wf() && self.committed.wf()
    }

    /// An environment with an empty ledger, in which `current_contract`
    /// executes and every new entry gets the lifetime `entry_ttl`.
    pub fn new(current_contract: Address, entry_ttl: u32) -> (env: Env)
        ensures
            env.wf(),
            env@ == (EnvView {
                current_contract: current_contract@,
                authorized: Set::empty(),
                entry_ttl,
                ledger: LedgerView::empty(),
                committed: LedgerView::empty(),
            }),
    {
        let env = Env {
            current_contract,
            authorized: Vec::new(),
            entry_ttl,
            ledger: Ledger::new(),
            committed: Ledger::new(),
        };
        assert(address_set(env.authorized@) =~= Set::empty());
        env
    }

    /// The address of the executing contract.
    pub fn current_contract_address(&self) -> (address: Address)
        ensures
            address@ == self@.current_contract,
    {
        self.current_contract.clone()
    }

    /// Lets `contract` be the executing contract.
    pub fn enter_contract(&mut self, contract: Address)
        requires
            old(self).wf(),
        ensures
            final(self).wf(),
            final(self)@ == old(self)@.after_enter(contract@),
    {
        self.current_contract = contract;
    }

    /// Records that `identity` has authorized the present invocation.
    pub fn authorize(&mut self, identity: Address)
        requires
            old(self).wf(),
        ensures
            final(self).wf(),
            final(self)@ == old(self)@.after_authorize(identity@),
    {
        let ghost before = self.authorized@;
        self.authorized.push(identity);
        proof {
            assert forall|a: Seq<u8>|
                address_set(self.authorized@).contains(a) <==> address_set(before).insert(
                    identity@,
                ).contains(a) by {
                if address_set(self.authorized@).contains(a) {
                    let i = choose|i: int|
                        0 <= i < self.authorized@.len() && (#[trigger] self.authorized@[i])@ == a;
                    if i < before.len() {
                        assert(before[i]@ == a);
                    }
                }
                if a == identity@ {
                    assert(self.authorized@[before.len() as int]@ == a);
                }
                if address_set(before).contains(a) {
                    let i = choose|i: int| 0 <= i < before.len() && (#[trigger] before[i])@ == a;
                    assert(self.authorized@[i]@ == a);
                }
            }
            assert(address_set(self.authorized@) =~= address_set(before).insert(identity@));
        }
    }

    /// Whether `identity` may deploy in the present invocation.
    pub fn is_authorized(&self, identity: &Address) -> (allowed: bool)
        ensures
            allowed == self@.authorizes(identity@),
    {
        if identity.same_as(&self.current_contract) {
            return true;
        }
        let mut i: usize = 0;
        while i < self.authorized.len()
            invariant
                i <= self.authorized@.len(),
                forall|j: int| 0 <= j < i ==> (#[trigger] self.authorized@[j])@ != identity@,
            decreases self.authorized@.len() - i,
        {
            if self.authorized[i].same_as(identity) {
                return true;
            }
            i += 1;
        }
        false
    }

    /// Takes `wasm` into the code registry and returns its digest, the SHA-256
    /// hash of the bytes. Uploading the same bytes again changes nothing.
    pub fn upload_wasm(&mut self, wasm: &[u8]) -> (digest: Digest)
        requires
            old(self).wf(),
        ensures
            final(self).wf(),
            digest@ == sha256(wasm@),
            final(self)@ == old(self)@.after_upload(sha256(wasm@), wasm@),
    {
        let digest = sha256_digest(wasm);
        self.install_code(digest, wasm);
        digest
    }

    /// Takes `wasm` into the code registry under a digest that the caller has
    /// computed. A digest that is already registered keeps its entry.
    pub fn install_code(&mut self, digest: Digest, wasm: &[u8])
        requires
            old(self).wf(),
        ensures
            final(self).wf(),
            final(self)@ == old(self)@.after_upload(digest@, wasm@),
    {
        self.ledger.insert_code(digest, wasm, self.entry_ttl);
    }

    /// Creates the contract of `(identity, salt)` with the code `digest`.
    ///
    /// Fails with `Unauthorized` if `identity` may not deploy, else with
    /// `AlreadyExists` if a contract lives at the derived address, else with
    /// `NotFound` if no code is registered under `digest`. A failed request
    /// changes nothing.
    pub fn create_contract(
        &mut self,
        identity: &Address,
        digest: &Digest,
        salt: &Salt,
    ) -> (outcome: Result<Address, DeployError>)
        requires
            old(self).wf(),
        ensures
            final(self).wf(),
            outcome_view(outcome) == old(self)@.create_contract_outcome(identity@, digest@, salt@),
            final(self)@ == old(self)@.after_create_contract(identity@, digest@, salt@),
    {
        if !self.is_authorized(identity) {
            return Err(DeployError::Unauthorized);
        }
        let address = get_contract_id(identity, salt);
        if self.ledger.has_instance(&address) {
            return Err(DeployError::AlreadyExists);
        }
        if !self.ledger.has_code(digest) {
            return Err(DeployError::NotFound);
        }
        self.ledger.insert_instance(address.clone(), Executable::Wasm(*digest), self.entry_ttl);
        Ok(address)
    }

    /// Creates the asset contract of a serialized descriptor.
    ///
    /// Fails with `AlreadyExists` if a contract lives at the derived address,
    /// and then changes nothing.
    pub fn create_asset_contract(&mut self, serialized_asset: &[u8]) -> (outcome: Result<
        Address,
        DeployError,
    >)
        requires
            old(self).wf(),
        ensures
            final(self).wf(),
            outcome_view(outcome) == old(self)@.create_asset_contract_outcome(serialized_asset@),
            final(self)@ == old(self)@.after_create_asset_contract(serialized_asset@),
    {
        let address = get_asset_contract_id(serialized_asset);
        if self.ledger.insert_instance(address.clone(), Executable::HcnetAsset, self.entry_ttl) {
            Ok(address)
        } else {
            Err(DeployError::AlreadyExists)
        }
    }

    /// Asks that the executing contract run the code `digest` from the next
    /// invocation on. Until the present invocation has succeeded the contract
    /// runs what it ran before.
    ///
    /// Fails with `NotFound` if the executing contract is not on the ledger or
    /// no code is registered under `digest`, and then changes nothing.
    pub fn update_current_contract_wasm(&mut self, digest: &Digest) -> (outcome: Result<
        (),
        DeployError,
    >)
        requires
            old(self).wf(),
        ensures
            final(self).wf(),
            outcome == old(self)@.update_wasm_outcome(digest@),
            final(self)@ == old(self)@.after_update_wasm(digest@),
    {
        if !self.ledger.has_code(digest) {
            return Err(DeployError::NotFound);
        }
        if self.ledger.set_pending_wasm(&self.current_contract, *digest) {
            Ok(())
        } else {
            Err(DeployError::NotFound)
        }
    }

    /// Extends the lifetime of the contract at `address`: its instance entry
    /// and its code entry are each raised to `extend_to` if they were below
    /// `threshold`, and are never lowered.
    ///
    /// Fails with `NotFound` if no contract lives at `address`, and then
    /// changes nothing.
    pub fn extend_contract_instance_and_code_ttl(
        &mut self,
        address: &Address,
        threshold: u32,
        extend_to: u32,
    ) -> (outcome: Result<(), DeployError>)
        requires
            old(self).wf(),
        ensures
            final(self).wf(),
            outcome == old(self)@.extend_ttl_outcome(address@),
            final(self)@ == old(self)@.after_extend_ttl(address@, threshold, extend_to),
    {
        if self.ledger.extend_ttl(address, threshold, extend_to) {
            Ok(())
        } else {
            Err(DeployError::NotFound)
        }
    }

    /// Ends the present invocation as a success and begins the next one.
    pub fn complete_invocation(&mut self)
        requires
            old(self).wf(),
        ensures
            final(self).wf(),
            final(self)@ == old(self)@.after_complete(),
    {
        self.ledger.settle();
        self.committed = self.ledger.snapshot();
        self.authorized = Vec::new();
        assert(address_set(self.authorized@) =~= Set::empty());
    }

    /// Ends the present invocation as a failure and begins the next one.
    pub fn abort_invocation(&mut self)
        requires
            old(self).wf(),
        ensures
            final(self).wf(),
            final(self)@ == old(self)@.after_abort(),
    {
        self.ledger = self.committed.snapshot();
        self.authorized = Vec::new();
        assert(address_set(self.authorized@) =~= Set::empty());
    }

    /// Whether a contract lives at `address`.
    pub fn has_contract(&self, address: &Address) -> (held: bool)
        requires
            self.wf(),
        ensures
            held == self@.ledger.instances.contains_key(address@),
    {
        self.ledger.has_instance(address)
    }

    /// Whether code is registered under `digest`.
    pub fn has_wasm(&self, digest: &Digest) -> (held: bool)
        requires
            self.wf(),
        ensures
            held == self@.ledger.codes.contains_key(digest@),
    {
        self.ledger.has_code(digest)
    }

    /// What the contract at `address` runs, if one lives there.
    pub fn contract_executable(&self, address: &Address) -> (executable: Option<Executable>)
        requires
            self.wf(),
        ensures
            match executable {
                Some(executable) => self@.ledger.instances.contains_key(address@)
                    && self@.ledger.instances[address@].executable == executable@,
                None => !self@.ledger.instances.contains_key(address@),
            },
    {
        self.ledger.executable(address)
    }

    /// The remaining lifetime of the instance at `address`, if one lives
    /// there.
    pub fn instance_ttl(&self, address: &Address) -> (ttl: Option<u32>)
        requires
            self.wf(),
        ensures
            ttl == if self@.ledger.instances.contains_key(address@) {
                Some(self@.ledger.instances[address@].ttl)
            } else {
                None
            },
    {
        self.ledger.instance_ttl(address)
    }

    /// The remaining lifetime of the code registered under `digest`, if any
    /// is.
    pub fn code_ttl(&self, digest: &Digest) -> (ttl: Option<u32>)
        requires
            self.wf(),
        ensures
            ttl == if self@.ledger.codes.contains_key(digest@) {
                Some(self@.ledger.codes[digest@].ttl)
            } else {
                None
            },
    {
        self.ledger.code_ttl(digest)
    }
}

} // verus!
