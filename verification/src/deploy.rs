//! Deployers: the capability to report a contract's address and to create the
//! contract there.
//!
//! A contract's address is derived from what it is deployed with: the
//! deploying address and a salt, or the serialized descriptor of an asset.
//! The address is known before the contract exists.

use vstd::prelude::*;
use crate::addressing::{asset_contract_id, contract_id, get_asset_contract_id, get_contract_id};
use crate::env::{outcome_view, Env};
use crate::hash::sha256;
use crate::model::EnvView;
use crate::types::{Address, DeployError, Digest, Salt};

verus! {

/// Deployer provides access to deploying contracts.
pub struct Deployer {
    env: Env,
}

impl Deployer {
    /// The environment is well formed.
    pub closed spec fn wf(&self) -> bool {
        self.env.wf()
    }

    /// The state of the environment this deployer is bound to.
    pub closed spec fn state(&self) -> EnvView {
        self.env@
    }

    /// A deployer bound to `env`.
    pub fn new(env: Env) -> (deployer: Deployer)
        requires
            env.wf(),
        ensures
            deployer.wf(),
            deployer.state() == env@,
    {
        Deployer { env }
    }

    /// The environment this deployer is bound to.
    pub fn env(&self) -> (env: &Env)
        requires
            self.wf(),
        ensures
            env.wf(),
            env@ == self.state(),
    {
        &self.env
    }

    /// Gives the environment back.
    pub fn into_env(self) -> (env: Env)
        requires
            self.wf(),
        ensures
            env.wf(),
            env@ == self.state(),
    {
        self.env
    }

    /// Get a deployer that deploys contracts whose address is derived from
    /// the executing contract and the provided salt.
    pub fn with_current_contract(self, salt: Salt) -> (deployer: DeployerWithAddress)
        requires
            self.wf(),
        ensures
            deployer.wf(),
            deployer.state() == self.state(),
            deployer.identity() == self.state().current_contract,
            deployer.salt() == salt@,
    {
        let address = self.env.current_contract_address();
        DeployerWithAddress { env: self.env, address, salt }
    }

    /// Get a deployer that deploys contracts whose address is derived from
    /// the provided address and salt.
    ///
    /// The deployer address must authorize all the deployments.
    pub fn with_address(self, address: Address, salt: Salt) -> (deployer: DeployerWithAddress)
        requires
            self.wf(),
        ensures
            deployer.wf(),
            deployer.state() == self.state(),
            deployer.identity() == address@,
            deployer.salt() == salt@,
    {
        DeployerWithAddress { env: self.env, address, salt }
    }

    /// Get a deployer that deploys the asset contract of the provided
    /// serialized asset descriptor.
    pub fn with_hcnet_asset(self, serialized_asset: Vec<u8>) -> (deployer: DeployerWithAsset)
        requires
            self.wf(),
        ensures
            deployer.wf(),
            deployer.state() == self.state(),
            deployer.descriptor() == serialized_asset@,
    {
        DeployerWithAsset { env: self.env, serialized_asset }
    }

    /// Upload the contract Wasm code to the ledger.
    ///
    /// Returns the hash of the uploaded Wasm, which can then be used to
    /// deploy contracts. Uploading the same bytes again returns the same hash
    /// and stores nothing anew.
    pub fn upload_contract_wasm(&mut self, contract_wasm: &[u8]) -> (wasm_hash: Digest)
        requires
            old(self).wf(),
        ensures
            final(self).wf(),
            wasm_hash@ == sha256(contract_wasm@),
            final(self).state() == old(self).state().after_upload(
                sha256(contract_wasm@),
                contract_wasm@,
            ),
    {
        self.env.upload_wasm(contract_wasm)
    }

    /// Replaces the executable of the executing contract with the Wasm that
    /// `wasm_hash` names, which has to be on the ledger already.
    ///
    /// Nothing happens at once: the executable is swapped only when the
    /// invocation has finished with success. Fails with `NotFound` if the
    /// executing contract or the Wasm is not on the ledger.
    pub fn update_current_contract_wasm(&mut self, wasm_hash: &Digest) -> (outcome: Result<
        (),
        DeployError,
    >)
        requires
            old(self).wf(),
        ensures
            final(self).wf(),
            outcome == old(self).state().update_wasm_outcome(wasm_hash@),
            final(self).state() == old(self).state().after_update_wasm(wasm_hash@),
    {
        self.env.update_current_contract_wasm(wasm_hash)
    }

    /// Extend the TTL of the contract instance and code.
    ///
    /// The instance entry and the code entry are judged each by itself: one
    /// whose TTL is below `threshold` gets the TTL `extend_to`, unless that
    /// would shorten it; one whose TTL is at or above `threshold` is left
    /// alone. Fails with `NotFound` if no contract lives at
    /// `contract_address`.
    pub fn extend_ttl(
        &mut self,
        contract_address: &Address,
        threshold: u32,
        extend_to: u32,
    ) -> (outcome: Result<(), DeployError>)
        requires
            old(self).wf(),
        ensures
            final(self).wf(),
            outcome == old(self).state().extend_ttl_outcome(contract_address@),
            final(self).state() == old(self).state().after_extend_ttl(
                contract_address@,
                threshold,
                extend_to,
            ),
    {
        self.env.extend_contract_instance_and_code_ttl(contract_address, threshold, extend_to)
    }
}

/// A deployer that deploys a contract whose address is derived from the
/// provided address and salt.
pub struct DeployerWithAddress {
    env: Env,
    address: Address,
    salt: Salt,
}

impl DeployerWithAddress {
    /// The environment is well formed.
    pub closed spec fn wf(&self) -> bool {
        self.env.wf()
    }

    /// The state of the environment this deployer is bound to.
    pub closed spec fn state(&self) -> EnvView {
        self.env@
    }

    /// The address that deploys.
    pub closed spec fn identity(&self) -> Seq<u8> {
        self.address@
    }

    /// The salt of the deployment.
    pub closed spec fn salt(&self) -> Seq<u8> {
        self.salt@
    }

    /// The environment this deployer is bound to.
    pub fn env(&self) -> (env: &Env)
        requires
            self.wf(),
        ensures
            env.wf(),
            env@ == self.state(),
    {
        &self.env
    }

    /// Gives back a deployer that is bound to the same environment.
    pub fn into_deployer(self) -> (deployer: Deployer)
        requires
            self.wf(),
        ensures
            deployer.wf(),
            deployer.state() == self.state(),
    {
        Deployer { env: self.env }
    }

    /// Return the address of the contract defined by the deployer.
    ///
    /// This function can be called at any time, before or after the contract
    /// is deployed, because contract addresses are deterministic.
    pub fn deployed_address(&self) -> (address: Address)
        ensures
            address@ == contract_id(self.identity(), self.salt()),
    {
        get_contract_id(&self.address, &self.salt)
    }

    /// Deploy a contract that uses the Wasm executable with the provided hash.
    ///
    /// The address of the deployed contract is defined by the deployer
    /// address and the salt. Returns the deployed contract's address, or
    /// `Unauthorized`, `AlreadyExists` or `NotFound`, in that order of
    /// precedence; a failed deployment changes nothing.
    pub fn deploy(&mut self, wasm_hash: &Digest) -> (outcome: Result<Address, DeployError>)
        requires
            old(self).wf(),
        ensures
            final(self).wf(),
            final(self).identity() == old(self).identity(),
            final(self).salt() == old(self).salt(),
            outcome_view(outcome) == old(self).state().create_contract_outcome(
                old(self).identity(),
                wasm_hash@,
                old(self).salt(),
            ),
            final(self).state() == old(self).state().after_create_contract(
                old(self).identity(),
                wasm_hash@,
                old(self).salt(),
            ),
    {
        self.env.create_contract(&self.address, wasm_hash, &self.salt)
    }
}

/// A deployer that deploys the asset contract of a serialized asset
/// descriptor.
pub struct DeployerWithAsset {
    env: Env,
    serialized_asset: Vec<u8>,
}

impl DeployerWithAsset {
    /// The environment is well formed.
    pub closed spec fn wf(&self) -> bool {
        self.env.wf()
    }

    /// The state of the environment this deployer is bound to.
    pub closed spec fn state(&self) -> EnvView {
        self.env@
    }

    /// The serialized asset descriptor.
    pub closed spec fn descriptor(&self) -> Seq<u8> {
        self.serialized_asset@
    }

    /// The environment this deployer is bound to.
    pub fn env(&self) -> (env: &Env)
        requires
            self.wf(),
        ensures
            env.wf(),
            env@ == self.state(),
    {
        &self.env
    }

    /// Gives back a deployer that is bound to the same environment.
    pub fn into_deployer(self) -> (deployer: Deployer)
        requires
            self.wf(),
        ensures
            deployer.wf(),
            deployer.state() == self.state(),
    {
        Deployer { env: self.env }
    }

    /// Return the address of the contract defined by the deployer.
    ///
    /// This function can be called at any time, before or after the contract
    /// is deployed, because contract addresses are deterministic.
    pub fn deployed_address(&self) -> (address: Address)
        ensures
            address@ == asset_contract_id(self.descriptor()),
    {
        get_asset_contract_id(self.serialized_asset.as_slice())
    }

    /// Deploy the asset contract. Returns its address, or `AlreadyExists` if
    /// a contract lives there; a failed deployment changes nothing.
    pub fn deploy(&mut self) -> (outcome: Result<Address, DeployError>)
        requires
            old(self).wf(),
        ensures
            final(self).wf(),
            final(self).descriptor() == old(self).descriptor(),
            outcome_view(outcome) == old(self).state().create_asset_contract_outcome(
                old(self).descriptor(),
            ),
            final(self).state() == old(self).state().after_create_asset_contract(
                old(self).descriptor(),
            ),
    {
        self.env.create_asset_contract(self.serialized_asset.as_slice())
    }
}

} // verus!
