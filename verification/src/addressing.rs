//! Address derivation: a pure function from a deployment key to an address.
//!
//! An address is the derivation input itself, led by one byte that names the
//! scheme. Addresses of the two schemes therefore never meet, and within a
//! scheme distinct keys give distinct addresses.

use vstd::prelude::*;
use crate::types::{Address, Salt, WORD_LEN};

verus! {

/// Leading byte of an address derived from a deployer identity and a salt.
pub const GENERIC_SCHEME: u8 = 0;

/// Leading byte of an address derived from an asset descriptor.
pub const ASSET_SCHEME: u8 = 1;

/// The address that the generic scheme gives to `(identity, salt)`.
pub open spec fn contract_id(identity: Seq<u8>, salt: Seq<u8>) -> Seq<u8> {
    seq![GENERIC_SCHEME] + identity + salt
}

/// The address that the asset scheme gives to a serialized asset descriptor.
pub open spec fn asset_contract_id(descriptor: Seq<u8>) -> Seq<u8> {
    seq![ASSET_SCHEME] + descriptor
}

/// What a deployment is keyed by. Each form carries only its own fields.
#[derive(Debug)]
pub enum DeploymentKey {
    /// The currently executing contract deploys, under the given salt.
    CurrentContract(Salt),
    /// The given address deploys, under the given salt.
    ExplicitAddress(Address, Salt),
    /// The built-in asset contract of the given serialized descriptor.
    Asset(Vec<u8>),
}

impl DeploymentKey {
    /// The address this key stands for when `current_contract` is executing.
    pub open spec fn address(self, current_contract: Seq<u8>) -> Seq<u8> {
        match self {
            DeploymentKey::CurrentContract(salt) => contract_id(current_contract, salt@),
            DeploymentKey::ExplicitAddress(identity, salt) => contract_id(identity@, salt@),
            DeploymentKey::Asset(descriptor) => asset_contract_id(descriptor@),
        }
    }

    /// Derives the address of this key. Nothing is read but the arguments and
    /// nothing is written.
    pub fn derive_address(&self, current_contract: &Address) -> (address: Address)
        ensures
            address@ == self.address(current_contract@),
    {
        match self {
            DeploymentKey::CurrentContract(salt) => get_contract_id(current_contract, salt),
            DeploymentKey::ExplicitAddress(identity, salt) => get_contract_id(identity, salt),
            DeploymentKey::Asset(descriptor) => get_asset_contract_id(descriptor.as_slice()),
        }
    }
}

/// The address of the contract that `identity` deploys under `salt`.
pub fn get_contract_id(identity: &Address, salt: &Salt) -> (address: Address)
    ensures
        address@ == contract_id(identity@, salt@),
{
    let mut bytes: Vec<u8> = Vec::new();
    bytes.push(GENERIC_SCHEME);
    bytes.extend_from_slice(identity.as_bytes());
    let ghost head = bytes@;
    bytes.extend_from_slice(salt.as_bytes());
    proof {
        assert(head =~= seq![GENERIC_SCHEME] + identity@);
        assert(bytes@ =~= contract_id(identity@, salt@));
    }
    Address::from_bytes(bytes)
}

/// The address of the asset contract of a serialized descriptor.
pub fn get_asset_contract_id(serialized_asset: &[u8]) -> (address: Address)
    ensures
        address@ == asset_contract_id(serialized_asset@),
{
    let mut bytes: Vec<u8> = Vec::new();
    bytes.push(ASSET_SCHEME);
    bytes.extend_from_slice(serialized_asset);
    proof {
        assert(bytes@ =~= asset_contract_id(serialized_asset@));
    }
    Address::from_bytes(bytes)
}

/// No address of the generic scheme is an address of the asset scheme,
/// whatever the identity, the salt and the descriptor are.
pub proof fn lemma_schemes_never_collide(identity: Seq<u8>, salt: Seq<u8>, descriptor: Seq<u8>)
    ensures
        contract_id(identity, salt) != asset_contract_id(descriptor),
{
    assert(contract_id(identity, salt)[0] == GENERIC_SCHEME);
    assert(asset_contract_id(descriptor)[0] == ASSET_SCHEME);
}

/// Two generic keys with salts of full length share an address only if they
/// are the same key.
pub proof fn lemma_contract_id_injective(
    identity_a: Seq<u8>,
    salt_a: Seq<u8>,
    identity_b: Seq<u8>,
    salt_b: Seq<u8>,
)
    requires
        salt_a.len() == WORD_LEN,
        salt_b.len() == WORD_LEN,
        contract_id(identity_a, salt_a) == contract_id(identity_b, salt_b),
    ensures
        identity_a == identity_b,
        salt_a == salt_b,
{
    let a = contract_id(identity_a, salt_a);
    let b = contract_id(identity_b, salt_b);
    assert(a.len() == 1 + identity_a.len() + 32);
    assert(b.len() == 1 + identity_b.len() + 32);
    assert(identity_a =~= a.subrange(1, 1 + identity_a.len() as int));
    assert(identity_b =~= b.subrange(1, 1 + identity_b.len() as int));
    assert(salt_a =~= a.subrange(1 + identity_a.len() as int, a.len() as int));
    assert(salt_b =~= b.subrange(1 + identity_b.len() as int, b.len() as int));
}

/// Deployments that differ in the deploying identity or in the salt are given
/// different addresses.
pub proof fn lemma_distinct_keys_distinct_addresses(
    identity_a: Seq<u8>,
    salt_a: Salt,
    identity_b: Seq<u8>,
    salt_b: Salt,
)
    requires
        identity_a != identity_b || salt_a@ != salt_b@,
    ensures
        contract_id(identity_a, salt_a@) != contract_id(identity_b, salt_b@),
{
    salt_a.lemma_len();
    salt_b.lemma_len();
    if contract_id(identity_a, salt_a@) == contract_id(identity_b, salt_b@) {
        lemma_contract_id_injective(identity_a, salt_a@, identity_b, salt_b@);
    }
}

/// Two asset descriptors share an address only if they are the same.
pub proof fn lemma_asset_contract_id_injective(descriptor_a: Seq<u8>, descriptor_b: Seq<u8>)
    requires
        asset_contract_id(descriptor_a) == asset_contract_id(descriptor_b),
    ensures
        descriptor_a == descriptor_b,
{
    let a = asset_contract_id(descriptor_a);
    let b = asset_contract_id(descriptor_b);
    assert(descriptor_a =~= a.subrange(1, a.len() as int));
    assert(descriptor_b =~= b.subrange(1, b.len() as int));
}

/// A key of the asset form never derives the address of a key of another
/// form, whichever contract is executing.
pub proof fn lemma_asset_key_is_apart(
    generic: DeploymentKey,
    asset: DeploymentKey,
    current_contract: Seq<u8>,
)
    requires
        !(generic is Asset),
        asset is Asset,
    ensures
        generic.address(current_contract) != asset.address(current_contract),
{
    match generic {
        DeploymentKey::CurrentContract(salt) => {
            lemma_schemes_never_collide(current_contract, salt@, asset->Asset_0@);
        },
        DeploymentKey::ExplicitAddress(identity, salt) => {
            lemma_schemes_never_collide(identity@, salt@, asset->Asset_0@);
        },
        DeploymentKey::Asset(_) => {},
    }
}

} // verus!
