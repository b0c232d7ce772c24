//! What holds of every environment, stated over the model that the contracts
//! of the executable functions speak of.

use vstd::prelude::*;
use crate::addressing::{asset_contract_id, contract_id};
use crate::hash::sha256;
use crate::model::{extended_ttl, EnvView, ExecutableView};
use crate::types::DeployError;

verus! {

/// The address that a generic deployment reports on success is
/// the address derived from its identity and salt, which depends on nothing
/// else: it is the same before the deployment and after it, and the contract
/// then lives there.
pub proof fn lemma_deploy_keeps_previewed_address(
    env: EnvView,
    identity: Seq<u8>,
    digest: Seq<u8>,
    salt: Seq<u8>,
)
    requires
        env.create_contract_outcome(identity, digest, salt) is Ok,
    ensures
        env.create_contract_outcome(identity, digest, salt) == Ok::<Seq<u8>, DeployError>(
            contract_id(identity, salt),
        ),
        env.after_create_contract(identity, digest, salt).ledger.instances.contains_key(
            contract_id(identity, salt),
        ),
        env.after_create_contract(identity, digest, salt).ledger.instances[contract_id(
            identity,
            salt,
        )].executable == ExecutableView::Wasm(digest),
{
}

/// In the asset scheme too, a successful deployment reports the
/// address derived from the descriptor, and the asset contract then lives
/// there.
pub proof fn lemma_asset_deploy_keeps_previewed_address(env: EnvView, descriptor: Seq<u8>)
    requires
        env.create_asset_contract_outcome(descriptor) is Ok,
    ensures
        env.create_asset_contract_outcome(descriptor) == Ok::<Seq<u8>, DeployError>(
            asset_contract_id(descriptor),
        ),
        env.after_create_asset_contract(descriptor).ledger.instances.contains_key(
            asset_contract_id(descriptor),
        ),
        env.after_create_asset_contract(descriptor).ledger.instances[asset_contract_id(
            descriptor,
        )].executable == ExecutableView::HcnetAsset,
{
}

/// Equal bytes have equal digests, and uploading them a
/// second time leaves the environment as the first upload left it.
pub proof fn lemma_upload_is_idempotent(env: EnvView, wasm: Seq<u8>, again: Seq<u8>)
    requires
        again == wasm,
    ensures
        sha256(again) == sha256(wasm),
        env.after_upload(sha256(wasm), wasm).after_upload(sha256(again), again)
            == env.after_upload(sha256(wasm), wasm),
        env.after_upload(sha256(wasm), wasm).ledger.codes.contains_key(sha256(wasm)),
{
}

/// An upload never touches code that is already registered, and touches no
/// instance.
pub proof fn lemma_upload_keeps_entries(
    env: EnvView,
    digest: Seq<u8>,
    wasm: Seq<u8>,
    other: Seq<u8>,
)
    requires
        env.ledger.codes.contains_key(other),
    ensures
        env.after_upload(digest, wasm).ledger.codes.contains_key(other),
        env.after_upload(digest, wasm).ledger.codes[other] == env.ledger.codes[other],
        env.after_upload(digest, wasm).ledger.instances == env.ledger.instances,
{
}

/// A deployment succeeds exactly when the identity may
/// deploy, the address is free and the code is registered; once it has
/// succeeded, a deployment with the same identity and salt fails with
/// `AlreadyExists`, whatever code it names.
pub proof fn lemma_single_allocation(
    env: EnvView,
    identity: Seq<u8>,
    salt: Seq<u8>,
    first_digest: Seq<u8>,
    second_digest: Seq<u8>,
)
    ensures
        env.create_contract_outcome(identity, first_digest, salt) is Ok <==> (env.authorizes(
            identity,
        ) && !env.ledger.instances.contains_key(contract_id(identity, salt))
            && env.ledger.codes.contains_key(first_digest)),
        env.create_contract_outcome(identity, first_digest, salt) is Ok
            ==> env.after_create_contract(identity, first_digest, salt).create_contract_outcome(
            identity,
            second_digest,
            salt,
        ) == Err::<Seq<u8>, DeployError>(DeployError::AlreadyExists),
{
}

/// In the asset scheme, the first deployment of a
/// descriptor succeeds exactly when the address is free, and the second then
/// fails with `AlreadyExists`.
pub proof fn lemma_single_asset_allocation(env: EnvView, descriptor: Seq<u8>)
    ensures
        env.create_asset_contract_outcome(descriptor) is Ok <==> !env.ledger.instances.contains_key(
            asset_contract_id(descriptor),
        ),
        env.create_asset_contract_outcome(descriptor) is Ok ==> env.after_create_asset_contract(
            descriptor,
        ).create_asset_contract_outcome(descriptor) == Err::<Seq<u8>, DeployError>(
            DeployError::AlreadyExists,
        ),
{
}

/// A failed deployment writes nothing.
pub proof fn lemma_failed_deploy_changes_nothing(
    env: EnvView,
    identity: Seq<u8>,
    digest: Seq<u8>,
    salt: Seq<u8>,
    descriptor: Seq<u8>,
)
    ensures
        env.create_contract_outcome(identity, digest, salt) is Err ==> env.after_create_contract(
            identity,
            digest,
            salt,
        ) == env,
        env.create_asset_contract_outcome(descriptor) is Err ==> env.after_create_asset_contract(
            descriptor,
        ) == env,
{
}

/// Allocation is one-way within an invocation: a contract that lives at an
/// address still lives there after any request and after a successful end of
/// the invocation.
pub proof fn lemma_allocation_is_permanent(
    env: EnvView,
    address: Seq<u8>,
    identity: Seq<u8>,
    digest: Seq<u8>,
    salt: Seq<u8>,
    wasm: Seq<u8>,
    descriptor: Seq<u8>,
    target: Seq<u8>,
    threshold: u32,
    extend_to: u32,
)
    requires
        env.ledger.instances.contains_key(address),
    ensures
        env.after_upload(digest, wasm).ledger.instances.contains_key(address),
        env.after_create_contract(identity, digest, salt).ledger.instances.contains_key(address),
        env.after_create_asset_contract(descriptor).ledger.instances.contains_key(address),
        env.after_update_wasm(digest).ledger.instances.contains_key(address),
        env.after_extend_ttl(target, threshold, extend_to).ledger.instances.contains_key(address),
        env.after_complete().ledger.instances.contains_key(address),
{
}

/// An entry at or above the threshold keeps its TTL; one
/// below it gets exactly `extend_to`, provided that does not shorten it; and
/// no request ever shortens a TTL.
pub proof fn lemma_extended_ttl(ttl: u32, threshold: u32, extend_to: u32)
    ensures
        ttl >= threshold ==> extended_ttl(ttl, threshold, extend_to) == ttl,
        ttl < threshold && extend_to >= ttl ==> extended_ttl(ttl, threshold, extend_to)
            == extend_to,
        extended_ttl(ttl, threshold, extend_to) >= ttl,
        extended_ttl(ttl, threshold, extend_to) == ttl || extended_ttl(ttl, threshold, extend_to)
            == extend_to,
{
}

/// An extension request for a contract on the ledger extends its instance
/// entry and its code entry, each by its own TTL, and leaves every other
/// entry as it was.
pub proof fn lemma_extend_ttl_entries(
    env: EnvView,
    address: Seq<u8>,
    threshold: u32,
    extend_to: u32,
    other_address: Seq<u8>,
    other_digest: Seq<u8>,
)
    requires
        env.ledger.instances.contains_key(address),
    ensures
        ({
            let after = env.after_extend_ttl(address, threshold, extend_to).ledger;
            let instance = env.ledger.instances[address];
            &&& after.instances.dom() == env.ledger.instances.dom()
            &&& after.codes.dom() == env.ledger.codes.dom()
            &&& after.instances[address].ttl == extended_ttl(instance.ttl, threshold, extend_to)
            &&& after.instances[address].executable == instance.executable
            &&& other_address != address ==> after.instances[other_address]
                == env.ledger.instances[other_address]
            &&& instance.executable == ExecutableView::Wasm(other_digest)
                && env.ledger.codes.contains_key(other_digest) ==> {
                &&& after.codes[other_digest].ttl == extended_ttl(
                    env.ledger.codes[other_digest].ttl,
                    threshold,
                    extend_to,
                )
                &&& after.codes[other_digest].wasm == env.ledger.codes[other_digest].wasm
            }
            &&& instance.executable != ExecutableView::Wasm(other_digest)
                ==> after.codes[other_digest] == env.ledger.codes[other_digest]
        }),
{
    let after = env.after_extend_ttl(address, threshold, extend_to).ledger;
    assert(after.instances.dom() =~= env.ledger.instances.dom());
    assert(after.codes.dom() =~= env.ledger.codes.dom());
}

/// After a code swap was asked for, the executing contract
/// still runs what it ran before, and so does every other contract; the
/// swap takes place when the invocation ends with success, and never if it
/// ends with failure.
pub proof fn lemma_swap_is_deferred(env: EnvView, digest: Seq<u8>)
    requires
        env.update_wasm_outcome(digest) is Ok,
    ensures
        ({
            let current = env.current_contract;
            let asked = env.after_update_wasm(digest);
            &&& asked.ledger.codes == env.ledger.codes
            &&& asked.ledger.instances.dom() == env.ledger.instances.dom()
            &&& forall|address: Seq<u8>|
                env.ledger.instances.contains_key(address)
                    ==> (#[trigger] asked.ledger.instances[address]).executable
                    == env.ledger.instances[address].executable
            &&& asked.after_complete().ledger.instances[current].executable
                == ExecutableView::Wasm(digest)
            &&& asked.after_complete().ledger.instances[current].pending_wasm is None
            &&& asked.after_abort().ledger == env.committed
        }),
{
    let asked = env.after_update_wasm(digest);
    assert(asked.ledger.instances.dom() =~= env.ledger.instances.dom());
}

/// A failed request for a code swap notes nothing down.
pub proof fn lemma_failed_swap_changes_nothing(env: EnvView, digest: Seq<u8>)
    requires
        env.update_wasm_outcome(digest) is Err,
    ensures
        env.after_update_wasm(digest) == env,
        env.update_wasm_outcome(digest) == Err::<(), DeployError>(DeployError::NotFound),
{
}

/// Ending an invocation twice is ending it once: after a successful end no
/// swap is outstanding, and a failure right after it rolls nothing back.
pub proof fn lemma_complete_leaves_nothing_outstanding(env: EnvView)
    ensures
        env.after_complete().after_complete() == env.after_complete(),
        env.after_complete().after_abort() == env.after_complete(),
{
    let once = env.after_complete();
    assert(once.ledger.settled().instances =~= once.ledger.instances);
}

} // verus!
