//! The mathematical model of the ledger and of the requests made against it.
//!
//! Every executable operation of the crate is specified as a pair of spec
//! functions on these values: the outcome it reports, and the state it leaves.

use vstd::prelude::*;
use crate::addressing::{asset_contract_id, contract_id};
use crate::types::DeployError;

verus! {

/// What runs at an address: uploaded code named by its digest, or the
/// built-in asset contract.
pub ghost enum ExecutableView {
    Wasm(Seq<u8>),
    HcnetAsset,
}

/// One uploaded code blob and its remaining lifetime.
pub ghost struct CodeRecord {
    pub wasm: Seq<u8>,
    pub ttl: u32,
}

/// One contract instance: what it runs, its remaining lifetime, and the code
/// it has asked to run from the next invocation on.
pub ghost struct InstanceRecord {
    pub executable: ExecutableView,
    pub ttl: u32,
    pub pending_wasm: Option<Seq<u8>>,
}

/// The lifetime of an entry after an extension request: raised to `extend_to`
/// when it was below `threshold`, and never lowered.
pub open spec fn extended_ttl(ttl: u32, threshold: u32, extend_to: u32) -> u32 {
    if ttl < threshold && ttl < extend_to {
        extend_to
    } else {
        ttl
    }
}

impl CodeRecord {
    /// This record after an extension request.
    pub open spec fn extended(self, threshold: u32, extend_to: u32) -> CodeRecord {
        CodeRecord { wasm: self.wasm, ttl: extended_ttl(self.ttl, threshold, extend_to) }
    }
}

impl InstanceRecord {
    /// A fresh instance.
    pub open spec fn fresh(executable: ExecutableView, ttl: u32) -> InstanceRecord {
        InstanceRecord { executable, ttl, pending_wasm: None }
    }

    /// This record after an extension request.
    pub open spec fn extended(self, threshold: u32, extend_to: u32) -> InstanceRecord {
        InstanceRecord {
            executable: self.executable,
            ttl: extended_ttl(self.ttl, threshold, extend_to),
            pending_wasm: self.pending_wasm,
        }
    }

    /// This record with a code swap asked for.
    pub open spec fn with_pending(self, digest: Seq<u8>) -> InstanceRecord {
        InstanceRecord { executable: self.executable, ttl: self.ttl, pending_wasm: Some(digest) }
    }

    /// This record once its invocation has succeeded: the swap that was asked
    /// for, if any, has taken place.
    pub open spec fn settled(self) -> InstanceRecord {
        match self.pending_wasm {
            Some(digest) => InstanceRecord {
                executable: ExecutableView::Wasm(digest),
                ttl: self.ttl,
                pending_wasm: None,
            },
            None => self,
        }
    }
}

/// Code by digest and instances by address.
pub ghost struct LedgerView {
    pub codes: Map<Seq<u8>, CodeRecord>,
    pub instances: Map<Seq<u8>, InstanceRecord>,
}

impl LedgerView {
    /// The ledger that holds nothing.
    pub open spec fn empty() -> LedgerView {
        LedgerView { codes: Map::empty(), instances: Map::empty() }
    }

    /// The ledger after `wasm` was uploaded under `digest`: a digest that is
    /// already there keeps its entry.
    pub open spec fn with_code(self, digest: Seq<u8>, wasm: Seq<u8>, ttl: u32) -> LedgerView {
        if self.codes.contains_key(digest) {
            self
        } else {
            LedgerView {
                codes: self.codes.insert(digest, CodeRecord { wasm, ttl }),
                instances: self.instances,
            }
        }
    }

    /// The ledger with a fresh instance at `address`.
    pub open spec fn with_instance(
        self,
        address: Seq<u8>,
        executable: ExecutableView,
        ttl: u32,
    ) -> LedgerView {
        LedgerView {
            codes: self.codes,
            instances: self.instances.insert(address, InstanceRecord::fresh(executable, ttl)),
        }
    }

    /// The ledger after an extension request for the contract at `address`,
    /// which must be there: its instance entry and, where it runs uploaded
    /// code that is on the ledger, its code entry are extended, each by its
    /// own lifetime.
    pub open spec fn with_extended_ttl(
        self,
        address: Seq<u8>,
        threshold: u32,
        extend_to: u32,
    ) -> LedgerView {
        let instance = self.instances[address];
        LedgerView {
            codes: match instance.executable {
                ExecutableView::Wasm(digest) => if self.codes.contains_key(digest) {
                    self.codes.insert(digest, self.codes[digest].extended(threshold, extend_to))
                } else {
                    self.codes
                },
                ExecutableView::HcnetAsset => self.codes,
            },
            instances: self.instances.insert(address, instance.extended(threshold, extend_to)),
        }
    }

    /// The ledger with a code swap asked for by the contract at `address`,
    /// which must be there.
    pub open spec fn with_pending_wasm(self, address: Seq<u8>, digest: Seq<u8>) -> LedgerView {
        LedgerView {
            codes: self.codes,
            instances: self.instances.insert(
                address,
                self.instances[address].with_pending(digest),
            ),
        }
    }

    /// The ledger once the invocation has succeeded.
    pub open spec fn settled(self) -> LedgerView {
        LedgerView {
            codes: self.codes,
            instances: self.instances.map_values(|record: InstanceRecord| record.settled()),
        }
    }
}

/// An execution environment: who is executing, who has authorized the present
/// invocation, the lifetime given to new entries, the ledger as the invocation
/// sees it, and the ledger as it was when the invocation began.
pub ghost struct EnvView {
    pub current_contract: Seq<u8>,
    pub authorized: Set<Seq<u8>>,
    pub entry_ttl: u32,
    pub ledger: LedgerView,
    pub committed: LedgerView,
}

impl EnvView {
    /// This environment with another working ledger.
    pub open spec fn with_ledger(self, ledger: LedgerView) -> EnvView {
        EnvView {
            current_contract: self.current_contract,
            authorized: self.authorized,
            entry_ttl: self.entry_ttl,
            ledger,
            committed: self.committed,
        }
    }

    /// Whether `identity` may deploy in the present invocation: the executing
    /// contract always may, any other address only if it has authorized.
    pub open spec fn authorizes(self, identity: Seq<u8>) -> bool {
        identity == self.current_contract || self.authorized.contains(identity)
    }

    /// The state after `wasm` was uploaded under `digest`.
    pub open spec fn after_upload(self, digest: Seq<u8>, wasm: Seq<u8>) -> EnvView {
        self.with_ledger(self.ledger.with_code(digest, wasm, self.entry_ttl))
    }

    /// What a request to create the contract of `(identity, salt)` with the
    /// code `digest` reports.
    pub open spec fn create_contract_outcome(
        self,
        identity: Seq<u8>,
        digest: Seq<u8>,
        salt: Seq<u8>,
    ) -> Result<Seq<u8>, DeployError> {
        let address = contract_id(identity, salt);
        if !self.authorizes(identity) {
            Err(DeployError::Unauthorized)
        } else if self.ledger.instances.contains_key(address) {
            Err(DeployError::AlreadyExists)
        } else if !self.ledger.codes.contains_key(digest) {
            Err(DeployError::NotFound)
        } else {
            Ok(address)
        }
    }

    /// The state after that request: changed only where it succeeded.
    pub open spec fn after_create_contract(
        self,
        identity: Seq<u8>,
        digest: Seq<u8>,
        salt: Seq<u8>,
    ) -> EnvView {
        match self.create_contract_outcome(identity, digest, salt) {
            Ok(address) => self.with_ledger(
                self.ledger.with_instance(address, ExecutableView::Wasm(digest), self.entry_ttl),
            ),
            Err(_) => self,
        }
    }

    /// What a request to create the asset contract of `descriptor` reports.
    pub open spec fn create_asset_contract_outcome(self, descriptor: Seq<u8>) -> Result<
        Seq<u8>,
        DeployError,
    > {
        let address = asset_contract_id(descriptor);
        if self.ledger.instances.contains_key(address) {
            Err(DeployError::AlreadyExists)
        } else {
            Ok(address)
        }
    }

    /// The state after that request: changed only where it succeeded.
    pub open spec fn after_create_asset_contract(self, descriptor: Seq<u8>) -> EnvView {
        match self.create_asset_contract_outcome(descriptor) {
            Ok(address) => self.with_ledger(
                self.ledger.with_instance(address, ExecutableView::HcnetAsset, self.entry_ttl),
            ),
            Err(_) => self,
        }
    }

    /// What a request to swap the executing contract's code to `digest`
    /// reports.
    pub open spec fn update_wasm_outcome(self, digest: Seq<u8>) -> Result<(), DeployError> {
        if self.ledger.instances.contains_key(self.current_contract)
            && self.ledger.codes.contains_key(digest) {
            Ok(())
        } else {
            Err(DeployError::NotFound)
        }
    }

    /// The state after that request: where it succeeded the swap is noted
    /// down, and nothing else changes.
    pub open spec fn after_update_wasm(self, digest: Seq<u8>) -> EnvView {
        match self.update_wasm_outcome(digest) {
            Ok(_) => self.with_ledger(
                self.ledger.with_pending_wasm(self.current_contract, digest),
            ),
            Err(_) => self,
        }
    }

    /// What a request to extend the lifetime of the contract at `address`
    /// reports.
    pub open spec fn extend_ttl_outcome(self, address: Seq<u8>) -> Result<(), DeployError> {
        if self.ledger.instances.contains_key(address) {
            Ok(())
        } else {
            Err(DeployError::NotFound)
        }
    }

    /// The state after that request.
    pub open spec fn after_extend_ttl(
        self,
        address: Seq<u8>,
        threshold: u32,
        extend_to: u32,
    ) -> EnvView {
        match self.extend_ttl_outcome(address) {
            Ok(_) => self.with_ledger(self.ledger.with_extended_ttl(address, threshold, extend_to)),
            Err(_) => self,
        }
    }

    /// The state after `identity` has authorized the present invocation.
    pub open spec fn after_authorize(self, identity: Seq<u8>) -> EnvView {
        EnvView {
            current_contract: self.current_contract,
            authorized: self.authorized.insert(identity),
            entry_ttl: self.entry_ttl,
            ledger: self.ledger,
            committed: self.committed,
        }
    }

    /// The state in which `contract` executes.
    pub open spec fn after_enter(self, contract: Seq<u8>) -> EnvView {
        EnvView {
            current_contract: contract,
            authorized: self.authorized,
            entry_ttl: self.entry_ttl,
            ledger: self.ledger,
            committed: self.committed,
        }
    }

    /// The state after the invocation has succeeded: what it wrote stays, the
    /// swaps it asked for take place, and its authorizations are spent.
    pub open spec fn after_complete(self) -> EnvView {
        EnvView {
            current_contract: self.current_contract,
            authorized: Set::empty(),
            entry_ttl: self.entry_ttl,
            ledger: self.ledger.settled(),
            committed: self.ledger.settled(),
        }
    }

    /// The state after the invocation has failed: the ledger is as it was when
    /// the invocation began, and its authorizations are spent.
    pub open spec fn after_abort(self) -> EnvView {
        EnvView {
            current_contract: self.current_contract,
            authorized: Set::empty(),
            entry_ttl: self.entry_ttl,
            ledger: self.committed,
            committed: self.committed,
        }
    }
}

} // verus!
