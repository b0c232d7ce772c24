//! The ledger in memory: uploaded code by digest and contract instances by
//! address, each kept in a list in which no key occurs twice.

use vstd::prelude::*;
use vstd::slice::slice_to_vec;
use crate::assoc::{
    has_key, keys_distinct, lemma_to_map_at, lemma_to_map_empty, lemma_to_map_push,
    lemma_to_map_update, lemma_to_map_values, map_pair_values, to_map,
};
use crate::model::{extended_ttl, CodeRecord, ExecutableView, InstanceRecord, LedgerView};
use crate::types::{Address, Digest};

verus! {

/// What runs at an address.
#[derive(Clone, Copy, Debug, PartialEq, Eq)]
pub enum Executable {
    /// Uploaded code, named by its digest.
    Wasm(Digest),
    /// The built-in asset contract.
    HcnetAsset,
}

impl View for Executable {
    type V = ExecutableView;

    open spec fn view(&self) -> ExecutableView {
        match self {
            Executable::Wasm(digest) => ExecutableView::Wasm(digest@),
            Executable::HcnetAsset => ExecutableView::HcnetAsset,
        }
    }
}

struct CodeEntry {
    digest: Digest,
    wasm: Vec<u8>,
    ttl: u32,
}

impl CodeEntry {
    spec fn pair(self) -> (Seq<u8>, CodeRecord) {
        (self.digest@, CodeRecord { wasm: self.wasm@, ttl: self.ttl })
    }
}

struct InstanceEntry {
    address: Address,
    executable: Executable,
    ttl: u32,
    pending_wasm: Option<Digest>,
}

spec fn digest_view(digest: Option<Digest>) -> Option<Seq<u8>> {
    match digest {
        Some(digest) => Some(digest@),
        None => None,
    }
}

impl InstanceEntry {
    spec fn pair(self) -> (Seq<u8>, InstanceRecord) {
        (
            self.address@,
            InstanceRecord {
                executable: self.executable@,
                ttl: self.ttl,
                pending_wasm: digest_view(self.pending_wasm),
            },
        )
    }
}

spec fn code_pairs(entries: Seq<CodeEntry>) -> Seq<(Seq<u8>, CodeRecord)> {
    Seq::new(entries.len(), |i: int| entries[i].pair())
}

spec fn instance_pairs(entries: Seq<InstanceEntry>) -> Seq<(Seq<u8>, InstanceRecord)> {
    Seq::new(entries.len(), |i: int| entries[i].pair())
}

/// The lifetime of an entry after an extension request.
pub fn raised_ttl(ttl: u32, threshold: u32, extend_to: u32) -> (raised: u32)
    ensures
        raised == extended_ttl(ttl, threshold, extend_to),
{
    if ttl < threshold && ttl < extend_to {
        extend_to
    } else {
        ttl
    }
}

/// Uploaded code and contract instances.
pub struct Ledger {
    codes: Vec<CodeEntry>,
    instances: Vec<InstanceEntry>,
}

impl View for Ledger {
    type V = LedgerView;

    closed spec fn view(&self) -> LedgerView {
        LedgerView {
            codes: to_map(code_pairs(self.codes@)),
            instances: to_map(instance_pairs(self.instances@)),
        }
    }
}

impl Ledger {
    /// No digest and no address is listed twice.
    pub closed spec fn wf(&self) -> bool {
        &&& keys_distinct(code_pairs(self.codes@))
        &&& keys_distinct(instance_pairs(self.instances@))
    }

    /// A ledger that holds nothing.
    pub fn new() -> (ledger: Ledger)
        ensures
            ledger.wf(),
            ledger@ == LedgerView::empty(),
    {
        let ledger = Ledger { codes: Vec::new(), instances: Vec::new() };
        proof {
            lemma_to_map_empty::<Seq<u8>, CodeRecord>();
            lemma_to_map_empty::<Seq<u8>, InstanceRecord>();
            assert(code_pairs(ledger.codes@) =~= Seq::empty());
            assert(instance_pairs(ledger.instances@) =~= Seq::empty());
        }
        ledger
    }

    fn find_code(&self, digest: &Digest) -> (found: Option<usize>)
        requires
            self.wf(),
        ensures
            match found {
                Some(i) => i < self.codes@.len() && self.codes@[i as int].digest@ == digest@
                    && self@.codes.contains_key(digest@) && self@.codes[digest@]
                    == self.codes@[i as int].pair().1,
                None => !self@.codes.contains_key(digest@) && !has_key(
                    code_pairs(self.codes@),
                    digest@,
                ),
            },
    {
        let ghost pairs = code_pairs(self.codes@);
        let mut i: usize = 0;
        while i < self.codes.len()
            invariant
                self.wf(),
                pairs == code_pairs(self.codes@),
                i <= self.codes@.len(),
                forall|j: int| 0 <= j < i ==> (#[trigger] pairs[j]).0 != digest@,
            decreases self.codes@.len() - i,
        {
            if self.codes[i].digest.same_as(digest) {
                proof {
                    lemma_to_map_at(pairs, i as int);
                }
                return Some(i);
            }
            i += 1;
        }
        None
    }

    fn find_instance(&self, address: &Address) -> (found: Option<usize>)
        requires
            self.wf(),
        ensures
            match found {
                Some(i) => i < self.instances@.len() && self.instances@[i as int].address@
                    == address@ && self@.instances.contains_key(address@)
                    && self@.instances[address@] == self.instances@[i as int].pair().1,
                None => !self@.instances.contains_key(address@) && !has_key(
                    instance_pairs(self.instances@),
                    address@,
                ),
            },
    {
        let ghost pairs = instance_pairs(self.instances@);
        let mut i: usize = 0;
        while i < self.instances.len()
            invariant
                self.wf(),
                pairs == instance_pairs(self.instances@),
                i <= self.instances@.len(),
                forall|j: int| 0 <= j < i ==> (#[trigger] pairs[j]).0 != address@,
            decreases self.instances@.len() - i,
        {
            if self.instances[i].address.same_as(address) {
                proof {
                    lemma_to_map_at(pairs, i as int);
                }
                return Some(i);
            }
            i += 1;
        }
        None
    }

    /// Takes `wasm` in under `digest`, with the lifetime `ttl`. Code that is
    /// already held under `digest` stays as it is, so nothing is stored twice.
    pub fn insert_code(&mut self, digest: Digest, wasm: &[u8], ttl: u32)
        requires
            old(self).wf(),
        ensures
            final(self).wf(),
            final(self)@ == old(self)@.with_code(digest@, wasm@, ttl),
    {
        if self.find_code(&digest).is_none() {
            let entry = CodeEntry { digest, wasm: slice_to_vec(wasm), ttl };
            proof {
                lemma_to_map_push(code_pairs(self.codes@), entry.pair().0, entry.pair().1);
                assert(code_pairs(self.codes@.push(entry)) =~= code_pairs(self.codes@).push(
                    entry.pair(),
                ));
            }
            self.codes.push(entry);
        }
    }

    /// Creates a fresh instance at `address`. Reports whether it did: where a
    /// contract lives there already, nothing changes.
    pub fn insert_instance(
        &mut self,
        address: Address,
        executable: Executable,
        ttl: u32,
    ) -> (created: bool)
        requires
            old(self).wf(),
        ensures
            final(self).wf(),
            created == !old(self)@.instances.contains_key(address@),
            final(self)@ == if created {
                old(self)@.with_instance(address@, executable@, ttl)
            } else {
                old(self)@
            },
    {
        if self.find_instance(&address).is_some() {
            return false;
        }
        let entry = InstanceEntry { address, executable, ttl, pending_wasm: None };
        proof {
            lemma_to_map_push(instance_pairs(self.instances@), entry.pair().0, entry.pair().1);
            assert(instance_pairs(self.instances@.push(entry)) =~= instance_pairs(
                self.instances@,
            ).push(entry.pair()));
        }
        self.instances.push(entry);
        true
    }

    /// Extends the lifetime of the contract at `address`: of its instance
    /// entry and of its code entry, each judged by its own lifetime. Reports
    /// whether a contract lives there; if none does, nothing changes.
    pub fn extend_ttl(&mut self, address: &Address, threshold: u32, extend_to: u32) -> (found:
        bool)
        requires
            old(self).wf(),
        ensures
            final(self).wf(),
            found == old(self)@.instances.contains_key(address@),
            final(self)@ == if found {
                old(self)@.with_extended_ttl(address@, threshold, extend_to)
            } else {
                old(self)@
            },
    {
        match self.find_instance(address) {
            None => false,
            Some(i) => {
                let executable = self.instances[i].executable;
                proof {
                    lemma_to_map_update(
                        instance_pairs(self.instances@),
                        i as int,
                        self.instances@[i as int].pair().1.extended(threshold, extend_to),
                    );
                }
                let ghost before = self.instances@;
                self.instances[i].ttl = raised_ttl(self.instances[i].ttl, threshold, extend_to);
                proof {
                    assert(instance_pairs(self.instances@) =~= instance_pairs(before).update(
                        i as int,
                        (
                            before[i as int].pair().0,
                            before[i as int].pair().1.extended(threshold, extend_to),
                        ),
                    ));
                }
                if let Executable::Wasm(digest) = executable {
                    if let Some(c) = self.find_code(&digest) {
                        proof {
                            lemma_to_map_update(
                                code_pairs(self.codes@),
                                c as int,
                                self.codes@[c as int].pair().1.extended(threshold, extend_to),
                            );
                        }
                        let ghost codes_before = self.codes@;
                        self.codes[c].ttl = raised_ttl(self.codes[c].ttl, threshold, extend_to);
                        proof {
                            assert(code_pairs(self.codes@) =~= code_pairs(codes_before).update(
                                c as int,
                                (
                                    codes_before[c as int].pair().0,
                                    codes_before[c as int].pair().1.extended(threshold, extend_to),
                                ),
                            ));
                        }
                    }
                }
                true
            },
        }
    }

    /// Notes down that the contract at `address` asks to run the code
    /// `digest` from the next invocation on. Reports whether a contract lives
    /// there; if none does, nothing changes.
    pub fn set_pending_wasm(&mut self, address: &Address, digest: Digest) -> (found: bool)
        requires
            old(self).wf(),
        ensures
            final(self).wf(),
            found == old(self)@.instances.contains_key(address@),
            final(self)@ == if found {
                old(self)@.with_pending_wasm(address@, digest@)
            } else {
                old(self)@
            },
    {
        match self.find_instance(address) {
            None => false,
            Some(i) => {
                proof {
                    lemma_to_map_update(
                        instance_pairs(self.instances@),
                        i as int,
                        self.instances@[i as int].pair().1.with_pending(digest@),
                    );
                }
                let ghost before = self.instances@;
                self.instances[i].pending_wasm = Some(digest);
                proof {
                    assert(instance_pairs(self.instances@) =~= instance_pairs(before).update(
                        i as int,
                        (
                            before[i as int].pair().0,
                            before[i as int].pair().1.with_pending(digest@),
                        ),
                    ));
                }
                true
            },
        }
    }

    /// Ends a successful invocation: every code swap that was asked for takes
    /// place.
    pub fn settle(&mut self)
        requires
            old(self).wf(),
        ensures
            final(self).wf(),
            final(self)@ == old(self)@.settled(),
    {
        let ghost before = instance_pairs(self.instances@);
        let ghost codes = self.codes@;
        let ghost settle = |record: InstanceRecord| record.settled();
        let mut i: usize = 0;
        while i < self.instances.len()
            invariant
                self.codes@ == codes,
                self.instances@.len() == before.len(),
                i <= before.len(),
                forall|j: int|
                    0 <= j < i ==> (#[trigger] self.instances@[j]).pair() == (
                        before[j].0,
                        before[j].1.settled(),
                    ),
                forall|j: int|
                    i <= j < before.len() ==> (#[trigger] self.instances@[j]).pair() == before[j],
            decreases before.len() - i,
        {
            if let Some(digest) = self.instances[i].pending_wasm {
                self.instances[i].executable = Executable::Wasm(digest);
                self.instances[i].pending_wasm = None;
            }
            i += 1;
        }
        proof {
            lemma_to_map_values(before, settle);
            assert(instance_pairs(self.instances@) =~= map_pair_values(before, settle));
        }
    }

    /// A copy of this ledger.
    pub fn snapshot(&self) -> (copy: Ledger)
        requires
            self.wf(),
        ensures
            copy.wf(),
            copy@ == self@,
    {
        let mut codes: Vec<CodeEntry> = Vec::new();
        let mut i: usize = 0;
        while i < self.codes.len()
            invariant
                i <= self.codes@.len(),
                codes@.len() == i,
                forall|j: int|
                    0 <= j < i ==> (#[trigger] codes@[j]).pair() == self.codes@[j].pair(),
            decreases self.codes@.len() - i,
        {
            let entry = &self.codes[i];
            codes.push(
                CodeEntry {
                    digest: entry.digest,
                    wasm: slice_to_vec(entry.wasm.as_slice()),
                    ttl: entry.ttl,
                },
            );
            i += 1;
        }
        let mut instances: Vec<InstanceEntry> = Vec::new();
        let mut k: usize = 0;
        while k < self.instances.len()
            invariant
                k <= self.instances@.len(),
                instances@.len() == k,
                forall|j: int|
                    0 <= j < k ==> (#[trigger] instances@[j]).pair() == self.instances@[j].pair(),
            decreases self.instances@.len() - k,
        {
            let entry = &self.instances[k];
            instances.push(
                InstanceEntry {
                    address: entry.address.clone(),
                    executable: entry.executable,
                    ttl: entry.ttl,
                    pending_wasm: entry.pending_wasm,
                },
            );
            k += 1;
        }
        proof {
            assert(code_pairs(codes@) =~= code_pairs(self.codes@));
            assert(instance_pairs(instances@) =~= instance_pairs(self.instances@));
        }
        Ledger { codes, instances }
    }

    /// The remaining lifetime of the code held under `digest`, if any is.
    pub fn code_ttl(&self, digest: &Digest) -> (ttl: Option<u32>)
        requires
            self.wf(),
        ensures
            ttl == if self@.codes.contains_key(digest@) {
                Some(self@.codes[digest@].ttl)
            } else {
                None
            },
    {
        match self.find_code(digest) {
            Some(i) => Some(self.codes[i].ttl),
            None => None,
        }
    }

    /// The remaining lifetime of the instance at `address`, if one lives
    /// there.
    pub fn instance_ttl(&self, address: &Address) -> (ttl: Option<u32>)
        requires
            self.wf(),
        ensures
            ttl == if self@.instances.contains_key(address@) {
                Some(self@.instances[address@].ttl)
            } else {
                None
            },
    {
        match self.find_instance(address) {
            Some(i) => Some(self.instances[i].ttl),
            None => None,
        }
    }

    /// What runs at `address`, if an instance lives there.
    pub fn executable(&self, address: &Address) -> (executable: Option<Executable>)
        requires
            self.wf(),
        ensures
            match executable {
                Some(executable) => self@.instances.contains_key(address@)
                    && self@.instances[address@].executable == executable@,
                None => !self@.instances.contains_key(address@),
            },
    {
        match self.find_instance(address) {
            Some(i) => Some(self.instances[i].executable),
            None => None,
        }
    }

    /// Whether code is held under `digest`.
    pub fn has_code(&self, digest: &Digest) -> (held: bool)
        requires
            self.wf(),
        ensures
            held == self@.codes.contains_key(digest@),
    {
        self.find_code(digest).is_some()
    }

    /// Whether an instance lives at `address`.
    pub fn has_instance(&self, address: &Address) -> (held: bool)
        requires
            self.wf(),
        ensures
            held == self@.instances.contains_key(address@),
    {
        self.find_instance(address).is_some()
    }
}

} // verus!
