//! Plain values of the deployment model: addresses, salts, digests and errors.

use vstd::prelude::*;
use vstd::slice::slice_to_vec;

verus! {

/// Number of bytes in a salt and in a digest.
pub const WORD_LEN: usize = 32;

/// Why a request was turned down.
#[derive(Clone, Copy, Debug, PartialEq, Eq, Structural)]
pub enum DeployError {
    /// The deployer address has not authorized the present invocation.
    Unauthorized,
    /// An artifact already lives at the target address.
    AlreadyExists,
    /// The address or digest has no ledger entry.
    NotFound,
    /// A salt or digest has the wrong length.
    Malformed,
}

/// Whether two byte slices hold the same bytes.
pub fn bytes_eq(a: &[u8], b: &[u8]) -> (same: bool)
    ensures
        same == (a@ == b@),
{
    if a.len() != b.len() {
        return false;
    }
    let mut i: usize = 0;
    while i < a.len()
        invariant
            a@.len() == b@.len(),
            i <= a@.len(),
            forall|j: int| 0 <= j < i ==> a@[j] == b@[j],
        decreases a@.len() - i,
    {
        if a[i] != b[i] {
            return false;
        }
        i += 1;
    }
    assert(a@ =~= b@);
    true
}

/// Copies a slice of exactly `WORD_LEN` bytes into an array.
fn word_from_slice(bytes: &[u8]) -> (word: [u8; 32])
    requires
        bytes@.len() == WORD_LEN,
    ensures
        word@ == bytes@,
{
    let mut word = [0u8; 32];
    let mut i: usize = 0;
    while i < 32
        invariant
            bytes@.len() == 32,
            word@.len() == 32,
            i <= 32,
            forall|j: int| 0 <= j < i ==> word@[j] == bytes@[j],
        decreases 32 - i,
    {
        word[i] = bytes[i];
        i += 1;
    }
    assert(word@ =~= bytes@);
    word
}

/// An identity on the ledger: a deployer, or a contract instance.
#[derive(Debug, PartialEq, Eq)]
pub struct Address {
    bytes: Vec<u8>,
}

impl View for Address {
    type V = Seq<u8>;

    closed spec fn view(&self) -> Seq<u8> {
        self.bytes@
    }
}

impl Address {
    /// The address that is written as `bytes`.
    pub fn from_bytes(bytes: Vec<u8>) -> (address: Address)
        ensures
            address@ == bytes@,
    {
        Address { bytes }
    }

    /// The bytes this address is written as.
    pub fn as_bytes(&self) -> (bytes: &[u8])
        ensures
            bytes@ == self@,
    {
        self.bytes.as_slice()
    }

    /// Whether `self` and `other` are the same address.
    pub fn same_as(&self, other: &Address) -> (same: bool)
        ensures
            same == (self@ == other@),
    {
        bytes_eq(self.bytes.as_slice(), other.bytes.as_slice())
    }
}

impl Clone for Address {
    fn clone(&self) -> (copy: Address)
        ensures
            copy@ == self@,
    {
        Address { bytes: slice_to_vec(self.bytes.as_slice()) }
    }
}

/// Caller-chosen entropy for address derivation; always `WORD_LEN` bytes.
#[derive(Clone, Copy, Debug, PartialEq, Eq)]
pub struct Salt {
    bytes: [u8; 32],
}

impl View for Salt {
    type V = Seq<u8>;

    closed spec fn view(&self) -> Seq<u8> {
        self.bytes@
    }
}

impl Salt {
    /// The salt made of the given bytes.
    pub fn new(bytes: [u8; 32]) -> (salt: Salt)
        ensures
            salt@ == bytes@,
    {
        Salt { bytes }
    }

    /// Reads a salt from a slice, which must hold exactly `WORD_LEN` bytes.
    pub fn from_slice(bytes: &[u8]) -> (parsed: Result<Salt, DeployError>)
        ensures
            bytes@.len() == WORD_LEN ==> parsed is Ok && parsed->Ok_0@ == bytes@,
            bytes@.len() != WORD_LEN ==> parsed == Err::<Salt, DeployError>(
                DeployError::Malformed,
            ),
    {
        if bytes.len() != WORD_LEN {
            return Err(DeployError::Malformed);
        }
        Ok(Salt { bytes: word_from_slice(bytes) })
    }

    /// The bytes of this salt.
    pub fn as_bytes(&self) -> (bytes: &[u8])
        ensures
            bytes@ == self@,
    {
        self.bytes.as_slice()
    }

    /// Every salt is `WORD_LEN` bytes long.
    pub proof fn lemma_len(self)
        ensures
            self@.len() == WORD_LEN,
    {
    }
}

/// Content hash that identifies one uploaded code blob; always `WORD_LEN` bytes.
#[derive(Clone, Copy, Debug, PartialEq, Eq)]
pub struct Digest {
    bytes: [u8; 32],
}

impl View for Digest {
    type V = Seq<u8>;

    closed spec fn view(&self) -> Seq<u8> {
        self.bytes@
    }
}

impl Digest {
    /// The digest made of the given bytes.
    pub fn new(bytes: [u8; 32]) -> (digest: Digest)
        ensures
            digest@ == bytes@,
    {
        Digest { bytes }
    }

    /// Reads a digest from a slice, which must hold exactly `WORD_LEN` bytes.
    pub fn from_slice(bytes: &[u8]) -> (parsed: Result<Digest, DeployError>)
        ensures
            bytes@.len() == WORD_LEN ==> parsed is Ok && parsed->Ok_0@ == bytes@,
            bytes@.len() != WORD_LEN ==> parsed == Err::<Digest, DeployError>(
                DeployError::Malformed,
            ),
    {
        if bytes.len() != WORD_LEN {
            return Err(DeployError::Malformed);
        }
        Ok(Digest { bytes: word_from_slice(bytes) })
    }

    /// The bytes of this digest.
    pub fn as_bytes(&self) -> (bytes: &[u8])
        ensures
            bytes@ == self@,
    {
        self.bytes.as_slice()
    }

    /// Whether `self` and `other` are the same digest.
    pub fn same_as(&self, other: &Digest) -> (same: bool)
        ensures
            same == (self@ == other@),
    {
        bytes_eq(self.bytes.as_slice(), other.bytes.as_slice())
    }
}

} // verus!
