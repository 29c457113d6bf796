//! Fixed-size account addresses and hashes.

use solana_pubkey::Pubkey as ProgramKey;
use vstd::prelude::*;

verus! {

/// Whether two runs of 32 bytes are the same.
fn same_bytes(left: &[u8; 32], right: &[u8; 32]) -> (equal: bool)
    ensures
        equal == (*left == *right),
{
    let mut i: usize = 0;
    while i < 32
        invariant
            i <= 32,
            forall|j: int| 0 <= j < i ==> left[j] == right[j],
        decreases 32 - i,
    {
        if left[i] != right[i] {
            return false;
        }
        i += 1;
    }
    assert(*left =~= *right);
    true
}

/// The address of an account: 32 opaque bytes.
#[derive(Clone, Copy, Debug)]
pub struct Pubkey {
    pub bytes: [u8; 32],
}

impl Pubkey {
    /// The address made of the given bytes.
    pub fn new_from_array(bytes: [u8; 32]) -> (key: Pubkey)
        ensures
            key.bytes == bytes,
    {
        Pubkey { bytes }
    }

    /// The bytes of the address.
    pub fn to_bytes(&self) -> (bytes: [u8; 32])
        ensures
            bytes == self.bytes,
    {
        self.bytes
    }

    /// An address drawn from the process's counter of addresses: eight
    /// bytes of count, then zeros.
    pub fn new_unique() -> (key: Pubkey)
        ensures
            forall|i: int| 8 <= i < 32 ==> key.bytes[i] == 0,
    {
        unique_key()
    }

    /// Whether two addresses are the same, byte for byte.
    pub fn same(&self, other: &Pubkey) -> (equal: bool)
        ensures
            equal == (*self == *other),
    {
        same_bytes(&self.bytes, &other.bytes)
    }
}

/// The address that an optional reference names, if any.
pub open spec fn copied(key: Option<&Pubkey>) -> Option<Pubkey> {
    match key {
        Some(k) => Some(*k),
        None => None,
    }
}

impl PartialEq for Pubkey {
    fn eq(&self, other: &Pubkey) -> (equal: bool) {
        self.same(other)
    }
}

impl vstd::std_specs::cmp::PartialEqSpecImpl for Pubkey {
    open spec fn obeys_eq_spec() -> bool {
        true
    }

    open spec fn eq_spec(&self, other: &Pubkey) -> bool {
        *self == *other
    }
}

impl Eq for Pubkey {}

/// A 32-byte hash value.
#[derive(Clone, Copy, Debug)]
pub struct Digest {
    pub bytes: [u8; 32],
}

impl Digest {
    /// The hash made of the given bytes.
    pub fn new_from_array(bytes: [u8; 32]) -> (hash: Digest)
        ensures
            hash.bytes == bytes,
    {
        Digest { bytes }
    }

    /// Whether two hashes are the same, byte for byte.
    pub fn same(&self, other: &Digest) -> (equal: bool)
        ensures
            equal == (*self == *other),
    {
        same_bytes(&self.bytes, &other.bytes)
    }

    /// A hash drawn from the process's counter of hashes: eight bytes of
    /// count, then zeros.
    pub fn new_unique() -> (hash: Digest)
        ensures
            forall|i: int| 8 <= i < 32 ==> hash.bytes[i] == 0,
    {
        unique_hash()
    }
}

impl PartialEq for Digest {
    fn eq(&self, other: &Digest) -> (equal: bool) {
        self.same(other)
    }
}

impl vstd::std_specs::cmp::PartialEqSpecImpl for Digest {
    open spec fn obeys_eq_spec() -> bool {
        true
    }

    open spec fn eq_spec(&self, other: &Digest) -> bool {
        *self == *other
    }
}

impl Eq for Digest {}

/// `Pubkey::new_unique`: an address whose first eight bytes are the next
/// value of a counter that the process keeps. The count differs from call to
/// call and nothing is claimed of it; trusted is that the other bytes are
/// zero.
#[verifier::external_body]
fn unique_key() -> (key: Pubkey)
    ensures
        forall|i: int| 8 <= i < 32 ==> key.bytes[i] == 0,
{
    Pubkey { bytes: ProgramKey::new_unique().to_bytes() }
}

/// `Hash::new_unique`: a hash whose first eight bytes are the next value of
/// a counter that the process keeps. The count differs from call to call and
/// nothing is claimed of it; trusted is that the other bytes are zero.
#[verifier::external_body]
fn unique_hash() -> (hash: Digest)
    ensures
        forall|i: int| 8 <= i < 32 ==> hash.bytes[i] == 0,
{
    Digest { bytes: solana_sdk::hash::Hash::new_unique().to_bytes() }
}

} // verus!
