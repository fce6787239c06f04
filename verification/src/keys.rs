//! Keys under which a host keeps the ledger's collections apart.

use vstd::prelude::*;

verus! {

/// Names the collections of the ledger. Each key stands for a prefix that no
/// other key's prefix starts with, so that records of different collections
/// never meet under one storage key.
#[derive(Clone, Copy, Debug, PartialEq, Eq)]
pub enum StorageKey {
    TokensPerOwner,
    TokenPerOwnerInner { account_id_hash: [u8; 32] },
    TokensById,
    TokenMetadataById,
    NFTContractMetadata,
    TokensPerType,
    TokensPerTypeInner { token_type_hash: [u8; 32] },
    TokenTypesLocked,
}

impl StorageKey {
    /// The number that opens the key's prefix: its place among the keys.
    pub open spec fn tag(&self) -> u8 {
        match self {
            StorageKey::TokensPerOwner => 0,
            StorageKey::TokenPerOwnerInner { .. } => 1,
            StorageKey::TokensById => 2,
            StorageKey::TokenMetadataById => 3,
            StorageKey::NFTContractMetadata => 4,
            StorageKey::TokensPerType => 5,
            StorageKey::TokensPerTypeInner { .. } => 6,
            StorageKey::TokenTypesLocked => 7,
        }
    }

    /// The hash that follows the tag, for the keys that carry one.
    pub open spec fn hash(&self) -> Seq<u8> {
        match self {
            StorageKey::TokenPerOwnerInner { account_id_hash } => account_id_hash@,
            StorageKey::TokensPerTypeInner { token_type_hash } => token_type_hash@,
            _ => Seq::empty(),
        }
    }

    /// The key's prefix: the tag, then the hash if the key carries one.
    pub open spec fn prefix_bytes(&self) -> Seq<u8> {
        seq![self.tag()] + self.hash()
    }

    /// Two keys with the same prefix have the same tag and the same hash.
    pub proof fn lemma_prefix_tells_keys_apart(&self, other: &StorageKey)
        requires
            self.prefix_bytes() == other.prefix_bytes(),
        ensures
            self.tag() == other.tag(),
            self.hash() == other.hash(),
    {
        let a = self.prefix_bytes();
        let b = other.prefix_bytes();
        assert(a[0] == self.tag());
        assert(b[0] == other.tag());
        assert(a.subrange(1, a.len() as int) =~= self.hash());
        assert(b.subrange(1, b.len() as int) =~= other.hash());
    }

    /// Writes the key's prefix.
    pub fn prefix(&self) -> (bytes: Vec<u8>)
        ensures
            bytes@ == self.prefix_bytes(),
    {
        let mut bytes: Vec<u8> = Vec::new();
        match self {
            StorageKey::TokensPerOwner => {
                bytes.push(0);
            },
            StorageKey::TokenPerOwnerInner { account_id_hash } => {
                bytes.push(1);
                append_hash(&mut bytes, account_id_hash);
            },
            StorageKey::TokensById => {
                bytes.push(2);
            },
            StorageKey::TokenMetadataById => {
                bytes.push(3);
            },
            StorageKey::NFTContractMetadata => {
                bytes.push(4);
            },
            StorageKey::TokensPerType => {
                bytes.push(5);
            },
            StorageKey::TokensPerTypeInner { token_type_hash } => {
                bytes.push(6);
                append_hash(&mut bytes, token_type_hash);
            },
            StorageKey::TokenTypesLocked => {
                bytes.push(7);
            },
        }
        assert(bytes@ =~= self.prefix_bytes());
        bytes
    }
}

fn append_hash(bytes: &mut Vec<u8>, hash: &[u8; 32])
    ensures
        final(bytes)@ == old(bytes)@ + hash@,
{
    let ghost start = bytes@;
    let mut i: usize = 0;
    while i < 32
        invariant
            i <= 32,
            bytes@ == start + hash@.take(i as int),
        decreases 32 - i,
    {
        bytes.push(hash[i]);
        assert(bytes@ =~= start + hash@.take(i + 1));
        i += 1;
    }
    assert(hash@.take(32) =~= hash@);
}

} // verus!
