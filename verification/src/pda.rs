//! Deterministic seed derivation for the multisig's records.
//!
//! Three namespaces — state, proposal, vault — each fold a fixed 16-byte
//! ASCII tag into a 32-byte buffer and XOR the instance's `create_key` over
//! all 32 bytes; a proposal seed additionally XORs the 64-bit big-endian
//! proposal index into the last 8 bytes. Identical inputs always give
//! identical seeds, the namespaces never collide because their tags differ,
//! and proposal seeds are pairwise distinct across indices.
//!
//! The result is a *seed*, not a final address: hashing it into a globally
//! unique record address is the surrounding system's concern. The scheme is a
//! labeling convention, not a cryptographic commitment.

use vstd::prelude::*;

use crate::model::Key32;

verus! {

// ---------------------------------------------------------------------------
// The namespace tags ("multisig_state__", "multisig_prop___",
// "multisig_vault__" in ASCII)
// ---------------------------------------------------------------------------

/// The 16 ASCII bytes of `multisig_state__`.
pub open spec fn state_tag() -> Seq<u8> {
    seq![109u8, 117, 108, 116, 105, 115, 105, 103, 95, 115, 116, 97, 116, 101, 95, 95]
}

/// The 16 ASCII bytes of `multisig_prop___`.
pub open spec fn proposal_tag() -> Seq<u8> {
    seq![109u8, 117, 108, 116, 105, 115, 105, 103, 95, 112, 114, 111, 112, 95, 95, 95]
}

/// The 16 ASCII bytes of `multisig_vault__`.
pub open spec fn vault_tag() -> Seq<u8> {
    seq![109u8, 117, 108, 116, 105, 115, 105, 103, 95, 118, 97, 117, 108, 116, 95, 95]
}

/// A 16-byte tag folded into 32 bytes and XOR-ed with a 32-byte key.
pub open spec fn tagged_seed(tag: Seq<u8>, key: Seq<u8>) -> Seq<u8> {
    Seq::new(32, |i: int| if i < 16 { tag[i] ^ key[i] } else { key[i] })
}

/// Byte `k` (0 = most significant) of the big-endian form of `x`.
pub open spec fn be64_byte(x: u64, k: int) -> u8 {
    ((x >> ((56 - 8 * k) as u64)) & 0xff) as u8
}

/// The derived seed of a multisig's state record.
pub open spec fn spec_state_seed(key: Seq<u8>) -> Seq<u8> {
    tagged_seed(state_tag(), key)
}

/// The derived seed of a multisig's vault record.
pub open spec fn spec_vault_seed(key: Seq<u8>) -> Seq<u8> {
    tagged_seed(vault_tag(), key)
}

/// The derived seed of the proposal record at `index`: the proposal tag
/// folded in, and the big-endian index XOR-ed into the last 8 bytes.
pub open spec fn spec_proposal_seed(key: Seq<u8>, index: u64) -> Seq<u8> {
    Seq::new(
        32,
        |i: int|
            if i < 16 {
                proposal_tag()[i] ^ key[i]
            } else if i < 24 {
                key[i]
            } else {
                key[i] ^ be64_byte(index, i - 24)
            },
    )
}

// ---------------------------------------------------------------------------
// Executable derivation
// ---------------------------------------------------------------------------

/// The three tag namespaces.
enum Namespace {
    State,
    Proposal,
    Vault,
}

/// The tag byte at `i` of the given namespace.
fn tag_byte(ns: &Namespace, i: usize) -> (r: u8)
    requires
        i < 16,
    ensures
        ns is State ==> r == state_tag()[i as int],
        ns is Proposal ==> r == proposal_tag()[i as int],
        ns is Vault ==> r == vault_tag()[i as int],
{
    let shared: u8 = match i {
        0 => 109,
        1 => 117,
        2 => 108,
        3 => 116,
        4 => 105,
        5 => 115,
        6 => 105,
        7 => 103,
        _ => 95,
    };
    if i < 9 {
        return shared;
    }
    match ns {
        Namespace::State => match i {
            9 => 115,
            10 => 116,
            11 => 97,
            12 => 116,
            13 => 101,
            _ => 95,
        },
        Namespace::Proposal => match i {
            9 => 112,
            10 => 114,
            11 => 111,
            12 => 112,
            _ => 95,
        },
        Namespace::Vault => match i {
            9 => 118,
            10 => 97,
            11 => 117,
            12 => 108,
            13 => 116,
            _ => 95,
        },
    }
}

/// A namespace tag folded into 32 bytes and XOR-ed with `key`.
fn derive_tagged(ns: Namespace, key: &Key32) -> (r: Key32)
    ensures
        ns is State ==> r@ == spec_state_seed(key@),
        ns is Proposal ==> r@ == tagged_seed(proposal_tag(), key@),
        ns is Vault ==> r@ == spec_vault_seed(key@),
{
    let ghost tag: Seq<u8> = match ns {
        Namespace::State => state_tag(),
        Namespace::Proposal => proposal_tag(),
        Namespace::Vault => vault_tag(),
    };
    let mut seed: Key32 = [0u8; 32];
    let mut i: usize = 0;
    while i < 32
        invariant
            i <= 32,
            (match ns {
                Namespace::State => tag == state_tag(),
                Namespace::Proposal => tag == proposal_tag(),
                Namespace::Vault => tag == vault_tag(),
            }),
            forall|j: int| 0 <= j < i ==> seed@[j] == tagged_seed(tag, key@)[j],
        decreases 32 - i,
    {
        if i < 16 {
            seed[i] = tag_byte(&ns, i) ^ key[i];
        } else {
            seed[i] = key[i];
        }
        i += 1;
    }
    proof {
        assert(seed@ =~= tagged_seed(tag, key@));
    }
    seed
}

/// The seed of the state record of the multisig identified by `create_key`.
pub fn multisig_state_pda_seed(create_key: &Key32) -> (r: Key32)
    ensures
        r@ == spec_state_seed(create_key@),
{
    derive_tagged(Namespace::State, create_key)
}

/// The seed of the vault record of the multisig identified by `create_key`.
pub fn vault_pda_seed(create_key: &Key32) -> (r: Key32)
    ensures
        r@ == spec_vault_seed(create_key@),
{
    derive_tagged(Namespace::Vault, create_key)
}

/// The raw seed bytes of a vault record, as stored inside proposals.
pub fn vault_pda_seed_bytes(create_key: &Key32) -> (r: Key32)
    ensures
        r@ == spec_vault_seed(create_key@),
{
    derive_tagged(Namespace::Vault, create_key)
}

/// The seed of the proposal record at `proposal_index` of the multisig
/// identified by `create_key`.
pub fn proposal_pda_seed(create_key: &Key32, proposal_index: u64) -> (r: Key32)
    ensures
        r@ == spec_proposal_seed(create_key@, proposal_index),
{
    let mut seed: Key32 = derive_tagged(Namespace::Proposal, create_key);
    let mut k: usize = 24;
    while k < 32
        invariant
            24 <= k <= 32,
            forall|j: int|
                0 <= j < k ==> seed@[j] == spec_proposal_seed(create_key@, proposal_index)[j],
            forall|j: int|
                k <= j < 32 ==> seed@[j] == tagged_seed(proposal_tag(), create_key@)[j],
        decreases 32 - k,
    {
        let shift: u64 = (56 - 8 * ((k - 24) as u64)) as u64;
        seed[k] = seed[k] ^ (((proposal_index >> shift) & 0xff) as u8);
        k += 1;
    }
    proof {
        assert(seed@ =~= spec_proposal_seed(create_key@, proposal_index));
    }
    seed
}

// ---------------------------------------------------------------------------
// Laws of the derivation
// ---------------------------------------------------------------------------

/// The three namespaces never collide: for any key and index, the state,
/// vault and proposal seeds are pairwise distinct. They differ in byte 9,
/// where the tags differ and the index is not folded in.
pub proof fn lemma_namespace_seeds_distinct(key: Seq<u8>, index: u64)
    requires
        key.len() == 32,
    ensures
        spec_state_seed(key) != spec_vault_seed(key),
        spec_proposal_seed(key, index) != spec_state_seed(key),
        spec_proposal_seed(key, index) != spec_vault_seed(key),
{
    let k = key[9];
    assert(spec_state_seed(key)[9] == 115u8 ^ k);
    assert(spec_vault_seed(key)[9] == 118u8 ^ k);
    assert(spec_proposal_seed(key, index)[9] == 112u8 ^ k);
    assert(115u8 ^ k != 118u8 ^ k) by (bit_vector);
    assert(112u8 ^ k != 115u8 ^ k) by (bit_vector);
    assert(112u8 ^ k != 118u8 ^ k) by (bit_vector);
}

/// Big-endian bytes determine the number: if all eight bytes agree, the two
/// indices are equal.
proof fn lemma_be64_bytes_injective(i: u64, j: u64)
    requires
        forall|k: int| 0 <= k < 8 ==> be64_byte(i, k) == be64_byte(j, k),
    ensures
        i == j,
{
    assert(be64_byte(i, 0) == be64_byte(j, 0));
    assert(be64_byte(i, 1) == be64_byte(j, 1));
    assert(be64_byte(i, 2) == be64_byte(j, 2));
    assert(be64_byte(i, 3) == be64_byte(j, 3));
    assert(be64_byte(i, 4) == be64_byte(j, 4));
    assert(be64_byte(i, 5) == be64_byte(j, 5));
    assert(be64_byte(i, 6) == be64_byte(j, 6));
    assert(be64_byte(i, 7) == be64_byte(j, 7));
    assert((((i >> 56u64) & 0xff) as u8 == ((j >> 56u64) & 0xff) as u8 && ((i >> 48u64) & 0xff)
        as u8 == ((j >> 48u64) & 0xff) as u8 && ((i >> 40u64) & 0xff) as u8 == ((j >> 40u64)
        & 0xff) as u8 && ((i >> 32u64) & 0xff) as u8 == ((j >> 32u64) & 0xff) as u8 && ((i
        >> 24u64) & 0xff) as u8 == ((j >> 24u64) & 0xff) as u8 && ((i >> 16u64) & 0xff) as u8 == ((
    j >> 16u64) & 0xff) as u8 && ((i >> 8u64) & 0xff) as u8 == ((j >> 8u64) & 0xff) as u8 && ((i
        >> 0u64) & 0xff) as u8 == ((j >> 0u64) & 0xff) as u8) ==> i == j) by (bit_vector);
}

/// Proposal seeds are pairwise distinct across indices: different indices
/// under the same key never derive the same seed.
pub proof fn lemma_proposal_seeds_injective(key: Seq<u8>, i: u64, j: u64)
    requires
        key.len() == 32,
        i != j,
    ensures
        spec_proposal_seed(key, i) != spec_proposal_seed(key, j),
{
    if spec_proposal_seed(key, i) == spec_proposal_seed(key, j) {
        assert forall|k: int| 0 <= k < 8 implies be64_byte(i, k) == be64_byte(j, k) by {
            assert(spec_proposal_seed(key, i)[k + 24] == spec_proposal_seed(key, j)[k + 24]);
            let c = key[k + 24];
            let a = be64_byte(i, k);
            let b = be64_byte(j, k);
            assert(c ^ a == c ^ b ==> a == b) by (bit_vector);
        }
        lemma_be64_bytes_injective(i, j);
    }
}

} // verus!
