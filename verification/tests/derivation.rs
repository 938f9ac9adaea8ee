//! Tests of seed derivation and of the hexadecimal helpers.

use multisig_core::error::MultisigError;
use multisig_core::hexutil::{
    bytes32_to_hex, parse_hex32, parse_program_id_hex, program_id_to_hex,
};
use multisig_core::model::{status_str, ProposalStatus};
use multisig_core::pda::{
    multisig_state_pda_seed, proposal_pda_seed, vault_pda_seed, vault_pda_seed_bytes,
};

#[test]
fn test_derivation_is_deterministic() {
    let k = [0x5au8; 32];
    assert_eq!(multisig_state_pda_seed(&k), multisig_state_pda_seed(&k));
    assert_eq!(vault_pda_seed(&k), vault_pda_seed(&k));
    assert_eq!(proposal_pda_seed(&k, 3), proposal_pda_seed(&k, 3));
}

#[test]
fn test_namespaces_never_collide() {
    let k = [0x5au8; 32];
    let state = multisig_state_pda_seed(&k);
    let vault = vault_pda_seed(&k);
    let prop = proposal_pda_seed(&k, 1);
    assert_ne!(state, vault);
    assert_ne!(state, prop);
    assert_ne!(vault, prop);
}

#[test]
fn test_proposal_seeds_differ_across_indices() {
    let k = [0x5au8; 32];
    assert_ne!(proposal_pda_seed(&k, 1), proposal_pda_seed(&k, 2));
    assert_ne!(proposal_pda_seed(&k, 1), proposal_pda_seed(&k, 0x100000001));
    assert_ne!(proposal_pda_seed(&k, 0), proposal_pda_seed(&k, u64::MAX));
}

#[test]
fn test_state_seed_bytes_exact() {
    // With a zero key the seed is the raw tag, ASCII "multisig_state__",
    // padded with zeros.
    let seed = multisig_state_pda_seed(&[0u8; 32]);
    let mut expected = [0u8; 32];
    expected[..16].copy_from_slice(b"multisig_state__");
    assert_eq!(seed, expected);
}

#[test]
fn test_vault_seed_bytes_exact() {
    let seed = vault_pda_seed(&[0u8; 32]);
    let mut expected = [0u8; 32];
    expected[..16].copy_from_slice(b"multisig_vault__");
    assert_eq!(seed, expected);
    assert_eq!(vault_pda_seed_bytes(&[0u8; 32]), expected);
}

#[test]
fn test_proposal_seed_mixes_index_big_endian() {
    let seed = proposal_pda_seed(&[0u8; 32], 1);
    let mut expected = [0u8; 32];
    expected[..16].copy_from_slice(b"multisig_prop___");
    expected[31] = 1;
    assert_eq!(seed, expected);

    let seed = proposal_pda_seed(&[0u8; 32], 0x0102030405060708);
    assert_eq!(&seed[24..32], &[1, 2, 3, 4, 5, 6, 7, 8]);
}

#[test]
fn test_seed_xors_create_key() {
    let mut k = [0u8; 32];
    k[0] = 0xff;
    k[20] = 0x55;
    let seed = multisig_state_pda_seed(&k);
    assert_eq!(seed[0], b'm' ^ 0xff);
    assert_eq!(seed[20], 0x55);
}

#[test]
fn test_parse_hex32_accepts_prefixed_hex() {
    let hex64: String = "ab".repeat(32);
    assert_eq!(parse_hex32(&hex64), Ok([0xabu8; 32]));
    let prefixed = format!("0x{}", hex64);
    assert_eq!(parse_hex32(&prefixed), Ok([0xabu8; 32]));
}

#[test]
fn test_parse_hex32_mixed_case_and_values() {
    let s = format!("{}{}", "0A1b".repeat(15), "0A1b");
    assert_eq!(s.len(), 64);
    let k = parse_hex32(&s).unwrap();
    assert_eq!(k[0], 0x0a);
    assert_eq!(k[1], 0x1b);
}

#[test]
fn test_parse_hex32_rejects_bad_input() {
    assert_eq!(parse_hex32("1234"), Err(MultisigError::ValidationError));
    let bad: String = "zz".repeat(32);
    assert_eq!(parse_hex32(&bad), Err(MultisigError::ValidationError));
    assert_eq!(parse_hex32(""), Err(MultisigError::ValidationError));
}

#[test]
fn test_bytes32_to_hex_is_lowercase_pairs() {
    assert_eq!(bytes32_to_hex(&[0xabu8; 32]), "ab".repeat(32));
    let mut k = [0u8; 32];
    k[0] = 0x01;
    k[31] = 0xf0;
    let s = bytes32_to_hex(&k);
    assert_eq!(s.len(), 64);
    assert!(s.starts_with("01"));
    assert!(s.ends_with("f0"));
}

#[test]
fn test_hex_round_trip_through_parse() {
    let k = [0x3cu8; 32];
    assert_eq!(parse_hex32(&bytes32_to_hex(&k)), Ok(k));
}

#[test]
fn test_parse_program_id_hex_words() {
    let s = "00000001000000020000000300000004000000050000000600000007";
    let s = format!("{}00000008", s);
    let pid = parse_program_id_hex(&s).unwrap();
    assert_eq!(pid, [1u32, 2, 3, 4, 5, 6, 7, 8]);
    assert_eq!(program_id_to_hex(&pid), s);
}

#[test]
fn test_status_str_names() {
    assert_eq!(status_str(&ProposalStatus::Active), "Active");
    assert_eq!(status_str(&ProposalStatus::Executed), "Executed");
    assert_eq!(status_str(&ProposalStatus::Rejected), "Rejected");
    assert_eq!(status_str(&ProposalStatus::Cancelled), "Cancelled");
}

#[test]
fn test_error_describe_names() {
    assert_eq!(MultisigError::GuardError.describe(), "guard failed");
    assert_eq!(MultisigError::ConflictError.describe(), "conflict");
}
