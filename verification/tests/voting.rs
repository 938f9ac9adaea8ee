//! Tests of the record types themselves: state bookkeeping and the voting
//! engine on a proposal.

use multisig_core::model::{ConfigAction, MultisigState, Proposal, ProposalStatus};

fn key(id: u8) -> [u8; 32] {
    [id; 32]
}

#[test]
fn test_state_new_and_membership() {
    let state = MultisigState::new([9u8; 32], 2, vec![key(1), key(2), key(3)]);
    assert_eq!(state.create_key, [9u8; 32]);
    assert_eq!(state.threshold, 2);
    assert_eq!(state.member_count, 3);
    assert_eq!(state.transaction_index, 0);
    assert!(state.is_member(&key(1)));
    assert!(state.is_member(&key(3)));
    assert!(!state.is_member(&key(4)));
}

#[test]
fn test_next_proposal_index_increments() {
    let mut state = MultisigState::new([0u8; 32], 1, vec![key(1)]);
    assert_eq!(state.next_proposal_index(), 1);
    assert_eq!(state.next_proposal_index(), 2);
    assert_eq!(state.transaction_index, 2);
}

#[test]
fn test_count_valid_signers_counts_duplicates() {
    let state = MultisigState::new([0u8; 32], 2, vec![key(1), key(2)]);
    assert_eq!(state.count_valid_signers(&vec![key(1), key(2), key(9)]), 2);
    assert_eq!(state.count_valid_signers(&vec![key(1), key(1)]), 2);
    assert_eq!(state.count_valid_signers(&vec![key(9)]), 0);
    assert_eq!(state.count_valid_signers(&vec![]), 0);
}

#[test]
fn test_proposal_new_auto_approves_proposer() {
    let p = Proposal::new(1, key(1), [0u8; 32], [42u32; 8], vec![0u8], 1, vec![], vec![]);
    assert_eq!(p.approved, vec![key(1)]);
    assert!(p.rejected.is_empty());
    assert_eq!(p.status, ProposalStatus::Active);
    assert_eq!(p.config_action, None);
}

#[test]
fn test_proposal_new_config_has_no_target() {
    let p = Proposal::new_config(
        2,
        key(1),
        [0u8; 32],
        ConfigAction::ChangeThreshold { new_threshold: 3 },
    );
    assert_eq!(p.target_program_id, [0u32; 8]);
    assert!(p.target_instruction_data.is_empty());
    assert_eq!(p.target_account_count, 0);
    assert_eq!(p.config_action, Some(ConfigAction::ChangeThreshold { new_threshold: 3 }));
}

#[test]
fn test_approve_is_idempotent_only_once() {
    let mut p = Proposal::new(1, key(1), [0u8; 32], [42u32; 8], vec![], 0, vec![], vec![]);
    assert!(p.approve(key(2)));
    assert_eq!(p.approved.len(), 2);
    assert!(!p.approve(key(2)));
    assert_eq!(p.approved.len(), 2);
}

#[test]
fn test_vote_flip_keeps_sets_disjoint() {
    let mut p = Proposal::new(1, key(1), [0u8; 32], [42u32; 8], vec![], 0, vec![], vec![]);
    assert!(p.reject(key(2)));
    assert_eq!(p.rejected, vec![key(2)]);
    assert!(p.approve(key(2)));
    assert!(p.rejected.is_empty());
    assert!(p.approved.contains(&key(2)));
    assert!(p.reject(key(1)));
    assert_eq!(p.approved, vec![key(2)]);
    assert_eq!(p.rejected, vec![key(1)]);
}

#[test]
fn test_has_threshold_boundary() {
    let mut p = Proposal::new(1, key(1), [0u8; 32], [42u32; 8], vec![], 0, vec![], vec![]);
    assert!(p.has_threshold(1));
    assert!(!p.has_threshold(2));
    p.approve(key(2));
    assert!(p.has_threshold(2));
}

#[test]
fn test_is_dead_boundary() {
    let mut p = Proposal::new(1, key(1), [0u8; 32], [42u32; 8], vec![], 0, vec![], vec![]);
    // 3 members, threshold 2: one rejection leaves 2 possible approvers.
    assert!(!p.is_dead(2, 3));
    p.reject(key(2));
    assert!(!p.is_dead(2, 3));
    p.reject(key(3));
    // Two rejections leave 1 < 2.
    assert!(p.is_dead(2, 3));
}
