//! Tests of the governance handlers: creation, proposing, voting, execution,
//! and the dispatcher.

use multisig_core::codec::{decode_proposal, decode_state, encode_proposal};
use multisig_core::error::MultisigError;
use multisig_core::handlers::{
    approve, create_multisig, execute, process, propose, propose_add_member,
    propose_change_threshold, propose_config, propose_remove_member, reject, AccountPostState,
    AccountWithMetadata, Instruction,
};
use multisig_core::model::{ConfigAction, MultisigState, Proposal, ProposalStatus};
use multisig_core::ops::ChainedCall;

fn key(id: u8) -> [u8; 32] {
    [id; 32]
}

fn acct(id: u8, data: Vec<u8>, signed: bool) -> AccountWithMetadata {
    AccountWithMetadata { account_id: key(id), data, is_authorized: signed }
}

fn state_bytes(create_key: [u8; 32], threshold: u8, members: Vec<[u8; 32]>, tx: u64) -> Vec<u8> {
    let member_count = members.len() as u8;
    let state = MultisigState {
        create_key,
        threshold,
        member_count,
        members,
        transaction_index: tx,
    };
    multisig_core::codec::encode_state(&state)
}

fn delegated_proposal(index: u64, proposer: [u8; 32], create_key: [u8; 32]) -> Proposal {
    Proposal::new(index, proposer, create_key, [42u32; 8], vec![0u8], 1, vec![], vec![])
}

fn run_vote(
    state_data: &[u8],
    voter: u8,
    proposal: &Proposal,
    yes: bool,
) -> Result<(Vec<AccountPostState>, Vec<ChainedCall>), MultisigError> {
    let accounts = vec![
        acct(10, state_data.to_vec(), false),
        acct(voter, vec![], true),
        acct(20, encode_proposal(proposal), false),
    ];
    if yes {
        approve(&accounts, proposal.index)
    } else {
        reject(&accounts, proposal.index)
    }
}

// ---------------------------------------------------------------------------
// CreateMultisig
// ---------------------------------------------------------------------------

#[test]
fn test_create_multisig_2_of_3() {
    let create_key = [1u8; 32];
    let members: Vec<[u8; 32]> = vec![key(10), key(11), key(12)];

    let mut accounts = vec![acct(99, vec![], false)];
    for m in &members {
        accounts.push(AccountWithMetadata { account_id: *m, data: vec![], is_authorized: false });
    }

    let (post_states, chained) = create_multisig(&accounts, &create_key, 2, &members).unwrap();

    assert!(chained.is_empty());
    assert_eq!(post_states.len(), 4);
    assert!(post_states.iter().all(|p| p.claimed));

    let state = decode_state(&post_states[0].data).unwrap();
    assert_eq!(state.threshold, 2);
    assert_eq!(state.member_count, 3);
    assert_eq!(state.members, members);
    assert_eq!(state.create_key, create_key);
    assert_eq!(state.transaction_index, 0);
}

#[test]
fn test_create_multisig_zero_threshold_fails() {
    let members: Vec<[u8; 32]> = vec![key(10)];
    let accounts = vec![acct(99, vec![], false), acct(10, vec![], false)];
    let r = create_multisig(&accounts, &[1u8; 32], 0, &members);
    assert_eq!(r, Err(MultisigError::ValidationError));
}

#[test]
fn test_create_multisig_threshold_exceeds_members_fails() {
    let members: Vec<[u8; 32]> = vec![key(10), key(11)];
    let accounts = vec![
        acct(99, vec![], false),
        acct(10, vec![], false),
        acct(11, vec![], false),
    ];
    let r = create_multisig(&accounts, &[1u8; 32], 3, &members);
    assert_eq!(r, Err(MultisigError::ValidationError));
}

#[test]
fn test_create_multisig_too_many_members_fails() {
    let members: Vec<[u8; 32]> = (0u8..11).map(|i| [i; 32]).collect();
    let mut accounts = vec![acct(99, vec![], false)];
    for m in &members {
        accounts.push(AccountWithMetadata { account_id: *m, data: vec![], is_authorized: false });
    }
    let r = create_multisig(&accounts, &[1u8; 32], 1, &members);
    assert_eq!(r, Err(MultisigError::ValidationError));
}

#[test]
fn test_create_multisig_ten_members_is_the_cap() {
    let members: Vec<[u8; 32]> = (0u8..10).map(|i| [i; 32]).collect();
    let mut accounts = vec![acct(99, vec![], false)];
    for m in &members {
        accounts.push(AccountWithMetadata { account_id: *m, data: vec![], is_authorized: false });
    }
    let (posts, _) = create_multisig(&accounts, &[1u8; 32], 10, &members).unwrap();
    let state = decode_state(&posts[0].data).unwrap();
    assert_eq!(state.member_count, 10);
    assert_eq!(state.threshold, 10);
}

#[test]
fn test_create_multisig_already_initialized_fails() {
    let members: Vec<[u8; 32]> = vec![key(10)];
    let accounts = vec![acct(99, vec![1u8; 10], false), acct(10, vec![], false)];
    let r = create_multisig(&accounts, &[1u8; 32], 1, &members);
    assert_eq!(r, Err(MultisigError::ConflictError));
}

// ---------------------------------------------------------------------------
// Propose
// ---------------------------------------------------------------------------

#[test]
fn test_propose_creates_proposal_and_increments_index() {
    let members = vec![key(1), key(2), key(3)];
    let state_data = state_bytes([0u8; 32], 2, members, 0);

    let accounts = vec![
        acct(10, state_data, false),
        acct(1, vec![], true),
        acct(20, vec![], false),
    ];

    let program_id: [u32; 8] = [42u32; 8];
    let (post_states, chained) =
        propose(&accounts, &program_id, &vec![0u8], 1, &vec![], &vec![]).unwrap();

    assert!(chained.is_empty());
    assert_eq!(post_states.len(), 3);

    let state = decode_state(&post_states[0].data).unwrap();
    assert_eq!(state.transaction_index, 1);

    let proposal = decode_proposal(&post_states[2].data).unwrap();
    assert_eq!(proposal.index, 1);
    assert_eq!(proposal.proposer, key(1));
    assert_eq!(proposal.approved, vec![key(1)]);
    assert_eq!(proposal.status, ProposalStatus::Active);
    assert!(post_states[2].claimed);
}

#[test]
fn test_propose_non_member_fails() {
    let members = vec![key(1), key(2)];
    let state_data = state_bytes([0u8; 32], 2, members, 0);
    let accounts = vec![
        acct(10, state_data, false),
        acct(99, vec![], true),
        acct(20, vec![], false),
    ];
    let r = propose(&accounts, &[42u32; 8], &vec![0u8], 1, &vec![], &vec![]);
    assert_eq!(r, Err(MultisigError::AuthorizationError));
}

#[test]
fn test_propose_unsigned_fails() {
    let members = vec![key(1), key(2)];
    let state_data = state_bytes([0u8; 32], 2, members, 0);
    let accounts = vec![
        acct(10, state_data, false),
        acct(1, vec![], false),
        acct(20, vec![], false),
    ];
    let r = propose(&accounts, &[42u32; 8], &vec![0u8], 1, &vec![], &vec![]);
    assert_eq!(r, Err(MultisigError::AuthorizationError));
}

#[test]
fn test_propose_existing_proposal_account_fails() {
    let members = vec![key(1), key(2)];
    let state_data = state_bytes([0u8; 32], 2, members, 0);
    let accounts = vec![
        acct(10, state_data, false),
        acct(1, vec![], true),
        acct(20, vec![7u8; 4], false),
    ];
    let r = propose(&accounts, &[42u32; 8], &vec![0u8], 1, &vec![], &vec![]);
    assert_eq!(r, Err(MultisigError::ConflictError));
}

#[test]
fn test_propose_missing_state_fails() {
    let accounts = vec![
        acct(10, vec![], false),
        acct(1, vec![], true),
        acct(20, vec![], false),
    ];
    let r = propose(&accounts, &[42u32; 8], &vec![0u8], 1, &vec![], &vec![]);
    assert_eq!(r, Err(MultisigError::NotFoundError));
}

// ---------------------------------------------------------------------------
// ProposeConfig
// ---------------------------------------------------------------------------

#[test]
fn test_propose_add_member() {
    let members = vec![key(1), key(2), key(3)];
    let state_data = state_bytes([0u8; 32], 2, members, 0);
    let accounts = vec![
        acct(10, state_data, false),
        acct(1, vec![], true),
        acct(20, vec![], false),
    ];

    let action = ConfigAction::AddMember { new_member: key(4) };
    let (post_states, chained) = propose_config(&accounts, action).unwrap();

    assert!(chained.is_empty());
    assert_eq!(post_states.len(), 3);

    let proposal = decode_proposal(&post_states[2].data).unwrap();
    assert_eq!(proposal.config_action, Some(ConfigAction::AddMember { new_member: key(4) }));
    assert_eq!(proposal.target_account_count, 0);
}

#[test]
fn test_propose_remove_member() {
    let members = vec![key(1), key(2), key(3)];
    let state_data = state_bytes([0u8; 32], 2, members, 0);
    let accounts = vec![
        acct(10, state_data, false),
        acct(1, vec![], true),
        acct(20, vec![], false),
    ];

    let (post_states, chained) =
        propose_config(&accounts, ConfigAction::RemoveMember { member: key(2) }).unwrap();

    assert!(chained.is_empty());
    let proposal = decode_proposal(&post_states[2].data).unwrap();
    assert_eq!(proposal.config_action, Some(ConfigAction::RemoveMember { member: key(2) }));
}

#[test]
fn test_propose_change_threshold() {
    let members = vec![key(1), key(2), key(3)];
    let state_data = state_bytes([0u8; 32], 2, members, 0);
    let accounts = vec![
        acct(10, state_data, false),
        acct(1, vec![], true),
        acct(20, vec![], false),
    ];

    let (post_states, _) =
        propose_config(&accounts, ConfigAction::ChangeThreshold { new_threshold: 3 }).unwrap();

    let proposal = decode_proposal(&post_states[2].data).unwrap();
    assert_eq!(
        proposal.config_action,
        Some(ConfigAction::ChangeThreshold { new_threshold: 3 })
    );
}

#[test]
fn test_propose_add_existing_member_fails() {
    let members = vec![key(1), key(2)];
    let state_data = state_bytes([0u8; 32], 2, members, 0);
    let accounts = vec![
        acct(10, state_data, false),
        acct(1, vec![], true),
        acct(20, vec![], false),
    ];
    let r = propose_config(&accounts, ConfigAction::AddMember { new_member: key(2) });
    assert_eq!(r, Err(MultisigError::ValidationError));
}

#[test]
fn test_propose_remove_non_member_fails() {
    let members = vec![key(1), key(2)];
    let state_data = state_bytes([0u8; 32], 2, members, 0);
    let accounts = vec![
        acct(10, state_data, false),
        acct(1, vec![], true),
        acct(20, vec![], false),
    ];
    let r = propose_config(&accounts, ConfigAction::RemoveMember { member: key(99) });
    assert_eq!(r, Err(MultisigError::ValidationError));
}

#[test]
fn test_propose_change_threshold_zero_fails() {
    let members = vec![key(1), key(2)];
    let state_data = state_bytes([0u8; 32], 2, members, 0);
    let accounts = vec![
        acct(10, state_data, false),
        acct(1, vec![], true),
        acct(20, vec![], false),
    ];
    let r = propose_config(&accounts, ConfigAction::ChangeThreshold { new_threshold: 0 });
    assert_eq!(r, Err(MultisigError::ValidationError));
}

#[test]
fn test_propose_config_non_member_fails() {
    let members = vec![key(1), key(2)];
    let state_data = state_bytes([0u8; 32], 2, members, 0);
    let accounts = vec![
        acct(10, state_data, false),
        acct(99, vec![], true),
        acct(20, vec![], false),
    ];
    let r = propose_config(&accounts, ConfigAction::AddMember { new_member: key(4) });
    assert_eq!(r, Err(MultisigError::AuthorizationError));
}

// ---------------------------------------------------------------------------
// Approve / Reject
// ---------------------------------------------------------------------------

#[test]
fn test_approve_adds_approval() {
    let members = vec![key(1), key(2), key(3)];
    let state_data = state_bytes([0u8; 32], 2, members, 1);
    let proposal = delegated_proposal(1, key(1), [0u8; 32]);

    let (post_states, _) = run_vote(&state_data, 2, &proposal, true).unwrap();

    let updated = decode_proposal(&post_states[2].data).unwrap();
    assert_eq!(updated.approved.len(), 2);
    assert!(updated.approved.contains(&key(1)));
    assert!(updated.approved.contains(&key(2)));
}

#[test]
fn test_approve_duplicate_fails() {
    let members = vec![key(1), key(2)];
    let state_data = state_bytes([0u8; 32], 2, members, 1);
    let proposal = delegated_proposal(1, key(1), [0u8; 32]);

    let r = run_vote(&state_data, 1, &proposal, true);
    assert_eq!(r, Err(MultisigError::ConflictError));
}

#[test]
fn test_approve_wrong_multisig_fails() {
    let members = vec![key(1), key(2)];
    let state_data = state_bytes([9u8; 32], 2, members, 1);
    let proposal = delegated_proposal(1, key(1), [0u8; 32]);
    let r = run_vote(&state_data, 2, &proposal, true);
    assert_eq!(r, Err(MultisigError::NotFoundError));
}

#[test]
fn test_approve_executed_proposal_fails() {
    let members = vec![key(1), key(2)];
    let state_data = state_bytes([0u8; 32], 2, members, 1);
    let mut proposal = delegated_proposal(1, key(1), [0u8; 32]);
    proposal.status = ProposalStatus::Executed;
    let r = run_vote(&state_data, 2, &proposal, true);
    assert_eq!(r, Err(MultisigError::StateError));
}

#[test]
fn test_reject_adds_rejection() {
    let members = vec![key(1), key(2), key(3)];
    let state_data = state_bytes([0u8; 32], 2, members, 1);
    let proposal = delegated_proposal(1, key(1), [0u8; 32]);

    let (post_states, _) = run_vote(&state_data, 2, &proposal, false).unwrap();

    let updated = decode_proposal(&post_states[2].data).unwrap();
    assert_eq!(updated.rejected.len(), 1);
    assert_eq!(updated.approved.len(), 1);
    assert_eq!(updated.status, ProposalStatus::Active);
}

#[test]
fn test_reject_auto_marks_dead_proposal() {
    // 2-of-2: one rejection means the threshold can never be reached.
    let members = vec![key(1), key(2)];
    let state_data = state_bytes([0u8; 32], 2, members, 1);
    let proposal = delegated_proposal(1, key(1), [0u8; 32]);

    let (post_states, _) = run_vote(&state_data, 2, &proposal, false).unwrap();

    let updated = decode_proposal(&post_states[2].data).unwrap();
    assert_eq!(updated.status, ProposalStatus::Rejected);
}

#[test]
fn test_two_rejections_kill_proposal_of_three() {
    // threshold 2 of 3 members: after 2 distinct rejections only 1 possible
    // approver is left, so the proposal dies.
    let members = vec![key(1), key(2), key(3)];
    let state_data = state_bytes([0u8; 32], 2, members, 1);
    let proposal = delegated_proposal(1, key(1), [0u8; 32]);

    let (posts, _) = run_vote(&state_data, 2, &proposal, false).unwrap();
    let mid = decode_proposal(&posts[2].data).unwrap();
    assert_eq!(mid.status, ProposalStatus::Active);

    let (posts, _) = run_vote(&state_data, 3, &mid, false).unwrap();
    let done = decode_proposal(&posts[2].data).unwrap();
    assert_eq!(done.rejected.len(), 2);
    assert_eq!(done.status, ProposalStatus::Rejected);
}

#[test]
fn test_reject_then_approve_flips_vote() {
    let members = vec![key(1), key(2), key(3)];
    let state_data = state_bytes([0u8; 32], 2, members, 1);
    let proposal = delegated_proposal(1, key(1), [0u8; 32]);

    let (posts, _) = run_vote(&state_data, 2, &proposal, false).unwrap();
    let rejected_once = decode_proposal(&posts[2].data).unwrap();
    assert!(rejected_once.rejected.contains(&key(2)));
    assert!(!rejected_once.approved.contains(&key(2)));

    let (posts, _) = run_vote(&state_data, 2, &rejected_once, true).unwrap();
    let flipped = decode_proposal(&posts[2].data).unwrap();
    assert!(flipped.approved.contains(&key(2)));
    assert!(!flipped.rejected.contains(&key(2)));
    assert_eq!(flipped.rejected.len(), 0);
    assert_eq!(flipped.approved.len(), 2);
}

// ---------------------------------------------------------------------------
// Execute
// ---------------------------------------------------------------------------

#[test]
fn test_execute_add_member() {
    let members = vec![key(1), key(2)];
    let state_data = state_bytes([0u8; 32], 2, members, 1);
    let proposal = Proposal::new_config(
        1,
        key(1),
        [0u8; 32],
        ConfigAction::AddMember { new_member: key(3) },
    );
    let (posts, _) = run_vote(&state_data, 2, &proposal, true).unwrap();
    let approved = decode_proposal(&posts[2].data).unwrap();

    let accounts = vec![
        acct(10, state_data, false),
        acct(1, vec![], true),
        acct(20, encode_proposal(&approved), false),
    ];
    let (post_states, chained) = execute(&accounts, 1).unwrap();

    assert!(chained.is_empty());
    let state = decode_state(&post_states[0].data).unwrap();
    assert_eq!(state.members.len(), 3);
    assert!(state.members.contains(&key(3)));
    assert_eq!(state.member_count, 3);
    let done = decode_proposal(&post_states[2].data).unwrap();
    assert_eq!(done.status, ProposalStatus::Executed);
}

#[test]
fn test_execute_change_threshold() {
    let members = vec![key(1), key(2), key(3)];
    let state_data = state_bytes([0u8; 32], 2, members, 1);
    let proposal = Proposal::new_config(
        1,
        key(1),
        [0u8; 32],
        ConfigAction::ChangeThreshold { new_threshold: 3 },
    );
    let (posts, _) = run_vote(&state_data, 2, &proposal, true).unwrap();
    let approved = decode_proposal(&posts[2].data).unwrap();

    let accounts = vec![
        acct(10, state_data, false),
        acct(1, vec![], true),
        acct(20, encode_proposal(&approved), false),
    ];
    let (post_states, _) = execute(&accounts, 1).unwrap();

    let state = decode_state(&post_states[0].data).unwrap();
    assert_eq!(state.threshold, 3);
}

#[test]
fn test_execute_insufficient_approvals() {
    // threshold 2, but only the auto-approving proposer has approved.
    let members = vec![key(1), key(2), key(3)];
    let state_data = state_bytes([0u8; 32], 2, members, 1);
    let proposal = delegated_proposal(1, key(1), [0u8; 32]);

    let accounts = vec![
        acct(10, state_data, false),
        acct(1, vec![], true),
        acct(20, encode_proposal(&proposal), false),
        acct(50, vec![], false),
    ];
    let r = execute(&accounts, 1);
    assert_eq!(r, Err(MultisigError::GuardError));
}

#[test]
fn test_execute_wrong_account_count_fails() {
    let members = vec![key(1), key(2)];
    let state_data = state_bytes([0u8; 32], 2, members, 1);
    let proposal = delegated_proposal(1, key(1), [0u8; 32]);
    let (posts, _) = run_vote(&state_data, 2, &proposal, true).unwrap();
    let approved = decode_proposal(&posts[2].data).unwrap();

    // The proposal records one target account; none is supplied.
    let accounts = vec![
        acct(10, state_data, false),
        acct(1, vec![], true),
        acct(20, encode_proposal(&approved), false),
    ];
    let r = execute(&accounts, 1);
    assert_eq!(r, Err(MultisigError::GuardError));
}

#[test]
fn test_removal_guard_blocks_execute_despite_full_approval() {
    // 3 members, threshold 3: removing anyone would leave 2 < 3, so even a
    // 3-of-3 approved removal fails at execute time.
    let members = vec![key(1), key(2), key(3)];
    let state_data = state_bytes([0u8; 32], 3, members, 1);
    let proposal = Proposal::new_config(
        1,
        key(1),
        [0u8; 32],
        ConfigAction::RemoveMember { member: key(3) },
    );
    let (posts, _) = run_vote(&state_data, 2, &proposal, true).unwrap();
    let two = decode_proposal(&posts[2].data).unwrap();
    let (posts, _) = run_vote(&state_data, 3, &two, true).unwrap();
    let three = decode_proposal(&posts[2].data).unwrap();
    assert_eq!(three.approved.len(), 3);

    let accounts = vec![
        acct(10, state_data, false),
        acct(1, vec![], true),
        acct(20, encode_proposal(&three), false),
    ];
    let r = execute(&accounts, 1);
    assert_eq!(r, Err(MultisigError::GuardError));
}

// ---------------------------------------------------------------------------
// End to end
// ---------------------------------------------------------------------------

#[test]
fn test_delegated_transfer_end_to_end() {
    // Create a 2-of-3 multisig {A, B, C}.
    let create_key = [5u8; 32];
    let a = key(1);
    let b = key(2);
    let c = key(3);
    let members = vec![a, b, c];
    let mut accounts = vec![acct(99, vec![], false)];
    for m in &members {
        accounts.push(AccountWithMetadata { account_id: *m, data: vec![], is_authorized: false });
    }
    let (posts, _) = create_multisig(&accounts, &create_key, 2, &members).unwrap();
    let state_data = posts[0].data.clone();

    // A proposes a delegated transfer; the proposer auto-approves.
    let target: [u32; 8] = [7u32; 8];
    let payload = vec![1u8, 2, 3];
    let seeds = vec![multisig_core::pda::vault_pda_seed_bytes(&create_key)];
    let accounts = vec![
        acct(10, state_data.clone(), false),
        AccountWithMetadata { account_id: a, data: vec![], is_authorized: true },
        acct(20, vec![], false),
    ];
    let (posts, _) = propose(&accounts, &target, &payload, 1, &seeds, &vec![0u8]).unwrap();
    let state_data = posts[0].data.clone();
    let proposal_data = posts[2].data.clone();
    let one_vote = decode_proposal(&proposal_data).unwrap();
    assert_eq!(one_vote.approved.len(), 1);

    // B approves: 2 of 2 needed.
    let accounts = vec![
        acct(10, state_data.clone(), false),
        AccountWithMetadata { account_id: b, data: vec![], is_authorized: true },
        acct(20, proposal_data, false),
    ];
    let (posts, _) = approve(&accounts, 1).unwrap();
    let proposal_data = posts[2].data.clone();
    assert_eq!(decode_proposal(&proposal_data).unwrap().approved.len(), 2);

    // A executes: exactly one delegated call comes out.
    let accounts = vec![
        acct(10, state_data.clone(), false),
        AccountWithMetadata { account_id: a, data: vec![], is_authorized: true },
        acct(20, proposal_data, false),
        acct(50, vec![], false),
    ];
    let (posts, calls) = execute(&accounts, 1).unwrap();
    assert_eq!(calls.len(), 1);
    assert_eq!(calls[0].target_program_id, target);
    assert_eq!(calls[0].target_instruction_data, vec![1u8, 2, 3]);
    assert_eq!(calls[0].accounts.len(), 1);
    assert_eq!(calls[0].accounts[0].account_id, key(50));
    assert!(calls[0].accounts[0].is_authorized);
    assert_eq!(calls[0].pda_seeds, seeds);
    let executed_data = posts[2].data.clone();
    assert_eq!(decode_proposal(&executed_data).unwrap().status, ProposalStatus::Executed);
    // C was never needed, and the member who did not vote is untouched.
    assert!(!decode_proposal(&executed_data).unwrap().approved.contains(&c));

    // Executing the same proposal again is a state error.
    let accounts = vec![
        acct(10, state_data, false),
        AccountWithMetadata { account_id: a, data: vec![], is_authorized: true },
        acct(20, executed_data, false),
        acct(50, vec![], false),
    ];
    let r = execute(&accounts, 1);
    assert_eq!(r, Err(MultisigError::StateError));
}

#[test]
fn test_member_management_end_to_end() {
    // 2-of-3 multisig {A, B, C}; grow it, tighten it, shrink it, and hit the
    // removal guard.
    let a = 1u8;
    let b = 2u8;
    let c = 3u8;
    let d = 4u8;
    let mut state_data = state_bytes([0u8; 32], 2, vec![key(a), key(b), key(c)], 0);

    let run_config = |state_data: &[u8], action: ConfigAction, approvers: &[u8], index: u64| {
        let accounts = vec![
            acct(10, state_data.to_vec(), false),
            acct(approvers[0], vec![], true),
            acct(20, vec![], false),
        ];
        let (posts, _) = propose_config(&accounts, action).unwrap();
        let new_state = posts[0].data.clone();
        let mut proposal = decode_proposal(&posts[2].data).unwrap();
        for voter in &approvers[1..] {
            let (posts, _) = run_vote(&new_state, *voter, &proposal, true).unwrap();
            proposal = decode_proposal(&posts[2].data).unwrap();
        }
        let accounts = vec![
            acct(10, new_state, false),
            acct(approvers[0], vec![], true),
            acct(20, encode_proposal(&proposal), false),
        ];
        (execute(&accounts, index), index)
    };

    // AddMember(D): member_count 4, threshold unchanged.
    let (r, _) = run_config(
        &state_data,
        ConfigAction::AddMember { new_member: key(d) },
        &[a, b],
        1,
    );
    let (posts, _) = r.unwrap();
    state_data = posts[0].data.clone();
    let state = decode_state(&state_data).unwrap();
    assert_eq!(state.member_count, 4);
    assert_eq!(state.threshold, 2);

    // ChangeThreshold(3).
    let (r, _) = run_config(
        &state_data,
        ConfigAction::ChangeThreshold { new_threshold: 3 },
        &[a, b],
        2,
    );
    let (posts, _) = r.unwrap();
    state_data = posts[0].data.clone();
    assert_eq!(decode_state(&state_data).unwrap().threshold, 3);

    // RemoveMember(D) with 3-of-4 approval succeeds: 3 remain, threshold 3.
    let (r, _) = run_config(
        &state_data,
        ConfigAction::RemoveMember { member: key(d) },
        &[a, b, c],
        3,
    );
    let (posts, _) = r.unwrap();
    state_data = posts[0].data.clone();
    let state = decode_state(&state_data).unwrap();
    assert_eq!(state.member_count, 3);
    assert!(!state.members.contains(&key(d)));

    // RemoveMember(C) with every remaining member approving still fails:
    // 2 members would be left under a threshold of 3.
    let (r, _) = run_config(
        &state_data,
        ConfigAction::RemoveMember { member: key(c) },
        &[a, b, c],
        4,
    );
    assert_eq!(r, Err(MultisigError::GuardError));
}

// ---------------------------------------------------------------------------
// Dispatcher
// ---------------------------------------------------------------------------

#[test]
fn test_process_routes_instructions() {
    let members = vec![key(1), key(2), key(3)];
    let state_data = state_bytes([0u8; 32], 2, members.clone(), 0);
    let accounts = vec![
        acct(10, state_data.clone(), false),
        acct(1, vec![], true),
        acct(20, vec![], false),
    ];

    let direct = propose_add_member(&accounts, key(4)).unwrap();
    let routed = process(&accounts, Instruction::ProposeAddMember { new_member: key(4) }).unwrap();
    assert_eq!(direct, routed);

    let direct = propose_remove_member(&accounts, key(2)).unwrap();
    let routed = process(&accounts, Instruction::ProposeRemoveMember { member: key(2) }).unwrap();
    assert_eq!(direct, routed);

    let direct = propose_change_threshold(&accounts, 3).unwrap();
    let routed =
        process(&accounts, Instruction::ProposeChangeThreshold { new_threshold: 3 }).unwrap();
    assert_eq!(direct, routed);

    let proposal = delegated_proposal(1, key(1), [0u8; 32]);
    let vote_accounts = vec![
        acct(10, state_bytes([0u8; 32], 2, members, 1), false),
        acct(2, vec![], true),
        acct(20, encode_proposal(&proposal), false),
    ];
    let direct = approve(&vote_accounts, 1).unwrap();
    let routed = process(&vote_accounts, Instruction::Approve { proposal_index: 1 }).unwrap();
    assert_eq!(direct, routed);

    let direct = reject(&vote_accounts, 1).unwrap();
    let routed = process(&vote_accounts, Instruction::Reject { proposal_index: 1 }).unwrap();
    assert_eq!(direct, routed);
}
