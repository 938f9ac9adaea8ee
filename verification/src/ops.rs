//! The governance operations on records.
//!
//! Each operation is a pure function from (pre-state records, authenticated
//! caller identity, arguments) to (post-state records, at most one delegated
//! call). The caller identity is assumed to be authenticated by the
//! surrounding system; these functions decide authorization (membership) and
//! the guards. Each function's result equals its spec transition exactly, so
//! the contracts say both when an operation succeeds and with which error it
//! fails otherwise.

use vstd::prelude::*;

use crate::error::MultisigError;
use crate::model::{
    config_proposal_view, contains_u8, delegated_proposal_view, key_eq, keys_view,
    lemma_keys_view_push, remove_key, vec_remove_key, ConfigAction, ConfigActionView, Key32,
    MultisigState, ProgramId, Proposal, ProposalStatus, ProposalView, StateView, MAX_MEMBERS,
};

verus! {

// ---------------------------------------------------------------------------
// The delegated call that a successful execute emits
// ---------------------------------------------------------------------------

/// One account handed to the target program, with its privilege flag.
#[derive(Debug, Clone, PartialEq, Eq)]
pub struct CallAccount {
    pub account_id: Key32,
    pub is_authorized: bool,
}

/// The mathematical shape of a [`CallAccount`].
#[verifier::ext_equal]
pub struct CallAccountView {
    pub account_id: Seq<u8>,
    pub is_authorized: bool,
}

impl View for CallAccount {
    type V = CallAccountView;

    open spec fn view(&self) -> CallAccountView {
        CallAccountView { account_id: self.account_id@, is_authorized: self.is_authorized }
    }
}

/// The delegated-call request a successful execute emits: the whole contract
/// with the target program. The engine never interprets the instruction
/// bytes; privilege is proven to the target via the derivation seeds.
#[derive(Debug, Clone, PartialEq, Eq)]
pub struct ChainedCall {
    /// The program to invoke.
    pub target_program_id: ProgramId,
    /// Opaque instruction bytes for that program.
    pub target_instruction_data: Vec<u8>,
    /// The ordered target accounts, flagged privileged at the proposal's
    /// recorded indices.
    pub accounts: Vec<CallAccount>,
    /// Derivation seeds under which the surrounding system grants authority.
    pub pda_seeds: Vec<Key32>,
}

/// The mathematical shape of a [`ChainedCall`].
#[verifier::ext_equal]
pub struct ChainedCallView {
    pub target_program_id: Seq<u32>,
    pub target_instruction_data: Seq<u8>,
    pub accounts: Seq<CallAccountView>,
    pub pda_seeds: Seq<Seq<u8>>,
}

impl View for ChainedCall {
    type V = ChainedCallView;

    open spec fn view(&self) -> ChainedCallView {
        ChainedCallView {
            target_program_id: self.target_program_id@,
            target_instruction_data: self.target_instruction_data@,
            accounts: self.accounts@.map_values(|a: CallAccount| a@),
            pda_seeds: keys_view(self.pda_seeds@),
        }
    }
}

/// The call that executing the delegated-call proposal `p` with the given
/// target accounts emits: account `i` is privileged exactly when `i` is among
/// the proposal's `authorized_indices`.
pub open spec fn spec_chained_call(p: ProposalView, targets: Seq<Seq<u8>>) -> ChainedCallView {
    ChainedCallView {
        target_program_id: p.target_program_id,
        target_instruction_data: p.target_instruction_data,
        accounts: Seq::new(
            targets.len(),
            |i: int|
                CallAccountView {
                    account_id: targets[i],
                    is_authorized: p.authorized_indices.contains(i as u8),
                },
        ),
        pda_seeds: p.pda_seeds,
    }
}

// ---------------------------------------------------------------------------
// Spec transitions
// ---------------------------------------------------------------------------

/// What creating a multisig yields: a fresh record with the counter at zero,
/// or `ValidationError` unless `1 <= threshold <= members.len() <= 10`.
pub open spec fn spec_create_multisig(
    create_key: Seq<u8>,
    threshold: u8,
    members: Seq<Seq<u8>>,
) -> Result<StateView, MultisigError> {
    if 1 <= threshold && threshold <= members.len() && members.len() <= MAX_MEMBERS {
        Ok(
            StateView {
                create_key,
                threshold,
                member_count: members.len() as u8,
                members,
                transaction_index: 0,
            },
        )
    } else {
        Err(MultisigError::ValidationError)
    }
}

/// What proposing a delegated call yields: the counter stepped and a fresh
/// proposal at the new index, or `AuthorizationError` for a non-member.
pub open spec fn spec_propose(
    s: StateView,
    proposer: Seq<u8>,
    target_program_id: Seq<u32>,
    target_instruction_data: Seq<u8>,
    target_account_count: u8,
    pda_seeds: Seq<Seq<u8>>,
    authorized_indices: Seq<u8>,
) -> Result<(StateView, ProposalView), MultisigError> {
    if !s.is_member(proposer) {
        Err(MultisigError::AuthorizationError)
    } else {
        let index = (s.transaction_index + 1) as u64;
        Ok(
            (
                StateView { transaction_index: index, ..s },
                delegated_proposal_view(
                    index,
                    proposer,
                    s.create_key,
                    target_program_id,
                    target_instruction_data,
                    target_account_count,
                    pda_seeds,
                    authorized_indices,
                ),
            ),
        )
    }
}

/// The advisory pre-check of a config action at propose time; each is
/// re-validated against live state at execute time, because membership may
/// drift in between.
pub open spec fn spec_config_precheck(s: StateView, action: ConfigActionView) -> bool {
    match action {
        ConfigActionView::AddMember { new_member } => !s.is_member(new_member)
            && s.member_count < MAX_MEMBERS,
        ConfigActionView::RemoveMember { member } => s.is_member(member),
        ConfigActionView::ChangeThreshold { new_threshold } => new_threshold >= 1,
    }
}

/// What proposing a config change yields: `AuthorizationError` for a
/// non-member, `ValidationError` when the advisory pre-check fails, else the
/// counter stepped and a fresh config proposal at the new index.
pub open spec fn spec_propose_config(
    s: StateView,
    proposer: Seq<u8>,
    action: ConfigActionView,
) -> Result<(StateView, ProposalView), MultisigError> {
    if !s.is_member(proposer) {
        Err(MultisigError::AuthorizationError)
    } else if !spec_config_precheck(s, action) {
        Err(MultisigError::ValidationError)
    } else {
        let index = (s.transaction_index + 1) as u64;
        Ok(
            (
                StateView { transaction_index: index, ..s },
                config_proposal_view(index, proposer, s.create_key, action),
            ),
        )
    }
}

/// What a yes vote yields: `AuthorizationError` for a non-member,
/// `NotFoundError` when the proposal belongs to another multisig,
/// `StateError` off the `Active` status, `ConflictError` for a duplicate
/// approval, else the vote flipped into `approved`.
pub open spec fn spec_approve(s: StateView, p: ProposalView, voter: Seq<u8>) -> Result<
    ProposalView,
    MultisigError,
> {
    if !s.is_member(voter) {
        Err(MultisigError::AuthorizationError)
    } else if p.multisig_create_key != s.create_key {
        Err(MultisigError::NotFoundError)
    } else if !(p.status is Active) {
        Err(MultisigError::StateError)
    } else if p.approved.contains(voter) {
        Err(MultisigError::ConflictError)
    } else {
        Ok(p.with_approval(voter))
    }
}

/// What a no vote yields, mirror of [`spec_approve`]; additionally, when the
/// rejections leave fewer possible approvers than the threshold, the proposal
/// is dead and its status becomes `Rejected` at once.
pub open spec fn spec_reject(s: StateView, p: ProposalView, voter: Seq<u8>) -> Result<
    ProposalView,
    MultisigError,
> {
    if !s.is_member(voter) {
        Err(MultisigError::AuthorizationError)
    } else if p.multisig_create_key != s.create_key {
        Err(MultisigError::NotFoundError)
    } else if !(p.status is Active) {
        Err(MultisigError::StateError)
    } else if p.rejected.contains(voter) {
        Err(MultisigError::ConflictError)
    } else {
        let p2 = p.with_rejection(voter);
        if p2.is_dead(s.threshold, s.member_count) {
            Ok(p2.with_status(ProposalStatus::Rejected))
        } else {
            Ok(p2)
        }
    }
}

/// What executing yields: `AuthorizationError` for a non-member executor,
/// `NotFoundError` when the proposal belongs to another multisig,
/// `StateError` off `Active`, `GuardError` short of the threshold; then
/// either the one delegated call (with the exact recorded account count), or
/// the config change re-validated against live state — any re-validation
/// failure is a `GuardError` and leaves the state unchanged.
pub open spec fn spec_execute(
    s: StateView,
    p: ProposalView,
    executor: Seq<u8>,
    targets: Seq<Seq<u8>>,
) -> Result<(StateView, ProposalView, Option<ChainedCallView>), MultisigError> {
    if !s.is_member(executor) {
        Err(MultisigError::AuthorizationError)
    } else if p.multisig_create_key != s.create_key {
        Err(MultisigError::NotFoundError)
    } else if !(p.status is Active) {
        Err(MultisigError::StateError)
    } else if p.approved.len() < s.threshold {
        Err(MultisigError::GuardError)
    } else {
        let executed = p.with_status(ProposalStatus::Executed);
        match p.config_action {
            None => {
                if targets.len() != p.target_account_count {
                    Err(MultisigError::GuardError)
                } else {
                    Ok((s, executed, Some(spec_chained_call(p, targets))))
                }
            },
            Some(ConfigActionView::AddMember { new_member }) => {
                if s.is_member(new_member) || s.members.len() >= MAX_MEMBERS {
                    Err(MultisigError::GuardError)
                } else {
                    let members = s.members.push(new_member);
                    Ok(
                        (
                            StateView {
                                members,
                                member_count: members.len() as u8,
                                ..s
                            },
                            executed,
                            None,
                        ),
                    )
                }
            },
            Some(ConfigActionView::RemoveMember { member }) => {
                if !s.is_member(member) {
                    Err(MultisigError::GuardError)
                } else {
                    let members = remove_key(s.members, member);
                    if members.len() < s.threshold {
                        Err(MultisigError::GuardError)
                    } else {
                        Ok(
                            (
                                StateView {
                                    members,
                                    member_count: members.len() as u8,
                                    ..s
                                },
                                executed,
                                None,
                            ),
                        )
                    }
                }
            },
            Some(ConfigActionView::ChangeThreshold { new_threshold }) => {
                if !(1 <= new_threshold && new_threshold <= s.members.len()) {
                    Err(MultisigError::GuardError)
                } else {
                    Ok((StateView { threshold: new_threshold, ..s }, executed, None))
                }
            },
        }
    }
}

// ---------------------------------------------------------------------------
// Executable operations
// ---------------------------------------------------------------------------

/// Create a fresh multisig record. Succeeds exactly when
/// `1 <= threshold <= members.len() <= 10`; creation is otherwise
/// permissionless — uniqueness comes from the caller-chosen `create_key`, not
/// from access control.
pub fn create_multisig(create_key: Key32, threshold: u8, members: Vec<Key32>) -> (r: Result<
    MultisigState,
    MultisigError,
>)
    ensures
        match r {
            Ok(s) => spec_create_multisig(create_key@, threshold, keys_view(members@)) == Ok::<
                StateView,
                MultisigError,
            >(s@) && s@.well_formed(),
            Err(e) => spec_create_multisig(create_key@, threshold, keys_view(members@)) == Err::<
                StateView,
                MultisigError,
            >(e),
        },
        r is Ok <==> 1 <= threshold && threshold as int <= members@.len() && members@.len()
            <= MAX_MEMBERS,
{
    if members.is_empty() || threshold < 1 {
        return Err(MultisigError::ValidationError);
    }
    if (threshold as usize) > members.len() || members.len() > MAX_MEMBERS {
        return Err(MultisigError::ValidationError);
    }
    Ok(MultisigState::new(create_key, threshold, members))
}

/// Create a delegated-call proposal: the proposer must be a member; the
/// counter steps and the fresh proposal, auto-approved by its proposer,
/// carries the new index.
pub fn propose(
    state: MultisigState,
    proposer: Key32,
    target_program_id: ProgramId,
    target_instruction_data: Vec<u8>,
    target_account_count: u8,
    pda_seeds: Vec<Key32>,
    authorized_indices: Vec<u8>,
) -> (r: Result<(MultisigState, Proposal), MultisigError>)
    requires
        state.transaction_index < u64::MAX,
    ensures
        match r {
            Ok(out) => spec_propose(
                state@,
                proposer@,
                target_program_id@,
                target_instruction_data@,
                target_account_count,
                keys_view(pda_seeds@),
                authorized_indices@,
            ) == Ok::<_, MultisigError>((out.0@, out.1@)) && out.1@.well_formed(),
            Err(e) => spec_propose(
                state@,
                proposer@,
                target_program_id@,
                target_instruction_data@,
                target_account_count,
                keys_view(pda_seeds@),
                authorized_indices@,
            ) == Err::<(StateView, ProposalView), _>(e),
        },
        r is Ok <==> state@.is_member(proposer@),
{
    let mut state = state;
    if !state.is_member(&proposer) {
        return Err(MultisigError::AuthorizationError);
    }
    let index = state.next_proposal_index();
    let proposal = Proposal::new(
        index,
        proposer,
        state.create_key,
        target_program_id,
        target_instruction_data,
        target_account_count,
        pda_seeds,
        authorized_indices,
    );
    Ok((state, proposal))
}

/// Create a config-change proposal: the proposer must be a member and the
/// action must pass its advisory pre-check; it is re-validated at execute
/// time against live state.
pub fn propose_config(state: MultisigState, proposer: Key32, action: ConfigAction) -> (r: Result<
    (MultisigState, Proposal),
    MultisigError,
>)
    requires
        state.transaction_index < u64::MAX,
    ensures
        match r {
            Ok(out) => spec_propose_config(state@, proposer@, action@) == Ok::<_, MultisigError>(
                (out.0@, out.1@),
            ) && out.1@.well_formed(),
            Err(e) => spec_propose_config(state@, proposer@, action@) == Err::<
                (StateView, ProposalView),
                _,
            >(e),
        },
        r is Ok <==> state@.is_member(proposer@) && spec_config_precheck(state@, action@),
{
    let mut state = state;
    if !state.is_member(&proposer) {
        return Err(MultisigError::AuthorizationError);
    }
    let precheck_ok = match &action {
        ConfigAction::AddMember { new_member } => !state.is_member(new_member)
            && (state.member_count as usize) < MAX_MEMBERS,
        ConfigAction::RemoveMember { member } => state.is_member(member),
        ConfigAction::ChangeThreshold { new_threshold } => *new_threshold >= 1,
    };
    if !precheck_ok {
        return Err(MultisigError::ValidationError);
    }
    let index = state.next_proposal_index();
    let proposal = Proposal::new_config(index, proposer, state.create_key, action);
    Ok((state, proposal))
}

/// Record a yes vote on a proposal of this multisig. A duplicate approval by
/// the same member fails with `ConflictError` and changes nothing.
pub fn approve_vote(state: &MultisigState, proposal: Proposal, voter: Key32) -> (r: Result<
    Proposal,
    MultisigError,
>)
    ensures
        match r {
            Ok(p2) => spec_approve(state@, proposal@, voter@) == Ok::<_, MultisigError>(p2@),
            Err(e) => spec_approve(state@, proposal@, voter@) == Err::<ProposalView, _>(e),
        },
{
    let mut proposal = proposal;
    if !state.is_member(&voter) {
        return Err(MultisigError::AuthorizationError);
    }
    if !key_eq(&proposal.multisig_create_key, &state.create_key) {
        return Err(MultisigError::NotFoundError);
    }
    if !matches!(proposal.status, ProposalStatus::Active) {
        return Err(MultisigError::StateError);
    }
    if !proposal.approve(voter) {
        return Err(MultisigError::ConflictError);
    }
    Ok(proposal)
}

/// Record a no vote on a proposal of this multisig. A duplicate rejection
/// fails with `ConflictError`; a rejection that leaves fewer possible
/// approvers than the threshold turns the status to `Rejected` at once.
pub fn reject_vote(state: &MultisigState, proposal: Proposal, voter: Key32) -> (r: Result<
    Proposal,
    MultisigError,
>)
    ensures
        match r {
            Ok(p2) => spec_reject(state@, proposal@, voter@) == Ok::<_, MultisigError>(p2@),
            Err(e) => spec_reject(state@, proposal@, voter@) == Err::<ProposalView, _>(e),
        },
{
    let mut proposal = proposal;
    if !state.is_member(&voter) {
        return Err(MultisigError::AuthorizationError);
    }
    if !key_eq(&proposal.multisig_create_key, &state.create_key) {
        return Err(MultisigError::NotFoundError);
    }
    if !matches!(proposal.status, ProposalStatus::Active) {
        return Err(MultisigError::StateError);
    }
    if !proposal.reject(voter) {
        return Err(MultisigError::ConflictError);
    }
    if proposal.is_dead(state.threshold, state.member_count) {
        proposal.status = ProposalStatus::Rejected;
    }
    Ok(proposal)
}

/// Execute a proposal with at least `threshold` approvals. A delegated-call
/// proposal leaves the state untouched and emits exactly one [`ChainedCall`]
/// over the given target accounts, which must be exactly as many as recorded.
/// A config proposal mutates the state, re-validated against live membership:
/// any re-validation failure is a `GuardError` with no partial effect.
pub fn execute(
    state: MultisigState,
    proposal: Proposal,
    executor: Key32,
    target_accounts: Vec<Key32>,
) -> (r: Result<(MultisigState, Proposal, Option<ChainedCall>), MultisigError>)
    ensures
        match r {
            Ok(out) => spec_execute(state@, proposal@, executor@, keys_view(target_accounts@))
                == Ok::<_, MultisigError>(
                (
                    out.0@,
                    out.1@,
                    match out.2 {
                        Some(c) => Some(c@),
                        None => None,
                    },
                ),
            ),
            Err(e) => spec_execute(state@, proposal@, executor@, keys_view(target_accounts@))
                == Err::<(StateView, ProposalView, Option<ChainedCallView>), _>(e),
        },
{
    let mut state = state;
    let mut proposal = proposal;
    if !state.is_member(&executor) {
        return Err(MultisigError::AuthorizationError);
    }
    if !key_eq(&proposal.multisig_create_key, &state.create_key) {
        return Err(MultisigError::NotFoundError);
    }
    if !matches!(proposal.status, ProposalStatus::Active) {
        return Err(MultisigError::StateError);
    }
    if !proposal.has_threshold(state.threshold) {
        return Err(MultisigError::GuardError);
    }
    match proposal.config_action {
        None => {
            if target_accounts.len() != proposal.target_account_count as usize {
                return Err(MultisigError::GuardError);
            }
            let call = build_chained_call(&proposal, &target_accounts);
            proposal.status = ProposalStatus::Executed;
            Ok((state, proposal, Some(call)))
        },
        Some(ConfigAction::AddMember { new_member }) => {
            if state.is_member(&new_member) || state.members.len() >= MAX_MEMBERS {
                return Err(MultisigError::GuardError);
            }
            let ghost old_members = state.members@;
            state.members.push(new_member);
            proof {
                lemma_keys_view_push(old_members, new_member);
            }
            state.member_count = state.members.len() as u8;
            proposal.status = ProposalStatus::Executed;
            Ok((state, proposal, None))
        },
        Some(ConfigAction::RemoveMember { member }) => {
            if !state.is_member(&member) {
                return Err(MultisigError::GuardError);
            }
            let remaining = vec_remove_key(&state.members, &member);
            if remaining.len() < state.threshold as usize {
                return Err(MultisigError::GuardError);
            }
            state.member_count = remaining.len() as u8;
            state.members = remaining;
            proposal.status = ProposalStatus::Executed;
            Ok((state, proposal, None))
        },
        Some(ConfigAction::ChangeThreshold { new_threshold }) => {
            if new_threshold < 1 || (new_threshold as usize) > state.members.len() {
                return Err(MultisigError::GuardError);
            }
            state.threshold = new_threshold;
            proposal.status = ProposalStatus::Executed;
            Ok((state, proposal, None))
        },
    }
}

/// The delegated call of `proposal` over the given target accounts.
fn build_chained_call(proposal: &Proposal, target_accounts: &Vec<Key32>) -> (r: ChainedCall)
    requires
        target_accounts@.len() <= u8::MAX,
    ensures
        r@ == spec_chained_call(proposal@, keys_view(target_accounts@)),
{
    let ghost goal = spec_chained_call(proposal@, keys_view(target_accounts@));
    let mut accounts: Vec<CallAccount> = Vec::new();
    let mut i: usize = 0;
    while i < target_accounts.len()
        invariant
            i <= target_accounts@.len(),
            target_accounts@.len() <= u8::MAX,
            goal == spec_chained_call(proposal@, keys_view(target_accounts@)),
            accounts@.len() == i,
            forall|j: int| 0 <= j < i ==> accounts@.map_values(|a: CallAccount| a@)[j]
                == goal.accounts[j],
        decreases target_accounts@.len() - i,
    {
        let flagged = contains_u8(&proposal.authorized_indices, i as u8);
        accounts.push(CallAccount { account_id: target_accounts[i], is_authorized: flagged });
        i += 1;
    }
    let mut pda_seeds: Vec<Key32> = Vec::new();
    let mut k: usize = 0;
    while k < proposal.pda_seeds.len()
        invariant
            k <= proposal.pda_seeds@.len(),
            pda_seeds@ == proposal.pda_seeds@.take(k as int),
        decreases proposal.pda_seeds@.len() - k,
    {
        proof {
            assert(proposal.pda_seeds@.take(k + 1) =~= proposal.pda_seeds@.take(k as int).push(
                proposal.pda_seeds@[k as int],
            ));
        }
        pda_seeds.push(proposal.pda_seeds[k]);
        k += 1;
    }
    proof {
        assert(proposal.pda_seeds@.take(proposal.pda_seeds@.len() as int) =~= proposal.pda_seeds@);
    }
    let mut data: Vec<u8> = Vec::new();
    let mut d: usize = 0;
    while d < proposal.target_instruction_data.len()
        invariant
            d <= proposal.target_instruction_data@.len(),
            data@ == proposal.target_instruction_data@.take(d as int),
        decreases proposal.target_instruction_data@.len() - d,
    {
        proof {
            assert(proposal.target_instruction_data@.take(d + 1)
                =~= proposal.target_instruction_data@.take(d as int).push(
                proposal.target_instruction_data@[d as int],
            ));
        }
        data.push(proposal.target_instruction_data[d]);
        d += 1;
    }
    proof {
        assert(proposal.target_instruction_data@.take(proposal.target_instruction_data@.len() as int)
            =~= proposal.target_instruction_data@);
    }
    let r = ChainedCall {
        target_program_id: proposal.target_program_id,
        target_instruction_data: data,
        accounts,
        pda_seeds,
    };
    proof {
        assert(r@.accounts =~= goal.accounts);
        assert(r@ =~= goal);
    }
    r
}

// ---------------------------------------------------------------------------
// Laws of the operations
// ---------------------------------------------------------------------------

/// A yes vote by a member who has not yet approved succeeds and keeps the
/// vote sets sound: the voter moves into `approved` (out of `rejected` on a
/// flip), `approved` grows by exactly one, and nothing else changes. A
/// duplicate approval fails with `ConflictError`, leaving the records as they
/// were.
pub proof fn lemma_approve_preserves_invariant(s: StateView, p: ProposalView, voter: Seq<u8>)
    requires
        p.votes_well_formed(),
    ensures
        spec_approve(s, p, voter) matches Ok(p2) ==> {
            &&& p2.votes_well_formed()
            &&& p2.approved.contains(voter)
            &&& !p2.rejected.contains(voter)
            &&& p2.approved.len() == p.approved.len() + 1
            &&& p2.status == p.status
            &&& p2.index == p.index
            &&& p2.config_action == p.config_action
        },
        s.is_member(voter) && p.multisig_create_key == s.create_key && p.status is Active
            && p.approved.contains(voter) ==> spec_approve(s, p, voter) == Err::<
            ProposalView,
            MultisigError,
        >(MultisigError::ConflictError),
{
    if spec_approve(s, p, voter) is Ok {
        crate::model::lemma_vote_flip_approve(p, voter);
    }
}

/// The mirror law for a no vote, together with dead-proposal detection: the
/// result is `Rejected` exactly when the rejections now outnumber what the
/// threshold leaves room for — `member_count - rejected.len() < threshold` —
/// and stays `Active` otherwise.
pub proof fn lemma_reject_preserves_invariant(s: StateView, p: ProposalView, voter: Seq<u8>)
    requires
        p.votes_well_formed(),
    ensures
        spec_reject(s, p, voter) matches Ok(p2) ==> {
            &&& p2.votes_well_formed()
            &&& p2.rejected.contains(voter)
            &&& !p2.approved.contains(voter)
            &&& p2.rejected.len() == p.rejected.len() + 1
            &&& (p2.status is Rejected <==> s.member_count - (p.rejected.len() + 1)
                < s.threshold)
            &&& (!(p2.status is Rejected) ==> p2.status == p.status)
        },
        s.is_member(voter) && p.multisig_create_key == s.create_key && p.status is Active
            && p.rejected.contains(voter) ==> spec_reject(s, p, voter) == Err::<
            ProposalView,
            MultisigError,
        >(MultisigError::ConflictError),
{
    if spec_reject(s, p, voter) is Ok {
        crate::model::lemma_vote_flip_reject(p, voter);
    }
}

/// A member who rejects and then approves ends up in `approved` and out of
/// `rejected`, and the two sets stay disjoint and duplicate-free after each
/// of the two steps.
pub proof fn lemma_reject_then_approve_flips(s: StateView, p: ProposalView, voter: Seq<u8>)
    requires
        p.votes_well_formed(),
        p.status is Active,
    ensures
        match spec_reject(s, p, voter) {
            Ok(p1) => !(p1.status is Rejected) ==> {
                &&& p1.votes_well_formed()
                &&& p1.rejected.contains(voter)
                &&& !p1.approved.contains(voter)
                &&& match spec_approve(s, p1, voter) {
                    Ok(p2) => {
                        &&& p2.votes_well_formed()
                        &&& p2.approved.contains(voter)
                        &&& !p2.rejected.contains(voter)
                    },
                    Err(_) => false,
                }
            },
            Err(_) => true,
        },
{
    lemma_reject_preserves_invariant(s, p, voter);
    match spec_reject(s, p, voter) {
        Ok(p1) => {
            if !(p1.status is Rejected) {
                lemma_approve_preserves_invariant(s, p1, voter);
            }
        },
        Err(_) => {},
    }
}

/// A proposal's status only ever moves `Active -> Executed` or
/// `Active -> Rejected`: once a proposal is off `Active`, every vote and
/// every execution against it fails with `StateError`, whoever submits it.
pub proof fn lemma_terminal_status_is_immutable(
    s: StateView,
    p: ProposalView,
    caller: Seq<u8>,
    targets: Seq<Seq<u8>>,
)
    requires
        !(p.status is Active),
        s.is_member(caller),
        p.multisig_create_key == s.create_key,
    ensures
        spec_approve(s, p, caller) == Err::<ProposalView, MultisigError>(MultisigError::StateError),
        spec_reject(s, p, caller) == Err::<ProposalView, MultisigError>(MultisigError::StateError),
        spec_execute(s, p, caller, targets) == Err::<
            (StateView, ProposalView, Option<ChainedCallView>),
            MultisigError,
        >(MultisigError::StateError),
{
}

/// Replaying an already-applied vote fails instead of being silently
/// absorbed: after a successful approval the same member's next approval is a
/// `ConflictError`, and likewise for rejections of a still-active proposal.
pub proof fn lemma_vote_replay_fails(s: StateView, p: ProposalView, voter: Seq<u8>)
    ensures
        spec_approve(s, p, voter) matches Ok(p2) ==> spec_approve(s, p2, voter) == Err::<
            ProposalView,
            MultisigError,
        >(MultisigError::ConflictError),
        match spec_reject(s, p, voter) {
            Ok(p2) => if p2.status is Active {
                spec_reject(s, p2, voter) == Err::<ProposalView, MultisigError>(
                    MultisigError::ConflictError,
                )
            } else {
                spec_reject(s, p2, voter) == Err::<ProposalView, MultisigError>(
                    MultisigError::StateError,
                )
            },
            Err(_) => true,
        },
{
    match spec_approve(s, p, voter) {
        Ok(p2) => {
            assert(p2.approved[p.approved.len() as int] == voter);
            assert(p2.approved.contains(voter));
        },
        Err(_) => {},
    }
    match spec_reject(s, p, voter) {
        Ok(p2) => {
            assert(p2.rejected[p.rejected.len() as int] == voter);
            assert(p2.rejected.contains(voter));
        },
        Err(_) => {},
    }
}

/// Execution preserves the structural invariants: the post-state still
/// satisfies `1 <= threshold <= member_count <= 10`, the proposal is marked
/// `Executed` with its vote sets untouched, and exactly the delegated-call
/// path emits a call — a config-change execution emits none. Moreover, an
/// active proposal of this multisig short of the threshold always fails with
/// `GuardError`, and so does removing a member when the survivors would be
/// fewer than the threshold, with no state change either way.
pub proof fn lemma_execute_preserves_invariant(
    s: StateView,
    p: ProposalView,
    executor: Seq<u8>,
    targets: Seq<Seq<u8>>,
)
    requires
        s.well_formed(),
        p.well_formed(),
    ensures
        s.is_member(executor) && p.multisig_create_key == s.create_key && p.status is Active
            && p.approved.len() < s.threshold ==> spec_execute(s, p, executor, targets) == Err::<
            (StateView, ProposalView, Option<ChainedCallView>),
            MultisigError,
        >(MultisigError::GuardError),
        s.is_member(executor) && p.multisig_create_key == s.create_key && p.status is Active
            && (match p.config_action {
            Some(ConfigActionView::RemoveMember { member }) => s.is_member(member) && remove_key(
                s.members,
                member,
            ).len() < s.threshold,
            _ => false,
        }) ==> spec_execute(s, p, executor, targets) == Err::<
            (StateView, ProposalView, Option<ChainedCallView>),
            MultisigError,
        >(MultisigError::GuardError),
        spec_execute(s, p, executor, targets) matches Ok(out) ==> {
            &&& out.0.well_formed()
            &&& out.1.well_formed()
            &&& out.1.status is Executed
            &&& out.1.approved == p.approved
            &&& out.1.rejected == p.rejected
            &&& (out.2 is Some <==> p.config_action is None)
            &&& out.0.create_key == s.create_key
            &&& out.0.transaction_index == s.transaction_index
        },
{
    if spec_execute(s, p, executor, targets) matches Ok(out) {
        match p.config_action {
            None => {},
            Some(ConfigActionView::AddMember { new_member }) => {
                let members = s.members.push(new_member);
                assert(crate::model::all_len32(members)) by {
                    assert(forall|i: int|
                        0 <= i < s.members.len() ==> members[i] == s.members[i]);
                    assert(members[s.members.len() as int] == new_member);
                }
            },
            Some(ConfigActionView::RemoveMember { member }) => {
                crate::model::lemma_remove_key_len32(s.members, member);
            },
            Some(ConfigActionView::ChangeThreshold { .. }) => {},
        }
    }
}

} // verus!
