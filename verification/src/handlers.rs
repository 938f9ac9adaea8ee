//! Account-level instruction handlers and the dispatcher.
//!
//! Every instruction arrives with an ordered list of accounts: position 0 is
//! the multisig state record, the authenticated caller and, where relevant,
//! the proposal record follow, and delegated-call target accounts come last.
//! A handler decodes the records from the account data, runs the governance
//! operation, and returns one post-state per input account — or an error, in
//! which case nothing is written. [`process`] routes a tagged [`Instruction`]
//! to its handler.

use vstd::prelude::*;

use crate::codec::{
    decode_proposal, decode_state, encode_proposal, encode_state, spec_decode_proposal,
    spec_decode_state, spec_encode_proposal, spec_encode_state,
};
use crate::error::MultisigError;
use crate::model::{key_eq, keys_view, ConfigAction, Key32, MultisigState, ProgramId, StateView};
use crate::ops::{
    approve_vote, reject_vote, spec_approve, spec_create_multisig, spec_execute, spec_propose,
    spec_propose_config, spec_reject, ChainedCall, ChainedCallView,
};

verus! {

// ---------------------------------------------------------------------------
// Accounts and post-states
// ---------------------------------------------------------------------------

/// One account as an instruction receives it: its address, its stored data,
/// and whether its owner signed the submission.
#[derive(Debug, Clone, PartialEq, Eq)]
pub struct AccountWithMetadata {
    pub account_id: Key32,
    pub data: Vec<u8>,
    pub is_authorized: bool,
}

/// The mathematical shape of an [`AccountWithMetadata`].
#[verifier::ext_equal]
pub struct AccountView {
    pub account_id: Seq<u8>,
    pub data: Seq<u8>,
    pub is_authorized: bool,
}

impl View for AccountWithMetadata {
    type V = AccountView;

    open spec fn view(&self) -> AccountView {
        AccountView {
            account_id: self.account_id@,
            data: self.data@,
            is_authorized: self.is_authorized,
        }
    }
}

/// What an instruction writes back for one input account: the new data, and
/// whether the governance program claims ownership of the account.
#[derive(Debug, Clone, PartialEq, Eq)]
pub struct AccountPostState {
    pub data: Vec<u8>,
    pub claimed: bool,
}

/// The mathematical shape of an [`AccountPostState`].
#[verifier::ext_equal]
pub struct PostStateView {
    pub data: Seq<u8>,
    pub claimed: bool,
}

impl View for AccountPostState {
    type V = PostStateView;

    open spec fn view(&self) -> PostStateView {
        PostStateView { data: self.data@, claimed: self.claimed }
    }
}

impl AccountPostState {
    /// A post-state that only rewrites the data.
    pub fn new(data: Vec<u8>) -> (r: Self)
        ensures
            r@ == (PostStateView { data: data@, claimed: false }),
    {
        AccountPostState { data, claimed: false }
    }

    /// A post-state that rewrites the data and claims the account.
    pub fn new_claimed(data: Vec<u8>) -> (r: Self)
        ensures
            r@ == (PostStateView { data: data@, claimed: true }),
    {
        AccountPostState { data, claimed: true }
    }
}

/// The views of a list of accounts.
pub open spec fn accounts_view(s: Seq<AccountWithMetadata>) -> Seq<AccountView> {
    s.map_values(|a: AccountWithMetadata| a@)
}

/// The views of a list of post-states.
pub open spec fn posts_view(s: Seq<AccountPostState>) -> Seq<PostStateView> {
    s.map_values(|p: AccountPostState| p@)
}

/// The views of a list of delegated calls.
pub open spec fn calls_view(s: Seq<ChainedCall>) -> Seq<ChainedCallView> {
    s.map_values(|c: ChainedCall| c@)
}

/// A post-state that keeps an account's data as it was, without claiming it.
pub open spec fn unchanged_post(a: AccountView) -> PostStateView {
    PostStateView { data: a.data, claimed: false }
}

/// The outcome of a handler: one post-state per input account, and at most
/// one delegated call.
pub type HandlerOutcome = Result<(Seq<PostStateView>, Seq<ChainedCallView>), MultisigError>;

// ---------------------------------------------------------------------------
// The instruction set
// ---------------------------------------------------------------------------

/// The tagged instruction set of the governance engine, dispatched by
/// [`process`].
#[derive(Debug, Clone, PartialEq, Eq)]
pub enum Instruction {
    /// Create a new multisig with an M-of-N threshold.
    CreateMultisig { create_key: Key32, threshold: u8, members: Vec<Key32> },
    /// Create a delegated-call proposal (any member may propose).
    Propose {
        target_program_id: ProgramId,
        target_instruction_data: Vec<u8>,
        target_account_count: u8,
        pda_seeds: Vec<Key32>,
        authorized_indices: Vec<u8>,
    },
    /// Approve an existing proposal (one approval per member).
    Approve { proposal_index: u64 },
    /// Reject an existing proposal.
    Reject { proposal_index: u64 },
    /// Execute a fully approved proposal; the submission appends the target
    /// accounts after the state, executor and proposal accounts.
    Execute { proposal_index: u64 },
    /// Propose adding a member.
    ProposeAddMember { new_member: Key32 },
    /// Propose removing a member; rejected at execute time if removal would
    /// leave fewer members than the threshold.
    ProposeRemoveMember { member: Key32 },
    /// Propose changing the threshold; `1 <= new_threshold <= N` is checked
    /// at execute time.
    ProposeChangeThreshold { new_threshold: u8 },
}

// ---------------------------------------------------------------------------
// Spec layer: what each handler does with its accounts
// ---------------------------------------------------------------------------

/// The member accounts of a creation, checked front to back: each must be
/// uninitialized, and must sit at the address the member list names. The
/// first failure decides the error.
pub open spec fn spec_check_member_accounts(
    accounts: Seq<AccountView>,
    members: Seq<Seq<u8>>,
    i: int,
) -> Option<MultisigError>
    decreases members.len() - i,
{
    if i < 0 || i >= members.len() {
        None
    } else if accounts[1 + i].data.len() != 0 {
        Some(MultisigError::ConflictError)
    } else if accounts[1 + i].account_id != members[i] {
        Some(MultisigError::ValidationError)
    } else {
        spec_check_member_accounts(accounts, members, i + 1)
    }
}

/// What the creation handler does. Accounts: the uninitialized state record,
/// then one fresh account per member, all claimed by the program.
pub open spec fn spec_create_multisig_handler(
    accounts: Seq<AccountView>,
    create_key: Seq<u8>,
    threshold: u8,
    members: Seq<Seq<u8>>,
) -> HandlerOutcome {
    match spec_create_multisig(create_key, threshold, members) {
        Err(e) => Err(e),
        Ok(state) => {
            if accounts.len() < 1 + members.len() {
                Err(MultisigError::ValidationError)
            } else if accounts[0].data.len() != 0 {
                Err(MultisigError::ConflictError)
            } else {
                match spec_check_member_accounts(accounts, members, 0) {
                    Some(e) => Err(e),
                    None => Ok(
                        (
                            Seq::new(
                                1 + members.len(),
                                |i: int|
                                    if i == 0 {
                                        PostStateView {
                                            data: spec_encode_state(state),
                                            claimed: true,
                                        }
                                    } else {
                                        PostStateView { data: accounts[i].data, claimed: true }
                                    },
                            ),
                            Seq::empty(),
                        ),
                    ),
                }
            }
        },
    }
}

/// The shared front of every handler that works on an existing multisig:
/// there must be at least `need` accounts, the caller at position 1 must have
/// signed, and position 0 must decode to a state record.
pub open spec fn spec_handler_front(accounts: Seq<AccountView>, need: int) -> Result<
    StateView,
    MultisigError,
> {
    if accounts.len() < need {
        Err(MultisigError::ValidationError)
    } else if !accounts[1].is_authorized {
        Err(MultisigError::AuthorizationError)
    } else {
        match spec_decode_state(accounts[0].data) {
            None => Err(MultisigError::NotFoundError),
            Some(state) => Ok(state),
        }
    }
}

/// Whether a fresh delegated-call proposal's lists fit their 32-bit length
/// prefixes.
pub open spec fn spec_propose_args_fit(
    target_instruction_data: Seq<u8>,
    pda_seeds: Seq<Seq<u8>>,
    authorized_indices: Seq<u8>,
) -> bool {
    &&& target_instruction_data.len() <= u32::MAX
    &&& pda_seeds.len() <= u32::MAX
    &&& authorized_indices.len() <= u32::MAX
}

/// What the delegated-call propose handler does. Accounts: the state record,
/// the signing proposer, and the uninitialized proposal record, which is
/// written and claimed.
pub open spec fn spec_propose_handler(
    accounts: Seq<AccountView>,
    target_program_id: Seq<u32>,
    target_instruction_data: Seq<u8>,
    target_account_count: u8,
    pda_seeds: Seq<Seq<u8>>,
    authorized_indices: Seq<u8>,
) -> HandlerOutcome {
    match spec_handler_front(accounts, 3) {
        Err(e) => Err(e),
        Ok(state) => {
            if accounts[2].data.len() != 0 {
                Err(MultisigError::ConflictError)
            } else if state.transaction_index == u64::MAX || !spec_propose_args_fit(
                target_instruction_data,
                pda_seeds,
                authorized_indices,
            ) {
                Err(MultisigError::ValidationError)
            } else {
                match spec_propose(
                    state,
                    accounts[1].account_id,
                    target_program_id,
                    target_instruction_data,
                    target_account_count,
                    pda_seeds,
                    authorized_indices,
                ) {
                    Err(e) => Err(e),
                    Ok(out) => Ok(
                        (
                            seq![
                                PostStateView { data: spec_encode_state(out.0), claimed: false },
                                unchanged_post(accounts[1]),
                                PostStateView {
                                    data: spec_encode_proposal(out.1),
                                    claimed: true,
                                },
                            ],
                            Seq::empty(),
                        ),
                    ),
                }
            }
        },
    }
}

/// What the config-change propose handler does; accounts as in
/// [`spec_propose_handler`].
pub open spec fn spec_propose_config_handler(
    accounts: Seq<AccountView>,
    action: crate::model::ConfigActionView,
) -> HandlerOutcome {
    match spec_handler_front(accounts, 3) {
        Err(e) => Err(e),
        Ok(state) => {
            if accounts[2].data.len() != 0 {
                Err(MultisigError::ConflictError)
            } else if state.transaction_index == u64::MAX {
                Err(MultisigError::ValidationError)
            } else {
                match spec_propose_config(state, accounts[1].account_id, action) {
                    Err(e) => Err(e),
                    Ok(out) => Ok(
                        (
                            seq![
                                PostStateView { data: spec_encode_state(out.0), claimed: false },
                                unchanged_post(accounts[1]),
                                PostStateView {
                                    data: spec_encode_proposal(out.1),
                                    claimed: true,
                                },
                            ],
                            Seq::empty(),
                        ),
                    ),
                }
            }
        },
    }
}

/// What the approve handler does. Accounts: the state record, the signing
/// voter, and the proposal record, which is rewritten with the new vote.
pub open spec fn spec_approve_handler(accounts: Seq<AccountView>) -> HandlerOutcome {
    match spec_handler_front(accounts, 3) {
        Err(e) => Err(e),
        Ok(state) => if !state.is_member(accounts[1].account_id) {
            Err(MultisigError::AuthorizationError)
        } else {
            match spec_decode_proposal(accounts[2].data) {
                None => Err(MultisigError::NotFoundError),
                Some(proposal) => {
                if proposal.approved.len() >= u32::MAX {
                    Err(MultisigError::ValidationError)
                } else {
                    match spec_approve(state, proposal, accounts[1].account_id) {
                        Err(e) => Err(e),
                        Ok(p2) => Ok(
                            (
                                seq![
                                    unchanged_post(accounts[0]),
                                    unchanged_post(accounts[1]),
                                    PostStateView {
                                        data: spec_encode_proposal(p2),
                                        claimed: false,
                                    },
                                ],
                                Seq::empty(),
                            ),
                        ),
                    }
                }
            },
            }
        },
    }
}

/// What the reject handler does; accounts as in [`spec_approve_handler`].
pub open spec fn spec_reject_handler(accounts: Seq<AccountView>) -> HandlerOutcome {
    match spec_handler_front(accounts, 3) {
        Err(e) => Err(e),
        Ok(state) => if !state.is_member(accounts[1].account_id) {
            Err(MultisigError::AuthorizationError)
        } else {
            match spec_decode_proposal(accounts[2].data) {
                None => Err(MultisigError::NotFoundError),
                Some(proposal) => {
                if proposal.rejected.len() >= u32::MAX {
                    Err(MultisigError::ValidationError)
                } else {
                    match spec_reject(state, proposal, accounts[1].account_id) {
                        Err(e) => Err(e),
                        Ok(p2) => Ok(
                            (
                                seq![
                                    unchanged_post(accounts[0]),
                                    unchanged_post(accounts[1]),
                                    PostStateView {
                                        data: spec_encode_proposal(p2),
                                        claimed: false,
                                    },
                                ],
                                Seq::empty(),
                            ),
                        ),
                    }
                }
            },
            }
        },
    }
}

/// What the execute handler does. Accounts: the state record, the signing
/// executor, the proposal record, and then the delegated-call target
/// accounts, which pass through unchanged.
pub open spec fn spec_execute_handler(accounts: Seq<AccountView>) -> HandlerOutcome {
    match spec_handler_front(accounts, 3) {
        Err(e) => Err(e),
        Ok(state) => if !state.is_member(accounts[1].account_id) {
            Err(MultisigError::AuthorizationError)
        } else {
            match spec_decode_proposal(accounts[2].data) {
                None => Err(MultisigError::NotFoundError),
                Some(proposal) => {
                let targets = Seq::new(
                    (accounts.len() - 3) as nat,
                    |i: int| accounts[3 + i].account_id,
                );
                match spec_execute(state, proposal, accounts[1].account_id, targets) {
                    Err(e) => Err(e),
                    Ok(out) => Ok(
                        (
                            Seq::new(
                                accounts.len(),
                                |i: int|
                                    if i == 0 {
                                        PostStateView {
                                            data: spec_encode_state(out.0),
                                            claimed: false,
                                        }
                                    } else if i == 2 {
                                        PostStateView {
                                            data: spec_encode_proposal(out.1),
                                            claimed: false,
                                        }
                                    } else {
                                        unchanged_post(accounts[i])
                                    },
                            ),
                            match out.2 {
                                Some(c) => seq![c],
                                None => Seq::empty(),
                            },
                        ),
                    ),
                }
            },
            }
        },
    }
}

/// Whether the executable outcome `r` is exactly the spec outcome `s`: the
/// same error, or post-states and calls whose views match.
pub open spec fn outcome_matches(
    r: Result<(Vec<AccountPostState>, Vec<ChainedCall>), MultisigError>,
    s: HandlerOutcome,
) -> bool {
    match r {
        Ok(out) => s == Ok::<_, MultisigError>((posts_view(out.0@), calls_view(out.1@))),
        Err(e) => s == Err::<(Seq<PostStateView>, Seq<ChainedCallView>), _>(e),
    }
}

// ---------------------------------------------------------------------------
// Executable helpers
// ---------------------------------------------------------------------------

/// A copy of a byte vector.
fn copy_bytes(v: &Vec<u8>) -> (r: Vec<u8>)
    ensures
        r@ == v@,
{
    let mut r: Vec<u8> = Vec::new();
    let mut i: usize = 0;
    while i < v.len()
        invariant
            i <= v@.len(),
            r@ == v@.take(i as int),
        decreases v@.len() - i,
    {
        proof {
            assert(v@.take(i + 1) =~= v@.take(i as int).push(v@[i as int]));
        }
        r.push(v[i]);
        i += 1;
    }
    proof {
        assert(v@.take(v@.len() as int) =~= v@);
    }
    r
}

/// A copy of a key vector.
fn copy_keys(v: &Vec<Key32>) -> (r: Vec<Key32>)
    ensures
        r@ == v@,
{
    let mut r: Vec<Key32> = Vec::new();
    let mut i: usize = 0;
    while i < v.len()
        invariant
            i <= v@.len(),
            r@ == v@.take(i as int),
        decreases v@.len() - i,
    {
        proof {
            assert(v@.take(i + 1) =~= v@.take(i as int).push(v@[i as int]));
        }
        r.push(v[i]);
        i += 1;
    }
    proof {
        assert(v@.take(v@.len() as int) =~= v@);
    }
    r
}

// ---------------------------------------------------------------------------
// Executable handlers
// ---------------------------------------------------------------------------

/// Create a new M-of-N multisig. Creation is permissionless; the state record
/// and every member account must be uninitialized, and all are claimed.
#[verifier::loop_isolation(false)]
pub fn create_multisig(
    accounts: &Vec<AccountWithMetadata>,
    create_key: &Key32,
    threshold: u8,
    members: &Vec<Key32>,
) -> (r: Result<(Vec<AccountPostState>, Vec<ChainedCall>), MultisigError>)
    ensures
        outcome_matches(
            r,
            spec_create_multisig_handler(
                accounts_view(accounts@),
                create_key@,
                threshold,
                keys_view(members@),
            ),
        ),
{
    let ghost av = accounts_view(accounts@);
    let ghost mv = keys_view(members@);
    let members_copy = copy_keys(members);
    proof {
        assert(keys_view(members_copy@) == mv);
    }
    let state = match crate::ops::create_multisig(*create_key, threshold, members_copy) {
        Ok(s) => s,
        Err(e) => {
            return Err(e);
        },
    };
    if accounts.len() == 0 || accounts.len() - 1 < members.len() {
        return Err(MultisigError::ValidationError);
    }
    if accounts[0].data.len() != 0 {
        return Err(MultisigError::ConflictError);
    }
    let mut i: usize = 0;
    while i < members.len()
        invariant
            i <= members@.len(),
            accounts@.len() >= 1 + members@.len(),
            av == accounts_view(accounts@),
            mv == keys_view(members@),
            spec_check_member_accounts(av, mv, 0) == spec_check_member_accounts(av, mv, i as int),
        decreases members@.len() - i,
    {
        if accounts[1 + i].data.len() != 0 {
            proof {
                assert(spec_check_member_accounts(av, mv, i as int) == Some(
                    MultisigError::ConflictError,
                ));
            }
            return Err(MultisigError::ConflictError);
        }
        if !key_eq(&accounts[1 + i].account_id, &members[i]) {
            proof {
                assert(av[1 + i].account_id != mv[i as int]);
                assert(spec_check_member_accounts(av, mv, i as int) == Some(
                    MultisigError::ValidationError,
                ));
            }
            return Err(MultisigError::ValidationError);
        }
        proof {
            assert(spec_check_member_accounts(av, mv, i as int) == spec_check_member_accounts(
                av,
                mv,
                i + 1,
            ));
        }
        i += 1;
    }
    let mut posts: Vec<AccountPostState> = Vec::new();
    posts.push(AccountPostState::new_claimed(encode_state(&state)));
    let mut k: usize = 0;
    while k < members.len()
        invariant
            k <= members@.len(),
            accounts@.len() >= 1 + members@.len(),
            av == accounts_view(accounts@),
            posts@.len() == 1 + k,
            posts@[0]@ == (PostStateView { data: spec_encode_state(state@), claimed: true }),
            forall|j: int| 1 <= j < 1 + k ==> (#[trigger] posts@[j])@ == (PostStateView {
                data: av[j].data,
                claimed: true,
            }),
        decreases members@.len() - k,
    {
        posts.push(AccountPostState::new_claimed(copy_bytes(&accounts[1 + k].data)));
        k += 1;
    }
    let calls: Vec<ChainedCall> = Vec::new();
    proof {
        let spec_posts = Seq::new(
            1 + mv.len(),
            |i: int|
                if i == 0 {
                    PostStateView { data: spec_encode_state(state@), claimed: true }
                } else {
                    PostStateView { data: av[i].data, claimed: true }
                },
        );
        assert(posts_view(posts@) =~= spec_posts);
        assert(calls_view(calls@) =~= Seq::<ChainedCallView>::empty());
    }
    Ok((posts, calls))
}

/// The shared front of the handlers below: at least `need` accounts, a
/// signing caller at position 1, and a state record at position 0.
fn handler_front(accounts: &Vec<AccountWithMetadata>, need: usize) -> (r: Result<
    MultisigState,
    MultisigError,
>)
    requires
        need >= 2,
    ensures
        match r {
            Ok(s) => spec_handler_front(accounts_view(accounts@), need as int) == Ok::<
                _,
                MultisigError,
            >(s@),
            Err(e) => spec_handler_front(accounts_view(accounts@), need as int) == Err::<
                StateView,
                _,
            >(e),
        },
{
    if accounts.len() < need {
        return Err(MultisigError::ValidationError);
    }
    if !accounts[1].is_authorized {
        return Err(MultisigError::AuthorizationError);
    }
    match decode_state(accounts[0].data.as_slice()) {
        None => Err(MultisigError::NotFoundError),
        Some(state) => Ok(state),
    }
}

/// Create a delegated-call proposal. The proposal account must be
/// uninitialized; the proposer must sign and be a member.
pub fn propose(
    accounts: &Vec<AccountWithMetadata>,
    target_program_id: &ProgramId,
    target_instruction_data: &Vec<u8>,
    target_account_count: u8,
    pda_seeds: &Vec<Key32>,
    authorized_indices: &Vec<u8>,
) -> (r: Result<(Vec<AccountPostState>, Vec<ChainedCall>), MultisigError>)
    ensures
        outcome_matches(
            r,
            spec_propose_handler(
                accounts_view(accounts@),
                target_program_id@,
                target_instruction_data@,
                target_account_count,
                keys_view(pda_seeds@),
                authorized_indices@,
            ),
        ),
{
    let state = match handler_front(accounts, 3) {
        Ok(s) => s,
        Err(e) => {
            return Err(e);
        },
    };
    if accounts[2].data.len() != 0 {
        return Err(MultisigError::ConflictError);
    }
    if state.transaction_index == u64::MAX || (target_instruction_data.len() as u64) > (u32::MAX
        as u64) || (pda_seeds.len() as u64) > (u32::MAX as u64) || (authorized_indices.len()
        as u64) > (u32::MAX as u64) {
        return Err(MultisigError::ValidationError);
    }
    match crate::ops::propose(
        state,
        accounts[1].account_id,
        *target_program_id,
        copy_bytes(target_instruction_data),
        target_account_count,
        copy_keys(pda_seeds),
        copy_bytes(authorized_indices),
    ) {
        Err(e) => Err(e),
        Ok((state2, proposal)) => {
            let mut posts: Vec<AccountPostState> = Vec::new();
            posts.push(AccountPostState::new(encode_state(&state2)));
            posts.push(AccountPostState::new(copy_bytes(&accounts[1].data)));
            posts.push(AccountPostState::new_claimed(encode_proposal(&proposal)));
            let calls: Vec<ChainedCall> = Vec::new();
            proof {
                assert(calls_view(calls@) =~= Seq::<ChainedCallView>::empty());
                assert(posts_view(posts@) =~= seq![
                    PostStateView { data: spec_encode_state(state2@), claimed: false },
                    unchanged_post(accounts_view(accounts@)[1]),
                    PostStateView { data: spec_encode_proposal(proposal@), claimed: true },
                ]);
            }
            Ok((posts, calls))
        },
    }
}

/// Create a config-change proposal; accounts as in [`propose`].
pub fn propose_config(accounts: &Vec<AccountWithMetadata>, config_action: ConfigAction) -> (r:
    Result<(Vec<AccountPostState>, Vec<ChainedCall>), MultisigError>)
    ensures
        outcome_matches(
            r,
            spec_propose_config_handler(accounts_view(accounts@), config_action@),
        ),
{
    let state = match handler_front(accounts, 3) {
        Ok(s) => s,
        Err(e) => {
            return Err(e);
        },
    };
    if accounts[2].data.len() != 0 {
        return Err(MultisigError::ConflictError);
    }
    if state.transaction_index == u64::MAX {
        return Err(MultisigError::ValidationError);
    }
    match crate::ops::propose_config(state, accounts[1].account_id, config_action) {
        Err(e) => Err(e),
        Ok((state2, proposal)) => {
            let mut posts: Vec<AccountPostState> = Vec::new();
            posts.push(AccountPostState::new(encode_state(&state2)));
            posts.push(AccountPostState::new(copy_bytes(&accounts[1].data)));
            posts.push(AccountPostState::new_claimed(encode_proposal(&proposal)));
            let calls: Vec<ChainedCall> = Vec::new();
            proof {
                assert(calls_view(calls@) =~= Seq::<ChainedCallView>::empty());
                assert(posts_view(posts@) =~= seq![
                    PostStateView { data: spec_encode_state(state2@), claimed: false },
                    unchanged_post(accounts_view(accounts@)[1]),
                    PostStateView { data: spec_encode_proposal(proposal@), claimed: true },
                ]);
            }
            Ok((posts, calls))
        },
    }
}

/// Propose adding a member; accounts as in [`propose`].
pub fn propose_add_member(accounts: &Vec<AccountWithMetadata>, new_member: Key32) -> (r: Result<
    (Vec<AccountPostState>, Vec<ChainedCall>),
    MultisigError,
>)
    ensures
        outcome_matches(
            r,
            spec_propose_config_handler(
                accounts_view(accounts@),
                crate::model::ConfigActionView::AddMember { new_member: new_member@ },
            ),
        ),
{
    propose_config(accounts, ConfigAction::AddMember { new_member })
}

/// Propose removing a member; accounts as in [`propose`].
pub fn propose_remove_member(accounts: &Vec<AccountWithMetadata>, member: Key32) -> (r: Result<
    (Vec<AccountPostState>, Vec<ChainedCall>),
    MultisigError,
>)
    ensures
        outcome_matches(
            r,
            spec_propose_config_handler(
                accounts_view(accounts@),
                crate::model::ConfigActionView::RemoveMember { member: member@ },
            ),
        ),
{
    propose_config(accounts, ConfigAction::RemoveMember { member })
}

/// Propose changing the threshold; accounts as in [`propose`].
pub fn propose_change_threshold(accounts: &Vec<AccountWithMetadata>, new_threshold: u8) -> (r:
    Result<(Vec<AccountPostState>, Vec<ChainedCall>), MultisigError>)
    ensures
        outcome_matches(
            r,
            spec_propose_config_handler(
                accounts_view(accounts@),
                crate::model::ConfigActionView::ChangeThreshold { new_threshold },
            ),
        ),
{
    propose_config(accounts, ConfigAction::ChangeThreshold { new_threshold })
}

/// Approve an existing proposal: the voter signs at position 1, the proposal
/// record at position 2 is rewritten with the new vote.
pub fn approve(accounts: &Vec<AccountWithMetadata>, _proposal_index: u64) -> (r: Result<
    (Vec<AccountPostState>, Vec<ChainedCall>),
    MultisigError,
>)
    ensures
        outcome_matches(r, spec_approve_handler(accounts_view(accounts@))),
{
    let state = match handler_front(accounts, 3) {
        Ok(s) => s,
        Err(e) => {
            return Err(e);
        },
    };
    if !state.is_member(&accounts[1].account_id) {
        return Err(MultisigError::AuthorizationError);
    }
    let proposal = match decode_proposal(accounts[2].data.as_slice()) {
        None => {
            return Err(MultisigError::NotFoundError);
        },
        Some(p) => p,
    };
    if (proposal.approved.len() as u64) >= (u32::MAX as u64) {
        return Err(MultisigError::ValidationError);
    }
    proof {
        crate::model::lemma_remove_key_len32(keys_view(proposal.rejected@), accounts@[1]@.account_id);
    }
    match approve_vote(&state, proposal, accounts[1].account_id) {
        Err(e) => Err(e),
        Ok(p2) => {
            let mut posts: Vec<AccountPostState> = Vec::new();
            posts.push(AccountPostState::new(copy_bytes(&accounts[0].data)));
            posts.push(AccountPostState::new(copy_bytes(&accounts[1].data)));
            posts.push(AccountPostState::new(encode_proposal(&p2)));
            let calls: Vec<ChainedCall> = Vec::new();
            proof {
                assert(calls_view(calls@) =~= Seq::<ChainedCallView>::empty());
                assert(posts_view(posts@) =~= seq![
                    unchanged_post(accounts_view(accounts@)[0]),
                    unchanged_post(accounts_view(accounts@)[1]),
                    PostStateView { data: spec_encode_proposal(p2@), claimed: false },
                ]);
            }
            Ok((posts, calls))
        },
    }
}

/// Reject an existing proposal; accounts as in [`approve`]. A rejection that
/// makes the threshold unreachable turns the proposal `Rejected` at once.
pub fn reject(accounts: &Vec<AccountWithMetadata>, _proposal_index: u64) -> (r: Result<
    (Vec<AccountPostState>, Vec<ChainedCall>),
    MultisigError,
>)
    ensures
        outcome_matches(r, spec_reject_handler(accounts_view(accounts@))),
{
    let state = match handler_front(accounts, 3) {
        Ok(s) => s,
        Err(e) => {
            return Err(e);
        },
    };
    if !state.is_member(&accounts[1].account_id) {
        return Err(MultisigError::AuthorizationError);
    }
    let proposal = match decode_proposal(accounts[2].data.as_slice()) {
        None => {
            return Err(MultisigError::NotFoundError);
        },
        Some(p) => p,
    };
    if (proposal.rejected.len() as u64) >= (u32::MAX as u64) {
        return Err(MultisigError::ValidationError);
    }
    proof {
        crate::model::lemma_remove_key_len32(keys_view(proposal.approved@), accounts@[1]@.account_id);
    }
    match reject_vote(&state, proposal, accounts[1].account_id) {
        Err(e) => Err(e),
        Ok(p2) => {
            let mut posts: Vec<AccountPostState> = Vec::new();
            posts.push(AccountPostState::new(copy_bytes(&accounts[0].data)));
            posts.push(AccountPostState::new(copy_bytes(&accounts[1].data)));
            posts.push(AccountPostState::new(encode_proposal(&p2)));
            let calls: Vec<ChainedCall> = Vec::new();
            proof {
                assert(calls_view(calls@) =~= Seq::<ChainedCallView>::empty());
                assert(posts_view(posts@) =~= seq![
                    unchanged_post(accounts_view(accounts@)[0]),
                    unchanged_post(accounts_view(accounts@)[1]),
                    PostStateView { data: spec_encode_proposal(p2@), claimed: false },
                ]);
            }
            Ok((posts, calls))
        },
    }
}

/// Execute a fully approved proposal. Target accounts for the delegated call
/// follow the proposal account and pass through unchanged; a config change
/// rewrites the state record instead.
#[verifier::loop_isolation(false)]
pub fn execute(accounts: &Vec<AccountWithMetadata>, _proposal_index: u64) -> (r: Result<
    (Vec<AccountPostState>, Vec<ChainedCall>),
    MultisigError,
>)
    ensures
        outcome_matches(r, spec_execute_handler(accounts_view(accounts@))),
{
    let ghost av = accounts_view(accounts@);
    let state = match handler_front(accounts, 3) {
        Ok(s) => s,
        Err(e) => {
            return Err(e);
        },
    };
    if !state.is_member(&accounts[1].account_id) {
        return Err(MultisigError::AuthorizationError);
    }
    let proposal = match decode_proposal(accounts[2].data.as_slice()) {
        None => {
            return Err(MultisigError::NotFoundError);
        },
        Some(p) => p,
    };
    let ghost spec_targets = Seq::new((av.len() - 3) as nat, |i: int| av[3 + i].account_id);
    let mut targets: Vec<Key32> = Vec::new();
    let mut i: usize = 0;
    while i < accounts.len() - 3
        invariant
            i <= av.len() - 3,
            av == accounts_view(accounts@),
            accounts@.len() >= 3,
            spec_targets == Seq::new((av.len() - 3) as nat, |j: int| av[3 + j].account_id),
            targets@.len() == i,
            forall|j: int| 0 <= j < i ==> (#[trigger] targets@[j])@ == spec_targets[j],
        decreases av.len() - 3 - i,
    {
        targets.push(accounts[3 + i].account_id);
        i += 1;
    }
    proof {
        assert(keys_view(targets@) =~= spec_targets);
        crate::model::lemma_remove_key_len32(keys_view(state.members@), match proposal@.config_action {
            Some(crate::model::ConfigActionView::RemoveMember { member }) => member,
            _ => Seq::empty(),
        });
    }
    match crate::ops::execute(state, proposal, accounts[1].account_id, targets) {
        Err(e) => Err(e),
        Ok((state2, proposal2, call)) => {
            let mut posts: Vec<AccountPostState> = Vec::new();
            posts.push(AccountPostState::new(encode_state(&state2)));
            posts.push(AccountPostState::new(copy_bytes(&accounts[1].data)));
            posts.push(AccountPostState::new(encode_proposal(&proposal2)));
            let mut k: usize = 0;
            while k < accounts.len() - 3
                invariant
                    k <= av.len() - 3,
                    av == accounts_view(accounts@),
                    accounts@.len() >= 3,
                    posts@.len() == 3 + k,
                    posts@[0]@ == (PostStateView {
                        data: spec_encode_state(state2@),
                        claimed: false,
                    }),
                    posts@[1]@ == unchanged_post(av[1]),
                    posts@[2]@ == (PostStateView {
                        data: spec_encode_proposal(proposal2@),
                        claimed: false,
                    }),
                    forall|j: int| 3 <= j < 3 + k ==> (#[trigger] posts@[j])@ == unchanged_post(
                        av[j],
                    ),
                decreases av.len() - 3 - k,
            {
                posts.push(AccountPostState::new(copy_bytes(&accounts[3 + k].data)));
                k += 1;
            }
            let mut calls: Vec<ChainedCall> = Vec::new();
            match call {
                Some(c) => {
                    let ghost cv = c@;
                    calls.push(c);
                    proof {
                        assert(calls_view(calls@) =~= seq![cv]);
                    }
                },
                None => {
                    proof {
                        assert(calls_view(calls@) =~= Seq::<ChainedCallView>::empty());
                    }
                },
            }
            proof {
                let out = spec_execute(
                    state@,
                    proposal@,
                    av[1].account_id,
                    spec_targets,
                ).unwrap();
                let spec_posts = Seq::new(
                    av.len(),
                    |i: int|
                        if i == 0 {
                            PostStateView { data: spec_encode_state(out.0), claimed: false }
                        } else if i == 2 {
                            PostStateView { data: spec_encode_proposal(out.1), claimed: false }
                        } else {
                            unchanged_post(av[i])
                        },
                );
                assert(posts_view(posts@) =~= spec_posts);
            }
            Ok((posts, calls))
        },
    }
}

/// Route a tagged instruction to its handler, with the accounts the
/// submission carried.
pub fn process(accounts: &Vec<AccountWithMetadata>, instruction: Instruction) -> (r: Result<
    (Vec<AccountPostState>, Vec<ChainedCall>),
    MultisigError,
>)
    ensures
        match instruction {
            Instruction::CreateMultisig { create_key, threshold, members } => outcome_matches(
                r,
                spec_create_multisig_handler(
                    accounts_view(accounts@),
                    create_key@,
                    threshold,
                    keys_view(members@),
                ),
            ),
            Instruction::Propose {
                target_program_id,
                target_instruction_data,
                target_account_count,
                pda_seeds,
                authorized_indices,
            } => outcome_matches(
                r,
                spec_propose_handler(
                    accounts_view(accounts@),
                    target_program_id@,
                    target_instruction_data@,
                    target_account_count,
                    keys_view(pda_seeds@),
                    authorized_indices@,
                ),
            ),
            Instruction::Approve { .. } => outcome_matches(
                r,
                spec_approve_handler(accounts_view(accounts@)),
            ),
            Instruction::Reject { .. } => outcome_matches(
                r,
                spec_reject_handler(accounts_view(accounts@)),
            ),
            Instruction::Execute { .. } => outcome_matches(
                r,
                spec_execute_handler(accounts_view(accounts@)),
            ),
            Instruction::ProposeAddMember { new_member } => outcome_matches(
                r,
                spec_propose_config_handler(
                    accounts_view(accounts@),
                    crate::model::ConfigActionView::AddMember { new_member: new_member@ },
                ),
            ),
            Instruction::ProposeRemoveMember { member } => outcome_matches(
                r,
                spec_propose_config_handler(
                    accounts_view(accounts@),
                    crate::model::ConfigActionView::RemoveMember { member: member@ },
                ),
            ),
            Instruction::ProposeChangeThreshold { new_threshold } => outcome_matches(
                r,
                spec_propose_config_handler(
                    accounts_view(accounts@),
                    crate::model::ConfigActionView::ChangeThreshold { new_threshold },
                ),
            ),
        },
{
    match instruction {
        Instruction::CreateMultisig { create_key, threshold, members } => create_multisig(
            accounts,
            &create_key,
            threshold,
            &members,
        ),
        Instruction::Propose {
            target_program_id,
            target_instruction_data,
            target_account_count,
            pda_seeds,
            authorized_indices,
        } => propose(
            accounts,
            &target_program_id,
            &target_instruction_data,
            target_account_count,
            &pda_seeds,
            &authorized_indices,
        ),
        Instruction::Approve { proposal_index } => approve(accounts, proposal_index),
        Instruction::Reject { proposal_index } => reject(accounts, proposal_index),
        Instruction::Execute { proposal_index } => execute(accounts, proposal_index),
        Instruction::ProposeAddMember { new_member } => propose_config(
            accounts,
            ConfigAction::AddMember { new_member },
        ),
        Instruction::ProposeRemoveMember { member } => propose_config(
            accounts,
            ConfigAction::RemoveMember { member },
        ),
        Instruction::ProposeChangeThreshold { new_threshold } => propose_config(
            accounts,
            ConfigAction::ChangeThreshold { new_threshold },
        ),
    }
}

} // verus!
