//! The persistent records of the governance engine and the voting bookkeeping
//! on them.
//!
//! A [`MultisigState`] describes one multisig instance: its caller-chosen
//! `create_key`, the threshold `M`, the ordered member list, and the proposal
//! counter. A [`Proposal`] is one proposed action, addressed by
//! `(create_key, index)`; it carries either a delegated-call descriptor or a
//! config action, plus the sets of members that approved and rejected it.

use vstd::prelude::*;

verus! {

/// A member identity, a derived record address, or a caller-chosen key:
/// always 32 bytes.
pub type Key32 = [u8; 32];

/// A program identity: eight 32-bit big-endian words.
pub type ProgramId = [u32; 8];

/// The largest member count a multisig may have.
pub const MAX_MEMBERS: usize = 10;

// ---------------------------------------------------------------------------
// Spec-level sequence helpers for the vote sets
// ---------------------------------------------------------------------------

/// No two entries of `s` are equal.
pub open spec fn distinct_keys(s: Seq<Seq<u8>>) -> bool {
    forall|i: int, j: int| 0 <= i < j < s.len() ==> s[i] != s[j]
}

/// No key occurs in both `a` and `b`.
pub open spec fn disjoint_keys(a: Seq<Seq<u8>>, b: Seq<Seq<u8>>) -> bool {
    forall|i: int, j: int| 0 <= i < a.len() && 0 <= j < b.len() ==> a[i] != b[j]
}

/// Every entry of `s` is 32 bytes long.
pub open spec fn all_len32(s: Seq<Seq<u8>>) -> bool {
    forall|i: int| 0 <= i < s.len() ==> (#[trigger] s[i]).len() == 32
}

/// `s` with every occurrence of `m` removed, order of the rest kept.
pub open spec fn remove_key(s: Seq<Seq<u8>>, m: Seq<u8>) -> Seq<Seq<u8>>
    decreases s.len(),
{
    if s.len() == 0 {
        Seq::empty()
    } else if s.last() == m {
        remove_key(s.drop_last(), m)
    } else {
        remove_key(s.drop_last(), m).push(s.last())
    }
}

/// Removal distributes over appending one element at the back.
pub proof fn lemma_remove_key_push(s: Seq<Seq<u8>>, x: Seq<u8>, m: Seq<u8>)
    ensures
        remove_key(s.push(x), m) == if x == m {
            remove_key(s, m)
        } else {
            remove_key(s, m).push(x)
        },
{
    assert(s.push(x).drop_last() =~= s);
}

/// What `remove_key` keeps: exactly the entries different from `m`.
pub proof fn lemma_remove_key_contains(s: Seq<Seq<u8>>, m: Seq<u8>, x: Seq<u8>)
    ensures
        remove_key(s, m).contains(x) <==> (s.contains(x) && x != m),
    decreases s.len(),
{
    if s.len() == 0 {
    } else {
        let d = s.drop_last();
        lemma_remove_key_contains(d, m, x);
        assert(s.contains(x) <==> (d.contains(x) || s.last() == x)) by {
            if s.contains(x) {
                let k = choose|k: int| 0 <= k < s.len() && s[k] == x;
                if k < d.len() {
                    assert(d[k] == x);
                }
            }
            if d.contains(x) {
                let k = choose|k: int| 0 <= k < d.len() && d[k] == x;
                assert(s[k] == x);
            }
        }
        if s.last() != m {
            let rk = remove_key(d, m);
            assert(rk.push(s.last()).contains(x) <==> (rk.contains(x) || s.last() == x)) by {
                if rk.contains(x) {
                    let k = choose|k: int| 0 <= k < rk.len() && rk[k] == x;
                    assert(rk.push(s.last())[k] == x);
                }
                assert(rk.push(s.last())[rk.len() as int] == s.last());
                if rk.push(s.last()).contains(x) {
                    let k = choose|k: int|
                        0 <= k < rk.push(s.last()).len() && rk.push(s.last())[k] == x;
                    if k < rk.len() {
                        assert(rk[k] == x);
                    }
                }
            }
        }
    }
}

/// Removal keeps distinctness and removes `m` entirely.
pub proof fn lemma_remove_key_distinct(s: Seq<Seq<u8>>, m: Seq<u8>)
    requires
        distinct_keys(s),
    ensures
        distinct_keys(remove_key(s, m)),
        !remove_key(s, m).contains(m),
    decreases s.len(),
{
    lemma_remove_key_contains(s, m, m);
    if s.len() > 0 {
        let d = s.drop_last();
        assert(distinct_keys(d));
        lemma_remove_key_distinct(d, m);
        if s.last() != m {
            let rk = remove_key(d, m);
            assert(!rk.contains(s.last())) by {
                lemma_remove_key_contains(d, m, s.last());
                if d.contains(s.last()) {
                    let k = choose|k: int| 0 <= k < d.len() && d[k] == s.last();
                    assert(s[k] == s[s.len() - 1]);
                }
            }
            assert forall|i: int, j: int|
                0 <= i < j < rk.push(s.last()).len() implies rk.push(s.last())[i] != rk.push(
                s.last(),
            )[j] by {
                if j < rk.len() {
                    assert(rk.push(s.last())[i] == rk[i] && rk.push(s.last())[j] == rk[j]);
                } else {
                    assert(rk.push(s.last())[i] == rk[i]);
                    assert(rk.contains(rk[i]));
                }
            }
        }
    }
}

/// Removal keeps every length-32 bound and never grows the sequence.
pub proof fn lemma_remove_key_len32(s: Seq<Seq<u8>>, m: Seq<u8>)
    requires
        all_len32(s),
    ensures
        all_len32(remove_key(s, m)),
        remove_key(s, m).len() <= s.len(),
    decreases s.len(),
{
    if s.len() > 0 {
        let d = s.drop_last();
        assert(all_len32(d));
        lemma_remove_key_len32(d, m);
        if s.last() != m {
            let rk = remove_key(d, m);
            assert(all_len32(rk.push(s.last()))) by {
                assert(forall|i: int|
                    0 <= i < rk.len() ==> rk.push(s.last())[i] == rk[i]);
                assert(rk.push(s.last())[rk.len() as int] == s.last());
            }
        }
    }
}

// ---------------------------------------------------------------------------
// Executable key helpers
// ---------------------------------------------------------------------------

/// The byte sequences of a sequence of 32-byte keys.
pub open spec fn keys_view(s: Seq<Key32>) -> Seq<Seq<u8>> {
    s.map_values(|k: Key32| k@)
}

/// Taking a view commutes with appending a key.
pub proof fn lemma_keys_view_push(s: Seq<Key32>, x: Key32)
    ensures
        keys_view(s.push(x)) == keys_view(s).push(x@),
{
    assert(keys_view(s.push(x)) =~= keys_view(s).push(x@));
}

/// Byte-wise equality of two 32-byte keys.
pub fn key_eq(a: &Key32, b: &Key32) -> (r: bool)
    ensures
        r == (a@ == b@),
{
    let mut i: usize = 0;
    while i < 32
        invariant
            i <= 32,
            forall|j: int| 0 <= j < i ==> a@[j] == b@[j],
        decreases 32 - i,
    {
        if a[i] != b[i] {
            return false;
        }
        i += 1;
    }
    proof {
        assert(a@ =~= b@);
    }
    true
}

/// Whether `k` occurs in `v`.
pub fn contains_key(v: &Vec<Key32>, k: &Key32) -> (r: bool)
    ensures
        r == keys_view(v@).contains(k@),
{
    let mut i: usize = 0;
    while i < v.len()
        invariant
            i <= v@.len(),
            forall|j: int| 0 <= j < i ==> keys_view(v@)[j] != k@,
        decreases v@.len() - i,
    {
        if key_eq(&v[i], k) {
            proof {
                assert(keys_view(v@)[i as int] == k@);
            }
            return true;
        }
        i += 1;
    }
    proof {
        if keys_view(v@).contains(k@) {
            let j = choose|j: int| 0 <= j < keys_view(v@).len() && keys_view(v@)[j] == k@;
            assert(keys_view(v@)[j] != k@);
        }
    }
    false
}

/// Whether the byte `x` occurs in `v`.
pub fn contains_u8(v: &Vec<u8>, x: u8) -> (r: bool)
    ensures
        r == v@.contains(x),
{
    let mut i: usize = 0;
    while i < v.len()
        invariant
            i <= v@.len(),
            forall|j: int| 0 <= j < i ==> v@[j] != x,
        decreases v@.len() - i,
    {
        if v[i] == x {
            return true;
        }
        i += 1;
    }
    false
}

/// A copy of `v` with every occurrence of `k` removed, order kept.
pub fn vec_remove_key(v: &Vec<Key32>, k: &Key32) -> (r: Vec<Key32>)
    ensures
        keys_view(r@) == remove_key(keys_view(v@), k@),
{
    let ghost kv = keys_view(v@);
    let mut out: Vec<Key32> = Vec::new();
    let mut i: usize = 0;
    while i < v.len()
        invariant
            i <= v@.len(),
            kv == keys_view(v@),
            keys_view(out@) == remove_key(kv.take(i as int), k@),
        decreases v@.len() - i,
    {
        proof {
            assert(kv.take(i + 1) =~= kv.take(i as int).push(kv[i as int]));
            lemma_remove_key_push(kv.take(i as int), kv[i as int], k@);
        }
        if !key_eq(&v[i], k) {
            let ghost old_out = out@;
            out.push(v[i]);
            proof {
                lemma_keys_view_push(old_out, v@[i as int]);
            }
        }
        i += 1;
    }
    proof {
        assert(kv.take(v@.len() as int) =~= kv);
    }
    out
}

// ---------------------------------------------------------------------------
// Statuses and config actions
// ---------------------------------------------------------------------------

/// The lifecycle status of a proposal. `Active` is the only non-terminal
/// status; `Cancelled` is a reserved terminal value that no operation of this
/// engine produces.
#[derive(Debug, Clone, Copy, PartialEq, Eq, Structural)]
pub enum ProposalStatus {
    Active,
    Executed,
    Rejected,
    Cancelled,
}

/// A proposed change to the multisig's own configuration. Executing such a
/// proposal mutates the [`MultisigState`] instead of emitting a delegated
/// call.
#[derive(Debug, Clone, Copy, PartialEq, Eq)]
pub enum ConfigAction {
    /// Add a new member.
    AddMember { new_member: Key32 },
    /// Remove an existing member.
    RemoveMember { member: Key32 },
    /// Change the approval threshold.
    ChangeThreshold { new_threshold: u8 },
}

/// The mathematical shape of a [`ConfigAction`]: keys as byte sequences.
pub enum ConfigActionView {
    AddMember { new_member: Seq<u8> },
    RemoveMember { member: Seq<u8> },
    ChangeThreshold { new_threshold: u8 },
}

impl View for ConfigAction {
    type V = ConfigActionView;

    open spec fn view(&self) -> ConfigActionView {
        match self {
            ConfigAction::AddMember { new_member } => ConfigActionView::AddMember {
                new_member: new_member@,
            },
            ConfigAction::RemoveMember { member } => ConfigActionView::RemoveMember {
                member: member@,
            },
            ConfigAction::ChangeThreshold { new_threshold } => ConfigActionView::ChangeThreshold {
                new_threshold: *new_threshold,
            },
        }
    }
}

// ---------------------------------------------------------------------------
// MultisigState
// ---------------------------------------------------------------------------

/// The persistent record of one multisig instance.
#[derive(Debug, Clone, PartialEq, Eq)]
pub struct MultisigState {
    /// Caller-chosen key that distinguishes this instance; also the seed base
    /// of all its derived record addresses.
    pub create_key: Key32,
    /// How many approvals a proposal needs before it may execute (M).
    pub threshold: u8,
    /// The number of members (N); always equals `members.len()`.
    pub member_count: u8,
    /// The ordered member identities.
    pub members: Vec<Key32>,
    /// Monotonically increasing proposal counter; the index of the next
    /// proposal is one more than this value.
    pub transaction_index: u64,
}

/// The mathematical shape of a [`MultisigState`].
#[verifier::ext_equal]
pub struct StateView {
    pub create_key: Seq<u8>,
    pub threshold: u8,
    pub member_count: u8,
    pub members: Seq<Seq<u8>>,
    pub transaction_index: u64,
}

impl View for MultisigState {
    type V = StateView;

    open spec fn view(&self) -> StateView {
        StateView {
            create_key: self.create_key@,
            threshold: self.threshold,
            member_count: self.member_count,
            members: keys_view(self.members@),
            transaction_index: self.transaction_index,
        }
    }
}

impl StateView {
    /// The structural invariant of a multisig record: `1 <= M <= N <= 10`,
    /// the stored count agrees with the list, and all keys are 32 bytes.
    pub open spec fn well_formed(self) -> bool {
        &&& self.create_key.len() == 32
        &&& 1 <= self.threshold
        &&& self.threshold <= self.member_count
        &&& self.member_count == self.members.len()
        &&& self.members.len() <= MAX_MEMBERS
        &&& all_len32(self.members)
    }

    /// Whether `id` is a current member.
    pub open spec fn is_member(self, id: Seq<u8>) -> bool {
        self.members.contains(id)
    }
}

// ---------------------------------------------------------------------------
// Proposal
// ---------------------------------------------------------------------------

/// The persistent record of one proposed action.
#[derive(Debug, Clone, PartialEq, Eq)]
pub struct Proposal {
    /// The value of the owning multisig's counter when this was created.
    pub index: u64,
    /// The member who created it (auto-approved).
    pub proposer: Key32,
    /// The `create_key` of the owning multisig; checked on every operation.
    pub multisig_create_key: Key32,
    /// Delegated-call descriptor: the program to call when executing.
    pub target_program_id: ProgramId,
    /// Delegated-call descriptor: opaque instruction bytes for the target.
    pub target_instruction_data: Vec<u8>,
    /// Delegated-call descriptor: how many target accounts execution expects.
    pub target_account_count: u8,
    /// Delegated-call descriptor: derivation seeds proving the multisig's
    /// authority to the target program.
    pub pda_seeds: Vec<Key32>,
    /// Delegated-call descriptor: which target account positions are flagged
    /// privileged in the emitted call.
    pub authorized_indices: Vec<u8>,
    /// Members who voted yes; the proposer from creation on.
    pub approved: Vec<Key32>,
    /// Members who voted no.
    pub rejected: Vec<Key32>,
    /// The lifecycle status.
    pub status: ProposalStatus,
    /// When set, executing applies this config change instead of emitting a
    /// delegated call. A proposal is never both.
    pub config_action: Option<ConfigAction>,
}

/// The mathematical shape of a [`Proposal`].
#[verifier::ext_equal]
pub struct ProposalView {
    pub index: u64,
    pub proposer: Seq<u8>,
    pub multisig_create_key: Seq<u8>,
    pub target_program_id: Seq<u32>,
    pub target_instruction_data: Seq<u8>,
    pub target_account_count: u8,
    pub pda_seeds: Seq<Seq<u8>>,
    pub authorized_indices: Seq<u8>,
    pub approved: Seq<Seq<u8>>,
    pub rejected: Seq<Seq<u8>>,
    pub status: ProposalStatus,
    pub config_action: Option<ConfigActionView>,
}

impl View for Proposal {
    type V = ProposalView;

    open spec fn view(&self) -> ProposalView {
        ProposalView {
            index: self.index,
            proposer: self.proposer@,
            multisig_create_key: self.multisig_create_key@,
            target_program_id: self.target_program_id@,
            target_instruction_data: self.target_instruction_data@,
            target_account_count: self.target_account_count,
            pda_seeds: keys_view(self.pda_seeds@),
            authorized_indices: self.authorized_indices@,
            approved: keys_view(self.approved@),
            rejected: keys_view(self.rejected@),
            status: self.status,
            config_action: match self.config_action {
                Some(a) => Some(a@),
                None => None,
            },
        }
    }
}

impl ProposalView {
    /// The structural invariant of the vote sets: each member appears at most
    /// once overall — no duplicates within a set, and the sets are disjoint.
    pub open spec fn votes_well_formed(self) -> bool {
        &&& distinct_keys(self.approved)
        &&& distinct_keys(self.rejected)
        &&& disjoint_keys(self.approved, self.rejected)
    }

    /// The structural invariant of a proposal record: sound vote sets and all
    /// fixed-width fields of their stated width.
    pub open spec fn well_formed(self) -> bool {
        &&& self.proposer.len() == 32
        &&& self.multisig_create_key.len() == 32
        &&& self.target_program_id.len() == 8
        &&& all_len32(self.pda_seeds)
        &&& all_len32(self.approved)
        &&& all_len32(self.rejected)
        &&& self.votes_well_formed()
        &&& match self.config_action {
            Some(ConfigActionView::AddMember { new_member }) => new_member.len() == 32,
            Some(ConfigActionView::RemoveMember { member }) => member.len() == 32,
            _ => true,
        }
    }

    /// The record after a yes vote by `m`: `m` joins `approved` and leaves
    /// `rejected` (a vote flip), everything else unchanged.
    pub open spec fn with_approval(self, m: Seq<u8>) -> ProposalView {
        ProposalView {
            approved: self.approved.push(m),
            rejected: remove_key(self.rejected, m),
            ..self
        }
    }

    /// The record after a no vote by `m`: `m` joins `rejected` and leaves
    /// `approved`, everything else unchanged.
    pub open spec fn with_rejection(self, m: Seq<u8>) -> ProposalView {
        ProposalView {
            rejected: self.rejected.push(m),
            approved: remove_key(self.approved, m),
            ..self
        }
    }

    /// The same record with another status.
    pub open spec fn with_status(self, status: ProposalStatus) -> ProposalView {
        ProposalView { status: status, ..self }
    }

    /// Whether the proposal can never reach `threshold` approvals: even if
    /// every member outside `rejected` approved, they would be too few.
    pub open spec fn is_dead(self, threshold: u8, member_count: u8) -> bool {
        member_count - self.rejected.len() < threshold
    }
}

/// The view of a fresh delegated-call proposal: active, approved by its
/// proposer alone, no config action.
pub open spec fn delegated_proposal_view(
    index: u64,
    proposer: Seq<u8>,
    multisig_create_key: Seq<u8>,
    target_program_id: Seq<u32>,
    target_instruction_data: Seq<u8>,
    target_account_count: u8,
    pda_seeds: Seq<Seq<u8>>,
    authorized_indices: Seq<u8>,
) -> ProposalView {
    ProposalView {
        index,
        proposer,
        multisig_create_key,
        target_program_id,
        target_instruction_data,
        target_account_count,
        pda_seeds,
        authorized_indices,
        approved: seq![proposer],
        rejected: Seq::empty(),
        status: ProposalStatus::Active,
        config_action: None,
    }
}

/// The view of a fresh config-change proposal: active, approved by its
/// proposer alone, no delegated-call target.
pub open spec fn config_proposal_view(
    index: u64,
    proposer: Seq<u8>,
    multisig_create_key: Seq<u8>,
    action: ConfigActionView,
) -> ProposalView {
    ProposalView {
        index,
        proposer,
        multisig_create_key,
        target_program_id: Seq::new(8, |i: int| 0u32),
        target_instruction_data: Seq::empty(),
        target_account_count: 0,
        pda_seeds: Seq::empty(),
        authorized_indices: Seq::empty(),
        approved: seq![proposer],
        rejected: Seq::empty(),
        status: ProposalStatus::Active,
        config_action: Some(action),
    }
}

// ---------------------------------------------------------------------------
// Executable methods
// ---------------------------------------------------------------------------

impl MultisigState {
    /// A fresh multisig record with the counter at zero.
    pub fn new(create_key: Key32, threshold: u8, members: Vec<Key32>) -> (r: Self)
        requires
            members@.len() <= u8::MAX,
        ensures
            r@ == (StateView {
                create_key: create_key@,
                threshold: threshold,
                member_count: members@.len() as u8,
                members: keys_view(members@),
                transaction_index: 0,
            }),
    {
        let member_count = members.len() as u8;
        MultisigState { create_key, threshold, member_count, members, transaction_index: 0 }
    }

    /// Whether `id` is a current member.
    pub fn is_member(&self, id: &Key32) -> (r: bool)
        ensures
            r == self@.is_member(id@),
    {
        contains_key(&self.members, id)
    }

    /// Increment the proposal counter and return its new value, the index of
    /// the proposal being created.
    pub fn next_proposal_index(&mut self) -> (r: u64)
        requires
            old(self).transaction_index < u64::MAX,
        ensures
            r == old(self).transaction_index + 1,
            final(self)@ == (StateView {
                transaction_index: (old(self).transaction_index + 1) as u64,
                ..old(self)@
            }),
    {
        self.transaction_index = self.transaction_index + 1;
        self.transaction_index
    }

    /// How many of the given signers are current members; a signer listed
    /// twice is counted twice.
    pub fn count_valid_signers(&self, signers: &Vec<Key32>) -> (r: usize)
        ensures
            r == count_members(self@, keys_view(signers@)),
            r <= signers@.len(),
    {
        let ghost sv = keys_view(signers@);
        let mut count: usize = 0;
        let mut i: usize = 0;
        while i < signers.len()
            invariant
                i <= signers@.len(),
                sv == keys_view(signers@),
                count <= i,
                count == count_members(self@, sv.take(i as int)),
            decreases signers@.len() - i,
        {
            proof {
                assert(sv.take(i + 1) =~= sv.take(i as int).push(sv[i as int]));
                assert(sv.take(i + 1).drop_last() =~= sv.take(i as int));
            }
            if self.is_member(&signers[i]) {
                count += 1;
            }
            i += 1;
        }
        proof {
            assert(sv.take(signers@.len() as int) =~= sv);
        }
        count
    }
}

/// How many entries of `signers` are members of `s`, duplicates counted.
pub open spec fn count_members(s: StateView, signers: Seq<Seq<u8>>) -> int
    decreases signers.len(),
{
    if signers.len() == 0 {
        0
    } else {
        count_members(s, signers.drop_last()) + if s.is_member(signers.last()) {
            1int
        } else {
            0int
        }
    }
}

impl Proposal {
    /// A fresh delegated-call proposal: active, approved by its proposer
    /// alone, with no config action.
    pub fn new(
        index: u64,
        proposer: Key32,
        multisig_create_key: Key32,
        target_program_id: ProgramId,
        target_instruction_data: Vec<u8>,
        target_account_count: u8,
        pda_seeds: Vec<Key32>,
        authorized_indices: Vec<u8>,
    ) -> (r: Self)
        ensures
            r@ == delegated_proposal_view(
                index,
                proposer@,
                multisig_create_key@,
                target_program_id@,
                target_instruction_data@,
                target_account_count,
                keys_view(pda_seeds@),
                authorized_indices@,
            ),
            r@.well_formed(),
    {
        let mut approved: Vec<Key32> = Vec::new();
        approved.push(proposer);
        let r = Proposal {
            index,
            proposer,
            multisig_create_key,
            target_program_id,
            target_instruction_data,
            target_account_count,
            pda_seeds,
            authorized_indices,
            approved,
            rejected: Vec::new(),
            status: ProposalStatus::Active,
            config_action: None,
        };
        proof {
            assert(keys_view(r.approved@) =~= seq![proposer@]);
            assert(keys_view(r.rejected@) =~= Seq::<Seq<u8>>::empty());
        }
        r
    }

    /// A fresh config-change proposal: no delegated-call target.
    pub fn new_config(
        index: u64,
        proposer: Key32,
        multisig_create_key: Key32,
        action: ConfigAction,
    ) -> (r: Self)
        ensures
            r@ == config_proposal_view(index, proposer@, multisig_create_key@, action@),
            r@.well_formed(),
    {
        let mut approved: Vec<Key32> = Vec::new();
        approved.push(proposer);
        let r = Proposal {
            index,
            proposer,
            multisig_create_key,
            target_program_id: [0u32; 8],
            target_instruction_data: Vec::new(),
            target_account_count: 0,
            pda_seeds: Vec::new(),
            authorized_indices: Vec::new(),
            approved,
            rejected: Vec::new(),
            status: ProposalStatus::Active,
            config_action: Some(action),
        };
        proof {
            assert(keys_view(r.approved@) =~= seq![proposer@]);
            assert(keys_view(r.rejected@) =~= Seq::<Seq<u8>>::empty());
            assert(keys_view(r.pda_seeds@) =~= Seq::<Seq<u8>>::empty());
            assert(r.target_program_id@ =~= Seq::new(8, |i: int| 0u32));
        }
        r
    }

    /// Record a yes vote: `member` leaves `rejected` and joins `approved`.
    /// Returns false, changing nothing, when the member already approved.
    pub fn approve(&mut self, member: Key32) -> (r: bool)
        ensures
            r == !old(self)@.approved.contains(member@),
            r ==> final(self)@ == old(self)@.with_approval(member@),
            !r ==> final(self)@ == old(self)@,
    {
        if contains_key(&self.approved, &member) {
            return false;
        }
        self.rejected = vec_remove_key(&self.rejected, &member);
        let ghost before = keys_view(self.approved@);
        self.approved.push(member);
        proof {
            lemma_keys_view_push(old(self).approved@, member);
        }
        true
    }

    /// Record a no vote: `member` leaves `approved` and joins `rejected`.
    /// Returns false, changing nothing, when the member already rejected.
    pub fn reject(&mut self, member: Key32) -> (r: bool)
        ensures
            r == !old(self)@.rejected.contains(member@),
            r ==> final(self)@ == old(self)@.with_rejection(member@),
            !r ==> final(self)@ == old(self)@,
    {
        if contains_key(&self.rejected, &member) {
            return false;
        }
        self.approved = vec_remove_key(&self.approved, &member);
        self.rejected.push(member);
        proof {
            lemma_keys_view_push(old(self).rejected@, member);
        }
        true
    }

    /// Whether the proposal has collected at least `threshold` approvals.
    pub fn has_threshold(&self, threshold: u8) -> (r: bool)
        ensures
            r == (self@.approved.len() >= threshold),
    {
        self.approved.len() >= threshold as usize
    }

    /// Whether the proposal can never reach `threshold` approvals given the
    /// current rejections: `member_count - rejected.len() < threshold`.
    pub fn is_dead(&self, threshold: u8, member_count: u8) -> (r: bool)
        ensures
            r == self@.is_dead(threshold, member_count),
    {
        (member_count as u128) < (threshold as u128) + (self.rejected.len() as u128)
    }
}

/// The status as a short name, for reports outside the library.
pub fn status_str(status: &ProposalStatus) -> (r: &'static str)
    ensures
        status is Active ==> r@ =~= "Active"@,
        status is Executed ==> r@ =~= "Executed"@,
        status is Rejected ==> r@ =~= "Rejected"@,
        status is Cancelled ==> r@ =~= "Cancelled"@,
{
    match status {
        ProposalStatus::Active => "Active",
        ProposalStatus::Executed => "Executed",
        ProposalStatus::Rejected => "Rejected",
        ProposalStatus::Cancelled => "Cancelled",
    }
}

// ---------------------------------------------------------------------------
// Laws of the voting bookkeeping
// ---------------------------------------------------------------------------

/// A yes vote by a member who has not yet approved keeps the vote sets sound:
/// the voter ends up in `approved` and not in `rejected`, no set holds a
/// duplicate, the sets stay disjoint, and `approved` grows by exactly one.
pub proof fn lemma_vote_flip_approve(p: ProposalView, m: Seq<u8>)
    requires
        p.votes_well_formed(),
        !p.approved.contains(m),
    ensures
        p.with_approval(m).votes_well_formed(),
        p.with_approval(m).approved.contains(m),
        !p.with_approval(m).rejected.contains(m),
        p.with_approval(m).approved.len() == p.approved.len() + 1,
{
    let a2 = p.approved.push(m);
    let r2 = remove_key(p.rejected, m);
    lemma_remove_key_distinct(p.rejected, m);
    lemma_remove_key_contains(p.rejected, m, m);
    assert(a2[p.approved.len() as int] == m);
    assert forall|i: int, j: int| 0 <= i < j < a2.len() implies a2[i] != a2[j] by {
        if j < p.approved.len() {
            assert(a2[i] == p.approved[i] && a2[j] == p.approved[j]);
        } else {
            assert(a2[i] == p.approved[i]);
            assert(p.approved.contains(p.approved[i]));
        }
    }
    assert forall|i: int, j: int|
        0 <= i < a2.len() && 0 <= j < r2.len() implies a2[i] != r2[j] by {
        assert(r2.contains(r2[j]));
        lemma_remove_key_contains(p.rejected, m, r2[j]);
        let k = choose|k: int| 0 <= k < p.rejected.len() && p.rejected[k] == r2[j];
        if i < p.approved.len() {
            assert(a2[i] == p.approved[i]);
        } else {
            assert(a2[i] == m);
        }
    }
}

/// The mirror law for a no vote by a member who has not yet rejected.
pub proof fn lemma_vote_flip_reject(p: ProposalView, m: Seq<u8>)
    requires
        p.votes_well_formed(),
        !p.rejected.contains(m),
    ensures
        p.with_rejection(m).votes_well_formed(),
        p.with_rejection(m).rejected.contains(m),
        !p.with_rejection(m).approved.contains(m),
        p.with_rejection(m).rejected.len() == p.rejected.len() + 1,
{
    let r2 = p.rejected.push(m);
    let a2 = remove_key(p.approved, m);
    lemma_remove_key_distinct(p.approved, m);
    lemma_remove_key_contains(p.approved, m, m);
    assert(r2[p.rejected.len() as int] == m);
    assert forall|i: int, j: int| 0 <= i < j < r2.len() implies r2[i] != r2[j] by {
        if j < p.rejected.len() {
            assert(r2[i] == p.rejected[i] && r2[j] == p.rejected[j]);
        } else {
            assert(r2[i] == p.rejected[i]);
            assert(p.rejected.contains(p.rejected[i]));
        }
    }
    assert forall|i: int, j: int|
        0 <= i < a2.len() && 0 <= j < r2.len() implies a2[i] != r2[j] by {
        assert(a2.contains(a2[i]));
        lemma_remove_key_contains(p.approved, m, a2[i]);
        let k = choose|k: int| 0 <= k < p.approved.len() && p.approved[k] == a2[i];
        if j < p.rejected.len() {
            assert(r2[j] == p.rejected[j]);
        } else {
            assert(r2[j] == m);
        }
    }
}

} // verus!
