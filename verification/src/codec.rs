//! The persisted byte layout of the records.
//!
//! Both records are laid out with fixed-width integers in little-endian
//! order, length-prefixed lists (a 32-bit count, then the items), and
//! one-byte codes for enums and options, fields in declaration order. A
//! decoder accepts exactly the encodings — a wrong code, a short buffer or a
//! trailing byte is rejected — so decoding is the inverse of encoding, which
//! [`lemma_state_codec_round_trip`] and [`lemma_proposal_codec_round_trip`]
//! prove.

use vstd::arithmetic::div_mod::lemma_fundamental_div_mod_converse;
use vstd::bytes::{
    lemma_auto_spec_u32_to_from_le_bytes, lemma_auto_spec_u64_to_from_le_bytes,
    spec_u32_from_le_bytes, spec_u32_to_le_bytes, spec_u64_from_le_bytes, spec_u64_to_le_bytes,
    u32_from_le_bytes, u32_to_le_bytes, u64_from_le_bytes, u64_to_le_bytes,
};
use vstd::prelude::*;

use crate::model::{
    all_len32, keys_view, ConfigAction, ConfigActionView, Key32, MultisigState, ProgramId,
    Proposal, ProposalStatus, ProposalView, StateView,
};

verus! {

// ---------------------------------------------------------------------------
// Spec layer: pieces
// ---------------------------------------------------------------------------

/// A list of 32-byte keys laid out back to back.
pub open spec fn keys_bytes(ms: Seq<Seq<u8>>) -> Seq<u8> {
    Seq::new(32 * ms.len(), |k: int| ms[k / 32][k % 32])
}

/// The keys read back from `b` at `off`: `n` items of 32 bytes each.
pub open spec fn keys_at(b: Seq<u8>, off: int, n: int) -> Seq<Seq<u8>> {
    Seq::new(n as nat, |i: int| b.subrange(off + 32 * i, off + 32 * i + 32))
}

/// Laying out one more key appends its 32 bytes.
pub proof fn lemma_keys_bytes_snoc(ms: Seq<Seq<u8>>, x: Seq<u8>)
    requires
        all_len32(ms),
        x.len() == 32,
    ensures
        keys_bytes(ms.push(x)) == keys_bytes(ms) + x,
{
    let l = ms.len() as int;
    let lhs = keys_bytes(ms.push(x));
    let rhs = keys_bytes(ms) + x;
    assert forall|k: int| 0 <= k < 32 * (l + 1) implies lhs[k] == rhs[k] by {
        lemma_fundamental_div_mod_converse(k, 32, k / 32, k % 32);
        if k < 32 * l {
            assert(k / 32 < l) by {
                if k / 32 >= l {
                    assert(k == 32 * (k / 32) + k % 32);
                    assert(32 * (k / 32) >= 32 * l) by (nonlinear_arith)
                        requires
                            k / 32 >= l,
                    ;
                }
            }
            assert(ms.push(x)[k / 32] == ms[k / 32]);
        } else {
            lemma_fundamental_div_mod_converse(k, 32, l, k - 32 * l);
            assert(ms.push(x)[l] == x);
        }
    }
    assert(lhs =~= rhs);
}

/// The bytes of key `i` sit at offset `32 * i` of the layout.
pub proof fn lemma_keys_bytes_slice(ms: Seq<Seq<u8>>, i: int)
    requires
        all_len32(ms),
        0 <= i < ms.len(),
    ensures
        keys_bytes(ms).subrange(32 * i, 32 * i + 32) == ms[i],
{
    let piece = keys_bytes(ms).subrange(32 * i, 32 * i + 32);
    assert(32 * i + 32 <= 32 * ms.len()) by (nonlinear_arith)
        requires
            i < ms.len(),
    ;
    assert forall|j: int| 0 <= j < 32 implies piece[j] == ms[i][j] by {
        lemma_fundamental_div_mod_converse(32 * i + j, 32, i, j);
    }
    assert(piece =~= ms[i]);
}

/// Reading keys back from their own layout gives the keys.
pub proof fn lemma_keys_at_of_keys_bytes(ms: Seq<Seq<u8>>, b: Seq<u8>, off: int)
    requires
        all_len32(ms),
        0 <= off,
        off + 32 * ms.len() <= b.len(),
        b.subrange(off, off + 32 * ms.len()) == keys_bytes(ms),
    ensures
        keys_at(b, off, ms.len() as int) == ms,
{
    let n = ms.len() as int;
    assert forall|i: int| 0 <= i < n implies keys_at(b, off, n)[i] == ms[i] by {
        lemma_keys_bytes_slice(ms, i);
        assert(32 * i + 32 <= 32 * n) by (nonlinear_arith)
            requires
                i < n,
        ;
        assert(b.subrange(off + 32 * i, off + 32 * i + 32) =~= b.subrange(off, off + 32 * n)
            .subrange(32 * i, 32 * i + 32));
    }
    assert(keys_at(b, off, n) =~= ms);
}

/// A list of 32-bit words laid out as little-endian bytes.
pub open spec fn words_bytes(ws: Seq<u32>) -> Seq<u8> {
    Seq::new(4 * ws.len(), |k: int| spec_u32_to_le_bytes(ws[k / 4])[k % 4])
}

/// The words read back from `b` at `off`: `n` little-endian 32-bit words.
pub open spec fn words_at(b: Seq<u8>, off: int, n: int) -> Seq<u32> {
    Seq::new(n as nat, |i: int| spec_u32_from_le_bytes(b.subrange(off + 4 * i, off + 4 * i + 4)))
}

/// The bytes of word `i` sit at offset `4 * i` of the layout.
pub proof fn lemma_words_bytes_slice(ws: Seq<u32>, i: int)
    requires
        0 <= i < ws.len(),
    ensures
        words_bytes(ws).subrange(4 * i, 4 * i + 4) == spec_u32_to_le_bytes(ws[i]),
{
    lemma_auto_spec_u32_to_from_le_bytes();
    let piece = words_bytes(ws).subrange(4 * i, 4 * i + 4);
    assert(4 * i + 4 <= 4 * ws.len()) by (nonlinear_arith)
        requires
            i < ws.len(),
    ;
    assert forall|j: int| 0 <= j < 4 implies piece[j] == spec_u32_to_le_bytes(ws[i])[j] by {
        lemma_fundamental_div_mod_converse(4 * i + j, 4, i, j);
    }
    assert(piece =~= spec_u32_to_le_bytes(ws[i]));
}

/// Laying out one more word appends its four bytes.
pub proof fn lemma_words_bytes_snoc(ws: Seq<u32>, x: u32)
    ensures
        words_bytes(ws.push(x)) == words_bytes(ws) + spec_u32_to_le_bytes(x),
{
    lemma_auto_spec_u32_to_from_le_bytes();
    let l = ws.len() as int;
    let lhs = words_bytes(ws.push(x));
    let rhs = words_bytes(ws) + spec_u32_to_le_bytes(x);
    assert forall|k: int| 0 <= k < 4 * (l + 1) implies lhs[k] == rhs[k] by {
        lemma_fundamental_div_mod_converse(k, 4, k / 4, k % 4);
        if k < 4 * l {
            assert(k / 4 < l) by {
                if k / 4 >= l {
                    assert(k == 4 * (k / 4) + k % 4);
                    assert(4 * (k / 4) >= 4 * l) by (nonlinear_arith)
                        requires
                            k / 4 >= l,
                    ;
                }
            }
            assert(ws.push(x)[k / 4] == ws[k / 4]);
        } else {
            lemma_fundamental_div_mod_converse(k, 4, l, k - 4 * l);
            assert(ws.push(x)[l] == x);
        }
    }
    assert(lhs =~= rhs);
}

/// Reading words back from their own layout gives the words.
pub proof fn lemma_words_at_of_words_bytes(ws: Seq<u32>, b: Seq<u8>, off: int)
    requires
        0 <= off,
        off + 4 * ws.len() <= b.len(),
        b.subrange(off, off + 4 * ws.len()) == words_bytes(ws),
    ensures
        words_at(b, off, ws.len() as int) == ws,
{
    lemma_auto_spec_u32_to_from_le_bytes();
    let n = ws.len() as int;
    assert forall|i: int| 0 <= i < n implies words_at(b, off, n)[i] == ws[i] by {
        lemma_words_bytes_slice(ws, i);
        assert(4 * i + 4 <= 4 * n) by (nonlinear_arith)
            requires
                i < n,
        ;
        assert(b.subrange(off + 4 * i, off + 4 * i + 4) =~= b.subrange(off, off + 4 * n).subrange(
            4 * i,
            4 * i + 4,
        ));
        assert(spec_u32_from_le_bytes(spec_u32_to_le_bytes(ws[i])) == ws[i]);
    }
    assert(words_at(b, off, n) =~= ws);
}

// ---------------------------------------------------------------------------
// Spec layer: the state record
// ---------------------------------------------------------------------------

/// What a state record may hold so that it can be laid out: the key widths
/// are fixed and the member list's length fits its 32-bit prefix.
pub open spec fn state_encodable(s: StateView) -> bool {
    &&& s.create_key.len() == 32
    &&& all_len32(s.members)
    &&& s.members.len() <= u32::MAX
}

/// The byte layout of a state record: `create_key`, `threshold`,
/// `member_count`, the member list with its 32-bit count, and the 64-bit
/// proposal counter.
pub open spec fn spec_encode_state(s: StateView) -> Seq<u8> {
    s.create_key + seq![s.threshold] + seq![s.member_count] + spec_u32_to_le_bytes(
        s.members.len() as u32,
    ) + keys_bytes(s.members) + spec_u64_to_le_bytes(s.transaction_index)
}

/// The state record a byte string holds, if it is exactly an encoding.
pub open spec fn spec_decode_state(b: Seq<u8>) -> Option<StateView> {
    if b.len() < 46 {
        None
    } else {
        let n = spec_u32_from_le_bytes(b.subrange(34, 38)) as int;
        if b.len() != 46 + 32 * n {
            None
        } else {
            Some(
                StateView {
                    create_key: b.subrange(0, 32),
                    threshold: b[32],
                    member_count: b[33],
                    members: keys_at(b, 38, n),
                    transaction_index: spec_u64_from_le_bytes(
                        b.subrange(38 + 32 * n, 46 + 32 * n),
                    ),
                },
            )
        }
    }
}

/// Decoding is the inverse of encoding: an encoded state record reads back
/// field for field.
pub proof fn lemma_state_codec_round_trip(s: StateView)
    requires
        state_encodable(s),
    ensures
        spec_decode_state(spec_encode_state(s)) == Some(s),
{
    lemma_auto_spec_u32_to_from_le_bytes();
    lemma_auto_spec_u64_to_from_le_bytes();
    let e = spec_encode_state(s);
    let n = s.members.len() as int;
    assert(e.len() == 46 + 32 * n);
    assert(e.subrange(34, 38) =~= spec_u32_to_le_bytes(n as u32));
    assert(spec_u32_from_le_bytes(e.subrange(34, 38)) == n as u32);
    assert(e.subrange(0, 32) =~= s.create_key);
    assert(e[32] == s.threshold);
    assert(e[33] == s.member_count);
    assert(e.subrange(38, 38 + 32 * n) =~= keys_bytes(s.members));
    lemma_keys_at_of_keys_bytes(s.members, e, 38);
    assert(e.subrange(38 + 32 * n, 46 + 32 * n) =~= spec_u64_to_le_bytes(s.transaction_index));
    assert(spec_decode_state(e).unwrap() =~= s);
}

// ---------------------------------------------------------------------------
// Executable helpers
// ---------------------------------------------------------------------------

/// Append all of `src` to `out`.
fn push_bytes(out: &mut Vec<u8>, src: &[u8])
    ensures
        final(out)@ == old(out)@ + src@,
{
    let mut i: usize = 0;
    while i < src.len()
        invariant
            i <= src@.len(),
            out@ == old(out)@ + src@.take(i as int),
        decreases src@.len() - i,
    {
        proof {
            assert(old(out)@ + src@.take(i + 1) =~= (old(out)@ + src@.take(i as int)).push(
                src@[i as int],
            ));
        }
        out.push(src[i]);
        i += 1;
    }
    proof {
        assert(src@.take(src@.len() as int) =~= src@);
    }
}

/// Read the 32 bytes at `off` as a key.
fn read_key32(bytes: &[u8], off: usize) -> (r: Key32)
    requires
        off + 32 <= bytes@.len(),
    ensures
        r@ == bytes@.subrange(off as int, off + 32),
{
    let l = bytes.len();
    let mut r: Key32 = [0u8; 32];
    let mut j: usize = 0;
    while j < 32
        invariant
            j <= 32,
            off + 32 <= l == bytes@.len(),
            forall|k: int| 0 <= k < j ==> r@[k] == bytes@[off + k],
        decreases 32 - j,
    {
        r[j] = bytes[off + j];
        j += 1;
    }
    proof {
        assert(r@ =~= bytes@.subrange(off as int, off + 32));
    }
    r
}

/// Append the keys of `ks` back to back.
fn push_keys(out: &mut Vec<u8>, ks: &Vec<Key32>)
    ensures
        final(out)@ == old(out)@ + keys_bytes(keys_view(ks@)),
{
    let ghost kv = keys_view(ks@);
    let mut i: usize = 0;
    while i < ks.len()
        invariant
            i <= ks@.len(),
            kv == keys_view(ks@),
            out@ == old(out)@ + keys_bytes(kv.take(i as int)),
        decreases ks@.len() - i,
    {
        proof {
            assert(kv.take(i + 1) =~= kv.take(i as int).push(kv[i as int]));
            lemma_keys_bytes_snoc(kv.take(i as int), kv[i as int]);
        }
        push_bytes(out, ks[i].as_slice());
        i += 1;
    }
    proof {
        assert(kv.take(ks@.len() as int) =~= kv);
    }
}

/// Read `n` keys of 32 bytes each at `off`.
fn read_keys(bytes: &[u8], off: usize, n: usize) -> (r: Vec<Key32>)
    requires
        off + 32 * n <= bytes@.len(),
    ensures
        keys_view(r@) == keys_at(bytes@, off as int, n as int),
        r@.len() == n,
{
    let l = bytes.len();
    let mut r: Vec<Key32> = Vec::new();
    let mut i: usize = 0;
    while i < n
        invariant
            i <= n,
            off + 32 * n <= l == bytes@.len(),
            r@.len() == i,
            forall|j: int| 0 <= j < i ==> keys_view(r@)[j] == keys_at(
                bytes@,
                off as int,
                n as int,
            )[j],
        decreases n - i,
    {
        proof {
            assert(32 * i + 32 <= 32 * n) by (nonlinear_arith)
                requires
                    i < n,
            ;
        }
        let k = read_key32(bytes, off + 32 * i);
        let ghost before = r@;
        r.push(k);
        proof {
            crate::model::lemma_keys_view_push(before, k);
        }
        i += 1;
    }
    proof {
        assert(keys_view(r@) =~= keys_at(bytes@, off as int, n as int));
    }
    r
}

// ---------------------------------------------------------------------------
// Executable codec: the state record
// ---------------------------------------------------------------------------

/// Lay out a state record as bytes.
pub fn encode_state(s: &MultisigState) -> (r: Vec<u8>)
    requires
        s.members@.len() <= u32::MAX,
    ensures
        r@ == spec_encode_state(s@),
{
    let mut out: Vec<u8> = Vec::new();
    push_bytes(&mut out, s.create_key.as_slice());
    out.push(s.threshold);
    out.push(s.member_count);
    let len_bytes = u32_to_le_bytes(s.members.len() as u32);
    push_bytes(&mut out, len_bytes.as_slice());
    push_keys(&mut out, &s.members);
    let tx_bytes = u64_to_le_bytes(s.transaction_index);
    push_bytes(&mut out, tx_bytes.as_slice());
    proof {
        assert(out@ =~= spec_encode_state(s@));
    }
    out
}

/// Read a state record back from bytes; `None` unless `bytes` is exactly an
/// encoding.
pub fn decode_state(bytes: &[u8]) -> (r: Option<MultisigState>)
    ensures
        match r {
            Some(s) => spec_decode_state(bytes@) == Some(s@),
            None => spec_decode_state(bytes@) is None,
        },
{
    proof {
        lemma_auto_spec_u32_to_from_le_bytes();
    }
    if bytes.len() < 46 {
        return None;
    }
    let n32 = u32_from_le_bytes(&bytes[34..38]);
    let ghost n = n32 as int;
    if (bytes.len() as u64) != 46u64 + 32u64 * (n32 as u64) {
        return None;
    }
    assert(bytes@.len() == 46 + 32 * n);
    let n_usize = n32 as usize;
    let create_key = read_key32(bytes, 0);
    let threshold = bytes[32];
    let member_count = bytes[33];
    proof {
        assert(38 + 32 * n <= bytes@.len());
    }
    let members = read_keys(bytes, 38, n_usize);
    let tx_off: usize = 38 + 32 * n_usize;
    let transaction_index = u64_from_le_bytes(&bytes[tx_off..tx_off + 8]);
    let s = MultisigState { create_key, threshold, member_count, members, transaction_index };
    proof {
        assert(spec_decode_state(bytes@).unwrap() =~= s@);
    }
    Some(s)
}

// ---------------------------------------------------------------------------
// Spec layer: the proposal record
// ---------------------------------------------------------------------------

/// The one-byte code of a status.
pub open spec fn status_code(st: ProposalStatus) -> u8 {
    match st {
        ProposalStatus::Active => 0,
        ProposalStatus::Executed => 1,
        ProposalStatus::Rejected => 2,
        ProposalStatus::Cancelled => 3,
    }
}

/// The status a one-byte code stands for.
pub open spec fn status_of_code(x: u8) -> Option<ProposalStatus> {
    if x == 0 {
        Some(ProposalStatus::Active)
    } else if x == 1 {
        Some(ProposalStatus::Executed)
    } else if x == 2 {
        Some(ProposalStatus::Rejected)
    } else if x == 3 {
        Some(ProposalStatus::Cancelled)
    } else {
        None
    }
}

/// The byte layout of an optional config action: a presence byte, then a
/// variant code and its payload.
pub open spec fn config_bytes(c: Option<ConfigActionView>) -> Seq<u8> {
    match c {
        None => seq![0u8],
        Some(ConfigActionView::AddMember { new_member }) => seq![1u8, 0u8] + new_member,
        Some(ConfigActionView::RemoveMember { member }) => seq![1u8, 1u8] + member,
        Some(ConfigActionView::ChangeThreshold { new_threshold }) => seq![1u8, 2u8, new_threshold],
    }
}

/// What a proposal record may hold so that it can be laid out: fixed key
/// widths, and each list's length fits its 32-bit prefix.
pub open spec fn proposal_encodable(p: ProposalView) -> bool {
    &&& p.proposer.len() == 32
    &&& p.multisig_create_key.len() == 32
    &&& p.target_program_id.len() == 8
    &&& p.target_instruction_data.len() <= u32::MAX
    &&& all_len32(p.pda_seeds)
    &&& p.pda_seeds.len() <= u32::MAX
    &&& p.authorized_indices.len() <= u32::MAX
    &&& all_len32(p.approved)
    &&& p.approved.len() <= u32::MAX
    &&& all_len32(p.rejected)
    &&& p.rejected.len() <= u32::MAX
    &&& match p.config_action {
        Some(ConfigActionView::AddMember { new_member }) => new_member.len() == 32,
        Some(ConfigActionView::RemoveMember { member }) => member.len() == 32,
        _ => true,
    }
}

/// The byte layout of a proposal record, fields in declaration order: the
/// index, the proposer, the owning multisig's key, the delegated-call
/// descriptor, both vote lists with 32-bit counts, the status code, and the
/// optional config action.
pub open spec fn spec_encode_proposal(p: ProposalView) -> Seq<u8> {
    spec_u64_to_le_bytes(p.index) + p.proposer + p.multisig_create_key + words_bytes(
        p.target_program_id,
    ) + spec_u32_to_le_bytes(p.target_instruction_data.len() as u32)
        + p.target_instruction_data + seq![p.target_account_count] + spec_u32_to_le_bytes(
        p.pda_seeds.len() as u32,
    ) + keys_bytes(p.pda_seeds) + spec_u32_to_le_bytes(p.authorized_indices.len() as u32)
        + p.authorized_indices + spec_u32_to_le_bytes(p.approved.len() as u32) + keys_bytes(
        p.approved,
    ) + spec_u32_to_le_bytes(p.rejected.len() as u32) + keys_bytes(p.rejected) + seq![
        status_code(p.status),
    ] + config_bytes(p.config_action)
}

/// The proposal record a byte string holds, if it is exactly an encoding.
pub open spec fn spec_decode_proposal(b: Seq<u8>) -> Option<ProposalView> {
    if b.len() < 113 {
        None
    } else {
        let dlen = spec_u32_from_le_bytes(b.subrange(104, 108)) as int;
        if b.len() < 113 + dlen {
            None
        } else {
            let o1 = 109 + dlen;
            let slen = spec_u32_from_le_bytes(b.subrange(o1, o1 + 4)) as int;
            if b.len() < o1 + 8 + 32 * slen {
                None
            } else {
                let o2 = o1 + 4 + 32 * slen;
                let alen = spec_u32_from_le_bytes(b.subrange(o2, o2 + 4)) as int;
                if b.len() < o2 + 8 + alen {
                    None
                } else {
                    let o3 = o2 + 4 + alen;
                    let aplen = spec_u32_from_le_bytes(b.subrange(o3, o3 + 4)) as int;
                    if b.len() < o3 + 8 + 32 * aplen {
                        None
                    } else {
                        let o4 = o3 + 4 + 32 * aplen;
                        let rlen = spec_u32_from_le_bytes(b.subrange(o4, o4 + 4)) as int;
                        if b.len() < o4 + 4 + 32 * rlen + 2 {
                            None
                        } else {
                            let o5 = o4 + 4 + 32 * rlen;
                            let o6 = o5 + 1;
                            if status_of_code(b[o5]) is None {
                                None
                            } else {
                                spec_decode_proposal_tail(b, dlen, o1, o2, o3, o4, o5, o6)
                            }
                        }
                    }
                }
            }
        }
    }
}

/// The config-action tail of [`spec_decode_proposal`], and the record built
/// from all the parsed pieces.
pub open spec fn spec_decode_proposal_tail(
    b: Seq<u8>,
    dlen: int,
    o1: int,
    o2: int,
    o3: int,
    o4: int,
    o5: int,
    o6: int,
) -> Option<ProposalView> {
    let config: Option<Option<ConfigActionView>> = if b[o6] == 0 {
        if b.len() == o6 + 1 {
            Some(None)
        } else {
            None
        }
    } else if b[o6] == 1 && b.len() >= o6 + 2 {
        if b[o6 + 1] == 0 && b.len() == o6 + 34 {
            Some(Some(ConfigActionView::AddMember { new_member: b.subrange(o6 + 2, o6 + 34) }))
        } else if b[o6 + 1] == 1 && b.len() == o6 + 34 {
            Some(Some(ConfigActionView::RemoveMember { member: b.subrange(o6 + 2, o6 + 34) }))
        } else if b[o6 + 1] == 2 && b.len() == o6 + 3 {
            Some(Some(ConfigActionView::ChangeThreshold { new_threshold: b[o6 + 2] }))
        } else {
            None
        }
    } else {
        None
    };
    match config {
        None => None,
        Some(config_action) => Some(
            ProposalView {
                index: spec_u64_from_le_bytes(b.subrange(0, 8)),
                proposer: b.subrange(8, 40),
                multisig_create_key: b.subrange(40, 72),
                target_program_id: words_at(b, 72, 8),
                target_instruction_data: b.subrange(108, 108 + dlen),
                target_account_count: b[108 + dlen],
                pda_seeds: keys_at(
                    b,
                    o1 + 4,
                    spec_u32_from_le_bytes(b.subrange(o1, o1 + 4)) as int,
                ),
                authorized_indices: b.subrange(o2 + 4, o3),
                approved: keys_at(
                    b,
                    o3 + 4,
                    spec_u32_from_le_bytes(b.subrange(o3, o3 + 4)) as int,
                ),
                rejected: keys_at(
                    b,
                    o4 + 4,
                    spec_u32_from_le_bytes(b.subrange(o4, o4 + 4)) as int,
                ),
                status: status_of_code(b[o5]).unwrap(),
                config_action,
            },
        ),
    }
}

/// Decoding is the inverse of encoding: an encoded proposal record reads back
/// field for field.
#[verifier::rlimit(60)]
pub proof fn lemma_proposal_codec_round_trip(p: ProposalView)
    requires
        proposal_encodable(p),
    ensures
        spec_decode_proposal(spec_encode_proposal(p)) == Some(p),
{
    lemma_auto_spec_u32_to_from_le_bytes();
    lemma_auto_spec_u64_to_from_le_bytes();
    let e = spec_encode_proposal(p);
    let dlen = p.target_instruction_data.len() as int;
    let slen = p.pda_seeds.len() as int;
    let alen = p.authorized_indices.len() as int;
    let aplen = p.approved.len() as int;
    let rlen = p.rejected.len() as int;
    let o1 = 109 + dlen;
    let o2 = o1 + 4 + 32 * slen;
    let o3 = o2 + 4 + alen;
    let o4 = o3 + 4 + 32 * aplen;
    let o5 = o4 + 4 + 32 * rlen;
    let o6 = o5 + 1;
    let clen: int = match p.config_action {
        None => 1,
        Some(ConfigActionView::ChangeThreshold { .. }) => 3,
        Some(_) => 34,
    };
    assert(e.len() == o6 + clen);
    assert(e.subrange(0, 8) =~= spec_u64_to_le_bytes(p.index));
    assert(e.subrange(8, 40) =~= p.proposer);
    assert(e.subrange(40, 72) =~= p.multisig_create_key);
    assert(e.subrange(72, 104) =~= words_bytes(p.target_program_id));
    lemma_words_at_of_words_bytes(p.target_program_id, e, 72);
    assert(e.subrange(104, 108) =~= spec_u32_to_le_bytes(dlen as u32));
    assert(e.subrange(108, 108 + dlen) =~= p.target_instruction_data);
    assert(e[108 + dlen] == p.target_account_count);
    assert(e.subrange(o1, o1 + 4) =~= spec_u32_to_le_bytes(slen as u32));
    assert(e.subrange(o1 + 4, o1 + 4 + 32 * slen) =~= keys_bytes(p.pda_seeds));
    lemma_keys_at_of_keys_bytes(p.pda_seeds, e, o1 + 4);
    assert(e.subrange(o2, o2 + 4) =~= spec_u32_to_le_bytes(alen as u32));
    assert(e.subrange(o2 + 4, o3) =~= p.authorized_indices);
    assert(e.subrange(o3, o3 + 4) =~= spec_u32_to_le_bytes(aplen as u32));
    assert(e.subrange(o3 + 4, o3 + 4 + 32 * aplen) =~= keys_bytes(p.approved));
    lemma_keys_at_of_keys_bytes(p.approved, e, o3 + 4);
    assert(e.subrange(o4, o4 + 4) =~= spec_u32_to_le_bytes(rlen as u32));
    assert(e.subrange(o4 + 4, o4 + 4 + 32 * rlen) =~= keys_bytes(p.rejected));
    lemma_keys_at_of_keys_bytes(p.rejected, e, o4 + 4);
    assert(e[o5] == status_code(p.status));
    match p.config_action {
        None => {
            assert(e[o6] == 0);
        },
        Some(ConfigActionView::AddMember { new_member }) => {
            assert(e[o6] == 1 && e[o6 + 1] == 0);
            assert(e.subrange(o6 + 2, o6 + 34) =~= new_member);
        },
        Some(ConfigActionView::RemoveMember { member }) => {
            assert(e[o6] == 1 && e[o6 + 1] == 1);
            assert(e.subrange(o6 + 2, o6 + 34) =~= member);
        },
        Some(ConfigActionView::ChangeThreshold { new_threshold }) => {
            assert(e[o6] == 1 && e[o6 + 1] == 2 && e[o6 + 2] == new_threshold);
        },
    }
    assert(spec_decode_proposal(e).unwrap() =~= p);
}

// ---------------------------------------------------------------------------
// Executable codec: the proposal record
// ---------------------------------------------------------------------------

/// Append the little-endian bytes of the eight words of `ws`.
fn push_words(out: &mut Vec<u8>, ws: &ProgramId)
    ensures
        final(out)@ == old(out)@ + words_bytes(ws@),
{
    let mut i: usize = 0;
    while i < 8
        invariant
            i <= 8,
            out@ == old(out)@ + words_bytes(ws@.take(i as int)),
        decreases 8 - i,
    {
        proof {
            assert(ws@.take(i + 1) =~= ws@.take(i as int).push(ws@[i as int]));
            lemma_words_bytes_snoc(ws@.take(i as int), ws@[i as int]);
        }
        let word_bytes = u32_to_le_bytes(ws[i]);
        push_bytes(out, word_bytes.as_slice());
        i += 1;
    }
    proof {
        assert(ws@.take(8) =~= ws@);
    }
}

/// Read the eight little-endian words at `off`.
fn read_words8(bytes: &[u8], off: usize) -> (r: ProgramId)
    requires
        off + 32 <= bytes@.len(),
    ensures
        r@ == words_at(bytes@, off as int, 8),
{
    let l = bytes.len();
    let mut r: ProgramId = [0u32; 8];
    let mut i: usize = 0;
    while i < 8
        invariant
            i <= 8,
            off + 32 <= l == bytes@.len(),
            forall|j: int| 0 <= j < i ==> r@[j] == words_at(bytes@, off as int, 8)[j],
        decreases 8 - i,
    {
        let w = u32_from_le_bytes(&bytes[off + 4 * i..off + 4 * i + 4]);
        r[i] = w;
        i += 1;
    }
    proof {
        assert(r@ =~= words_at(bytes@, off as int, 8));
    }
    r
}

/// Read the `n` bytes at `off`.
fn read_bytes(bytes: &[u8], off: usize, n: usize) -> (r: Vec<u8>)
    requires
        off + n <= bytes@.len(),
    ensures
        r@ == bytes@.subrange(off as int, off + n),
{
    let l = bytes.len();
    let mut r: Vec<u8> = Vec::new();
    let mut i: usize = 0;
    while i < n
        invariant
            i <= n,
            off + n <= l == bytes@.len(),
            r@.len() == i,
            forall|j: int| 0 <= j < i ==> r@[j] == bytes@[off + j],
        decreases n - i,
    {
        r.push(bytes[off + i]);
        i += 1;
    }
    proof {
        assert(r@ =~= bytes@.subrange(off as int, off + n));
    }
    r
}

/// Lay out a proposal record as bytes.
#[verifier::rlimit(60)]
pub fn encode_proposal(p: &Proposal) -> (r: Vec<u8>)
    requires
        p.target_instruction_data@.len() <= u32::MAX,
        p.pda_seeds@.len() <= u32::MAX,
        p.authorized_indices@.len() <= u32::MAX,
        p.approved@.len() <= u32::MAX,
        p.rejected@.len() <= u32::MAX,
    ensures
        r@ == spec_encode_proposal(p@),
{
    let mut out: Vec<u8> = Vec::new();
    let index_bytes = u64_to_le_bytes(p.index);
    push_bytes(&mut out, index_bytes.as_slice());
    push_bytes(&mut out, p.proposer.as_slice());
    push_bytes(&mut out, p.multisig_create_key.as_slice());
    push_words(&mut out, &p.target_program_id);
    let dlen_bytes = u32_to_le_bytes(p.target_instruction_data.len() as u32);
    push_bytes(&mut out, dlen_bytes.as_slice());
    push_bytes(&mut out, p.target_instruction_data.as_slice());
    out.push(p.target_account_count);
    let slen_bytes = u32_to_le_bytes(p.pda_seeds.len() as u32);
    push_bytes(&mut out, slen_bytes.as_slice());
    push_keys(&mut out, &p.pda_seeds);
    let alen_bytes = u32_to_le_bytes(p.authorized_indices.len() as u32);
    push_bytes(&mut out, alen_bytes.as_slice());
    push_bytes(&mut out, p.authorized_indices.as_slice());
    let aplen_bytes = u32_to_le_bytes(p.approved.len() as u32);
    push_bytes(&mut out, aplen_bytes.as_slice());
    push_keys(&mut out, &p.approved);
    let rlen_bytes = u32_to_le_bytes(p.rejected.len() as u32);
    push_bytes(&mut out, rlen_bytes.as_slice());
    push_keys(&mut out, &p.rejected);
    let status_byte: u8 = match p.status {
        ProposalStatus::Active => 0,
        ProposalStatus::Executed => 1,
        ProposalStatus::Rejected => 2,
        ProposalStatus::Cancelled => 3,
    };
    out.push(status_byte);
    match &p.config_action {
        None => {
            out.push(0);
        },
        Some(ConfigAction::AddMember { new_member }) => {
            out.push(1);
            out.push(0);
            push_bytes(&mut out, new_member.as_slice());
        },
        Some(ConfigAction::RemoveMember { member }) => {
            out.push(1);
            out.push(1);
            push_bytes(&mut out, member.as_slice());
        },
        Some(ConfigAction::ChangeThreshold { new_threshold }) => {
            out.push(1);
            out.push(2);
            out.push(*new_threshold);
        },
    }
    proof {
        assert(out@ =~= spec_encode_proposal(p@));
    }
    out
}

/// Read a proposal record back from bytes; `None` unless `bytes` is exactly
/// an encoding.
#[verifier::rlimit(60)]
pub fn decode_proposal(bytes: &[u8]) -> (r: Option<Proposal>)
    ensures
        match r {
            Some(p) => spec_decode_proposal(bytes@) == Some(p@),
            None => spec_decode_proposal(bytes@) is None,
        },
{
    proof {
        lemma_auto_spec_u32_to_from_le_bytes();
    }
    let l = bytes.len();
    if l < 113 {
        return None;
    }
    let index = u64_from_le_bytes(&bytes[0..8]);
    let proposer = read_key32(bytes, 8);
    let multisig_create_key = read_key32(bytes, 40);
    let target_program_id = read_words8(bytes, 72);
    let dlen32 = u32_from_le_bytes(&bytes[104..108]);
    if (l as u128) < 113u128 + (dlen32 as u128) {
        return None;
    }
    let dlen = dlen32 as usize;
    let target_instruction_data = read_bytes(bytes, 108, dlen);
    let target_account_count = bytes[108 + dlen];
    let o1: usize = 109 + dlen;
    let slen32 = u32_from_le_bytes(&bytes[o1..o1 + 4]);
    if (l as u128) < (o1 as u128) + 8u128 + 32u128 * (slen32 as u128) {
        return None;
    }
    let slen = slen32 as usize;
    let pda_seeds = read_keys(bytes, o1 + 4, slen);
    let o2: usize = o1 + 4 + 32 * slen;
    let alen32 = u32_from_le_bytes(&bytes[o2..o2 + 4]);
    if (l as u128) < (o2 as u128) + 8u128 + (alen32 as u128) {
        return None;
    }
    let alen = alen32 as usize;
    let authorized_indices = read_bytes(bytes, o2 + 4, alen);
    let o3: usize = o2 + 4 + alen;
    let aplen32 = u32_from_le_bytes(&bytes[o3..o3 + 4]);
    if (l as u128) < (o3 as u128) + 8u128 + 32u128 * (aplen32 as u128) {
        return None;
    }
    let aplen = aplen32 as usize;
    let approved = read_keys(bytes, o3 + 4, aplen);
    let o4: usize = o3 + 4 + 32 * aplen;
    let rlen32 = u32_from_le_bytes(&bytes[o4..o4 + 4]);
    if (l as u128) < (o4 as u128) + 4u128 + 32u128 * (rlen32 as u128) + 2u128 {
        return None;
    }
    let rlen = rlen32 as usize;
    let rejected = read_keys(bytes, o4 + 4, rlen);
    let o5: usize = o4 + 4 + 32 * rlen;
    let status = match bytes[o5] {
        0 => ProposalStatus::Active,
        1 => ProposalStatus::Executed,
        2 => ProposalStatus::Rejected,
        3 => ProposalStatus::Cancelled,
        _ => {
            return None;
        },
    };
    let o6: usize = o5 + 1;
    let tag = bytes[o6];
    let config_action: Option<ConfigAction> = if tag == 0 {
        if (l as u128) != (o6 as u128) + 1 {
            return None;
        }
        None
    } else if tag == 1 {
        if (l as u128) < (o6 as u128) + 2 {
            return None;
        }
        let variant = bytes[o6 + 1];
        if variant == 0 {
            if (l as u128) != (o6 as u128) + 34 {
                return None;
            }
            Some(ConfigAction::AddMember { new_member: read_key32(bytes, o6 + 2) })
        } else if variant == 1 {
            if (l as u128) != (o6 as u128) + 34 {
                return None;
            }
            Some(ConfigAction::RemoveMember { member: read_key32(bytes, o6 + 2) })
        } else if variant == 2 {
            if (l as u128) != (o6 as u128) + 3 {
                return None;
            }
            Some(ConfigAction::ChangeThreshold { new_threshold: bytes[o6 + 2] })
        } else {
            return None;
        }
    } else {
        return None;
    };
    let p = Proposal {
        index,
        proposer,
        multisig_create_key,
        target_program_id,
        target_instruction_data,
        target_account_count,
        pda_seeds,
        authorized_indices,
        approved,
        rejected,
        status,
        config_action,
    };
    proof {
        assert(spec_decode_proposal(bytes@).unwrap() =~= p@);
    }
    Some(p)
}

} // verus!
