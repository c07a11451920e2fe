//! The in-memory vault: a bounded, ordered list of intercepted secrets.
//!
//! Slots are kept oldest first. Pushing into a full vault evicts the oldest
//! slot, every push hands out the next identifier (wrapping at `u32::MAX`),
//! and slots can be taken back out by identifier or newest first.
use vstd::prelude::*;
use vstd::utf8::{decode_utf8, encode_utf8, valid_utf8};
use crate::seal::{KEY_LEN, NONCE_LEN, open, random_key, random_nonce, seal, within_aead_limit, xchacha_open, xchacha_seal};

verus! {

/// A secret handed back by the vault, opened.
///
/// `entropy_bits` is the bit pattern of the `f32` entropy score that was
/// measured when the secret was intercepted, and `timestamp_nanos` the
/// wall-clock time of the interception in nanoseconds since the Unix epoch.
#[derive(Clone, Debug)]
pub struct VaultSlot {
    pub id: u32,
    pub secret: String,
    pub entropy_bits: u32,
    pub timestamp_nanos: u128,
}

/// What may be shown about a slot without revealing its secret.
#[derive(Clone, Copy, Debug, PartialEq, Eq, Structural)]
pub struct SlotMetadata {
    pub id: u32,
    pub entropy_bits: u32,
    pub timestamp_nanos: u128,
    /// Length of the secret in bytes (UTF-8).
    pub len: usize,
}

/// A slot as the vault stores it: the secret's UTF-8 bytes sealed with
/// XChaCha20-Poly1305 under the vault's key and the slot's own nonce.
struct SealedSlot {
    id: u32,
    nonce: Vec<u8>,
    sealed: Vec<u8>,
    len: usize,
    entropy_bits: u32,
    timestamp_nanos: u128,
}

/// A bounded vault of secrets, sealed in memory under a key of its own.
pub struct MultiSlotVault {
    key: Vec<u8>,
    slots: Vec<SealedSlot>,
    max_slots: usize,
    next_id: u32,
}

/// The model of one slot: its identifier, its secret in the clear, its
/// entropy score and its time stamp.
pub struct SlotView {
    pub id: u32,
    pub secret: Seq<char>,
    pub entropy_bits: u32,
    pub timestamp_nanos: u128,
}

/// The mathematical model of a vault: its slots opened, oldest first.
pub struct VaultView {
    pub slots: Seq<SlotView>,
    pub max_slots: nat,
    pub next_id: u32,
}

/// The bytes a stored slot opens to under `key`.
spec fn opened_bytes(key: Seq<u8>, s: SealedSlot) -> Seq<u8> {
    match xchacha_open(key, s.nonce@, s.sealed@) {
        Some(b) => b,
        None => Seq::empty(),
    }
}

/// A stored slot opens under `key` to valid UTF-8 of the recorded length.
spec fn opens_to_text(key: Seq<u8>, s: SealedSlot) -> bool {
    &&& s.nonce@.len() == NONCE_LEN
    &&& xchacha_open(key, s.nonce@, s.sealed@) is Some
    &&& valid_utf8(opened_bytes(key, s))
    &&& s.len == opened_bytes(key, s).len()
}

/// The model of a stored slot opened under `key`.
spec fn view_of_sealed(key: Seq<u8>, s: SealedSlot) -> SlotView {
    SlotView {
        id: s.id,
        secret: decode_utf8(opened_bytes(key, s)),
        entropy_bits: s.entropy_bits,
        timestamp_nanos: s.timestamp_nanos,
    }
}

impl View for MultiSlotVault {
    type V = VaultView;

    closed spec fn view(&self) -> VaultView {
        VaultView {
            slots: self.slots@.map_values(|s: SealedSlot| view_of_sealed(self.key@, s)),
            max_slots: self.max_slots as nat,
            next_id: self.next_id,
        }
    }
}

/// A handed-back slot shows the model slot `v`.
pub open spec fn shows(s: VaultSlot, v: SlotView) -> bool {
    &&& s.id == v.id
    &&& s.secret@ == v.secret
    &&& s.entropy_bits == v.entropy_bits
    &&& s.timestamp_nanos == v.timestamp_nanos
}

/// The identifier that follows `id`: one more, wrapping to 0 after `u32::MAX`.
pub open spec fn successor_id(id: u32) -> u32 {
    if id == u32::MAX {
        0
    } else {
        (id + 1) as u32
    }
}

/// The number of slots a vault with the given limit can hold after a push:
/// the limit itself, but at least one (a push always stores its secret).
pub open spec fn capacity(max_slots: nat) -> nat {
    if max_slots == 0 {
        1
    } else {
        max_slots
    }
}

/// The slots that stay when a new secret arrives: the oldest slot leaves
/// when the vault is full and not empty.
pub open spec fn evicted(slots: Seq<SlotView>, max_slots: nat) -> Seq<SlotView> {
    if slots.len() >= max_slots && slots.len() > 0 {
        slots.drop_first()
    } else {
        slots
    }
}

/// The vault after `secret` was pushed at time `now`.
pub open spec fn pushed(v: VaultView, secret: Seq<char>, entropy_bits: u32, now: u128) -> VaultView {
    VaultView {
        slots: evicted(v.slots, v.max_slots).push(
            SlotView { id: v.next_id, secret, entropy_bits, timestamp_nanos: now },
        ),
        max_slots: v.max_slots,
        next_id: successor_id(v.next_id),
    }
}

/// `i` is the position of the first slot that carries `id`.
pub open spec fn is_first_with_id(slots: Seq<SlotView>, id: u32, i: int) -> bool {
    &&& 0 <= i < slots.len()
    &&& slots[i].id == id
    &&& forall|j: int| 0 <= j < i ==> slots[j].id != id
}

/// Whether some slot carries `id`.
pub open spec fn has_id(slots: Seq<SlotView>, id: u32) -> bool {
    exists|i: int| 0 <= i < slots.len() && slots[i].id == id
}

/// The position of the first slot that carries `id` (meaningful when `has_id`).
pub open spec fn first_index_of(slots: Seq<SlotView>, id: u32) -> int {
    choose|i: int| is_first_with_id(slots, id, i)
}

/// The slot that `pop_by_id` hands out.
pub open spec fn popped_slot(slots: Seq<SlotView>, id: u32) -> Option<SlotView> {
    if has_id(slots, id) {
        Some(slots[first_index_of(slots, id)])
    } else {
        None
    }
}

/// The slots that stay after `pop_by_id`.
pub open spec fn remaining_after_pop(slots: Seq<SlotView>, id: u32) -> Seq<SlotView> {
    if has_id(slots, id) {
        slots.remove(first_index_of(slots, id))
    } else {
        slots
    }
}

/// A slot is still fresh at `now` when it was not stamped in the future and
/// is younger than `max_age_nanos`.
pub open spec fn is_fresh(slot: SlotView, now: u128, max_age_nanos: u128) -> bool {
    slot.timestamp_nanos <= now && now - slot.timestamp_nanos < max_age_nanos
}

/// The slots that stay after removing the expired ones.
pub open spec fn fresh_slots(slots: Seq<SlotView>, now: u128, max_age_nanos: u128) -> Seq<
    SlotView,
> {
    slots.filter(|s: SlotView| is_fresh(s, now, max_age_nanos))
}

/// Number of bytes of the UTF-8 encoding of a text, as `str::len` reports it.
pub open spec fn utf8_len(text: Seq<char>) -> usize {
    encode_utf8(text).len() as usize
}

/// The metadata shown for a slot.
pub open spec fn metadata_of(slot: SlotView) -> SlotMetadata {
    SlotMetadata {
        id: slot.id,
        entropy_bits: slot.entropy_bits,
        timestamp_nanos: slot.timestamp_nanos,
        len: utf8_len(slot.secret),
    }
}

/// There is at most one position that is the first one carrying an id.
proof fn lemma_first_index_unique(slots: Seq<SlotView>, id: u32, i: int)
    requires
        is_first_with_id(slots, id, i),
    ensures
        has_id(slots, id),
        first_index_of(slots, id) == i,
{
    assert(slots[i].id == id);
    let k = first_index_of(slots, id);
    assert(is_first_with_id(slots, id, k));
    if k < i {
        assert(slots[k].id != id);
    } else if i < k {
        assert(slots[i].id != id);
    }
}

/// No two slots carry the same identifier.
pub open spec fn ids_distinct(slots: Seq<SlotView>) -> bool {
    forall|i: int, j: int| 0 <= i < j < slots.len() ==> slots[i].id != slots[j].id
}

/// A push never lets the vault grow past its capacity: a vault within
/// `capacity(max_slots)` slots stays within it.
pub proof fn lemma_push_within_capacity(v: VaultView, secret: Seq<char>, entropy_bits: u32, now: u128)
    requires
        v.slots.len() <= capacity(v.max_slots),
    ensures
        pushed(v, secret, entropy_bits, now).slots.len() <= capacity(v.max_slots),
        pushed(v, secret, entropy_bits, now).max_slots == v.max_slots,
{
}

/// A push into a full vault drops exactly the oldest slot; the other slots
/// keep their order and the new slot comes last.
pub proof fn lemma_push_into_full_vault_evicts_oldest(
    v: VaultView,
    secret: Seq<char>,
    entropy_bits: u32,
    now: u128,
)
    requires
        v.slots.len() >= v.max_slots,
        v.slots.len() > 0,
    ensures
        pushed(v, secret, entropy_bits, now).slots.len() == v.slots.len(),
        forall|i: int|
            0 <= i < v.slots.len() - 1 ==> #[trigger] pushed(v, secret, entropy_bits, now).slots[i]
                == v.slots[i + 1],
        pushed(v, secret, entropy_bits, now).slots.last().secret == secret,
{
}

/// What a push stores, `pop_latest` gives back right away, and the vault is
/// left with the slots that survived the push.
pub proof fn lemma_push_then_pop_latest(v: VaultView, secret: Seq<char>, entropy_bits: u32, now: u128)
    ensures
        ({
            let p = pushed(v, secret, entropy_bits, now);
            &&& p.slots.len() > 0
            &&& p.slots.last() == SlotView {
                id: v.next_id,
                secret,
                entropy_bits,
                timestamp_nanos: now,
            }
            &&& p.slots.drop_last() == evicted(v.slots, v.max_slots)
        }),
{
    let p = pushed(v, secret, entropy_bits, now);
    assert(p.slots.drop_last() =~= evicted(v.slots, v.max_slots));
}

/// What a push stores, `pop_by_id` with the returned identifier gives back,
/// and the vault is left with the slots that survived the push, provided no
/// surviving slot already carries that identifier (which can only happen
/// once the identifiers have wrapped around).
pub proof fn lemma_push_then_pop_by_id(v: VaultView, secret: Seq<char>, entropy_bits: u32, now: u128)
    requires
        !has_id(evicted(v.slots, v.max_slots), v.next_id),
    ensures
        ({
            let p = pushed(v, secret, entropy_bits, now);
            &&& popped_slot(p.slots, v.next_id) == Some(
                SlotView { id: v.next_id, secret, entropy_bits, timestamp_nanos: now },
            )
            &&& remaining_after_pop(p.slots, v.next_id) == evicted(v.slots, v.max_slots)
        }),
{
    let e = evicted(v.slots, v.max_slots);
    let p = pushed(v, secret, entropy_bits, now);
    let last = e.len() as int;
    assert(p.slots[last].id == v.next_id);
    assert forall|j: int| 0 <= j < last implies p.slots[j].id != v.next_id by {
        assert(p.slots[j] == e[j]);
    }
    lemma_first_index_unique(p.slots, v.next_id, last);
    assert(p.slots.remove(last) =~= e);
}

/// With distinct identifiers, a slot taken out by `pop_by_id` cannot be taken
/// out a second time, and the identifiers that stay are still distinct.
pub proof fn lemma_pop_by_id_is_once(slots: Seq<SlotView>, id: u32)
    requires
        ids_distinct(slots),
    ensures
        !has_id(remaining_after_pop(slots, id), id),
        ids_distinct(remaining_after_pop(slots, id)),
        popped_slot(remaining_after_pop(slots, id), id) == None::<SlotView>,
{
    if has_id(slots, id) {
        let i0 = choose|i: int| 0 <= i < slots.len() && slots[i].id == id;
        assert(is_first_with_id(slots, id, i0)) by {
            assert forall|j: int| 0 <= j < i0 implies slots[j].id != id by {
                assert(slots[j].id != slots[i0].id);
            }
        }
        lemma_first_index_unique(slots, id, i0);
        let r = slots.remove(i0);
        assert forall|k: int| 0 <= k < r.len() implies r[k].id != id by {
            if k < i0 {
                assert(r[k] == slots[k]);
            } else {
                assert(r[k] == slots[k + 1]);
            }
        }
        assert forall|a: int, b: int| 0 <= a < b < r.len() implies r[a].id != r[b].id by {
            let a0 = if a < i0 { a } else { a + 1 };
            let b0 = if b < i0 { b } else { b + 1 };
            assert(r[a] == slots[a0]);
            assert(r[b] == slots[b0]);
        }
    }
}

/// A push keeps identifiers distinct when the identifier it hands out is not
/// carried by a surviving slot.
pub proof fn lemma_push_keeps_ids_distinct(
    v: VaultView,
    secret: Seq<char>,
    entropy_bits: u32,
    now: u128,
)
    requires
        ids_distinct(v.slots),
        !has_id(evicted(v.slots, v.max_slots), v.next_id),
    ensures
        ids_distinct(pushed(v, secret, entropy_bits, now).slots),
{
    let e = evicted(v.slots, v.max_slots);
    let p = pushed(v, secret, entropy_bits, now).slots;
    assert forall|a: int, b: int| 0 <= a < b < p.len() implies p[a].id != p[b].id by {
        if b == e.len() {
            assert(p[a] == e[a]);
        } else {
            assert(p[a] == e[a]);
            assert(p[b] == e[b]);
            if e.len() < v.slots.len() {
                assert(e[a] == v.slots[a + 1]);
                assert(e[b] == v.slots[b + 1]);
            }
        }
    }
}

/// Removing expired slots keeps exactly the fresh ones: every slot that stays
/// is fresh, every fresh slot stays, and a second cleanup at the same time
/// changes nothing.
pub proof fn lemma_cleanup_keeps_exactly_fresh(
    slots: Seq<SlotView>,
    now: u128,
    max_age_nanos: u128,
)
    ensures
        forall|i: int|
            0 <= i < fresh_slots(slots, now, max_age_nanos).len() ==> is_fresh(
                #[trigger] fresh_slots(slots, now, max_age_nanos)[i],
                now,
                max_age_nanos,
            ),
        forall|i: int|
            0 <= i < slots.len() && is_fresh(slots[i], now, max_age_nanos) ==> #[trigger] fresh_slots(
                slots,
                now,
                max_age_nanos,
            ).contains(slots[i]),
        fresh_slots(fresh_slots(slots, now, max_age_nanos), now, max_age_nanos) == fresh_slots(
            slots,
            now,
            max_age_nanos,
        ),
{
    let pred = |s: SlotView| is_fresh(s, now, max_age_nanos);
    broadcast use Seq::lemma_filter_pred, Seq::lemma_filter_contains;
    lemma_filter_of_all_true(slots.filter(pred), pred);
}

/// Filtering a sequence whose elements all satisfy the predicate gives it back.
proof fn lemma_filter_of_all_true(s: Seq<SlotView>, pred: spec_fn(SlotView) -> bool)
    requires
        forall|i: int| 0 <= i < s.len() ==> pred(#[trigger] s[i]),
    ensures
        s.filter(pred) == s,
    decreases s.len(),
{
    reveal_with_fuel(Seq::filter, 1);
    if s.len() > 0 {
        let d = s.drop_last();
        assert forall|i: int| 0 <= i < d.len() implies pred(#[trigger] d[i]) by {
            assert(d[i] == s[i]);
        }
        lemma_filter_of_all_true(d, pred);
        assert(pred(s[s.len() - 1]));
        assert(d.push(s.last()) =~= s);
    }
}

/// Identifiers handed out by successive pushes follow each other, wrapping
/// to 0 after `u32::MAX`.
pub proof fn lemma_successive_pushes_number_in_order(
    v: VaultView,
    s1: Seq<char>,
    e1: u32,
    t1: u128,
    s2: Seq<char>,
    e2: u32,
    t2: u128,
)
    ensures
        pushed(pushed(v, s1, e1, t1), s2, e2, t2).slots.last().id == successor_id(v.next_id),
        pushed(pushed(v, s1, e1, t1), s2, e2, t2).next_id == successor_id(successor_id(v.next_id)),
{
}

/// Identifiers strictly increase from the oldest slot to the newest.
pub open spec fn ids_increasing(slots: Seq<SlotView>) -> bool {
    forall|i: int, j: int| 0 <= i < j < slots.len() ==> slots[i].id < slots[j].id
}

/// One operation on a vault, for reasoning about sequences of them.
pub enum VaultOp {
    Push { secret: Seq<char>, entropy_bits: u32, now: u128 },
    PopById { id: u32 },
    PopLatest,
    Cleanup { now: u128, max_age_nanos: u128 },
    Clear,
}

/// The vault after one operation, as the operation's own contract states it.
pub open spec fn apply_op(v: VaultView, op: VaultOp) -> VaultView {
    match op {
        VaultOp::Push { secret, entropy_bits, now } => pushed(v, secret, entropy_bits, now),
        VaultOp::PopById { id } => VaultView { slots: remaining_after_pop(v.slots, id), ..v },
        VaultOp::PopLatest => VaultView {
            slots: if v.slots.len() == 0 {
                v.slots
            } else {
                v.slots.drop_last()
            },
            ..v
        },
        VaultOp::Cleanup { now, max_age_nanos } => VaultView {
            slots: fresh_slots(v.slots, now, max_age_nanos),
            ..v
        },
        VaultOp::Clear => VaultView { slots: Seq::empty(), ..v },
    }
}

/// The vault after a sequence of operations, first to last.
pub open spec fn run_ops(v: VaultView, ops: Seq<VaultOp>) -> VaultView
    decreases ops.len(),
{
    if ops.len() == 0 {
        v
    } else {
        apply_op(run_ops(v, ops.drop_last()), ops.last())
    }
}

/// The number of pushes in a sequence of operations.
pub open spec fn push_count(ops: Seq<VaultOp>) -> nat
    decreases ops.len(),
{
    if ops.len() == 0 {
        0
    } else {
        push_count(ops.drop_last()) + if ops.last() is Push {
            1nat
        } else {
            0nat
        }
    }
}

/// The model of `MultiSlotVault::new(max_slots)`.
pub open spec fn empty_vault(max_slots: nat) -> VaultView {
    VaultView { slots: Seq::empty(), max_slots, next_id: 1 }
}

/// What holds of a vault after `count` pushes from empty.
spec fn numbered_in_order(v: VaultView, max_slots: nat, count: nat) -> bool {
    &&& v.max_slots == max_slots
    &&& v.slots.len() <= capacity(max_slots)
    &&& ids_increasing(v.slots)
    &&& forall|i: int| 0 <= i < v.slots.len() ==> 1 <= #[trigger] v.slots[i].id <= count
    &&& v.next_id as int == (count + 1) % 0x1_0000_0000
}

/// Filtering keeps the order of identifiers and takes only elements that
/// were there.
proof fn lemma_filter_keeps_order(s: Seq<SlotView>, pred: spec_fn(SlotView) -> bool, bound: int)
    requires
        ids_increasing(s),
        forall|i: int| 0 <= i < s.len() ==> 1 <= #[trigger] s[i].id <= bound,
    ensures
        ids_increasing(s.filter(pred)),
        forall|i: int| 0 <= i < s.filter(pred).len() ==> 1 <= #[trigger] s.filter(pred)[i].id <= bound,
        forall|i: int|
            0 <= i < s.filter(pred).len() ==> s.contains(#[trigger] s.filter(pred)[i]),
        s.filter(pred).len() <= s.len(),
    decreases s.len(),
{
    reveal_with_fuel(Seq::filter, 1);
    if s.len() > 0 {
        let d = s.drop_last();
        assert forall|i: int| 0 <= i < d.len() implies 1 <= #[trigger] d[i].id <= bound by {
            assert(d[i] == s[i]);
        }
        lemma_filter_keeps_order(d, pred, bound);
        let fd = d.filter(pred);
        assert forall|i: int| 0 <= i < fd.len() implies s.contains(#[trigger] fd[i]) by {
            let w = choose|w: int| 0 <= w < d.len() && d[w] == fd[i];
            assert(s[w] == fd[i]);
        }
        if pred(s.last()) {
            let f = fd.push(s.last());
            assert forall|i: int| 0 <= i < fd.len() implies (#[trigger] fd[i]).id < s.last().id by {
                let w = choose|w: int| 0 <= w < d.len() && d[w] == fd[i];
                assert(s[w] == fd[i]);
            }
            assert forall|a: int, b: int| 0 <= a < b < f.len() implies f[a].id < f[b].id by {
                if b == f.len() - 1 {
                    assert(f[a] == fd[a]);
                } else {
                    assert(f[a] == fd[a]);
                    assert(f[b] == fd[b]);
                }
            }
            assert forall|i: int| 0 <= i < f.len() implies s.contains(#[trigger] f[i]) by {
                if i == f.len() - 1 {
                    assert(s[s.len() - 1] == f[i]);
                } else {
                    assert(f[i] == fd[i]);
                }
            }
        }
    }
}

/// One operation keeps a vault numbered in order, with the push count
/// moving on by one for a push.
proof fn lemma_op_keeps_numbering(v: VaultView, m: nat, count: nat, op: VaultOp)
    requires
        numbered_in_order(v, m, count),
        op is Push ==> count + 1 <= u32::MAX,
    ensures
        numbered_in_order(apply_op(v, op), m, count + if op is Push {
            1nat
        } else {
            0nat
        }),
{
    match op {
        VaultOp::Push { secret, entropy_bits, now } => {
            let e = evicted(v.slots, v.max_slots);
            let p = pushed(v, secret, entropy_bits, now);
            assert(v.next_id == count + 1);
            assert forall|i: int| 0 <= i < e.len() implies 1 <= #[trigger] e[i].id <= count by {
                if e.len() < v.slots.len() {
                    assert(e[i] == v.slots[i + 1]);
                } else {
                    assert(e[i] == v.slots[i]);
                }
            }
            assert forall|a: int, b: int| 0 <= a < b < p.slots.len() implies p.slots[a].id
                < p.slots[b].id by {
                assert(p.slots[a] == e[a]);
                if b < e.len() {
                    assert(p.slots[b] == e[b]);
                    if e.len() < v.slots.len() {
                        assert(e[a] == v.slots[a + 1]);
                        assert(e[b] == v.slots[b + 1]);
                    } else {
                        assert(e[a] == v.slots[a]);
                        assert(e[b] == v.slots[b]);
                    }
                }
            }
            assert forall|i: int| 0 <= i < p.slots.len() implies 1 <= #[trigger] p.slots[i].id
                <= count + 1 by {
                if i < e.len() {
                    assert(p.slots[i] == e[i]);
                }
            }
            lemma_push_within_capacity(v, secret, entropy_bits, now);
        },
        VaultOp::PopById { id } => {
            if has_id(v.slots, id) {
                lemma_has_id_first(v.slots, id);
                let k = first_index_of(v.slots, id);
                let r = v.slots.remove(k);
                assert forall|i: int| 0 <= i < r.len() implies 1 <= #[trigger] r[i].id <= count by {
                    if i < k {
                        assert(r[i] == v.slots[i]);
                    } else {
                        assert(r[i] == v.slots[i + 1]);
                    }
                }
                assert forall|a: int, b: int| 0 <= a < b < r.len() implies r[a].id < r[b].id by {
                    let a0 = if a < k { a } else { a + 1 };
                    let b0 = if b < k { b } else { b + 1 };
                    assert(r[a] == v.slots[a0]);
                    assert(r[b] == v.slots[b0]);
                }
            }
        },
        VaultOp::PopLatest => {
            if v.slots.len() > 0 {
                let d = v.slots.drop_last();
                assert forall|i: int| 0 <= i < d.len() implies 1 <= #[trigger] d[i].id <= count by {
                    assert(d[i] == v.slots[i]);
                }
            }
        },
        VaultOp::Cleanup { now, max_age_nanos } => {
            lemma_filter_keeps_order(
                v.slots,
                |s: SlotView| is_fresh(s, now, max_age_nanos),
                count as int,
            );
        },
        VaultOp::Clear => {},
    }
}

/// Starting from `MultiSlotVault::new(max_slots)`, after any sequence of
/// pushes, retrievals, clean-ups and clears with at most `u32::MAX` pushes:
/// the limit is unchanged, the vault never holds more than
/// `capacity(max_slots)` slots, the `k`-th push has handed out identifier
/// `k` (so the next identifier is one more than the number of pushes), and
/// the identifiers of the slots held strictly increase from oldest to newest
/// and lie between 1 and the number of pushes; in particular no identifier
/// is handed out twice.
pub proof fn lemma_vault_runs_in_order(max_slots: nat, ops: Seq<VaultOp>)
    requires
        push_count(ops) <= u32::MAX,
    ensures
        run_ops(empty_vault(max_slots), ops).max_slots == max_slots,
        run_ops(empty_vault(max_slots), ops).slots.len() <= capacity(max_slots),
        ids_increasing(run_ops(empty_vault(max_slots), ops).slots),
        forall|i: int|
            0 <= i < run_ops(empty_vault(max_slots), ops).slots.len() ==> 1 <= #[trigger] run_ops(
                empty_vault(max_slots),
                ops,
            ).slots[i].id <= push_count(ops),
        run_ops(empty_vault(max_slots), ops).next_id as int == (push_count(ops) + 1) % 0x1_0000_0000,
    decreases ops.len(),
{
    if ops.len() > 0 {
        let d = ops.drop_last();
        lemma_vault_runs_in_order(max_slots, d);
        lemma_op_keeps_numbering(run_ops(empty_vault(max_slots), d), max_slots, push_count(d), ops.last());
    }
}

/// A vault that holds a slot with `id` has a first such slot.
pub proof fn lemma_has_id_first(slots: Seq<SlotView>, id: u32)
    requires
        has_id(slots, id),
    ensures
        is_first_with_id(slots, id, first_index_of(slots, id)),
    decreases slots.len(),
{
    if slots[0].id == id {
        lemma_first_index_unique(slots, id, 0);
    } else {
        let tail = slots.drop_first();
        let w = choose|w: int| 0 <= w < slots.len() && slots[w].id == id;
        assert(tail[w - 1].id == id);
        lemma_has_id_first(tail, id);
        let k = first_index_of(tail, id);
        assert forall|j: int| 0 <= j < k + 1 implies slots[j].id != id by {
            if j > 0 {
                assert(slots[j] == tail[j - 1]);
            }
        }
        lemma_first_index_unique(slots, id, k + 1);
    }
}

#[verifier::external_type_specification]
#[verifier::external_body]
pub struct ExSystemTime(std::time::SystemTime);

#[verifier::external_type_specification]
#[verifier::external_body]
pub struct ExSystemTimeError(std::time::SystemTimeError);

/// Reads the wall clock (`std::time::SystemTime::now`). Nothing is promised
/// of the reading: it is whatever the clock says.
#[verifier::external_body]
fn system_now() -> (t: std::time::SystemTime) {
    std::time::SystemTime::now()
}

/// The time from the Unix epoch to an instant
/// (`SystemTime::duration_since(UNIX_EPOCH)`), or an error for an instant
/// before the epoch. Nothing is stated: the instant is a clock reading.
#[verifier::external_body]
fn since_epoch(t: &std::time::SystemTime) -> (r: Result<
    std::time::Duration,
    std::time::SystemTimeError,
>) {
    t.duration_since(std::time::UNIX_EPOCH)
}

/// The whole nanoseconds of a duration (`Duration::as_nanos`). Nothing is
/// stated: durations here come from clock readings.
#[verifier::external_body]
fn duration_nanos(d: &std::time::Duration) -> (n: u128) {
    d.as_nanos()
}

/// Reads the wall clock, in nanoseconds since the Unix epoch; an instant
/// before the epoch reads as 0.
pub(crate) fn clock_now_nanos() -> (now: u128) {
    let t = system_now();
    match since_epoch(&t) {
        Ok(d) => duration_nanos(&d),
        Err(_) => 0,
    }
}

impl SealedSlot {
    /// A copy of the stored slot, field for field.
    fn copy(&self) -> (r: SealedSlot)
        ensures
            r.id == self.id,
            r.nonce@ == self.nonce@,
            r.sealed@ == self.sealed@,
            r.len == self.len,
            r.entropy_bits == self.entropy_bits,
            r.timestamp_nanos == self.timestamp_nanos,
    {
        let nonce = self.nonce.clone();
        let sealed = self.sealed.clone();
        proof {
            assert(nonce@ =~= self.nonce@);
            assert(sealed@ =~= self.sealed@);
        }
        SealedSlot {
            id: self.id,
            nonce,
            sealed,
            len: self.len,
            entropy_bits: self.entropy_bits,
            timestamp_nanos: self.timestamp_nanos,
        }
    }
}

impl MultiSlotVault {
    /// Every stored slot opens under the vault's key to valid UTF-8 text.
    #[verifier::type_invariant]
    spec fn well_formed(self) -> bool {
        &&& self.key@.len() == KEY_LEN
        &&& forall|i: int| 0 <= i < self.slots@.len() ==> opens_to_text(self.key@, #[trigger] self.slots@[i])
    }

    /// The vault's sealing key.
    pub closed spec fn key(&self) -> Seq<u8> {
        self.key@
    }

    /// What the vault actually holds of each slot, oldest first: its nonce and
    /// its sealed bytes.
    pub closed spec fn sealed_store(&self) -> Seq<(Seq<u8>, Seq<u8>)> {
        self.slots@.map_values(|s: SealedSlot| (s.nonce@, s.sealed@))
    }

    /// An empty vault that keeps at most `max_slots` secrets under a fresh
    /// random key; the first identifier handed out is 1.
    pub fn new(max_slots: usize) -> (v: Self)
        ensures
            v@.slots == Seq::<SlotView>::empty(),
            v@.max_slots == max_slots,
            v@.next_id == 1,
            v.key().len() == KEY_LEN,
    {
        let v = MultiSlotVault { key: random_key(), slots: Vec::new(), max_slots, next_id: 1 };
        proof {
            assert(v@.slots =~= Seq::<SlotView>::empty());
        }
        v
    }

    /// Seals `secret` under the vault's key and a fresh nonce and stores it as
    /// the newest slot, stamped with time `now`, evicting the oldest slot
    /// first when the vault is full. Returns the identifier given to the new
    /// slot. The vault keeps only the sealed bytes, and the text handed in
    /// is zeroed once sealed.
    pub fn push_at(&mut self, secret: String, entropy_bits: u32, now: u128) -> (id: u32)
        requires
            within_aead_limit(encode_utf8(secret@).len()),
        ensures
            id == old(self)@.next_id,
            final(self)@ == pushed(old(self)@, secret@, entropy_bits, now),
            final(self).key() == old(self).key(),
            final(self).sealed_store().len() > 0,
            final(self).sealed_store().last().1 == xchacha_seal(
                old(self).key(),
                final(self).sealed_store().last().0,
                encode_utf8(secret@),
            ),
    {
        proof {
            use_type_invariant(&*self);
        }
        let ghost key = self.key@;
        let mut slots: Vec<SealedSlot> = Vec::new();
        std::mem::swap(&mut slots, &mut self.slots);
        if slots.len() >= self.max_slots && slots.len() > 0 {
            slots.remove(0);
        }
        let ghost kept = slots@;
        let id = self.next_id;
        self.next_id = self.next_id.wrapping_add(1);
        let nonce = random_nonce();
        let mut plain = secret;
        let bytes = plain.as_str().as_bytes();
        let sealed = seal(self.key.as_slice(), nonce.as_slice(), bytes);
        let len = bytes.len();
        proof {
            vstd::utf8::encode_utf8_valid_utf8(secret@);
            vstd::utf8::encode_utf8_decode_utf8(secret@);
            assert(bytes@ == encode_utf8(secret@));
            assert(xchacha_open(key, nonce@, sealed@) == Some(bytes@));
        }
        crate::text::wipe_text(&mut plain);
        let slot = SealedSlot { id, nonce, sealed, len, entropy_bits, timestamp_nanos: now };
        assert(opens_to_text(key, slot));
        slots.push(slot);
        proof {
            assert forall|i: int| 0 <= i < slots@.len() implies opens_to_text(key, #[trigger] slots@[i]) by {
                if i < kept.len() {
                    if kept.len() < old(self).slots@.len() {
                        assert(slots@[i] == old(self).slots@[i + 1]);
                    } else {
                        assert(slots@[i] == old(self).slots@[i]);
                    }
                }
            }
        }
        self.slots = slots;
        proof {
            let e = evicted(old(self)@.slots, old(self)@.max_slots);
            assert(kept.map_values(|s: SealedSlot| view_of_sealed(key, s)) =~= e);
            assert(self@.slots =~= pushed(old(self)@, secret@, entropy_bits, now).slots);
        }
        id
    }

    /// Like `push_at`, stamped with the current wall-clock time: the secret
    /// is sealed under the vault's key and only the sealed bytes are kept.
    pub fn push(&mut self, secret: String, entropy_bits: u32) -> (id: u32)
        requires
            within_aead_limit(encode_utf8(secret@).len()),
        ensures
            id == old(self)@.next_id,
            exists|now: u128| final(self)@ == pushed(old(self)@, secret@, entropy_bits, now),
            final(self).key() == old(self).key(),
            final(self).sealed_store().len() > 0,
            final(self).sealed_store().last().1 == xchacha_seal(
                old(self).key(),
                final(self).sealed_store().last().0,
                encode_utf8(secret@),
            ),
    {
        let now = clock_now_nanos();
        self.push_at(secret, entropy_bits, now)
    }

    /// Opens a stored slot that was taken out of the vault.
    fn open_slot(key: &Vec<u8>, s: SealedSlot) -> (r: VaultSlot)
        requires
            key@.len() == KEY_LEN,
            opens_to_text(key@, s),
        ensures
            shows(r, view_of_sealed(key@, s)),
    {
        let bytes = open(key.as_slice(), s.nonce.as_slice(), s.sealed.as_slice());
        match bytes {
            Some(b) => match String::from_utf8(b) {
                Ok(text) => VaultSlot {
                    id: s.id,
                    secret: text,
                    entropy_bits: s.entropy_bits,
                    timestamp_nanos: s.timestamp_nanos,
                },
                Err(_) => {
                    assert(false);
                    VaultSlot { id: s.id, secret: String::new(), entropy_bits: 0, timestamp_nanos: 0 }
                },
            },
            None => {
                assert(false);
                VaultSlot { id: s.id, secret: String::new(), entropy_bits: 0, timestamp_nanos: 0 }
            },
        }
    }

    /// Takes out the oldest slot that carries `id`, if any, opened; the other
    /// slots keep their order.
    pub fn pop_by_id(&mut self, id: u32) -> (r: Option<VaultSlot>)
        ensures
            match popped_slot(old(self)@.slots, id) {
                Some(v) => r matches Some(s) && shows(s, v),
                None => r is None,
            },
            final(self)@.slots == remaining_after_pop(old(self)@.slots, id),
            final(self)@.max_slots == old(self)@.max_slots,
            final(self)@.next_id == old(self)@.next_id,
            final(self).key() == old(self).key(),
    {
        proof {
            use_type_invariant(&*self);
        }
        let ghost views = self@.slots;
        let n = self.slots.len();
        let mut i: usize = 0;
        while i < n
            invariant
                n == self.slots@.len(),
                views == old(self)@.slots,
                self@.slots == views,
                views.len() == n,
                self.max_slots == old(self)@.max_slots,
                self.next_id == old(self)@.next_id,
                self.key@ == old(self).key(),
                self.key@.len() == KEY_LEN,
                forall|j: int| 0 <= j < n ==> opens_to_text(self.key@, #[trigger] self.slots@[j]),
                i <= n,
                forall|j: int| 0 <= j < i ==> views[j].id != id,
            decreases n - i,
        {
            if self.slots[i].id == id {
                proof {
                    assert(views[i as int].id == id);
                    lemma_first_index_unique(views, id, i as int);
                }
                let mut slots: Vec<SealedSlot> = Vec::new();
                std::mem::swap(&mut slots, &mut self.slots);
                let ghost before = slots@;
                let slot = slots.remove(i);
                proof {
                    assert(opens_to_text(self.key@, before[i as int]));
                    assert forall|j: int| 0 <= j < slots@.len() implies opens_to_text(
                        self.key@,
                        #[trigger] slots@[j],
                    ) by {
                        if j < i {
                            assert(slots@[j] == before[j]);
                        } else {
                            assert(slots@[j] == before[j + 1]);
                        }
                    }
                }
                self.slots = slots;
                proof {
                    assert(self@.slots =~= views.remove(i as int));
                }
                let opened = Self::open_slot(&self.key, slot);
                return Some(opened);
            }
            i = i + 1;
        }
        proof {
            assert(!has_id(views, id));
        }
        None
    }

    /// Takes out the newest slot, if any, opened.
    pub fn pop_latest(&mut self) -> (r: Option<VaultSlot>)
        ensures
            old(self)@.slots.len() == 0 ==> r is None,
            old(self)@.slots.len() > 0 ==> (r matches Some(s) && shows(s, old(self)@.slots.last())),
            final(self)@.slots == (if old(self)@.slots.len() == 0 {
                old(self)@.slots
            } else {
                old(self)@.slots.drop_last()
            }),
            final(self)@.max_slots == old(self)@.max_slots,
            final(self)@.next_id == old(self)@.next_id,
            final(self).key() == old(self).key(),
    {
        proof {
            use_type_invariant(&*self);
        }
        let mut slots: Vec<SealedSlot> = Vec::new();
        std::mem::swap(&mut slots, &mut self.slots);
        let ghost before = slots@;
        let last = slots.pop();
        proof {
            assert forall|j: int| 0 <= j < slots@.len() implies opens_to_text(
                self.key@,
                #[trigger] slots@[j],
            ) by {
                assert(slots@[j] == before[j]);
            }
        }
        self.slots = slots;
        match last {
            Some(slot) => {
                proof {
                    assert(opens_to_text(self.key@, before[before.len() - 1]));
                    assert(self@.slots =~= old(self)@.slots.drop_last());
                }
                Some(Self::open_slot(&self.key, slot))
            },
            None => None,
        }
    }

    /// The metadata of every slot, oldest first.
    pub fn list_metadata(&self) -> (r: Vec<SlotMetadata>)
        ensures
            r@.len() == self@.slots.len(),
            forall|i: int| 0 <= i < r@.len() ==> r@[i] == metadata_of(#[trigger] self@.slots[i]),
    {
        proof {
            use_type_invariant(self);
        }
        let mut out: Vec<SlotMetadata> = Vec::new();
        let n = self.slots.len();
        for i in 0..n
            invariant
                n == self.slots@.len(),
                self.key@.len() == KEY_LEN,
                forall|j: int| 0 <= j < n ==> opens_to_text(self.key@, #[trigger] self.slots@[j]),
                out@.len() == i,
                forall|j: int| 0 <= j < i ==> out@[j] == metadata_of(#[trigger] self@.slots[j]),
        {
            let s = &self.slots[i];
            proof {
                assert(opens_to_text(self.key@, self.slots@[i as int]));
                vstd::utf8::decode_utf8_encode_utf8(opened_bytes(self.key@, *s));
            }
            out.push(
                SlotMetadata {
                    id: s.id,
                    entropy_bits: s.entropy_bits,
                    timestamp_nanos: s.timestamp_nanos,
                    len: s.len,
                },
            );
        }
        out
    }

    /// Removes every slot that is no longer fresh at time `now`: those stamped
    /// after `now` and those at least `max_age_nanos` old. The others keep
    /// their order.
    pub fn cleanup_expired_at(&mut self, now: u128, max_age_nanos: u128)
        ensures
            final(self)@.slots == fresh_slots(old(self)@.slots, now, max_age_nanos),
            final(self)@.max_slots == old(self)@.max_slots,
            final(self)@.next_id == old(self)@.next_id,
            final(self).key() == old(self).key(),
    {
        proof {
            use_type_invariant(&*self);
        }
        let ghost pred = |s: SlotView| is_fresh(s, now, max_age_nanos);
        let ghost key = self.key@;
        let ghost views = self@.slots;
        let mut kept: Vec<SealedSlot> = Vec::new();
        let n = self.slots.len();
        let mut i: usize = 0;
        while i < n
            invariant
                n == self.slots@.len(),
                views == old(self)@.slots,
                views == self.slots@.map_values(|s: SealedSlot| view_of_sealed(key, s)),
                key == self.key@,
                forall|j: int| 0 <= j < n ==> opens_to_text(key, #[trigger] self.slots@[j]),
                forall|j: int| 0 <= j < kept@.len() ==> opens_to_text(key, #[trigger] kept@[j]),
                i <= n,
                pred == (|s: SlotView| is_fresh(s, now, max_age_nanos)),
                kept@.map_values(|s: SealedSlot| view_of_sealed(key, s)) == views.take(i as int).filter(pred),
            decreases n - i,
        {
            let s = &self.slots[i];
            let ts = s.timestamp_nanos;
            let keep = ts <= now && now - ts < max_age_nanos;
            proof {
                reveal_with_fuel(Seq::filter, 1);
                let next = views.take(i + 1);
                assert(next.drop_last() =~= views.take(i as int));
                assert(next.last() == views[i as int]);
                assert(views[i as int] == view_of_sealed(key, *s));
                assert(pred(views[i as int]) == keep);
            }
            if keep {
                let ghost before = kept@;
                let c = s.copy();
                kept.push(c);
                proof {
                    assert(kept@.map_values(|s: SealedSlot| view_of_sealed(key, s)) =~= before.map_values(
                        |s: SealedSlot| view_of_sealed(key, s),
                    ).push(view_of_sealed(key, c)));
                }
            }
            i = i + 1;
        }
        proof {
            assert(views.take(n as int) =~= views);
        }
        self.slots = kept;
    }

    /// Removes every slot that has expired by the current wall-clock time
    /// (see `cleanup_expired_at`).
    pub fn cleanup_expired(&mut self, max_age_nanos: u128)
        ensures
            exists|now: u128| final(self)@.slots == fresh_slots(old(self)@.slots, now, max_age_nanos),
            final(self)@.max_slots == old(self)@.max_slots,
            final(self)@.next_id == old(self)@.next_id,
            final(self).key() == old(self).key(),
    {
        let now = clock_now_nanos();
        self.cleanup_expired_at(now, max_age_nanos);
    }

    /// Removes every slot.
    pub fn clear(&mut self)
        ensures
            final(self)@.slots == Seq::<SlotView>::empty(),
            final(self)@.max_slots == old(self)@.max_slots,
            final(self)@.next_id == old(self)@.next_id,
            final(self).key() == old(self).key(),
    {
        proof {
            use_type_invariant(&*self);
        }
        self.slots = Vec::new();
        proof {
            assert(self@.slots =~= Seq::<SlotView>::empty());
        }
    }

    /// Whether the vault holds no slot.
    pub fn is_empty(&self) -> (r: bool)
        ensures
            r == (self@.slots.len() == 0),
    {
        self.slots.is_empty()
    }

    /// The number of slots held.
    pub fn len(&self) -> (r: usize)
        ensures
            r == self@.slots.len(),
    {
        self.slots.len()
    }

    /// The most slots the vault keeps.
    pub fn max_slots(&self) -> (r: usize)
        ensures
            r == self@.max_slots,
    {
        self.max_slots
    }
}

impl VaultSlot {
    /// A copy of the slot, field for field.
    pub fn clone_slot(&self) -> (r: VaultSlot)
        ensures
            r == *self,
    {
        VaultSlot {
            id: self.id,
            secret: self.secret.clone(),
            entropy_bits: self.entropy_bits,
            timestamp_nanos: self.timestamp_nanos,
        }
    }
}

} // verus!
