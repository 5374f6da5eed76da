//! The derivation database: the doubly linked list that threads through the
//! slots and records which capability was derived from which.

use vstd::prelude::*;
use crate::cap::{cap_t, low_mask};
use crate::kernel::{
    cap_ok, mdb_acyclic, mdb_ranked, slot_inv, slots_wf, Kernel, KernelView,
};
use crate::objecttype::{
    is_cap_revocable, isCapRevocable, same_object_as, sameObjectAs,
};
use crate::config::{seL4_IllegalOperation, seL4_RevokeFirst, asidInvalid};
use crate::structures::{cte_t, deriveCap_ret, exception_t, mdb_node_t};

verus! {

/// A flag of a link as a number: 1 if it is set, 0 if not.
pub open spec fn flag_word(b: bool) -> usize {
    if b {
        1
    } else {
        0
    }
}

/// Makes a link; of each flag word the lowest bit counts.
pub fn mdb_node_new(mdbNext: usize, mdbRevocable: usize, mdbFirstBadged: usize, mdbPrev: usize) -> (r:
    mdb_node_t)
    ensures
        r == (mdb_node_t {
            mdbNext,
            mdbRevocable: mdbRevocable % 2 == 1,
            mdbFirstBadged: mdbFirstBadged % 2 == 1,
            mdbPrev,
        }),
{
    mdb_node_t {
        mdbNext,
        mdbRevocable: mdbRevocable % 2 == 1,
        mdbFirstBadged: mdbFirstBadged % 2 == 1,
        mdbPrev,
    }
}

/// The successor of a link.
pub fn mdb_node_get_mdbNext(mdb_node: &mdb_node_t) -> (r: usize)
    ensures
        r == mdb_node.mdbNext,
{
    mdb_node.mdbNext
}

/// Sets the successor of a link.
pub fn mdb_node_ptr_set_mdbNext(mdb_node: &mut mdb_node_t, v64: usize)
    ensures
        *final(mdb_node) == (mdb_node_t { mdbNext: v64, ..*old(mdb_node) }),
{
    mdb_node.mdbNext = v64;
}

/// The revocable flag of a link as a number.
pub fn mdb_node_get_mdbRevocable(mdb_node: &mdb_node_t) -> (r: usize)
    ensures
        r == flag_word(mdb_node.mdbRevocable),
{
    if mdb_node.mdbRevocable {
        1
    } else {
        0
    }
}

/// The first-badged flag of a link as a number.
pub fn mdb_node_get_mdbFirstBadged(mdb_node: &mdb_node_t) -> (r: usize)
    ensures
        r == flag_word(mdb_node.mdbFirstBadged),
{
    if mdb_node.mdbFirstBadged {
        1
    } else {
        0
    }
}

/// Sets the revocable flag of a link to the lowest bit of a word.
pub fn mdb_node_set_mdbRevocable(mdb_node: &mut mdb_node_t, v64: usize)
    ensures
        *final(mdb_node) == (mdb_node_t { mdbRevocable: v64 % 2 == 1, ..*old(mdb_node) }),
{
    mdb_node.mdbRevocable = v64 % 2 == 1;
}

/// Sets the first-badged flag of a link to the lowest bit of a word.
pub fn mdb_node_set_mdbFirstBadged(mdb_node: &mut mdb_node_t, v64: usize)
    ensures
        *final(mdb_node) == (mdb_node_t { mdbFirstBadged: v64 % 2 == 1, ..*old(mdb_node) }),
{
    mdb_node.mdbFirstBadged = v64 % 2 == 1;
}

/// The predecessor of a link.
pub fn mdb_node_get_mdbPrev(mdb_node: &mdb_node_t) -> (r: usize)
    ensures
        r == mdb_node.mdbPrev,
{
    mdb_node.mdbPrev
}

/// Sets the predecessor of a link.
pub fn mdb_node_set_mdbPrev(mdb_node: &mut mdb_node_t, v64: usize)
    ensures
        *final(mdb_node) == (mdb_node_t { mdbPrev: v64, ..*old(mdb_node) }),
{
    mdb_node.mdbPrev = v64;
}

/// Sets the predecessor of a link.
pub fn mdb_node_ptr_set_mdbPrev(mdb_node: &mut mdb_node_t, v64: usize)
    ensures
        *final(mdb_node) == (mdb_node_t { mdbPrev: v64, ..*old(mdb_node) }),
{
    mdb_node.mdbPrev = v64;
}

/// Slot memory after `new_cap` was put into the empty slot `dest` as a
/// derivation of the capability in `src`: `dest` stands right behind `src` in
/// the list, and both its flags say whether the derivation can be revoked.
pub open spec fn insert_slots(slots: Seq<cte_t>, new_cap: cap_t, src: usize, dest: usize) -> Seq<
    cte_t,
> {
    linked_slots(slots, new_cap, src, dest, is_cap_revocable(new_cap, slots[src as int].cap))
}

/// Slot memory after `new_cap` was put into the empty slot `dest`, which
/// stands right behind `src` in the list with both flags set to `revocable`.
pub open spec fn linked_slots(slots: Seq<cte_t>, new_cap: cap_t, src: usize, dest: usize, revocable: bool) -> Seq<
    cte_t,
> {
    let next = slots[src as int].cteMDBNode.mdbNext;
    Seq::new(
        slots.len(),
        |i: int|
            if i == dest {
                cte_t {
                    cap: new_cap,
                    cteMDBNode: mdb_node_t {
                        mdbNext: next,
                        mdbPrev: src,
                        mdbRevocable: revocable,
                        mdbFirstBadged: revocable,
                    },
                }
            } else {
                cte_t {
                    cap: slots[i].cap,
                    cteMDBNode: mdb_node_t {
                        mdbNext: if i == src {
                            dest
                        } else {
                            slots[i].cteMDBNode.mdbNext
                        },
                        mdbPrev: if i == next && next != 0 {
                            dest
                        } else {
                            slots[i].cteMDBNode.mdbPrev
                        },
                        ..slots[i].cteMDBNode
                    },
                }
            },
    )
}

/// A link with every reference to `from` turned into one to `to`.
pub open spec fn relink(m: mdb_node_t, from: usize, to: usize) -> mdb_node_t {
    mdb_node_t {
        mdbNext: if m.mdbNext == from {
            to
        } else {
            m.mdbNext
        },
        mdbPrev: if m.mdbPrev == from {
            to
        } else {
            m.mdbPrev
        },
        ..m
    }
}

/// Slot memory after the capability in `src` moved to the empty slot `dest`
/// as `new_cap`: `dest` takes the place of `src` in the list, and `src` is
/// empty.
pub open spec fn move_slots(slots: Seq<cte_t>, new_cap: cap_t, src: usize, dest: usize) -> Seq<
    cte_t,
> {
    Seq::new(
        slots.len(),
        |i: int|
            if i == src {
                cte_t::empty()
            } else if i == dest {
                cte_t { cap: new_cap, cteMDBNode: slots[src as int].cteMDBNode }
            } else {
                cte_t { cap: slots[i].cap, cteMDBNode: relink(slots[i].cteMDBNode, src, dest) }
            },
    )
}

/// A reference with `a` and `b` exchanged.
pub open spec fn exchange(x: usize, a: usize, b: usize) -> usize {
    if x == a {
        b
    } else if x == b {
        a
    } else {
        x
    }
}

/// A link with the references to `a` and to `b` exchanged.
pub open spec fn exchange_link(m: mdb_node_t, a: usize, b: usize) -> mdb_node_t {
    mdb_node_t { mdbNext: exchange(m.mdbNext, a, b), mdbPrev: exchange(m.mdbPrev, a, b), ..m }
}

/// Slot memory after two slots changed places in the list: `slot1` holds
/// `cap2` where `slot2` stood, `slot2` holds `cap1` where `slot1` stood.
pub open spec fn swap_slots(slots: Seq<cte_t>, cap1: cap_t, slot1: usize, cap2: cap_t, slot2: usize) -> Seq<
    cte_t,
> {
    Seq::new(
        slots.len(),
        |i: int|
            if i == slot1 {
                cte_t { cap: cap2, cteMDBNode: exchange_link(slots[slot2 as int].cteMDBNode, slot1, slot2) }
            } else if i == slot2 {
                cte_t { cap: cap1, cteMDBNode: exchange_link(slots[slot1 as int].cteMDBNode, slot1, slot2) }
            } else {
                cte_t { cap: slots[i].cap, cteMDBNode: exchange_link(slots[i].cteMDBNode, slot1, slot2) }
            },
    )
}

/// Slot memory after `slot` left the list and became empty: its two
/// neighbours link to each other, and its successor is first-badged if it was
/// so before or the slot was. An empty slot is left as it is.
pub open spec fn emptied_slots(slots: Seq<cte_t>, slot: usize) -> Seq<cte_t> {
    let m = slots[slot as int].cteMDBNode;
    if slots[slot as int].cap is NullCap {
        slots
    } else {
        Seq::new(
            slots.len(),
            |i: int|
                if i == slot {
                    cte_t::empty()
                } else {
                    cte_t {
                        cap: slots[i].cap,
                        cteMDBNode: mdb_node_t {
                            mdbNext: if i == m.mdbPrev && i != 0 {
                                m.mdbNext
                            } else {
                                slots[i].cteMDBNode.mdbNext
                            },
                            mdbPrev: if i == m.mdbNext && i != 0 {
                                m.mdbPrev
                            } else {
                                slots[i].cteMDBNode.mdbPrev
                            },
                            mdbFirstBadged: if i == m.mdbNext && i != 0 {
                                slots[i].cteMDBNode.mdbFirstBadged || m.mdbFirstBadged
                            } else {
                                slots[i].cteMDBNode.mdbFirstBadged
                            },
                            ..slots[i].cteMDBNode
                        },
                    }
                },
        )
    }
}

/// In slot memory that is in order no slot is its own neighbour and no slot
/// has one neighbour on both sides.
pub proof fn lemma_mdb_no_short_cycle(slots: Seq<cte_t>, ntcbs: nat, i: int)
    requires
        slots_wf(slots, ntcbs),
        0 <= i < slots.len(),
    ensures
        slots[i].cteMDBNode.mdbNext != 0 ==> slots[i].cteMDBNode.mdbNext != i
            && slots[i].cteMDBNode.mdbNext != slots[i].cteMDBNode.mdbPrev,
        slots[i].cteMDBNode.mdbPrev != 0 ==> slots[i].cteMDBNode.mdbPrev != i,
{
    let rank = choose|rank: Seq<int>| mdb_ranked(slots, rank);
    let m = slots[i].cteMDBNode;
    assert(slot_inv(slots, ntcbs, i));
    if m.mdbPrev != 0 {
        assert(slot_inv(slots, ntcbs, m.mdbPrev as int));
        assert(slots[m.mdbPrev as int].cteMDBNode.mdbNext == i);
    }
    if m.mdbNext != 0 {
        assert(slot_inv(slots, ntcbs, m.mdbNext as int));
    }
}

/// Nothing links to an empty slot.
pub proof fn lemma_empty_slot_unlinked(slots: Seq<cte_t>, ntcbs: nat, e: int, i: int)
    requires
        slots_wf(slots, ntcbs),
        0 <= e < slots.len(),
        0 <= i < slots.len(),
        slots[e].cap is NullCap,
        e != 0,
    ensures
        slots[i].cteMDBNode.mdbNext != e,
        slots[i].cteMDBNode.mdbPrev != e,
{
    assert(slot_inv(slots, ntcbs, i));
    assert(slot_inv(slots, ntcbs, e));
}

/// Putting a capability behind its source keeps slot memory in order.
pub proof fn lemma_insert_keeps_order(
    slots: Seq<cte_t>,
    ntcbs: nat,
    new_cap: cap_t,
    src: usize,
    dest: usize,
    revocable: bool,
)
    requires
        slots_wf(slots, ntcbs),
        1 <= src < slots.len(),
        1 <= dest < slots.len(),
        slots[dest as int].cap is NullCap,
        !(slots[src as int].cap is NullCap),
        !(new_cap is NullCap),
        cap_ok(new_cap, slots.len(), ntcbs),
    ensures
        slots_wf(linked_slots(slots, new_cap, src, dest, revocable), ntcbs),
{
    let new = linked_slots(slots, new_cap, src, dest, revocable);
    let next = slots[src as int].cteMDBNode.mdbNext;
    assert(slot_inv(slots, ntcbs, src as int));
    assert(slot_inv(slots, ntcbs, dest as int));
    lemma_mdb_no_short_cycle(slots, ntcbs, src as int);
    assert forall|i: int| 0 <= i < new.len() implies #[trigger] slot_inv(new, ntcbs, i) by {
        assert(slot_inv(slots, ntcbs, i));
        lemma_empty_slot_unlinked(slots, ntcbs, dest as int, i);
        let m = slots[i].cteMDBNode;
        if m.mdbNext != 0 {
            assert(slot_inv(slots, ntcbs, m.mdbNext as int));
        }
        if m.mdbPrev != 0 {
            assert(slot_inv(slots, ntcbs, m.mdbPrev as int));
        }
        if next != 0 {
            assert(slot_inv(slots, ntcbs, next as int));
        }
    }
    let rank = choose|rank: Seq<int>| mdb_ranked(slots, rank);
    let new_rank = Seq::new(
        slots.len(),
        |i: int|
            if i == dest {
                2 * rank[src as int] + 1
            } else {
                2 * rank[i]
            },
    );
    assert forall|i: int| 0 <= i < new.len() && (#[trigger] new[i]).cteMDBNode.mdbNext != 0 implies new_rank[i]
        < new_rank[new[i].cteMDBNode.mdbNext as int] by {
        assert(slot_inv(slots, ntcbs, i));
        lemma_empty_slot_unlinked(slots, ntcbs, dest as int, i);
        let x = slots[i];
        let y = slots[src as int];
    }
    assert(mdb_ranked(new, new_rank));
}

/// Moving a capability to an empty slot keeps slot memory in order.
pub proof fn lemma_move_keeps_order(slots: Seq<cte_t>, ntcbs: nat, new_cap: cap_t, src: usize, dest: usize)
    requires
        slots_wf(slots, ntcbs),
        1 <= src < slots.len(),
        1 <= dest < slots.len(),
        slots[dest as int].cap is NullCap,
        !(new_cap is NullCap),
        cap_ok(new_cap, slots.len(), ntcbs),
    ensures
        slots_wf(move_slots(slots, new_cap, src, dest), ntcbs),
{
    let new = move_slots(slots, new_cap, src, dest);
    assert(slot_inv(slots, ntcbs, src as int));
    assert(slot_inv(slots, ntcbs, dest as int));
    lemma_mdb_no_short_cycle(slots, ntcbs, src as int);
    let sm = slots[src as int].cteMDBNode;
    assert forall|i: int| 0 <= i < new.len() implies #[trigger] slot_inv(new, ntcbs, i) by {
        assert(slot_inv(slots, ntcbs, i));
        lemma_empty_slot_unlinked(slots, ntcbs, dest as int, i);
        lemma_empty_slot_unlinked(slots, ntcbs, dest as int, src as int);
        let m = slots[i].cteMDBNode;
        if m.mdbNext != 0 {
            assert(slot_inv(slots, ntcbs, m.mdbNext as int));
        }
        if m.mdbPrev != 0 {
            assert(slot_inv(slots, ntcbs, m.mdbPrev as int));
        }
        if sm.mdbNext != 0 {
            assert(slot_inv(slots, ntcbs, sm.mdbNext as int));
        }
        if sm.mdbPrev != 0 {
            assert(slot_inv(slots, ntcbs, sm.mdbPrev as int));
        }
    }
    let rank = choose|rank: Seq<int>| mdb_ranked(slots, rank);
    let new_rank = Seq::new(
        slots.len(),
        |i: int|
            if i == dest {
                rank[src as int]
            } else {
                rank[i]
            },
    );
    assert forall|i: int| 0 <= i < new.len() && (#[trigger] new[i]).cteMDBNode.mdbNext != 0 implies new_rank[i]
        < new_rank[new[i].cteMDBNode.mdbNext as int] by {
        assert(slot_inv(slots, ntcbs, i));
        lemma_empty_slot_unlinked(slots, ntcbs, dest as int, i);
        lemma_empty_slot_unlinked(slots, ntcbs, dest as int, src as int);
        let x = slots[i];
        let y = slots[src as int];
    }
    assert(mdb_ranked(new, new_rank));
}

/// Exchanging two slots keeps slot memory in order.
pub proof fn lemma_swap_keeps_order(
    slots: Seq<cte_t>,
    ntcbs: nat,
    cap1: cap_t,
    slot1: usize,
    cap2: cap_t,
    slot2: usize,
)
    requires
        slots_wf(slots, ntcbs),
        1 <= slot1 < slots.len(),
        1 <= slot2 < slots.len(),
        slot1 != slot2,
        cap_ok(cap1, slots.len(), ntcbs),
        cap_ok(cap2, slots.len(), ntcbs),
        cap1 is NullCap ==> slots[slot1 as int].cap is NullCap,
        cap2 is NullCap ==> slots[slot2 as int].cap is NullCap,
    ensures
        slots_wf(swap_slots(slots, cap1, slot1, cap2, slot2), ntcbs),
{
    let new = swap_slots(slots, cap1, slot1, cap2, slot2);
    assert(slot_inv(slots, ntcbs, slot1 as int));
    assert(slot_inv(slots, ntcbs, slot2 as int));
    assert forall|i: int| 0 <= i < new.len() implies #[trigger] slot_inv(new, ntcbs, i) by {
        let j = if i == slot1 {
            slot2 as int
        } else if i == slot2 {
            slot1 as int
        } else {
            i
        };
        assert(slot_inv(slots, ntcbs, j));
        let m = slots[j].cteMDBNode;
        assert(new[i].cteMDBNode == exchange_link(m, slot1, slot2));
        if m.mdbNext != 0 {
            assert(slot_inv(slots, ntcbs, m.mdbNext as int));
        }
        if m.mdbPrev != 0 {
            assert(slot_inv(slots, ntcbs, m.mdbPrev as int));
        }
    }
    let rank = choose|rank: Seq<int>| mdb_ranked(slots, rank);
    let new_rank = Seq::new(
        slots.len(),
        |i: int|
            if i == slot1 {
                rank[slot2 as int]
            } else if i == slot2 {
                rank[slot1 as int]
            } else {
                rank[i]
            },
    );
    assert forall|i: int| 0 <= i < new.len() && (#[trigger] new[i]).cteMDBNode.mdbNext != 0 implies new_rank[i]
        < new_rank[new[i].cteMDBNode.mdbNext as int] by {
        let j = if i == slot1 {
            slot2 as int
        } else if i == slot2 {
            slot1 as int
        } else {
            i
        };
        assert(slot_inv(slots, ntcbs, j));
        let x = slots[j];
        assert(new[i].cteMDBNode == exchange_link(x.cteMDBNode, slot1, slot2));
    }
    assert(mdb_ranked(new, new_rank));
}

/// Emptying a slot keeps slot memory in order.
pub proof fn lemma_empty_keeps_order(slots: Seq<cte_t>, ntcbs: nat, slot: usize)
    requires
        slots_wf(slots, ntcbs),
        1 <= slot < slots.len(),
    ensures
        slots_wf(emptied_slots(slots, slot), ntcbs),
{
    let new = emptied_slots(slots, slot);
    if !(slots[slot as int].cap is NullCap) {
        assert(slot_inv(slots, ntcbs, slot as int));
        lemma_mdb_no_short_cycle(slots, ntcbs, slot as int);
        let sm = slots[slot as int].cteMDBNode;
        assert forall|i: int| 0 <= i < new.len() implies #[trigger] slot_inv(new, ntcbs, i) by {
            assert(slot_inv(slots, ntcbs, i));
            let m = slots[i].cteMDBNode;
            if m.mdbNext != 0 {
                assert(slot_inv(slots, ntcbs, m.mdbNext as int));
            }
            if m.mdbPrev != 0 {
                assert(slot_inv(slots, ntcbs, m.mdbPrev as int));
            }
            if sm.mdbNext != 0 {
                assert(slot_inv(slots, ntcbs, sm.mdbNext as int));
            }
            if sm.mdbPrev != 0 {
                assert(slot_inv(slots, ntcbs, sm.mdbPrev as int));
            }
        }
        let rank = choose|rank: Seq<int>| mdb_ranked(slots, rank);
        assert forall|i: int| 0 <= i < new.len() && (#[trigger] new[i]).cteMDBNode.mdbNext != 0 implies rank[i]
            < rank[new[i].cteMDBNode.mdbNext as int] by {
            assert(slot_inv(slots, ntcbs, i));
            let x = slots[i];
            let y = slots[slot as int];
        }
        assert(mdb_ranked(new, rank));
    }
}

/// Whether the capability in slot `a` is a parent of the one in slot `b`:
/// `a` can be revoked, both name the same object, and a badged endpoint or
/// notification in `a` is parent only of what carries its badge and is not the
/// first to do so.
pub open spec fn is_mdb_parent_of(a: cte_t, b: cte_t) -> bool {
    &&& a.cteMDBNode.mdbRevocable
    &&& same_object_as(a.cap, b.cap)
    &&& match a.cap {
        cap_t::EndpointCap { capEPBadge, .. } => capEPBadge == 0 || (match b.cap {
            cap_t::EndpointCap { capEPBadge: bb, .. } => bb == capEPBadge,
            _ => false,
        } && !b.cteMDBNode.mdbFirstBadged),
        cap_t::NotificationCap { capNtfnBadge, .. } => capNtfnBadge == 0 || (match b.cap {
            cap_t::NotificationCap { capNtfnBadge: bb, .. } => bb == capNtfnBadge,
            _ => false,
        } && !b.cteMDBNode.mdbFirstBadged),
        _ => true,
    }
}

/// Whether slot `i` holds the last capability to its object: neither of its
/// two neighbours in the list holds a capability that its own names the same
/// object as.
pub open spec fn is_final_capability(slots: Seq<cte_t>, i: usize) -> bool {
    let m = slots[i as int].cteMDBNode;
    &&& !(m.mdbPrev != 0 && same_object_as(slots[i as int].cap, slots[m.mdbPrev as int].cap))
    &&& !(m.mdbNext != 0 && same_object_as(slots[i as int].cap, slots[m.mdbNext as int].cap))
}

/// Whether the capability in slot `i` has a child: its successor in the list
/// is one.
pub open spec fn has_children(slots: Seq<cte_t>, i: usize) -> bool {
    let next = slots[i as int].cteMDBNode.mdbNext;
    next != 0 && is_mdb_parent_of(slots[i as int], slots[next as int])
}

/// Whether a slot can be emptied once its capability has been finalised to
/// `cap`: nothing is left, or what is left is a zombie with no slot to empty
/// but, at most, the very slot it sits in.
pub open spec fn cap_removable(cap: cap_t, slot: usize) -> bool {
    match cap {
        cap_t::NullCap => true,
        cap_t::ZombieCap { capZombiePtr, capZombieNumber, .. } => capZombieNumber == 0 || (
        capZombieNumber == 1 && capZombiePtr == slot),
        _ => false,
    }
}

/// Whether `cap` is a zombie of the object that starts at `slot` itself.
pub open spec fn cap_cyclic_zombie(cap: cap_t, slot: usize) -> bool {
    match cap {
        cap_t::ZombieCap { capZombiePtr, .. } => capZombiePtr == slot,
        _ => false,
    }
}

/// What deriving a copy of `cap`, which sits in slot `slot`, gives: the
/// capability to put into the new slot, or the null capability where no copy
/// may be made.
pub open spec fn derived_cap(slots: Seq<cte_t>, slot: usize, cap: cap_t) -> cap_t {
    match cap {
        cap_t::ZombieCap { .. } | cap_t::IrqControlCap | cap_t::ReplyCap { .. } => cap_t::NullCap,
        cap_t::UntypedCap { .. } => if has_children(slots, slot) {
            cap_t::NullCap
        } else {
            cap
        },
        cap_t::PageTableCap { capPTIsMapped, .. } => if capPTIsMapped {
            cap_t::NullCap
        } else {
            cap
        },
        cap_t::FrameCap { capFBasePtr, capFSize, capFVMRights, capFIsDevice, .. } => cap_t::FrameCap {
            capFBasePtr,
            capFSize,
            capFVMRights,
            capFMappedASID: asidInvalid,
            capFMappedAddress: 0,
            capFIsDevice,
        },
        _ => cap,
    }
}

/// The error, if any, with which deriving a copy of `cap` fails: an untyped
/// capability with children must be revoked first, and a mapped page table
/// cannot be copied.
pub open spec fn derive_error(slots: Seq<cte_t>, slot: usize, cap: cap_t) -> Option<usize> {
    match cap {
        cap_t::UntypedCap { .. } => if has_children(slots, slot) {
            Some(seL4_RevokeFirst)
        } else {
            None
        },
        cap_t::PageTableCap { capPTIsMapped, .. } => if capPTIsMapped {
            Some(seL4_IllegalOperation)
        } else {
            None
        },
        _ => None,
    }
}

/// Puts a capability derived from the one in `srcSlot` into the empty slot
/// `destSlot`, right behind its source in the list.
pub fn cteInsert(k: &mut Kernel, newCap: &cap_t, srcSlot: usize, destSlot: usize)
    requires
        old(k).wf(),
        old(k)@.slot_ok(srcSlot),
        old(k)@.slot_ok(destSlot),
        old(k)@.slots[destSlot as int].cap is NullCap,
        !(old(k)@.slots[srcSlot as int].cap is NullCap),
        !(newCap is NullCap),
        cap_ok(*newCap, old(k)@.slots.len(), old(k)@.tcbs.len()),
    ensures
        final(k)@ == (KernelView {
            slots: insert_slots(old(k)@.slots, *newCap, srcSlot, destSlot),
            ..old(k)@
        }),
        final(k).wf(),
{
    let srcMDB = k.slots[srcSlot].cteMDBNode;
    let srcCap = k.slots[srcSlot].cap;
    let newCapIsRevocable = isCapRevocable(newCap, &srcCap);
    let newMDB = mdb_node_t {
        mdbNext: srcMDB.mdbNext,
        mdbPrev: srcSlot,
        mdbRevocable: newCapIsRevocable,
        mdbFirstBadged: newCapIsRevocable,
    };
    proof {
        assert(slot_inv(k@.slots, k@.tcbs.len(), srcSlot as int));
        lemma_insert_keeps_order(k@.slots, k@.tcbs.len(), *newCap, srcSlot, destSlot, newCapIsRevocable);
    }
    k.slots[destSlot].cap = *newCap;
    k.slots[destSlot].cteMDBNode = newMDB;
    k.slots[srcSlot].cteMDBNode.mdbNext = destSlot;
    let next = newMDB.mdbNext;
    if next != 0 {
        k.slots[next].cteMDBNode.mdbPrev = destSlot;
    }
    assert(k@.slots =~= insert_slots(old(k)@.slots, *newCap, srcSlot, destSlot));
}

/// Puts the capability to a new object into the empty slot `slot`, as a
/// child of the capability in `parent`.
pub fn insertNewCap(k: &mut Kernel, parent: usize, slot: usize, cap: &cap_t)
    requires
        old(k).wf(),
        old(k)@.slot_ok(parent),
        old(k)@.slot_ok(slot),
        old(k)@.slots[slot as int].cap is NullCap,
        !(old(k)@.slots[parent as int].cap is NullCap),
        !(cap is NullCap),
        cap_ok(*cap, old(k)@.slots.len(), old(k)@.tcbs.len()),
    ensures
        final(k)@ == (KernelView {
            slots: linked_slots(old(k)@.slots, *cap, parent, slot, true),
            ..old(k)@
        }),
        final(k).wf(),
{
    let next = k.slots[parent].cteMDBNode.mdbNext;
    proof {
        assert(slot_inv(k@.slots, k@.tcbs.len(), parent as int));
        lemma_insert_keeps_order(k@.slots, k@.tcbs.len(), *cap, parent, slot, true);
    }
    k.slots[slot].cap = *cap;
    k.slots[slot].cteMDBNode = mdb_node_new(next, 1, 1, parent);
    if next != 0 {
        k.slots[next].cteMDBNode.mdbPrev = slot;
    }
    k.slots[parent].cteMDBNode.mdbNext = slot;
    assert(k@.slots =~= linked_slots(old(k)@.slots, *cap, parent, slot, true));
}

/// Moves the capability of `srcSlot` to the empty slot `destSlot` as
/// `newCap`; the destination takes the place of the source in the list.
pub fn cteMove(k: &mut Kernel, newCap: &cap_t, srcSlot: usize, destSlot: usize)
    requires
        old(k).wf(),
        old(k)@.slot_ok(srcSlot),
        old(k)@.slot_ok(destSlot),
        old(k)@.slots[destSlot as int].cap is NullCap,
        !(newCap is NullCap),
        cap_ok(*newCap, old(k)@.slots.len(), old(k)@.tcbs.len()),
    ensures
        final(k)@ == (KernelView {
            slots: move_slots(old(k)@.slots, *newCap, srcSlot, destSlot),
            ..old(k)@
        }),
        final(k).wf(),
{
    let mdb = k.slots[srcSlot].cteMDBNode;
    proof {
        assert(slot_inv(k@.slots, k@.tcbs.len(), srcSlot as int));
        assert(slot_inv(k@.slots, k@.tcbs.len(), destSlot as int));
        lemma_mdb_no_short_cycle(k@.slots, k@.tcbs.len(), srcSlot as int);
        lemma_move_keeps_order(k@.slots, k@.tcbs.len(), *newCap, srcSlot, destSlot);
        assert forall|i: int| 0 <= i < k@.slots.len() implies (#[trigger] k@.slots[i]).cteMDBNode.mdbNext
            != destSlot && k@.slots[i].cteMDBNode.mdbPrev != destSlot && (i != mdb.mdbPrev
            ==> k@.slots[i].cteMDBNode.mdbNext != srcSlot) && (i != mdb.mdbNext
            ==> k@.slots[i].cteMDBNode.mdbPrev != srcSlot) by {
            lemma_empty_slot_unlinked(k@.slots, k@.tcbs.len(), destSlot as int, i);
            assert(slot_inv(k@.slots, k@.tcbs.len(), i));
        }
    }
    k.slots[destSlot].cap = *newCap;
    k.slots[srcSlot].cap = cap_t::NullCap;
    k.slots[destSlot].cteMDBNode = mdb;
    k.slots[srcSlot].cteMDBNode = mdb_node_new(0, 0, 0, 0);
    let prev_ptr = mdb.mdbPrev;
    if prev_ptr != 0 {
        k.slots[prev_ptr].cteMDBNode.mdbNext = destSlot;
    }
    let next_ptr = mdb.mdbNext;
    if next_ptr != 0 {
        k.slots[next_ptr].cteMDBNode.mdbPrev = destSlot;
    }
    assert(k@.slots =~= move_slots(old(k)@.slots, *newCap, srcSlot, destSlot));
}

/// A slot with the successor of its link set.
pub open spec fn with_next(c: cte_t, v: usize) -> cte_t {
    cte_t { cteMDBNode: mdb_node_t { mdbNext: v, ..c.cteMDBNode }, ..c }
}

/// A slot with the predecessor of its link set.
pub open spec fn with_prev(c: cte_t, v: usize) -> cte_t {
    cte_t { cteMDBNode: mdb_node_t { mdbPrev: v, ..c.cteMDBNode }, ..c }
}

/// Slot memory with the successor of slot `i` set, unless `i` is 0.
pub open spec fn link_next(s: Seq<cte_t>, i: usize, v: usize) -> Seq<cte_t> {
    if i != 0 {
        s.update(i as int, with_next(s[i as int], v))
    } else {
        s
    }
}

/// Slot memory with the predecessor of slot `i` set, unless `i` is 0.
pub open spec fn link_prev(s: Seq<cte_t>, i: usize, v: usize) -> Seq<cte_t> {
    if i != 0 {
        s.update(i as int, with_prev(s[i as int], v))
    } else {
        s
    }
}

/// The steps by which two slots change places: the capabilities first, then
/// the neighbours of the first slot, the two links, and the neighbours of what
/// was the second slot's link.
pub open spec fn swap_steps(s0: Seq<cte_t>, cap1: cap_t, slot1: usize, cap2: cap_t, slot2: usize) -> Seq<
    cte_t,
> {
    let s1 = s0.update(slot1 as int, cte_t { cap: cap2, ..s0[slot1 as int] });
    let s2 = s1.update(slot2 as int, cte_t { cap: cap1, ..s1[slot2 as int] });
    let mdb1 = s2[slot1 as int].cteMDBNode;
    let s3 = link_next(s2, mdb1.mdbPrev, slot2);
    let s4 = link_prev(s3, mdb1.mdbNext, slot2);
    let mdb2 = s4[slot2 as int].cteMDBNode;
    let s5 = s4.update(slot1 as int, cte_t { cteMDBNode: mdb2, ..s4[slot1 as int] });
    let s6 = s5.update(slot2 as int, cte_t { cteMDBNode: mdb1, ..s5[slot2 as int] });
    let s7 = link_next(s6, mdb2.mdbPrev, slot1);
    link_prev(s7, mdb2.mdbNext, slot1)
}

/// The steps of an exchange give the exchanged slot memory.
#[verifier::rlimit(40)]
pub proof fn lemma_swap_steps(
    s0: Seq<cte_t>,
    ntcbs: nat,
    cap1: cap_t,
    slot1: usize,
    cap2: cap_t,
    slot2: usize,
)
    requires
        slots_wf(s0, ntcbs),
        1 <= slot1 < s0.len(),
        1 <= slot2 < s0.len(),
        slot1 != slot2,
    ensures
        swap_steps(s0, cap1, slot1, cap2, slot2) =~= swap_slots(s0, cap1, slot1, cap2, slot2),
{
    let m1 = s0[slot1 as int].cteMDBNode;
    let m2 = s0[slot2 as int].cteMDBNode;
    assert(slot_inv(s0, ntcbs, slot1 as int));
    assert(slot_inv(s0, ntcbs, slot2 as int));
    lemma_mdb_no_short_cycle(s0, ntcbs, slot1 as int);
    lemma_mdb_no_short_cycle(s0, ntcbs, slot2 as int);
    let got = swap_steps(s0, cap1, slot1, cap2, slot2);
    let want = swap_slots(s0, cap1, slot1, cap2, slot2);
    let s1 = s0.update(slot1 as int, cte_t { cap: cap2, ..s0[slot1 as int] });
    let s2 = s1.update(slot2 as int, cte_t { cap: cap1, ..s1[slot2 as int] });
    let mdb1 = s2[slot1 as int].cteMDBNode;
    let s3 = link_next(s2, mdb1.mdbPrev, slot2);
    let s4 = link_prev(s3, mdb1.mdbNext, slot2);
    let mdb2 = s4[slot2 as int].cteMDBNode;
    let s5 = s4.update(slot1 as int, cte_t { cteMDBNode: mdb2, ..s4[slot1 as int] });
    let s6 = s5.update(slot2 as int, cte_t { cteMDBNode: mdb1, ..s5[slot2 as int] });
    assert(mdb1 == m1);
    if m1.mdbNext == slot2 {
        assert(m2.mdbPrev == slot1);
        assert(mdb2 == (mdb_node_t { mdbPrev: slot2, ..m2 }));
        assert forall|i: int| 0 <= i < want.len() implies got[i] == want[i] by {
            assert(slot_inv(s0, ntcbs, i));
            if i != slot1 && i != slot2 {
                if i == m1.mdbPrev {
                } else if i == m2.mdbNext {
                } else {
                }
            }
        }
    } else if m2.mdbNext == slot1 {
        assert(m1.mdbPrev == slot2);
        assert(mdb2 == (mdb_node_t { mdbNext: slot2, ..m2 }));
        assert forall|i: int| 0 <= i < want.len() implies got[i] == want[i] by {
            assert(slot_inv(s0, ntcbs, i));
            if i != slot1 && i != slot2 {
                if i == m1.mdbNext {
                } else if i == m2.mdbPrev {
                } else {
                }
            }
        }
    } else {
        assert(m1.mdbPrev != slot2);
        assert(m2.mdbPrev != slot1);
        assert(mdb2 == m2);
        assert forall|i: int| 0 <= i < want.len() implies got[i] == want[i] by {
            assert(slot_inv(s0, ntcbs, i));
            if i != slot1 && i != slot2 {
                if i == m1.mdbPrev {
                } else if i == m1.mdbNext {
                } else if i == m2.mdbPrev {
                } else if i == m2.mdbNext {
                } else {
                }
            }
        }
    }
}

/// Lets two slots change places in the list; `slot1` holds `cap2` and
/// `slot2` holds `cap1` afterwards.
pub fn cteSwap(k: &mut Kernel, cap1: &cap_t, slot1: usize, cap2: &cap_t, slot2: usize)
    requires
        old(k).wf(),
        old(k)@.slot_ok(slot1),
        old(k)@.slot_ok(slot2),
        slot1 != slot2,
        cap_ok(*cap1, old(k)@.slots.len(), old(k)@.tcbs.len()),
        cap_ok(*cap2, old(k)@.slots.len(), old(k)@.tcbs.len()),
        cap1 is NullCap ==> old(k)@.slots[slot1 as int].cap is NullCap,
        cap2 is NullCap ==> old(k)@.slots[slot2 as int].cap is NullCap,
    ensures
        final(k)@ == (KernelView {
            slots: swap_slots(old(k)@.slots, *cap1, slot1, *cap2, slot2),
            ..old(k)@
        }),
        final(k).wf(),
{
    proof {
        assert(slot_inv(k@.slots, k@.tcbs.len(), slot1 as int));
        assert(slot_inv(k@.slots, k@.tcbs.len(), slot2 as int));
        lemma_swap_keeps_order(k@.slots, k@.tcbs.len(), *cap1, slot1, *cap2, slot2);
        lemma_swap_steps(k@.slots, k@.tcbs.len(), *cap1, slot1, *cap2, slot2);
    }
    let ghost s0 = k@.slots;
    k.slots[slot1].cap = *cap2;
    k.slots[slot2].cap = *cap1;
    let mdb1 = k.slots[slot1].cteMDBNode;
    let ghost s2 = k@.slots;
    let prev_ptr = mdb1.mdbPrev;
    if prev_ptr != 0 {
        k.slots[prev_ptr].cteMDBNode.mdbNext = slot2;
    }
    let ghost s3 = k@.slots;
    assert(s3 == link_next(s2, prev_ptr, slot2));
    let next_ptr = mdb1.mdbNext;
    if next_ptr != 0 {
        k.slots[next_ptr].cteMDBNode.mdbPrev = slot2;
    }
    let ghost s4 = k@.slots;
    assert(s4 == link_prev(s3, next_ptr, slot2));
    let mdb2 = k.slots[slot2].cteMDBNode;
    k.slots[slot1].cteMDBNode = mdb2;
    k.slots[slot2].cteMDBNode = mdb1;
    let ghost s6 = k@.slots;
    proof {
        assert(slot_inv(s0, k@.tcbs.len(), slot2 as int));
    }
    let prev_ptr2 = mdb2.mdbPrev;
    if prev_ptr2 != 0 {
        k.slots[prev_ptr2].cteMDBNode.mdbNext = slot1;
    }
    let ghost s7 = k@.slots;
    assert(s7 == link_next(s6, prev_ptr2, slot1));
    let next_ptr2 = mdb2.mdbNext;
    if next_ptr2 != 0 {
        k.slots[next_ptr2].cteMDBNode.mdbPrev = slot1;
    }
    assert(k@.slots == link_prev(s7, next_ptr2, slot1));
    assert(k@.slots == swap_steps(s0, *cap1, slot1, *cap2, slot2));
}

/// Whether the capability in slot `cte1` is a parent of the one in `cte2`.
pub fn isMDBParentOf(k: &Kernel, cte1: usize, cte2: usize) -> (r: bool)
    requires
        k.wf(),
        k@.slot_ok(cte1),
        k@.slot_ok(cte2),
    ensures
        r == is_mdb_parent_of(k@.slots[cte1 as int], k@.slots[cte2 as int]),
{
    let a = &k.slots[cte1];
    let b = &k.slots[cte2];
    proof {
        assert(slot_inv(k@.slots, k@.tcbs.len(), cte1 as int));
        assert(slot_inv(k@.slots, k@.tcbs.len(), cte2 as int));
    }
    if !a.cteMDBNode.mdbRevocable {
        return false;
    }
    if !sameObjectAs(&a.cap, &b.cap) {
        return false;
    }
    match a.cap {
        cap_t::EndpointCap { capEPBadge, .. } => {
            if capEPBadge == 0 {
                return true;
            }
            match b.cap {
                cap_t::EndpointCap { capEPBadge: bb, .. } => bb == capEPBadge
                    && !b.cteMDBNode.mdbFirstBadged,
                _ => false,
            }
        },
        cap_t::NotificationCap { capNtfnBadge, .. } => {
            if capNtfnBadge == 0 {
                return true;
            }
            match b.cap {
                cap_t::NotificationCap { capNtfnBadge: bb, .. } => bb == capNtfnBadge
                    && !b.cteMDBNode.mdbFirstBadged,
                _ => false,
            }
        },
        _ => true,
    }
}

/// Whether slot `cte` holds the last capability to its object.
pub fn isFinalCapability(k: &Kernel, cte: usize) -> (r: bool)
    requires
        k.wf(),
        k@.slot_ok(cte),
    ensures
        r == is_final_capability(k@.slots, cte),
{
    let mdb = k.slots[cte].cteMDBNode;
    proof {
        assert(slot_inv(k@.slots, k@.tcbs.len(), cte as int));
        if mdb.mdbPrev != 0 {
            assert(slot_inv(k@.slots, k@.tcbs.len(), mdb.mdbPrev as int));
        }
        if mdb.mdbNext != 0 {
            assert(slot_inv(k@.slots, k@.tcbs.len(), mdb.mdbNext as int));
        }
    }
    let prevIsSameObject = if mdb.mdbPrev == 0 {
        false
    } else {
        sameObjectAs(&k.slots[cte].cap, &k.slots[mdb.mdbPrev].cap)
    };
    if prevIsSameObject {
        false
    } else if mdb.mdbNext == 0 {
        true
    } else {
        !sameObjectAs(&k.slots[cte].cap, &k.slots[mdb.mdbNext].cap)
    }
}

/// Fails with the error of a capability that must be revoked first if the
/// capability in `slot` has a child.
pub fn ensureNoChildren(k: &mut Kernel, slot: usize) -> (r: exception_t)
    requires
        old(k).wf(),
        old(k)@.slot_ok(slot),
    ensures
        has_children(old(k)@.slots, slot) ==> r == exception_t::EXCEPTION_SYSCALL_ERROR && final(k)@ == (
        KernelView {
            current_syscall_error: crate::structures::syscall_error_t {
                _type: seL4_RevokeFirst,
                ..old(k)@.current_syscall_error
            },
            ..old(k)@
        }),
        !has_children(old(k)@.slots, slot) ==> r == exception_t::EXCEPTION_NONE && final(k)@ == old(k)@,
{
    let next = k.slots[slot].cteMDBNode.mdbNext;
    if next != 0 {
        proof {
            assert(slot_inv(k@.slots, k@.tcbs.len(), slot as int));
        }
        if isMDBParentOf(k, slot, next) {
            k.current_syscall_error._type = seL4_RevokeFirst;
            return exception_t::EXCEPTION_SYSCALL_ERROR;
        }
    }
    exception_t::EXCEPTION_NONE
}

/// Whether deleting the capability in `slot` can take long: it is the last
/// to a thread or a CNode, or a zombie.
pub fn slotCapLongRunningDelete(k: &Kernel, slot: usize) -> (r: bool)
    requires
        k.wf(),
        k@.slot_ok(slot),
    ensures
        r == (is_final_capability(k@.slots, slot) && (k@.slots[slot as int].cap is ThreadCap
            || k@.slots[slot as int].cap is ZombieCap || k@.slots[slot as int].cap is CNodeCap)),
{
    match k.slots[slot].cap {
        cap_t::NullCap => false,
        cap_t::ThreadCap { .. } | cap_t::ZombieCap { .. } | cap_t::CNodeCap { .. } => isFinalCapability(
            k,
            slot,
        ),
        _ => false,
    }
}

/// Whether a slot can be emptied once its capability has been finalised to
/// `cap`.
pub fn capRemovable(cap: &cap_t, slot: usize) -> (r: bool)
    ensures
        r == cap_removable(*cap, slot),
{
    match cap {
        cap_t::NullCap => true,
        cap_t::ZombieCap { capZombiePtr, capZombieNumber, .. } => *capZombieNumber == 0 || (
        *capZombieNumber == 1 && *capZombiePtr == slot),
        _ => false,
    }
}

/// Whether `cap` is a zombie of the object that starts at `slot` itself.
pub fn capCyclicZombie(cap: &cap_t, slot: usize) -> (r: bool)
    ensures
        r == cap_cyclic_zombie(*cap, slot),
{
    match cap {
        cap_t::ZombieCap { capZombiePtr, .. } => *capZombiePtr == slot,
        _ => false,
    }
}

/// Derives the capability to put into a new slot from `cap`, which sits in
/// `slot`.
pub fn deriveCap(k: &mut Kernel, slot: usize, cap: &cap_t) -> (r: deriveCap_ret)
    requires
        old(k).wf(),
        old(k)@.slot_ok(slot),
        cap_ok(*cap, old(k)@.slots.len(), old(k)@.tcbs.len()),
    ensures
        r.cap == derived_cap(old(k)@.slots, slot, *cap),
        cap_ok(r.cap, old(k)@.slots.len(), old(k)@.tcbs.len()),
        r.cap is NullCap || r.cap.tag() == cap.tag(),
        match derive_error(old(k)@.slots, slot, *cap) {
            Some(e) => r.status == exception_t::EXCEPTION_SYSCALL_ERROR && final(k)@ == (KernelView {
                current_syscall_error: crate::structures::syscall_error_t {
                    _type: e,
                    ..old(k)@.current_syscall_error
                },
                ..old(k)@
            }),
            None => r.status == exception_t::EXCEPTION_NONE && final(k)@ == old(k)@,
        },
{
    match cap {
        cap_t::ZombieCap { .. } | cap_t::IrqControlCap | cap_t::ReplyCap { .. } => deriveCap_ret {
            status: exception_t::EXCEPTION_NONE,
            cap: cap_t::NullCap,
        },
        cap_t::UntypedCap { .. } => {
            let status = ensureNoChildren(k, slot);
            if status != exception_t::EXCEPTION_NONE {
                deriveCap_ret { status, cap: cap_t::NullCap }
            } else {
                deriveCap_ret { status, cap: *cap }
            }
        },
        cap_t::PageTableCap { capPTIsMapped, .. } => {
            if *capPTIsMapped {
                k.current_syscall_error._type = seL4_IllegalOperation;
                deriveCap_ret { status: exception_t::EXCEPTION_SYSCALL_ERROR, cap: cap_t::NullCap }
            } else {
                deriveCap_ret { status: exception_t::EXCEPTION_NONE, cap: *cap }
            }
        },
        cap_t::FrameCap { capFBasePtr, capFSize, capFVMRights, capFIsDevice, .. } => deriveCap_ret {
            status: exception_t::EXCEPTION_NONE,
            cap: cap_t::FrameCap {
                capFBasePtr: *capFBasePtr,
                capFSize: *capFSize,
                capFVMRights: *capFVMRights,
                capFMappedASID: asidInvalid,
                capFMappedAddress: 0,
                capFIsDevice: *capFIsDevice,
            },
        },
        _ => deriveCap_ret { status: exception_t::EXCEPTION_NONE, cap: *cap },
    }
}

/// Exchanging two slots twice gives back what there was.
pub proof fn lemma_swap_self_inverse(slots: Seq<cte_t>, slot1: usize, slot2: usize)
    requires
        slot1 < slots.len(),
        slot2 < slots.len(),
        slot1 != slot2,
    ensures
        swap_slots(
            swap_slots(
                slots,
                slots[slot1 as int].cap,
                slot1,
                slots[slot2 as int].cap,
                slot2,
            ),
            slots[slot2 as int].cap,
            slot1,
            slots[slot1 as int].cap,
            slot2,
        ) == slots,
{
    let c1 = slots[slot1 as int].cap;
    let c2 = slots[slot2 as int].cap;
    let once = swap_slots(slots, c1, slot1, c2, slot2);
    let twice = swap_slots(once, c2, slot1, c1, slot2);
    assert forall|i: int| 0 <= i < slots.len() implies twice[i] == slots[i] by {
        let m = slots[i].cteMDBNode;
        assert(exchange_link(exchange_link(m, slot1, slot2), slot1, slot2) == m);
    }
    assert(twice =~= slots);
}

/// Moving a capability to an empty slot and back gives back what there was.
pub proof fn lemma_move_round_trip(slots: Seq<cte_t>, ntcbs: nat, a: usize, b: usize)
    requires
        slots_wf(slots, ntcbs),
        1 <= a < slots.len(),
        1 <= b < slots.len(),
        a != b,
        slots[b as int].cap is NullCap,
    ensures
        move_slots(move_slots(slots, slots[a as int].cap, a, b), slots[a as int].cap, b, a) == slots,
{
    let c = slots[a as int].cap;
    let there = move_slots(slots, c, a, b);
    let back = move_slots(there, c, b, a);
    assert(slot_inv(slots, ntcbs, a as int));
    assert(slot_inv(slots, ntcbs, b as int));
    lemma_mdb_no_short_cycle(slots, ntcbs, a as int);
    lemma_empty_slot_unlinked(slots, ntcbs, b as int, a as int);
    assert forall|i: int| 0 <= i < slots.len() implies back[i] == slots[i] by {
        lemma_empty_slot_unlinked(slots, ntcbs, b as int, i);
        let m = slots[i].cteMDBNode;
        assert(relink(relink(m, a, b), b, a) == m);
    }
    assert(back =~= slots);
}

/// Putting a capability behind its source and emptying the new slot again
/// gives back what there was, unless the emptying hands a first-badged flag
/// on to a successor that had none.
pub proof fn lemma_insert_then_empty(slots: Seq<cte_t>, ntcbs: nat, new_cap: cap_t, src: usize, dest: usize)
    requires
        slots_wf(slots, ntcbs),
        1 <= src < slots.len(),
        1 <= dest < slots.len(),
        slots[dest as int].cap is NullCap,
        !(slots[src as int].cap is NullCap),
        !(new_cap is NullCap),
        is_cap_revocable(new_cap, slots[src as int].cap) && slots[src as int].cteMDBNode.mdbNext != 0
            ==> slots[slots[src as int].cteMDBNode.mdbNext as int].cteMDBNode.mdbFirstBadged,
    ensures
        emptied_slots(insert_slots(slots, new_cap, src, dest), dest) == slots,
{
    let there = insert_slots(slots, new_cap, src, dest);
    let back = emptied_slots(there, dest);
    assert(slot_inv(slots, ntcbs, src as int));
    assert(slot_inv(slots, ntcbs, dest as int));
    lemma_mdb_no_short_cycle(slots, ntcbs, src as int);
    lemma_empty_slot_unlinked(slots, ntcbs, dest as int, src as int);
    assert forall|i: int| 0 <= i < slots.len() implies back[i] == slots[i] by {
        lemma_empty_slot_unlinked(slots, ntcbs, dest as int, i);
        assert(slot_inv(slots, ntcbs, i));
    }
    assert(back =~= slots);
}

/// A capability is the last to its object whenever no other slot holds one
/// that names the same object.
pub proof fn lemma_sole_copy_is_final(slots: Seq<cte_t>, ntcbs: nat, i: usize)
    requires
        slots_wf(slots, ntcbs),
        1 <= i < slots.len(),
        forall|j: int|
            0 <= j < slots.len() && j != i ==> !same_object_as(slots[i as int].cap, (#[trigger] slots[j]).cap),
    ensures
        is_final_capability(slots, i),
{
    lemma_mdb_no_short_cycle(slots, ntcbs, i as int);
    assert(slot_inv(slots, ntcbs, i as int));
    let m = slots[i as int].cteMDBNode;
    if m.mdbPrev != 0 {
        let x = slots[m.mdbPrev as int];
    }
    if m.mdbNext != 0 {
        let x = slots[m.mdbNext as int];
    }
}

/// A capability that is not the last to its object has a neighbour in the
/// list that names the same object.
pub proof fn lemma_not_final_has_copy(slots: Seq<cte_t>, ntcbs: nat, i: usize)
    requires
        slots_wf(slots, ntcbs),
        1 <= i < slots.len(),
        !is_final_capability(slots, i),
    ensures
        exists|j: int|
            0 <= j < slots.len() && j != i && same_object_as(slots[i as int].cap, (#[trigger] slots[j]).cap),
{
    lemma_mdb_no_short_cycle(slots, ntcbs, i as int);
    assert(slot_inv(slots, ntcbs, i as int));
    let m = slots[i as int].cteMDBNode;
    if m.mdbPrev != 0 && same_object_as(slots[i as int].cap, slots[m.mdbPrev as int].cap) {
        let x = slots[m.mdbPrev as int];
    } else {
        let x = slots[m.mdbNext as int];
    }
}

/// In slot memory that is in order the neighbours of every slot link back to
/// it: the predecessor of its successor and the successor of its predecessor
/// are the slot itself.
pub proof fn lemma_neighbours_link_back(slots: Seq<cte_t>, ntcbs: nat, i: int)
    requires
        slots_wf(slots, ntcbs),
        0 <= i < slots.len(),
    ensures
        slots[i].cteMDBNode.mdbNext != 0 ==> slots[i].cteMDBNode.mdbNext < slots.len()
            && slots[slots[i].cteMDBNode.mdbNext as int].cteMDBNode.mdbPrev == i,
        slots[i].cteMDBNode.mdbPrev != 0 ==> slots[i].cteMDBNode.mdbPrev < slots.len()
            && slots[slots[i].cteMDBNode.mdbPrev as int].cteMDBNode.mdbNext == i,
        slots[i].cap is NullCap ==> slots[i].cteMDBNode == mdb_node_t::null(),
{
    assert(slot_inv(slots, ntcbs, i));
}

/// In slot memory that is in order every CNode capability resolves at least
/// one bit and at most a word of bits.
pub proof fn lemma_cnode_caps_fit_a_word(slots: Seq<cte_t>, ntcbs: nat, i: int)
    requires
        slots_wf(slots, ntcbs),
        0 <= i < slots.len(),
    ensures
        match slots[i].cap {
            cap_t::CNodeCap { capCNodeRadix, capCNodeGuardSize, .. } => 1 <= capCNodeGuardSize
                + capCNodeRadix <= crate::config::wordBits,
            _ => true,
        },
{
    assert(slot_inv(slots, ntcbs, i));
}

/// Whether the two links of slot `i` stay inside slot memory and each of its
/// neighbours links back to it; nothing is asked of a slot that is empty.
pub open spec fn link_consistent(slots: Seq<cte_t>, i: int) -> bool {
    let m = slots[i].cteMDBNode;
    slots[i].cap is NullCap || {
        &&& m.mdbNext < slots.len()
        &&& m.mdbPrev < slots.len()
        &&& (m.mdbNext != 0 ==> slots[m.mdbNext as int].cteMDBNode.mdbPrev == i)
        &&& (m.mdbPrev != 0 ==> slots[m.mdbPrev as int].cteMDBNode.mdbNext == i)
    }
}

/// Whether the links of every slot that holds a capability are consistent.
pub open spec fn links_consistent(slots: Seq<cte_t>) -> bool {
    forall|i: int| 0 <= i < slots.len() ==> #[trigger] link_consistent(slots, i)
}

/// Putting a capability into an empty slot behind a source keeps the links of
/// every slot that holds a capability consistent, whatever the source and the
/// new capability are: the new slot stands between the source and what was
/// the successor of the source. No more is asked than that slot 0 is empty, as
/// 0 stands for no reference, and that a source that is empty stands in no
/// list.
pub proof fn lemma_insert_keeps_links(slots: Seq<cte_t>, new_cap: cap_t, src: usize, dest: usize)
    requires
        links_consistent(slots),
        slots.len() >= 1,
        slots[0].cap is NullCap,
        1 <= src < slots.len(),
        1 <= dest < slots.len(),
        src != dest,
        slots[dest as int] == cte_t::empty(),
        slots[src as int].cap is NullCap ==> slots[src as int].cteMDBNode == mdb_node_t::null(),
    ensures
        links_consistent(insert_slots(slots, new_cap, src, dest)),
        insert_slots(slots, new_cap, src, dest)[dest as int].cap == new_cap,
        insert_slots(slots, new_cap, src, dest)[src as int].cteMDBNode.mdbNext == dest,
        insert_slots(slots, new_cap, src, dest)[dest as int].cteMDBNode.mdbPrev == src,
        insert_slots(slots, new_cap, src, dest)[dest as int].cteMDBNode.mdbNext
            == slots[src as int].cteMDBNode.mdbNext,
        slots[src as int].cteMDBNode.mdbNext != 0 ==> insert_slots(
            slots,
            new_cap,
            src,
            dest,
        )[slots[src as int].cteMDBNode.mdbNext as int].cteMDBNode.mdbPrev == dest,
{
    let new = insert_slots(slots, new_cap, src, dest);
    let next = slots[src as int].cteMDBNode.mdbNext;
    assert(link_consistent(slots, src as int));
    assert(link_consistent(slots, 0));
    assert(next < slots.len() && next != dest);
    assert forall|i: int| 0 <= i < new.len() implies #[trigger] link_consistent(new, i) by {
        assert(link_consistent(slots, i));
        let m = slots[i].cteMDBNode;
        if i != dest && !(slots[i].cap is NullCap) {
            if m.mdbNext != 0 {
                assert(link_consistent(slots, m.mdbNext as int));
            }
            if m.mdbPrev != 0 {
                assert(link_consistent(slots, m.mdbPrev as int));
            }
        }
    }
}

/// While the kernel is in order, the links of every slot that holds a
/// capability are consistent.
pub proof fn lemma_order_gives_links(slots: Seq<cte_t>, ntcbs: nat)
    requires
        slots_wf(slots, ntcbs),
    ensures
        links_consistent(slots),
{
    assert forall|i: int| 0 <= i < slots.len() implies #[trigger] link_consistent(slots, i) by {
        assert(slot_inv(slots, ntcbs, i));
    }
}

} // verus!
