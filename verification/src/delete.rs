//! Deletion of capabilities: finalising what a capability names, the zombie
//! that stands for an object whose slots are still being emptied, and the
//! preemptible loops that delete and revoke.

use vstd::prelude::*;
use crate::cap::{cap_t, low_mask, MASK};
use crate::config::{
    asidInvalid, maxIRQ, tcbCNodeEntries, tcbCTable, IRQInactive, ZombieType_ZombieTCB,
};
use crate::cspace::{
    cap_cyclic_zombie, cap_removable, capCyclicZombie, capRemovable, cteSwap, emptied_slots,
    has_children, is_final_capability, is_mdb_parent_of, isFinalCapability, isMDBParentOf,
    lemma_empty_keeps_order, swap_slots,
};
use crate::kernel::{
    cap_ok, getCSpace, request_t, slot_inv, slots_wf, tcb_cspace, Kernel, KernelView,
};
use crate::preemption::preemptionPoint;
use crate::structures::{cte_t, exception_t, finaliseCap_ret, finaliseSlot_ret, mdb_node_t};
use crate::thread::suspend;

verus! {

/// The weight of a capability that sits in slot `at`: a bound on the steps
/// its deletion can still take. A zombie weighs what it has left to empty, and
/// one more while it sits outside the first slot of its own object; a CNode
/// or thread capability weighs more than the zombie it can turn into.
pub open spec fn cap_weight(cap: cap_t, at: int) -> nat {
    match cap {
        cap_t::NullCap => 0,
        cap_t::ZombieCap { capZombiePtr, capZombieNumber, .. } => (capZombieNumber + 1 + if capZombiePtr
            == at {
            0int
        } else {
            1int
        }) as nat,
        cap_t::CNodeCap { capCNodeRadix, .. } => (low_mask(capCNodeRadix) + 4) as nat,
        cap_t::ThreadCap { .. } => (tcbCNodeEntries + 3) as nat,
        _ => 1,
    }
}

/// The weight of the first `n` slots.
pub open spec fn weight_upto(slots: Seq<cte_t>, n: nat) -> nat
    decreases n,
{
    if n == 0 {
        0
    } else {
        weight_upto(slots, (n - 1) as nat) + cap_weight(slots[n - 1].cap, n - 1)
    }
}

/// The weight of slot memory.
pub open spec fn total_weight(slots: Seq<cte_t>) -> nat {
    weight_upto(slots, slots.len())
}

/// Whether two slot memories hold the same capabilities.
pub open spec fn caps_same(a: Seq<cte_t>, b: Seq<cte_t>) -> bool {
    a.len() == b.len() && forall|i: int| 0 <= i < a.len() ==> (#[trigger] a[i]).cap == b[i].cap
}

/// Whether slot memory `b` came from `a` by steps of deletion: it weighs less,
/// or it holds the same capabilities.
pub open spec fn lighter_or_same(a: Seq<cte_t>, b: Seq<cte_t>) -> bool {
    a.len() == b.len() && (total_weight(b) < total_weight(a) || (caps_same(a, b) && total_weight(b)
        == total_weight(a)))
}

proof fn lemma_weight_upto_same(a: Seq<cte_t>, b: Seq<cte_t>, n: nat)
    requires
        n <= a.len(),
        n <= b.len(),
        forall|j: int| 0 <= j < n ==> (#[trigger] a[j]).cap == b[j].cap,
    ensures
        weight_upto(a, n) == weight_upto(b, n),
    decreases n,
{
    if n > 0 {
        lemma_weight_upto_same(a, b, (n - 1) as nat);
        let x = a[n - 1];
    }
}

proof fn lemma_weight_upto_one(a: Seq<cte_t>, b: Seq<cte_t>, i: int, n: nat)
    requires
        a.len() == b.len(),
        n <= a.len(),
        0 <= i < a.len(),
        forall|j: int| 0 <= j < a.len() && j != i ==> (#[trigger] a[j]).cap == b[j].cap,
    ensures
        i < n ==> weight_upto(b, n) + cap_weight(a[i].cap, i) == weight_upto(a, n) + cap_weight(b[i].cap, i),
        i >= n ==> weight_upto(b, n) == weight_upto(a, n),
    decreases n,
{
    if n > 0 {
        lemma_weight_upto_one(a, b, i, (n - 1) as nat);
        let x = a[n - 1];
    }
}

/// Slot memories that hold the same capabilities weigh the same.
pub proof fn lemma_weight_same(a: Seq<cte_t>, b: Seq<cte_t>)
    requires
        caps_same(a, b),
    ensures
        total_weight(a) == total_weight(b),
{
    lemma_weight_upto_same(a, b, a.len());
}

/// Where two slot memories differ in the capability of one slot only, their
/// weights differ by the weights of these two capabilities.
pub proof fn lemma_weight_one(a: Seq<cte_t>, b: Seq<cte_t>, i: int)
    requires
        a.len() == b.len(),
        0 <= i < a.len(),
        forall|j: int| 0 <= j < a.len() && j != i ==> (#[trigger] a[j]).cap == b[j].cap,
    ensures
        total_weight(b) + cap_weight(a[i].cap, i) == total_weight(a) + cap_weight(b[i].cap, i),
{
    lemma_weight_upto_one(a, b, i, a.len());
}

/// Where two slot memories differ in the capabilities of two slots only,
/// their weights differ by the weights of these capabilities.
pub proof fn lemma_weight_two(a: Seq<cte_t>, b: Seq<cte_t>, i: int, j: int)
    requires
        a.len() == b.len(),
        0 <= i < a.len(),
        0 <= j < a.len(),
        i != j,
        forall|x: int| 0 <= x < a.len() && x != i && x != j ==> (#[trigger] a[x]).cap == b[x].cap,
    ensures
        total_weight(b) + cap_weight(a[i].cap, i) + cap_weight(a[j].cap, j) == total_weight(a)
            + cap_weight(b[i].cap, i) + cap_weight(b[j].cap, j),
{
    let c = a.update(i, b[i]);
    lemma_weight_one(a, c, i);
    assert forall|x: int| 0 <= x < c.len() && x != j implies (#[trigger] c[x]).cap == b[x].cap by {
        let y = a[x];
    }
    lemma_weight_one(c, b, j);
}

/// Steps of deletion compose.
pub proof fn lemma_lighter_trans(a: Seq<cte_t>, b: Seq<cte_t>, c: Seq<cte_t>)
    requires
        lighter_or_same(a, b),
        lighter_or_same(b, c),
    ensures
        lighter_or_same(a, c),
{
    if caps_same(a, b) && caps_same(b, c) {
        assert forall|i: int| 0 <= i < a.len() implies (#[trigger] a[i]).cap == c[i].cap by {
            let x = b[i];
        }
    }
}

/// The calls that the end of a deletion asks of the collaborators: the
/// interrupt of a deleted handler is switched off.
pub open spec fn deletion_requests(cleanup: cap_t) -> Seq<request_t> {
    match cleanup {
        cap_t::IrqHandlerCap { capIRQ } => seq![request_t::SetIRQState { state: IRQInactive, irq: capIRQ }],
        _ => Seq::empty(),
    }
}

impl KernelView {
    /// The kernel after slot `slot` was emptied with the cleanup `cleanup`
    /// left of its capability; an empty slot is left as it is.
    pub open spec fn emptied(self, slot: usize, cleanup: cap_t) -> KernelView {
        if self.slots[slot as int].cap is NullCap {
            self
        } else {
            KernelView {
                slots: emptied_slots(self.slots, slot),
                requests: self.requests + deletion_requests(cleanup),
                ..self
            }
        }
    }
}

/// Asks for what is left to do once a capability is gone: the interrupt of
/// a deleted handler is switched off.
pub fn postCapDeletion(k: &mut Kernel, cap: &cap_t)
    ensures
        final(k)@ == (KernelView { requests: old(k)@.requests + deletion_requests(*cap), ..old(k)@ }),
        old(k).wf() ==> final(k).wf(),
{
    match cap {
        cap_t::IrqHandlerCap { capIRQ } => {
            k.requests.push(request_t::SetIRQState { state: IRQInactive, irq: *capIRQ });
            assert(k@.requests =~= old(k)@.requests + deletion_requests(*cap));
        },
        _ => {
            assert(k@.requests =~= old(k)@.requests + deletion_requests(*cap));
        },
    }
}

/// Takes a slot out of the list and empties it.
pub fn emptySlot(k: &mut Kernel, slot: usize, cleanupInfo: &cap_t)
    requires
        old(k).wf(),
        old(k)@.slot_ok(slot),
    ensures
        final(k)@ == old(k)@.emptied(slot, *cleanupInfo),
        final(k).wf(),
        final(k)@.slots[slot as int].cap is NullCap,
        lighter_or_same(old(k)@.slots, final(k)@.slots),
        !(old(k)@.slots[slot as int].cap is NullCap) ==> total_weight(final(k)@.slots) < total_weight(
            old(k)@.slots,
        ),
{
    match k.slots[slot].cap {
        cap_t::NullCap => {
            proof {
                lemma_weight_same(k@.slots, k@.slots);
            }
        },
        _ => {
            proof {
                assert(slot_inv(k@.slots, k@.tcbs.len(), slot as int));
                lemma_empty_keeps_order(k@.slots, k@.tcbs.len(), slot);
                crate::cspace::lemma_mdb_no_short_cycle(k@.slots, k@.tcbs.len(), slot as int);
                lemma_weight_one(k@.slots, emptied_slots(k@.slots, slot), slot as int);
            }
            let mdbNode = k.slots[slot].cteMDBNode;
            let prev: usize = mdbNode.mdbPrev;
            let next: usize = mdbNode.mdbNext;
            if prev != 0 {
                k.slots[prev].cteMDBNode.mdbNext = next;
            }
            if next != 0 {
                k.slots[next].cteMDBNode.mdbPrev = prev;
                let fb: bool = k.slots[next].cteMDBNode.mdbFirstBadged || mdbNode.mdbFirstBadged;
                k.slots[next].cteMDBNode.mdbFirstBadged = fb;
            }
            k.slots[slot].cap = cap_t::NullCap;
            k.slots[slot].cteMDBNode = mdb_node_t::default();
            assert(k@.slots =~= emptied_slots(old(k)@.slots, slot));
            postCapDeletion(k, cleanupInfo);
        },
    }
}

/// Whether a capability of this kind is finalised without a zombie and
/// without touching slot or thread memory, whether or not it is the last to
/// its object.
pub open spec fn plain_kind(cap: cap_t) -> bool {
    !(cap is CNodeCap || cap is ThreadCap || cap is ZombieCap || cap is IrqHandlerCap)
}

/// Whether a capability can be finalised at once: it is of a plain kind, or
/// it is not the last to its CNode, thread or interrupt.
pub open spec fn finalises_at_once(cap: cap_t, is_final: bool) -> bool {
    plain_kind(cap) || (!is_final && !(cap is ZombieCap))
}

/// Whether a capability of this kind may be finalised where the result must
/// be removable at once.
pub open spec fn immediate_kind(cap: cap_t) -> bool {
    cap is NullCap || cap is EndpointCap || cap is NotificationCap || cap is ReplyCap || cap is DomainCap
        || cap.is_arch()
}

/// The calls that finalising a capability of a plain kind asks of the
/// collaborators: the last capability to an endpoint or a notification
/// cancels what waits on it, a mapped frame is unmapped, and the last
/// capability to a mapped page table or to an ASID pool takes that out of
/// use.
pub open spec fn finalise_requests(cap: cap_t, is_final: bool) -> Seq<request_t> {
    match cap {
        cap_t::EndpointCap { capEPPtr, .. } => if is_final {
            seq![request_t::CancelAllIPC { ep_ptr: capEPPtr }]
        } else {
            Seq::empty()
        },
        cap_t::NotificationCap { capNtfnPtr, .. } => if is_final {
            seq![
                request_t::UnbindMaybeNotification { ntfn_ptr: capNtfnPtr },
                request_t::CancelAllSignals { ntfn_ptr: capNtfnPtr },
            ]
        } else {
            Seq::empty()
        },
        cap_t::FrameCap { capFBasePtr, capFSize, capFMappedASID, capFMappedAddress, .. } => if capFMappedASID
            != asidInvalid {
            seq![
                request_t::UnmapPage {
                    size: capFSize,
                    asid: capFMappedASID,
                    vptr: capFMappedAddress,
                    pptr: capFBasePtr,
                },
            ]
        } else {
            Seq::empty()
        },
        cap_t::PageTableCap { capPTBasePtr, capPTIsMapped, capPTMappedASID, capPTMappedAddress } => if is_final
            && capPTIsMapped {
            seq![
                request_t::UnmapPageTable {
                    asid: capPTMappedASID,
                    vptr: capPTMappedAddress,
                    pt: capPTBasePtr,
                },
            ]
        } else {
            Seq::empty()
        },
        cap_t::ASIDPoolCap { capASIDBase, capASIDPool } => if is_final {
            seq![request_t::DeleteASIDPool { asid_base: capASIDBase, pool: capASIDPool }]
        } else {
            Seq::empty()
        },
        _ => Seq::empty(),
    }
}

/// What is left of a capability once it is finalised: a zombie of the last
/// capability to a CNode or a thread, the zombie itself of a zombie, and
/// nothing of any other.
pub open spec fn finalise_remainder(cap: cap_t, is_final: bool) -> cap_t {
    match cap {
        cap_t::CNodeCap { capCNodePtr, capCNodeRadix, .. } => if is_final {
            cap_t::ZombieCap {
                capZombiePtr: capCNodePtr,
                capZombieType: capCNodeRadix,
                capZombieNumber: (low_mask(capCNodeRadix) + 1) as usize,
            }
        } else {
            cap_t::NullCap
        },
        cap_t::ThreadCap { capTCBPtr } => if is_final {
            cap_t::ZombieCap {
                capZombiePtr: tcb_cspace(capTCBPtr, tcbCTable) as usize,
                capZombieType: ZombieType_ZombieTCB,
                capZombieNumber: tcbCNodeEntries,
            }
        } else {
            cap_t::NullCap
        },
        cap_t::ZombieCap { .. } => cap,
        _ => cap_t::NullCap,
    }
}

/// The cleanup that is left of a capability once it is finalised: the last
/// capability to a thread or to an interrupt leaves itself, to be handed to
/// the end of the deletion.
pub open spec fn finalise_cleanup(cap: cap_t, is_final: bool) -> cap_t {
    match cap {
        cap_t::ThreadCap { .. } | cap_t::IrqHandlerCap { .. } => if is_final {
            cap
        } else {
            cap_t::NullCap
        },
        _ => cap_t::NullCap,
    }
}

/// The slot that holds the notification of the handler of interrupt `irq`.
pub open spec fn irq_slot(k: KernelView, irq: usize) -> int {
    k.intStateIRQNode + irq
}

/// Whether a capability can be finalised in the kernel's present state: where
/// the result must be removable at once its kind must allow for that, and the
/// slot of the handler of a deleted interrupt must hold a capability of such
/// a kind.
pub open spec fn can_finalise(k: KernelView, cap: cap_t, is_final: bool, exposed: bool) -> bool {
    &&& exposed ==> immediate_kind(cap)
    &&& match cap {
        cap_t::IrqHandlerCap { capIRQ } => is_final ==> immediate_kind(k.slots[irq_slot(k, capIRQ)].cap),
        _ => true,
    }
}

/// Finalises a capability of a plain kind or one that is not the last.
fn finalise_plain(k: &mut Kernel, cap: &cap_t, is_final: bool)
    requires
        finalises_at_once(*cap, is_final),
    ensures
        final(k)@ == (KernelView { requests: old(k)@.requests + finalise_requests(*cap, is_final), ..old(k)@ }),
        old(k).wf() ==> final(k).wf(),
{
    let ghost want = old(k)@.requests + finalise_requests(*cap, is_final);
    match cap {
        cap_t::EndpointCap { capEPPtr, .. } => {
            if is_final {
                k.requests.push(request_t::CancelAllIPC { ep_ptr: *capEPPtr });
            }
        },
        cap_t::NotificationCap { capNtfnPtr, .. } => {
            if is_final {
                k.requests.push(request_t::UnbindMaybeNotification { ntfn_ptr: *capNtfnPtr });
                k.requests.push(request_t::CancelAllSignals { ntfn_ptr: *capNtfnPtr });
            }
        },
        cap_t::FrameCap { capFBasePtr, capFSize, capFMappedASID, capFMappedAddress, .. } => {
            if *capFMappedASID != asidInvalid {
                k.requests.push(
                    request_t::UnmapPage {
                        size: *capFSize,
                        asid: *capFMappedASID,
                        vptr: *capFMappedAddress,
                        pptr: *capFBasePtr,
                    },
                );
            }
        },
        cap_t::PageTableCap { capPTBasePtr, capPTIsMapped, capPTMappedASID, capPTMappedAddress } => {
            if is_final && *capPTIsMapped {
                k.requests.push(
                    request_t::UnmapPageTable {
                        asid: *capPTMappedASID,
                        vptr: *capPTMappedAddress,
                        pt: *capPTBasePtr,
                    },
                );
            }
        },
        cap_t::ASIDPoolCap { capASIDBase, capASIDPool } => {
            if is_final {
                k.requests.push(request_t::DeleteASIDPool { asid_base: *capASIDBase, pool: *capASIDPool });
            }
        },
        _ => {},
    }
    assert(k@.requests =~= want);
}

/// Deletes a capability whose kind can be finalised at once.
pub fn cteDeleteOne(k: &mut Kernel, slot: usize)
    requires
        old(k).wf(),
        old(k)@.slot_ok(slot),
        immediate_kind(old(k)@.slots[slot as int].cap),
    ensures
        final(k)@ == (KernelView {
            requests: old(k)@.requests + finalise_requests(
                old(k)@.slots[slot as int].cap,
                is_final_capability(old(k)@.slots, slot),
            ),
            ..old(k)@
        }).emptied(slot, cap_t::NullCap),
        final(k).wf(),
        final(k)@.slots[slot as int].cap is NullCap,
        lighter_or_same(old(k)@.slots, final(k)@.slots),
{
    let cap = k.slots[slot].cap;
    match cap {
        cap_t::NullCap => {
            proof {
                lemma_weight_same(k@.slots, k@.slots);
            }
            assert(k@.requests =~= old(k)@.requests + finalise_requests(
                old(k)@.slots[slot as int].cap,
                is_final_capability(old(k)@.slots, slot),
            ));
        },
        _ => {
            let is_final = isFinalCapability(k, slot);
            finalise_plain(k, &cap, is_final);
            emptySlot(k, slot, &cap_t::NullCap);
        },
    }
}

/// Empties the slot that holds the notification of an interrupt's handler.
pub fn deletingIRQHandler(k: &mut Kernel, irq: usize)
    requires
        old(k).wf(),
        irq <= maxIRQ,
        immediate_kind(old(k)@.slots[irq_slot(old(k)@, irq)].cap),
    ensures
        final(k)@ == (KernelView {
            requests: old(k)@.requests + finalise_requests(
                old(k)@.slots[irq_slot(old(k)@, irq)].cap,
                is_final_capability(old(k)@.slots, irq_slot(old(k)@, irq) as usize),
            ),
            ..old(k)@
        }).emptied(irq_slot(old(k)@, irq) as usize, cap_t::NullCap),
        final(k).wf(),
        lighter_or_same(old(k)@.slots, final(k)@.slots),
{
    let slot: usize = k.intStateIRQNode + irq;
    cteDeleteOne(k, slot);
}

/// Lets two slots change places, unless they are one slot.
pub fn capSwapForDelete(k: &mut Kernel, slot1: usize, slot2: usize)
    requires
        old(k).wf(),
        old(k)@.slot_ok(slot1),
        old(k)@.slot_ok(slot2),
    ensures
        final(k)@ == (if slot1 == slot2 {
            old(k)@
        } else {
            KernelView {
                slots: swap_slots(
                    old(k)@.slots,
                    old(k)@.slots[slot1 as int].cap,
                    slot1,
                    old(k)@.slots[slot2 as int].cap,
                    slot2,
                ),
                ..old(k)@
            }
        }),
        final(k).wf(),
{
    if slot1 == slot2 {
        return ;
    }
    let cap1 = k.slots[slot1].cap;
    let cap2 = k.slots[slot2].cap;
    proof {
        assert(slot_inv(k@.slots, k@.tcbs.len(), slot1 as int));
        assert(slot_inv(k@.slots, k@.tcbs.len(), slot2 as int));
    }
    cteSwap(k, &cap1, slot1, &cap2, slot2);
}

impl KernelView {
    /// The kernel with the calls asked that finalising `cap` asks for.
    pub open spec fn plainly_finalised(self, cap: cap_t, is_final: bool) -> KernelView {
        KernelView { requests: self.requests + finalise_requests(cap, is_final), ..self }
    }

    /// The kernel after `cap` was finalised: the last capability to a thread
    /// unbinds the thread's notification and suspends the thread; the last
    /// capability to an interrupt empties the slot of the interrupt's handler;
    /// any other asks the calls of its kind.
    pub open spec fn finalised(self, cap: cap_t, is_final: bool) -> KernelView {
        match cap {
            cap_t::ThreadCap { capTCBPtr } => if is_final {
                self.asked(request_t::UnbindNotification { tcb: capTCBPtr }).suspended(capTCBPtr)
            } else {
                self
            },
            cap_t::IrqHandlerCap { capIRQ } => if is_final {
                self.plainly_finalised(
                    self.slots[irq_slot(self, capIRQ)].cap,
                    is_final_capability(self.slots, irq_slot(self, capIRQ) as usize),
                ).emptied(irq_slot(self, capIRQ) as usize, cap_t::NullCap)
            } else {
                self
            },
            _ => self.plainly_finalised(cap, is_final),
        }
    }
}

/// Replacing the capability of a slot that is not empty by another that is
/// not null keeps slot memory in order.
pub proof fn lemma_set_cap_keeps_order(slots: Seq<cte_t>, ntcbs: nat, i: usize, cap: cap_t)
    requires
        slots_wf(slots, ntcbs),
        1 <= i < slots.len(),
        cap_ok(cap, slots.len(), ntcbs),
        !(cap is NullCap),
    ensures
        slots_wf(slots.update(i as int, cte_t { cap, ..slots[i as int] }), ntcbs),
{
    let new = slots.update(i as int, cte_t { cap, ..slots[i as int] });
    assert forall|j: int| 0 <= j < new.len() implies #[trigger] slot_inv(new, ntcbs, j) by {
        assert(slot_inv(slots, ntcbs, j));
    }
    let rank = choose|rank: Seq<int>| crate::kernel::mdb_ranked(slots, rank);
    assert forall|j: int| 0 <= j < new.len() && (#[trigger] new[j]).cteMDBNode.mdbNext != 0 implies rank[j]
        < rank[new[j].cteMDBNode.mdbNext as int] by {
        let x = slots[j];
    }
    assert(crate::kernel::mdb_ranked(new, rank));
}

/// Finalises a capability: gives what is left of it and does what its going
/// asks for.
pub fn finaliseCap(k: &mut Kernel, cap: &cap_t, is_final: bool, exposed: bool) -> (ret: finaliseCap_ret)
    requires
        old(k).wf(),
        cap_ok(*cap, old(k)@.slots.len(), old(k)@.tcbs.len()),
        can_finalise(old(k)@, *cap, is_final, exposed),
    ensures
        ret.remainder == finalise_remainder(*cap, is_final),
        ret.cleanupInfo == finalise_cleanup(*cap, is_final),
        final(k)@ == old(k)@.finalised(*cap, is_final),
        final(k).wf(),
        final(k)@.slots.len() == old(k)@.slots.len(),
        final(k)@.tcbs.len() == old(k)@.tcbs.len(),
        lighter_or_same(old(k)@.slots, final(k)@.slots),
        !(cap is IrqHandlerCap) ==> final(k)@.slots == old(k)@.slots,
        cap_ok(ret.remainder, old(k)@.slots.len(), old(k)@.tcbs.len()),
{
    proof {
        lemma_weight_same(k@.slots, k@.slots);
    }
    match cap {
        cap_t::CNodeCap { capCNodePtr, capCNodeRadix, .. } => {
            if is_final {
                let n: usize = MASK(*capCNodeRadix) as usize + 1;
                assert(k@.requests =~= old(k)@.requests + finalise_requests(*cap, is_final));
                return finaliseCap_ret {
                    remainder: cap_t::ZombieCap {
                        capZombiePtr: *capCNodePtr,
                        capZombieType: *capCNodeRadix,
                        capZombieNumber: n,
                    },
                    cleanupInfo: cap_t::NullCap,
                };
            }
        },
        cap_t::ThreadCap { capTCBPtr } => {
            if is_final {
                let cte_ptr: usize = getCSpace(*capTCBPtr, tcbCTable);
                k.requests.push(request_t::UnbindNotification { tcb: *capTCBPtr });
                suspend(k, *capTCBPtr);
                return finaliseCap_ret {
                    remainder: cap_t::ZombieCap {
                        capZombiePtr: cte_ptr,
                        capZombieType: ZombieType_ZombieTCB,
                        capZombieNumber: tcbCNodeEntries,
                    },
                    cleanupInfo: *cap,
                };
            }
            return finaliseCap_ret { remainder: cap_t::NullCap, cleanupInfo: cap_t::NullCap };
        },
        cap_t::ZombieCap { .. } => {
            assert(k@.requests =~= old(k)@.requests + finalise_requests(*cap, is_final));
            return finaliseCap_ret { remainder: *cap, cleanupInfo: cap_t::NullCap };
        },
        cap_t::IrqHandlerCap { capIRQ } => {
            if is_final {
                deletingIRQHandler(k, *capIRQ);
                return finaliseCap_ret { remainder: cap_t::NullCap, cleanupInfo: *cap };
            }
            return finaliseCap_ret { remainder: cap_t::NullCap, cleanupInfo: cap_t::NullCap };
        },
        _ => {},
    }
    finalise_plain(k, cap, is_final);
    finaliseCap_ret { remainder: cap_t::NullCap, cleanupInfo: cap_t::NullCap }
}

/// Whether `finaliseCap` can be called on a capability in the present state.
fn finalisable(k: &Kernel, cap: &cap_t, is_final: bool) -> (r: bool)
    requires
        k.wf(),
        cap_ok(*cap, k@.slots.len(), k@.tcbs.len()),
    ensures
        r == can_finalise(k@, *cap, is_final, false),
{
    match cap {
        cap_t::IrqHandlerCap { capIRQ } => {
            if is_final {
                match k.slots[k.intStateIRQNode + *capIRQ].cap {
                    cap_t::NullCap | cap_t::EndpointCap { .. } | cap_t::NotificationCap { .. }
                    | cap_t::ReplyCap { .. } | cap_t::DomainCap | cap_t::FrameCap { .. }
                    | cap_t::PageTableCap { .. } | cap_t::ASIDControlCap | cap_t::ASIDPoolCap { .. } => true,
                    _ => false,
                }
            } else {
                true
            }
        },
        _ => true,
    }
}

/// Whether `new` holds all calls of `old`, in their order, and maybe more
/// behind them.
pub open spec fn requests_grow(old: Seq<request_t>, new: Seq<request_t>) -> bool {
    old.len() <= new.len() && forall|i: int| 0 <= i < old.len() ==> #[trigger] new[i] == old[i]
}

/// What holds after a step of deletion, whatever its outcome: the kernel is
/// in order, the two arenas keep their sizes, slot memory weighs less or holds
/// the same capabilities, calls are only added, and nothing changes but slot
/// memory, thread memory, the ready queues with the scheduler's action, the
/// count of work and the calls.
pub open spec fn deletion_step(old: KernelView, new: KernelView) -> bool {
    &&& new.wf()
    &&& new.slots.len() == old.slots.len()
    &&& new.tcbs.len() == old.tcbs.len()
    &&& lighter_or_same(old.slots, new.slots)
    &&& requests_grow(old.requests, new.requests)
    &&& new == (KernelView {
        slots: new.slots,
        tcbs: new.tcbs,
        ksReadyQueues: new.ksReadyQueues,
        ksReadyQueuesL1Bitmap: new.ksReadyQueuesL1Bitmap,
        ksReadyQueuesL2Bitmap: new.ksReadyQueuesL2Bitmap,
        ksSchedulerAction: new.ksSchedulerAction,
        ksWorkUnitsCompleted: new.ksWorkUnitsCompleted,
        requests: new.requests,
        ..old
    })
}

impl KernelView {
    /// The kernel with the capability of a slot replaced.
    pub open spec fn with_cap(self, slot: usize, cap: cap_t) -> KernelView {
        KernelView { slots: self.slots.update(slot as int, cte_t { cap, ..self.slots[slot as int] }), ..self }
    }

    /// Whether the preemption point that comes next preempts the operation.
    pub open spec fn preempts(self) -> bool {
        self.polls_next() && self.irq_pending
    }
}

/// A finalisation that ended without success.
pub open spec fn slot_failed(k: KernelView, status: exception_t) -> (KernelView, finaliseSlot_ret) {
    (k, finaliseSlot_ret { status, success: false, cleanupInfo: cap_t::NullCap })
}

/// What finalising slot `slot` makes of the kernel, and how it ends. The
/// capability is finalised; if nothing or a removable zombie is left, the slot
/// can be emptied. Otherwise the zombie is written into the slot; an unexposed
/// finalisation stops at a zombie of the slot's own object, any other reduces
/// the zombie, passes a preemption point and starts anew. A second zombie of
/// the same object in the first slot of that object ends the finalisation as a
/// fault. The comparisons of weights are there for the definition to end: in a
/// kernel that is in order every step makes slot memory lighter.
pub open spec fn finalise_slot_spec(k: KernelView, slot: usize, immediate: bool) -> (KernelView, finaliseSlot_ret)
    decreases
            (if immediate {
                1nat
            } else {
                0nat
            }),
            total_weight(k.slots),
            1nat,
{
    let cap = k.slots[slot as int].cap;
    let is_final = is_final_capability(k.slots, slot);
    let k1 = k.finalised(cap, is_final);
    let remainder = finalise_remainder(cap, is_final);
    let cleanup = finalise_cleanup(cap, is_final);
    let k2 = k1.with_cap(slot, remainder);
    if cap is NullCap {
        (k, finaliseSlot_ret { status: exception_t::EXCEPTION_NONE, success: true, cleanupInfo: cap_t::NullCap })
    } else if !can_finalise(k, cap, is_final, false) {
        slot_failed(k, exception_t::EXCEPTION_FAULT)
    } else if cap_removable(remainder, slot) {
        (k1, finaliseSlot_ret { status: exception_t::EXCEPTION_NONE, success: true, cleanupInfo: cleanup })
    } else if !immediate && cap_cyclic_zombie(remainder, slot) {
        (k2, finaliseSlot_ret { status: exception_t::EXCEPTION_NONE, success: false, cleanupInfo: cleanup })
    } else if !immediate && cap_cyclic_zombie(k2.slots[remainder.ptr() as int].cap, remainder.ptr()) {
        slot_failed(k2, exception_t::EXCEPTION_FAULT)
    } else if total_weight(k2.slots) > total_weight(k.slots) {
        slot_failed(k2, exception_t::EXCEPTION_FAULT)
    } else {
        let reduced = reduce_zombie_spec(k2, slot, immediate);
        if reduced.1 != exception_t::EXCEPTION_NONE {
            slot_failed(reduced.0, reduced.1)
        } else if reduced.0.preempts() {
            slot_failed(reduced.0.worked(), exception_t::EXCEPTION_PREEMTED)
        } else if total_weight(reduced.0.worked().slots) < total_weight(k.slots) {
            finalise_slot_spec(reduced.0.worked(), slot, immediate)
        } else {
            slot_failed(reduced.0.worked(), exception_t::EXCEPTION_FAULT)
        }
    }
}

/// What one step of reducing the zombie in slot `slot` makes of the kernel,
/// and how it ends. An immediate step deletes the last slot the zombie has
/// left and, if the zombie is still the same and that slot is empty, lets the
/// zombie count one slot less; if the zombie was moved away meanwhile, the
/// step is done. Any other step lets the zombie and the first slot of its
/// object change places.
pub open spec fn reduce_zombie_spec(k: KernelView, slot: usize, immediate: bool) -> (KernelView, exception_t)
    decreases
            (if immediate {
                1nat
            } else {
                0nat
            }),
            total_weight(k.slots),
            0nat,
{
    match k.slots[slot as int].cap {
        cap_t::ZombieCap { capZombiePtr, capZombieType, capZombieNumber } => if immediate {
            let end = (capZombiePtr + (capZombieNumber - 1)) as usize;
            let deleted = delete_spec(k, end, false);
            if deleted.1 != exception_t::EXCEPTION_NONE {
                deleted
            } else {
                match deleted.0.slots[slot as int].cap {
                    cap_t::NullCap => deleted,
                    cap_t::ZombieCap { capZombiePtr: ptr2, capZombieType: type2, capZombieNumber: n2 } => if capZombiePtr
                        == ptr2 && n2 == capZombieNumber && type2 == capZombieType {
                        if deleted.0.slots[end as int].cap is NullCap {
                            (
                                deleted.0.with_cap(
                                    slot,
                                    cap_t::ZombieCap {
                                        capZombiePtr,
                                        capZombieType,
                                        capZombieNumber: (capZombieNumber - 1) as usize,
                                    },
                                ),
                                exception_t::EXCEPTION_NONE,
                            )
                        } else {
                            (deleted.0, exception_t::EXCEPTION_FAULT)
                        }
                    } else if ptr2 == slot && capZombiePtr != slot {
                        deleted
                    } else {
                        (deleted.0, exception_t::EXCEPTION_FAULT)
                    },
                    _ => (deleted.0, exception_t::EXCEPTION_FAULT),
                }
            }
        } else {
            (
                KernelView {
                    slots: swap_slots(
                        k.slots,
                        k.slots[capZombiePtr as int].cap,
                        capZombiePtr,
                        k.slots[slot as int].cap,
                        slot,
                    ),
                    ..k
                },
                exception_t::EXCEPTION_NONE,
            )
        },
        _ => (k, exception_t::EXCEPTION_FAULT),
    }
}

/// What deleting the capability in slot `slot` makes of the kernel, and how
/// it ends: the slot is finalised; an exposed slot, and one whose finalisation
/// succeeded, is emptied.
pub open spec fn delete_spec(k: KernelView, slot: usize, exposed: bool) -> (KernelView, exception_t)
    decreases
            (if exposed {
                1nat
            } else {
                0nat
            }),
            total_weight(k.slots),
            2nat,
{
    let finalised = finalise_slot_spec(k, slot, exposed);
    if finalised.1.status != exception_t::EXCEPTION_NONE {
        (finalised.0, finalised.1.status)
    } else if exposed || finalised.1.success {
        (finalised.0.emptied(slot, finalised.1.cleanupInfo), exception_t::EXCEPTION_NONE)
    } else {
        (finalised.0, exception_t::EXCEPTION_NONE)
    }
}

/// What revoking the capability in slot `slot` makes of the kernel, and how
/// it ends: as long as the successor of the slot is a child of its
/// capability, the successor is deleted and a preemption point passed.
pub open spec fn revoke_spec(k: KernelView, slot: usize) -> (KernelView, exception_t)
    decreases total_weight(k.slots),
{
    let next = k.slots[slot as int].cteMDBNode.mdbNext;
    if !has_children(k.slots, slot) {
        (k, exception_t::EXCEPTION_NONE)
    } else {
        let deleted = delete_spec(k, next, true);
        if deleted.1 != exception_t::EXCEPTION_NONE {
            deleted
        } else if deleted.0.preempts() {
            (deleted.0.worked(), exception_t::EXCEPTION_PREEMTED)
        } else if total_weight(deleted.0.worked().slots) < total_weight(k.slots) {
            revoke_spec(deleted.0.worked(), slot)
        } else {
            (deleted.0.worked(), exception_t::EXCEPTION_FAULT)
        }
    }
}

/// What holds once `cteDelete` has returned: the kernel is what `delete_spec`
/// gives. In particular nothing changes for an empty slot; a capability that
/// can be finalised at once is finalised and its slot emptied; and whenever the
/// deletion ends without error the slot is empty, or, if it was not exposed,
/// holds a zombie of the object that starts at the slot itself.
pub open spec fn delete_post(old: KernelView, slot: usize, exposed: bool, new: KernelView, r: exception_t) -> bool {
    let cap = old.slots[slot as int].cap;
    let is_final = is_final_capability(old.slots, slot);
    &&& (new, r) == delete_spec(old, slot, exposed)
    &&& deletion_step(old, new)
    &&& (r == exception_t::EXCEPTION_NONE || r == exception_t::EXCEPTION_PREEMTED || r
        == exception_t::EXCEPTION_FAULT)
    &&& (r == exception_t::EXCEPTION_NONE ==> new.slots[slot as int].cap is NullCap || (!exposed
        && cap_cyclic_zombie(new.slots[slot as int].cap, slot)))
    &&& (cap is NullCap ==> r == exception_t::EXCEPTION_NONE && new == old)
    &&& (finalises_at_once(cap, is_final) ==> r == exception_t::EXCEPTION_NONE && new
        == old.plainly_finalised(cap, is_final).emptied(slot, cap_t::NullCap))
}

/// Takes one step of deleting the object of the zombie in `slot`: where
/// `immediate` is set, the last slot the zombie has left is deleted and the
/// zombie counts one slot less; otherwise the zombie goes home to the first slot
/// of its object and `slot` takes what was there.
pub fn reduceZombie(k: &mut Kernel, slot: usize, immediate: bool) -> (r: exception_t)
    requires
        old(k).wf(),
        old(k)@.slot_ok(slot),
        match old(k)@.slots[slot as int].cap {
            cap_t::ZombieCap { capZombiePtr, capZombieNumber, .. } => capZombieNumber > 0 && (!immediate
                ==> capZombiePtr != slot && !cap_cyclic_zombie(
                old(k)@.slots[capZombiePtr as int].cap,
                capZombiePtr,
            )),
            _ => false,
        },
    ensures
        (final(k)@, r) == reduce_zombie_spec(old(k)@, slot, immediate),
        deletion_step(old(k)@, final(k)@),
        r == exception_t::EXCEPTION_NONE || r == exception_t::EXCEPTION_PREEMTED || r
            == exception_t::EXCEPTION_FAULT,
        r == exception_t::EXCEPTION_NONE ==> total_weight(final(k)@.slots) < total_weight(old(k)@.slots),
        !immediate ==> r == exception_t::EXCEPTION_NONE && final(k)@ == (KernelView {
            slots: swap_slots(
                old(k)@.slots,
                old(k)@.slots[old(k)@.slots[slot as int].cap.ptr() as int].cap,
                old(k)@.slots[slot as int].cap.ptr(),
                old(k)@.slots[slot as int].cap,
                slot,
            ),
            ..old(k)@
        }),
    decreases
            (if immediate {
                1nat
            } else {
                0nat
            }),
            0nat,
{
    proof {
        assert(slot_inv(k@.slots, k@.tcbs.len(), slot as int));
    }
    match k.slots[slot].cap {
        cap_t::ZombieCap { capZombiePtr: ptr, capZombieType: zombie_type, capZombieNumber: n } => {
            if immediate {
                let endSlot: usize = ptr + (n - 1);
                let status = cteDelete(k, endSlot, false);
                if status != exception_t::EXCEPTION_NONE {
                    return status;
                }
                let ghost mid = k@.slots;
                match k.slots[slot].cap {
                    cap_t::NullCap => {
                        return exception_t::EXCEPTION_NONE;
                    },
                    cap_t::ZombieCap { capZombiePtr: ptr2, capZombieType: type2, capZombieNumber: n2 } => {
                        if ptr == ptr2 && n2 == n && type2 == zombie_type {
                            match k.slots[endSlot].cap {
                                cap_t::NullCap => {},
                                _ => {
                                    return exception_t::EXCEPTION_FAULT;
                                },
                            }
                            let reduced = cap_t::ZombieCap {
                                capZombiePtr: ptr,
                                capZombieType: zombie_type,
                                capZombieNumber: n - 1,
                            };
                            proof {
                                assert(slot_inv(mid, k@.tcbs.len(), slot as int));
                                lemma_set_cap_keeps_order(mid, k@.tcbs.len(), slot, reduced);
                                lemma_weight_one(
                                    mid,
                                    mid.update(slot as int, cte_t { cap: reduced, ..mid[slot as int] }),
                                    slot as int,
                                );
                            }
                            k.slots[slot].cap = reduced;
                            proof {
                                assert(k@.slots =~= mid.update(
                                    slot as int,
                                    cte_t { cap: reduced, ..mid[slot as int] },
                                ));
                                assert(total_weight(k@.slots) < total_weight(mid));
                                lemma_lighter_trans(old(k)@.slots, mid, k@.slots);
                            }
                            return exception_t::EXCEPTION_NONE;
                        } else {
                            if !(ptr2 == slot && ptr != slot) {
                                return exception_t::EXCEPTION_FAULT;
                            }
                            return exception_t::EXCEPTION_NONE;
                        }
                    },
                    _ => {
                        return exception_t::EXCEPTION_FAULT;
                    },
                }
            } else {
                proof {
                    assert(slot_inv(k@.slots, k@.tcbs.len(), ptr as int));
                    lemma_weight_two(
                        k@.slots,
                        swap_slots(k@.slots, k@.slots[ptr as int].cap, ptr, k@.slots[slot as int].cap, slot),
                        ptr as int,
                        slot as int,
                    );
                }
                capSwapForDelete(k, ptr, slot);
                return exception_t::EXCEPTION_NONE;
            }
        },
        _ => {
            return exception_t::EXCEPTION_FAULT;
        },
    }
}

/// Finalises the capability in `slot` until the slot can be emptied, a zombie
/// of the slot's own object is left in it, or the operation is preempted.
pub fn finaliseSlot(k: &mut Kernel, slot: usize, immediate: bool) -> (ret: finaliseSlot_ret)
    requires
        old(k).wf(),
        old(k)@.slot_ok(slot),
    ensures
        (final(k)@, ret) == finalise_slot_spec(old(k)@, slot, immediate),
        deletion_step(old(k)@, final(k)@),
        ret.status == exception_t::EXCEPTION_NONE || ret.status == exception_t::EXCEPTION_PREEMTED
            || ret.status == exception_t::EXCEPTION_FAULT,
        ret.status != exception_t::EXCEPTION_NONE ==> !ret.success && ret.cleanupInfo is NullCap,
        ret.status == exception_t::EXCEPTION_NONE && !ret.success ==> !immediate && cap_cyclic_zombie(
            final(k)@.slots[slot as int].cap,
            slot,
        ),
        old(k)@.slots[slot as int].cap is NullCap ==> ret.status == exception_t::EXCEPTION_NONE
            && ret.success && ret.cleanupInfo is NullCap && final(k)@ == old(k)@,
        !(old(k)@.slots[slot as int].cap is NullCap) && finalises_at_once(
            old(k)@.slots[slot as int].cap,
            is_final_capability(old(k)@.slots, slot),
        ) ==> ret.status == exception_t::EXCEPTION_NONE && ret.success && ret.cleanupInfo is NullCap
            && final(k)@ == old(k)@.plainly_finalised(
            old(k)@.slots[slot as int].cap,
            is_final_capability(old(k)@.slots, slot),
        ),
    decreases
            (if immediate {
                1nat
            } else {
                0nat
            }),
            1nat,
{
    let ghost touched = false;
    proof {
        lemma_weight_same(k@.slots, k@.slots);
    }
    loop
        invariant
            deletion_step(old(k)@, k@),
            old(k)@.slot_ok(slot),
            finalise_slot_spec(k@, slot, immediate) == finalise_slot_spec(old(k)@, slot, immediate),
            !touched ==> k@ == old(k)@,
            touched ==> !(old(k)@.slots[slot as int].cap is NullCap) && !finalises_at_once(
                old(k)@.slots[slot as int].cap,
                is_final_capability(old(k)@.slots, slot),
            ),
        decreases total_weight(k@.slots),
    {
        let ghost start = k@;
        let cap = k.slots[slot].cap;
        match cap {
            cap_t::NullCap => {
                return finaliseSlot_ret {
                    status: exception_t::EXCEPTION_NONE,
                    success: true,
                    cleanupInfo: cap_t::NullCap,
                };
            },
            _ => {},
        }
        proof {
            assert(slot_inv(k@.slots, k@.tcbs.len(), slot as int));
        }
        let is_final = isFinalCapability(k, slot);
        if !finalisable(k, &cap, is_final) {
            return finaliseSlot_ret {
                status: exception_t::EXCEPTION_FAULT,
                success: false,
                cleanupInfo: cap_t::NullCap,
            };
        }
        let fc_ret = finaliseCap(k, &cap, is_final, false);
        proof {
            lemma_lighter_trans(old(k)@.slots, start.slots, k@.slots);
        }
        if capRemovable(&fc_ret.remainder, slot) {
            return finaliseSlot_ret {
                status: exception_t::EXCEPTION_NONE,
                success: true,
                cleanupInfo: fc_ret.cleanupInfo,
            };
        }
        let ghost before = k@.slots;
        proof {
            touched = true;
            lemma_set_cap_keeps_order(before, k@.tcbs.len(), slot, fc_ret.remainder);
            lemma_weight_one(
                before,
                before.update(slot as int, cte_t { cap: fc_ret.remainder, ..before[slot as int] }),
                slot as int,
            );
        }
        k.slots[slot].cap = fc_ret.remainder;
        proof {
            assert(k@.slots =~= before.update(
                slot as int,
                cte_t { cap: fc_ret.remainder, ..before[slot as int] },
            ));
            assert(lighter_or_same(before, k@.slots)) by {
                if fc_ret.remainder == cap {
                    assert forall|i: int| 0 <= i < before.len() implies (#[trigger] before[i]).cap
                        == k@.slots[i].cap by {}
                }
            }
            lemma_lighter_trans(old(k)@.slots, before, k@.slots);
        }
        if !immediate && capCyclicZombie(&fc_ret.remainder, slot) {
            return finaliseSlot_ret {
                status: exception_t::EXCEPTION_NONE,
                success: false,
                cleanupInfo: fc_ret.cleanupInfo,
            };
        }
        if !immediate {
            let ptr: usize = crate::cap::cap_get_capPtr(&fc_ret.remainder);
            if capCyclicZombie(&k.slots[ptr].cap, ptr) {
                return finaliseSlot_ret {
                    status: exception_t::EXCEPTION_FAULT,
                    success: false,
                    cleanupInfo: cap_t::NullCap,
                };
            }
        }
        let ghost reduced_from = k@.slots;
        let status = reduceZombie(k, slot, immediate);
        proof {
            lemma_lighter_trans(old(k)@.slots, reduced_from, k@.slots);
        }
        if status != exception_t::EXCEPTION_NONE {
            return finaliseSlot_ret { status, success: false, cleanupInfo: cap_t::NullCap };
        }
        let status = preemptionPoint(k);
        if status != exception_t::EXCEPTION_NONE {
            return finaliseSlot_ret { status, success: false, cleanupInfo: cap_t::NullCap };
        }
    }
}

/// Deletes the capability in `slot`.
pub fn cteDelete(k: &mut Kernel, slot: usize, exposed: bool) -> (r: exception_t)
    requires
        old(k).wf(),
        old(k)@.slot_ok(slot),
    ensures
        delete_post(old(k)@, slot, exposed, final(k)@, r),
    decreases
            (if exposed {
                1nat
            } else {
                0nat
            }),
            2nat,
{
    let fs_ret = finaliseSlot(k, slot, exposed);
    if fs_ret.status != exception_t::EXCEPTION_NONE {
        return fs_ret.status;
    }
    if exposed || fs_ret.success {
        let ghost mid = k@.slots;
        emptySlot(k, slot, &fs_ret.cleanupInfo);
        proof {
            lemma_lighter_trans(old(k)@.slots, mid, k@.slots);
        }
    }
    exception_t::EXCEPTION_NONE
}

/// What holds once `cteRevoke` has returned: the kernel is what `revoke_spec`
/// gives. In particular it is in order; if the revocation ends without error
/// the capability in the slot has no child left; and where it had none to
/// begin with, nothing changes.
pub open spec fn revoke_post(old: KernelView, slot: usize, new: KernelView, r: exception_t) -> bool {
    &&& (new, r) == revoke_spec(old, slot)
    &&& deletion_step(old, new)
    &&& (r == exception_t::EXCEPTION_NONE || r == exception_t::EXCEPTION_PREEMTED || r
        == exception_t::EXCEPTION_FAULT)
    &&& (r == exception_t::EXCEPTION_NONE ==> !has_children(new.slots, slot))
    &&& (!has_children(old.slots, slot) ==> r == exception_t::EXCEPTION_NONE && new == old)
}

/// Deletes every child of the capability in `slot`.
pub fn cteRevoke(k: &mut Kernel, slot: usize) -> (r: exception_t)
    requires
        old(k).wf(),
        old(k)@.slot_ok(slot),
    ensures
        revoke_post(old(k)@, slot, final(k)@, r),
{
    let ghost touched = false;
    proof {
        lemma_weight_same(k@.slots, k@.slots);
    }
    loop
        invariant
            deletion_step(old(k)@, k@),
            old(k)@.slot_ok(slot),
            revoke_spec(k@, slot) == revoke_spec(old(k)@, slot),
            !touched ==> k@ == old(k)@,
            touched ==> has_children(old(k)@.slots, slot),
        decreases total_weight(k@.slots),
    {
        let next: usize = k.slots[slot].cteMDBNode.mdbNext;
        proof {
            assert(slot_inv(k@.slots, k@.tcbs.len(), slot as int));
        }
        if next == 0 || !isMDBParentOf(k, slot, next) {
            return exception_t::EXCEPTION_NONE;
        }
        let ghost start = k@.slots;
        proof {
            touched = true;
        }
        let status = cteDelete(k, next, true);
        proof {
            lemma_lighter_trans(old(k)@.slots, start, k@.slots);
        }
        if status != exception_t::EXCEPTION_NONE {
            return status;
        }
        let status = preemptionPoint(k);
        if status != exception_t::EXCEPTION_NONE {
            return status;
        }
    }
}

/// A revocation that follows one that ended without error changes nothing and
/// ends without error.
pub proof fn lemma_revoke_twice(
    k0: KernelView,
    k1: KernelView,
    k2: KernelView,
    slot: usize,
    r1: exception_t,
    r2: exception_t,
)
    requires
        revoke_post(k0, slot, k1, r1),
        revoke_post(k1, slot, k2, r2),
        r1 == exception_t::EXCEPTION_NONE,
    ensures
        r2 == exception_t::EXCEPTION_NONE,
        k2 == k1,
{
}

} // verus!
