//! The kernel's state as one aggregate, and what holds of it between
//! operations.
//!
//! Slot memory and thread memory are two arenas. A slot reference is an index
//! into the first, a thread reference an index into the second; 0 is no
//! reference, and the thread references 0 and 1 double as the scheduler's two
//! sentinels. The capability slots of thread `t` are the first five slots from
//! slot `32 * t` on.

use vstd::prelude::*;
use crate::cap::{cap_t, low_mask};
use crate::config::{
    maxIRQ, tcbCNodeEntries, CONFIG_NUM_DOMAINS, CONFIG_NUM_PRIORITIES, L2_BITMAP_SIZE,
    NUM_READY_QUEUES, TCB_SLOT_SPAN,
};
use crate::structures::{
    cte_t, dschedule_t, extra_caps_t, lookup_fault_t, mdb_node_t, syscall_error_t, tcb_queue_t,
    tcb_t, TcbView,
};

verus! {

/// A call that the core asks one of its collaborators to make: the code that
/// owns endpoints and notifications, the address spaces or the interrupt
/// controller. The core records the calls in order and never makes them.
#[derive(Clone, Copy, Debug, PartialEq, Eq, Structural)]
pub enum request_t {
    CancelAllIPC { ep_ptr: usize },
    CancelAllSignals { ntfn_ptr: usize },
    UnbindMaybeNotification { ntfn_ptr: usize },
    UnbindNotification { tcb: usize },
    CancelBadgedSends { ep_ptr: usize, badge: u64 },
    UnmapPage { size: usize, asid: usize, vptr: usize, pptr: usize },
    UnmapPageTable { asid: usize, vptr: usize, pt: usize },
    DeleteASIDPool { asid_base: usize, pool: usize },
    SetIRQState { state: usize, irq: usize },
    SetVMRoot { tcb: usize },
    CopyGlobalMappings { vspace: usize },
    MapFrame { vspace: usize, frame: usize, vptr: usize },
    MapPageTable { vspace: usize, pt: usize, vptr: usize },
    ClearMemory { ptr: usize, bits: usize },
    WriteASIDPool { pool: usize, asid: usize, vspace: usize },
}

/// The kernel.
pub struct Kernel {
    /// Slot memory. Slot 0 is never used.
    pub slots: Vec<cte_t>,
    /// Thread memory. Threads 0 and 1 are never used.
    pub tcbs: Vec<tcb_t>,
    pub ksReadyQueues: Vec<tcb_queue_t>,
    pub ksReadyQueuesL1Bitmap: Vec<u64>,
    pub ksReadyQueuesL2Bitmap: Vec<u64>,
    pub ksDomSchedule: Vec<dschedule_t>,
    pub ksDomScheduleIdx: usize,
    pub ksCurDomain: usize,
    pub ksDomainTime: usize,
    pub ksCurThread: usize,
    pub ksIdleThread: usize,
    pub ksSchedulerAction: usize,
    pub ksWorkUnitsCompleted: usize,
    /// The number of work units after which a preemption point polls for an
    /// interrupt.
    pub ksMaxWorkUnits: usize,
    pub current_syscall_error: syscall_error_t,
    pub current_lookup_fault: lookup_fault_t,
    pub current_extra_caps: extra_caps_t,
    /// Whether the interrupt controller has an interrupt pending.
    pub irq_pending: bool,
    /// The slot reference of the first of the slots that hold the interrupt
    /// handlers' notifications, one per interrupt.
    pub intStateIRQNode: usize,
    /// The calls asked of the collaborators so far, oldest first.
    pub requests: Vec<request_t>,
}

/// The kernel as a mathematical value.
pub struct KernelView {
    pub slots: Seq<cte_t>,
    pub tcbs: Seq<TcbView>,
    pub ksReadyQueues: Seq<tcb_queue_t>,
    pub ksReadyQueuesL1Bitmap: Seq<u64>,
    pub ksReadyQueuesL2Bitmap: Seq<u64>,
    pub ksDomSchedule: Seq<dschedule_t>,
    pub ksDomScheduleIdx: usize,
    pub ksCurDomain: usize,
    pub ksDomainTime: usize,
    pub ksCurThread: usize,
    pub ksIdleThread: usize,
    pub ksSchedulerAction: usize,
    pub ksWorkUnitsCompleted: usize,
    pub ksMaxWorkUnits: usize,
    pub current_syscall_error: syscall_error_t,
    pub current_lookup_fault: lookup_fault_t,
    pub current_extra_caps: extra_caps_t,
    pub irq_pending: bool,
    pub intStateIRQNode: usize,
    pub requests: Seq<request_t>,
}

impl View for Kernel {
    type V = KernelView;

    open spec fn view(&self) -> KernelView {
        KernelView {
            slots: self.slots@,
            tcbs: Seq::new(self.tcbs@.len(), |i: int| self.tcbs@[i]@),
            ksReadyQueues: self.ksReadyQueues@,
            ksReadyQueuesL1Bitmap: self.ksReadyQueuesL1Bitmap@,
            ksReadyQueuesL2Bitmap: self.ksReadyQueuesL2Bitmap@,
            ksDomSchedule: self.ksDomSchedule@,
            ksDomScheduleIdx: self.ksDomScheduleIdx,
            ksCurDomain: self.ksCurDomain,
            ksDomainTime: self.ksDomainTime,
            ksCurThread: self.ksCurThread,
            ksIdleThread: self.ksIdleThread,
            ksSchedulerAction: self.ksSchedulerAction,
            ksWorkUnitsCompleted: self.ksWorkUnitsCompleted,
            ksMaxWorkUnits: self.ksMaxWorkUnits,
            current_syscall_error: self.current_syscall_error,
            current_lookup_fault: self.current_lookup_fault,
            current_extra_caps: self.current_extra_caps,
            irq_pending: self.irq_pending,
            intStateIRQNode: self.intStateIRQNode,
            requests: self.requests@,
        }
    }
}

/// Whether `t` refers to a thread in a thread memory of `ntcbs` blocks backed
/// by `nslots` slots.
pub open spec fn tcb_ref_ok(t: usize, ntcbs: nat, nslots: nat) -> bool {
    2 <= t < ntcbs && t * TCB_SLOT_SPAN + tcbCNodeEntries <= nslots
}

/// Whether a capability fits the two arenas: a CNode and what is left of a
/// zombie lie inside slot memory and clear of slot 0, and a thread capability
/// refers to a thread.
pub open spec fn cap_ok(cap: cap_t, nslots: nat, ntcbs: nat) -> bool {
    cap.wf() && match cap {
        cap_t::CNodeCap { capCNodePtr, capCNodeRadix, .. } => 1 <= capCNodePtr && capCNodePtr
            + low_mask(capCNodeRadix) < nslots,
        cap_t::ZombieCap { capZombiePtr, capZombieNumber, .. } => 1 <= capZombiePtr && capZombiePtr
            + capZombieNumber <= nslots,
        cap_t::ThreadCap { capTCBPtr } => tcb_ref_ok(capTCBPtr, ntcbs, nslots),
        cap_t::IrqHandlerCap { capIRQ } => capIRQ <= maxIRQ,
        _ => true,
    }
}

/// What holds of slot `i` among `slots`: its capability fits the arenas, its
/// two links stay inside slot memory and each neighbour links back to it, and
/// an empty slot stands in no list.
pub open spec fn slot_inv(slots: Seq<cte_t>, ntcbs: nat, i: int) -> bool {
    let m = slots[i].cteMDBNode;
    &&& cap_ok(slots[i].cap, slots.len(), ntcbs)
    &&& m.mdbNext < slots.len()
    &&& m.mdbPrev < slots.len()
    &&& (m.mdbNext != 0 ==> slots[m.mdbNext as int].cteMDBNode.mdbPrev == i)
    &&& (m.mdbPrev != 0 ==> slots[m.mdbPrev as int].cteMDBNode.mdbNext == i)
    &&& (slots[i].cap is NullCap ==> m == mdb_node_t::null())
}

/// Whether `rank` orders the derivation list: it gives every slot a number,
/// and a slot's successor a greater one than the slot.
pub open spec fn mdb_ranked(slots: Seq<cte_t>, rank: Seq<int>) -> bool {
    &&& rank.len() == slots.len()
    &&& forall|i: int|
        0 <= i < slots.len() && (#[trigger] slots[i]).cteMDBNode.mdbNext != 0 ==> rank[i]
            < rank[slots[i].cteMDBNode.mdbNext as int]
}

/// The derivation list has no cycle: some numbering orders it.
pub open spec fn mdb_acyclic(slots: Seq<cte_t>) -> bool {
    exists|rank: Seq<int>| mdb_ranked(slots, rank)
}

/// Slot memory is in order: slot 0 is empty, `slot_inv` holds of every slot,
/// and the derivation list has no cycle.
pub open spec fn slots_wf(slots: Seq<cte_t>, ntcbs: nat) -> bool {
    &&& slots.len() >= 1
    &&& slots[0] == cte_t::empty()
    &&& forall|i: int| 0 <= i < slots.len() ==> #[trigger] slot_inv(slots, ntcbs, i)
    &&& mdb_acyclic(slots)
}

/// The index of the ready queue of a domain and a priority.
pub open spec fn queue_index(dom: usize, prio: usize) -> int {
    dom * CONFIG_NUM_PRIORITIES + prio
}

/// The index of the second-level bitmap word of a domain and a priority.
pub open spec fn l2_index(dom: usize, prio: usize) -> int {
    dom * L2_BITMAP_SIZE + (L2_BITMAP_SIZE - 1 - prio / 64)
}

/// Whether bit `b` of `w` is set.
pub open spec fn bit_set(w: u64, b: usize) -> bool {
    (w >> (b as u64)) & 1 == 1
}

/// The part of the kernel's state that the scheduler's order speaks of.
pub struct SchedView {
    pub tcbs: Seq<TcbView>,
    pub ksReadyQueues: Seq<tcb_queue_t>,
    pub ksReadyQueuesL1Bitmap: Seq<u64>,
    pub ksReadyQueuesL2Bitmap: Seq<u64>,
    pub ksCurDomain: usize,
    pub ksSchedulerAction: usize,
}

impl SchedView {
    /// The ready queue that thread `t` belongs in.
    pub open spec fn queue_of(self, t: int) -> int {
        queue_index(self.tcbs[t].domain, self.tcbs[t].tcbPriority)
    }

    /// What holds of thread `t`: its domain and priority exist; if it is
    /// queued, each of its two neighbours is a queued thread of the same queue
    /// that links back to it, and where it has none it is the queue's head or
    /// tail; if it is not queued, it has no neighbour.
    pub open spec fn tcb_inv(self, t: int) -> bool {
        let tcb = self.tcbs[t];
        let q = self.ksReadyQueues[self.queue_of(t)];
        &&& tcb.domain < CONFIG_NUM_DOMAINS
        &&& tcb.tcbPriority < CONFIG_NUM_PRIORITIES
        &&& (tcb.tcbState.tcbQueued ==> {
            &&& (if tcb.tcbSchedPrev == 0 {
                q.head == t
            } else {
                &&& 2 <= tcb.tcbSchedPrev < self.tcbs.len()
                &&& self.tcbs[tcb.tcbSchedPrev as int].tcbState.tcbQueued
                &&& self.tcbs[tcb.tcbSchedPrev as int].tcbSchedNext == t
                &&& self.queue_of(tcb.tcbSchedPrev as int) == self.queue_of(t)
            })
            &&& (if tcb.tcbSchedNext == 0 {
                q.tail == t
            } else {
                &&& 2 <= tcb.tcbSchedNext < self.tcbs.len()
                &&& self.tcbs[tcb.tcbSchedNext as int].tcbState.tcbQueued
                &&& self.tcbs[tcb.tcbSchedNext as int].tcbSchedPrev == t
                &&& self.queue_of(tcb.tcbSchedNext as int) == self.queue_of(t)
            })
        })
        &&& (!tcb.tcbState.tcbQueued ==> tcb.tcbSchedPrev == 0 && tcb.tcbSchedNext == 0)
    }

    /// What holds of ready queue `q`: it has a head exactly if it has a tail;
    /// its head is a queued thread of this queue without a predecessor, its
    /// tail one without a successor.
    pub open spec fn queue_inv(self, q: int) -> bool {
        let queue = self.ksReadyQueues[q];
        &&& (queue.head == 0 <==> queue.tail == 0)
        &&& (queue.head != 0 ==> {
            &&& 2 <= queue.head < self.tcbs.len()
            &&& self.tcbs[queue.head as int].tcbState.tcbQueued
            &&& self.tcbs[queue.head as int].tcbSchedPrev == 0
            &&& self.queue_of(queue.head as int) == q
        })
        &&& (queue.tail != 0 ==> {
            &&& 2 <= queue.tail < self.tcbs.len()
            &&& self.tcbs[queue.tail as int].tcbState.tcbQueued
            &&& self.tcbs[queue.tail as int].tcbSchedNext == 0
            &&& self.queue_of(queue.tail as int) == q
        })
    }

    /// Whether the ready queue of a domain and a priority is empty.
    pub open spec fn queue_empty(self, dom: usize, prio: usize) -> bool {
        self.ksReadyQueues[queue_index(dom, prio)].head == 0
    }

    /// The second-level bit of a domain and a priority.
    pub open spec fn l2_bit(self, dom: usize, prio: usize) -> bool {
        bit_set(self.ksReadyQueuesL2Bitmap[l2_index(dom, prio)], (prio % 64) as usize)
    }

    /// The first-level bit `i` of a domain.
    pub open spec fn l1_bit(self, dom: usize, i: usize) -> bool {
        bit_set(self.ksReadyQueuesL1Bitmap[dom as int], i)
    }

    /// The two bitmaps say which queues hold a thread: the second-level bit
    /// of a priority is set exactly if its queue is not empty, and a
    /// first-level bit is set exactly if its second-level word is not zero.
    pub open spec fn bitmap_inv(self) -> bool {
        &&& forall|dom: usize, prio: usize|
            dom < CONFIG_NUM_DOMAINS && prio < CONFIG_NUM_PRIORITIES ==> (#[trigger] self.l2_bit(
                dom,
                prio,
            ) <==> !self.queue_empty(dom, prio))
        &&& forall|dom: usize, i: usize|
            dom < CONFIG_NUM_DOMAINS && i < 64 ==> (#[trigger] self.l1_bit(dom, i) <==> i
                < L2_BITMAP_SIZE && self.ksReadyQueuesL2Bitmap[dom * L2_BITMAP_SIZE + (
            L2_BITMAP_SIZE - 1 - i)] != 0)
    }

    /// The scheduler's state is in order.
    pub open spec fn wf(self) -> bool {
        &&& self.ksReadyQueues.len() == NUM_READY_QUEUES
        &&& self.ksReadyQueuesL1Bitmap.len() == CONFIG_NUM_DOMAINS
        &&& self.ksReadyQueuesL2Bitmap.len() == CONFIG_NUM_DOMAINS * L2_BITMAP_SIZE
        &&& forall|t: int| 2 <= t < self.tcbs.len() ==> #[trigger] self.tcb_inv(t)
        &&& forall|q: int| 0 <= q < NUM_READY_QUEUES ==> #[trigger] self.queue_inv(q)
        &&& self.bitmap_inv()
        &&& self.ksCurDomain < CONFIG_NUM_DOMAINS
        &&& (self.ksSchedulerAction >= 2 ==> self.ksSchedulerAction < self.tcbs.len())
    }
}

impl KernelView {
    pub open spec fn tcb_ok(self, t: usize) -> bool {
        tcb_ref_ok(t, self.tcbs.len(), self.slots.len())
    }

    pub open spec fn slot_ok(self, s: usize) -> bool {
        1 <= s < self.slots.len()
    }

    /// The scheduler's part of the state.
    pub open spec fn sched(self) -> SchedView {
        SchedView {
            tcbs: self.tcbs,
            ksReadyQueues: self.ksReadyQueues,
            ksReadyQueuesL1Bitmap: self.ksReadyQueuesL1Bitmap,
            ksReadyQueuesL2Bitmap: self.ksReadyQueuesL2Bitmap,
            ksCurDomain: self.ksCurDomain,
            ksSchedulerAction: self.ksSchedulerAction,
        }
    }

    /// The references of the extra capabilities stay inside slot memory.
    pub open spec fn extra_caps_ok(self) -> bool {
        forall|i: int|
            0 <= i < 3 ==> (#[trigger] self.current_extra_caps.excaprefs@[i]) < self.slots.len()
    }

    /// The kernel's state is in order.
    pub open spec fn wf(self) -> bool {
        &&& slots_wf(self.slots, self.tcbs.len())
        &&& self.slots.len() <= usize::MAX
        &&& self.tcbs.len() <= usize::MAX
        &&& self.ksWorkUnitsCompleted < usize::MAX
        &&& self.sched().wf()
        &&& 1 <= self.intStateIRQNode
        &&& self.intStateIRQNode + maxIRQ < self.slots.len()
    }
}

impl Kernel {
    pub open spec fn wf(&self) -> bool {
        self@.wf()
    }
}

/// The slot reference of capability slot `i` of thread `t`.
pub open spec fn tcb_cspace(t: usize, i: usize) -> int {
    t * TCB_SLOT_SPAN + i
}

/// The slot reference of capability slot `i` of thread `ptr`.
pub fn getCSpace(ptr: usize, i: usize) -> (r: usize)
    requires
        tcb_cspace(ptr, i) <= usize::MAX,
    ensures
        r == tcb_cspace(ptr, i),
{
    ptr * TCB_SLOT_SPAN + i
}

} // verus!
