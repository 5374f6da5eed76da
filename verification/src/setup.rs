//! Making a kernel to start from: empty slot memory, thread memory in which
//! no thread is queued, and empty ready queues.

use vstd::prelude::*;
use crate::cap::cap_t;
use crate::config::{
    maxIRQ, CONFIG_MAX_NUM_WORK_UNITS_PER_PREEMPTION, CONFIG_NUM_DOMAINS, CONFIG_NUM_PRIORITIES,
    L2_BITMAP_SIZE, NUM_READY_QUEUES, SchedulerAction_ResumeCurrentThread, ThreadStateInactive,
};
use crate::kernel::{mdb_ranked, request_t, slot_inv, Kernel, KernelView};
use crate::structures::{
    arch_tcb_t, cte_t, dschedule_t, extra_caps_t, lookup_fault_t, mdb_node_t, seL4_Fault_t,
    syscall_error_t, tcb_queue_t, tcb_t, thread_state_t, TcbView,
};
use crate::thread::lemma_zero_no_bit;

verus! {

/// The thread control block with every field 0: an inactive thread in no
/// queue.
pub open spec fn blank_thread() -> TcbView {
    TcbView {
        registers: Seq::new(35, |i: int| 0usize),
        tcbState: thread_state_t {
            blockingIPCBadge: 0,
            blockingObject: 0,
            tcbQueued: false,
            tsType: ThreadStateInactive,
        },
        tcbBoundNotification: 0,
        fault: Seq::new(2, |i: int| 0usize),
        tcbLookupFailure: lookup_fault_t::NoFault,
        domain: 0,
        tcbMCP: 0,
        tcbPriority: 0,
        tcbTimeSlice: 0,
        tcbFaultHandler: 0,
        tcbIPCBuffer: 0,
        tcbSchedNext: 0,
        tcbSchedPrev: 0,
        tcbEPNext: 0,
        tcbEPPrev: 0,
    }
}

/// A thread control block with every field 0.
pub fn blank_tcb() -> (r: tcb_t)
    ensures
        r@ == blank_thread(),
{
    let r = tcb_t {
        tcbArch: arch_tcb_t { registers: [0usize; 35] },
        tcbState: thread_state_t {
            blockingIPCBadge: 0,
            blockingObject: 0,
            tcbQueued: false,
            tsType: ThreadStateInactive,
        },
        tcbBoundNotification: 0,
        seL4_Fault_t: seL4_Fault_t { words: [0usize; 2] },
        tcbLookupFailure: lookup_fault_t::NoFault,
        domain: 0,
        tcbMCP: 0,
        tcbPriority: 0,
        tcbTimeSlice: 0,
        tcbFaultHandler: 0,
        tcbIPCBuffer: 0,
        tcbSchedNext: 0,
        tcbSchedPrev: 0,
        tcbEPNext: 0,
        tcbEPPrev: 0,
    };
    proof {
        assert(r@.registers =~= blank_thread().registers);
        assert(r@.fault =~= blank_thread().fault);
    }
    r
}

impl Kernel {
    /// A kernel with `n_slots` empty slots and `n_tcbs` blank thread control
    /// blocks, in which nothing is queued, nothing has been asked of the
    /// collaborators and no interrupt is pending. The slots from `irq_node`
    /// on hold the notifications of the interrupt handlers. The domain
    /// schedule has the one entry given.
    pub fn new(n_slots: usize, n_tcbs: usize, irq_node: usize, schedule: dschedule_t) -> (k: Kernel)
        requires
            1 <= irq_node,
            irq_node + maxIRQ < n_slots,
        ensures
            k.wf(),
            k@.slots.len() == n_slots,
            k@.tcbs.len() == n_tcbs,
            forall|i: int| 0 <= i < n_slots ==> #[trigger] k@.slots[i] == cte_t::empty(),
            forall|t: int| 0 <= t < n_tcbs ==> #[trigger] k@.tcbs[t] == blank_thread(),
            k@.intStateIRQNode == irq_node,
            k@.ksDomSchedule == seq![schedule],
            k@.ksDomScheduleIdx == 0,
            k@.ksCurDomain == 0,
            k@.ksCurThread == 0,
            k@.ksIdleThread == 0,
            k@.ksSchedulerAction == SchedulerAction_ResumeCurrentThread,
            k@.ksWorkUnitsCompleted == 0,
            k@.ksMaxWorkUnits == CONFIG_MAX_NUM_WORK_UNITS_PER_PREEMPTION,
            !k@.irq_pending,
            k@.requests == Seq::<request_t>::empty(),
            k@.current_lookup_fault == lookup_fault_t::NoFault,
            k@.current_syscall_error == (syscall_error_t {
                invalidArgumentNumber: 0,
                invalidCapNumber: 0,
                rangeErrorMin: 0,
                rangeErrorMax: 0,
                memoryLeft: 0,
                failedLookupWasSource: 0,
                _type: 0,
            }),
            forall|i: int| 0 <= i < 3 ==> #[trigger] k@.current_extra_caps.excaprefs@[i] == 0,
            k@.ksDomainTime == 0,
    {
        let mut slots: Vec<cte_t> = Vec::new();
        let mut i: usize = 0;
        while i < n_slots
            invariant
                i <= n_slots,
                slots@.len() == i,
                forall|j: int| 0 <= j < i ==> #[trigger] slots@[j] == cte_t::empty(),
            decreases n_slots - i,
        {
            slots.push(cte_t::default());
            i = i + 1;
        }
        let mut tcbs: Vec<tcb_t> = Vec::new();
        let mut t: usize = 0;
        while t < n_tcbs
            invariant
                t <= n_tcbs,
                tcbs@.len() == t,
                forall|j: int| 0 <= j < t ==> (#[trigger] tcbs@[j])@ == blank_thread(),
            decreases n_tcbs - t,
        {
            tcbs.push(blank_tcb());
            t = t + 1;
        }
        let mut queues: Vec<tcb_queue_t> = Vec::new();
        let mut q: usize = 0;
        while q < NUM_READY_QUEUES
            invariant
                q <= NUM_READY_QUEUES,
                queues@.len() == q,
                forall|j: int| 0 <= j < q ==> #[trigger] queues@[j] == (tcb_queue_t { head: 0, tail: 0 }),
            decreases NUM_READY_QUEUES - q,
        {
            queues.push(tcb_queue_t { head: 0, tail: 0 });
            q = q + 1;
        }
        let mut l1: Vec<u64> = Vec::new();
        l1.push(0);
        let mut l2: Vec<u64> = Vec::new();
        l2.push(0);
        l2.push(0);
        l2.push(0);
        l2.push(0);
        let mut sched: Vec<dschedule_t> = Vec::new();
        sched.push(schedule);
        let k = Kernel {
            slots,
            tcbs,
            ksReadyQueues: queues,
            ksReadyQueuesL1Bitmap: l1,
            ksReadyQueuesL2Bitmap: l2,
            ksDomSchedule: sched,
            ksDomScheduleIdx: 0,
            ksCurDomain: 0,
            ksDomainTime: 0,
            ksCurThread: 0,
            ksIdleThread: 0,
            ksSchedulerAction: SchedulerAction_ResumeCurrentThread,
            ksWorkUnitsCompleted: 0,
            ksMaxWorkUnits: CONFIG_MAX_NUM_WORK_UNITS_PER_PREEMPTION,
            current_syscall_error: syscall_error_t {
                invalidArgumentNumber: 0,
                invalidCapNumber: 0,
                rangeErrorMin: 0,
                rangeErrorMax: 0,
                memoryLeft: 0,
                failedLookupWasSource: 0,
                _type: 0,
            },
            current_lookup_fault: lookup_fault_t::NoFault,
            current_extra_caps: extra_caps_t { excaprefs: [0usize; 3] },
            irq_pending: false,
            intStateIRQNode: irq_node,
            requests: Vec::new(),
        };
        proof {
            let v = k@;
            assert forall|j: int| 0 <= j < v.slots.len() implies #[trigger] slot_inv(
                v.slots,
                v.tcbs.len(),
                j,
            ) by {
                assert(v.slots[j] == cte_t::empty());
            }
            let rank = Seq::new(v.slots.len(), |j: int| 0int);
            assert forall|j: int| 0 <= j < v.slots.len() && (#[trigger] v.slots[j]).cteMDBNode.mdbNext
                != 0 implies rank[j] < rank[v.slots[j].cteMDBNode.mdbNext as int] by {
                assert(v.slots[j] == cte_t::empty());
            }
            assert(mdb_ranked(v.slots, rank));
            let s = v.sched();
            lemma_zero_no_bit(0u64);
            assert forall|x: int| 2 <= x < s.tcbs.len() implies #[trigger] s.tcb_inv(x) by {
                let y = k.tcbs@[x];
            }
            assert forall|x: int| 0 <= x < NUM_READY_QUEUES implies #[trigger] s.queue_inv(x) by {
                let y = k.ksReadyQueues@[x];
            }
            assert forall|dom: usize, prio: usize|
                dom < CONFIG_NUM_DOMAINS && prio < CONFIG_NUM_PRIORITIES implies (#[trigger] s.l2_bit(
                dom,
                prio,
            ) <==> !s.queue_empty(dom, prio)) by {
                let y = k.ksReadyQueues@[crate::kernel::queue_index(dom, prio)];
                assert(!crate::kernel::bit_set(0u64, (prio % 64) as usize));
            }
            assert forall|dom: usize, b: usize| dom < CONFIG_NUM_DOMAINS && b < 64 implies (
            #[trigger] s.l1_bit(dom, b) <==> b < L2_BITMAP_SIZE && s.ksReadyQueuesL2Bitmap[dom
                * L2_BITMAP_SIZE + (L2_BITMAP_SIZE - 1 - b)] != 0) by {
                assert(!crate::kernel::bit_set(0u64, b));
            }
            assert forall|t: int| 0 <= t < n_tcbs implies #[trigger] k@.tcbs[t] == blank_thread() by {
                let y = k.tcbs@[t];
            }
            assert(k@.ksDomSchedule =~= seq![schedule]);
        }
        k
    }
}

} // verus!
