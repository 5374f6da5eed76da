//! Threads and the scheduler: thread states, the ready queues with their
//! two-level bitmap, and the choice of the thread to run.

use vstd::prelude::*;
use vstd::arithmetic::power2::{lemma2_to64, pow2};
use vstd::bits::{lemma_usize_shl_is_mul, lemma_usize_shr_is_div};
use vstd::std_specs::bits::{axiom_u64_leading_zeros, u64_leading_zeros};
use crate::config::{
    wordBits, wordRadix, SchedulerAction_ChooseNewThread, SchedulerAction_ResumeCurrentThread,
    ThreadStateBlockedOnNotification, ThreadStateBlockedOnReceive, ThreadStateBlockedOnReply,
    ThreadStateBlockedOnSend, ThreadStateIdleThreadState, ThreadStateInactive, ThreadStateRestart,
    ThreadStateRunning, CONFIG_KERNEL_STACK_BITS, CONFIG_NUM_DOMAINS, CONFIG_NUM_PRIORITIES,
    L2_BITMAP_SIZE, NUM_READY_QUEUES, SSTATUS_SPIE, SSTATUS_SPP,
};
use crate::kernel::{
    bit_set, l2_index, queue_index, request_t, Kernel, KernelView, SchedView,
};
use crate::structures::{arch_tcb_t, tcb_queue_t, thread_state_t, TcbView};

verus! {

pub const ra: usize = 0;
pub const sp: usize = 1;
pub const capRegister: usize = 9;
pub const badgeRegister: usize = 9;
pub const SCAUSE: usize = 31;
pub const SSTATUS: usize = 32;
pub const FaultIP: usize = 33;
pub const NextIP: usize = 34;
pub const n_contextRegisters: usize = 35;

/// Whether a thread state is one in which a thread does not run and is not
/// about to: inactive or blocked.
pub open spec fn state_stopped(ts: usize) -> bool {
    ts == ThreadStateInactive || ts == ThreadStateBlockedOnNotification || ts
        == ThreadStateBlockedOnReceive || ts == ThreadStateBlockedOnReply || ts
        == ThreadStateBlockedOnSend
}

/// Whether a thread state is one in which a thread can be chosen to run.
pub open spec fn state_runnable(ts: usize) -> bool {
    ts == ThreadStateRunning || ts == ThreadStateRestart
}

impl KernelView {
    /// Whether `thread` is no thread at all or a thread that is stopped.
    pub open spec fn is_stopped(self, thread: usize) -> bool {
        thread < 2 || state_stopped(self.tcbs[thread as int].tcbState.tsType)
    }

    /// Whether `thread` is a thread that can be chosen to run.
    pub open spec fn is_runnable(self, thread: usize) -> bool {
        thread >= 2 && state_runnable(self.tcbs[thread as int].tcbState.tsType)
    }
}

/// Whether a thread is stopped.
pub fn isStopped(k: &Kernel, thread: usize) -> (r: bool)
    requires
        thread < 2 || thread < k@.tcbs.len(),
    ensures
        r == k@.is_stopped(thread),
{
    if thread == 0 || thread == 1 {
        return true;
    }
    let ts: usize = k.tcbs[thread].tcbState.tsType;
    ts == ThreadStateInactive || ts == ThreadStateBlockedOnNotification || ts
        == ThreadStateBlockedOnReceive || ts == ThreadStateBlockedOnReply || ts
        == ThreadStateBlockedOnSend
}

/// Whether a thread can be chosen to run.
pub fn isRunnable(k: &Kernel, thread: usize) -> (r: bool)
    requires
        thread < 2 || thread < k@.tcbs.len(),
    ensures
        r == k@.is_runnable(thread),
{
    if thread == 0 || thread == 1 {
        return false;
    }
    let ts: usize = k.tcbs[thread].tcbState.tsType;
    ts == ThreadStateRunning || ts == ThreadStateRestart
}

/// Thread memory with register `reg` of thread `thread` set to `w`.
pub open spec fn with_register(tcbs: Seq<TcbView>, thread: usize, reg: usize, w: usize) -> Seq<TcbView> {
    tcbs.update(
        thread as int,
        TcbView { registers: tcbs[thread as int].registers.update(reg as int, w), ..tcbs[thread as int] },
    )
}

/// Whether two thread control blocks agree in all that the scheduler's order
/// speaks of.
pub open spec fn sched_same(a: TcbView, b: TcbView) -> bool {
    &&& a.tcbState.tcbQueued == b.tcbState.tcbQueued
    &&& a.domain == b.domain
    &&& a.tcbPriority == b.tcbPriority
    &&& a.tcbSchedNext == b.tcbSchedNext
    &&& a.tcbSchedPrev == b.tcbSchedPrev
}

/// The scheduler's order depends on thread memory only through the queued
/// flag, the domain, the priority and the two queue links of each thread.
pub proof fn lemma_sched_frame(old: SchedView, new: SchedView)
    requires
        old.wf(),
        new.tcbs.len() == old.tcbs.len(),
        forall|t: int| 0 <= t < old.tcbs.len() ==> sched_same(#[trigger] new.tcbs[t], old.tcbs[t]),
        new.ksReadyQueues == old.ksReadyQueues,
        new.ksReadyQueuesL1Bitmap == old.ksReadyQueuesL1Bitmap,
        new.ksReadyQueuesL2Bitmap == old.ksReadyQueuesL2Bitmap,
        new.ksCurDomain == old.ksCurDomain,
        new.ksSchedulerAction >= 2 ==> new.ksSchedulerAction < new.tcbs.len(),
    ensures
        new.wf(),
{
    assert forall|t: int| 2 <= t < new.tcbs.len() implies #[trigger] new.tcb_inv(t) by {
        assert(old.tcb_inv(t));
        let x = new.tcbs[t];
        if old.tcbs[t].tcbSchedPrev != 0 {
            let y = new.tcbs[old.tcbs[t].tcbSchedPrev as int];
        }
        if old.tcbs[t].tcbSchedNext != 0 {
            let y = new.tcbs[old.tcbs[t].tcbSchedNext as int];
        }
    }
    assert forall|q: int| 0 <= q < NUM_READY_QUEUES implies #[trigger] new.queue_inv(q) by {
        assert(old.queue_inv(q));
        let x = new.tcbs[old.ksReadyQueues[q].head as int];
        let y = new.tcbs[old.ksReadyQueues[q].tail as int];
    }
    assert forall|dom: usize, prio: usize|
        dom < CONFIG_NUM_DOMAINS && prio < CONFIG_NUM_PRIORITIES implies (#[trigger] new.l2_bit(dom, prio)
        <==> !new.queue_empty(dom, prio)) by {
        assert(old.l2_bit(dom, prio) <==> !old.queue_empty(dom, prio));
    }
    assert forall|dom: usize, i: usize| dom < CONFIG_NUM_DOMAINS && i < 64 implies (#[trigger] new.l1_bit(
        dom,
        i,
    ) <==> i < L2_BITMAP_SIZE && new.ksReadyQueuesL2Bitmap[dom * L2_BITMAP_SIZE + (L2_BITMAP_SIZE - 1
        - i)] != 0) by {
        assert(old.l1_bit(dom, i) <==> i < L2_BITMAP_SIZE && old.ksReadyQueuesL2Bitmap[dom
            * L2_BITMAP_SIZE + (L2_BITMAP_SIZE - 1 - i)] != 0);
    }
}

/// Sets a register of a thread.
pub fn setRegister(k: &mut Kernel, thread: usize, reg: usize, w: usize)
    requires
        thread < old(k)@.tcbs.len(),
        reg < n_contextRegisters,
    ensures
        final(k)@ == (KernelView { tcbs: with_register(old(k)@.tcbs, thread, reg, w), ..old(k)@ }),
        old(k).wf() ==> final(k).wf(),
{
    k.tcbs[thread].tcbArch.registers[reg] = w;
    proof {
        assert(k@.tcbs =~= with_register(old(k)@.tcbs, thread, reg, w));
        if old(k).wf() {
            lemma_sched_frame(old(k)@.sched(), k@.sched());
        }
    }
}

/// Reads a register of a thread.
pub fn getRegister(k: &Kernel, thread: usize, reg: usize) -> (r: usize)
    requires
        thread < k@.tcbs.len(),
        reg < n_contextRegisters,
    ensures
        r == k@.tcbs[thread as int].registers[reg as int],
{
    k.tcbs[thread].tcbArch.registers[reg]
}

/// The index of the ready queue of a domain and a priority.
pub fn ready_queues_index(dom: usize, prio: usize) -> (r: usize)
    requires
        queue_index(dom, prio) <= usize::MAX,
    ensures
        r == queue_index(dom, prio),
{
    dom * CONFIG_NUM_PRIORITIES + prio
}

/// The first-level bit of a priority.
pub fn prio_to_l1index(prio: usize) -> (r: usize)
    ensures
        r == prio / 64,
{
    proof {
        lemma_usize_shr_is_div(prio, wordRadix);
        lemma2_to64();
    }
    prio >> wordRadix
}

/// The lowest priority of a first-level bit.
pub fn l1index_to_prio(l1index: usize) -> (r: usize)
    requires
        l1index * 64 <= usize::MAX,
    ensures
        r == l1index * 64,
{
    proof {
        lemma2_to64();
        lemma_usize_shl_is_mul(l1index, wordRadix);
    }
    l1index << wordRadix
}

/// The second-level word of a first-level bit: the words stand in reverse
/// order.
pub fn invert_l1index(l1index: usize) -> (r: usize)
    requires
        l1index < L2_BITMAP_SIZE,
    ensures
        r == L2_BITMAP_SIZE - 1 - l1index,
{
    let inverted: usize = L2_BITMAP_SIZE - 1 - l1index;
    inverted
}

/// Setting bit `b` of a word sets that bit and no other.
pub proof fn lemma_bit_or(w: u64, b: usize, i: usize)
    requires
        b < 64,
        i < 64,
    ensures
        bit_set(w | (1u64 << (b as u64)), i) == (i == b || bit_set(w, i)),
        w | (1u64 << (b as u64)) != 0,
{
    let bb = b as u64;
    let ii = i as u64;
    assert((((w | (1u64 << bb)) >> ii) & 1 == 1) == (ii == bb || (w >> ii) & 1 == 1)) by (bit_vector)
        requires
            bb < 64,
            ii < 64,
    ;
    assert(w | (1u64 << bb) != 0) by (bit_vector)
        requires
            bb < 64,
    ;
}

/// Clearing bit `b` of a word clears that bit and no other.
pub proof fn lemma_bit_clear(w: u64, b: usize, i: usize)
    requires
        b < 64,
        i < 64,
    ensures
        bit_set(w & !(1u64 << (b as u64)), i) == (i != b && bit_set(w, i)),
{
    let bb = b as u64;
    let ii = i as u64;
    assert((((w & !(1u64 << bb)) >> ii) & 1 == 1) == (ii != bb && (w >> ii) & 1 == 1)) by (bit_vector)
        requires
            bb < 64,
            ii < 64,
    ;
}

/// A word is zero exactly if none of its bits is set.
pub proof fn lemma_zero_no_bit(w: u64)
    ensures
        w == 0 <==> forall|i: usize| i < 64 ==> !#[trigger] bit_set(w, i),
{
    if w == 0 {
        assert forall|i: usize| i < 64 implies !#[trigger] bit_set(w, i) by {
            let ii = i as u64;
            assert((0u64 >> ii) & 1 != 1) by (bit_vector);
        }
    } else {
        lemma_highest_bit(w);
        let h = (63 - u64_leading_zeros(w)) as usize;
        assert(bit_set(w, h));
    }
}

/// The position that the count of leading zeros gives is the highest bit
/// that is set.
pub proof fn lemma_highest_bit(w: u64)
    requires
        w != 0,
    ensures
        0 <= u64_leading_zeros(w) < 64,
        bit_set(w, (63 - u64_leading_zeros(w)) as usize),
        forall|j: usize| 63 - u64_leading_zeros(w) < j < 64 ==> !#[trigger] bit_set(w, j),
{
    axiom_u64_leading_zeros(w);
    let lz = u64_leading_zeros(w) as u64;
    let h = (63 - lz) as u64;
    let x = w >> h;
    assert(x & 1 != 0 ==> x & 1 == 1) by (bit_vector);
    assert forall|j: usize| 63 - u64_leading_zeros(w) < j < 64 implies !#[trigger] bit_set(w, j) by {
        let jj = j as u64;
        assert((w >> jj) & 1u64 == 0u64);
    }
}

impl SchedView {
    /// The state with the two bitmap bits of a domain and a priority set.
    pub open spec fn with_bit(self, dom: usize, prio: usize) -> SchedView {
        SchedView {
            ksReadyQueuesL1Bitmap: self.ksReadyQueuesL1Bitmap.update(
                dom as int,
                self.ksReadyQueuesL1Bitmap[dom as int] | (1u64 << ((prio / 64) as u64)),
            ),
            ksReadyQueuesL2Bitmap: self.ksReadyQueuesL2Bitmap.update(
                l2_index(dom, prio),
                self.ksReadyQueuesL2Bitmap[l2_index(dom, prio)] | (1u64 << ((prio % 64) as u64)),
            ),
            ..self
        }
    }

    /// The state with the second-level bit of a domain and a priority
    /// cleared, and the first-level bit too if that leaves the second-level
    /// word zero.
    pub open spec fn without_bit(self, dom: usize, prio: usize) -> SchedView {
        let row = self.ksReadyQueuesL2Bitmap[l2_index(dom, prio)] & !(1u64 << ((prio % 64) as u64));
        SchedView {
            ksReadyQueuesL1Bitmap: if row == 0 {
                self.ksReadyQueuesL1Bitmap.update(
                    dom as int,
                    self.ksReadyQueuesL1Bitmap[dom as int] & !(1u64 << ((prio / 64) as u64)),
                )
            } else {
                self.ksReadyQueuesL1Bitmap
            },
            ksReadyQueuesL2Bitmap: self.ksReadyQueuesL2Bitmap.update(l2_index(dom, prio), row),
            ..self
        }
    }

    /// The state after thread `t` was put at the tail of its ready queue;
    /// nothing changes if it is queued already.
    pub open spec fn enqueued(self, t: usize) -> SchedView {
        let tcb = self.tcbs[t as int];
        let idx = self.queue_of(t as int);
        let q = self.ksReadyQueues[idx];
        if tcb.tcbState.tcbQueued {
            self
        } else {
            let s1 = if q.tail == 0 {
                self.with_bit(tcb.domain, tcb.tcbPriority)
            } else {
                SchedView {
                    tcbs: self.tcbs.update(
                        q.tail as int,
                        TcbView { tcbSchedNext: t, ..self.tcbs[q.tail as int] },
                    ),
                    ..self
                }
            };
            SchedView {
                tcbs: s1.tcbs.update(
                    t as int,
                    TcbView {
                        tcbSchedPrev: q.tail,
                        tcbSchedNext: 0,
                        tcbState: thread_state_t { tcbQueued: true, ..s1.tcbs[t as int].tcbState },
                        ..s1.tcbs[t as int]
                    },
                ),
                ksReadyQueues: s1.ksReadyQueues.update(
                    idx,
                    tcb_queue_t {
                        head: if q.tail == 0 {
                            t
                        } else {
                            q.head
                        },
                        tail: t,
                    },
                ),
                ..s1
            }
        }
    }

    /// The state after thread `t` left its ready queue; nothing changes if it
    /// is not queued.
    pub open spec fn dequeued(self, t: usize) -> SchedView {
        let tcb = self.tcbs[t as int];
        let idx = self.queue_of(t as int);
        let q = self.ksReadyQueues[idx];
        if !tcb.tcbState.tcbQueued {
            self
        } else {
            let s1 = if tcb.tcbSchedPrev != 0 {
                SchedView {
                    tcbs: self.tcbs.update(
                        tcb.tcbSchedPrev as int,
                        TcbView { tcbSchedNext: tcb.tcbSchedNext, ..self.tcbs[tcb.tcbSchedPrev as int] },
                    ),
                    ..self
                }
            } else if tcb.tcbSchedNext == 0 {
                self.without_bit(tcb.domain, tcb.tcbPriority)
            } else {
                self
            };
            let s2 = if tcb.tcbSchedNext != 0 {
                SchedView {
                    tcbs: s1.tcbs.update(
                        tcb.tcbSchedNext as int,
                        TcbView { tcbSchedPrev: tcb.tcbSchedPrev, ..s1.tcbs[tcb.tcbSchedNext as int] },
                    ),
                    ..s1
                }
            } else {
                s1
            };
            SchedView {
                tcbs: s2.tcbs.update(
                    t as int,
                    TcbView {
                        tcbSchedPrev: 0,
                        tcbSchedNext: 0,
                        tcbState: thread_state_t { tcbQueued: false, ..s2.tcbs[t as int].tcbState },
                        ..s2.tcbs[t as int]
                    },
                ),
                ksReadyQueues: s2.ksReadyQueues.update(
                    idx,
                    tcb_queue_t {
                        head: if tcb.tcbSchedPrev == 0 {
                            tcb.tcbSchedNext
                        } else {
                            q.head
                        },
                        tail: if tcb.tcbSchedNext == 0 {
                            tcb.tcbSchedPrev
                        } else {
                            q.tail
                        },
                    },
                ),
                ..s2
            }
        }
    }

    /// The state with the thread state of thread `t` set to `ts`.
    pub open spec fn with_state(self, t: usize, ts: usize) -> SchedView {
        SchedView {
            tcbs: self.tcbs.update(
                t as int,
                TcbView {
                    tcbState: thread_state_t { tsType: ts, ..self.tcbs[t as int].tcbState },
                    ..self.tcbs[t as int]
                },
            ),
            ..self
        }
    }

    /// The state after a choice of a new thread was asked for: a thread that
    /// was set aside to be switched to goes back into its queue.
    pub open spec fn rescheduled(self) -> SchedView {
        let s1 = if self.ksSchedulerAction >= 2 {
            self.enqueued(self.ksSchedulerAction)
        } else {
            self
        };
        SchedView { ksSchedulerAction: SchedulerAction_ChooseNewThread, ..s1 }
    }

    /// The state after thread `t` was offered to the scheduler: it is set
    /// aside to be switched to if it is of the current domain and the
    /// current thread was to be resumed, and queued otherwise, with a choice
    /// of a new thread asked for if another had been set aside.
    pub open spec fn offered(self, t: usize) -> SchedView {
        if self.ksCurDomain != self.tcbs[t as int].domain {
            self.enqueued(t)
        } else if self.ksSchedulerAction != SchedulerAction_ResumeCurrentThread {
            self.rescheduled().enqueued(t)
        } else {
            SchedView { ksSchedulerAction: t, ..self }
        }
    }

    /// The highest priority of a domain whose queue holds a thread.
    pub open spec fn is_highest_prio(self, dom: usize, prio: usize) -> bool {
        &&& prio < CONFIG_NUM_PRIORITIES
        &&& !self.queue_empty(dom, prio)
        &&& forall|p: usize| prio < p < CONFIG_NUM_PRIORITIES ==> #[trigger] self.queue_empty(dom, p)
    }
}

impl KernelView {
    /// The kernel with the scheduler's part of its state replaced.
    pub open spec fn with_sched(self, s: SchedView) -> KernelView {
        KernelView {
            tcbs: s.tcbs,
            ksReadyQueues: s.ksReadyQueues,
            ksReadyQueuesL1Bitmap: s.ksReadyQueuesL1Bitmap,
            ksReadyQueuesL2Bitmap: s.ksReadyQueuesL2Bitmap,
            ksCurDomain: s.ksCurDomain,
            ksSchedulerAction: s.ksSchedulerAction,
            ..self
        }
    }
}

/// Setting the bits of a priority keeps the first level in step with the
/// second and changes the second-level bit of that priority only.
pub proof fn lemma_with_bit(s: SchedView, dom: usize, prio: usize)
    requires
        s.ksReadyQueuesL1Bitmap.len() == CONFIG_NUM_DOMAINS,
        s.ksReadyQueuesL2Bitmap.len() == CONFIG_NUM_DOMAINS * L2_BITMAP_SIZE,
        dom < CONFIG_NUM_DOMAINS,
        prio < CONFIG_NUM_PRIORITIES,
        forall|d: usize, i: usize|
            d < CONFIG_NUM_DOMAINS && i < 64 ==> (#[trigger] s.l1_bit(d, i) <==> i < L2_BITMAP_SIZE
                && s.ksReadyQueuesL2Bitmap[d * L2_BITMAP_SIZE + (L2_BITMAP_SIZE - 1 - i)] != 0),
    ensures
        forall|d: usize, p: usize|
            d < CONFIG_NUM_DOMAINS && p < CONFIG_NUM_PRIORITIES ==> (#[trigger] s.with_bit(dom, prio).l2_bit(
                d,
                p,
            ) <==> (d == dom && p == prio) || s.l2_bit(d, p)),
        forall|d: usize, i: usize|
            d < CONFIG_NUM_DOMAINS && i < 64 ==> (#[trigger] s.with_bit(dom, prio).l1_bit(d, i) <==> i
                < L2_BITMAP_SIZE && s.with_bit(dom, prio).ksReadyQueuesL2Bitmap[d * L2_BITMAP_SIZE + (
            L2_BITMAP_SIZE - 1 - i)] != 0),
{
    let n = s.with_bit(dom, prio);
    assert forall|d: usize, p: usize| d < CONFIG_NUM_DOMAINS && p < CONFIG_NUM_PRIORITIES implies (
    #[trigger] n.l2_bit(d, p) <==> (d == dom && p == prio) || s.l2_bit(d, p)) by {
        if l2_index(d, p) == l2_index(dom, prio) {
            lemma_bit_or(s.ksReadyQueuesL2Bitmap[l2_index(dom, prio)], (prio % 64) as usize, (p % 64) as usize);
        }
    }
    assert forall|d: usize, i: usize| d < CONFIG_NUM_DOMAINS && i < 64 implies (#[trigger] n.l1_bit(d, i)
        <==> i < L2_BITMAP_SIZE && n.ksReadyQueuesL2Bitmap[d * L2_BITMAP_SIZE + (L2_BITMAP_SIZE - 1 - i)]
        != 0) by {
        assert(s.l1_bit(d, i) <==> i < L2_BITMAP_SIZE && s.ksReadyQueuesL2Bitmap[d * L2_BITMAP_SIZE + (
        L2_BITMAP_SIZE - 1 - i)] != 0);
        lemma_bit_or(s.ksReadyQueuesL1Bitmap[dom as int], (prio / 64) as usize, i);
        lemma_bit_or(s.ksReadyQueuesL2Bitmap[l2_index(dom, prio)], (prio % 64) as usize, 0);
    }
}

/// Clearing the bits of a priority keeps the first level in step with the
/// second and changes the second-level bit of that priority only.
pub proof fn lemma_without_bit(s: SchedView, dom: usize, prio: usize)
    requires
        s.ksReadyQueuesL1Bitmap.len() == CONFIG_NUM_DOMAINS,
        s.ksReadyQueuesL2Bitmap.len() == CONFIG_NUM_DOMAINS * L2_BITMAP_SIZE,
        dom < CONFIG_NUM_DOMAINS,
        prio < CONFIG_NUM_PRIORITIES,
        forall|d: usize, i: usize|
            d < CONFIG_NUM_DOMAINS && i < 64 ==> (#[trigger] s.l1_bit(d, i) <==> i < L2_BITMAP_SIZE
                && s.ksReadyQueuesL2Bitmap[d * L2_BITMAP_SIZE + (L2_BITMAP_SIZE - 1 - i)] != 0),
    ensures
        forall|d: usize, p: usize|
            d < CONFIG_NUM_DOMAINS && p < CONFIG_NUM_PRIORITIES ==> (#[trigger] s.without_bit(
                dom,
                prio,
            ).l2_bit(d, p) <==> !(d == dom && p == prio) && s.l2_bit(d, p)),
        forall|d: usize, i: usize|
            d < CONFIG_NUM_DOMAINS && i < 64 ==> (#[trigger] s.without_bit(dom, prio).l1_bit(d, i) <==> i
                < L2_BITMAP_SIZE && s.without_bit(dom, prio).ksReadyQueuesL2Bitmap[d * L2_BITMAP_SIZE + (
            L2_BITMAP_SIZE - 1 - i)] != 0),
{
    let n = s.without_bit(dom, prio);
    assert forall|d: usize, p: usize| d < CONFIG_NUM_DOMAINS && p < CONFIG_NUM_PRIORITIES implies (
    #[trigger] n.l2_bit(d, p) <==> !(d == dom && p == prio) && s.l2_bit(d, p)) by {
        if l2_index(d, p) == l2_index(dom, prio) {
            lemma_bit_clear(
                s.ksReadyQueuesL2Bitmap[l2_index(dom, prio)],
                (prio % 64) as usize,
                (p % 64) as usize,
            );
        }
    }
    assert forall|d: usize, i: usize| d < CONFIG_NUM_DOMAINS && i < 64 implies (#[trigger] n.l1_bit(d, i)
        <==> i < L2_BITMAP_SIZE && n.ksReadyQueuesL2Bitmap[d * L2_BITMAP_SIZE + (L2_BITMAP_SIZE - 1 - i)]
        != 0) by {
        assert(s.l1_bit(d, i) <==> i < L2_BITMAP_SIZE && s.ksReadyQueuesL2Bitmap[d * L2_BITMAP_SIZE + (
        L2_BITMAP_SIZE - 1 - i)] != 0);
        lemma_bit_clear(s.ksReadyQueuesL1Bitmap[dom as int], (prio / 64) as usize, i);
        assert(s.l1_bit(dom, (prio / 64) as usize) <==> s.ksReadyQueuesL2Bitmap[l2_index(dom, prio)] != 0);
        let w = s.ksReadyQueuesL2Bitmap[l2_index(dom, prio)];
        let m = !(1u64 << ((prio % 64) as u64));
        assert(w & m != 0 ==> w != 0) by (bit_vector);
    }
}

/// Putting a thread into its ready queue keeps the scheduler's state in order.
pub proof fn lemma_enqueue_keeps_order(s: SchedView, t: usize)
    requires
        s.wf(),
        2 <= t < s.tcbs.len(),
    ensures
        s.enqueued(t).wf(),
        s.enqueued(t).tcbs.len() == s.tcbs.len(),
        s.enqueued(t).tcbs[t as int].tcbState.tcbQueued,
        s.enqueued(t).tcbs[t as int].tcbState.tsType == s.tcbs[t as int].tcbState.tsType,
{
    let n = s.enqueued(t);
    let tcb = s.tcbs[t as int];
    let idx = s.queue_of(t as int);
    let q = s.ksReadyQueues[idx];
    assert(s.tcb_inv(t as int));
    assert(s.queue_inv(idx));
    if !tcb.tcbState.tcbQueued {
        if q.tail == 0 {
            lemma_with_bit(s, tcb.domain, tcb.tcbPriority);
        } else {
            assert(s.tcb_inv(q.tail as int));
        }
        assert forall|x: int| 2 <= x < n.tcbs.len() implies #[trigger] n.tcb_inv(x) by {
            assert(s.tcb_inv(x));
            assert(s.queue_inv(s.queue_of(x)));
        }
        assert forall|qi: int| 0 <= qi < NUM_READY_QUEUES implies #[trigger] n.queue_inv(qi) by {
            assert(s.queue_inv(qi));
        }
        assert forall|d: usize, p: usize| d < CONFIG_NUM_DOMAINS && p < CONFIG_NUM_PRIORITIES implies (
        #[trigger] n.l2_bit(d, p) <==> !n.queue_empty(d, p)) by {
            assert(s.l2_bit(d, p) <==> !s.queue_empty(d, p));
            assert(s.queue_inv(queue_index(d, p)));
            if q.tail == 0 {
                assert(s.with_bit(tcb.domain, tcb.tcbPriority).l2_bit(d, p) <==> (d == tcb.domain && p
                    == tcb.tcbPriority) || s.l2_bit(d, p));
            }
        }
        assert forall|d: usize, i: usize| d < CONFIG_NUM_DOMAINS && i < 64 implies (#[trigger] n.l1_bit(
            d,
            i,
        ) <==> i < L2_BITMAP_SIZE && n.ksReadyQueuesL2Bitmap[d * L2_BITMAP_SIZE + (L2_BITMAP_SIZE - 1
            - i)] != 0) by {
            if q.tail == 0 {
                assert(s.with_bit(tcb.domain, tcb.tcbPriority).l1_bit(d, i) <==> i < L2_BITMAP_SIZE
                    && s.with_bit(tcb.domain, tcb.tcbPriority).ksReadyQueuesL2Bitmap[d * L2_BITMAP_SIZE
                    + (L2_BITMAP_SIZE - 1 - i)] != 0);
            } else {
                assert(s.l1_bit(d, i) <==> i < L2_BITMAP_SIZE && s.ksReadyQueuesL2Bitmap[d
                    * L2_BITMAP_SIZE + (L2_BITMAP_SIZE - 1 - i)] != 0);
            }
        }
    }
}

/// Taking a thread out of its ready queue keeps the scheduler's state in
/// order.
pub proof fn lemma_dequeue_keeps_order(s: SchedView, t: usize)
    requires
        s.wf(),
        2 <= t < s.tcbs.len(),
    ensures
        s.dequeued(t).wf(),
        s.dequeued(t).tcbs.len() == s.tcbs.len(),
        !s.dequeued(t).tcbs[t as int].tcbState.tcbQueued,
        s.dequeued(t).tcbs[t as int].tcbState.tsType == s.tcbs[t as int].tcbState.tsType,
        s.dequeued(t).tcbs[t as int].domain == s.tcbs[t as int].domain,
{
    let n = s.dequeued(t);
    let tcb = s.tcbs[t as int];
    let idx = s.queue_of(t as int);
    assert(s.tcb_inv(t as int));
    assert(s.queue_inv(idx));
    if tcb.tcbState.tcbQueued {
        if tcb.tcbSchedPrev == 0 && tcb.tcbSchedNext == 0 {
            lemma_without_bit(s, tcb.domain, tcb.tcbPriority);
        }
        if tcb.tcbSchedPrev != 0 {
            assert(s.tcb_inv(tcb.tcbSchedPrev as int));
        }
        if tcb.tcbSchedNext != 0 {
            assert(s.tcb_inv(tcb.tcbSchedNext as int));
        }
        assert forall|x: int| 2 <= x < n.tcbs.len() implies #[trigger] n.tcb_inv(x) by {
            assert(s.tcb_inv(x));
            assert(s.queue_inv(s.queue_of(x)));
            if s.tcbs[x].tcbSchedPrev != 0 {
                assert(s.tcb_inv(s.tcbs[x].tcbSchedPrev as int));
            }
            if s.tcbs[x].tcbSchedNext != 0 {
                assert(s.tcb_inv(s.tcbs[x].tcbSchedNext as int));
            }
        }
        assert forall|qi: int| 0 <= qi < NUM_READY_QUEUES implies #[trigger] n.queue_inv(qi) by {
            assert(s.queue_inv(qi));
            if s.ksReadyQueues[qi].head != 0 {
                assert(s.tcb_inv(s.ksReadyQueues[qi].head as int));
            }
            if s.ksReadyQueues[qi].tail != 0 {
                assert(s.tcb_inv(s.ksReadyQueues[qi].tail as int));
            }
        }
        assert forall|d: usize, p: usize| d < CONFIG_NUM_DOMAINS && p < CONFIG_NUM_PRIORITIES implies (
        #[trigger] n.l2_bit(d, p) <==> !n.queue_empty(d, p)) by {
            assert(s.l2_bit(d, p) <==> !s.queue_empty(d, p));
            assert(s.queue_inv(queue_index(d, p)));
            if tcb.tcbSchedPrev == 0 && tcb.tcbSchedNext == 0 {
                assert(s.without_bit(tcb.domain, tcb.tcbPriority).l2_bit(d, p) <==> !(d == tcb.domain
                    && p == tcb.tcbPriority) && s.l2_bit(d, p));
            }
        }
        assert forall|d: usize, i: usize| d < CONFIG_NUM_DOMAINS && i < 64 implies (#[trigger] n.l1_bit(
            d,
            i,
        ) <==> i < L2_BITMAP_SIZE && n.ksReadyQueuesL2Bitmap[d * L2_BITMAP_SIZE + (L2_BITMAP_SIZE - 1
            - i)] != 0) by {
            if tcb.tcbSchedPrev == 0 && tcb.tcbSchedNext == 0 {
                assert(s.without_bit(tcb.domain, tcb.tcbPriority).l1_bit(d, i) <==> i < L2_BITMAP_SIZE
                    && s.without_bit(tcb.domain, tcb.tcbPriority).ksReadyQueuesL2Bitmap[d
                    * L2_BITMAP_SIZE + (L2_BITMAP_SIZE - 1 - i)] != 0);
            } else {
                assert(s.l1_bit(d, i) <==> i < L2_BITMAP_SIZE && s.ksReadyQueuesL2Bitmap[d
                    * L2_BITMAP_SIZE + (L2_BITMAP_SIZE - 1 - i)] != 0);
            }
        }
    }
}

/// The highest priority of a domain whose queue holds a thread.
pub fn getHighestPrio(k: &Kernel, dom: usize) -> (r: usize)
    requires
        k.wf(),
        dom < CONFIG_NUM_DOMAINS,
        k@.ksReadyQueuesL1Bitmap[dom as int] != 0,
    ensures
        k@.sched().is_highest_prio(dom, r),
{
    let l1: u64 = k.ksReadyQueuesL1Bitmap[dom];
    proof {
        lemma_highest_bit(l1);
    }
    let l1index: usize = wordBits - 1 - l1.leading_zeros() as usize;
    assert(k@.sched().l1_bit(dom, l1index));
    let l1index_inverted: usize = invert_l1index(l1index);
    let row: u64 = k.ksReadyQueuesL2Bitmap[dom * L2_BITMAP_SIZE + l1index_inverted];
    proof {
        lemma_highest_bit(row);
    }
    let l2index: usize = wordBits - 1 - row.leading_zeros() as usize;
    let base: usize = l1index_to_prio(l1index);
    let prio: usize = base | l2index;
    proof {
        let a = base as u64;
        let b = l2index as u64;
        assert(a | b == a + b) by (bit_vector)
            requires
                a == 0 || a == 64 || a == 128 || a == 192,
                b < 64,
        ;
        assert(prio == base + l2index);
        let s = k@.sched();
        assert(s.l2_bit(dom, prio));
        assert forall|p: usize| prio < p < CONFIG_NUM_PRIORITIES implies #[trigger] s.queue_empty(dom, p) by {
            assert(s.l2_bit(dom, p) <==> !s.queue_empty(dom, p));
            if p / 64 == l1index {
                assert(!bit_set(row, (p % 64) as usize));
            } else {
                assert(!s.l1_bit(dom, (p / 64) as usize));
                lemma_zero_no_bit(s.ksReadyQueuesL2Bitmap[l2_index(dom, p)]);
            }
        }
    }
    prio
}

/// Whether no queue of a priority above `prio` holds a thread.
pub fn isHighestPrio(k: &Kernel, dom: usize, prio: usize) -> (r: bool)
    requires
        k.wf(),
        dom < CONFIG_NUM_DOMAINS,
    ensures
        r == (forall|p: usize| prio < p < CONFIG_NUM_PRIORITIES ==> #[trigger] k@.sched().queue_empty(dom, p)),
{
    if k.ksReadyQueuesL1Bitmap[dom] == 0 {
        proof {
            let s = k@.sched();
            assert forall|p: usize| prio < p < CONFIG_NUM_PRIORITIES implies #[trigger] s.queue_empty(
                dom,
                p,
            ) by {
                assert(s.l2_bit(dom, p) <==> !s.queue_empty(dom, p));
                lemma_zero_no_bit(s.ksReadyQueuesL1Bitmap[dom as int]);
                assert(!s.l1_bit(dom, (p / 64) as usize));
                lemma_zero_no_bit(s.ksReadyQueuesL2Bitmap[l2_index(dom, p)]);
            }
        }
        true
    } else {
        let h: usize = getHighestPrio(k, dom);
        prio >= h
    }
}

/// Sets the two bitmap bits of a priority.
pub fn addToBitmap(k: &mut Kernel, dom: usize, prio: usize)
    requires
        old(k)@.ksReadyQueuesL1Bitmap.len() == CONFIG_NUM_DOMAINS,
        old(k)@.ksReadyQueuesL2Bitmap.len() == CONFIG_NUM_DOMAINS * L2_BITMAP_SIZE,
        dom < CONFIG_NUM_DOMAINS,
        prio < CONFIG_NUM_PRIORITIES,
    ensures
        final(k)@ == old(k)@.with_sched(old(k)@.sched().with_bit(dom, prio)),
{
    let l1index: usize = prio_to_l1index(prio);
    let l1index_inverted: usize = invert_l1index(l1index);
    let l1: u64 = k.ksReadyQueuesL1Bitmap[dom];
    k.ksReadyQueuesL1Bitmap[dom] = l1 | (1u64 << (l1index as u64));
    let row: u64 = k.ksReadyQueuesL2Bitmap[dom * L2_BITMAP_SIZE + l1index_inverted];
    k.ksReadyQueuesL2Bitmap[dom * L2_BITMAP_SIZE + l1index_inverted] = row | (1u64 << ((prio % 64) as u64));
    assert(k@.ksReadyQueuesL1Bitmap =~= old(k)@.sched().with_bit(dom, prio).ksReadyQueuesL1Bitmap);
    assert(k@.ksReadyQueuesL2Bitmap =~= old(k)@.sched().with_bit(dom, prio).ksReadyQueuesL2Bitmap);
}

/// Clears the second-level bit of a priority, and the first-level bit with
/// it if that leaves the second-level word zero.
pub fn removeFromBitmap(k: &mut Kernel, dom: usize, prio: usize)
    requires
        old(k)@.ksReadyQueuesL1Bitmap.len() == CONFIG_NUM_DOMAINS,
        old(k)@.ksReadyQueuesL2Bitmap.len() == CONFIG_NUM_DOMAINS * L2_BITMAP_SIZE,
        dom < CONFIG_NUM_DOMAINS,
        prio < CONFIG_NUM_PRIORITIES,
    ensures
        final(k)@ == old(k)@.with_sched(old(k)@.sched().without_bit(dom, prio)),
{
    let l1index: usize = prio_to_l1index(prio);
    let l1index_inverted: usize = invert_l1index(l1index);
    let row: u64 = k.ksReadyQueuesL2Bitmap[dom * L2_BITMAP_SIZE + l1index_inverted];
    let cleared: u64 = row & !(1u64 << ((prio % 64) as u64));
    k.ksReadyQueuesL2Bitmap[dom * L2_BITMAP_SIZE + l1index_inverted] = cleared;
    if cleared == 0 {
        let l1: u64 = k.ksReadyQueuesL1Bitmap[dom];
        k.ksReadyQueuesL1Bitmap[dom] = l1 & !(1u64 << (l1index as u64));
    }
    assert(k@.ksReadyQueuesL1Bitmap =~= old(k)@.sched().without_bit(dom, prio).ksReadyQueuesL1Bitmap);
    assert(k@.ksReadyQueuesL2Bitmap =~= old(k)@.sched().without_bit(dom, prio).ksReadyQueuesL2Bitmap);
}

/// Puts a thread at the tail of its ready queue.
pub fn tcbSchedEnqueue(k: &mut Kernel, tcb: usize)
    requires
        old(k).wf(),
        2 <= tcb < old(k)@.tcbs.len(),
    ensures
        final(k)@ == old(k)@.with_sched(old(k)@.sched().enqueued(tcb)),
        final(k).wf(),
        final(k)@.tcbs.len() == old(k)@.tcbs.len(),
        final(k)@.slots == old(k)@.slots,
{
    proof {
        let s = k@.sched();
        assert(s.tcb_inv(tcb as int));
        assert(s.queue_inv(s.queue_of(tcb as int)));
        lemma_enqueue_keeps_order(s, tcb);
    }
    if !k.tcbs[tcb].tcbState.tcbQueued {
        let dom: usize = k.tcbs[tcb].domain;
        let prio: usize = k.tcbs[tcb].tcbPriority;
        let idx: usize = ready_queues_index(dom, prio);
        let mut queue = k.ksReadyQueues[idx];
        if queue.tail == 0 {
            queue.head = tcb;
            addToBitmap(k, dom, prio);
        } else {
            k.tcbs[queue.tail].tcbSchedNext = tcb;
        }
        k.tcbs[tcb].tcbSchedPrev = queue.tail;
        k.tcbs[tcb].tcbSchedNext = 0;
        queue.tail = tcb;
        k.ksReadyQueues[idx] = queue;
        k.tcbs[tcb].tcbState.tcbQueued = true;
        assert(k@.tcbs =~= old(k)@.sched().enqueued(tcb).tcbs);
        assert(k@.ksReadyQueues =~= old(k)@.sched().enqueued(tcb).ksReadyQueues);
    }
}

/// Puts a thread at the tail of its ready queue; it tells an empty queue by
/// its head, where `tcbSchedEnqueue` tells it by its tail.
pub fn tcbSchedAppend(k: &mut Kernel, tcb: usize)
    requires
        old(k).wf(),
        2 <= tcb < old(k)@.tcbs.len(),
    ensures
        final(k)@ == old(k)@.with_sched(old(k)@.sched().enqueued(tcb)),
        final(k).wf(),
        final(k)@.tcbs.len() == old(k)@.tcbs.len(),
        final(k)@.slots == old(k)@.slots,
{
    proof {
        let s = k@.sched();
        assert(s.tcb_inv(tcb as int));
        assert(s.queue_inv(s.queue_of(tcb as int)));
        lemma_enqueue_keeps_order(s, tcb);
    }
    if !k.tcbs[tcb].tcbState.tcbQueued {
        let dom: usize = k.tcbs[tcb].domain;
        let prio: usize = k.tcbs[tcb].tcbPriority;
        let idx: usize = ready_queues_index(dom, prio);
        let mut queue = k.ksReadyQueues[idx];
        if queue.head == 0 {
            queue.head = tcb;
            addToBitmap(k, dom, prio);
        } else {
            k.tcbs[queue.tail].tcbSchedNext = tcb;
        }
        k.tcbs[tcb].tcbSchedPrev = queue.tail;
        k.tcbs[tcb].tcbSchedNext = 0;
        queue.tail = tcb;
        k.ksReadyQueues[idx] = queue;
        k.tcbs[tcb].tcbState.tcbQueued = true;
        assert(k@.tcbs =~= old(k)@.sched().enqueued(tcb).tcbs);
        assert(k@.ksReadyQueues =~= old(k)@.sched().enqueued(tcb).ksReadyQueues);
    }
}

/// Takes a thread out of its ready queue.
pub fn tcbSchedDequeue(k: &mut Kernel, tcb: usize)
    requires
        old(k).wf(),
        2 <= tcb < old(k)@.tcbs.len(),
    ensures
        final(k)@ == old(k)@.with_sched(old(k)@.sched().dequeued(tcb)),
        final(k).wf(),
        final(k)@.tcbs.len() == old(k)@.tcbs.len(),
        final(k)@.slots == old(k)@.slots,
{
    proof {
        let s = k@.sched();
        assert(s.tcb_inv(tcb as int));
        assert(s.queue_inv(s.queue_of(tcb as int)));
        lemma_dequeue_keeps_order(s, tcb);
    }
    if k.tcbs[tcb].tcbState.tcbQueued {
        let dom: usize = k.tcbs[tcb].domain;
        let prio: usize = k.tcbs[tcb].tcbPriority;
        let idx: usize = ready_queues_index(dom, prio);
        let mut queue = k.ksReadyQueues[idx];
        let prev: usize = k.tcbs[tcb].tcbSchedPrev;
        let next: usize = k.tcbs[tcb].tcbSchedNext;
        if prev != 0 {
            k.tcbs[prev].tcbSchedNext = next;
        } else {
            queue.head = next;
            if next == 0 {
                removeFromBitmap(k, dom, prio);
            }
        }
        if next != 0 {
            k.tcbs[next].tcbSchedPrev = prev;
        } else {
            queue.tail = prev;
        }
        k.ksReadyQueues[idx] = queue;
        k.tcbs[tcb].tcbState.tcbQueued = false;
        k.tcbs[tcb].tcbSchedPrev = 0;
        k.tcbs[tcb].tcbSchedNext = 0;
        assert(k@.tcbs =~= old(k)@.sched().dequeued(tcb).tcbs);
        assert(k@.ksReadyQueues =~= old(k)@.sched().dequeued(tcb).ksReadyQueues);
    }
}

impl KernelView {
    /// The kernel after the state of thread `t` was set to `ts`: if `t` is
    /// the current thread, was to be resumed and can no longer run, a choice
    /// of a new thread is asked for.
    pub open spec fn state_set(self, t: usize, ts: usize) -> KernelView {
        let s1 = self.sched().with_state(t, ts);
        if t == self.ksCurThread && s1.ksSchedulerAction == SchedulerAction_ResumeCurrentThread
            && !state_runnable(ts) {
            self.with_sched(s1.rescheduled())
        } else {
            self.with_sched(s1)
        }
    }

    /// The kernel with one more call asked of a collaborator.
    pub open spec fn asked(self, r: request_t) -> KernelView {
        KernelView { requests: self.requests.push(r), ..self }
    }

    /// The kernel after it switched to thread `t`: the thread's address space
    /// is asked for, the thread leaves its ready queue and becomes the current
    /// thread.
    pub open spec fn switched_to(self, t: usize) -> KernelView {
        let k1 = self.asked(request_t::SetVMRoot { tcb: t });
        KernelView { ksCurThread: t, ..k1.with_sched(k1.sched().dequeued(t)) }
    }

    /// The kernel after it switched to the idle thread.
    pub open spec fn switched_to_idle(self) -> KernelView {
        KernelView {
            ksCurThread: self.ksIdleThread,
            ..self.asked(request_t::SetVMRoot { tcb: self.ksIdleThread })
        }
    }

    /// The thread at the head of the queue of the highest priority of the
    /// current domain that holds a thread, if any queue does.
    pub open spec fn best_thread(self, t: usize) -> bool {
        exists|prio: usize|
            #![auto]
            self.sched().is_highest_prio(self.ksCurDomain, prio) && t == self.ksReadyQueues[queue_index(
                self.ksCurDomain,
                prio,
            )].head
    }

    /// The kernel after thread `target` was suspended: a running thread
    /// restarts where it is, the thread is inactive and in no ready queue.
    pub open spec fn suspended(self, target: usize) -> KernelView {
        let tcb = self.tcbs[target as int];
        let k1 = if tcb.tcbState.tsType == ThreadStateRunning {
            KernelView {
                tcbs: with_register(self.tcbs, target, FaultIP, tcb.registers[NextIP as int]),
                ..self
            }
        } else {
            self
        };
        let k2 = k1.state_set(target, ThreadStateInactive);
        k2.with_sched(k2.sched().dequeued(target))
    }

    /// The kernel after thread `target` was restarted: a stopped thread is
    /// set to restart, queued and offered to the scheduler; any other is left
    /// as it is.
    pub open spec fn restarted(self, target: usize) -> KernelView {
        if self.is_stopped(target) {
            let k1 = self.state_set(target, ThreadStateRestart);
            k1.with_sched(k1.sched().enqueued(target).offered(target))
        } else {
            self
        }
    }

    /// The kernel after the priority of thread `t` was set: the thread leaves
    /// its queue, and if it can run it is offered to the scheduler anew, or, if
    /// it is the current thread, a choice of a new thread is asked for.
    pub open spec fn priority_set(self, t: usize, prio: usize) -> KernelView {
        let s1 = self.sched().dequeued(t);
        let s2 = SchedView {
            tcbs: s1.tcbs.update(t as int, TcbView { tcbPriority: prio, ..s1.tcbs[t as int] }),
            ..s1
        };
        if state_runnable(self.tcbs[t as int].tcbState.tsType) {
            if t == self.ksCurThread {
                self.with_sched(s2.rescheduled())
            } else {
                self.with_sched(s2.offered(t))
            }
        } else {
            self.with_sched(s2)
        }
    }

    /// The kernel after the current thread was made ready to return to user
    /// level: a thread that restarts goes on from where it faulted and runs.
    pub open spec fn activated(self) -> KernelView {
        let cur = self.ksCurThread;
        let ts = self.tcbs[cur as int].tcbState.tsType;
        if ts == ThreadStateRunning {
            self.asked(request_t::SetVMRoot { tcb: cur })
        } else if ts == ThreadStateRestart {
            let k1 = KernelView {
                tcbs: with_register(self.tcbs, cur, NextIP, self.tcbs[cur as int].registers[FaultIP as int]),
                ..self
            };
            k1.state_set(cur, ThreadStateRunning).asked(request_t::SetVMRoot { tcb: cur })
        } else {
            self
        }
    }
}

/// Setting a thread's state keeps the scheduler's state in order.
pub proof fn lemma_with_state_keeps_order(s: SchedView, t: usize, ts: usize)
    requires
        s.wf(),
        t < s.tcbs.len(),
    ensures
        s.with_state(t, ts).wf(),
{
    lemma_sched_frame(s, s.with_state(t, ts));
}

/// Asking for a choice of a new thread keeps the scheduler's state in order.
pub proof fn lemma_rescheduled_keeps_order(s: SchedView)
    requires
        s.wf(),
    ensures
        s.rescheduled().wf(),
        s.rescheduled().tcbs.len() == s.tcbs.len(),
{
    if s.ksSchedulerAction >= 2 {
        lemma_enqueue_keeps_order(s, s.ksSchedulerAction);
        lemma_sched_frame(
            s.enqueued(s.ksSchedulerAction),
            SchedView {
                ksSchedulerAction: SchedulerAction_ChooseNewThread,
                ..s.enqueued(s.ksSchedulerAction)
            },
        );
    } else {
        lemma_sched_frame(s, SchedView { ksSchedulerAction: SchedulerAction_ChooseNewThread, ..s });
    }
}

/// Asks for a choice of a new thread.
pub fn rescheduleRequired(k: &mut Kernel)
    requires
        old(k).wf(),
    ensures
        final(k)@ == old(k)@.with_sched(old(k)@.sched().rescheduled()),
        final(k).wf(),
        final(k)@.tcbs.len() == old(k)@.tcbs.len(),
        final(k)@.slots == old(k)@.slots,
{
    proof {
        lemma_rescheduled_keeps_order(k@.sched());
    }
    if k.ksSchedulerAction != SchedulerAction_ResumeCurrentThread && k.ksSchedulerAction
        != SchedulerAction_ChooseNewThread {
        let t: usize = k.ksSchedulerAction;
        tcbSchedEnqueue(k, t);
    }
    k.ksSchedulerAction = SchedulerAction_ChooseNewThread;
}

/// Asks for a choice of a new thread if the current thread is to be resumed
/// and cannot run.
pub fn scheduleTCB(k: &mut Kernel, tptr: usize)
    requires
        old(k).wf(),
        tptr < 2 || tptr < old(k)@.tcbs.len(),
    ensures
        final(k)@ == (if tptr == old(k)@.ksCurThread && old(k)@.ksSchedulerAction
            == SchedulerAction_ResumeCurrentThread && !old(k)@.is_runnable(tptr) {
            old(k)@.with_sched(old(k)@.sched().rescheduled())
        } else {
            old(k)@
        }),
        final(k).wf(),
        final(k)@.tcbs.len() == old(k)@.tcbs.len(),
        final(k)@.slots == old(k)@.slots,
{
    if tptr == k.ksCurThread && k.ksSchedulerAction == SchedulerAction_ResumeCurrentThread && !isRunnable(
        k,
        tptr,
    ) {
        rescheduleRequired(k);
    }
}

/// Sets the state of a thread.
pub fn setThreadState(k: &mut Kernel, tptr: usize, ts: usize)
    requires
        old(k).wf(),
        2 <= tptr < old(k)@.tcbs.len(),
    ensures
        final(k)@ == old(k)@.state_set(tptr, ts),
        final(k).wf(),
        final(k)@.tcbs.len() == old(k)@.tcbs.len(),
        final(k)@.tcbs[tptr as int].tcbState.tsType == ts,
{
    proof {
        lemma_with_state_keeps_order(k@.sched(), tptr, ts);
        lemma_rescheduled_keeps_order(k@.sched().with_state(tptr, ts));
    }
    k.tcbs[tptr].tcbState.tsType = ts;
    assert(k@.tcbs =~= old(k)@.sched().with_state(tptr, ts).tcbs);
    scheduleTCB(k, tptr);
}

/// The address at which a thread restarts.
pub fn getReStartPC(k: &Kernel, thread: usize) -> (r: usize)
    requires
        thread < k@.tcbs.len(),
    ensures
        r == k@.tcbs[thread as int].registers[FaultIP as int],
{
    getRegister(k, thread, FaultIP)
}

/// Sets the address at which a thread goes on.
pub fn setRestartPC(k: &mut Kernel, thread: usize, v: usize)
    requires
        thread < old(k)@.tcbs.len(),
    ensures
        final(k)@ == (KernelView { tcbs: with_register(old(k)@.tcbs, thread, NextIP, v), ..old(k)@ }),
        old(k).wf() ==> final(k).wf(),
{
    setRegister(k, thread, NextIP, v);
}

/// Sets the address at which a thread goes on.
pub fn setNextPC(k: &mut Kernel, thread: usize, v: usize)
    requires
        thread < old(k)@.tcbs.len(),
    ensures
        final(k)@ == (KernelView { tcbs: with_register(old(k)@.tcbs, thread, NextIP, v), ..old(k)@ }),
        old(k).wf() ==> final(k).wf(),
{
    setRegister(k, thread, NextIP, v);
}

/// Lets a thread restart where it would go on.
pub fn updateReStartPC(k: &mut Kernel, tcb: usize)
    requires
        tcb < old(k)@.tcbs.len(),
    ensures
        final(k)@ == (KernelView {
            tcbs: with_register(
                old(k)@.tcbs,
                tcb,
                FaultIP,
                old(k)@.tcbs[tcb as int].registers[NextIP as int],
            ),
            ..old(k)@
        }),
        old(k).wf() ==> final(k).wf(),
{
    let pc: usize = getRegister(k, tcb, NextIP);
    setRegister(k, tcb, FaultIP, pc);
}

/// Clears the badge register of a thread whose receive found nothing.
pub fn doNBRecvFailedTransfer(k: &mut Kernel, thread: usize)
    requires
        thread < old(k)@.tcbs.len(),
    ensures
        final(k)@ == (KernelView { tcbs: with_register(old(k)@.tcbs, thread, badgeRegister, 0), ..old(k)@ }),
        old(k).wf() ==> final(k).wf(),
{
    setRegister(k, thread, badgeRegister, 0);
}

/// The registers of a new thread: interrupts are on once it runs in user
/// mode.
pub fn Arch_initContext(context: arch_tcb_t) -> (r: arch_tcb_t)
    ensures
        r.registers@ == context.registers@.update(SSTATUS as int, 0x0004_0020),
{
    let mut context = context;
    context.registers[SSTATUS] = 0x0004_0020;
    context
}

/// Records a call for a collaborator to make.
fn ask(k: &mut Kernel, r: request_t)
    ensures
        final(k)@ == old(k)@.asked(r),
        old(k).wf() ==> final(k).wf(),
{
    k.requests.push(r);
}

/// Asks for the address space of a thread.
pub fn Arch_switchToThread(k: &mut Kernel, tcb: usize)
    ensures
        final(k)@ == old(k)@.asked(request_t::SetVMRoot { tcb }),
        old(k).wf() ==> final(k).wf(),
{
    ask(k, request_t::SetVMRoot { tcb });
}

/// Asks for the address space of the idle thread.
pub fn Arch_switchToIdleThread(k: &mut Kernel)
    ensures
        final(k)@ == old(k)@.asked(request_t::SetVMRoot { tcb: old(k)@.ksIdleThread }),
        old(k).wf() ==> final(k).wf(),
{
    let t: usize = k.ksIdleThread;
    ask(k, request_t::SetVMRoot { tcb: t });
}

/// Switches to a thread.
pub fn switchToThread(k: &mut Kernel, thread: usize)
    requires
        old(k).wf(),
        2 <= thread < old(k)@.tcbs.len(),
    ensures
        final(k)@ == old(k)@.switched_to(thread),
        final(k).wf(),
        final(k)@.tcbs.len() == old(k)@.tcbs.len(),
        final(k)@.slots == old(k)@.slots,
{
    Arch_switchToThread(k, thread);
    tcbSchedDequeue(k, thread);
    k.ksCurThread = thread;
}

/// Switches to the idle thread.
pub fn switchToIdleThread(k: &mut Kernel)
    requires
        old(k).wf(),
    ensures
        final(k)@ == old(k)@.switched_to_idle(),
        final(k).wf(),
        final(k)@.tcbs.len() == old(k)@.tcbs.len(),
        final(k)@.slots == old(k)@.slots,
{
    Arch_switchToIdleThread(k);
    k.ksCurThread = k.ksIdleThread;
}

/// Switches to the thread at the head of the best ready queue of the current
/// domain, or to the idle thread if every queue is empty.
pub fn chooseThread(k: &mut Kernel)
    requires
        old(k).wf(),
    ensures
        old(k)@.ksReadyQueuesL1Bitmap[old(k)@.ksCurDomain as int] == 0 ==> final(k)@
            == old(k)@.switched_to_idle(),
        old(k)@.ksReadyQueuesL1Bitmap[old(k)@.ksCurDomain as int] != 0 ==> old(k)@.best_thread(
            final(k)@.ksCurThread,
        ) && final(k)@ == old(k)@.switched_to(final(k)@.ksCurThread),
        final(k).wf(),
        final(k)@.tcbs.len() == old(k)@.tcbs.len(),
        final(k)@.slots == old(k)@.slots,
{
    let dom: usize = k.ksCurDomain;
    if k.ksReadyQueuesL1Bitmap[dom] != 0 {
        let prio: usize = getHighestPrio(k, dom);
        let thread: usize = k.ksReadyQueues[ready_queues_index(dom, prio)].head;
        proof {
            assert(k@.sched().queue_inv(queue_index(dom, prio)));
        }
        switchToThread(k, thread);
    } else {
        switchToIdleThread(k);
    }
}

/// Chooses a new thread.
pub fn scheduleChooseNewThread(k: &mut Kernel)
    requires
        old(k).wf(),
    ensures
        old(k)@.ksReadyQueuesL1Bitmap[old(k)@.ksCurDomain as int] == 0 ==> final(k)@
            == old(k)@.switched_to_idle(),
        old(k)@.ksReadyQueuesL1Bitmap[old(k)@.ksCurDomain as int] != 0 ==> old(k)@.best_thread(
            final(k)@.ksCurThread,
        ) && final(k)@ == old(k)@.switched_to(final(k)@.ksCurThread),
        final(k).wf(),
        final(k)@.tcbs.len() == old(k)@.tcbs.len(),
        final(k)@.slots == old(k)@.slots,
{
    chooseThread(k);
}

/// Offers a thread to the scheduler.
pub fn possibleSwitchTo(k: &mut Kernel, target: usize)
    requires
        old(k).wf(),
        2 <= target < old(k)@.tcbs.len(),
    ensures
        final(k)@ == old(k)@.with_sched(old(k)@.sched().offered(target)),
        final(k).wf(),
        final(k)@.tcbs.len() == old(k)@.tcbs.len(),
        final(k)@.slots == old(k)@.slots,
{
    proof {
        lemma_offered_keeps_order(k@.sched(), target);
    }
    if k.ksCurDomain != k.tcbs[target].domain {
        tcbSchedEnqueue(k, target);
    } else if k.ksSchedulerAction != SchedulerAction_ResumeCurrentThread {
        rescheduleRequired(k);
        tcbSchedEnqueue(k, target);
    } else {
        k.ksSchedulerAction = target;
    }
}

/// Offering a thread to the scheduler keeps the scheduler's state in order.
pub proof fn lemma_offered_keeps_order(s: SchedView, t: usize)
    requires
        s.wf(),
        2 <= t < s.tcbs.len(),
    ensures
        s.offered(t).wf(),
        s.offered(t).tcbs.len() == s.tcbs.len(),
{
    if s.ksCurDomain != s.tcbs[t as int].domain {
        lemma_enqueue_keeps_order(s, t);
    } else if s.ksSchedulerAction != SchedulerAction_ResumeCurrentThread {
        lemma_rescheduled_keeps_order(s);
        lemma_enqueue_keeps_order(s.rescheduled(), t);
    } else {
        lemma_sched_frame(s, SchedView { ksSchedulerAction: t, ..s });
    }
}

/// Sets the highest priority a thread may give.
pub fn setMCPriority(k: &mut Kernel, tptr: usize, mcp: usize)
    requires
        old(k).wf(),
        tptr < old(k)@.tcbs.len(),
    ensures
        final(k)@ == (KernelView {
            tcbs: old(k)@.tcbs.update(tptr as int, TcbView { tcbMCP: mcp, ..old(k)@.tcbs[tptr as int] }),
            ..old(k)@
        }),
        final(k).wf(),
        final(k)@.tcbs.len() == old(k)@.tcbs.len(),
        final(k)@.slots == old(k)@.slots,
{
    k.tcbs[tptr].tcbMCP = mcp;
    proof {
        assert(k@.tcbs =~= old(k)@.tcbs.update(
            tptr as int,
            TcbView { tcbMCP: mcp, ..old(k)@.tcbs[tptr as int] },
        ));
        lemma_sched_frame(old(k)@.sched(), k@.sched());
    }
}

/// Sets the priority of a thread.
pub fn setPriority(k: &mut Kernel, tptr: usize, prio: usize)
    requires
        old(k).wf(),
        2 <= tptr < old(k)@.tcbs.len(),
        prio < CONFIG_NUM_PRIORITIES,
    ensures
        final(k)@ == old(k)@.priority_set(tptr, prio),
        final(k).wf(),
        final(k)@.tcbs.len() == old(k)@.tcbs.len(),
        final(k)@.slots == old(k)@.slots,
{
    proof {
        lemma_dequeue_keeps_order(k@.sched(), tptr);
    }
    tcbSchedDequeue(k, tptr);
    let ghost s1 = k@.sched();
    k.tcbs[tptr].tcbPriority = prio;
    proof {
        let s2 = SchedView {
            tcbs: s1.tcbs.update(tptr as int, TcbView { tcbPriority: prio, ..s1.tcbs[tptr as int] }),
            ..s1
        };
        assert(k@.tcbs =~= s2.tcbs);
        assert(k@.sched() == s2);
        lemma_priority_keeps_order(s1, tptr, prio);
    }
    if isRunnable(k, tptr) {
        if tptr == k.ksCurThread {
            rescheduleRequired(k);
        } else {
            possibleSwitchTo(k, tptr);
        }
    }
}

/// Giving a thread that is in no queue another priority keeps the scheduler's
/// state in order.
pub proof fn lemma_priority_keeps_order(s: SchedView, t: usize, prio: usize)
    requires
        s.wf(),
        2 <= t < s.tcbs.len(),
        !s.tcbs[t as int].tcbState.tcbQueued,
        prio < CONFIG_NUM_PRIORITIES,
    ensures
        (SchedView {
            tcbs: s.tcbs.update(t as int, TcbView { tcbPriority: prio, ..s.tcbs[t as int] }),
            ..s
        }).wf(),
{
    let n = SchedView {
        tcbs: s.tcbs.update(t as int, TcbView { tcbPriority: prio, ..s.tcbs[t as int] }),
        ..s
    };
    assert(s.tcb_inv(t as int));
    assert forall|x: int| 2 <= x < n.tcbs.len() implies #[trigger] n.tcb_inv(x) by {
        assert(s.tcb_inv(x));
    }
    assert forall|q: int| 0 <= q < NUM_READY_QUEUES implies #[trigger] n.queue_inv(q) by {
        assert(s.queue_inv(q));
    }
    assert forall|dom: usize, p: usize|
        dom < CONFIG_NUM_DOMAINS && p < CONFIG_NUM_PRIORITIES implies (#[trigger] n.l2_bit(dom, p)
        <==> !n.queue_empty(dom, p)) by {
        assert(s.l2_bit(dom, p) <==> !s.queue_empty(dom, p));
    }
    assert forall|dom: usize, i: usize| dom < CONFIG_NUM_DOMAINS && i < 64 implies (#[trigger] n.l1_bit(
        dom,
        i,
    ) <==> i < L2_BITMAP_SIZE && n.ksReadyQueuesL2Bitmap[dom * L2_BITMAP_SIZE + (L2_BITMAP_SIZE - 1
        - i)] != 0) by {
        assert(s.l1_bit(dom, i) <==> i < L2_BITMAP_SIZE && s.ksReadyQueuesL2Bitmap[dom
            * L2_BITMAP_SIZE + (L2_BITMAP_SIZE - 1 - i)] != 0);
    }
}

/// Suspends a thread.
pub fn suspend(k: &mut Kernel, target: usize)
    requires
        old(k).wf(),
        2 <= target < old(k)@.tcbs.len(),
    ensures
        final(k)@ == old(k)@.suspended(target),
        final(k).wf(),
        final(k)@.tcbs.len() == old(k)@.tcbs.len(),
        final(k)@.slots == old(k)@.slots,
{
    if k.tcbs[target].tcbState.tsType == ThreadStateRunning {
        updateReStartPC(k, target);
    }
    setThreadState(k, target, ThreadStateInactive);
    proof {
        lemma_dequeue_keeps_order(k@.sched(), target);
    }
    tcbSchedDequeue(k, target);
}

/// Restarts a stopped thread.
pub fn restart(k: &mut Kernel, target: usize)
    requires
        old(k).wf(),
        2 <= target < old(k)@.tcbs.len(),
    ensures
        final(k)@ == old(k)@.restarted(target),
        final(k).wf(),
        final(k)@.tcbs.len() == old(k)@.tcbs.len(),
        final(k)@.slots == old(k)@.slots,
{
    if isStopped(k, target) {
        setThreadState(k, target, ThreadStateRestart);
        proof {
            lemma_enqueue_keeps_order(k@.sched(), target);
        }
        tcbSchedEnqueue(k, target);
        possibleSwitchTo(k, target);
    }
}

/// Makes the current thread ready to return to user level.
pub fn activateThread(k: &mut Kernel)
    requires
        old(k).wf(),
        2 <= old(k)@.ksCurThread < old(k)@.tcbs.len(),
        ({
            let ts = old(k)@.tcbs[old(k)@.ksCurThread as int].tcbState.tsType;
            ts == ThreadStateRunning || ts == ThreadStateRestart || ts == ThreadStateIdleThreadState
        }),
    ensures
        final(k)@ == old(k)@.activated(),
        final(k).wf(),
        final(k)@.tcbs.len() == old(k)@.tcbs.len(),
        final(k)@.slots == old(k)@.slots,
        final(k)@.ksCurThread == old(k)@.ksCurThread,
        ({
            let ts = final(k)@.tcbs[final(k)@.ksCurThread as int].tcbState.tsType;
            ts == ThreadStateRunning || ts == ThreadStateIdleThreadState
        }),
        old(k)@.idle_state_is_idle_thread() ==> final(k)@.current_is_idle_or_running()
            && final(k)@.idle_state_is_idle_thread(),
{
    let thread: usize = k.ksCurThread;
    let ts: usize = k.tcbs[thread].tcbState.tsType;
    if ts == ThreadStateRunning {
        Arch_switchToThread(k, thread);
    } else if ts == ThreadStateRestart {
        let pc: usize = getReStartPC(k, thread);
        setNextPC(k, thread, pc);
        setThreadState(k, thread, ThreadStateRunning);
        Arch_switchToThread(k, thread);
    }
}

impl KernelView {
    /// Whether only the idle thread is in the state of the idle thread.
    pub open spec fn idle_state_is_idle_thread(self) -> bool {
        forall|t: int|
            2 <= t < self.tcbs.len() && (#[trigger] self.tcbs[t]).tcbState.tsType
                == ThreadStateIdleThreadState ==> t == self.ksIdleThread
    }

    /// Whether the current thread is the idle thread or a thread that runs.
    pub open spec fn current_is_idle_or_running(self) -> bool {
        self.ksCurThread == self.ksIdleThread || self.tcbs[self.ksCurThread as int].tcbState.tsType
            == ThreadStateRunning
    }

    /// The kernel after the scheduler made its choice: a thread that was set
    /// aside is switched to, a new thread is chosen if that was asked for, and
    /// the current thread is to be resumed from then on.
    pub open spec fn scheduled(self, new: KernelView) -> bool {
        if self.ksSchedulerAction == SchedulerAction_ResumeCurrentThread {
            new == self
        } else if self.ksSchedulerAction == SchedulerAction_ChooseNewThread {
            if self.ksReadyQueuesL1Bitmap[self.ksCurDomain as int] == 0 {
                new == (KernelView {
                    ksSchedulerAction: SchedulerAction_ResumeCurrentThread,
                    ..self.switched_to_idle()
                })
            } else {
                self.best_thread(new.ksCurThread) && new == (KernelView {
                    ksSchedulerAction: SchedulerAction_ResumeCurrentThread,
                    ..self.switched_to(new.ksCurThread)
                })
            }
        } else {
            new == (KernelView {
                ksSchedulerAction: SchedulerAction_ResumeCurrentThread,
                ..self.switched_to(self.ksSchedulerAction)
            })
        }
    }
}

/// Carries out what the scheduler's action asks for.
pub fn schedule(k: &mut Kernel)
    requires
        old(k).wf(),
    ensures
        old(k)@.scheduled(final(k)@),
        final(k).wf(),
        final(k)@.tcbs.len() == old(k)@.tcbs.len(),
        final(k)@.slots == old(k)@.slots,
{
    if k.ksSchedulerAction != SchedulerAction_ResumeCurrentThread {
        if k.ksSchedulerAction == SchedulerAction_ChooseNewThread {
            scheduleChooseNewThread(k);
        } else {
            let t: usize = k.ksSchedulerAction;
            switchToThread(k, t);
        }
        let ghost before = k@.sched();
        k.ksSchedulerAction = SchedulerAction_ResumeCurrentThread;
        proof {
            lemma_sched_frame(before, k@.sched());
        }
    }
}

/// Thread memory and an endpoint queue after thread `t` was put at the tail
/// of the queue.
pub open spec fn ep_appended(tcbs: Seq<TcbView>, t: usize, queue: tcb_queue_t) -> (Seq<TcbView>, tcb_queue_t) {
    let tcbs1 = if queue.head == 0 {
        tcbs
    } else {
        tcbs.update(queue.tail as int, TcbView { tcbEPNext: t, ..tcbs[queue.tail as int] })
    };
    (
        tcbs1.update(t as int, TcbView { tcbEPPrev: queue.tail, tcbEPNext: 0, ..tcbs1[t as int] }),
        tcb_queue_t {
            head: if queue.head == 0 {
                t
            } else {
                queue.head
            },
            tail: t,
        },
    )
}

/// Thread memory and an endpoint queue after thread `t` left the queue.
pub open spec fn ep_dequeued(tcbs: Seq<TcbView>, t: usize, queue: tcb_queue_t) -> (Seq<TcbView>, tcb_queue_t) {
    let prev = tcbs[t as int].tcbEPPrev;
    let next = tcbs[t as int].tcbEPNext;
    let tcbs1 = if prev != 0 {
        tcbs.update(prev as int, TcbView { tcbEPNext: next, ..tcbs[prev as int] })
    } else {
        tcbs
    };
    let tcbs2 = if next != 0 {
        tcbs1.update(next as int, TcbView { tcbEPPrev: prev, ..tcbs1[next as int] })
    } else {
        tcbs1
    };
    (
        tcbs2,
        tcb_queue_t {
            head: if prev != 0 {
                queue.head
            } else {
                next
            },
            tail: if next != 0 {
                queue.tail
            } else {
                prev
            },
        },
    )
}

/// Puts a thread at the tail of an endpoint queue.
pub fn tcbEPAppend(k: &mut Kernel, tcb: usize, queue: tcb_queue_t) -> (r: tcb_queue_t)
    requires
        old(k).wf(),
        tcb < old(k)@.tcbs.len(),
        queue.head != 0 ==> queue.tail < old(k)@.tcbs.len(),
    ensures
        final(k)@ == (KernelView { tcbs: ep_appended(old(k)@.tcbs, tcb, queue).0, ..old(k)@ }),
        r == ep_appended(old(k)@.tcbs, tcb, queue).1,
        final(k).wf(),
{
    let mut q = queue;
    if q.head == 0 {
        q.head = tcb;
    } else {
        k.tcbs[q.tail].tcbEPNext = tcb;
    }
    k.tcbs[tcb].tcbEPPrev = q.tail;
    k.tcbs[tcb].tcbEPNext = 0;
    q.tail = tcb;
    proof {
        assert(k@.tcbs =~= ep_appended(old(k)@.tcbs, tcb, queue).0);
        lemma_sched_frame(old(k)@.sched(), k@.sched());
    }
    q
}

/// Takes a thread out of an endpoint queue.
pub fn tcbEPDequeue(k: &mut Kernel, tcb: usize, queue: tcb_queue_t) -> (r: tcb_queue_t)
    requires
        old(k).wf(),
        tcb < old(k)@.tcbs.len(),
        old(k)@.tcbs[tcb as int].tcbEPPrev < old(k)@.tcbs.len(),
        old(k)@.tcbs[tcb as int].tcbEPNext < old(k)@.tcbs.len(),
    ensures
        final(k)@ == (KernelView { tcbs: ep_dequeued(old(k)@.tcbs, tcb, queue).0, ..old(k)@ }),
        r == ep_dequeued(old(k)@.tcbs, tcb, queue).1,
        final(k).wf(),
{
    let mut q = queue;
    let prev: usize = k.tcbs[tcb].tcbEPPrev;
    let next: usize = k.tcbs[tcb].tcbEPNext;
    if prev != 0 {
        k.tcbs[prev].tcbEPNext = next;
    } else {
        q.head = next;
    }
    if next != 0 {
        k.tcbs[next].tcbEPPrev = prev;
    } else {
        q.tail = prev;
    }
    proof {
        assert(k@.tcbs =~= ep_dequeued(old(k)@.tcbs, tcb, queue).0);
        lemma_sched_frame(old(k)@.sched(), k@.sched());
    }
    q
}

/// Thread memory with the registers of the idle thread set up: it starts at
/// `idle_pc` in supervisor mode, on a stack that ends at `stack_top`.
pub open spec fn idle_registers(tcbs: Seq<TcbView>, tcb: usize, idle_pc: usize, stack_top: usize) -> Seq<TcbView> {
    with_register(
        with_register(
            with_register(tcbs, tcb, NextIP, idle_pc),
            tcb,
            SSTATUS,
            (SSTATUS_SPP + SSTATUS_SPIE) as usize,
        ),
        tcb,
        sp,
        stack_top,
    )
}

/// Sets up the registers of the idle thread.
pub fn Arch_configureIdleThread(k: &mut Kernel, tcb: usize, idle_pc: usize, kernel_stack: usize)
    requires
        tcb < old(k)@.tcbs.len(),
        kernel_stack + 4096 <= usize::MAX,
    ensures
        final(k)@ == (KernelView {
            tcbs: idle_registers(old(k)@.tcbs, tcb, idle_pc, (kernel_stack + 4096) as usize),
            ..old(k)@
        }),
        old(k).wf() ==> final(k).wf(),
{
    setRegister(k, tcb, NextIP, idle_pc);
    setRegister(k, tcb, SSTATUS, SSTATUS_SPP + SSTATUS_SPIE);
    setRegister(k, tcb, sp, kernel_stack + 4096);
}

/// Sets up the idle thread.
pub fn configureIdleThread(k: &mut Kernel, tcb: usize, idle_pc: usize, kernel_stack: usize)
    requires
        old(k).wf(),
        2 <= tcb < old(k)@.tcbs.len(),
        kernel_stack + 4096 <= usize::MAX,
    ensures
        final(k)@ == (KernelView {
            tcbs: idle_registers(old(k)@.tcbs, tcb, idle_pc, (kernel_stack + 4096) as usize),
            ..old(k)@
        }).state_set(tcb, ThreadStateIdleThreadState),
        final(k).wf(),
{
    Arch_configureIdleThread(k, tcb, idle_pc, kernel_stack);
    setThreadState(k, tcb, ThreadStateIdleThreadState);
}

/// While the scheduler's state is in order, the second-level bit of a
/// priority is clear exactly if the queue of that priority is empty, and the
/// first-level word of a domain is zero exactly if every queue of the domain
/// is empty.
pub proof fn lemma_bitmaps_tell_queues(s: SchedView, dom: usize, prio: usize)
    requires
        s.wf(),
        dom < CONFIG_NUM_DOMAINS,
        prio < CONFIG_NUM_PRIORITIES,
    ensures
        s.queue_empty(dom, prio) <==> !s.l2_bit(dom, prio),
        s.ksReadyQueuesL1Bitmap[dom as int] == 0 <==> forall|p: usize|
            p < CONFIG_NUM_PRIORITIES ==> #[trigger] s.queue_empty(dom, p),
{
    assert(s.l2_bit(dom, prio) <==> !s.queue_empty(dom, prio));
    let l1 = s.ksReadyQueuesL1Bitmap[dom as int];
    lemma_zero_no_bit(l1);
    if l1 == 0 {
        assert forall|p: usize| p < CONFIG_NUM_PRIORITIES implies #[trigger] s.queue_empty(dom, p) by {
            assert(s.l2_bit(dom, p) <==> !s.queue_empty(dom, p));
            assert(!s.l1_bit(dom, (p / 64) as usize));
            lemma_zero_no_bit(s.ksReadyQueuesL2Bitmap[l2_index(dom, p)]);
        }
    } else {
        lemma_highest_bit(l1);
        let h = (63 - u64_leading_zeros(l1)) as usize;
        assert(s.l1_bit(dom, h));
        let row = s.ksReadyQueuesL2Bitmap[dom * L2_BITMAP_SIZE + (L2_BITMAP_SIZE - 1 - h)];
        lemma_highest_bit(row);
        let b = (63 - u64_leading_zeros(row)) as usize;
        let p = (h * 64 + b) as usize;
        assert(s.l2_bit(dom, p));
        assert(s.l2_bit(dom, p) <==> !s.queue_empty(dom, p));
        assert(!s.queue_empty(dom, p));
    }
}

/// While the scheduler's state is in order, a thread that is in no ready
/// queue has no neighbour in one, and the neighbours of a thread that is in a
/// queue are queued and link back to it.
pub proof fn lemma_queue_links(s: SchedView, t: int)
    requires
        s.wf(),
        2 <= t < s.tcbs.len(),
    ensures
        !s.tcbs[t].tcbState.tcbQueued ==> s.tcbs[t].tcbSchedPrev == 0 && s.tcbs[t].tcbSchedNext == 0,
        s.tcbs[t].tcbState.tcbQueued && s.tcbs[t].tcbSchedNext != 0 ==> s.tcbs[s.tcbs[t].tcbSchedNext as int].tcbState.tcbQueued
            && s.tcbs[s.tcbs[t].tcbSchedNext as int].tcbSchedPrev == t,
        s.tcbs[t].tcbState.tcbQueued && s.tcbs[t].tcbSchedPrev != 0 ==> s.tcbs[s.tcbs[t].tcbSchedPrev as int].tcbState.tcbQueued
            && s.tcbs[s.tcbs[t].tcbSchedPrev as int].tcbSchedNext == t,
{
    assert(s.tcb_inv(t));
}

} // verus!
