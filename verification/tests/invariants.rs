use rel4_kernel::boot::write_slot;
use rel4_kernel::cap::cap_t;
use rel4_kernel::cspace::{cteInsert, cteMove, cteSwap};
use rel4_kernel::delete::{cteDelete, cteRevoke};
use rel4_kernel::kernel::Kernel;
use rel4_kernel::structures::{dschedule_t, exception_t, mdb_node_t};
use rel4_kernel::thread::{
    getHighestPrio, possibleSwitchTo, rescheduleRequired, setPriority, setThreadState,
    tcbSchedDequeue, tcbSchedEnqueue,
};

const ROOT: usize = 128;
const SLOTS: usize = 24;

struct Rng(u64);

impl Rng {
    fn next(&mut self, bound: usize) -> usize {
        self.0 = self.0.wrapping_mul(6364136223846793005).wrapping_add(1442695040888963407);
        ((self.0 >> 33) as usize) % bound
    }
}

fn endpoint(ptr: usize, badge: u64) -> cap_t {
    cap_t::EndpointCap {
        capEPPtr: ptr,
        capEPBadge: badge,
        capCanGrantReply: true,
        capCanGrant: true,
        capCanSend: true,
        capCanReceive: true,
    }
}

fn list_is_consistent(k: &Kernel) {
    for (i, slot) in k.slots.iter().enumerate() {
        let m = slot.cteMDBNode;
        if slot.cap == cap_t::NullCap {
            assert_eq!(m, mdb_node_t::default());
        }
        if m.mdbNext != 0 {
            assert_eq!(k.slots[m.mdbNext].cteMDBNode.mdbPrev, i);
            assert!(k.slots[m.mdbNext].cap != cap_t::NullCap);
        }
        if m.mdbPrev != 0 {
            assert_eq!(k.slots[m.mdbPrev].cteMDBNode.mdbNext, i);
        }
        // no walk along the successors comes back
        let mut at = m.mdbNext;
        let mut steps = 0;
        while at != 0 {
            assert!(at != i);
            at = k.slots[at].cteMDBNode.mdbNext;
            steps += 1;
            assert!(steps <= k.slots.len());
        }
    }
}

#[test]
fn derivation_list_stays_consistent() {
    let mut k = Kernel::new(512, 8, 400, dschedule_t { domain: 0, length: 10 });
    let mut rng = Rng(7);
    for i in 0..4 {
        write_slot(&mut k, ROOT + i, endpoint(0x40 + 0x10 * i, 0));
    }
    for _ in 0..3000 {
        let a = ROOT + rng.next(SLOTS);
        let b = ROOT + rng.next(SLOTS);
        let (cap_a, cap_b) = (k.slots[a].cap, k.slots[b].cap);
        match rng.next(6) {
            0 | 1 => {
                if cap_a != cap_t::NullCap && cap_b == cap_t::NullCap {
                    let badge = rng.next(3) as u64;
                    cteInsert(&mut k, &endpoint(cap_a_ptr(&cap_a), badge), a, b);
                }
            }
            2 => {
                if cap_a != cap_t::NullCap && cap_b == cap_t::NullCap {
                    cteMove(&mut k, &cap_a, a, b);
                }
            }
            3 => {
                if a != b {
                    cteSwap(&mut k, &cap_a, a, &cap_b, b);
                }
            }
            4 => {
                assert!(cteDelete(&mut k, a, true) == exception_t::EXCEPTION_NONE);
                assert_eq!(k.slots[a].cap, cap_t::NullCap);
            }
            _ => {
                assert!(cteRevoke(&mut k, a) == exception_t::EXCEPTION_NONE);
                let next = k.slots[a].cteMDBNode.mdbNext;
                assert!(next == 0 || !rel4_kernel::cspace::isMDBParentOf(&k, a, next));
            }
        }
        list_is_consistent(&k);
        if k.slots[ROOT..ROOT + SLOTS].iter().all(|c| c.cap == cap_t::NullCap) {
            write_slot(&mut k, ROOT, endpoint(0x40, 0));
        }
    }
}

fn cap_a_ptr(cap: &cap_t) -> usize {
    match cap {
        cap_t::EndpointCap { capEPPtr, .. } => *capEPPtr,
        _ => 0,
    }
}

fn queues_are_consistent(k: &Kernel) {
    let mut queued = vec![false; k.tcbs.len()];
    for prio in 0..256 {
        let q = k.ksReadyQueues[prio];
        assert_eq!(q.head == 0, q.tail == 0);
        let bit = (k.ksReadyQueuesL2Bitmap[3 - prio / 64] >> (prio % 64)) & 1 == 1;
        assert_eq!(bit, q.head != 0);
        let mut prev = 0;
        let mut at = q.head;
        while at != 0 {
            let t = &k.tcbs[at];
            assert!(t.tcbState.tcbQueued);
            assert_eq!(t.tcbPriority, prio);
            assert_eq!(t.tcbSchedPrev, prev);
            assert!(!queued[at]);
            queued[at] = true;
            prev = at;
            at = t.tcbSchedNext;
        }
        assert_eq!(q.tail, prev);
    }
    for i in 0..4 {
        let bit = (k.ksReadyQueuesL1Bitmap[0] >> i) & 1 == 1;
        assert_eq!(bit, k.ksReadyQueuesL2Bitmap[3 - i] != 0);
    }
    assert_eq!(k.ksReadyQueuesL1Bitmap[0] >> 4, 0);
    for (t, tcb) in k.tcbs.iter().enumerate().skip(2) {
        assert_eq!(tcb.tcbState.tcbQueued, queued[t]);
        if !tcb.tcbState.tcbQueued {
            assert_eq!((tcb.tcbSchedPrev, tcb.tcbSchedNext), (0, 0));
        }
    }
    if k.ksReadyQueuesL1Bitmap[0] != 0 {
        let best = getHighestPrio(k, 0);
        assert!(k.ksReadyQueues[best].head != 0);
        assert!((best + 1..256).all(|p| k.ksReadyQueues[p].head == 0));
    }
}

#[test]
fn ready_queues_stay_consistent() {
    let mut k = Kernel::new(512, 12, 400, dschedule_t { domain: 0, length: 10 });
    k.ksCurThread = 2;
    k.ksIdleThread = 3;
    let mut rng = Rng(11);
    for _ in 0..5000 {
        let t = 2 + rng.next(10);
        match rng.next(6) {
            0 => tcbSchedEnqueue(&mut k, t),
            1 => tcbSchedDequeue(&mut k, t),
            2 => {
                let prios = [0usize, 1, 63, 64, 65, 127, 128, 200, 255];
                setPriority(&mut k, t, prios[rng.next(prios.len())]);
            }
            3 => setThreadState(&mut k, t, rng.next(8)),
            4 => possibleSwitchTo(&mut k, t),
            _ => rescheduleRequired(&mut k),
        }
        queues_are_consistent(&k);
        if rng.next(4) == 0 {
            k.ksSchedulerAction = 0;
        }
    }
}
