use rel4_kernel::kernel::{request_t, Kernel};
use rel4_kernel::preemption::preemptionPoint;
use rel4_kernel::structures::{arch_tcb_t, dschedule_t, exception_t, tcb_queue_t};
use rel4_kernel::thread::{
    activateThread, addToBitmap, chooseThread, configureIdleThread, doNBRecvFailedTransfer,
    getHighestPrio, getReStartPC, getRegister, invert_l1index, isHighestPrio, isRunnable,
    isStopped, l1index_to_prio, possibleSwitchTo, prio_to_l1index, ready_queues_index,
    removeFromBitmap, rescheduleRequired, restart, schedule, scheduleChooseNewThread,
    scheduleTCB, setMCPriority, setNextPC, setPriority, setRegister, setRestartPC,
    setThreadState, suspend, switchToIdleThread, switchToThread, tcbEPAppend, tcbEPDequeue,
    tcbSchedAppend, tcbSchedDequeue, tcbSchedEnqueue, updateReStartPC, Arch_configureIdleThread,
    Arch_initContext, Arch_switchToIdleThread, Arch_switchToThread,
};

const INACTIVE: usize = 0;
const RUNNING: usize = 1;
const RESTART: usize = 2;
const BLOCKED_ON_RECEIVE: usize = 3;
const IDLE: usize = 7;
const FAULT_IP: usize = 33;
const NEXT_IP: usize = 34;

fn kernel() -> Kernel {
    let mut k = Kernel::new(512, 12, 400, dschedule_t { domain: 0, length: 10 });
    k.ksCurThread = 2;
    k.ksIdleThread = 3;
    k
}

fn queue(k: &Kernel, prio: usize) -> Vec<usize> {
    let mut out = Vec::new();
    let mut t = k.ksReadyQueues[prio].head;
    while t != 0 {
        out.push(t);
        t = k.tcbs[t].tcbSchedNext;
    }
    out
}

#[test]
fn bitmap_indices() {
    assert_eq!(ready_queues_index(0, 37), 37);
    assert_eq!(prio_to_l1index(0), 0);
    assert_eq!(prio_to_l1index(63), 0);
    assert_eq!(prio_to_l1index(64), 1);
    assert_eq!(prio_to_l1index(255), 3);
    assert_eq!(l1index_to_prio(3), 192);
    assert_eq!(invert_l1index(0), 3);
    assert_eq!(invert_l1index(3), 0);
}

#[test]
fn highest_priority_follows_the_queues() {
    let mut k = kernel();
    let prios = [0usize, 31, 63, 255];
    for (i, p) in prios.iter().enumerate() {
        k.tcbs[4 + i].tcbPriority = *p;
        tcbSchedEnqueue(&mut k, 4 + i);
    }
    assert_eq!(k.ksReadyQueuesL1Bitmap[0], 0b1001);
    assert_eq!(k.ksReadyQueuesL2Bitmap[3], (1 << 0) | (1 << 31) | (1 << 63));
    assert_eq!(k.ksReadyQueuesL2Bitmap[0], 1 << 63);
    assert_eq!(getHighestPrio(&k, 0), 255);
    assert!(isHighestPrio(&k, 0, 255));
    assert!(!isHighestPrio(&k, 0, 254));
    tcbSchedDequeue(&mut k, 7);
    assert_eq!(getHighestPrio(&k, 0), 63);
    tcbSchedDequeue(&mut k, 6);
    assert_eq!(getHighestPrio(&k, 0), 31);
    tcbSchedDequeue(&mut k, 5);
    assert_eq!(getHighestPrio(&k, 0), 0);
    assert!(isHighestPrio(&k, 0, 0));
    tcbSchedDequeue(&mut k, 4);
    assert_eq!(k.ksReadyQueuesL1Bitmap[0], 0);
    assert_eq!(k.ksReadyQueuesL2Bitmap, vec![0, 0, 0, 0]);
    assert!(isHighestPrio(&k, 0, 0));
}

#[test]
fn bitmap_bits_are_set_and_cleared() {
    let mut k = kernel();
    addToBitmap(&mut k, 0, 70);
    addToBitmap(&mut k, 0, 71);
    assert_eq!(k.ksReadyQueuesL1Bitmap[0], 0b10);
    assert_eq!(k.ksReadyQueuesL2Bitmap[2], 0b1100_0000);
    removeFromBitmap(&mut k, 0, 70);
    assert_eq!(k.ksReadyQueuesL1Bitmap[0], 0b10);
    assert_eq!(k.ksReadyQueuesL2Bitmap[2], 0b1000_0000);
    removeFromBitmap(&mut k, 0, 71);
    assert_eq!(k.ksReadyQueuesL1Bitmap[0], 0);
    assert_eq!(k.ksReadyQueuesL2Bitmap[2], 0);
}

#[test]
fn queue_is_first_in_first_out() {
    let mut k = kernel();
    for t in [4usize, 5, 6] {
        k.tcbs[t].tcbPriority = 9;
    }
    tcbSchedEnqueue(&mut k, 4);
    tcbSchedAppend(&mut k, 5);
    tcbSchedEnqueue(&mut k, 6);
    assert_eq!(queue(&k, 9), vec![4, 5, 6]);
    assert_eq!(k.ksReadyQueues[9], tcb_queue_t { head: 4, tail: 6 });
    assert!(k.tcbs[5].tcbState.tcbQueued);
    // queueing twice changes nothing
    tcbSchedEnqueue(&mut k, 5);
    tcbSchedAppend(&mut k, 4);
    assert_eq!(queue(&k, 9), vec![4, 5, 6]);
    tcbSchedDequeue(&mut k, 5);
    assert_eq!(queue(&k, 9), vec![4, 6]);
    assert!(!k.tcbs[5].tcbState.tcbQueued);
    assert_eq!((k.tcbs[5].tcbSchedPrev, k.tcbs[5].tcbSchedNext), (0, 0));
    assert_eq!((k.tcbs[4].tcbSchedPrev, k.tcbs[4].tcbSchedNext), (0, 6));
    assert_eq!((k.tcbs[6].tcbSchedPrev, k.tcbs[6].tcbSchedNext), (4, 0));
    // taking out a thread that is in no queue changes nothing
    tcbSchedDequeue(&mut k, 5);
    assert_eq!(queue(&k, 9), vec![4, 6]);
    tcbSchedDequeue(&mut k, 4);
    tcbSchedDequeue(&mut k, 6);
    assert_eq!(k.ksReadyQueues[9], tcb_queue_t { head: 0, tail: 0 });
    assert_eq!(k.ksReadyQueuesL1Bitmap[0], 0);
}

#[test]
fn stopped_and_runnable_states() {
    let mut k = kernel();
    assert!(isStopped(&k, 0));
    assert!(isStopped(&k, 1));
    assert!(!isRunnable(&k, 0));
    assert!(!isRunnable(&k, 1));
    for (state, stopped, runnable) in [
        (INACTIVE, true, false),
        (RUNNING, false, true),
        (RESTART, false, true),
        (BLOCKED_ON_RECEIVE, true, false),
        (4, true, false),
        (5, true, false),
        (6, true, false),
        (IDLE, false, false),
    ] {
        k.tcbs[4].tcbState.tsType = state;
        assert_eq!(isStopped(&k, 4), stopped);
        assert_eq!(isRunnable(&k, 4), runnable);
    }
}

#[test]
fn registers_and_program_counters() {
    let mut k = kernel();
    setRegister(&mut k, 4, 9, 77);
    assert_eq!(getRegister(&k, 4, 9), 77);
    setNextPC(&mut k, 4, 0x1000);
    assert_eq!(getRegister(&k, 4, NEXT_IP), 0x1000);
    updateReStartPC(&mut k, 4);
    assert_eq!(getReStartPC(&k, 4), 0x1000);
    setRestartPC(&mut k, 4, 0x2000);
    assert_eq!(getRegister(&k, 4, NEXT_IP), 0x2000);
    assert_eq!(getRegister(&k, 4, FAULT_IP), 0x1000);
    doNBRecvFailedTransfer(&mut k, 4);
    assert_eq!(getRegister(&k, 4, 9), 0);
    let context = Arch_initContext(arch_tcb_t { registers: [5; 35] });
    assert_eq!(context.registers[32], 0x0004_0020);
    assert_eq!(context.registers[31], 5);
}

#[test]
fn blocking_the_current_thread_asks_for_a_new_one() {
    let mut k = kernel();
    k.tcbs[2].tcbState.tsType = RUNNING;
    setThreadState(&mut k, 2, RESTART);
    assert_eq!(k.ksSchedulerAction, 0);
    setThreadState(&mut k, 2, BLOCKED_ON_RECEIVE);
    assert_eq!(k.tcbs[2].tcbState.tsType, BLOCKED_ON_RECEIVE);
    assert_eq!(k.ksSchedulerAction, 1);
    // another thread leaves the action alone
    k.ksSchedulerAction = 0;
    setThreadState(&mut k, 5, INACTIVE);
    assert_eq!(k.ksSchedulerAction, 0);
    scheduleTCB(&mut k, 2);
    assert_eq!(k.ksSchedulerAction, 1);
}

#[test]
fn reschedule_puts_the_set_aside_thread_back() {
    let mut k = kernel();
    k.tcbs[5].tcbPriority = 20;
    k.ksSchedulerAction = 5;
    rescheduleRequired(&mut k);
    assert_eq!(k.ksSchedulerAction, 1);
    assert_eq!(queue(&k, 20), vec![5]);
    rescheduleRequired(&mut k);
    assert_eq!(k.ksSchedulerAction, 1);
    assert_eq!(queue(&k, 20), vec![5]);
}

#[test]
fn possible_switch_to_upgrades_and_downgrades() {
    let mut k = kernel();
    k.tcbs[5].tcbPriority = 20;
    k.tcbs[6].tcbPriority = 30;
    possibleSwitchTo(&mut k, 5);
    assert_eq!(k.ksSchedulerAction, 5);
    assert!(queue(&k, 20).is_empty());
    possibleSwitchTo(&mut k, 6);
    assert_eq!(k.ksSchedulerAction, 1);
    assert_eq!(queue(&k, 20), vec![5]);
    assert_eq!(queue(&k, 30), vec![6]);
}

#[test]
fn choose_thread_takes_the_head_of_the_best_queue() {
    let mut k = kernel();
    k.tcbs[5].tcbPriority = 20;
    k.tcbs[6].tcbPriority = 30;
    k.tcbs[7].tcbPriority = 30;
    tcbSchedEnqueue(&mut k, 5);
    tcbSchedEnqueue(&mut k, 6);
    tcbSchedEnqueue(&mut k, 7);
    chooseThread(&mut k);
    assert_eq!(k.ksCurThread, 6);
    assert_eq!(queue(&k, 30), vec![7]);
    assert_eq!(k.requests, vec![request_t::SetVMRoot { tcb: 6 }]);
    scheduleChooseNewThread(&mut k);
    assert_eq!(k.ksCurThread, 7);
    chooseThread(&mut k);
    assert_eq!(k.ksCurThread, 5);
    // nothing is left: the idle thread runs
    chooseThread(&mut k);
    assert_eq!(k.ksCurThread, 3);
    assert_eq!(k.requests.last(), Some(&request_t::SetVMRoot { tcb: 3 }));
}

#[test]
fn schedule_carries_out_the_action() {
    let mut k = kernel();
    k.tcbs[5].tcbPriority = 20;
    tcbSchedEnqueue(&mut k, 5);
    schedule(&mut k);
    assert_eq!(k.ksCurThread, 2);
    assert!(k.requests.is_empty());
    k.ksSchedulerAction = 5;
    schedule(&mut k);
    assert_eq!(k.ksCurThread, 5);
    assert_eq!(k.ksSchedulerAction, 0);
    assert!(queue(&k, 20).is_empty());
    k.tcbs[6].tcbPriority = 3;
    tcbSchedEnqueue(&mut k, 6);
    k.ksSchedulerAction = 1;
    schedule(&mut k);
    assert_eq!(k.ksCurThread, 6);
    assert_eq!(k.ksSchedulerAction, 0);
    k.ksSchedulerAction = 1;
    schedule(&mut k);
    assert_eq!(k.ksCurThread, 3);
}

#[test]
fn switching_threads() {
    let mut k = kernel();
    k.tcbs[5].tcbPriority = 20;
    tcbSchedEnqueue(&mut k, 5);
    switchToThread(&mut k, 5);
    assert_eq!(k.ksCurThread, 5);
    assert!(!k.tcbs[5].tcbState.tcbQueued);
    switchToIdleThread(&mut k);
    assert_eq!(k.ksCurThread, 3);
    Arch_switchToThread(&mut k, 9);
    Arch_switchToIdleThread(&mut k);
    assert_eq!(
        k.requests,
        vec![
            request_t::SetVMRoot { tcb: 5 },
            request_t::SetVMRoot { tcb: 3 },
            request_t::SetVMRoot { tcb: 9 },
            request_t::SetVMRoot { tcb: 3 },
        ]
    );
}

#[test]
fn activation_rewinds_a_restarting_thread() {
    let mut k = kernel();
    k.tcbs[2].tcbState.tsType = RESTART;
    setRegister(&mut k, 2, FAULT_IP, 0x4000);
    setRegister(&mut k, 2, NEXT_IP, 0x4004);
    activateThread(&mut k);
    assert_eq!(k.tcbs[2].tcbState.tsType, RUNNING);
    assert_eq!(getRegister(&k, 2, NEXT_IP), 0x4000);
    assert_eq!(k.requests, vec![request_t::SetVMRoot { tcb: 2 }]);
    activateThread(&mut k);
    assert_eq!(k.tcbs[2].tcbState.tsType, RUNNING);
    assert_eq!(k.requests.len(), 2);
    k.ksCurThread = 3;
    k.tcbs[3].tcbState.tsType = IDLE;
    activateThread(&mut k);
    assert_eq!(k.tcbs[3].tcbState.tsType, IDLE);
    assert_eq!(k.requests.len(), 2);
}

#[test]
fn suspend_and_restart() {
    let mut k = kernel();
    k.tcbs[5].tcbPriority = 20;
    k.tcbs[5].tcbState.tsType = RUNNING;
    setRegister(&mut k, 5, NEXT_IP, 0x8000);
    tcbSchedEnqueue(&mut k, 5);
    suspend(&mut k, 5);
    assert_eq!(k.tcbs[5].tcbState.tsType, INACTIVE);
    assert!(!k.tcbs[5].tcbState.tcbQueued);
    assert!(queue(&k, 20).is_empty());
    assert_eq!(getRegister(&k, 5, FAULT_IP), 0x8000);
    restart(&mut k, 5);
    assert_eq!(k.tcbs[5].tcbState.tsType, RESTART);
    assert!(k.tcbs[5].tcbState.tcbQueued);
    assert_eq!(k.ksSchedulerAction, 5);
    // a thread that runs is not restarted
    k.tcbs[6].tcbState.tsType = RUNNING;
    restart(&mut k, 6);
    assert_eq!(k.tcbs[6].tcbState.tsType, RUNNING);
    assert!(!k.tcbs[6].tcbState.tcbQueued);
    // suspending the current thread asks for a new one
    k.ksSchedulerAction = 0;
    k.tcbs[2].tcbState.tsType = RUNNING;
    suspend(&mut k, 2);
    assert_eq!(k.ksSchedulerAction, 1);
}

#[test]
fn priorities() {
    let mut k = kernel();
    setMCPriority(&mut k, 5, 99);
    assert_eq!(k.tcbs[5].tcbMCP, 99);
    k.tcbs[5].tcbPriority = 20;
    k.tcbs[5].tcbState.tsType = RUNNING;
    tcbSchedEnqueue(&mut k, 5);
    setPriority(&mut k, 5, 40);
    assert_eq!(k.tcbs[5].tcbPriority, 40);
    assert!(queue(&k, 20).is_empty());
    assert_eq!(k.ksSchedulerAction, 5);
    // an inactive thread just takes the priority
    setPriority(&mut k, 6, 41);
    assert_eq!(k.tcbs[6].tcbPriority, 41);
    assert!(!k.tcbs[6].tcbState.tcbQueued);
    // the current thread asks for a new choice
    k.tcbs[2].tcbState.tsType = RUNNING;
    setPriority(&mut k, 2, 1);
    assert_eq!(k.ksSchedulerAction, 1);
    assert_eq!(queue(&k, 40), vec![5]);
}

#[test]
fn endpoint_queue() {
    let mut k = kernel();
    let q = tcb_queue_t { head: 0, tail: 0 };
    let q = tcbEPAppend(&mut k, 4, q);
    let q = tcbEPAppend(&mut k, 5, q);
    let q = tcbEPAppend(&mut k, 6, q);
    assert_eq!(q, tcb_queue_t { head: 4, tail: 6 });
    assert_eq!((k.tcbs[5].tcbEPPrev, k.tcbs[5].tcbEPNext), (4, 6));
    let q = tcbEPDequeue(&mut k, 5, q);
    assert_eq!(q, tcb_queue_t { head: 4, tail: 6 });
    assert_eq!((k.tcbs[4].tcbEPPrev, k.tcbs[4].tcbEPNext), (0, 6));
    assert_eq!((k.tcbs[6].tcbEPPrev, k.tcbs[6].tcbEPNext), (4, 0));
    let q = tcbEPDequeue(&mut k, 4, q);
    assert_eq!(q, tcb_queue_t { head: 6, tail: 6 });
    let q = tcbEPDequeue(&mut k, 6, q);
    assert_eq!(q, tcb_queue_t { head: 0, tail: 0 });
}

#[test]
fn idle_thread_setup() {
    let mut k = kernel();
    configureIdleThread(&mut k, 3, 0x8020_0000, 0x8030_0000);
    assert_eq!(getRegister(&k, 3, NEXT_IP), 0x8020_0000);
    assert_eq!(getRegister(&k, 3, 32), 0x120);
    assert_eq!(getRegister(&k, 3, 1), 0x8030_1000);
    assert_eq!(k.tcbs[3].tcbState.tsType, IDLE);
    Arch_configureIdleThread(&mut k, 4, 0x10, 0x2000);
    assert_eq!(getRegister(&k, 4, 1), 0x3000);
}

#[test]
fn preemption_point_counts_work() {
    let mut k = kernel();
    k.ksMaxWorkUnits = 3;
    k.irq_pending = true;
    assert!(preemptionPoint(&mut k) == exception_t::EXCEPTION_NONE);
    assert!(preemptionPoint(&mut k) == exception_t::EXCEPTION_NONE);
    assert_eq!(k.ksWorkUnitsCompleted, 2);
    assert!(preemptionPoint(&mut k) == exception_t::EXCEPTION_PREEMTED);
    assert_eq!(k.ksWorkUnitsCompleted, 0);
    k.irq_pending = false;
    for _ in 0..6 {
        assert!(preemptionPoint(&mut k) == exception_t::EXCEPTION_NONE);
    }
    assert_eq!(k.ksWorkUnitsCompleted, 0);
}
