use rel4_kernel::boot::write_slot;
use rel4_kernel::cap::cap_t;
use rel4_kernel::cspace::{cteInsert, insertNewCap};
use rel4_kernel::delete::{
    capSwapForDelete, cteDelete, cteDeleteOne, cteRevoke, deletingIRQHandler, emptySlot,
    finaliseCap, finaliseSlot, postCapDeletion, reduceZombie,
};
use rel4_kernel::kernel::{request_t, Kernel};
use rel4_kernel::structures::{cte_t, dschedule_t, exception_t};

const ROOT: usize = 128;
const IRQ_NODE: usize = 400;

fn kernel() -> Kernel {
    let mut k = Kernel::new(512, 12, IRQ_NODE, dschedule_t { domain: 0, length: 10 });
    k.ksCurThread = 2;
    k.ksIdleThread = 3;
    k
}

fn endpoint(ptr: usize, badge: u64) -> cap_t {
    cap_t::EndpointCap {
        capEPPtr: ptr,
        capEPBadge: badge,
        capCanGrantReply: true,
        capCanGrant: true,
        capCanSend: true,
        capCanReceive: true,
    }
}

fn notification(ptr: usize) -> cap_t {
    cap_t::NotificationCap {
        capNtfnPtr: ptr,
        capNtfnBadge: 0,
        capNtfnCanReceive: true,
        capNtfnCanSend: true,
    }
}

fn cnode(ptr: usize, radix: usize) -> cap_t {
    cap_t::CNodeCap { capCNodePtr: ptr, capCNodeRadix: radix, capCNodeGuardSize: 0, capCNodeGuard: 0 }
}

fn zombie(ptr: usize, zombie_type: usize, number: usize) -> cap_t {
    cap_t::ZombieCap { capZombiePtr: ptr, capZombieType: zombie_type, capZombieNumber: number }
}

fn links(k: &Kernel, slot: usize) -> (usize, usize) {
    (k.slots[slot].cteMDBNode.mdbPrev, k.slots[slot].cteMDBNode.mdbNext)
}

#[test]
fn empty_slot_unlinks_and_hands_on_first_badged() {
    let mut k = kernel();
    write_slot(&mut k, ROOT + 3, endpoint(0x40, 0));
    cteInsert(&mut k, &endpoint(0x40, 7), ROOT + 3, ROOT + 10);
    cteInsert(&mut k, &endpoint(0x40, 7), ROOT + 10, ROOT + 12);
    assert!(!k.slots[ROOT + 12].cteMDBNode.mdbFirstBadged);
    emptySlot(&mut k, ROOT + 10, &cap_t::NullCap);
    assert_eq!(k.slots[ROOT + 10], cte_t::default());
    assert_eq!(links(&k, ROOT + 3), (0, ROOT + 12));
    assert_eq!(links(&k, ROOT + 12), (ROOT + 3, 0));
    assert!(k.slots[ROOT + 12].cteMDBNode.mdbFirstBadged);
    // an empty slot is left alone
    let slots = k.slots.clone();
    emptySlot(&mut k, ROOT + 10, &cap_t::IrqHandlerCap { capIRQ: 5 });
    assert_eq!(k.slots, slots);
    assert!(k.requests.is_empty());
}

#[test]
fn insert_then_delete_restores_the_list() {
    let mut k = kernel();
    write_slot(&mut k, ROOT + 3, endpoint(0x40, 0));
    cteInsert(&mut k, &endpoint(0x40, 7), ROOT + 3, ROOT + 10);
    let before = k.slots.clone();
    cteInsert(&mut k, &endpoint(0x40, 0), ROOT + 3, ROOT + 11);
    assert!(cteDelete(&mut k, ROOT + 11, true) == exception_t::EXCEPTION_NONE);
    assert_eq!(k.slots, before);
    assert!(k.requests.is_empty());
}

#[test]
fn deleting_the_last_endpoint_cap_cancels_ipc() {
    let mut k = kernel();
    write_slot(&mut k, ROOT + 3, endpoint(0x40, 0));
    cteInsert(&mut k, &endpoint(0x40, 7), ROOT + 3, ROOT + 10);
    assert!(cteDelete(&mut k, ROOT + 10, true) == exception_t::EXCEPTION_NONE);
    assert!(k.requests.is_empty());
    assert!(cteDelete(&mut k, ROOT + 3, false) == exception_t::EXCEPTION_NONE);
    assert_eq!(k.requests, vec![request_t::CancelAllIPC { ep_ptr: 0x40 }]);
    assert_eq!(k.slots[ROOT + 3], cte_t::default());
    // deleting an empty slot changes nothing
    assert!(cteDelete(&mut k, ROOT + 3, true) == exception_t::EXCEPTION_NONE);
    assert_eq!(k.requests.len(), 1);
}

#[test]
fn finalise_by_kind() {
    let mut k = kernel();
    let ret = finaliseCap(&mut k, &notification(0x80), true, false);
    assert_eq!(ret.remainder, cap_t::NullCap);
    assert_eq!(ret.cleanupInfo, cap_t::NullCap);
    assert_eq!(
        k.requests,
        vec![
            request_t::UnbindMaybeNotification { ntfn_ptr: 0x80 },
            request_t::CancelAllSignals { ntfn_ptr: 0x80 },
        ]
    );
    let ret = finaliseCap(&mut k, &notification(0x80), false, true);
    assert_eq!(ret.remainder, cap_t::NullCap);
    assert_eq!(k.requests.len(), 2);
    let ret = finaliseCap(&mut k, &cnode(256, 4), true, false);
    assert_eq!(ret.remainder, zombie(256, 4, 16));
    assert_eq!(ret.cleanupInfo, cap_t::NullCap);
    let ret = finaliseCap(&mut k, &cnode(256, 4), false, false);
    assert_eq!(ret.remainder, cap_t::NullCap);
    let ret = finaliseCap(&mut k, &zombie(256, 4, 3), true, false);
    assert_eq!(ret.remainder, zombie(256, 4, 3));
    k.tcbs[5].tcbState.tsType = 1;
    let thread = cap_t::ThreadCap { capTCBPtr: 5 };
    let ret = finaliseCap(&mut k, &thread, true, false);
    assert_eq!(ret.remainder, zombie(160, 64, 5));
    assert_eq!(ret.cleanupInfo, thread);
    assert_eq!(k.tcbs[5].tcbState.tsType, 0);
    assert_eq!(k.requests.last(), Some(&request_t::UnbindNotification { tcb: 5 }));
    let table = cap_t::PageTableCap {
        capPTBasePtr: 0x6000,
        capPTIsMapped: true,
        capPTMappedASID: 1,
        capPTMappedAddress: 0x40_0000,
    };
    let ret = finaliseCap(&mut k, &table, true, false);
    assert_eq!(ret.remainder, cap_t::NullCap);
    assert_eq!(
        k.requests.last(),
        Some(&request_t::UnmapPageTable { asid: 1, vptr: 0x40_0000, pt: 0x6000 })
    );
    let count = k.requests.len();
    finaliseCap(&mut k, &table, false, false);
    finaliseCap(&mut k, &cap_t::DomainCap, true, false);
    finaliseCap(&mut k, &cap_t::IrqControlCap, true, false);
    assert_eq!(k.requests.len(), count);
    finaliseCap(&mut k, &cap_t::ASIDPoolCap { capASIDBase: 0, capASIDPool: 0x7000 }, true, false);
    assert_eq!(k.requests.last(), Some(&request_t::DeleteASIDPool { asid_base: 0, pool: 0x7000 }));
}

#[test]
fn deleting_an_interrupt_handler_releases_the_interrupt() {
    let mut k = kernel();
    write_slot(&mut k, ROOT + 3, cap_t::IrqHandlerCap { capIRQ: 7 });
    write_slot(&mut k, IRQ_NODE + 7, notification(0x80));
    assert!(cteDelete(&mut k, ROOT + 3, true) == exception_t::EXCEPTION_NONE);
    assert_eq!(k.slots[ROOT + 3], cte_t::default());
    assert_eq!(k.slots[IRQ_NODE + 7], cte_t::default());
    assert_eq!(
        k.requests,
        vec![
            request_t::UnbindMaybeNotification { ntfn_ptr: 0x80 },
            request_t::CancelAllSignals { ntfn_ptr: 0x80 },
            request_t::SetIRQState { state: 0, irq: 7 },
        ]
    );
    write_slot(&mut k, IRQ_NODE + 9, notification(0x90));
    deletingIRQHandler(&mut k, 9);
    assert_eq!(k.slots[IRQ_NODE + 9], cte_t::default());
    write_slot(&mut k, ROOT + 4, endpoint(0x40, 0));
    cteDeleteOne(&mut k, ROOT + 4);
    assert_eq!(k.slots[ROOT + 4], cte_t::default());
    assert_eq!(k.requests.last(), Some(&request_t::CancelAllIPC { ep_ptr: 0x40 }));
    let count = k.requests.len();
    postCapDeletion(&mut k, &endpoint(0x40, 0));
    assert_eq!(k.requests.len(), count);
    postCapDeletion(&mut k, &cap_t::IrqHandlerCap { capIRQ: 3 });
    assert_eq!(k.requests.last(), Some(&request_t::SetIRQState { state: 0, irq: 3 }));
}

#[test]
fn a_handler_slot_out_of_shape_faults() {
    let mut k = kernel();
    write_slot(&mut k, ROOT + 3, cap_t::IrqHandlerCap { capIRQ: 7 });
    write_slot(&mut k, IRQ_NODE + 7, cnode(256, 4));
    assert!(cteDelete(&mut k, ROOT + 3, true) == exception_t::EXCEPTION_FAULT);
    assert_eq!(k.slots[ROOT + 3].cap, cap_t::IrqHandlerCap { capIRQ: 7 });
}

#[test]
fn exposed_delete_empties_a_cnode() {
    let mut k = kernel();
    write_slot(&mut k, ROOT + 1, cnode(256, 2));
    write_slot(&mut k, 256, endpoint(0x40, 0));
    write_slot(&mut k, 258, endpoint(0x50, 0));
    write_slot(&mut k, 259, notification(0x80));
    assert!(cteDelete(&mut k, ROOT + 1, true) == exception_t::EXCEPTION_NONE);
    for slot in [ROOT + 1, 256, 257, 258, 259] {
        assert_eq!(k.slots[slot], cte_t::default());
    }
    assert_eq!(
        k.requests,
        vec![
            request_t::UnbindMaybeNotification { ntfn_ptr: 0x80 },
            request_t::CancelAllSignals { ntfn_ptr: 0x80 },
            request_t::CancelAllIPC { ep_ptr: 0x50 },
            request_t::CancelAllIPC { ep_ptr: 0x40 },
        ]
    );
    assert_eq!(k.ksWorkUnitsCompleted, 4);
}

#[test]
fn unexposed_delete_moves_the_zombie_home() {
    let mut k = kernel();
    write_slot(&mut k, ROOT + 1, cnode(256, 2));
    write_slot(&mut k, 256, endpoint(0x40, 0));
    write_slot(&mut k, 258, endpoint(0x50, 0));
    assert!(cteDelete(&mut k, ROOT + 1, false) == exception_t::EXCEPTION_NONE);
    assert_eq!(k.slots[ROOT + 1], cte_t::default());
    assert_eq!(k.slots[256].cap, zombie(256, 2, 4));
    assert_eq!(k.slots[258].cap, endpoint(0x50, 0));
    // an exposed delete of the zombie in its own first slot empties the rest
    assert!(cteDelete(&mut k, 256, true) == exception_t::EXCEPTION_NONE);
    assert_eq!(k.slots[256], cte_t::default());
    assert_eq!(k.slots[258], cte_t::default());
}

#[test]
fn a_cnode_that_holds_itself_is_deleted() {
    let mut k = kernel();
    write_slot(&mut k, 256, cnode(256, 2));
    write_slot(&mut k, 257, endpoint(0x40, 0));
    // unexposed: the zombie stays where it is
    let ret = finaliseSlot(&mut k, 256, false);
    assert!(ret.status == exception_t::EXCEPTION_NONE);
    assert!(!ret.success);
    assert_eq!(k.slots[256].cap, zombie(256, 2, 4));
    assert_eq!(k.slots[257].cap, endpoint(0x40, 0));
    assert!(cteDelete(&mut k, 256, true) == exception_t::EXCEPTION_NONE);
    assert_eq!(k.slots[256], cte_t::default());
    assert_eq!(k.slots[257], cte_t::default());
}

#[test]
fn reduce_zombie_step_by_step() {
    let mut k = kernel();
    write_slot(&mut k, ROOT + 1, zombie(256, 2, 3));
    write_slot(&mut k, 258, endpoint(0x50, 0));
    assert!(reduceZombie(&mut k, ROOT + 1, true) == exception_t::EXCEPTION_NONE);
    assert_eq!(k.slots[ROOT + 1].cap, zombie(256, 2, 2));
    assert_eq!(k.slots[258], cte_t::default());
    write_slot(&mut k, 256, endpoint(0x40, 0));
    assert!(reduceZombie(&mut k, ROOT + 1, false) == exception_t::EXCEPTION_NONE);
    assert_eq!(k.slots[ROOT + 1].cap, endpoint(0x40, 0));
    assert_eq!(k.slots[256].cap, zombie(256, 2, 2));
    capSwapForDelete(&mut k, 256, ROOT + 1);
    assert_eq!(k.slots[256].cap, endpoint(0x40, 0));
    capSwapForDelete(&mut k, 256, 256);
    assert_eq!(k.slots[256].cap, endpoint(0x40, 0));
}

#[test]
fn two_zombies_of_one_object_fault() {
    let mut k = kernel();
    write_slot(&mut k, ROOT + 1, zombie(256, 2, 2));
    write_slot(&mut k, 256, zombie(256, 2, 3));
    assert!(cteDelete(&mut k, ROOT + 1, false) == exception_t::EXCEPTION_FAULT);
    assert_eq!(k.slots[ROOT + 1].cap, zombie(256, 2, 2));
    assert_eq!(k.slots[256].cap, zombie(256, 2, 3));
}

#[test]
fn revoke_deletes_the_children_only() {
    let mut k = kernel();
    write_slot(&mut k, ROOT + 1, cap_t::UntypedCap {
        capPtr: 0x10000,
        capBlockSize: 16,
        capIsDevice: false,
        capFreeIndex: 0,
    });
    insertNewCap(&mut k, ROOT + 1, ROOT + 2, &endpoint(0x10040, 0));
    cteInsert(&mut k, &endpoint(0x10040, 7), ROOT + 2, ROOT + 3);
    write_slot(&mut k, ROOT + 9, endpoint(0x90, 0));
    let untyped = k.slots[ROOT + 1].cap;
    assert!(cteRevoke(&mut k, ROOT + 3) == exception_t::EXCEPTION_NONE);
    assert_eq!(k.slots[ROOT + 3].cap, endpoint(0x10040, 7));
    assert!(cteRevoke(&mut k, ROOT + 1) == exception_t::EXCEPTION_NONE);
    assert_eq!(k.slots[ROOT + 2], cte_t::default());
    assert_eq!(k.slots[ROOT + 3], cte_t::default());
    assert_eq!(k.slots[ROOT + 1].cap, untyped);
    assert_eq!(links(&k, ROOT + 1), (0, 0));
    assert_eq!(k.slots[ROOT + 9].cap, endpoint(0x90, 0));
    assert_eq!(k.requests, vec![request_t::CancelAllIPC { ep_ptr: 0x10040 }]);
    // the second revocation is a no-op
    let (slots, work) = (k.slots.clone(), k.ksWorkUnitsCompleted);
    assert!(cteRevoke(&mut k, ROOT + 1) == exception_t::EXCEPTION_NONE);
    assert_eq!(k.slots, slots);
    assert_eq!(k.ksWorkUnitsCompleted, work);
    assert_eq!(k.requests.len(), 1);
}

#[test]
fn revoke_is_preempted_between_children() {
    let mut k = kernel();
    write_slot(&mut k, ROOT + 3, endpoint(0x40, 0));
    cteInsert(&mut k, &endpoint(0x40, 7), ROOT + 3, ROOT + 10);
    cteInsert(&mut k, &endpoint(0x40, 9), ROOT + 3, ROOT + 11);
    k.ksMaxWorkUnits = 1;
    k.irq_pending = true;
    assert!(cteRevoke(&mut k, ROOT + 3) == exception_t::EXCEPTION_PREEMTED);
    assert_eq!(k.slots[ROOT + 11], cte_t::default());
    assert_eq!(k.slots[ROOT + 10].cap, endpoint(0x40, 7));
    assert!(cteRevoke(&mut k, ROOT + 3) == exception_t::EXCEPTION_PREEMTED);
    assert_eq!(k.slots[ROOT + 10], cte_t::default());
    assert!(cteRevoke(&mut k, ROOT + 3) == exception_t::EXCEPTION_NONE);
}
