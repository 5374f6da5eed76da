use rel4_kernel::boot::write_slot;
use rel4_kernel::cap::cap_t;
use rel4_kernel::invocation::{
    decodeCNodeInvocation, ensureEmptySlot, getSyscallArg, invokeCNodeCancelBadgedSends,
    invokeCNodeDelete, invokeCNodeInsert, invokeCNodeMove, invokeCNodeRevoke, invokeCNodeRotate,
    invokeCNodeSaveCaller,
};
use rel4_kernel::kernel::{request_t, Kernel};
use rel4_kernel::structures::{cte_t, dschedule_t, exception_t, lookup_fault_t};

const ROOT: usize = 128;
const ROOT_SLOT: usize = 64;
const CALLER_SLOT: usize = 67;
const REVOKE: usize = 16;
const DELETE: usize = 17;
const CANCEL_BADGED_SENDS: usize = 18;
const COPY: usize = 19;
const MINT: usize = 20;
const MOVE: usize = 21;
const MUTATE: usize = 22;
const ROTATE: usize = 23;
const SAVE_CALLER: usize = 24;
const RESTART: usize = 2;

fn endpoint(ptr: usize, badge: u64) -> cap_t {
    cap_t::EndpointCap {
        capEPPtr: ptr,
        capEPBadge: badge,
        capCanGrantReply: true,
        capCanGrant: true,
        capCanSend: true,
        capCanReceive: true,
    }
}

fn cnode(ptr: usize, radix: usize, guard_size: usize, guard: u64) -> cap_t {
    cap_t::CNodeCap {
        capCNodePtr: ptr,
        capCNodeRadix: radix,
        capCNodeGuardSize: guard_size,
        capCNodeGuard: guard,
    }
}

fn untyped(ptr: usize, bits: usize) -> cap_t {
    cap_t::UntypedCap { capPtr: ptr, capBlockSize: bits, capIsDevice: false, capFreeIndex: 0 }
}

fn root_cap() -> cap_t {
    cnode(ROOT, 5, 0, 0)
}

/// A kernel whose current thread is thread 2, with a root CNode of 32 slots
/// from slot 128 on that the thread's own root slot names.
fn kernel() -> Kernel {
    let mut k = Kernel::new(512, 12, 400, dschedule_t { domain: 0, length: 10 });
    k.ksCurThread = 2;
    k.ksIdleThread = 3;
    k.tcbs[2].tcbState.tsType = 1;
    write_slot(&mut k, ROOT_SLOT, root_cap());
    k
}

fn invoke(k: &mut Kernel, label: usize, args: &[usize], extra: [usize; 3]) -> exception_t {
    let mut buffer = vec![0usize; 16];
    for (i, a) in args.iter().enumerate() {
        if i < 4 {
            k.tcbs[2].tcbArch.registers[11 + i] = *a;
        } else {
            buffer[i + 1] = *a;
        }
    }
    k.current_extra_caps.excaprefs = extra;
    decodeCNodeInvocation(k, label, args.len(), &root_cap(), &buffer)
}

fn links(k: &Kernel, slot: usize) -> (usize, usize) {
    (k.slots[slot].cteMDBNode.mdbPrev, k.slots[slot].cteMDBNode.mdbNext)
}

#[test]
fn syscall_args_come_from_registers_then_buffer() {
    let mut k = kernel();
    let mut buffer = vec![0usize; 16];
    k.tcbs[2].tcbArch.registers[11] = 100;
    k.tcbs[2].tcbArch.registers[14] = 103;
    buffer[5] = 104;
    buffer[8] = 107;
    assert_eq!(getSyscallArg(&k, 0, &buffer), 100);
    assert_eq!(getSyscallArg(&k, 3, &buffer), 103);
    assert_eq!(getSyscallArg(&k, 4, &buffer), 104);
    assert_eq!(getSyscallArg(&k, 7, &buffer), 107);
}

#[test]
fn revoke_with_badged_children() {
    let mut k = kernel();
    write_slot(&mut k, ROOT + 3, endpoint(0x40, 0));
    let original = k.slots[ROOT + 3];
    let none = exception_t::EXCEPTION_NONE;
    assert!(invoke(&mut k, MINT, &[10, 5, 3, 5, 0xf, 7], [ROOT_SLOT, 0, 0]) == none);
    assert!(invoke(&mut k, MINT, &[11, 5, 3, 5, 0xf, 9], [ROOT_SLOT, 0, 0]) == none);
    assert!(invoke(&mut k, COPY, &[12, 5, 10, 5, 0xf], [ROOT_SLOT, 0, 0]) == none);
    assert_eq!(k.slots[ROOT + 10].cap, endpoint(0x40, 7));
    assert_eq!(k.slots[ROOT + 11].cap, endpoint(0x40, 9));
    assert_eq!(k.slots[ROOT + 12].cap, endpoint(0x40, 7));
    // the list runs 3, 11, 10, 12
    assert_eq!(links(&k, ROOT + 3), (0, ROOT + 11));
    assert_eq!(links(&k, ROOT + 11), (ROOT + 3, ROOT + 10));
    assert_eq!(links(&k, ROOT + 10), (ROOT + 11, ROOT + 12));
    assert_eq!(links(&k, ROOT + 12), (ROOT + 10, 0));
    assert!(invoke(&mut k, REVOKE, &[3, 5], [0, 0, 0]) == none);
    assert_eq!(k.slots[ROOT + 10], cte_t::default());
    assert_eq!(k.slots[ROOT + 11], cte_t::default());
    assert_eq!(k.slots[ROOT + 12], cte_t::default());
    assert_eq!(k.slots[ROOT + 3], original);
    assert_eq!(k.tcbs[2].tcbState.tsType, RESTART);
    assert!(k.requests.is_empty());
    // a second revocation changes nothing
    let slots = k.slots.clone();
    assert!(invoke(&mut k, REVOKE, &[3, 5], [0, 0, 0]) == none);
    assert_eq!(k.slots, slots);
}

#[test]
fn recursive_cnode_deletion() {
    let mut k = kernel();
    // CNode A of 16 slots from slot 256 on, CNode B of 4 slots from slot 288 on
    write_slot(&mut k, ROOT + 1, cnode(256, 4, 0, 0));
    write_slot(&mut k, 256, cap_t::ThreadCap { capTCBPtr: 5 });
    write_slot(&mut k, 257, cnode(288, 2, 0, 0));
    let frame = cap_t::FrameCap {
        capFBasePtr: 0x5000,
        capFSize: 0,
        capFVMRights: 3,
        capFMappedASID: 1,
        capFMappedAddress: 0x40_0000,
        capFIsDevice: false,
    };
    write_slot(&mut k, 288, frame);
    k.tcbs[5].tcbState.tsType = 1;
    assert!(invoke(&mut k, DELETE, &[1, 5], [0, 0, 0]) == exception_t::EXCEPTION_NONE);
    assert_eq!(k.slots[ROOT + 1], cte_t::default());
    assert_eq!(k.slots[256], cte_t::default());
    assert_eq!(k.slots[257], cte_t::default());
    // the frame is gone; what is left of B and of the thread are zombies in
    // their own first slots
    assert_eq!(
        k.slots[288].cap,
        cap_t::ZombieCap { capZombiePtr: 288, capZombieType: 2, capZombieNumber: 4 }
    );
    assert_eq!(
        k.slots[160].cap,
        cap_t::ZombieCap { capZombiePtr: 160, capZombieType: 64, capZombieNumber: 5 }
    );
    assert!(k.slots.iter().all(|c| c.cap != frame));
    assert_eq!(k.tcbs[5].tcbState.tsType, 0);
    assert_eq!(
        k.requests,
        vec![
            request_t::UnmapPage { size: 0, asid: 1, vptr: 0x40_0000, pptr: 0x5000 },
            request_t::UnbindNotification { tcb: 5 },
        ]
    );
}

#[test]
fn preempted_deletion_is_restarted() {
    let mut k = kernel();
    write_slot(&mut k, ROOT + 1, cnode(256, 4, 0, 0));
    write_slot(&mut k, 256, cap_t::ThreadCap { capTCBPtr: 5 });
    write_slot(&mut k, 257, cnode(288, 2, 0, 0));
    write_slot(&mut k, 288, endpoint(0x40, 0));
    k.ksMaxWorkUnits = 1;
    k.irq_pending = true;
    let mut preempted = 0;
    let mut rounds = 0;
    loop {
        rounds += 1;
        assert!(rounds < 200);
        let status = invoke(&mut k, DELETE, &[1, 5], [0, 0, 0]);
        if status == exception_t::EXCEPTION_PREEMTED {
            preempted += 1;
            assert_eq!(k.tcbs[2].tcbState.tsType, RESTART);
            continue;
        }
        assert!(status == exception_t::EXCEPTION_NONE);
        break;
    }
    assert!(preempted >= 1);
    assert_eq!(k.slots[ROOT + 1], cte_t::default());
    assert_eq!(k.slots[256], cte_t::default());
    assert_eq!(k.slots[257], cte_t::default());
}

#[test]
fn rotate_three_slots() {
    let mut k = kernel();
    let x = cnode(256, 2, 0, 0);
    let y = untyped(0x10000, 16);
    write_slot(&mut k, ROOT + 1, x);
    write_slot(&mut k, ROOT + 2, y);
    // the source gets a guard of one bit, the pivot stays as it is
    let src_data = (1 << 6) | 1;
    let status = invoke(&mut k, ROTATE, &[3, 5, 0, 2, 5, src_data, 1, 5], [ROOT_SLOT, ROOT_SLOT, 0]);
    assert!(status == exception_t::EXCEPTION_NONE);
    assert_eq!(k.slots[ROOT + 1], cte_t::default());
    assert_eq!(k.slots[ROOT + 2].cap, cnode(256, 2, 1, 1));
    assert_eq!(k.slots[ROOT + 3].cap, y);
}

#[test]
fn rotate_with_source_as_destination_swaps() {
    let mut k = kernel();
    let x = cnode(256, 2, 0, 0);
    let y = untyped(0x10000, 16);
    write_slot(&mut k, ROOT + 1, x);
    write_slot(&mut k, ROOT + 2, y);
    let src_data = (1 << 6) | 1;
    let status = invoke(&mut k, ROTATE, &[1, 5, 0, 2, 5, src_data, 1, 5], [ROOT_SLOT, ROOT_SLOT, 0]);
    assert!(status == exception_t::EXCEPTION_NONE);
    assert_eq!(k.slots[ROOT + 1].cap, y);
    assert_eq!(k.slots[ROOT + 2].cap, cnode(256, 2, 1, 1));
}

#[test]
fn rotate_refuses_bad_slots() {
    let mut k = kernel();
    write_slot(&mut k, ROOT + 1, cnode(256, 2, 0, 0));
    write_slot(&mut k, ROOT + 2, untyped(0x10000, 16));
    write_slot(&mut k, ROOT + 4, endpoint(0x40, 0));
    let error = exception_t::EXCEPTION_SYSCALL_ERROR;
    // the pivot is the source
    assert!(invoke(&mut k, ROTATE, &[3, 5, 0, 1, 5, 0, 1, 5], [ROOT_SLOT, ROOT_SLOT, 0]) == error);
    assert_eq!(k.current_syscall_error._type, 3);
    // the destination holds a capability
    assert!(invoke(&mut k, ROTATE, &[4, 5, 0, 2, 5, 0, 1, 5], [ROOT_SLOT, ROOT_SLOT, 0]) == error);
    assert_eq!(k.current_syscall_error._type, 8);
    // the pivot is empty
    assert!(invoke(&mut k, ROTATE, &[3, 5, 0, 9, 5, 0, 1, 5], [ROOT_SLOT, ROOT_SLOT, 0]) == error);
    assert_eq!(k.current_syscall_error._type, 6);
    assert_eq!(k.current_syscall_error.failedLookupWasSource, 0);
    assert_eq!(k.current_lookup_fault, lookup_fault_t::MissingCapability { bitsLeft: 5 });
    // the source is empty
    assert!(invoke(&mut k, ROTATE, &[3, 5, 0, 2, 5, 0, 9, 5], [ROOT_SLOT, ROOT_SLOT, 0]) == error);
    assert_eq!(k.current_syscall_error.failedLookupWasSource, 1);
    // an endpoint cannot be updated while it is kept
    assert!(invoke(&mut k, ROTATE, &[3, 5, 0, 2, 5, 0, 4, 5], [ROOT_SLOT, ROOT_SLOT, 0]) == error);
    assert_eq!(k.current_syscall_error._type, 3);
    // seven words are too few
    assert!(invoke(&mut k, ROTATE, &[3, 5, 0, 2, 5, 0, 1], [ROOT_SLOT, ROOT_SLOT, 0]) == error);
    assert_eq!(k.current_syscall_error._type, 7);
    assert_eq!(k.slots[ROOT + 1].cap, cnode(256, 2, 0, 0));
    assert_eq!(k.tcbs[2].tcbState.tsType, 1);
}

#[test]
fn save_caller_moves_the_reply_cap() {
    let mut k = kernel();
    let reply = cap_t::ReplyCap { capTCBPtr: 5, capReplyMaster: false, capReplyCanGrant: true };
    write_slot(&mut k, CALLER_SLOT, reply);
    assert!(invoke(&mut k, SAVE_CALLER, &[20, 5], [0, 0, 0]) == exception_t::EXCEPTION_NONE);
    assert_eq!(k.slots[ROOT + 20].cap, reply);
    assert_eq!(k.slots[CALLER_SLOT], cte_t::default());
    assert_eq!(k.tcbs[2].tcbState.tsType, RESTART);
}

#[test]
fn save_caller_leaves_master_and_empty_caller() {
    let mut k = kernel();
    assert!(invoke(&mut k, SAVE_CALLER, &[20, 5], [0, 0, 0]) == exception_t::EXCEPTION_NONE);
    assert_eq!(k.slots[ROOT + 20], cte_t::default());
    let master = cap_t::ReplyCap { capTCBPtr: 2, capReplyMaster: true, capReplyCanGrant: true };
    write_slot(&mut k, CALLER_SLOT, master);
    assert!(invokeCNodeSaveCaller(&mut k, ROOT + 20) == exception_t::EXCEPTION_NONE);
    assert_eq!(k.slots[ROOT + 20], cte_t::default());
    assert_eq!(k.slots[CALLER_SLOT].cap, master);
    // a destination that holds a capability is refused
    write_slot(&mut k, ROOT + 21, endpoint(0x40, 0));
    assert!(invoke(&mut k, SAVE_CALLER, &[21, 5], [0, 0, 0]) == exception_t::EXCEPTION_SYSCALL_ERROR);
    assert_eq!(k.current_syscall_error._type, 8);
}

#[test]
fn caller_slot_matters_to_save_caller_only() {
    let mut k = kernel();
    // an endpoint in the caller slot is in the way of no other operation
    write_slot(&mut k, CALLER_SLOT, endpoint(0x90, 0));
    write_slot(&mut k, ROOT + 3, endpoint(0x40, 7));
    assert!(invoke(&mut k, MOVE, &[10, 5, 3, 5], [ROOT_SLOT, 0, 0]) == exception_t::EXCEPTION_NONE);
    assert!(invoke(&mut k, DELETE, &[10, 5], [0, 0, 0]) == exception_t::EXCEPTION_NONE);
    assert_eq!(k.slots[ROOT + 10], cte_t::default());
    assert_eq!(k.slots[CALLER_SLOT].cap, endpoint(0x90, 0));
}

#[test]
fn illegal_label_and_truncated_message() {
    let mut k = kernel();
    let error = exception_t::EXCEPTION_SYSCALL_ERROR;
    for label in [0usize, 15, 25, 1000] {
        assert!(invoke(&mut k, label, &[3, 5], [0, 0, 0]) == error);
        assert_eq!(k.current_syscall_error._type, 3);
    }
    assert!(invoke(&mut k, DELETE, &[3], [0, 0, 0]) == error);
    assert_eq!(k.current_syscall_error._type, 7);
    write_slot(&mut k, ROOT + 3, endpoint(0x40, 0));
    // a copy needs five words and the capability to the source root
    assert!(invoke(&mut k, COPY, &[10, 5, 3, 5], [ROOT_SLOT, 0, 0]) == error);
    assert_eq!(k.current_syscall_error._type, 7);
    assert!(invoke(&mut k, COPY, &[10, 5, 3, 5, 0xf], [0, 0, 0]) == error);
    assert_eq!(k.current_syscall_error._type, 7);
    assert!(invoke(&mut k, MINT, &[10, 5, 3, 5, 0xf], [ROOT_SLOT, 0, 0]) == error);
    assert_eq!(k.current_syscall_error._type, 7);
    assert!(invoke(&mut k, MUTATE, &[10, 5, 3, 5], [ROOT_SLOT, 0, 0]) == error);
    assert_eq!(k.current_syscall_error._type, 7);
    assert_eq!(k.slots[ROOT + 10], cte_t::default());
    assert_eq!(k.tcbs[2].tcbState.tsType, 1);
}

#[test]
fn lookup_errors_of_an_invocation() {
    let mut k = kernel();
    let error = exception_t::EXCEPTION_SYSCALL_ERROR;
    // the depth of the destination is out of range
    for depth in [0usize, 65] {
        assert!(invoke(&mut k, DELETE, &[3, depth], [0, 0, 0]) == error);
        assert_eq!(k.current_syscall_error._type, 4);
        assert_eq!(k.current_syscall_error.rangeErrorMin, 1);
        assert_eq!(k.current_syscall_error.rangeErrorMax, 64);
    }
    // the destination needs five bits
    assert!(invoke(&mut k, DELETE, &[3, 4], [0, 0, 0]) == error);
    assert_eq!(k.current_syscall_error._type, 6);
    assert_eq!(k.current_syscall_error.failedLookupWasSource, 0);
    assert_eq!(k.current_lookup_fault, lookup_fault_t::DepthMismatch { bitsFound: 5, bitsLeft: 4 });
    // the source slot is empty
    assert!(invoke(&mut k, COPY, &[10, 5, 3, 5, 0xf], [ROOT_SLOT, 0, 0]) == error);
    assert_eq!(k.current_syscall_error._type, 6);
    assert_eq!(k.current_syscall_error.failedLookupWasSource, 1);
    assert_eq!(k.current_lookup_fault, lookup_fault_t::MissingCapability { bitsLeft: 5 });
    // the source root is no CNode
    write_slot(&mut k, ROOT + 3, endpoint(0x40, 0));
    assert!(invoke(&mut k, COPY, &[10, 5, 3, 5, 0xf], [ROOT + 3, 0, 0]) == error);
    assert_eq!(k.current_syscall_error._type, 6);
    assert_eq!(k.current_lookup_fault, lookup_fault_t::InvalidRoot);
}

#[test]
fn copy_needs_an_empty_destination() {
    let mut k = kernel();
    write_slot(&mut k, ROOT + 3, endpoint(0x40, 0));
    write_slot(&mut k, ROOT + 10, endpoint(0x50, 0));
    let status = invoke(&mut k, COPY, &[10, 5, 3, 5, 0xf], [ROOT_SLOT, 0, 0]);
    assert!(status == exception_t::EXCEPTION_SYSCALL_ERROR);
    assert_eq!(k.current_syscall_error._type, 8);
    assert!(ensureEmptySlot(&mut k, ROOT + 11) == exception_t::EXCEPTION_NONE);
    assert!(ensureEmptySlot(&mut k, ROOT + 10) == exception_t::EXCEPTION_SYSCALL_ERROR);
}

#[test]
fn copy_of_an_untyped_with_children_asks_for_revocation() {
    let mut k = kernel();
    write_slot(&mut k, ROOT + 3, untyped(0x10000, 16));
    assert!(invokeCNodeInsert(&mut k, &endpoint(0x10040, 0), ROOT + 3, ROOT + 4)
        == exception_t::EXCEPTION_NONE);
    let status = invoke(&mut k, COPY, &[10, 5, 3, 5, 0xf], [ROOT_SLOT, 0, 0]);
    assert!(status == exception_t::EXCEPTION_SYSCALL_ERROR);
    assert_eq!(k.current_syscall_error._type, 9);
    assert_eq!(k.slots[ROOT + 10], cte_t::default());
}

#[test]
fn copy_masks_the_rights() {
    let mut k = kernel();
    write_slot(&mut k, ROOT + 3, endpoint(0x40, 0));
    // read only
    let status = invoke(&mut k, COPY, &[10, 5, 3, 5, 0b10], [ROOT_SLOT, 0, 0]);
    assert!(status == exception_t::EXCEPTION_NONE);
    assert_eq!(
        k.slots[ROOT + 10].cap,
        cap_t::EndpointCap {
            capEPPtr: 0x40,
            capEPBadge: 0,
            capCanGrantReply: false,
            capCanGrant: false,
            capCanSend: false,
            capCanReceive: true,
        }
    );
    // a reply capability cannot be copied
    let reply = cap_t::ReplyCap { capTCBPtr: 5, capReplyMaster: false, capReplyCanGrant: true };
    write_slot(&mut k, ROOT + 4, reply);
    let status = invoke(&mut k, COPY, &[11, 5, 4, 5, 0xf], [ROOT_SLOT, 0, 0]);
    assert!(status == exception_t::EXCEPTION_SYSCALL_ERROR);
    assert_eq!(k.current_syscall_error._type, 3);
}

#[test]
fn move_and_mutate() {
    let mut k = kernel();
    write_slot(&mut k, ROOT + 3, endpoint(0x40, 7));
    assert!(invoke(&mut k, MOVE, &[10, 5, 3, 5], [ROOT_SLOT, 0, 0]) == exception_t::EXCEPTION_NONE);
    assert_eq!(k.slots[ROOT + 3], cte_t::default());
    assert_eq!(k.slots[ROOT + 10].cap, endpoint(0x40, 7));
    // an endpoint cannot be mutated
    let status = invoke(&mut k, MUTATE, &[11, 5, 10, 5, 9], [ROOT_SLOT, 0, 0]);
    assert!(status == exception_t::EXCEPTION_SYSCALL_ERROR);
    assert_eq!(k.current_syscall_error._type, 3);
    // a CNode takes a new guard
    write_slot(&mut k, ROOT + 4, cnode(256, 2, 0, 0));
    let data = (0b101 << 6) | 3;
    assert!(invoke(&mut k, MUTATE, &[12, 5, 4, 5, data], [ROOT_SLOT, 0, 0]) == exception_t::EXCEPTION_NONE);
    assert_eq!(k.slots[ROOT + 4], cte_t::default());
    assert_eq!(k.slots[ROOT + 12].cap, cnode(256, 2, 3, 0b101));
    assert!(invokeCNodeMove(&mut k, &endpoint(0x40, 7), ROOT + 10, ROOT + 13)
        == exception_t::EXCEPTION_NONE);
    assert_eq!(k.slots[ROOT + 13].cap, endpoint(0x40, 7));
}

#[test]
fn cancel_badged_sends_needs_all_rights() {
    let mut k = kernel();
    write_slot(&mut k, ROOT + 3, endpoint(0x40, 7));
    let status = invoke(&mut k, CANCEL_BADGED_SENDS, &[3, 5], [0, 0, 0]);
    assert!(status == exception_t::EXCEPTION_NONE);
    assert_eq!(k.requests, vec![request_t::CancelBadgedSends { ep_ptr: 0x40, badge: 7 }]);
    // no badge: nothing to cancel
    assert!(invokeCNodeCancelBadgedSends(&mut k, &endpoint(0x40, 0)) == exception_t::EXCEPTION_NONE);
    assert_eq!(k.requests.len(), 1);
    let receive_only = cap_t::EndpointCap {
        capEPPtr: 0x40,
        capEPBadge: 7,
        capCanGrantReply: false,
        capCanGrant: false,
        capCanSend: false,
        capCanReceive: true,
    };
    write_slot(&mut k, ROOT + 4, receive_only);
    let status = invoke(&mut k, CANCEL_BADGED_SENDS, &[4, 5], [0, 0, 0]);
    assert!(status == exception_t::EXCEPTION_SYSCALL_ERROR);
    assert_eq!(k.current_syscall_error._type, 3);
    write_slot(&mut k, ROOT + 5, cnode(256, 2, 0, 0));
    assert!(invoke(&mut k, CANCEL_BADGED_SENDS, &[5, 5], [0, 0, 0]) == exception_t::EXCEPTION_SYSCALL_ERROR);
}

#[test]
fn invoke_functions_commit_directly() {
    let mut k = kernel();
    write_slot(&mut k, ROOT + 1, endpoint(0x40, 0));
    write_slot(&mut k, ROOT + 2, endpoint(0x50, 0));
    let (a, b) = (k.slots[ROOT + 1].cap, k.slots[ROOT + 2].cap);
    assert!(invokeCNodeRotate(&mut k, &a, &b, ROOT + 1, ROOT + 2, ROOT + 3) == exception_t::EXCEPTION_NONE);
    assert_eq!(k.slots[ROOT + 1], cte_t::default());
    assert_eq!(k.slots[ROOT + 2].cap, a);
    assert_eq!(k.slots[ROOT + 3].cap, b);
    assert!(invokeCNodeInsert(&mut k, &endpoint(0x40, 5), ROOT + 2, ROOT + 6) == exception_t::EXCEPTION_NONE);
    assert!(invokeCNodeRevoke(&mut k, ROOT + 2) == exception_t::EXCEPTION_NONE);
    assert_eq!(k.slots[ROOT + 6], cte_t::default());
    assert!(invokeCNodeDelete(&mut k, ROOT + 2) == exception_t::EXCEPTION_NONE);
    assert_eq!(k.slots[ROOT + 2], cte_t::default());
    assert_eq!(k.requests, vec![request_t::CancelAllIPC { ep_ptr: 0x40 }]);
}
