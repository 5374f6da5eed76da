use rel4_kernel::boot::write_slot;
use rel4_kernel::cap::cap_t;
use rel4_kernel::cspace::{
    capCyclicZombie, capRemovable, cteInsert, cteMove, cteSwap, deriveCap, ensureNoChildren,
    insertNewCap, isFinalCapability, isMDBParentOf, mdb_node_get_mdbFirstBadged,
    mdb_node_get_mdbNext, mdb_node_get_mdbPrev, mdb_node_get_mdbRevocable, mdb_node_new,
    mdb_node_ptr_set_mdbNext, mdb_node_ptr_set_mdbPrev, mdb_node_set_mdbFirstBadged,
    mdb_node_set_mdbPrev, mdb_node_set_mdbRevocable, slotCapLongRunningDelete,
};
use rel4_kernel::kernel::{getCSpace, Kernel};
use rel4_kernel::resolve::{
    lookupCap, lookupCapAndSlot, lookupSlot, lookupSlotForCNodeOp, rust_lookupPivotSlot,
    rust_lookupSourceSlot, rust_lookupTargetSlot, rust_resolveAddressBits,
};
use rel4_kernel::structures::{cte_t, dschedule_t, exception_t, lookup_fault_t, mdb_node_t};

const ROOT: usize = 128;

fn kernel() -> Kernel {
    let mut k = Kernel::new(512, 8, 400, dschedule_t { domain: 0, length: 10 });
    k.ksCurThread = 2;
    k.ksIdleThread = 3;
    k
}

fn endpoint(ptr: usize, badge: u64) -> cap_t {
    cap_t::EndpointCap {
        capEPPtr: ptr,
        capEPBadge: badge,
        capCanGrantReply: true,
        capCanGrant: true,
        capCanSend: true,
        capCanReceive: true,
    }
}

fn cnode(ptr: usize, radix: usize, guard_size: usize, guard: u64) -> cap_t {
    cap_t::CNodeCap {
        capCNodePtr: ptr,
        capCNodeRadix: radix,
        capCNodeGuardSize: guard_size,
        capCNodeGuard: guard,
    }
}

fn untyped(ptr: usize, bits: usize) -> cap_t {
    cap_t::UntypedCap { capPtr: ptr, capBlockSize: bits, capIsDevice: false, capFreeIndex: 0 }
}

fn links(k: &Kernel, slot: usize) -> (usize, usize) {
    (k.slots[slot].cteMDBNode.mdbPrev, k.slots[slot].cteMDBNode.mdbNext)
}

#[test]
fn mdb_node_accessors() {
    let mut m = mdb_node_new(5, 1, 0, 9);
    assert_eq!(m, mdb_node_t { mdbNext: 5, mdbRevocable: true, mdbFirstBadged: false, mdbPrev: 9 });
    assert_eq!(mdb_node_get_mdbNext(&m), 5);
    assert_eq!(mdb_node_get_mdbPrev(&m), 9);
    assert_eq!(mdb_node_get_mdbRevocable(&m), 1);
    assert_eq!(mdb_node_get_mdbFirstBadged(&m), 0);
    mdb_node_ptr_set_mdbNext(&mut m, 6);
    mdb_node_set_mdbPrev(&mut m, 7);
    mdb_node_ptr_set_mdbPrev(&mut m, 8);
    mdb_node_set_mdbRevocable(&mut m, 0);
    mdb_node_set_mdbFirstBadged(&mut m, 1);
    assert_eq!(m, mdb_node_t { mdbNext: 6, mdbRevocable: false, mdbFirstBadged: true, mdbPrev: 8 });
    assert_eq!(mdb_node_t::default(), mdb_node_new(0, 0, 0, 0));
    assert_eq!(cte_t::default(), cte_t { cap: cap_t::NullCap, cteMDBNode: mdb_node_t::default() });
}

#[test]
fn guarded_lookup_finds_slot_five() {
    let mut k = kernel();
    let root = cnode(ROOT, 4, 4, 0xA);
    let ret = rust_resolveAddressBits(&mut k, &root, 0xA5, 8);
    assert!(ret.status == exception_t::EXCEPTION_NONE);
    assert_eq!(ret.slot, ROOT + 5);
    assert_eq!(ret.bitsRemaining, 0);
}

#[test]
fn guarded_lookup_reports_guard_mismatch() {
    let mut k = kernel();
    let root = cnode(ROOT, 4, 4, 0xA);
    let ret = rust_resolveAddressBits(&mut k, &root, 0xB5, 8);
    assert!(ret.status == exception_t::EXCEPTION_LOOKUP_FAULT);
    assert_eq!(ret.slot, 0);
    assert_eq!(
        k.current_lookup_fault,
        lookup_fault_t::GuardMismatch { guardFound: 0xA, bitsLeft: 8, bitsFound: 4 }
    );
}

#[test]
fn lookup_reports_depth_mismatch_and_invalid_root() {
    let mut k = kernel();
    let root = cnode(ROOT, 4, 2, 1);
    // six bits at this level, four bits given; the guard 01 matches
    let ret = rust_resolveAddressBits(&mut k, &root, 0b0111, 4);
    assert!(ret.status == exception_t::EXCEPTION_LOOKUP_FAULT);
    assert_eq!(k.current_lookup_fault, lookup_fault_t::DepthMismatch { bitsFound: 6, bitsLeft: 4 });
    let ret = rust_resolveAddressBits(&mut k, &endpoint(0x40, 0), 0, 4);
    assert!(ret.status == exception_t::EXCEPTION_LOOKUP_FAULT);
    assert_eq!(k.current_lookup_fault, lookup_fault_t::InvalidRoot);
}

#[test]
fn lookup_walks_two_levels() {
    let mut k = kernel();
    let root = cnode(ROOT, 4, 0, 0);
    // slot 3 of the root holds a CNode of 4 slots with a guard of two bits
    write_slot(&mut k, ROOT + 3, cnode(160, 2, 2, 0b10));
    let ret = rust_resolveAddressBits(&mut k, &root, 0b0011_10_01, 8);
    assert!(ret.status == exception_t::EXCEPTION_NONE);
    assert_eq!(ret.slot, 161);
    assert_eq!(ret.bitsRemaining, 0);
    let ret = rust_resolveAddressBits(&mut k, &root, 0b0011_11_01, 8);
    assert!(ret.status == exception_t::EXCEPTION_LOOKUP_FAULT);
    assert_eq!(
        k.current_lookup_fault,
        lookup_fault_t::GuardMismatch { guardFound: 0b10, bitsLeft: 4, bitsFound: 2 }
    );
}

#[test]
fn lookup_through_a_non_cnode_is_partial() {
    let mut k = kernel();
    let root = cnode(ROOT, 4, 0, 0);
    write_slot(&mut k, ROOT + 3, endpoint(0x40, 0));
    let ret = rust_resolveAddressBits(&mut k, &root, 0x35, 8);
    assert!(ret.status == exception_t::EXCEPTION_NONE);
    assert_eq!(ret.slot, ROOT + 3);
    assert_eq!(ret.bitsRemaining, 4);
    // a lookup for a CNode operation asks for every bit to be read
    let ret = lookupSlotForCNodeOp(&mut k, true, &root, 0x35, 8);
    assert!(ret.status == exception_t::EXCEPTION_SYSCALL_ERROR);
    assert_eq!(k.current_syscall_error._type, 6);
    assert_eq!(k.current_syscall_error.failedLookupWasSource, 1);
    assert_eq!(k.current_lookup_fault, lookup_fault_t::DepthMismatch { bitsFound: 0, bitsLeft: 4 });
}

#[test]
fn depth_out_of_range_is_a_range_error() {
    let root = cnode(ROOT, 4, 0, 0);
    for depth in [0usize, 65, 1000] {
        let mut k = kernel();
        let ret = lookupSlotForCNodeOp(&mut k, false, &root, 0x5, depth);
        assert!(ret.status == exception_t::EXCEPTION_SYSCALL_ERROR);
        assert_eq!(k.current_syscall_error._type, 4);
        assert_eq!(k.current_syscall_error.rangeErrorMin, 1);
        assert_eq!(k.current_syscall_error.rangeErrorMax, 64);
    }
    let mut k = kernel();
    let ret = lookupSlotForCNodeOp(&mut k, false, &cnode(ROOT, 4, 60, 0), 0x5, 64);
    assert!(ret.status == exception_t::EXCEPTION_NONE);
    assert_eq!(ret.slot, ROOT + 5);
}

#[test]
fn lookup_for_cnode_op_keeps_the_fault_of_the_walk() {
    let mut k = kernel();
    let root = cnode(ROOT, 4, 4, 0xA);
    let ret = rust_lookupTargetSlot(&mut k, &root, 0xB5, 8);
    assert!(ret.status == exception_t::EXCEPTION_SYSCALL_ERROR);
    assert_eq!(k.current_syscall_error._type, 6);
    assert_eq!(k.current_syscall_error.failedLookupWasSource, 0);
    assert_eq!(
        k.current_lookup_fault,
        lookup_fault_t::GuardMismatch { guardFound: 0xA, bitsLeft: 8, bitsFound: 4 }
    );
    let ret = rust_lookupSourceSlot(&mut k, &endpoint(0x40, 0), 0xB5, 8);
    assert!(ret.status == exception_t::EXCEPTION_SYSCALL_ERROR);
    assert_eq!(k.current_syscall_error.failedLookupWasSource, 1);
    assert_eq!(k.current_lookup_fault, lookup_fault_t::InvalidRoot);
    let ret = rust_lookupPivotSlot(&mut k, &root, 0xA7, 8);
    assert!(ret.status == exception_t::EXCEPTION_NONE);
    assert_eq!(ret.slot, ROOT + 7);
}

#[test]
fn thread_lookup_uses_the_thread_root() {
    let mut k = kernel();
    assert_eq!(getCSpace(2, 0), 64);
    assert_eq!(getCSpace(3, 4), 100);
    // the root of thread 2 resolves a whole word: 60 guard bits and 4 index bits
    write_slot(&mut k, 64, cnode(ROOT, 4, 60, 0));
    write_slot(&mut k, ROOT + 9, endpoint(0x40, 3));
    let ret = lookupSlot(&mut k, 2, 9);
    assert!(ret.status == exception_t::EXCEPTION_NONE);
    assert_eq!(ret.slot, ROOT + 9);
    let ret = lookupCap(&mut k, 2, 9);
    assert!(ret.status == exception_t::EXCEPTION_NONE);
    assert_eq!(ret.cap, endpoint(0x40, 3));
    let ret = lookupCapAndSlot(&mut k, 2, 9);
    assert_eq!(ret.slot, ROOT + 9);
    assert_eq!(ret.cap, endpoint(0x40, 3));
    let ret = lookupCap(&mut k, 2, 0x19);
    assert!(ret.status == exception_t::EXCEPTION_LOOKUP_FAULT);
    assert_eq!(ret.cap, cap_t::NullCap);
    // thread 3 has no root
    let ret = lookupSlot(&mut k, 3, 9);
    assert!(ret.status == exception_t::EXCEPTION_LOOKUP_FAULT);
    assert_eq!(k.current_lookup_fault, lookup_fault_t::InvalidRoot);
}

#[test]
fn thread_lookup_asks_for_every_bit() {
    let mut k = kernel();
    // a root that resolves 8 bits only leaves 56 bits of a word unread
    write_slot(&mut k, 64, cnode(ROOT, 4, 4, 0));
    write_slot(&mut k, ROOT + 9, endpoint(0x40, 3));
    let ret = lookupSlot(&mut k, 2, 9u64 << 56);
    assert!(ret.status == exception_t::EXCEPTION_LOOKUP_FAULT);
    assert_eq!(k.current_lookup_fault, lookup_fault_t::DepthMismatch { bitsFound: 0, bitsLeft: 56 });
}

#[test]
fn insert_links_behind_the_source() {
    let mut k = kernel();
    write_slot(&mut k, ROOT + 3, endpoint(0x40, 0));
    cteInsert(&mut k, &endpoint(0x40, 7), ROOT + 3, ROOT + 10);
    cteInsert(&mut k, &endpoint(0x40, 0), ROOT + 3, ROOT + 11);
    assert_eq!(links(&k, ROOT + 3), (0, ROOT + 11));
    assert_eq!(links(&k, ROOT + 11), (ROOT + 3, ROOT + 10));
    assert_eq!(links(&k, ROOT + 10), (ROOT + 11, 0));
    assert_eq!(k.slots[ROOT + 10].cap, endpoint(0x40, 7));
    // another badge: revocable and first badged
    assert!(k.slots[ROOT + 10].cteMDBNode.mdbRevocable);
    assert!(k.slots[ROOT + 10].cteMDBNode.mdbFirstBadged);
    // same badge: neither
    assert!(!k.slots[ROOT + 11].cteMDBNode.mdbRevocable);
    assert!(!k.slots[ROOT + 11].cteMDBNode.mdbFirstBadged);
}

#[test]
fn insert_from_an_untyped_source_is_revocable() {
    let mut k = kernel();
    write_slot(&mut k, ROOT + 1, untyped(0x10000, 16));
    cteInsert(&mut k, &cap_t::ThreadCap { capTCBPtr: 5 }, ROOT + 1, ROOT + 2);
    assert!(k.slots[ROOT + 2].cteMDBNode.mdbRevocable);
    assert!(k.slots[ROOT + 2].cteMDBNode.mdbFirstBadged);
    cteInsert(&mut k, &cap_t::ThreadCap { capTCBPtr: 5 }, ROOT + 2, ROOT + 3);
    assert!(!k.slots[ROOT + 3].cteMDBNode.mdbRevocable);
}

#[test]
fn insert_new_cap_is_always_revocable() {
    let mut k = kernel();
    write_slot(&mut k, ROOT + 1, untyped(0x10000, 16));
    insertNewCap(&mut k, ROOT + 1, ROOT + 2, &endpoint(0x10040, 0));
    assert_eq!(links(&k, ROOT + 1), (0, ROOT + 2));
    assert_eq!(links(&k, ROOT + 2), (ROOT + 1, 0));
    assert!(k.slots[ROOT + 2].cteMDBNode.mdbRevocable);
    assert!(k.slots[ROOT + 2].cteMDBNode.mdbFirstBadged);
    assert!(isMDBParentOf(&k, ROOT + 1, ROOT + 2));
    assert!(!isMDBParentOf(&k, ROOT + 2, ROOT + 1));
}

#[test]
fn move_there_and_back_changes_nothing() {
    let mut k = kernel();
    write_slot(&mut k, ROOT + 3, endpoint(0x40, 0));
    cteInsert(&mut k, &endpoint(0x40, 7), ROOT + 3, ROOT + 10);
    cteInsert(&mut k, &endpoint(0x40, 7), ROOT + 10, ROOT + 12);
    let before = k.slots.clone();
    let cap = k.slots[ROOT + 10].cap;
    cteMove(&mut k, &cap, ROOT + 10, ROOT + 20);
    assert_eq!(k.slots[ROOT + 10], cte_t::default());
    assert_eq!(k.slots[ROOT + 20].cap, cap);
    assert_eq!(links(&k, ROOT + 3), (0, ROOT + 20));
    assert_eq!(links(&k, ROOT + 20), (ROOT + 3, ROOT + 12));
    assert_eq!(links(&k, ROOT + 12), (ROOT + 20, 0));
    cteMove(&mut k, &cap, ROOT + 20, ROOT + 10);
    assert_eq!(k.slots, before);
}

#[test]
fn swap_is_its_own_inverse() {
    let mut k = kernel();
    write_slot(&mut k, ROOT + 3, endpoint(0x40, 0));
    cteInsert(&mut k, &endpoint(0x40, 7), ROOT + 3, ROOT + 10);
    cteInsert(&mut k, &endpoint(0x40, 9), ROOT + 10, ROOT + 11);
    write_slot(&mut k, ROOT + 5, cnode(160, 2, 0, 0));
    let before = k.slots.clone();
    // two slots of different lists
    let (a, b) = (k.slots[ROOT + 10].cap, k.slots[ROOT + 5].cap);
    cteSwap(&mut k, &a, ROOT + 10, &b, ROOT + 5);
    assert_eq!(k.slots[ROOT + 10].cap, b);
    assert_eq!(k.slots[ROOT + 5].cap, a);
    assert_eq!(links(&k, ROOT + 5), (ROOT + 3, ROOT + 11));
    assert_eq!(links(&k, ROOT + 10), (0, 0));
    assert_eq!(links(&k, ROOT + 3), (0, ROOT + 5));
    assert_eq!(links(&k, ROOT + 11), (ROOT + 5, 0));
    cteSwap(&mut k, &b, ROOT + 10, &a, ROOT + 5);
    assert_eq!(k.slots, before);
    // two neighbours
    let (a, b) = (k.slots[ROOT + 10].cap, k.slots[ROOT + 11].cap);
    cteSwap(&mut k, &a, ROOT + 10, &b, ROOT + 11);
    assert_eq!(links(&k, ROOT + 3), (0, ROOT + 11));
    assert_eq!(links(&k, ROOT + 11), (ROOT + 3, ROOT + 10));
    assert_eq!(links(&k, ROOT + 10), (ROOT + 11, 0));
    cteSwap(&mut k, &b, ROOT + 10, &a, ROOT + 11);
    assert_eq!(k.slots, before);
}

#[test]
fn final_capability_looks_at_both_neighbours() {
    let mut k = kernel();
    write_slot(&mut k, ROOT + 3, endpoint(0x40, 0));
    assert!(isFinalCapability(&k, ROOT + 3));
    cteInsert(&mut k, &endpoint(0x40, 7), ROOT + 3, ROOT + 10);
    assert!(!isFinalCapability(&k, ROOT + 3));
    assert!(!isFinalCapability(&k, ROOT + 10));
    cteInsert(&mut k, &cnode(160, 2, 0, 0), ROOT + 10, ROOT + 11);
    assert!(isFinalCapability(&k, ROOT + 11));
    assert!(slotCapLongRunningDelete(&k, ROOT + 11));
    assert!(!slotCapLongRunningDelete(&k, ROOT + 3));
    assert!(!slotCapLongRunningDelete(&k, ROOT + 30));
}

#[test]
fn parent_of_follows_the_badges() {
    let mut k = kernel();
    write_slot(&mut k, ROOT + 3, endpoint(0x40, 0));
    cteInsert(&mut k, &endpoint(0x40, 7), ROOT + 3, ROOT + 10);
    cteInsert(&mut k, &endpoint(0x40, 7), ROOT + 10, ROOT + 12);
    cteInsert(&mut k, &endpoint(0x40, 9), ROOT + 3, ROOT + 11);
    // the unbadged capability is parent of all
    assert!(isMDBParentOf(&k, ROOT + 3, ROOT + 10));
    assert!(isMDBParentOf(&k, ROOT + 3, ROOT + 11));
    assert!(isMDBParentOf(&k, ROOT + 3, ROOT + 12));
    // the first with badge 7 is parent of its copy, not of another badge
    assert!(isMDBParentOf(&k, ROOT + 10, ROOT + 12));
    assert!(!isMDBParentOf(&k, ROOT + 10, ROOT + 11));
    // a copy is no parent
    assert!(!isMDBParentOf(&k, ROOT + 12, ROOT + 10));
}

#[test]
fn untyped_with_children_is_not_derived() {
    let mut k = kernel();
    write_slot(&mut k, ROOT + 1, untyped(0x10000, 16));
    let cap = k.slots[ROOT + 1].cap;
    assert!(ensureNoChildren(&mut k, ROOT + 1) == exception_t::EXCEPTION_NONE);
    let ret = deriveCap(&mut k, ROOT + 1, &cap);
    assert!(ret.status == exception_t::EXCEPTION_NONE);
    assert_eq!(ret.cap, cap);
    insertNewCap(&mut k, ROOT + 1, ROOT + 2, &endpoint(0x10040, 0));
    assert!(ensureNoChildren(&mut k, ROOT + 1) == exception_t::EXCEPTION_SYSCALL_ERROR);
    assert_eq!(k.current_syscall_error._type, 9);
    k.current_syscall_error._type = 0;
    let ret = deriveCap(&mut k, ROOT + 1, &cap);
    assert!(ret.status == exception_t::EXCEPTION_SYSCALL_ERROR);
    assert_eq!(ret.cap, cap_t::NullCap);
    assert_eq!(k.current_syscall_error._type, 9);
}

#[test]
fn derive_by_kind() {
    let mut k = kernel();
    write_slot(&mut k, ROOT + 1, endpoint(0x40, 0));
    let ret = deriveCap(&mut k, ROOT + 1, &endpoint(0x40, 0));
    assert_eq!(ret.cap, endpoint(0x40, 0));
    for cap in [
        cap_t::IrqControlCap,
        cap_t::ReplyCap { capTCBPtr: 2, capReplyMaster: false, capReplyCanGrant: true },
        cap_t::ZombieCap { capZombiePtr: 160, capZombieType: 2, capZombieNumber: 4 },
    ] {
        let ret = deriveCap(&mut k, ROOT + 1, &cap);
        assert!(ret.status == exception_t::EXCEPTION_NONE);
        assert_eq!(ret.cap, cap_t::NullCap);
    }
    let mapped = cap_t::FrameCap {
        capFBasePtr: 0x5000,
        capFSize: 0,
        capFVMRights: 3,
        capFMappedASID: 1,
        capFMappedAddress: 0x40_0000,
        capFIsDevice: false,
    };
    let ret = deriveCap(&mut k, ROOT + 1, &mapped);
    assert!(ret.status == exception_t::EXCEPTION_NONE);
    assert_eq!(
        ret.cap,
        cap_t::FrameCap {
            capFBasePtr: 0x5000,
            capFSize: 0,
            capFVMRights: 3,
            capFMappedASID: 0,
            capFMappedAddress: 0,
            capFIsDevice: false,
        }
    );
    let table = cap_t::PageTableCap {
        capPTBasePtr: 0x6000,
        capPTIsMapped: false,
        capPTMappedASID: 0,
        capPTMappedAddress: 0,
    };
    let ret = deriveCap(&mut k, ROOT + 1, &table);
    assert!(ret.status == exception_t::EXCEPTION_NONE);
    assert_eq!(ret.cap, table);
    let mapped_table = cap_t::PageTableCap {
        capPTBasePtr: 0x6000,
        capPTIsMapped: true,
        capPTMappedASID: 1,
        capPTMappedAddress: 0x40_0000,
    };
    let ret = deriveCap(&mut k, ROOT + 1, &mapped_table);
    assert!(ret.status == exception_t::EXCEPTION_SYSCALL_ERROR);
    assert_eq!(ret.cap, cap_t::NullCap);
    assert_eq!(k.current_syscall_error._type, 3);
}

#[test]
fn removable_and_cyclic_zombies() {
    let zombie = |ptr, n| cap_t::ZombieCap { capZombiePtr: ptr, capZombieType: 4, capZombieNumber: n };
    assert!(capRemovable(&cap_t::NullCap, 5));
    assert!(capRemovable(&zombie(160, 0), 5));
    assert!(capRemovable(&zombie(160, 1), 160));
    assert!(!capRemovable(&zombie(160, 1), 161));
    assert!(!capRemovable(&zombie(160, 2), 160));
    assert!(capCyclicZombie(&zombie(160, 2), 160));
    assert!(!capCyclicZombie(&zombie(160, 2), 161));
    assert!(!capCyclicZombie(&endpoint(160, 0), 160));
    // no other capability is removable
    assert!(!capRemovable(&endpoint(160, 0), 160));
    assert!(!capRemovable(&cnode(160, 2, 0, 0), 5));
    assert!(!capRemovable(&cap_t::DomainCap, 5));
}
