//! Resolution of capability addresses: the walk down a tree of CNodes that
//! turns an address and a depth into a slot.

use vstd::prelude::*;
use crate::cap::{cap_t, low_mask, MASK};
use crate::config::{seL4_FailedLookup, seL4_RangeError, tcbCTable, wordBits};
use crate::kernel::{cap_ok, getCSpace, slot_inv, tcb_cspace, Kernel, KernelView};
use crate::structures::{
    cte_t, exception_t, lookupCapAndSlot_ret_t, lookupCap_ret_t, lookupSlot_raw_ret_t,
    lookupSlot_ret_t, lookup_fault_t, resolveAddressBits_ret_t, syscall_error_t,
};

verus! {

/// Where a walk ends: at a slot, with the number of address bits it left
/// unread, or in a fault.
pub enum Resolution {
    Slot { slot: usize, bits_remaining: usize },
    Fault { fault: lookup_fault_t },
}

/// The `guard_bits` bits of `capptr` that come first once `n_bits` bits are
/// left to read.
pub open spec fn cptr_guard(capptr: u64, n_bits: usize, guard_bits: usize) -> u64 {
    (capptr >> ((((n_bits - guard_bits) as usize) % 64) as u64)) & low_mask(guard_bits)
}

/// The `radix_bits` bits of `capptr` that follow the guard at a level of
/// `level_bits` bits, once `n_bits` bits are left to read.
pub open spec fn cptr_index(capptr: u64, n_bits: usize, level_bits: usize, radix_bits: usize) -> u64 {
    (capptr >> (((n_bits - level_bits) as usize) as u64)) & low_mask(radix_bits)
}

/// The walk from the CNode capability `node` with `n_bits` bits of `capptr`
/// left to read. At each level the guard must match and the level must not
/// take more bits than are left; the walk ends when all bits are read or when
/// the slot it reached holds no CNode capability.
pub open spec fn resolve(slots: Seq<cte_t>, node: cap_t, capptr: u64, n_bits: usize) -> Resolution
    decreases n_bits,
{
    match node {
        cap_t::CNodeCap { capCNodePtr, capCNodeRadix, capCNodeGuardSize, capCNodeGuard } => {
            let level_bits = capCNodeRadix + capCNodeGuardSize;
            if capCNodeGuardSize > n_bits || cptr_guard(capptr, n_bits, capCNodeGuardSize)
                != capCNodeGuard {
                Resolution::Fault {
                    fault: lookup_fault_t::GuardMismatch {
                        guardFound: capCNodeGuard,
                        bitsLeft: n_bits,
                        bitsFound: capCNodeGuardSize,
                    },
                }
            } else if level_bits > n_bits {
                Resolution::Fault {
                    fault: lookup_fault_t::DepthMismatch { bitsFound: level_bits as usize, bitsLeft: n_bits },
                }
            } else {
                let slot = (capCNodePtr + cptr_index(
                    capptr,
                    n_bits,
                    level_bits as usize,
                    capCNodeRadix,
                )) as usize;
                if n_bits == level_bits {
                    Resolution::Slot { slot, bits_remaining: 0 }
                } else if slots[slot as int].cap is CNodeCap && level_bits >= 1 {
                    resolve(slots, slots[slot as int].cap, capptr, (n_bits - level_bits) as usize)
                } else {
                    Resolution::Slot { slot, bits_remaining: (n_bits - level_bits) as usize }
                }
            }
        },
        _ => Resolution::Fault { fault: lookup_fault_t::InvalidRoot },
    }
}

/// What a lookup for a CNode operation gives: the slot, or the error code
/// with the lookup fault that goes with it, if any.
pub enum CNodeLookup {
    Slot { slot: usize },
    Range,
    Failed { fault: lookup_fault_t },
}

/// The lookup of a slot for a CNode operation: the root must be a CNode
/// capability, the depth must lie between 1 and the bits of a word, and the
/// walk must read every bit.
pub open spec fn lookup_for_cnode_op(slots: Seq<cte_t>, root: cap_t, capptr: u64, depth: usize) -> CNodeLookup {
    if !(root is CNodeCap) {
        CNodeLookup::Failed { fault: lookup_fault_t::InvalidRoot }
    } else if depth < 1 || depth > wordBits {
        CNodeLookup::Range
    } else {
        match resolve(slots, root, capptr, depth) {
            Resolution::Fault { fault } => CNodeLookup::Failed { fault },
            Resolution::Slot { slot, bits_remaining } => if bits_remaining != 0 {
                CNodeLookup::Failed {
                    fault: lookup_fault_t::DepthMismatch { bitsFound: 0, bitsLeft: bits_remaining },
                }
            } else {
                CNodeLookup::Slot { slot }
            },
        }
    }
}

/// The lookup of a slot in a thread's own capability space: the walk from the
/// thread's root over a whole word, which must read every bit.
pub open spec fn lookup_in_thread(slots: Seq<cte_t>, thread: usize, capptr: u64) -> Resolution {
    match resolve(slots, slots[tcb_cspace(thread, tcbCTable)].cap, capptr, wordBits) {
        Resolution::Slot { slot, bits_remaining } => if bits_remaining != 0 {
            Resolution::Fault {
                fault: lookup_fault_t::DepthMismatch { bitsFound: 0, bitsLeft: bits_remaining },
            }
        } else {
            Resolution::Slot { slot, bits_remaining }
        },
        r => r,
    }
}

proof fn lemma_and_le(x: u64, m: u64)
    ensures
        x & m <= m,
{
    assert(x & m <= m) by (bit_vector);
}

/// Walks down the CNodes from `nodeCap` to the slot that the `n_bits` lowest
/// bits of `capptr` address.
pub fn rust_resolveAddressBits(k: &mut Kernel, nodeCap: &cap_t, capptr: u64, n_bits: usize) -> (ret:
    resolveAddressBits_ret_t)
    requires
        old(k).wf(),
        cap_ok(*nodeCap, old(k)@.slots.len(), old(k)@.tcbs.len()),
        n_bits <= wordBits,
    ensures
        match resolve(old(k)@.slots, *nodeCap, capptr, n_bits) {
            Resolution::Slot { slot, bits_remaining } => {
                &&& ret.status == exception_t::EXCEPTION_NONE
                &&& ret.slot == slot
                &&& ret.bitsRemaining == bits_remaining
                &&& final(k)@ == old(k)@
                &&& final(k)@.slot_ok(slot)
                &&& bits_remaining < n_bits || n_bits == 0
            },
            Resolution::Fault { fault } => {
                &&& ret.status == exception_t::EXCEPTION_LOOKUP_FAULT
                &&& ret.slot == 0
                &&& ret.bitsRemaining == n_bits
                &&& final(k)@ == (KernelView { current_lookup_fault: fault, ..old(k)@ })
            },
        },
        final(k).wf(),
{
    let mut bits_left: usize = n_bits;
    let mut node: cap_t = *nodeCap;
    loop
        invariant
            k@ == old(k)@,
            k.wf(),
            cap_ok(node, k@.slots.len(), k@.tcbs.len()),
            bits_left <= n_bits <= wordBits,
            resolve(k@.slots, node, capptr, bits_left) == resolve(old(k)@.slots, *nodeCap, capptr, n_bits),
        decreases bits_left,
    {
        match node {
            cap_t::CNodeCap { capCNodePtr, capCNodeRadix, capCNodeGuardSize, capCNodeGuard } => {
                let radixBits: usize = capCNodeRadix;
                let guardBits: usize = capCNodeGuardSize;
                let levelBits: usize = radixBits + guardBits;
                if guardBits > bits_left || (capptr >> (((bits_left - guardBits) % 64) as u64)) & MASK(
                    guardBits,
                ) != capCNodeGuard {
                    k.current_lookup_fault =
                    lookup_fault_t::GuardMismatch {
                        guardFound: capCNodeGuard,
                        bitsLeft: bits_left,
                        bitsFound: guardBits,
                    };
                    return resolveAddressBits_ret_t {
                        status: exception_t::EXCEPTION_LOOKUP_FAULT,
                        slot: 0,
                        bitsRemaining: n_bits,
                    };
                }
                if levelBits > bits_left {
                    k.current_lookup_fault =
                    lookup_fault_t::DepthMismatch { bitsFound: levelBits, bitsLeft: bits_left };
                    return resolveAddressBits_ret_t {
                        status: exception_t::EXCEPTION_LOOKUP_FAULT,
                        slot: 0,
                        bitsRemaining: n_bits,
                    };
                }
                let offset: u64 = (capptr >> ((bits_left - levelBits) as u64)) & MASK(radixBits);
                proof {
                    lemma_and_le(capptr >> ((bits_left - levelBits) as u64), low_mask(radixBits));
                }
                let slot: usize = capCNodePtr + offset as usize;
                if bits_left == levelBits {
                    return resolveAddressBits_ret_t {
                        status: exception_t::EXCEPTION_NONE,
                        slot,
                        bitsRemaining: 0,
                    };
                }
                bits_left = bits_left - levelBits;
                node = k.slots[slot].cap;
                proof {
                    assert(slot_inv(k@.slots, k@.tcbs.len(), slot as int));
                }
                match node {
                    cap_t::CNodeCap { .. } => {},
                    _ => {
                        return resolveAddressBits_ret_t {
                            status: exception_t::EXCEPTION_NONE,
                            slot,
                            bitsRemaining: bits_left,
                        };
                    },
                }
            },
            _ => {
                k.current_lookup_fault = lookup_fault_t::InvalidRoot;
                return resolveAddressBits_ret_t {
                    status: exception_t::EXCEPTION_LOOKUP_FAULT,
                    slot: 0,
                    bitsRemaining: n_bits,
                };
            },
        }
    }
}

/// The error record after a failed lookup for a CNode operation.
pub open spec fn failed_lookup_error(e: syscall_error_t, is_source: bool) -> syscall_error_t {
    syscall_error_t {
        _type: seL4_FailedLookup,
        failedLookupWasSource: if is_source {
            1
        } else {
            0
        },
        ..e
    }
}

/// The error record after a depth out of range.
pub open spec fn range_error(e: syscall_error_t) -> syscall_error_t {
    syscall_error_t { _type: seL4_RangeError, rangeErrorMin: 1, rangeErrorMax: wordBits, ..e }
}

/// Looks up the slot of a CNode operation; the error record says whether the
/// slot was the source.
pub fn lookupSlotForCNodeOp(k: &mut Kernel, isSource: bool, root: &cap_t, capptr: u64, depth: usize) -> (ret:
    lookupSlot_ret_t)
    requires
        old(k).wf(),
        cap_ok(*root, old(k)@.slots.len(), old(k)@.tcbs.len()),
    ensures
        match lookup_for_cnode_op(old(k)@.slots, *root, capptr, depth) {
            CNodeLookup::Slot { slot } => {
                &&& ret.status == exception_t::EXCEPTION_NONE
                &&& ret.slot == slot
                &&& final(k)@ == old(k)@
                &&& final(k)@.slot_ok(slot)
            },
            CNodeLookup::Range => {
                &&& ret.status == exception_t::EXCEPTION_SYSCALL_ERROR
                &&& ret.slot == 0
                &&& final(k)@ == (KernelView {
                    current_syscall_error: range_error(old(k)@.current_syscall_error),
                    ..old(k)@
                })
            },
            CNodeLookup::Failed { fault } => {
                &&& ret.status == exception_t::EXCEPTION_SYSCALL_ERROR
                &&& ret.slot == 0
                &&& final(k)@ == (KernelView {
                    current_syscall_error: failed_lookup_error(old(k)@.current_syscall_error, isSource),
                    current_lookup_fault: fault,
                    ..old(k)@
                })
            },
        },
        final(k).wf(),
{
    let was_source: usize = if isSource {
        1
    } else {
        0
    };
    match root {
        cap_t::CNodeCap { .. } => {},
        _ => {
            k.current_syscall_error._type = seL4_FailedLookup;
            k.current_syscall_error.failedLookupWasSource = was_source;
            k.current_lookup_fault = lookup_fault_t::InvalidRoot;
            return lookupSlot_ret_t { status: exception_t::EXCEPTION_SYSCALL_ERROR, slot: 0 };
        },
    }
    if depth < 1 || depth > wordBits {
        k.current_syscall_error._type = seL4_RangeError;
        k.current_syscall_error.rangeErrorMin = 1;
        k.current_syscall_error.rangeErrorMax = wordBits;
        return lookupSlot_ret_t { status: exception_t::EXCEPTION_SYSCALL_ERROR, slot: 0 };
    }
    let res_ret = rust_resolveAddressBits(k, root, capptr, depth);
    if res_ret.status != exception_t::EXCEPTION_NONE {
        k.current_syscall_error._type = seL4_FailedLookup;
        k.current_syscall_error.failedLookupWasSource = was_source;
        return lookupSlot_ret_t { status: exception_t::EXCEPTION_SYSCALL_ERROR, slot: 0 };
    }
    if res_ret.bitsRemaining != 0 {
        k.current_syscall_error._type = seL4_FailedLookup;
        k.current_syscall_error.failedLookupWasSource = was_source;
        k.current_lookup_fault =
        lookup_fault_t::DepthMismatch { bitsFound: 0, bitsLeft: res_ret.bitsRemaining };
        return lookupSlot_ret_t { status: exception_t::EXCEPTION_SYSCALL_ERROR, slot: 0 };
    }
    lookupSlot_ret_t { status: exception_t::EXCEPTION_NONE, slot: res_ret.slot }
}

/// Looks up the destination slot of a CNode operation.
pub fn rust_lookupTargetSlot(k: &mut Kernel, root: &cap_t, capptr: u64, depth: usize) -> (ret:
    lookupSlot_ret_t)
    requires
        old(k).wf(),
        cap_ok(*root, old(k)@.slots.len(), old(k)@.tcbs.len()),
    ensures
        match lookup_for_cnode_op(old(k)@.slots, *root, capptr, depth) {
            CNodeLookup::Slot { slot } => {
                &&& ret.status == exception_t::EXCEPTION_NONE
                &&& ret.slot == slot
                &&& final(k)@ == old(k)@
                &&& final(k)@.slot_ok(slot)
            },
            CNodeLookup::Range => {
                &&& ret.status == exception_t::EXCEPTION_SYSCALL_ERROR
                &&& ret.slot == 0
                &&& final(k)@ == (KernelView {
                    current_syscall_error: range_error(old(k)@.current_syscall_error),
                    ..old(k)@
                })
            },
            CNodeLookup::Failed { fault } => {
                &&& ret.status == exception_t::EXCEPTION_SYSCALL_ERROR
                &&& ret.slot == 0
                &&& final(k)@ == (KernelView {
                    current_syscall_error: failed_lookup_error(old(k)@.current_syscall_error, false),
                    current_lookup_fault: fault,
                    ..old(k)@
                })
            },
        },
        final(k).wf(),
{
    lookupSlotForCNodeOp(k, false, root, capptr, depth)
}

/// Looks up the source slot of a CNode operation.
pub fn rust_lookupSourceSlot(k: &mut Kernel, root: &cap_t, capptr: u64, depth: usize) -> (ret:
    lookupSlot_ret_t)
    requires
        old(k).wf(),
        cap_ok(*root, old(k)@.slots.len(), old(k)@.tcbs.len()),
    ensures
        match lookup_for_cnode_op(old(k)@.slots, *root, capptr, depth) {
            CNodeLookup::Slot { slot } => {
                &&& ret.status == exception_t::EXCEPTION_NONE
                &&& ret.slot == slot
                &&& final(k)@ == old(k)@
                &&& final(k)@.slot_ok(slot)
            },
            CNodeLookup::Range => {
                &&& ret.status == exception_t::EXCEPTION_SYSCALL_ERROR
                &&& ret.slot == 0
                &&& final(k)@ == (KernelView {
                    current_syscall_error: range_error(old(k)@.current_syscall_error),
                    ..old(k)@
                })
            },
            CNodeLookup::Failed { fault } => {
                &&& ret.status == exception_t::EXCEPTION_SYSCALL_ERROR
                &&& ret.slot == 0
                &&& final(k)@ == (KernelView {
                    current_syscall_error: failed_lookup_error(old(k)@.current_syscall_error, true),
                    current_lookup_fault: fault,
                    ..old(k)@
                })
            },
        },
        final(k).wf(),
{
    lookupSlotForCNodeOp(k, true, root, capptr, depth)
}

/// Looks up the pivot slot of a rotation.
pub fn rust_lookupPivotSlot(k: &mut Kernel, root: &cap_t, capptr: u64, depth: usize) -> (ret:
    lookupSlot_ret_t)
    requires
        old(k).wf(),
        cap_ok(*root, old(k)@.slots.len(), old(k)@.tcbs.len()),
    ensures
        match lookup_for_cnode_op(old(k)@.slots, *root, capptr, depth) {
            CNodeLookup::Slot { slot } => {
                &&& ret.status == exception_t::EXCEPTION_NONE
                &&& ret.slot == slot
                &&& final(k)@ == old(k)@
                &&& final(k)@.slot_ok(slot)
            },
            CNodeLookup::Range => {
                &&& ret.status == exception_t::EXCEPTION_SYSCALL_ERROR
                &&& ret.slot == 0
                &&& final(k)@ == (KernelView {
                    current_syscall_error: range_error(old(k)@.current_syscall_error),
                    ..old(k)@
                })
            },
            CNodeLookup::Failed { fault } => {
                &&& ret.status == exception_t::EXCEPTION_SYSCALL_ERROR
                &&& ret.slot == 0
                &&& final(k)@ == (KernelView {
                    current_syscall_error: failed_lookup_error(old(k)@.current_syscall_error, true),
                    current_lookup_fault: fault,
                    ..old(k)@
                })
            },
        },
        final(k).wf(),
{
    lookupSlotForCNodeOp(k, true, root, capptr, depth)
}

/// Looks up a slot in the capability space of a thread.
pub fn lookupSlot(k: &mut Kernel, thread: usize, capptr: u64) -> (ret: lookupSlot_raw_ret_t)
    requires
        old(k).wf(),
        old(k)@.tcb_ok(thread),
    ensures
        match lookup_in_thread(old(k)@.slots, thread, capptr) {
            Resolution::Slot { slot, bits_remaining } => {
                &&& ret.status == exception_t::EXCEPTION_NONE
                &&& ret.slot == slot
                &&& final(k)@ == old(k)@
                &&& final(k)@.slot_ok(slot)
            },
            Resolution::Fault { fault } => {
                &&& ret.status == exception_t::EXCEPTION_LOOKUP_FAULT
                &&& ret.slot == 0
                &&& final(k)@ == (KernelView { current_lookup_fault: fault, ..old(k)@ })
            },
        },
        final(k).wf(),
{
    let root_slot = getCSpace(thread, tcbCTable);
    proof {
        assert(slot_inv(k@.slots, k@.tcbs.len(), root_slot as int));
    }
    let threadRoot = k.slots[root_slot].cap;
    let res_ret = rust_resolveAddressBits(k, &threadRoot, capptr, wordBits);
    if res_ret.status == exception_t::EXCEPTION_NONE && res_ret.bitsRemaining != 0 {
        k.current_lookup_fault =
        lookup_fault_t::DepthMismatch { bitsFound: 0, bitsLeft: res_ret.bitsRemaining };
        return lookupSlot_raw_ret_t { status: exception_t::EXCEPTION_LOOKUP_FAULT, slot: 0 };
    }
    lookupSlot_raw_ret_t { status: res_ret.status, slot: res_ret.slot }
}

/// Looks up a slot in the capability space of a thread and reads its
/// capability.
pub fn lookupCapAndSlot(k: &mut Kernel, thread: usize, cPtr: u64) -> (ret: lookupCapAndSlot_ret_t)
    requires
        old(k).wf(),
        old(k)@.tcb_ok(thread),
    ensures
        match lookup_in_thread(old(k)@.slots, thread, cPtr) {
            Resolution::Slot { slot, bits_remaining } => {
                &&& ret.status == exception_t::EXCEPTION_NONE
                &&& ret.slot == slot
                &&& ret.cap == old(k)@.slots[slot as int].cap
                &&& final(k)@ == old(k)@
                &&& final(k)@.slot_ok(slot)
            },
            Resolution::Fault { fault } => {
                &&& ret.status == exception_t::EXCEPTION_LOOKUP_FAULT
                &&& ret.slot == 0
                &&& ret.cap is NullCap
                &&& final(k)@ == (KernelView { current_lookup_fault: fault, ..old(k)@ })
            },
        },
        final(k).wf(),
{
    let lu_ret = lookupSlot(k, thread, cPtr);
    if lu_ret.status != exception_t::EXCEPTION_NONE {
        return lookupCapAndSlot_ret_t { status: lu_ret.status, slot: 0, cap: cap_t::NullCap };
    }
    lookupCapAndSlot_ret_t {
        status: exception_t::EXCEPTION_NONE,
        slot: lu_ret.slot,
        cap: k.slots[lu_ret.slot].cap,
    }
}

/// Looks up a capability in the capability space of a thread.
pub fn lookupCap(k: &mut Kernel, thread: usize, cPtr: u64) -> (ret: lookupCap_ret_t)
    requires
        old(k).wf(),
        old(k)@.tcb_ok(thread),
    ensures
        match lookup_in_thread(old(k)@.slots, thread, cPtr) {
            Resolution::Slot { slot, bits_remaining } => {
                &&& ret.status == exception_t::EXCEPTION_NONE
                &&& ret.cap == old(k)@.slots[slot as int].cap
                &&& final(k)@ == old(k)@
            },
            Resolution::Fault { fault } => {
                &&& ret.status == exception_t::EXCEPTION_LOOKUP_FAULT
                &&& ret.cap is NullCap
                &&& final(k)@ == (KernelView { current_lookup_fault: fault, ..old(k)@ })
            },
        },
        final(k).wf(),
{
    let lu_ret = lookupSlot(k, thread, cPtr);
    if lu_ret.status != exception_t::EXCEPTION_NONE {
        return lookupCap_ret_t { status: lu_ret.status, cap: cap_t::NullCap };
    }
    lookupCap_ret_t { status: exception_t::EXCEPTION_NONE, cap: k.slots[lu_ret.slot].cap }
}

/// A depth of 0 and a depth of more than a word are out of range, whatever
/// the address.
pub proof fn lemma_depth_out_of_range(slots: Seq<cte_t>, root: cap_t, capptr: u64, depth: usize)
    requires
        root is CNodeCap,
        depth == 0 || depth > wordBits,
    ensures
        lookup_for_cnode_op(slots, root, capptr, depth) == CNodeLookup::Range,
{
}

} // verus!
