//! The invocations of a CNode capability: decoding the message of a system
//! call into an operation on slots, and carrying that operation out.

use vstd::prelude::*;
use crate::cap::cap_t;
use crate::cap_rights::{rightsFromWord, rights_of_word};
use crate::config::{
    seL4_DeleteFirst, seL4_FailedLookup, seL4_IllegalOperation, seL4_TruncatedMessage, tcbCaller,
    CNodeCancelBadgedSends, CNodeCopy, CNodeDelete, CNodeMint, CNodeMove, CNodeMutate,
    CNodeRevoke, CNodeRotate, CNodeSaveCaller, ThreadStateRestart,
};
use crate::cspace::{
    cteInsert, cteMove, cteSwap, derive_error, derived_cap, deriveCap, insert_slots, move_slots,
    swap_slots,
};
use crate::delete::{cteDelete, cteRevoke, delete_post, revoke_post};
use crate::kernel::{cap_ok, getCSpace, request_t, slot_inv, tcb_cspace, Kernel, KernelView};
use crate::objecttype::{
    has_cancel_send_right, hasCancelSendRight, mask_cap_rights, maskCapRights, update_cap_data,
    updateCapData,
};
use crate::resolve::{
    failed_lookup_error, lookup_for_cnode_op, range_error, rust_lookupPivotSlot,
    rust_lookupSourceSlot, rust_lookupTargetSlot, CNodeLookup,
};
use crate::structures::{cte_t, exception_t, lookup_fault_t, syscall_error_t};
use crate::thread::{getRegister, setThreadState};

verus! {

/// The number of message words that travel in registers.
pub const n_msgRegisters: usize = 4;

/// The register that holds message word `i`, for `i` below `n_msgRegisters`.
pub open spec fn msg_register(i: usize) -> usize {
    (11 + i) as usize
}

/// Message word `i` of the current system call: from a register of the
/// current thread, or from the message buffer, whose first word is the tag.
pub open spec fn syscall_arg(k: KernelView, i: usize, buffer: Seq<usize>) -> usize {
    if i < n_msgRegisters {
        k.tcbs[k.ksCurThread as int].registers[msg_register(i) as int]
    } else {
        buffer[i + 1]
    }
}

/// Message word `i` of the current system call.
pub fn getSyscallArg(k: &Kernel, i: usize, buffer: &Vec<usize>) -> (r: usize)
    requires
        k@.ksCurThread < k@.tcbs.len(),
        i >= n_msgRegisters ==> i + 1 < buffer.len(),
    ensures
        r == syscall_arg(k@, i, buffer@),
{
    if i < n_msgRegisters {
        getRegister(k, k.ksCurThread, 11 + i)
    } else {
        buffer[i + 1]
    }
}

impl KernelView {
    /// The kernel with a system-call error of the given type recorded.
    pub open spec fn failed(self, error_type: usize) -> KernelView {
        KernelView {
            current_syscall_error: syscall_error_t { _type: error_type, ..self.current_syscall_error },
            ..self
        }
    }

    /// The kernel after a lookup for a CNode operation: as it was if the
    /// lookup found a slot, with the error recorded if not.
    pub open spec fn looked_up(self, is_source: bool, root: cap_t, capptr: u64, depth: usize) -> KernelView {
        match lookup_for_cnode_op(self.slots, root, capptr, depth) {
            CNodeLookup::Slot { slot } => self,
            CNodeLookup::Range => KernelView {
                current_syscall_error: range_error(self.current_syscall_error),
                ..self
            },
            CNodeLookup::Failed { fault } => KernelView {
                current_syscall_error: failed_lookup_error(self.current_syscall_error, is_source),
                current_lookup_fault: fault,
                ..self
            },
        }
    }

    /// The kernel with the error of a slot that should hold a capability and
    /// holds none.
    pub open spec fn missing(self, is_source: bool, depth: usize) -> KernelView {
        KernelView {
            current_syscall_error: failed_lookup_error(self.current_syscall_error, is_source),
            current_lookup_fault: lookup_fault_t::MissingCapability { bitsLeft: depth },
            ..self
        }
    }

    /// The kernel after the reply capability that waits in the caller slot of
    /// the current thread was saved to `dest`; a master reply capability and an
    /// empty caller slot leave all as it is.
    pub open spec fn caller_saved(self, dest: usize) -> KernelView {
        let src = tcb_cspace(self.ksCurThread, tcbCaller) as usize;
        match self.slots[src as int].cap {
            cap_t::ReplyCap { capReplyMaster, .. } => if !capReplyMaster {
                KernelView { slots: move_slots(self.slots, self.slots[src as int].cap, src, dest), ..self }
            } else {
                self
            },
            _ => self,
        }
    }

    /// The kernel after three slots were rotated: the capability of the
    /// pivot goes to the destination as `cap2` and that of the source to the
    /// pivot as `cap1`; where source and destination are one slot, source and
    /// pivot change places.
    pub open spec fn rotated(self, cap1: cap_t, cap2: cap_t, slot1: usize, slot2: usize, slot3: usize) -> KernelView {
        if slot1 == slot3 {
            KernelView { slots: swap_slots(self.slots, cap1, slot1, cap2, slot2), ..self }
        } else {
            KernelView {
                slots: move_slots(move_slots(self.slots, cap2, slot2, slot3), cap1, slot1, slot2),
                ..self
            }
        }
    }

    /// The kernel after the sends with the badge of `cap` were cancelled on
    /// its endpoint; an endpoint capability without a badge cancels nothing.
    pub open spec fn badged_sends_cancelled(self, cap: cap_t) -> KernelView {
        match cap {
            cap_t::EndpointCap { capEPPtr, capEPBadge, .. } => if capEPBadge != 0 {
                self.asked(request_t::CancelBadgedSends { ep_ptr: capEPPtr, badge: capEPBadge })
            } else {
                self
            },
            _ => self,
        }
    }
}

/// Fails with the error of a slot that must be deleted first if `slot` holds
/// a capability.
pub fn ensureEmptySlot(k: &mut Kernel, slot: usize) -> (r: exception_t)
    requires
        slot < old(k)@.slots.len(),
    ensures
        old(k)@.slots[slot as int].cap is NullCap ==> r == exception_t::EXCEPTION_NONE && final(k)@
            == old(k)@,
        !(old(k)@.slots[slot as int].cap is NullCap) ==> r == exception_t::EXCEPTION_SYSCALL_ERROR
            && final(k)@ == old(k)@.failed(seL4_DeleteFirst),
{
    match k.slots[slot].cap {
        cap_t::NullCap => exception_t::EXCEPTION_NONE,
        _ => {
            k.current_syscall_error._type = seL4_DeleteFirst;
            exception_t::EXCEPTION_SYSCALL_ERROR
        },
    }
}

/// Saves the reply capability that waits in the caller slot of the current
/// thread to `destSlot`.
pub fn invokeCNodeSaveCaller(k: &mut Kernel, destSlot: usize) -> (r: exception_t)
    requires
        old(k).wf(),
        old(k)@.tcb_ok(old(k)@.ksCurThread),
        old(k)@.slot_ok(destSlot),
        old(k)@.slots[destSlot as int].cap is NullCap,
        ({
            let caller = old(k)@.slots[tcb_cspace(old(k)@.ksCurThread, tcbCaller)].cap;
            caller is NullCap || caller is ReplyCap
        }),
    ensures
        r == exception_t::EXCEPTION_NONE,
        final(k)@ == old(k)@.caller_saved(destSlot),
        final(k).wf(),
{
    let srcSlot: usize = getCSpace(k.ksCurThread, tcbCaller);
    let cap = k.slots[srcSlot].cap;
    proof {
        assert(slot_inv(k@.slots, k@.tcbs.len(), srcSlot as int));
    }
    match cap {
        cap_t::ReplyCap { capReplyMaster, .. } => {
            if !capReplyMaster {
                cteMove(k, &cap, srcSlot, destSlot);
            }
        },
        _ => {},
    }
    exception_t::EXCEPTION_NONE
}

/// Rotates three slots: the pivot's capability goes to the destination as
/// `cap2`, the source's to the pivot as `cap1`.
pub fn invokeCNodeRotate(k: &mut Kernel, cap1: &cap_t, cap2: &cap_t, slot1: usize, slot2: usize, slot3: usize) -> (r:
    exception_t)
    requires
        old(k).wf(),
        old(k)@.slot_ok(slot1),
        old(k)@.slot_ok(slot2),
        old(k)@.slot_ok(slot3),
        slot2 != slot1,
        slot2 != slot3,
        slot1 != slot3 ==> old(k)@.slots[slot3 as int].cap is NullCap,
        !(cap1 is NullCap),
        !(cap2 is NullCap),
        cap_ok(*cap1, old(k)@.slots.len(), old(k)@.tcbs.len()),
        cap_ok(*cap2, old(k)@.slots.len(), old(k)@.tcbs.len()),
    ensures
        r == exception_t::EXCEPTION_NONE,
        final(k)@ == old(k)@.rotated(*cap1, *cap2, slot1, slot2, slot3),
        final(k).wf(),
{
    if slot1 == slot3 {
        cteSwap(k, cap1, slot1, cap2, slot2);
    } else {
        cteMove(k, cap2, slot2, slot3);
        cteMove(k, cap1, slot1, slot2);
    }
    exception_t::EXCEPTION_NONE
}

/// Moves a capability.
pub fn invokeCNodeMove(k: &mut Kernel, cap: &cap_t, srcSlot: usize, destSlot: usize) -> (r: exception_t)
    requires
        old(k).wf(),
        old(k)@.slot_ok(srcSlot),
        old(k)@.slot_ok(destSlot),
        old(k)@.slots[destSlot as int].cap is NullCap,
        !(cap is NullCap),
        cap_ok(*cap, old(k)@.slots.len(), old(k)@.tcbs.len()),
    ensures
        r == exception_t::EXCEPTION_NONE,
        final(k)@ == (KernelView { slots: move_slots(old(k)@.slots, *cap, srcSlot, destSlot), ..old(k)@ }),
        final(k).wf(),
{
    cteMove(k, cap, srcSlot, destSlot);
    exception_t::EXCEPTION_NONE
}

/// Inserts a derived capability.
pub fn invokeCNodeInsert(k: &mut Kernel, cap: &cap_t, srcSlot: usize, destSlot: usize) -> (r: exception_t)
    requires
        old(k).wf(),
        old(k)@.slot_ok(srcSlot),
        old(k)@.slot_ok(destSlot),
        old(k)@.slots[destSlot as int].cap is NullCap,
        !(old(k)@.slots[srcSlot as int].cap is NullCap),
        !(cap is NullCap),
        cap_ok(*cap, old(k)@.slots.len(), old(k)@.tcbs.len()),
    ensures
        r == exception_t::EXCEPTION_NONE,
        final(k)@ == (KernelView { slots: insert_slots(old(k)@.slots, *cap, srcSlot, destSlot), ..old(k)@ }),
        final(k).wf(),
{
    cteInsert(k, cap, srcSlot, destSlot);
    exception_t::EXCEPTION_NONE
}

/// Asks for the sends with the badge of an endpoint capability to be
/// cancelled.
pub fn invokeCNodeCancelBadgedSends(k: &mut Kernel, cap: &cap_t) -> (r: exception_t)
    requires
        cap is EndpointCap,
    ensures
        r == exception_t::EXCEPTION_NONE,
        final(k)@ == old(k)@.badged_sends_cancelled(*cap),
        old(k).wf() ==> final(k).wf(),
{
    match cap {
        cap_t::EndpointCap { capEPPtr, capEPBadge, .. } => {
            if *capEPBadge != 0 {
                k.requests.push(request_t::CancelBadgedSends { ep_ptr: *capEPPtr, badge: *capEPBadge });
            }
        },
        _ => {},
    }
    exception_t::EXCEPTION_NONE
}

/// Revokes the capability in `destSlot`.
pub fn invokeCNodeRevoke(k: &mut Kernel, destSlot: usize) -> (r: exception_t)
    requires
        old(k).wf(),
        old(k)@.slot_ok(destSlot),
    ensures
        revoke_post(old(k)@, destSlot, final(k)@, r),
{
    cteRevoke(k, destSlot)
}

/// Deletes the capability in `destSlot`.
pub fn invokeCNodeDelete(k: &mut Kernel, destSlot: usize) -> (r: exception_t)
    requires
        old(k).wf(),
        old(k)@.slot_ok(destSlot),
    ensures
        delete_post(old(k)@, destSlot, true, final(k)@, r),
{
    cteDelete(k, destSlot, true)
}

/// The operation that a decoded CNode invocation asks for.
pub enum CNodeOp {
    /// None: the decoding ended in an error.
    Stop,
    Insert { cap: cap_t, src: usize, dest: usize },
    Move { cap: cap_t, src: usize, dest: usize },
    Revoke { dest: usize },
    Delete { dest: usize },
    SaveCaller { dest: usize },
    CancelBadgedSends { cap: cap_t },
    Rotate { cap1: cap_t, cap2: cap_t, src: usize, pivot: usize, dest: usize },
}

/// A decoded CNode invocation: the kernel as the decoding leaves it, the
/// status with which the decoding ended, and the operation to carry out.
pub struct CNodeDecoded {
    pub status: exception_t,
    pub kernel: KernelView,
    pub op: CNodeOp,
}

/// A decoding that ended in a system-call error.
pub open spec fn refused(k: KernelView) -> CNodeDecoded {
    CNodeDecoded { status: exception_t::EXCEPTION_SYSCALL_ERROR, kernel: k, op: CNodeOp::Stop }
}

/// A decoding that found an operation: the current thread is set to restart
/// before the operation is carried out.
pub open spec fn accepted(k: KernelView, op: CNodeOp) -> CNodeDecoded {
    CNodeDecoded {
        status: exception_t::EXCEPTION_NONE,
        kernel: k.state_set(k.ksCurThread, ThreadStateRestart),
        op,
    }
}

/// The end of decoding a copy, mint, move or mutate: a null capability is
/// refused, any other is inserted or moved.
pub open spec fn decode_transfer_end(k: KernelView, new_cap: cap_t, is_move: bool, src: usize, dest: usize) -> CNodeDecoded {
    if new_cap is NullCap {
        refused(k.failed(seL4_IllegalOperation))
    } else if is_move {
        accepted(k, CNodeOp::Move { cap: new_cap, src, dest })
    } else {
        accepted(k, CNodeOp::Insert { cap: new_cap, src, dest })
    }
}

/// The end of decoding a copy or a mint: the capability is derived from the
/// source slot first.
pub open spec fn decode_derive(k: KernelView, cap: cap_t, src: usize, dest: usize) -> CNodeDecoded {
    match derive_error(k.slots, src, cap) {
        Some(e) => refused(k.failed(e)),
        None => decode_transfer_end(k, derived_cap(k.slots, src, cap), false, src, dest),
    }
}

/// Decoding a copy, mint, move or mutate into the slot `dest`.
pub open spec fn decode_transfer(k: KernelView, label: usize, length: usize, dest: usize, buffer: Seq<usize>) -> CNodeDecoded {
    let src_root_slot = k.current_extra_caps.excaprefs@[0];
    let src_index = syscall_arg(k, 2, buffer) as u64;
    let src_depth = syscall_arg(k, 3, buffer);
    let src_root = k.slots[src_root_slot as int].cap;
    if length < 4 || src_root_slot == 0 {
        refused(k.failed(seL4_TruncatedMessage))
    } else if !(k.slots[dest as int].cap is NullCap) {
        refused(k.failed(seL4_DeleteFirst))
    } else {
        match lookup_for_cnode_op(k.slots, src_root, src_index, src_depth) {
            CNodeLookup::Slot { slot: src } => {
                let src_cap = k.slots[src as int].cap;
                if src_cap is NullCap {
                    refused(k.missing(true, src_depth))
                } else if label == CNodeCopy {
                    if length < 5 {
                        refused(k.failed(seL4_TruncatedMessage))
                    } else {
                        decode_derive(
                            k,
                            mask_cap_rights(rights_of_word(syscall_arg(k, 4, buffer) as u64), src_cap),
                            src,
                            dest,
                        )
                    }
                } else if label == CNodeMint {
                    if length < 6 {
                        refused(k.failed(seL4_TruncatedMessage))
                    } else {
                        decode_derive(
                            k,
                            update_cap_data(
                                false,
                                syscall_arg(k, 5, buffer) as u64,
                                mask_cap_rights(rights_of_word(syscall_arg(k, 4, buffer) as u64), src_cap),
                            ),
                            src,
                            dest,
                        )
                    }
                } else if label == CNodeMove {
                    decode_transfer_end(k, src_cap, true, src, dest)
                } else {
                    if length < 5 {
                        refused(k.failed(seL4_TruncatedMessage))
                    } else {
                        decode_transfer_end(
                            k,
                            update_cap_data(true, syscall_arg(k, 4, buffer) as u64, src_cap),
                            true,
                            src,
                            dest,
                        )
                    }
                }
            },
            _ => refused(k.looked_up(true, src_root, src_index, src_depth)),
        }
    }
}

/// Decoding a rotation with the destination slot `dest`.
pub open spec fn decode_rotate(k: KernelView, length: usize, dest: usize, buffer: Seq<usize>) -> CNodeDecoded {
    let pivot_root_slot = k.current_extra_caps.excaprefs@[0];
    let src_root_slot = k.current_extra_caps.excaprefs@[1];
    let pivot_data = syscall_arg(k, 2, buffer) as u64;
    let pivot_index = syscall_arg(k, 3, buffer) as u64;
    let pivot_depth = syscall_arg(k, 4, buffer);
    let src_data = syscall_arg(k, 5, buffer) as u64;
    let src_index = syscall_arg(k, 6, buffer) as u64;
    let src_depth = syscall_arg(k, 7, buffer);
    let pivot_root = k.slots[pivot_root_slot as int].cap;
    let src_root = k.slots[src_root_slot as int].cap;
    if length < 8 || pivot_root_slot == 0 || src_root_slot == 0 {
        refused(k.failed(seL4_TruncatedMessage))
    } else {
        match lookup_for_cnode_op(k.slots, src_root, src_index, src_depth) {
            CNodeLookup::Slot { slot: src } => match lookup_for_cnode_op(
                k.slots,
                pivot_root,
                pivot_index,
                pivot_depth,
            ) {
                CNodeLookup::Slot { slot: pivot } => {
                    let new_src = update_cap_data(true, src_data, k.slots[src as int].cap);
                    let new_pivot = update_cap_data(true, pivot_data, k.slots[pivot as int].cap);
                    if pivot == src || pivot == dest {
                        refused(k.failed(seL4_IllegalOperation))
                    } else if src != dest && !(k.slots[dest as int].cap is NullCap) {
                        refused(k.failed(seL4_DeleteFirst))
                    } else if k.slots[src as int].cap is NullCap {
                        refused(k.missing(true, src_depth))
                    } else if k.slots[pivot as int].cap is NullCap {
                        refused(k.missing(false, pivot_depth))
                    } else if new_src is NullCap || new_pivot is NullCap {
                        refused(k.failed(seL4_IllegalOperation))
                    } else {
                        accepted(k, CNodeOp::Rotate { cap1: new_src, cap2: new_pivot, src, pivot, dest })
                    }
                },
                _ => refused(k.looked_up(true, pivot_root, pivot_index, pivot_depth)),
            },
            _ => refused(k.looked_up(true, src_root, src_index, src_depth)),
        }
    }
}

/// Decoding a CNode invocation: the label must be one of the CNode's, the
/// message must hold the address and the depth of the destination, the
/// destination must resolve, and what follows depends on the label.
pub open spec fn decode_cnode(k: KernelView, label: usize, length: usize, cap: cap_t, buffer: Seq<usize>) -> CNodeDecoded {
    let index = syscall_arg(k, 0, buffer) as u64;
    let w_bits = syscall_arg(k, 1, buffer);
    if label < CNodeRevoke || label > CNodeSaveCaller {
        refused(k.failed(seL4_IllegalOperation))
    } else if length < 2 {
        refused(k.failed(seL4_TruncatedMessage))
    } else {
        match lookup_for_cnode_op(k.slots, cap, index, w_bits) {
            CNodeLookup::Slot { slot: dest } => {
                if CNodeCopy <= label <= CNodeMutate {
                    decode_transfer(k, label, length, dest, buffer)
                } else if label == CNodeRevoke {
                    accepted(k, CNodeOp::Revoke { dest })
                } else if label == CNodeDelete {
                    accepted(k, CNodeOp::Delete { dest })
                } else if label == CNodeSaveCaller {
                    if k.slots[dest as int].cap is NullCap {
                        accepted(k, CNodeOp::SaveCaller { dest })
                    } else {
                        refused(k.failed(seL4_DeleteFirst))
                    }
                } else if label == CNodeCancelBadgedSends {
                    if has_cancel_send_right(k.slots[dest as int].cap) {
                        accepted(k, CNodeOp::CancelBadgedSends { cap: k.slots[dest as int].cap })
                    } else {
                        refused(k.failed(seL4_IllegalOperation))
                    }
                } else {
                    decode_rotate(k, length, dest, buffer)
                }
            },
            _ => refused(k.looked_up(false, cap, index, w_bits)),
        }
    }
}

/// What holds once a decoded invocation was carried out.
pub open spec fn cnode_invoked(d: CNodeDecoded, new: KernelView, r: exception_t) -> bool {
    match d.op {
        CNodeOp::Stop => r == d.status && new == d.kernel,
        CNodeOp::Insert { cap, src, dest } => r == exception_t::EXCEPTION_NONE && new == (KernelView {
            slots: insert_slots(d.kernel.slots, cap, src, dest),
            ..d.kernel
        }),
        CNodeOp::Move { cap, src, dest } => r == exception_t::EXCEPTION_NONE && new == (KernelView {
            slots: move_slots(d.kernel.slots, cap, src, dest),
            ..d.kernel
        }),
        CNodeOp::Revoke { dest } => revoke_post(d.kernel, dest, new, r),
        CNodeOp::Delete { dest } => delete_post(d.kernel, dest, true, new, r),
        CNodeOp::SaveCaller { dest } => r == exception_t::EXCEPTION_NONE && new == d.kernel.caller_saved(dest),
        CNodeOp::CancelBadgedSends { cap } => r == exception_t::EXCEPTION_NONE && new
            == d.kernel.badged_sends_cancelled(cap),
        CNodeOp::Rotate { cap1, cap2, src, pivot, dest } => r == exception_t::EXCEPTION_NONE && new
            == d.kernel.rotated(cap1, cap2, src, pivot, dest),
    }
}

/// What a CNode invocation asks of the kernel's state before it is decoded:
/// the kernel is in order, the current thread exists, the references of the
/// extra capabilities lie in slot memory, and, where the caller is to be
/// saved, the caller slot of the current thread holds a reply capability or
/// none.
pub open spec fn cnode_invocation_ready(k: KernelView, label: usize, cap: cap_t, buffer: Seq<usize>) -> bool {
    &&& k.wf()
    &&& k.tcb_ok(k.ksCurThread)
    &&& cap_ok(cap, k.slots.len(), k.tcbs.len())
    &&& buffer.len() >= 9
    &&& k.extra_caps_ok()
    &&& (label == CNodeSaveCaller ==> {
        let caller = k.slots[tcb_cspace(k.ksCurThread, tcbCaller)].cap;
        caller is NullCap || caller is ReplyCap
    })
}

/// Sets the current thread to restart and moves or inserts `new_cap`.
fn commit_transfer(k: &mut Kernel, new_cap: &cap_t, is_move: bool, src: usize, dest: usize) -> (r:
    exception_t)
    requires
        old(k).wf(),
        old(k)@.tcb_ok(old(k)@.ksCurThread),
        old(k)@.slot_ok(src),
        old(k)@.slot_ok(dest),
        old(k)@.slots[dest as int].cap is NullCap,
        !(old(k)@.slots[src as int].cap is NullCap),
        cap_ok(*new_cap, old(k)@.slots.len(), old(k)@.tcbs.len()),
    ensures
        cnode_invoked(decode_transfer_end(old(k)@, *new_cap, is_move, src, dest), final(k)@, r),
        final(k).wf(),
{
    match new_cap {
        cap_t::NullCap => {
            k.current_syscall_error._type = seL4_IllegalOperation;
            return exception_t::EXCEPTION_SYSCALL_ERROR;
        },
        _ => {},
    }
    let cur: usize = k.ksCurThread;
    setThreadState(k, cur, ThreadStateRestart);
    if is_move {
        invokeCNodeMove(k, new_cap, src, dest)
    } else {
        invokeCNodeInsert(k, new_cap, src, dest)
    }
}

/// Derives `cap` from the source slot and inserts what the derivation gives.
fn commit_derived(k: &mut Kernel, cap: &cap_t, src: usize, dest: usize) -> (r: exception_t)
    requires
        old(k).wf(),
        old(k)@.tcb_ok(old(k)@.ksCurThread),
        old(k)@.slot_ok(src),
        old(k)@.slot_ok(dest),
        old(k)@.slots[dest as int].cap is NullCap,
        !(old(k)@.slots[src as int].cap is NullCap),
        cap_ok(*cap, old(k)@.slots.len(), old(k)@.tcbs.len()),
    ensures
        cnode_invoked(decode_derive(old(k)@, *cap, src, dest), final(k)@, r),
        final(k).wf(),
{
    let dc_ret = deriveCap(k, src, cap);
    if dc_ret.status != exception_t::EXCEPTION_NONE {
        return dc_ret.status;
    }
    commit_transfer(k, &dc_ret.cap, false, src, dest)
}

/// Decodes and carries out a copy, mint, move or mutate.
fn decode_and_transfer(k: &mut Kernel, invLabel: usize, length: usize, destSlot: usize, buffer: &Vec<usize>) -> (r:
    exception_t)
    requires
        old(k).wf(),
        old(k)@.tcb_ok(old(k)@.ksCurThread),
        old(k)@.extra_caps_ok(),
        buffer@.len() >= 9,
        old(k)@.slot_ok(destSlot),
        CNodeCopy <= invLabel <= CNodeMutate,
    ensures
        cnode_invoked(decode_transfer(old(k)@, invLabel, length, destSlot, buffer@), final(k)@, r),
        final(k).wf(),
{
    let src_root_slot: usize = k.current_extra_caps.excaprefs[0];
    if length < 4 || src_root_slot == 0 {
        k.current_syscall_error._type = seL4_TruncatedMessage;
        return exception_t::EXCEPTION_SYSCALL_ERROR;
    }
    let srcIndex: u64 = getSyscallArg(k, 2, buffer) as u64;
    let srcDepth: usize = getSyscallArg(k, 3, buffer);
    proof {
        assert(slot_inv(k@.slots, k@.tcbs.len(), src_root_slot as int));
    }
    let srcRoot = k.slots[src_root_slot].cap;
    let status = ensureEmptySlot(k, destSlot);
    if status != exception_t::EXCEPTION_NONE {
        return status;
    }
    let lu_ret = rust_lookupSourceSlot(k, &srcRoot, srcIndex, srcDepth);
    if lu_ret.status != exception_t::EXCEPTION_NONE {
        return lu_ret.status;
    }
    let srcSlot: usize = lu_ret.slot;
    proof {
        assert(slot_inv(k@.slots, k@.tcbs.len(), srcSlot as int));
    }
    let src_cap = k.slots[srcSlot].cap;
    match src_cap {
        cap_t::NullCap => {
            k.current_syscall_error._type = seL4_FailedLookup;
            k.current_syscall_error.failedLookupWasSource = 1;
            k.current_lookup_fault = lookup_fault_t::MissingCapability { bitsLeft: srcDepth };
            return exception_t::EXCEPTION_SYSCALL_ERROR;
        },
        _ => {},
    }
    if invLabel == CNodeCopy {
        if length < 5 {
            k.current_syscall_error._type = seL4_TruncatedMessage;
            return exception_t::EXCEPTION_SYSCALL_ERROR;
        }
        let cap_rights = rightsFromWord(getSyscallArg(k, 4, buffer) as u64);
        let srcCap = maskCapRights(cap_rights, &src_cap);
        commit_derived(k, &srcCap, srcSlot, destSlot)
    } else if invLabel == CNodeMint {
        if length < 6 {
            k.current_syscall_error._type = seL4_TruncatedMessage;
            return exception_t::EXCEPTION_SYSCALL_ERROR;
        }
        let cap_rights = rightsFromWord(getSyscallArg(k, 4, buffer) as u64);
        let capData: u64 = getSyscallArg(k, 5, buffer) as u64;
        let srcCap = maskCapRights(cap_rights, &src_cap);
        let minted = updateCapData(false, capData, &srcCap);
        commit_derived(k, &minted, srcSlot, destSlot)
    } else if invLabel == CNodeMove {
        commit_transfer(k, &src_cap, true, srcSlot, destSlot)
    } else {
        if length < 5 {
            k.current_syscall_error._type = seL4_TruncatedMessage;
            return exception_t::EXCEPTION_SYSCALL_ERROR;
        }
        let capData: u64 = getSyscallArg(k, 4, buffer) as u64;
        let newCap = updateCapData(true, capData, &src_cap);
        commit_transfer(k, &newCap, true, srcSlot, destSlot)
    }
}

/// Decodes and carries out a rotation.
fn decode_and_rotate(k: &mut Kernel, length: usize, destSlot: usize, buffer: &Vec<usize>) -> (r: exception_t)
    requires
        old(k).wf(),
        old(k)@.tcb_ok(old(k)@.ksCurThread),
        old(k)@.extra_caps_ok(),
        buffer@.len() >= 9,
        old(k)@.slot_ok(destSlot),
    ensures
        cnode_invoked(decode_rotate(old(k)@, length, destSlot, buffer@), final(k)@, r),
        final(k).wf(),
{
    let pivot_root_slot: usize = k.current_extra_caps.excaprefs[0];
    let src_root_slot: usize = k.current_extra_caps.excaprefs[1];
    if length < 8 || pivot_root_slot == 0 || src_root_slot == 0 {
        k.current_syscall_error._type = seL4_TruncatedMessage;
        return exception_t::EXCEPTION_SYSCALL_ERROR;
    }
    let pivotNewData: u64 = getSyscallArg(k, 2, buffer) as u64;
    let pivotIndex: u64 = getSyscallArg(k, 3, buffer) as u64;
    let pivotDepth: usize = getSyscallArg(k, 4, buffer);
    let srcNewData: u64 = getSyscallArg(k, 5, buffer) as u64;
    let srcIndex: u64 = getSyscallArg(k, 6, buffer) as u64;
    let srcDepth: usize = getSyscallArg(k, 7, buffer);
    proof {
        assert(slot_inv(k@.slots, k@.tcbs.len(), pivot_root_slot as int));
        assert(slot_inv(k@.slots, k@.tcbs.len(), src_root_slot as int));
    }
    let pivotRoot = k.slots[pivot_root_slot].cap;
    let srcRoot = k.slots[src_root_slot].cap;
    let lu_ret = rust_lookupSourceSlot(k, &srcRoot, srcIndex, srcDepth);
    if lu_ret.status != exception_t::EXCEPTION_NONE {
        return lu_ret.status;
    }
    let srcSlot: usize = lu_ret.slot;
    let lu_ret = rust_lookupPivotSlot(k, &pivotRoot, pivotIndex, pivotDepth);
    if lu_ret.status != exception_t::EXCEPTION_NONE {
        return lu_ret.status;
    }
    let pivotSlot: usize = lu_ret.slot;
    if pivotSlot == srcSlot || pivotSlot == destSlot {
        k.current_syscall_error._type = seL4_IllegalOperation;
        return exception_t::EXCEPTION_SYSCALL_ERROR;
    }
    if srcSlot != destSlot {
        let status = ensureEmptySlot(k, destSlot);
        if status != exception_t::EXCEPTION_NONE {
            return status;
        }
    }
    proof {
        assert(slot_inv(k@.slots, k@.tcbs.len(), srcSlot as int));
        assert(slot_inv(k@.slots, k@.tcbs.len(), pivotSlot as int));
    }
    let src_cap = k.slots[srcSlot].cap;
    let pivot_cap = k.slots[pivotSlot].cap;
    match src_cap {
        cap_t::NullCap => {
            k.current_syscall_error._type = seL4_FailedLookup;
            k.current_syscall_error.failedLookupWasSource = 1;
            k.current_lookup_fault = lookup_fault_t::MissingCapability { bitsLeft: srcDepth };
            return exception_t::EXCEPTION_SYSCALL_ERROR;
        },
        _ => {},
    }
    match pivot_cap {
        cap_t::NullCap => {
            k.current_syscall_error._type = seL4_FailedLookup;
            k.current_syscall_error.failedLookupWasSource = 0;
            k.current_lookup_fault = lookup_fault_t::MissingCapability { bitsLeft: pivotDepth };
            return exception_t::EXCEPTION_SYSCALL_ERROR;
        },
        _ => {},
    }
    let newSrcCap = updateCapData(true, srcNewData, &src_cap);
    let newPivot = updateCapData(true, pivotNewData, &pivot_cap);
    match newSrcCap {
        cap_t::NullCap => {
            k.current_syscall_error._type = seL4_IllegalOperation;
            return exception_t::EXCEPTION_SYSCALL_ERROR;
        },
        _ => {},
    }
    match newPivot {
        cap_t::NullCap => {
            k.current_syscall_error._type = seL4_IllegalOperation;
            return exception_t::EXCEPTION_SYSCALL_ERROR;
        },
        _ => {},
    }
    let cur: usize = k.ksCurThread;
    setThreadState(k, cur, ThreadStateRestart);
    invokeCNodeRotate(k, &newSrcCap, &newPivot, srcSlot, pivotSlot, destSlot)
}

/// Decodes an invocation of the CNode capability `cap` by the current
/// thread and carries it out.
pub fn decodeCNodeInvocation(k: &mut Kernel, invLabel: usize, length: usize, cap: &cap_t, buffer: &Vec<usize>) -> (r:
    exception_t)
    requires
        cnode_invocation_ready(old(k)@, invLabel, *cap, buffer@),
    ensures
        cnode_invoked(decode_cnode(old(k)@, invLabel, length, *cap, buffer@), final(k)@, r),
        final(k).wf(),
{
    if invLabel < CNodeRevoke || invLabel > CNodeSaveCaller {
        k.current_syscall_error._type = seL4_IllegalOperation;
        return exception_t::EXCEPTION_SYSCALL_ERROR;
    }
    if length < 2 {
        k.current_syscall_error._type = seL4_TruncatedMessage;
        return exception_t::EXCEPTION_SYSCALL_ERROR;
    }
    let index: u64 = getSyscallArg(k, 0, buffer) as u64;
    let w_bits: usize = getSyscallArg(k, 1, buffer);
    let lu_ret = rust_lookupTargetSlot(k, cap, index, w_bits);
    let destSlot: usize = lu_ret.slot;
    if lu_ret.status != exception_t::EXCEPTION_NONE {
        return lu_ret.status;
    }
    let cur: usize = k.ksCurThread;
    if invLabel >= CNodeCopy && invLabel <= CNodeMutate {
        return decode_and_transfer(k, invLabel, length, destSlot, buffer);
    }
    if invLabel == CNodeRevoke {
        setThreadState(k, cur, ThreadStateRestart);
        return invokeCNodeRevoke(k, destSlot);
    }
    if invLabel == CNodeDelete {
        setThreadState(k, cur, ThreadStateRestart);
        return invokeCNodeDelete(k, destSlot);
    }
    if invLabel == CNodeSaveCaller {
        let status = ensureEmptySlot(k, destSlot);
        if status != exception_t::EXCEPTION_NONE {
            return status;
        }
        setThreadState(k, cur, ThreadStateRestart);
        return invokeCNodeSaveCaller(k, destSlot);
    }
    if invLabel == CNodeCancelBadgedSends {
        let destCap = k.slots[destSlot].cap;
        if !hasCancelSendRight(&destCap) {
            k.current_syscall_error._type = seL4_IllegalOperation;
            return exception_t::EXCEPTION_SYSCALL_ERROR;
        }
        setThreadState(k, cur, ThreadStateRestart);
        return invokeCNodeCancelBadgedSends(k, &destCap);
    }
    decode_and_rotate(k, length, destSlot, buffer)
}

} // verus!
