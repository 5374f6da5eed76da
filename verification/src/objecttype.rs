//! The algebra over capabilities: when two of them name the same object,
//! when a derivation can be revoked, how rights are masked and how a badge
//! or a guard is set.

use vstd::prelude::*;
use crate::cap::{cap_get_capIsPhysical, cap_get_capSizeBits, cap_t, isArchCap, low_mask, MASK};
use crate::cap_rights::seL4_CapRights_t;
use crate::config::{wordBits, VMKernelOnly, VMReadOnly, VMReadWrite};

verus! {

/// Whether `b` names the object that `a` names. An untyped capability names
/// whatever lies inside its block; endpoints and notifications are compared
/// without their badges; the null capability, the interrupt control and a
/// zombie name no object, so that nothing is the same object as one of them,
/// not even another of its kind.
pub open spec fn same_object_as(a: cap_t, b: cap_t) -> bool {
    match a {
        cap_t::UntypedCap { .. } => b.is_physical() && a.region_base() <= b.region_base()
            && b.region_top() <= a.region_top(),
        cap_t::EndpointCap { capEPPtr, .. } => b is EndpointCap && b.ptr() == capEPPtr,
        cap_t::NotificationCap { capNtfnPtr, .. } => b is NotificationCap && b.ptr() == capNtfnPtr,
        cap_t::ReplyCap { capTCBPtr, .. } => b is ReplyCap && b.ptr() == capTCBPtr,
        cap_t::ThreadCap { capTCBPtr } => b is ThreadCap && b.ptr() == capTCBPtr,
        cap_t::CNodeCap { capCNodePtr, capCNodeRadix, .. } => match b {
            cap_t::CNodeCap { capCNodePtr: p, capCNodeRadix: r, .. } => p == capCNodePtr && r
                == capCNodeRadix,
            _ => false,
        },
        cap_t::IrqHandlerCap { capIRQ } => b == a,
        cap_t::DomainCap => b is DomainCap,
        cap_t::FrameCap { capFBasePtr, capFSize, capFIsDevice, .. } => match b {
            cap_t::FrameCap { capFBasePtr: p, capFSize: s, capFIsDevice: d, .. } => p == capFBasePtr
                && s == capFSize && d == capFIsDevice,
            _ => false,
        },
        cap_t::PageTableCap { capPTBasePtr, .. } => b is PageTableCap && b.ptr() == capPTBasePtr,
        cap_t::ASIDControlCap => b is ASIDControlCap,
        cap_t::ASIDPoolCap { capASIDPool, .. } => b is ASIDPoolCap && b.ptr() == capASIDPool,
        cap_t::NullCap | cap_t::IrqControlCap | cap_t::ZombieCap { .. } => false,
    }
}

/// Whether a capability derived from `src` is one its parent may revoke: any
/// that is derived from an untyped capability, and one with another badge or
/// other mapping rights than its source. An endpoint or notification whose
/// source carries no badge at all counts as one with another badge.
pub open spec fn is_cap_revocable(derived: cap_t, src: cap_t) -> bool {
    if src is UntypedCap {
        true
    } else {
        match derived {
            cap_t::EndpointCap { capEPBadge, .. } => match src {
                cap_t::EndpointCap { capEPBadge: b, .. } => b != capEPBadge,
                _ => true,
            },
            cap_t::NotificationCap { capNtfnBadge, .. } => match src {
                cap_t::NotificationCap { capNtfnBadge: b, .. } => b != capNtfnBadge,
                _ => true,
            },
            cap_t::FrameCap { capFVMRights, .. } => match src {
                cap_t::FrameCap { capFVMRights: r, .. } => r != capFVMRights,
                _ => false,
            },
            _ => false,
        }
    }
}

/// The rights of a mapping that are left of `vm_rights` under a mask.
pub open spec fn mask_vm_rights(vm_rights: usize, mask: seL4_CapRights_t) -> usize {
    if vm_rights == VMReadOnly && mask.capAllowRead {
        VMReadOnly
    } else if vm_rights == VMReadWrite && mask.capAllowRead {
        if mask.capAllowWrite {
            VMReadWrite
        } else {
            VMReadOnly
        }
    } else {
        VMKernelOnly
    }
}

/// The capability with its rights intersected with `rights`. Only endpoints,
/// notifications, replies and frames carry rights; every other capability is
/// left as it is.
pub open spec fn mask_cap_rights(rights: seL4_CapRights_t, cap: cap_t) -> cap_t {
    match cap {
        cap_t::EndpointCap {
            capEPPtr,
            capEPBadge,
            capCanGrantReply,
            capCanGrant,
            capCanSend,
            capCanReceive,
        } => cap_t::EndpointCap {
            capEPPtr,
            capEPBadge,
            capCanGrantReply: capCanGrantReply && rights.capAllowGrantReply,
            capCanGrant: capCanGrant && rights.capAllowGrant,
            capCanSend: capCanSend && rights.capAllowWrite,
            capCanReceive: capCanReceive && rights.capAllowRead,
        },
        cap_t::NotificationCap {
            capNtfnPtr,
            capNtfnBadge,
            capNtfnCanReceive,
            capNtfnCanSend,
        } => cap_t::NotificationCap {
            capNtfnPtr,
            capNtfnBadge,
            capNtfnCanReceive: capNtfnCanReceive && rights.capAllowRead,
            capNtfnCanSend: capNtfnCanSend && rights.capAllowWrite,
        },
        cap_t::ReplyCap { capTCBPtr, capReplyMaster, capReplyCanGrant } => cap_t::ReplyCap {
            capTCBPtr,
            capReplyMaster,
            capReplyCanGrant: capReplyCanGrant && rights.capAllowGrant,
        },
        cap_t::FrameCap {
            capFBasePtr,
            capFSize,
            capFVMRights,
            capFMappedASID,
            capFMappedAddress,
            capFIsDevice,
        } => cap_t::FrameCap {
            capFBasePtr,
            capFSize,
            capFVMRights: mask_vm_rights(capFVMRights, rights),
            capFMappedASID,
            capFMappedAddress,
            capFIsDevice,
        },
        _ => cap,
    }
}

/// The guard size that a data word asks for: its six lowest bits.
pub open spec fn cnode_data_guard_size(data: u64) -> usize {
    (data % 64) as usize
}

/// The guard that a data word asks for: the bits above the lowest six, cut to
/// the guard size.
pub open spec fn cnode_data_guard(data: u64) -> u64 {
    (data / 64) & low_mask(cnode_data_guard_size(data))
}

/// The capability with `data` set as its badge or its guard, or the null
/// capability where that is refused: an endpoint or a notification takes a
/// badge only while it has none and `preserve` is off; a CNode takes a guard
/// only where guard and radix together resolve between one bit and a word.
pub open spec fn update_cap_data(preserve: bool, data: u64, cap: cap_t) -> cap_t {
    match cap {
        cap_t::EndpointCap { capEPPtr, capEPBadge, capCanGrantReply, capCanGrant, capCanSend, capCanReceive } => {
            if !preserve && capEPBadge == 0 {
                cap_t::EndpointCap {
                    capEPPtr,
                    capEPBadge: data,
                    capCanGrantReply,
                    capCanGrant,
                    capCanSend,
                    capCanReceive,
                }
            } else {
                cap_t::NullCap
            }
        },
        cap_t::NotificationCap { capNtfnPtr, capNtfnBadge, capNtfnCanReceive, capNtfnCanSend } => {
            if !preserve && capNtfnBadge == 0 {
                cap_t::NotificationCap { capNtfnPtr, capNtfnBadge: data, capNtfnCanReceive, capNtfnCanSend }
            } else {
                cap_t::NullCap
            }
        },
        cap_t::CNodeCap { capCNodePtr, capCNodeRadix, .. } => {
            let size = cnode_data_guard_size(data);
            if size + capCNodeRadix > wordBits || size + capCNodeRadix == 0 {
                cap_t::NullCap
            } else {
                cap_t::CNodeCap {
                    capCNodePtr,
                    capCNodeRadix,
                    capCNodeGuardSize: size,
                    capCNodeGuard: cnode_data_guard(data),
                }
            }
        },
        _ => cap,
    }
}

/// Whether the capability lets its holder cancel the sends queued on an
/// endpoint: an endpoint capability with every right.
pub open spec fn has_cancel_send_right(cap: cap_t) -> bool {
    match cap {
        cap_t::EndpointCap { capCanGrantReply, capCanGrant, capCanSend, capCanReceive, .. } => capCanSend
            && capCanReceive && capCanGrantReply && capCanGrant,
        _ => false,
    }
}

/// The byte address at which the region of a capability starts.
fn region_base(cap: &cap_t) -> (r: u128)
    ensures
        r == cap.region_base(),
{
    match cap {
        cap_t::CNodeCap { capCNodePtr, .. } => (*capCNodePtr as u128) * 32,
        cap_t::ZombieCap { capZombiePtr, .. } => (*capZombiePtr as u128) * 32,
        cap_t::ThreadCap { capTCBPtr } => (*capTCBPtr as u128) * 1024,
        _ => crate::cap::cap_get_capPtr(cap) as u128,
    }
}

/// Whether `cap_b` names the object that `cap_a` names.
pub fn sameObjectAs(cap_a: &cap_t, cap_b: &cap_t) -> (r: bool)
    requires
        cap_a.wf(),
        cap_b.wf(),
    ensures
        r == same_object_as(*cap_a, *cap_b),
{
    match cap_a {
        cap_t::UntypedCap { capBlockSize, .. } => {
            if cap_get_capIsPhysical(cap_b) {
                let a_base: u128 = region_base(cap_a);
                let b_base: u128 = region_base(cap_b);
                let a_top: u128 = a_base + MASK(*capBlockSize) as u128;
                let b_top: u128 = b_base + MASK(cap_get_capSizeBits(cap_b)) as u128;
                a_base <= b_base && b_top <= a_top
            } else {
                false
            }
        },
        cap_t::EndpointCap { capEPPtr, .. } => match cap_b {
            cap_t::EndpointCap { capEPPtr: p, .. } => *p == *capEPPtr,
            _ => false,
        },
        cap_t::NotificationCap { capNtfnPtr, .. } => match cap_b {
            cap_t::NotificationCap { capNtfnPtr: p, .. } => *p == *capNtfnPtr,
            _ => false,
        },
        cap_t::ReplyCap { capTCBPtr, .. } => match cap_b {
            cap_t::ReplyCap { capTCBPtr: p, .. } => *p == *capTCBPtr,
            _ => false,
        },
        cap_t::ThreadCap { capTCBPtr } => match cap_b {
            cap_t::ThreadCap { capTCBPtr: p } => *p == *capTCBPtr,
            _ => false,
        },
        cap_t::CNodeCap { capCNodePtr, capCNodeRadix, .. } => match cap_b {
            cap_t::CNodeCap { capCNodePtr: p, capCNodeRadix: r, .. } => *p == *capCNodePtr && *r
                == *capCNodeRadix,
            _ => false,
        },
        cap_t::IrqControlCap => false,
        cap_t::IrqHandlerCap { capIRQ } => match cap_b {
            cap_t::IrqHandlerCap { capIRQ: i } => *i == *capIRQ,
            _ => false,
        },
        cap_t::DomainCap => match cap_b {
            cap_t::DomainCap => true,
            _ => false,
        },
        cap_t::FrameCap { capFBasePtr, capFSize, capFIsDevice, .. } => match cap_b {
            cap_t::FrameCap { capFBasePtr: p, capFSize: s, capFIsDevice: d, .. } => *p == *capFBasePtr
                && *s == *capFSize && *d == *capFIsDevice,
            _ => false,
        },
        cap_t::PageTableCap { capPTBasePtr, .. } => match cap_b {
            cap_t::PageTableCap { capPTBasePtr: p, .. } => *p == *capPTBasePtr,
            _ => false,
        },
        cap_t::ASIDControlCap => match cap_b {
            cap_t::ASIDControlCap => true,
            _ => false,
        },
        cap_t::ASIDPoolCap { capASIDPool, .. } => match cap_b {
            cap_t::ASIDPoolCap { capASIDPool: p, .. } => *p == *capASIDPool,
            _ => false,
        },
        cap_t::NullCap => false,
        cap_t::ZombieCap { .. } => false,
    }
}

/// Whether a capability derived from `srcCap` is one its parent may revoke.
pub fn isCapRevocable(derivedCap: &cap_t, srcCap: &cap_t) -> (r: bool)
    ensures
        r == is_cap_revocable(*derivedCap, *srcCap),
{
    match srcCap {
        cap_t::UntypedCap { .. } => {
            return true;
        },
        _ => {},
    }
    match derivedCap {
        cap_t::EndpointCap { capEPBadge, .. } => match srcCap {
            cap_t::EndpointCap { capEPBadge: b, .. } => *b != *capEPBadge,
            _ => true,
        },
        cap_t::NotificationCap { capNtfnBadge, .. } => match srcCap {
            cap_t::NotificationCap { capNtfnBadge: b, .. } => *b != *capNtfnBadge,
            _ => true,
        },
        cap_t::FrameCap { capFVMRights, .. } => match srcCap {
            cap_t::FrameCap { capFVMRights: r, .. } => *r != *capFVMRights,
            _ => false,
        },
        _ => false,
    }
}

/// The rights of a mapping that are left under a mask.
pub fn maskVMRights(vm_rights: usize, cap_rights_mask: &seL4_CapRights_t) -> (r: usize)
    ensures
        r == mask_vm_rights(vm_rights, *cap_rights_mask),
{
    if vm_rights == VMReadOnly && cap_rights_mask.capAllowRead {
        VMReadOnly
    } else if vm_rights == VMReadWrite && cap_rights_mask.capAllowRead {
        if cap_rights_mask.capAllowWrite {
            VMReadWrite
        } else {
            VMReadOnly
        }
    } else {
        VMKernelOnly
    }
}

/// Intersects the rights of a capability with `rights`.
pub fn maskCapRights(rights: seL4_CapRights_t, cap: &cap_t) -> (r: cap_t)
    ensures
        r == mask_cap_rights(rights, *cap),
        r.tag() == cap.tag(),
        cap.wf() ==> r.wf(),
{
    match cap {
        cap_t::EndpointCap {
            capEPPtr,
            capEPBadge,
            capCanGrantReply,
            capCanGrant,
            capCanSend,
            capCanReceive,
        } => cap_t::EndpointCap {
            capEPPtr: *capEPPtr,
            capEPBadge: *capEPBadge,
            capCanGrantReply: *capCanGrantReply && rights.capAllowGrantReply,
            capCanGrant: *capCanGrant && rights.capAllowGrant,
            capCanSend: *capCanSend && rights.capAllowWrite,
            capCanReceive: *capCanReceive && rights.capAllowRead,
        },
        cap_t::NotificationCap {
            capNtfnPtr,
            capNtfnBadge,
            capNtfnCanReceive,
            capNtfnCanSend,
        } => cap_t::NotificationCap {
            capNtfnPtr: *capNtfnPtr,
            capNtfnBadge: *capNtfnBadge,
            capNtfnCanReceive: *capNtfnCanReceive && rights.capAllowRead,
            capNtfnCanSend: *capNtfnCanSend && rights.capAllowWrite,
        },
        cap_t::ReplyCap { capTCBPtr, capReplyMaster, capReplyCanGrant } => cap_t::ReplyCap {
            capTCBPtr: *capTCBPtr,
            capReplyMaster: *capReplyMaster,
            capReplyCanGrant: *capReplyCanGrant && rights.capAllowGrant,
        },
        cap_t::FrameCap {
            capFBasePtr,
            capFSize,
            capFVMRights,
            capFMappedASID,
            capFMappedAddress,
            capFIsDevice,
        } => cap_t::FrameCap {
            capFBasePtr: *capFBasePtr,
            capFSize: *capFSize,
            capFVMRights: maskVMRights(*capFVMRights, &rights),
            capFMappedASID: *capFMappedASID,
            capFMappedAddress: *capFMappedAddress,
            capFIsDevice: *capFIsDevice,
        },
        _ => *cap,
    }
}

/// Sets a badge or a guard from a data word; gives the null capability where
/// that is refused.
pub fn updateCapData(preserve: bool, newData: u64, cap: &cap_t) -> (r: cap_t)
    requires
        cap.wf(),
    ensures
        r == update_cap_data(preserve, newData, *cap),
        r.wf(),
        r is NullCap || r.tag() == cap.tag(),
{
    match cap {
        cap_t::EndpointCap { capEPPtr, capEPBadge, capCanGrantReply, capCanGrant, capCanSend, capCanReceive } => {
            if !preserve && *capEPBadge == 0 {
                cap_t::EndpointCap {
                    capEPPtr: *capEPPtr,
                    capEPBadge: newData,
                    capCanGrantReply: *capCanGrantReply,
                    capCanGrant: *capCanGrant,
                    capCanSend: *capCanSend,
                    capCanReceive: *capCanReceive,
                }
            } else {
                cap_t::NullCap
            }
        },
        cap_t::NotificationCap { capNtfnPtr, capNtfnBadge, capNtfnCanReceive, capNtfnCanSend } => {
            if !preserve && *capNtfnBadge == 0 {
                cap_t::NotificationCap {
                    capNtfnPtr: *capNtfnPtr,
                    capNtfnBadge: newData,
                    capNtfnCanReceive: *capNtfnCanReceive,
                    capNtfnCanSend: *capNtfnCanSend,
                }
            } else {
                cap_t::NullCap
            }
        },
        cap_t::CNodeCap { capCNodePtr, capCNodeRadix, .. } => {
            let guardSize: usize = (newData % 64) as usize;
            if guardSize + *capCNodeRadix > wordBits || guardSize + *capCNodeRadix == 0 {
                cap_t::NullCap
            } else {
                let guard: u64 = (newData / 64) & MASK(guardSize);
                cap_t::CNodeCap {
                    capCNodePtr: *capCNodePtr,
                    capCNodeRadix: *capCNodeRadix,
                    capCNodeGuardSize: guardSize,
                    capCNodeGuard: guard,
                }
            }
        },
        _ => *cap,
    }
}

/// Whether a capability lets its holder cancel the sends queued on an
/// endpoint.
pub fn hasCancelSendRight(cap: &cap_t) -> (r: bool)
    ensures
        r == has_cancel_send_right(*cap),
{
    match cap {
        cap_t::EndpointCap { capCanGrantReply, capCanGrant, capCanSend, capCanReceive, .. } => *capCanSend
            && *capCanReceive && *capCanGrantReply && *capCanGrant,
        _ => false,
    }
}

/// Masking by one set of rights and then by another is masking by the rights
/// the two sets share.
pub proof fn lemma_mask_cap_rights_compose(r1: seL4_CapRights_t, r2: seL4_CapRights_t, cap: cap_t)
    ensures
        mask_cap_rights(r1, mask_cap_rights(r2, cap)) == mask_cap_rights(r1.intersect(r2), cap),
{
}

/// Masking never adds a right: masking a second time by the same set changes
/// nothing.
pub proof fn lemma_mask_cap_rights_idempotent(r: seL4_CapRights_t, cap: cap_t)
    ensures
        mask_cap_rights(r, mask_cap_rights(r, cap)) == mask_cap_rights(r, cap),
{
}

/// Updating with `preserve` on is idempotent: doing it twice with one data
/// word gives what doing it once gives.
pub proof fn lemma_update_cap_data_idempotent(data: u64, cap: cap_t)
    ensures
        update_cap_data(true, data, update_cap_data(true, data, cap)) == update_cap_data(
            true,
            data,
            cap,
        ),
{
}

/// An update never leaves a CNode capability that resolves no bit or more
/// than a word of bits.
pub proof fn lemma_update_cap_data_keeps_shape(preserve: bool, data: u64, cap: cap_t)
    requires
        cap.wf(),
    ensures
        update_cap_data(preserve, data, cap).wf(),
{
}

} // verus!
