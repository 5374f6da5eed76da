//! Capabilities: a tagged value per kind of kernel object, and the algebra
//! over them (same object, revocable derivation, masking of rights, badge and
//! guard update).
//!
//! References to slot memory and to thread memory are indices into the
//! kernel's two arenas; every other pointer is an address the core never
//! follows.

use vstd::prelude::*;
use crate::config::{
    seL4_ASIDPoolBits, seL4_EndpointBits, seL4_NotificationBits, seL4_PageTableBits, seL4_SlotBits,
    seL4_TCBBits, wordBits, RISCVGigaPageBits, RISCVMegaPageBits, RISCVPageBits,
    RISCV_Giga_Page, RISCV_Mega_Page, ZombieType_ZombieTCB,
};
use crate::cap_rights::seL4_CapRights_t;

verus! {

/// The kind of a capability.
#[derive(Clone, Copy, Debug, PartialEq, Eq, Structural)]
pub enum cap_tag_t {
    cap_null_cap,
    cap_untyped_cap,
    cap_endpoint_cap,
    cap_notification_cap,
    cap_reply_cap,
    cap_cnode_cap,
    cap_thread_cap,
    cap_irq_control_cap,
    cap_irq_handler_cap,
    cap_zombie_cap,
    cap_domain_cap,
    cap_frame_cap,
    cap_page_table_cap,
    cap_asid_control_cap,
    cap_asid_pool_cap,
}

pub const cap_null_cap: usize = 0;
pub const cap_untyped_cap: usize = 2;
pub const cap_endpoint_cap: usize = 4;
pub const cap_notification_cap: usize = 6;
pub const cap_reply_cap: usize = 8;
pub const cap_cnode_cap: usize = 10;
pub const cap_thread_cap: usize = 12;
pub const cap_irq_control_cap: usize = 14;
pub const cap_irq_handler_cap: usize = 16;
pub const cap_zombie_cap: usize = 18;
pub const cap_domain_cap: usize = 20;
pub const cap_frame_cap: usize = 1;
pub const cap_page_table_cap: usize = 3;
pub const cap_asid_control_cap: usize = 11;
pub const cap_asid_pool_cap: usize = 13;

impl cap_tag_t {
    /// The number that stands for the kind in a packed capability word.
    /// Kinds of the architecture have odd numbers.
    pub open spec fn number(self) -> usize {
        match self {
            cap_tag_t::cap_null_cap => cap_null_cap,
            cap_tag_t::cap_untyped_cap => cap_untyped_cap,
            cap_tag_t::cap_endpoint_cap => cap_endpoint_cap,
            cap_tag_t::cap_notification_cap => cap_notification_cap,
            cap_tag_t::cap_reply_cap => cap_reply_cap,
            cap_tag_t::cap_cnode_cap => cap_cnode_cap,
            cap_tag_t::cap_thread_cap => cap_thread_cap,
            cap_tag_t::cap_irq_control_cap => cap_irq_control_cap,
            cap_tag_t::cap_irq_handler_cap => cap_irq_handler_cap,
            cap_tag_t::cap_zombie_cap => cap_zombie_cap,
            cap_tag_t::cap_domain_cap => cap_domain_cap,
            cap_tag_t::cap_frame_cap => cap_frame_cap,
            cap_tag_t::cap_page_table_cap => cap_page_table_cap,
            cap_tag_t::cap_asid_control_cap => cap_asid_control_cap,
            cap_tag_t::cap_asid_pool_cap => cap_asid_pool_cap,
        }
    }
}

/// A capability. `NullCap` marks an empty slot; `ZombieCap` stands for an
/// object whose deletion is under way.
#[derive(Clone, Copy, Debug, PartialEq, Eq, Structural)]
pub enum cap_t {
    NullCap,
    UntypedCap { capPtr: usize, capBlockSize: usize, capIsDevice: bool, capFreeIndex: usize },
    EndpointCap {
        capEPPtr: usize,
        capEPBadge: u64,
        capCanGrantReply: bool,
        capCanGrant: bool,
        capCanSend: bool,
        capCanReceive: bool,
    },
    NotificationCap { capNtfnPtr: usize, capNtfnBadge: u64, capNtfnCanReceive: bool, capNtfnCanSend: bool },
    ReplyCap { capTCBPtr: usize, capReplyMaster: bool, capReplyCanGrant: bool },
    /// `capCNodePtr` is the slot reference of the first of `2^capCNodeRadix` slots.
    CNodeCap { capCNodePtr: usize, capCNodeRadix: usize, capCNodeGuardSize: usize, capCNodeGuard: u64 },
    /// `capTCBPtr` is a thread reference.
    ThreadCap { capTCBPtr: usize },
    IrqControlCap,
    IrqHandlerCap { capIRQ: usize },
    /// `capZombiePtr` is the slot reference of the first slot of the object under
    /// deletion, `capZombieNumber` the number of its slots still to be emptied.
    ZombieCap { capZombiePtr: usize, capZombieType: usize, capZombieNumber: usize },
    DomainCap,
    FrameCap {
        capFBasePtr: usize,
        capFSize: usize,
        capFVMRights: usize,
        capFMappedASID: usize,
        capFMappedAddress: usize,
        capFIsDevice: bool,
    },
    PageTableCap { capPTBasePtr: usize, capPTIsMapped: bool, capPTMappedASID: usize, capPTMappedAddress: usize },
    ASIDControlCap,
    ASIDPoolCap { capASIDBase: usize, capASIDPool: usize },
}

impl cap_t {
    /// The kind of the capability.
    pub open spec fn tag(self) -> cap_tag_t {
        match self {
            cap_t::NullCap => cap_tag_t::cap_null_cap,
            cap_t::UntypedCap { .. } => cap_tag_t::cap_untyped_cap,
            cap_t::EndpointCap { .. } => cap_tag_t::cap_endpoint_cap,
            cap_t::NotificationCap { .. } => cap_tag_t::cap_notification_cap,
            cap_t::ReplyCap { .. } => cap_tag_t::cap_reply_cap,
            cap_t::CNodeCap { .. } => cap_tag_t::cap_cnode_cap,
            cap_t::ThreadCap { .. } => cap_tag_t::cap_thread_cap,
            cap_t::IrqControlCap => cap_tag_t::cap_irq_control_cap,
            cap_t::IrqHandlerCap { .. } => cap_tag_t::cap_irq_handler_cap,
            cap_t::ZombieCap { .. } => cap_tag_t::cap_zombie_cap,
            cap_t::DomainCap => cap_tag_t::cap_domain_cap,
            cap_t::FrameCap { .. } => cap_tag_t::cap_frame_cap,
            cap_t::PageTableCap { .. } => cap_tag_t::cap_page_table_cap,
            cap_t::ASIDControlCap => cap_tag_t::cap_asid_control_cap,
            cap_t::ASIDPoolCap { .. } => cap_tag_t::cap_asid_pool_cap,
        }
    }

    /// The reference or address the capability holds; 0 where its kind holds none.
    pub open spec fn ptr(self) -> usize {
        match self {
            cap_t::UntypedCap { capPtr, .. } => capPtr,
            cap_t::EndpointCap { capEPPtr, .. } => capEPPtr,
            cap_t::NotificationCap { capNtfnPtr, .. } => capNtfnPtr,
            cap_t::ReplyCap { capTCBPtr, .. } => capTCBPtr,
            cap_t::CNodeCap { capCNodePtr, .. } => capCNodePtr,
            cap_t::ThreadCap { capTCBPtr } => capTCBPtr,
            cap_t::ZombieCap { capZombiePtr, .. } => capZombiePtr,
            cap_t::FrameCap { capFBasePtr, .. } => capFBasePtr,
            cap_t::PageTableCap { capPTBasePtr, .. } => capPTBasePtr,
            cap_t::ASIDPoolCap { capASIDPool, .. } => capASIDPool,
            _ => 0,
        }
    }

    /// Whether the kind belongs to the architecture (frames, page tables, ASIDs).
    pub open spec fn is_arch(self) -> bool {
        self.tag().number() % 2 == 1
    }

    /// Whether the capability names a region of memory.
    pub open spec fn is_physical(self) -> bool {
        match self {
            cap_t::UntypedCap { .. } | cap_t::EndpointCap { .. } | cap_t::NotificationCap { .. }
            | cap_t::CNodeCap { .. } | cap_t::ThreadCap { .. } | cap_t::ZombieCap { .. }
            | cap_t::FrameCap { .. } | cap_t::PageTableCap { .. } | cap_t::ASIDPoolCap { .. } => true,
            _ => false,
        }
    }

    /// Binary logarithm of the size in bytes of the region the capability names.
    pub open spec fn size_bits(self) -> usize {
        match self {
            cap_t::UntypedCap { capBlockSize, .. } => capBlockSize,
            cap_t::EndpointCap { .. } => seL4_EndpointBits,
            cap_t::NotificationCap { .. } => seL4_NotificationBits,
            cap_t::CNodeCap { capCNodeRadix, .. } => (capCNodeRadix + seL4_SlotBits) as usize,
            cap_t::ThreadCap { .. } => seL4_TCBBits,
            cap_t::ZombieCap { capZombieType, .. } => if capZombieType == ZombieType_ZombieTCB {
                seL4_TCBBits
            } else {
                (capZombieType + seL4_SlotBits) as usize
            },
            cap_t::FrameCap { capFSize, .. } => page_bits_for_size(capFSize),
            cap_t::PageTableCap { .. } => seL4_PageTableBits,
            cap_t::ASIDPoolCap { .. } => seL4_ASIDPoolBits,
            _ => 0,
        }
    }

    /// The byte address at which the region starts. A slot reference counts
    /// slots and a thread reference counts thread control blocks.
    pub open spec fn region_base(self) -> int {
        match self {
            cap_t::CNodeCap { capCNodePtr, .. } => capCNodePtr * 32,
            cap_t::ZombieCap { capZombiePtr, .. } => capZombiePtr * 32,
            cap_t::ThreadCap { capTCBPtr } => capTCBPtr * 1024,
            _ => self.ptr() as int,
        }
    }

    /// The byte address at which the region ends (its last byte).
    pub open spec fn region_top(self) -> int {
        self.region_base() + low_mask(self.size_bits())
    }

    /// The shape every capability keeps: a CNode resolves at least one and at
    /// most a word of address bits, an untyped block fits the address space,
    /// and a zombie stands for a thread or for a CNode of some radix.
    pub open spec fn wf(self) -> bool {
        match self {
            cap_t::CNodeCap { capCNodeRadix, capCNodeGuardSize, .. } => 1 <= capCNodeRadix
                + capCNodeGuardSize <= wordBits,
            cap_t::ZombieCap { capZombieType, .. } => capZombieType <= ZombieType_ZombieTCB,
            cap_t::UntypedCap { capBlockSize, .. } => capBlockSize < wordBits,
            _ => true,
        }
    }
}

/// Binary logarithm of the size of a frame of the given size class.
pub open spec fn page_bits_for_size(size: usize) -> usize {
    if size == RISCV_Mega_Page {
        RISCVMegaPageBits
    } else if size == RISCV_Giga_Page {
        RISCVGigaPageBits
    } else {
        RISCVPageBits
    }
}

/// The word whose `n` lowest bits are set; every bit for `n` of 64 and more.
pub open spec fn low_mask(n: usize) -> u64 {
    if n >= 64 {
        0xffff_ffff_ffff_ffffu64
    } else {
        ((1u64 << n) - 1) as u64
    }
}

/// The word whose `n` lowest bits are set.
pub fn MASK(n: usize) -> (r: u64)
    ensures
        r == low_mask(n),
{
    if n >= 64 {
        0xffff_ffff_ffff_ffffu64
    } else {
        let b: u64 = 1u64 << n;
        assert(b >= 1) by (bit_vector)
            requires
                b == 1u64 << n,
                n < 64,
        ;
        b - 1
    }
}

/// The binary logarithm of the size of a frame of a size class.
pub fn pageBitsForSize(size: usize) -> (r: usize)
    ensures
        r == page_bits_for_size(size),
{
    if size == RISCV_Mega_Page {
        RISCVMegaPageBits
    } else if size == RISCV_Giga_Page {
        RISCVGigaPageBits
    } else {
        RISCVPageBits
    }
}

/// The number of the kind of a capability.
pub fn cap_get_capType(cap: &cap_t) -> (r: usize)
    ensures
        r == cap.tag().number(),
{
    match cap {
        cap_t::NullCap => cap_null_cap,
        cap_t::UntypedCap { .. } => cap_untyped_cap,
        cap_t::EndpointCap { .. } => cap_endpoint_cap,
        cap_t::NotificationCap { .. } => cap_notification_cap,
        cap_t::ReplyCap { .. } => cap_reply_cap,
        cap_t::CNodeCap { .. } => cap_cnode_cap,
        cap_t::ThreadCap { .. } => cap_thread_cap,
        cap_t::IrqControlCap => cap_irq_control_cap,
        cap_t::IrqHandlerCap { .. } => cap_irq_handler_cap,
        cap_t::ZombieCap { .. } => cap_zombie_cap,
        cap_t::DomainCap => cap_domain_cap,
        cap_t::FrameCap { .. } => cap_frame_cap,
        cap_t::PageTableCap { .. } => cap_page_table_cap,
        cap_t::ASIDControlCap => cap_asid_control_cap,
        cap_t::ASIDPoolCap { .. } => cap_asid_pool_cap,
    }
}

/// The reference or address a capability holds.
pub fn cap_get_capPtr(cap: &cap_t) -> (r: usize)
    ensures
        r == cap.ptr(),
{
    match cap {
        cap_t::UntypedCap { capPtr, .. } => *capPtr,
        cap_t::EndpointCap { capEPPtr, .. } => *capEPPtr,
        cap_t::NotificationCap { capNtfnPtr, .. } => *capNtfnPtr,
        cap_t::ReplyCap { capTCBPtr, .. } => *capTCBPtr,
        cap_t::CNodeCap { capCNodePtr, .. } => *capCNodePtr,
        cap_t::ThreadCap { capTCBPtr } => *capTCBPtr,
        cap_t::ZombieCap { capZombiePtr, .. } => *capZombiePtr,
        cap_t::FrameCap { capFBasePtr, .. } => *capFBasePtr,
        cap_t::PageTableCap { capPTBasePtr, .. } => *capPTBasePtr,
        cap_t::ASIDPoolCap { capASIDPool, .. } => *capASIDPool,
        _ => 0,
    }
}

/// Whether a capability is one of the architecture's kinds.
pub fn isArchCap(cap: &cap_t) -> (r: bool)
    ensures
        r == cap.is_arch(),
        r == (cap is FrameCap || cap is PageTableCap || cap is ASIDControlCap || cap is ASIDPoolCap),
{
    cap_get_capType(cap) % 2 == 1
}

/// Whether a capability is of the kind with the given number.
pub fn cap_capType_equals(cap: &cap_t, cap_type_tag: usize) -> (r: bool)
    ensures
        r == (cap.tag().number() == cap_type_tag),
{
    cap_get_capType(cap) == cap_type_tag
}

/// Whether a capability names a region of memory.
pub fn cap_get_capIsPhysical(cap: &cap_t) -> (r: bool)
    ensures
        r == cap.is_physical(),
{
    match cap {
        cap_t::UntypedCap { .. } | cap_t::EndpointCap { .. } | cap_t::NotificationCap { .. }
        | cap_t::CNodeCap { .. } | cap_t::ThreadCap { .. } | cap_t::ZombieCap { .. }
        | cap_t::FrameCap { .. } | cap_t::PageTableCap { .. } | cap_t::ASIDPoolCap { .. } => true,
        _ => false,
    }
}

/// The binary logarithm of the size of the region a capability names.
pub fn cap_get_capSizeBits(cap: &cap_t) -> (r: usize)
    requires
        cap.wf(),
    ensures
        r == cap.size_bits(),
{
    match cap {
        cap_t::UntypedCap { capBlockSize, .. } => *capBlockSize,
        cap_t::EndpointCap { .. } => seL4_EndpointBits,
        cap_t::NotificationCap { .. } => seL4_NotificationBits,
        cap_t::CNodeCap { capCNodeRadix, .. } => *capCNodeRadix + seL4_SlotBits,
        cap_t::ThreadCap { .. } => seL4_TCBBits,
        cap_t::ZombieCap { capZombieType, .. } => if *capZombieType == ZombieType_ZombieTCB {
            seL4_TCBBits
        } else {
            *capZombieType + seL4_SlotBits
        },
        cap_t::FrameCap { capFSize, .. } => pageBitsForSize(*capFSize),
        cap_t::PageTableCap { .. } => seL4_PageTableBits,
        cap_t::ASIDPoolCap { .. } => seL4_ASIDPoolBits,
        _ => 0,
    }
}

} // verus!
