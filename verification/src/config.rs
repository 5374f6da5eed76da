//! Build-time configuration of the kernel: word geometry, object sizes,
//! invocation labels, error codes and the well-known slot numbers.

use vstd::prelude::*;

verus! {

pub const wordRadix: usize = 6;
pub const wordBits: usize = 64;

pub const seL4_SlotBits: usize = 5;
pub const seL4_TCBBits: usize = 10;
pub const seL4_EndpointBits: usize = 4;
pub const seL4_NotificationBits: usize = 6;
pub const seL4_PageBits: usize = 12;
pub const seL4_PageTableBits: usize = 12;
pub const seL4_VSpaceBits: usize = 12;
pub const seL4_ASIDPoolBits: usize = 12;
pub const PAGE_BITS: usize = 12;
pub const BI_FRAME_SIZE_BITS: usize = 12;
pub const PT_INDEX_BITS: usize = 9;
pub const CONFIG_PT_LEVELS: usize = 3;
pub const RISCVPageBits: usize = 12;
pub const RISCVMegaPageBits: usize = 21;
pub const RISCVGigaPageBits: usize = 30;

/// Frame sizes as they are stored in a frame capability.
pub const RISCV_4K_Page: usize = 0;
pub const RISCV_Mega_Page: usize = 1;
pub const RISCV_Giga_Page: usize = 2;

/// Rights of a mapping as they are stored in a frame capability.
pub const VMKernelOnly: usize = 1;
pub const VMReadOnly: usize = 2;
pub const VMReadWrite: usize = 3;

pub const asidLowBits: usize = 9;
pub const asidInvalid: usize = 0;
pub const IT_ASID: usize = 1;

/// Offset between a kernel-virtual address and the physical address behind it.
pub const PPTR_BASE_OFFSET: u64 = 0xFFFF_FFC0_0000_0000;

pub const CONFIG_ROOT_CNODE_SIZE_BITS: usize = 13;
pub const CONFIG_MAX_NUM_NODES: usize = 1;
pub const CONFIG_NUM_DOMAINS: usize = 1;
pub const CONFIG_NUM_PRIORITIES: usize = 256;
pub const CONFIG_TIME_SLICE: usize = 5;
pub const CONFIG_MAX_NUM_WORK_UNITS_PER_PREEMPTION: usize = 100;
pub const CONFIG_MAX_NUM_BOOTINFO_UNTYPED_CAPS: usize = 230;
pub const CONFIG_KERNEL_STACK_BITS: usize = 12;
pub const L2_BITMAP_SIZE: usize = 4;
pub const NUM_READY_QUEUES: usize = 256;
pub const seL4_MaxPrio: usize = 255;
pub const MAX_NUM_FREEMEM_REG: usize = 16;
pub const MAX_NUM_RESV_REG: usize = 18;

pub const seL4_MsgMaxLength: usize = 120;
pub const seL4_MsgMaxExtraCaps: usize = 3;

/// A thread control block spans this many slot-sized cells of slot memory;
/// its own capability slots are the first `tcbCNodeEntries` of them.
pub const TCB_SLOT_SPAN: usize = 32;
pub const tcbCTable: usize = 0;
pub const tcbVTable: usize = 1;
pub const tcbReply: usize = 2;
pub const tcbCaller: usize = 3;
pub const tcbBuffer: usize = 4;
pub const tcbCNodeEntries: usize = 5;

pub const ThreadStateInactive: usize = 0;
pub const ThreadStateRunning: usize = 1;
pub const ThreadStateRestart: usize = 2;
pub const ThreadStateBlockedOnReceive: usize = 3;
pub const ThreadStateBlockedOnSend: usize = 4;
pub const ThreadStateBlockedOnReply: usize = 5;
pub const ThreadStateBlockedOnNotification: usize = 6;
pub const ThreadStateIdleThreadState: usize = 7;

pub const SchedulerAction_ResumeCurrentThread: usize = 0;
pub const SchedulerAction_ChooseNewThread: usize = 1;

pub const SSTATUS_SPIE: usize = 0x20;
pub const SSTATUS_SPP: usize = 0x100;

pub const seL4_NoError: usize = 0;
pub const seL4_InvalidArgument: usize = 1;
pub const seL4_InvalidCapability: usize = 2;
pub const seL4_IllegalOperation: usize = 3;
pub const seL4_RangeError: usize = 4;
pub const seL4_AlignmentError: usize = 5;
pub const seL4_FailedLookup: usize = 6;
pub const seL4_TruncatedMessage: usize = 7;
pub const seL4_DeleteFirst: usize = 8;
pub const seL4_RevokeFirst: usize = 9;
pub const seL4_NotEnoughMemory: usize = 10;

pub const CNodeRevoke: usize = 16;
pub const CNodeDelete: usize = 17;
pub const CNodeCancelBadgedSends: usize = 18;
pub const CNodeCopy: usize = 19;
pub const CNodeMint: usize = 20;
pub const CNodeMove: usize = 21;
pub const CNodeMutate: usize = 22;
pub const CNodeRotate: usize = 23;
pub const CNodeSaveCaller: usize = 24;

pub const seL4_CapNull: usize = 0;
pub const seL4_CapInitThreadTCB: usize = 1;
pub const seL4_CapInitThreadCNode: usize = 2;
pub const seL4_CapInitThreadVspace: usize = 3;
pub const seL4_CapIRQControl: usize = 4;
pub const seL4_CapASIDControl: usize = 5;
pub const seL4_CapInitThreadASIDPool: usize = 6;
pub const seL4_CapIOPortControl: usize = 7;
pub const seL4_CapIOSpace: usize = 8;
pub const seL4_CapBootInfoFrame: usize = 9;
pub const seL4_CapInitThreadIPCBuffer: usize = 10;
pub const seL4_CapDomain: usize = 11;
pub const seL4_NumInitialCaps: usize = 12;

pub const maxIRQ: usize = 54;
pub const irqInvalid: usize = 0;
pub const KERNEL_TIMER_IRQ: usize = 54;
pub const IRQInactive: usize = 0;
pub const IRQSignal: usize = 1;
pub const IRQTimer: usize = 2;

/// The value a zombie's type field holds when it stands for a thread;
/// any smaller value is the radix of the CNode it stands for.
pub const ZombieType_ZombieTCB: usize = 64;

} // verus!
