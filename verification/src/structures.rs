//! Plain data of the kernel: derivation links, slots, threads, queues,
//! regions of memory and the records in which errors travel.

use vstd::prelude::*;
use crate::cap::cap_t;

verus! {

/// How a kernel operation ended.
#[derive(Clone, Copy, Debug, PartialEq, Eq, Structural)]
pub enum exception_t {
    EXCEPTION_NONE,
    /// The kernel found its own state out of shape and stopped the operation.
    EXCEPTION_FAULT,
    EXCEPTION_LOOKUP_FAULT,
    EXCEPTION_SYSCALL_ERROR,
    EXCEPTION_PREEMTED,
}

/// The link of a slot in the derivation list, with the two flags that drive
/// revocation. A reference of 0 stands for no neighbour.
#[derive(Clone, Copy, Debug, PartialEq, Eq, Structural)]
pub struct mdb_node_t {
    pub mdbNext: usize,
    pub mdbRevocable: bool,
    pub mdbFirstBadged: bool,
    pub mdbPrev: usize,
}

impl mdb_node_t {
    /// The link of a slot that stands in no list.
    pub open spec fn null() -> mdb_node_t {
        mdb_node_t { mdbNext: 0, mdbRevocable: false, mdbFirstBadged: false, mdbPrev: 0 }
    }
}

impl Default for mdb_node_t {
    fn default() -> (r: Self)
        ensures
            r == mdb_node_t::null(),
    {
        mdb_node_t { mdbNext: 0, mdbRevocable: false, mdbFirstBadged: false, mdbPrev: 0 }
    }
}

impl Default for cap_t {
    fn default() -> (r: Self)
        ensures
            r == cap_t::NullCap,
    {
        cap_t::NullCap
    }
}

/// A capability slot: the capability and its link in the derivation list.
#[derive(Clone, Copy, Debug, PartialEq, Eq, Structural)]
pub struct cte_t {
    pub cap: cap_t,
    pub cteMDBNode: mdb_node_t,
}

impl cte_t {
    /// The empty slot.
    pub open spec fn empty() -> cte_t {
        cte_t { cap: cap_t::NullCap, cteMDBNode: mdb_node_t::null() }
    }
}

impl Default for cte_t {
    fn default() -> (r: Self)
        ensures
            r == cte_t::empty(),
    {
        cte_t { cap: cap_t::NullCap, cteMDBNode: mdb_node_t::default() }
    }
}

/// Why a capability address could not be resolved.
#[derive(Clone, Copy, Debug, PartialEq, Eq, Structural)]
pub enum lookup_fault_t {
    NoFault,
    InvalidRoot,
    MissingCapability { bitsLeft: usize },
    DepthMismatch { bitsFound: usize, bitsLeft: usize },
    GuardMismatch { guardFound: u64, bitsLeft: usize, bitsFound: usize },
}

/// The record in which the detail of a system-call error travels back to the
/// caller.
#[derive(Clone, Copy, Debug, PartialEq, Eq, Structural)]
pub struct syscall_error_t {
    pub invalidArgumentNumber: usize,
    pub invalidCapNumber: usize,
    pub rangeErrorMin: usize,
    pub rangeErrorMax: usize,
    pub memoryLeft: usize,
    pub failedLookupWasSource: usize,
    pub _type: usize,
}

/// The references of the extra capabilities of the current invocation; 0
/// where there is none.
#[derive(Clone, Copy, Debug)]
pub struct extra_caps_t {
    pub excaprefs: [usize; 3],
}

#[derive(Clone, Copy, Debug)]
pub struct seL4_Fault_t {
    pub words: [usize; 2],
}

#[derive(Clone, Copy, Debug, PartialEq, Eq, Structural)]
pub struct thread_state_t {
    pub blockingIPCBadge: u64,
    pub blockingObject: usize,
    pub tcbQueued: bool,
    pub tsType: usize,
}

#[derive(Clone, Copy, Debug)]
pub struct arch_tcb_t {
    pub registers: [usize; 35],
}

/// A thread control block. `tcbSchedNext` and `tcbSchedPrev` link the thread
/// into its ready queue, `tcbEPNext` and `tcbEPPrev` into the queue of the
/// endpoint it waits on; 0 stands for no neighbour.
#[derive(Clone, Copy, Debug)]
pub struct tcb_t {
    pub tcbArch: arch_tcb_t,
    pub tcbState: thread_state_t,
    pub tcbBoundNotification: usize,
    pub seL4_Fault_t: seL4_Fault_t,
    pub tcbLookupFailure: lookup_fault_t,
    pub domain: usize,
    pub tcbMCP: usize,
    pub tcbPriority: usize,
    pub tcbTimeSlice: usize,
    pub tcbFaultHandler: usize,
    pub tcbIPCBuffer: usize,
    pub tcbSchedNext: usize,
    pub tcbSchedPrev: usize,
    pub tcbEPNext: usize,
    pub tcbEPPrev: usize,
}

/// A thread control block as a mathematical value.
pub struct TcbView {
    pub registers: Seq<usize>,
    pub tcbState: thread_state_t,
    pub tcbBoundNotification: usize,
    pub fault: Seq<usize>,
    pub tcbLookupFailure: lookup_fault_t,
    pub domain: usize,
    pub tcbMCP: usize,
    pub tcbPriority: usize,
    pub tcbTimeSlice: usize,
    pub tcbFaultHandler: usize,
    pub tcbIPCBuffer: usize,
    pub tcbSchedNext: usize,
    pub tcbSchedPrev: usize,
    pub tcbEPNext: usize,
    pub tcbEPPrev: usize,
}

impl View for tcb_t {
    type V = TcbView;

    open spec fn view(&self) -> TcbView {
        TcbView {
            registers: self.tcbArch.registers@,
            tcbState: self.tcbState,
            tcbBoundNotification: self.tcbBoundNotification,
            fault: self.seL4_Fault_t.words@,
            tcbLookupFailure: self.tcbLookupFailure,
            domain: self.domain,
            tcbMCP: self.tcbMCP,
            tcbPriority: self.tcbPriority,
            tcbTimeSlice: self.tcbTimeSlice,
            tcbFaultHandler: self.tcbFaultHandler,
            tcbIPCBuffer: self.tcbIPCBuffer,
            tcbSchedNext: self.tcbSchedNext,
            tcbSchedPrev: self.tcbSchedPrev,
            tcbEPNext: self.tcbEPNext,
            tcbEPPrev: self.tcbEPPrev,
        }
    }
}

/// Head and tail of a queue of threads; both 0 when it is empty.
#[derive(Clone, Copy, Debug, PartialEq, Eq, Structural)]
pub struct tcb_queue_t {
    pub head: usize,
    pub tail: usize,
}

/// One entry of the domain schedule: a domain and for how long it runs.
#[derive(Clone, Copy, Debug, PartialEq, Eq, Structural)]
pub struct dschedule_t {
    pub domain: usize,
    pub length: usize,
}

pub struct deriveCap_ret {
    pub status: exception_t,
    pub cap: cap_t,
}

pub struct finaliseCap_ret {
    pub remainder: cap_t,
    pub cleanupInfo: cap_t,
}

impl Default for finaliseCap_ret {
    fn default() -> (r: Self)
        ensures
            r.remainder is NullCap,
            r.cleanupInfo is NullCap,
    {
        finaliseCap_ret { remainder: cap_t::NullCap, cleanupInfo: cap_t::NullCap }
    }
}

pub struct finaliseSlot_ret {
    pub status: exception_t,
    pub success: bool,
    pub cleanupInfo: cap_t,
}

impl Default for finaliseSlot_ret {
    fn default() -> (r: Self)
        ensures
            r.status == exception_t::EXCEPTION_NONE,
            r.success,
            r.cleanupInfo is NullCap,
    {
        finaliseSlot_ret {
            status: exception_t::EXCEPTION_NONE,
            success: true,
            cleanupInfo: cap_t::NullCap,
        }
    }
}

pub struct resolveAddressBits_ret_t {
    pub status: exception_t,
    pub slot: usize,
    pub bitsRemaining: usize,
}

pub struct lookupSlot_raw_ret_t {
    pub status: exception_t,
    pub slot: usize,
}

pub struct lookupSlot_ret_t {
    pub status: exception_t,
    pub slot: usize,
}

pub struct lookupCap_ret_t {
    pub status: exception_t,
    pub cap: cap_t,
}

pub struct lookupCapAndSlot_ret_t {
    pub status: exception_t,
    pub cap: cap_t,
    pub slot: usize,
}

pub struct satp_t {
    pub words: usize,
}

pub struct lookupPTSlot_ret_t {
    pub ptSlot: usize,
    pub ptBitsLeft: usize,
}

#[derive(Clone, Copy)]
pub struct asid_pool_t {
    pub array: [usize; 512],
}

pub struct findVSpaceForASID_ret {
    pub status: exception_t,
    pub vspace_root: usize,
}

pub struct seL4_BootInfoHeader {
    pub id: usize,
    pub len: usize,
}

/// A region of kernel memory, from `start` up to but without `end`.
#[derive(Clone, Copy, Debug, PartialEq, Eq, Structural)]
pub struct region_t {
    pub start: usize,
    pub end: usize,
}

/// A region of physical memory.
#[derive(Clone, Copy, Debug, PartialEq, Eq, Structural)]
pub struct p_region_t {
    pub start: usize,
    pub end: usize,
}

/// A region of a user address space.
#[derive(Clone, Copy, Debug, PartialEq, Eq, Structural)]
pub struct v_region_t {
    pub start: usize,
    pub end: usize,
}

pub type seL4_SlotPos = usize;

/// A run of slots of the root CNode, from `start` up to but without `end`.
#[derive(Clone, Copy, Debug, PartialEq, Eq, Structural)]
pub struct seL4_SlotRegion {
    pub start: seL4_SlotPos,
    pub end: seL4_SlotPos,
}

#[derive(Clone, Copy)]
pub struct seL4_IPCBuffer {
    pub tag: usize,
    pub msg: [usize; 120],
    pub userData: usize,
    pub caps_or_badges: [usize; 3],
    pub receiveCNode: usize,
    pub receiveIndex: usize,
    pub receiveDepth: usize,
}

#[derive(Clone, Copy)]
pub struct seL4_UntypedDesc {
    pub paddr: usize,
    pub sizeBits: u8,
    pub isDevice: u8,
    pub padding: [u8; 6],
}

/// What the kernel tells the first thread about the system it starts in.
#[derive(Clone, Copy)]
pub struct seL4_BootInfo {
    pub extraLen: usize,
    pub nodeID: usize,
    pub numNodes: usize,
    pub numIOPTLevels: usize,
    pub ipcBuffer: usize,
    pub empty: seL4_SlotRegion,
    pub sharedFrames: seL4_SlotRegion,
    pub userImageFrames: seL4_SlotRegion,
    pub userImagePaging: seL4_SlotRegion,
    pub ioSpaceCaps: seL4_SlotRegion,
    pub extraBIPages: seL4_SlotRegion,
    pub initThreadCNodeSizeBits: usize,
    pub initThreadDomain: usize,
    pub untyped: seL4_SlotRegion,
    pub untypedList: [seL4_UntypedDesc; 230],
}

/// What the kernel keeps track of while it boots: the memory that is
/// reserved, the memory that is free, the boot info and the next free slot of
/// the root CNode.
#[derive(Clone, Copy)]
pub struct ndks_boot_t {
    pub reserved: [p_region_t; 18],
    pub resv_count: usize,
    pub freemem: [region_t; 16],
    pub bi_frame: seL4_BootInfo,
    pub slot_pos_cur: seL4_SlotPos,
}

/// Where the objects of the first thread lie in kernel memory.
#[derive(Clone, Copy, Debug, PartialEq, Eq, Structural)]
pub struct rootserver_mem_t {
    pub cnode: usize,
    pub vspace: usize,
    pub asid_pool: usize,
    pub ipc_buf: usize,
    pub boot_info: usize,
    pub extra_bi: usize,
    pub tcb: usize,
    pub paging: region_t,
}

pub struct endpoint_t {
    pub words: [usize; 2],
}

#[derive(Clone, Copy, Debug)]
pub struct notification_t {
    pub words: [usize; 4],
}

#[derive(Clone, Copy, Debug, PartialEq, Eq, Structural)]
pub struct create_frames_of_region_ret_t {
    pub region: seL4_SlotRegion,
    pub success: bool,
}

} // verus!
