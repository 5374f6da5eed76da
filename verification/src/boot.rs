//! Boot: carving the objects of the first thread out of free memory and
//! filling the root CNode with the first capabilities.
//!
//! Addresses count bytes of kernel memory. The slot that lies at an address
//! has the address divided by the size of a slot as its reference, and the
//! thread control block at an address the address divided by the size of a
//! block.

use vstd::prelude::*;
use vstd::arithmetic::div_mod::{
    lemma_fundamental_div_mod, lemma_fundamental_div_mod_converse_div, lemma_mod_multiples_basic,
    lemma_mod_multiples_vanish,
};
use vstd::arithmetic::power2::{lemma2_to64, lemma2_to64_rest, lemma_pow2_adds, lemma_pow2_pos, pow2};
use vstd::bits::{lemma_u64_pow2_no_overflow, lemma_u64_shl_is_mul, lemma_u64_shr_is_div};
use crate::cap::{cap_t, low_mask};
use crate::config::{
    asidInvalid, asidLowBits, maxIRQ, seL4_CapASIDControl, seL4_CapBootInfoFrame, seL4_CapDomain,
    seL4_CapIRQControl, seL4_CapInitThreadASIDPool, seL4_CapInitThreadCNode,
    seL4_CapInitThreadIPCBuffer, seL4_CapInitThreadTCB, seL4_CapInitThreadVspace,
    seL4_MaxPrio, seL4_NumInitialCaps, tcbBuffer, tcbCTable, tcbReply, tcbVTable,
    IRQInactive, IRQTimer, ThreadStateRunning, CONFIG_MAX_NUM_NODES, CONFIG_NUM_DOMAINS,
    CONFIG_ROOT_CNODE_SIZE_BITS, CONFIG_TIME_SLICE, IT_ASID, KERNEL_TIMER_IRQ, PPTR_BASE_OFFSET,
    RISCV_4K_Page, RISCV_Mega_Page, VMReadWrite,
};
use crate::cspace::{cteInsert, derived_cap, deriveCap, insert_slots};
use crate::kernel::{
    cap_ok, getCSpace, mdb_ranked, request_t, slot_inv, slots_wf, tcb_cspace, tcb_ref_ok, Kernel,
    KernelView, SchedView,
};
use crate::structures::{exception_t, thread_state_t, TcbView};
use crate::thread::{
    capRegister, lemma_priority_keeps_order, lemma_sched_frame, setNextPC, setRegister,
    setThreadState, Arch_initContext, NextIP, SSTATUS,
};
use crate::structures::{
    create_frames_of_region_ret_t, cte_t, mdb_node_t, ndks_boot_t, region_t, rootserver_mem_t,
    seL4_SlotRegion, v_region_t,
};

verus! {

/// The state of the boot allocator: the bookkeeping of free memory, the
/// layout of the first thread's objects, and what is left of the region they
/// are allocated from.
pub struct boot_state_t {
    pub ndks_boot: ndks_boot_t,
    pub rootserver: rootserver_mem_t,
    pub rootserver_mem: region_t,
}

/// A number is a multiple of `2^bits`.
pub open spec fn aligned(x: int, bits: nat) -> bool {
    x % (pow2(bits) as int) == 0
}

/// What is aligned to a power of two is aligned to every smaller one.
pub proof fn lemma_aligned_less(x: int, a: nat, b: nat)
    requires
        b <= a,
        aligned(x, a),
    ensures
        aligned(x, b),
{
    lemma_pow2_adds(b, (a - b) as nat);
    lemma_pow2_pos(a);
    lemma_pow2_pos(b);
    lemma_pow2_pos((a - b) as nat);
    let pa = pow2(a) as int;
    let pb = pow2(b) as int;
    let pc = pow2((a - b) as nat) as int;
    lemma_fundamental_div_mod(x, pa);
    let q = x / pa;
    assert(x == pa * q);
    assert(x == (q * pc) * pb) by (nonlinear_arith)
        requires
            x == pa * q,
            pa == pb * pc,
    ;
    lemma_mod_multiples_basic(q * pc, pb);
}

/// Adding a multiple of a power of two keeps what is aligned to it aligned.
pub proof fn lemma_aligned_add(x: int, n: int, b: nat)
    requires
        aligned(x, b),
    ensures
        aligned(x + n * pow2(b), b),
{
    lemma_pow2_pos(b);
    lemma_mod_multiples_vanish(n, x, pow2(b) as int);
    assert(pow2(b) * n + x == x + n * pow2(b)) by (nonlinear_arith);
}

/// `2^n`.
pub fn BIT(n: usize) -> (r: u64)
    requires
        n < 64,
    ensures
        r == pow2(n as nat),
{
    proof {
        lemma_u64_pow2_no_overflow(n as nat);
        lemma_u64_shl_is_mul(1u64, n as u64);
    }
    1u64 << (n as u64)
}

/// The greatest multiple of `2^bits` that is not above `x`.
pub open spec fn round_down(x: int, bits: nat) -> int {
    x - x % (pow2(bits) as int)
}

/// Rounds down to a multiple of `2^bits`.
pub fn ROUND_DOWN(x: u64, bits: usize) -> (r: u64)
    requires
        bits < 64,
    ensures
        r == round_down(x as int, bits as nat),
        r <= x,
        aligned(r as int, bits as nat),
{
    proof {
        lemma_pow2_pos(bits as nat);
        lemma_u64_shr_is_div(x, bits as u64);
        lemma_fundamental_div_mod(x as int, pow2(bits as nat) as int);
        let xi = x as int;
        let p = pow2(bits as nat) as int;
        let q = xi / p;
        let m = xi % p;
        assert(0 <= q * p <= xi) by (nonlinear_arith)
            requires
                xi == p * q + m,
                0 <= m < p,
                p > 0,
                xi >= 0,
        ;
        lemma_u64_shl_is_mul((x >> (bits as u64)), bits as u64);
        lemma_mod_multiples_basic(q, pow2(bits as nat) as int);
    }
    (x >> (bits as u64)) << (bits as u64)
}

/// The least multiple of `2^bits` that is not below `x`.
pub open spec fn round_up(x: int, bits: nat) -> int {
    if x % (pow2(bits) as int) == 0 {
        x
    } else {
        round_down(x, bits) + pow2(bits)
    }
}

/// Rounds up to a multiple of `2^bits`.
pub fn ROUND_UP(x: u64, bits: usize) -> (r: u64)
    requires
        bits < 64,
        x + pow2(bits as nat) <= u64::MAX,
    ensures
        r == round_up(x as int, bits as nat),
        r >= x,
        aligned(r as int, bits as nat),
{
    let d: u64 = ROUND_DOWN(x, bits);
    if d == x {
        d
    } else {
        let b: u64 = BIT(bits);
        proof {
            lemma_pow2_pos(bits as nat);
            lemma_fundamental_div_mod(x as int, pow2(bits as nat) as int);
            lemma_aligned_add(d as int, 1, bits as nat);
        }
        d + b
    }
}

/// Whether a region holds no byte.
pub fn is_reg_empty(reg: &region_t) -> (r: bool)
    ensures
        r == (reg.start == reg.end),
{
    reg.start == reg.end
}

/// The number of page tables of one level that cover a region of a user
/// address space, where a table of that level spans `2^bits` bytes.
pub open spec fn n_paging_level(v: v_region_t, bits: nat) -> int {
    (round_up(v.end as int, bits) - round_down(v.start as int, bits)) / (pow2(bits) as int)
}

/// The number of page tables below the root that cover a region of a user
/// address space: those of the level of 1 GiB and those of the level of 2 MiB.
pub open spec fn n_paging(v: v_region_t) -> int {
    n_paging_level(v, 30) + n_paging_level(v, 21)
}

/// Whether a region of a user address space is one that page tables can be
/// counted for: it does not end before it starts and it ends below `2^48`.
pub open spec fn v_region_ok(v: v_region_t) -> bool {
    v.start <= v.end && v.end <= 0x1_0000_0000_0000
}

fn get_n_paging(v_reg: v_region_t, bits: usize) -> (r: usize)
    requires
        v_region_ok(v_reg),
        bits == 30 || bits == 21,
    ensures
        r == n_paging_level(v_reg, bits as nat),
        r <= 0x1000_0000,
{
    proof {
        lemma2_to64();
        lemma2_to64_rest();
    }
    let start: u64 = ROUND_DOWN(v_reg.start as u64, bits);
    let end: u64 = ROUND_UP(v_reg.end as u64, bits);
    let b: u64 = BIT(bits);
    proof {
        lemma_fundamental_div_mod(v_reg.end as int, pow2(bits as nat) as int);
        let span = (end - start) as int;
        let bi = b as int;
        assert(span / bi <= 0x1000_0000) by (nonlinear_arith)
            requires
                0 <= span <= 0x1_0000_4000_0000,
                bi >= 0x20_0000,
        ;
    }
    ((end - start) / b) as usize
}

/// Counts the page tables below the root that cover a region of a user
/// address space.
pub fn arch_get_n_paging(it_v_reg: v_region_t) -> (r: usize)
    requires
        v_region_ok(it_v_reg),
    ensures
        r == n_paging(it_v_reg),
        r <= 0x2000_0000,
{
    let a: usize = get_n_paging(it_v_reg, 30);
    let b: usize = get_n_paging(it_v_reg, 21);
    a + b
}

/// The size of the one region that holds all objects of the first thread:
/// the root CNode, the thread control block, the IPC buffer, the boot info,
/// the ASID pool, the extra boot info if there is any, the root of the
/// address space and `n` page tables.
pub open spec fn rootserver_size(n: int, extra_bi_size_bits: usize) -> int {
    0x4_0000 + 0x400 + 0x1000 + 0x1000 + 0x1000 + (if extra_bi_size_bits > 0 {
        pow2(extra_bi_size_bits as nat) as int
    } else {
        0
    }) + 0x1000 + n * 0x1000
}

/// The binary logarithm of the alignment of that region: that of its largest
/// object.
pub open spec fn rootserver_align_bits(extra_bi_size_bits: usize) -> usize {
    if extra_bi_size_bits > 18 {
        extra_bi_size_bits
    } else {
        18
    }
}

/// What boot asks of the size of the extra boot info: none, or a power of two
/// of at least a page that leaves the size of the region within a word.
pub open spec fn extra_bi_ok(extra_bi_size_bits: usize) -> bool {
    extra_bi_size_bits == 0 || 12 <= extra_bi_size_bits <= 40
}

/// Adds up the sizes of the objects of the first thread.
pub fn calculate_rootserver_size(it_v_reg: v_region_t, extra_bi_size_bits: usize) -> (r: usize)
    requires
        v_region_ok(it_v_reg),
        extra_bi_ok(extra_bi_size_bits),
        rootserver_size(n_paging(it_v_reg), extra_bi_size_bits) <= usize::MAX,
    ensures
        r == rootserver_size(n_paging(it_v_reg), extra_bi_size_bits),
{
    proof {
        lemma2_to64();
        lemma2_to64_rest();
        lemma_pow2_pos(extra_bi_size_bits as nat);
    }
    let n: usize = arch_get_n_paging(it_v_reg);
    let mut size: u64 = 0x4_0000;
    size = size + 0x400;
    size = size + 0x1000;
    size = size + 0x1000;
    size = size + 0x1000;
    if extra_bi_size_bits > 0 {
        let e: u64 = BIT(extra_bi_size_bits);
        proof {
            vstd::arithmetic::power2::lemma_pow2_strictly_increases(extra_bi_size_bits as nat, 41);
            assert(pow2(41) == 0x200_0000_0000) by {
                lemma_pow2_adds(40, 1);
            }
        }
        size = size + e;
    }
    size = size + 0x1000;
    (size + (n as u64) * 0x1000) as usize
}

/// The binary logarithm of the size of the largest object of the first
/// thread.
pub fn rootserver_max_size_bits(extra_bi_size_bits: usize) -> (r: usize)
    ensures
        r == rootserver_align_bits(extra_bi_size_bits),
{
    let cnode_size_bits: usize = 18;
    let maxx: usize = if cnode_size_bits > 12 {
        cnode_size_bits
    } else {
        12
    };
    if maxx > extra_bi_size_bits {
        maxx
    } else {
        extra_bi_size_bits
    }
}

/// The size of the extra boot info in bytes.
pub open spec fn extra_bi_bytes(extra_bi_size_bits: usize) -> int {
    if extra_bi_size_bits > 0 {
        pow2(extra_bi_size_bits as nat) as int
    } else {
        0
    }
}

/// Where the root CNode lies in a region that starts at `start`: behind the
/// extra boot info if that is the larger of the two.
pub open spec fn cnode_at(start: int, extra_bi_size_bits: usize) -> int {
    start + (if extra_bi_size_bits >= 18 {
        extra_bi_bytes(extra_bi_size_bits)
    } else {
        0
    })
}

/// Where the root of the address space lies: behind the root CNode, and
/// behind the extra boot info if that is smaller than the root CNode.
pub open spec fn vspace_at(start: int, extra_bi_size_bits: usize) -> int {
    cnode_at(start, extra_bi_size_bits) + 0x4_0000 + (if extra_bi_size_bits < 18 {
        extra_bi_bytes(extra_bi_size_bits)
    } else {
        0
    })
}

/// The layout of the objects of the first thread in a region that starts at
/// `start`, with `n` page tables: every object lies behind all that are larger
/// than it.
pub open spec fn rootserver_layout(start: int, n: int, extra_bi_size_bits: usize) -> rootserver_mem_t {
    let v = vspace_at(start, extra_bi_size_bits);
    rootserver_mem_t {
        cnode: cnode_at(start, extra_bi_size_bits) as usize,
        vspace: v as usize,
        asid_pool: (v + 0x1000) as usize,
        ipc_buf: (v + 0x2000) as usize,
        boot_info: (v + 0x3000) as usize,
        extra_bi: if extra_bi_size_bits >= 18 {
            start as usize
        } else if extra_bi_size_bits > 0 {
            (start + 0x4_0000) as usize
        } else {
            0
        },
        tcb: (v + 0x4000 + n * 0x1000) as usize,
        paging: region_t { start: (v + 0x4000) as usize, end: (v + 0x4000 + n * 0x1000) as usize },
    }
}

/// Takes `n` objects of `2^size_bits` bytes from the front of what is left of
/// the region of the first thread's objects.
pub fn alloc_rootserver_obj(b: &mut boot_state_t, size_bits: usize, n: usize) -> (r: usize)
    requires
        size_bits < 64,
        aligned(old(b).rootserver_mem.start as int, size_bits as nat),
        old(b).rootserver_mem.start + n * pow2(size_bits as nat) <= old(b).rootserver_mem.end,
    ensures
        r == old(b).rootserver_mem.start,
        final(b).rootserver_mem.start == old(b).rootserver_mem.start + n * pow2(size_bits as nat),
        final(b).rootserver_mem.end == old(b).rootserver_mem.end,
        final(b).rootserver == old(b).rootserver,
        final(b).ndks_boot == old(b).ndks_boot,
{
    let allocated: usize = b.rootserver_mem.start;
    let size: u64 = BIT(size_bits);
    proof {
        lemma_pow2_pos(size_bits as nat);
        let p = pow2(size_bits as nat) as int;
        let ni = n as int;
        assert(ni * p >= 0) by (nonlinear_arith)
            requires
                ni >= 0,
                p > 0,
        ;
    }
    b.rootserver_mem.start = (allocated as u64 + (n as u64) * size) as usize;
    allocated
}

/// Takes one page table from the memory set aside for the page tables of the
/// first thread.
pub fn it_alloc_paging(b: &mut boot_state_t) -> (r: usize)
    requires
        old(b).rootserver.paging.start + 0x1000 <= old(b).rootserver.paging.end,
    ensures
        r == old(b).rootserver.paging.start,
        final(b).rootserver == (rootserver_mem_t {
            paging: region_t { start: (r + 0x1000) as usize, end: old(b).rootserver.paging.end },
            ..old(b).rootserver
        }),
        final(b).rootserver_mem == old(b).rootserver_mem,
        final(b).ndks_boot == old(b).ndks_boot,
{
    let allocated: usize = b.rootserver.paging.start;
    b.rootserver.paging.start = allocated + 0x1000;
    allocated
}

fn maybe_alloc_extra_bi(b: &mut boot_state_t, min_size_bits: usize, extra_bi_size_bits: usize)
    requires
        extra_bi_size_bits < 64,
        extra_bi_size_bits >= min_size_bits && old(b).rootserver.extra_bi == 0 ==> aligned(
            old(b).rootserver_mem.start as int,
            extra_bi_size_bits as nat,
        ) && old(b).rootserver_mem.start + pow2(extra_bi_size_bits as nat) <= old(b).rootserver_mem.end,
    ensures
        extra_bi_size_bits >= min_size_bits && old(b).rootserver.extra_bi == 0 ==> final(b).rootserver
            == (rootserver_mem_t { extra_bi: old(b).rootserver_mem.start, ..old(b).rootserver })
            && final(b).rootserver_mem.start == old(b).rootserver_mem.start + pow2(
            extra_bi_size_bits as nat,
        ),
        !(extra_bi_size_bits >= min_size_bits && old(b).rootserver.extra_bi == 0) ==> final(b).rootserver
            == old(b).rootserver && final(b).rootserver_mem == old(b).rootserver_mem,
        final(b).rootserver_mem.end == old(b).rootserver_mem.end,
        final(b).ndks_boot == old(b).ndks_boot,
{
    if extra_bi_size_bits >= min_size_bits && b.rootserver.extra_bi == 0 {
        let p: usize = alloc_rootserver_obj(b, extra_bi_size_bits, 1);
        b.rootserver.extra_bi = p;
    }
}

/// Lays out the objects of the first thread in a region that starts at
/// `start`, the largest first.
pub fn create_rootserver_objects(b: &mut boot_state_t, start: usize, it_v_reg: v_region_t, extra_bi_size_bits: usize)
    requires
        start > 0,
        aligned(start as int, rootserver_align_bits(extra_bi_size_bits) as nat),
        v_region_ok(it_v_reg),
        extra_bi_ok(extra_bi_size_bits),
        start + rootserver_size(n_paging(it_v_reg), extra_bi_size_bits) <= usize::MAX,
        old(b).rootserver.extra_bi == 0,
    ensures
        final(b).rootserver == rootserver_layout(start as int, n_paging(it_v_reg), extra_bi_size_bits),
        final(b).rootserver_mem.start == start + rootserver_size(n_paging(it_v_reg), extra_bi_size_bits),
        final(b).rootserver_mem.end == final(b).rootserver_mem.start,
        final(b).ndks_boot == old(b).ndks_boot,
        aligned(final(b).rootserver.cnode as int, 18),
        aligned(final(b).rootserver.tcb as int, 10),
        start <= final(b).rootserver.cnode,
        final(b).rootserver.cnode + 0x4_0000 <= final(b).rootserver.tcb,
        final(b).rootserver.tcb + 0x400 == start + rootserver_size(n_paging(it_v_reg), extra_bi_size_bits),
        final(b).rootserver.extra_bi + extra_bi_bytes(extra_bi_size_bits) <= final(b).rootserver.tcb,
        final(b).rootserver.paging.start + n_paging(it_v_reg) * 0x1000 == final(b).rootserver.paging.end,
{
    proof {
        lemma2_to64();
        lemma2_to64_rest();
        lemma_pow2_pos(extra_bi_size_bits as nat);
    }
    let cnode_size_bits: usize = 18;
    let max: usize = rootserver_max_size_bits(extra_bi_size_bits);
    let size: usize = calculate_rootserver_size(it_v_reg, extra_bi_size_bits);
    b.rootserver_mem.start = start;
    b.rootserver_mem.end = start + size;
    let ghost e = extra_bi_size_bits as nat;
    maybe_alloc_extra_bi(b, max, extra_bi_size_bits);
    proof {
        if extra_bi_size_bits >= 18 {
            lemma_aligned_add(start as int, 1, e);
            lemma_aligned_less(b.rootserver_mem.start as int, e, 18);
        } else {
            lemma_aligned_less(start as int, 18, 18);
        }
    }
    let cnode: usize = alloc_rootserver_obj(b, cnode_size_bits, 1);
    b.rootserver.cnode = cnode;
    proof {
        lemma_aligned_add(cnode as int, 1, 18);
        if 12 <= extra_bi_size_bits < 18 {
            lemma_aligned_less(b.rootserver_mem.start as int, 18, e);
        }
    }
    maybe_alloc_extra_bi(b, 12, extra_bi_size_bits);
    proof {
        if 12 <= extra_bi_size_bits < 18 {
            lemma_aligned_add((cnode + 0x4_0000) as int, 1, e);
            lemma_aligned_less(b.rootserver_mem.start as int, e, 12);
        } else {
            lemma_aligned_less(b.rootserver_mem.start as int, 18, 12);
        }
    }
    let vspace: usize = alloc_rootserver_obj(b, 12, 1);
    b.rootserver.vspace = vspace;
    proof {
        lemma_aligned_add(vspace as int, 1, 12);
    }
    maybe_alloc_extra_bi(b, 12, extra_bi_size_bits);
    let asid_pool: usize = alloc_rootserver_obj(b, 12, 1);
    b.rootserver.asid_pool = asid_pool;
    proof {
        lemma_aligned_add(asid_pool as int, 1, 12);
    }
    let ipc_buf: usize = alloc_rootserver_obj(b, 12, 1);
    b.rootserver.ipc_buf = ipc_buf;
    proof {
        lemma_aligned_add(ipc_buf as int, 1, 12);
    }
    let boot_info: usize = alloc_rootserver_obj(b, 12, 1);
    b.rootserver.boot_info = boot_info;
    proof {
        lemma_aligned_add(boot_info as int, 1, 12);
    }
    let n: usize = arch_get_n_paging(it_v_reg);
    let paging: usize = alloc_rootserver_obj(b, 12, n);
    b.rootserver.paging.start = paging;
    b.rootserver.paging.end = paging + n * 0x1000;
    proof {
        lemma_aligned_add(paging as int, n as int, 12);
        lemma_aligned_less(b.rootserver_mem.start as int, 12, 10);
    }
    let tcb: usize = alloc_rootserver_obj(b, 10, 1);
    b.rootserver.tcb = tcb;
}

/// Whether a free region has room for the objects of the first thread at
/// the alignment they ask for.
pub open spec fn region_fits(reg: region_t, size: int, align_bits: nat) -> bool {
    size <= reg.end && round_down(reg.end - size, align_bits) >= reg.start
}

/// Where the objects of the first thread start in a free region that has room
/// for them: as high as the alignment allows.
pub open spec fn fit_start(reg: region_t, size: int, align_bits: nat) -> int {
    round_down(reg.end - size, align_bits)
}

/// The number of free regions up to the last that is not empty.
pub open spec fn regions_used(freemem: Seq<region_t>, n: int) -> int
    decreases n,
{
    if n <= 0 {
        0
    } else if freemem[n - 1].start != freemem[n - 1].end {
        n
    } else {
        regions_used(freemem, n - 1)
    }
}

/// The highest of the first `n` free regions that has room, if any has.
pub open spec fn region_chosen(freemem: Seq<region_t>, n: int, size: int, align_bits: nat) -> Option<int>
    decreases n,
{
    if n <= 0 {
        None
    } else if region_fits(freemem[n - 1], size, align_bits) {
        Some(n - 1)
    } else {
        region_chosen(freemem, n - 1, size, align_bits)
    }
}

/// The free regions after the objects of the first thread were carved out
/// of region `c`: what lies below the objects stays in place, what lies above
/// them goes one place up, and so does every region above `c`.
pub open spec fn regions_carved(freemem: Seq<region_t>, c: int, size: int, align_bits: nat) -> Seq<region_t> {
    let used = regions_used(freemem, freemem.len() as int);
    let start = fit_start(freemem[c], size, align_bits);
    Seq::new(
        freemem.len(),
        |k: int|
            if k == c {
                region_t { start: freemem[c].start, end: start as usize }
            } else if k == c + 1 {
                region_t { start: (start + size) as usize, end: freemem[c].end }
            } else if c + 1 < k <= used {
                freemem[k - 1]
            } else {
                freemem[k]
            },
    )
}

/// The free regions after no region had room: every region went one place
/// up.
pub open spec fn regions_shifted(freemem: Seq<region_t>) -> Seq<region_t> {
    let used = regions_used(freemem, freemem.len() as int);
    Seq::new(
        freemem.len(),
        |k: int|
            if used > 0 && k == 0 {
                region_t { start: 0, end: 0 }
            } else if 0 < k <= used {
                freemem[k - 1]
            } else {
                freemem[k]
            },
    )
}

/// What the carving asks of the free regions: the last of them is empty, and
/// every one starts above address 0 and ends where the objects of the first
/// thread still fit below the end of the address space.
pub open spec fn freemem_ok(freemem: Seq<region_t>, size: int) -> bool {
    &&& freemem.len() == 16
    &&& freemem[15].start == freemem[15].end
    &&& forall|i: int|
        0 <= i < 16 ==> ((#[trigger] freemem[i]).start > 0 || freemem[i].start == freemem[i].end)
            && freemem[i].start <= freemem[i].end && freemem[i].end + size <= usize::MAX
}

proof fn lemma_no_choice_below(freemem: Seq<region_t>, n: int, size: int, align_bits: nat)
    requires
        0 <= n <= freemem.len(),
        forall|k: int| 0 <= k < n ==> !region_fits(#[trigger] freemem[k], size, align_bits),
    ensures
        region_chosen(freemem, n, size, align_bits) is None,
    decreases n,
{
    if n > 0 {
        lemma_no_choice_below(freemem, n - 1, size, align_bits);
    }
}

proof fn lemma_choice_above(freemem: Seq<region_t>, n: int, m: int, size: int, align_bits: nat)
    requires
        0 <= n <= m <= freemem.len(),
        forall|k: int| n <= k < m ==> !region_fits(#[trigger] freemem[k], size, align_bits),
    ensures
        region_chosen(freemem, m, size, align_bits) == region_chosen(freemem, n, size, align_bits),
    decreases m - n,
{
    if m > n {
        lemma_choice_above(freemem, n, m - 1, size, align_bits);
    }
}

proof fn lemma_used_above(freemem: Seq<region_t>, n: int, m: int)
    requires
        0 <= n <= m <= freemem.len(),
        forall|k: int| n <= k < m ==> (#[trigger] freemem[k]).start == freemem[k].end,
    ensures
        regions_used(freemem, m) == regions_used(freemem, n),
    decreases m - n,
{
    if m > n {
        lemma_used_above(freemem, n, m - 1);
    }
}

/// Carves the objects of the first thread out of the highest free region
/// that has room for them, and tells whether there was one.
pub fn root_server_mem_init(b: &mut boot_state_t, it_v_reg: v_region_t, extra_bi_size_bits: usize) -> (r:
    bool)
    requires
        v_region_ok(it_v_reg),
        extra_bi_ok(extra_bi_size_bits),
        freemem_ok(
            old(b).ndks_boot.freemem@,
            rootserver_size(n_paging(it_v_reg), extra_bi_size_bits),
        ),
        old(b).rootserver.extra_bi == 0,
    ensures
        final(b).ndks_boot.bi_frame == old(b).ndks_boot.bi_frame,
        final(b).ndks_boot.slot_pos_cur == old(b).ndks_boot.slot_pos_cur,
        match region_chosen(
            old(b).ndks_boot.freemem@,
            16,
            rootserver_size(n_paging(it_v_reg), extra_bi_size_bits),
            rootserver_align_bits(extra_bi_size_bits) as nat,
        ) {
            Some(c) => {
                &&& r
                &&& final(b).rootserver == rootserver_layout(
                    fit_start(
                        old(b).ndks_boot.freemem@[c],
                        rootserver_size(n_paging(it_v_reg), extra_bi_size_bits),
                        rootserver_align_bits(extra_bi_size_bits) as nat,
                    ),
                    n_paging(it_v_reg),
                    extra_bi_size_bits,
                )
                &&& final(b).ndks_boot.freemem@ == regions_carved(
                    old(b).ndks_boot.freemem@,
                    c,
                    rootserver_size(n_paging(it_v_reg), extra_bi_size_bits),
                    rootserver_align_bits(extra_bi_size_bits) as nat,
                )
                &&& fit_start(
                    old(b).ndks_boot.freemem@[c],
                    rootserver_size(n_paging(it_v_reg), extra_bi_size_bits),
                    rootserver_align_bits(extra_bi_size_bits) as nat,
                ) >= old(b).ndks_boot.freemem@[c].start
                &&& 0 < old(b).ndks_boot.freemem@[c].start
                &&& fit_start(
                    old(b).ndks_boot.freemem@[c],
                    rootserver_size(n_paging(it_v_reg), extra_bi_size_bits),
                    rootserver_align_bits(extra_bi_size_bits) as nat,
                ) + rootserver_size(n_paging(it_v_reg), extra_bi_size_bits)
                    <= old(b).ndks_boot.freemem@[c].end
                &&& 0 <= c < 15
                &&& aligned(final(b).rootserver.cnode as int, 18)
                &&& aligned(final(b).rootserver.tcb as int, 10)
                &&& old(b).ndks_boot.freemem@[c].start <= final(b).rootserver.cnode
                &&& final(b).rootserver.cnode + 0x4_0000 <= final(b).rootserver.tcb
                &&& final(b).rootserver.tcb + 0x400 <= old(b).ndks_boot.freemem@[c].end
                &&& final(b).rootserver.extra_bi + extra_bi_bytes(extra_bi_size_bits)
                    <= final(b).rootserver.tcb
                &&& final(b).rootserver.paging.start + n_paging(it_v_reg) * 0x1000
                    == final(b).rootserver.paging.end
            },
            None => {
                &&& !r
                &&& final(b).rootserver == old(b).rootserver
                &&& final(b).ndks_boot.freemem@ == regions_shifted(old(b).ndks_boot.freemem@)
            },
        },
{
    let size: usize = calculate_rootserver_size(it_v_reg, extra_bi_size_bits);
    let max: usize = rootserver_max_size_bits(extra_bi_size_bits);
    let ghost old_mem = b.ndks_boot.freemem@;
    let ghost sz = size as int;
    let ghost ab = max as nat;
    proof {
        lemma2_to64();
        lemma_pow2_pos(extra_bi_size_bits as nat);
    }
    let mut n: usize = 16;
    while n > 0 && is_reg_empty(&b.ndks_boot.freemem[n - 1])
        invariant
            n <= 16,
            *b == *old(b),
            old_mem == old(b).ndks_boot.freemem@,
            old_mem.len() == 16,
            forall|k: int| n <= k < 16 ==> (#[trigger] old_mem[k]).start == old_mem[k].end,
        decreases n,
    {
        n = n - 1;
    }
    let ghost used = n as int;
    proof {
        lemma_used_above(old_mem, used, 16);
        assert(regions_used(old_mem, used) == used);
        assert forall|k: int| used <= k < 16 implies !region_fits(#[trigger] old_mem[k], sz, ab) by {
            lemma_pow2_pos(ab);
        }
        lemma_choice_above(old_mem, used, 16, sz, ab);
    }
    while n > 0
        invariant
            n <= used <= 15,
            used == regions_used(old_mem, 16),
            old_mem == old(b).ndks_boot.freemem@,
            freemem_ok(old_mem, sz),
            sz == size,
            sz == rootserver_size(n_paging(it_v_reg), extra_bi_size_bits),
            ab == max,
            ab == rootserver_align_bits(extra_bi_size_bits),
            ab < 64,
            sz > 0,
            v_region_ok(it_v_reg),
            extra_bi_ok(extra_bi_size_bits),
            b.rootserver == old(b).rootserver,
            b.rootserver.extra_bi == 0,
            b.ndks_boot.bi_frame == old(b).ndks_boot.bi_frame,
            b.ndks_boot.slot_pos_cur == old(b).ndks_boot.slot_pos_cur,
            b.ndks_boot.freemem@.len() == 16,
            region_chosen(old_mem, 16, sz, ab) == region_chosen(old_mem, n as int, sz, ab),
            forall|k: int| 0 <= k < n ==> b.ndks_boot.freemem@[k] == #[trigger] old_mem[k],
            n < used ==> b.ndks_boot.freemem@[n as int] == (region_t { start: 0, end: 0 }),
            n == used ==> b.ndks_boot.freemem@[n as int] == old_mem[n as int],
            forall|k: int| n < k <= used ==> b.ndks_boot.freemem@[k] == #[trigger] old_mem[k - 1],
            forall|k: int| used < k < 16 ==> b.ndks_boot.freemem@[k] == #[trigger] old_mem[k],
        decreases n,
    {
        let i: usize = n - 1;
        let empty_index: usize = i + 1;
        let reg: region_t = b.ndks_boot.freemem[i];
        proof {
            let x = old_mem[i as int];
        }
        if size <= reg.end {
            let unaligned_start: usize = reg.end - size;
            let start: usize = ROUND_DOWN(unaligned_start as u64, max) as usize;
            if start >= reg.start {
                proof {
                    assert(region_fits(old_mem[i as int], sz, ab));
                    assert(region_chosen(old_mem, n as int, sz, ab) == Some(i as int));
                    if start == 0 {
                        assert(reg.start == 0);
                        assert(reg.end == 0);
                    }
                }
                create_rootserver_objects(b, start, it_v_reg, extra_bi_size_bits);
                b.ndks_boot.freemem[empty_index] = region_t { start: start + size, end: reg.end };
                b.ndks_boot.freemem[i].end = start;
                proof {
                    assert(b.ndks_boot.freemem@ =~= regions_carved(old_mem, i as int, sz, ab));
                }
                return true;
            }
        }
        proof {
            assert(!region_fits(old_mem[i as int], sz, ab));
        }
        b.ndks_boot.freemem[empty_index] = reg;
        b.ndks_boot.freemem[i] = region_t { start: 0, end: 0 };
        n = n - 1;
    }
    proof {
        assert(b.ndks_boot.freemem@ =~= regions_shifted(old_mem));
    }
    false
}

/// The link of a capability that boot puts into a slot by hand: it stands in
/// no list, can be revoked and counts as the first with its badge.
pub open spec fn boot_link() -> mdb_node_t {
    mdb_node_t { mdbNext: 0, mdbRevocable: true, mdbFirstBadged: true, mdbPrev: 0 }
}

/// Whether a slot stands in no list.
pub open spec fn unlinked(c: cte_t) -> bool {
    c.cteMDBNode.mdbNext == 0 && c.cteMDBNode.mdbPrev == 0
}

/// Writing a capability into a slot that stands in no list keeps slot memory
/// in order.
pub proof fn lemma_write_slot_keeps_order(slots: Seq<cte_t>, ntcbs: nat, i: usize, cap: cap_t)
    requires
        slots_wf(slots, ntcbs),
        1 <= i < slots.len(),
        unlinked(slots[i as int]),
        cap_ok(cap, slots.len(), ntcbs),
        !(cap is NullCap),
    ensures
        slots_wf(slots.update(i as int, cte_t { cap, cteMDBNode: boot_link() }), ntcbs),
{
    let new = slots.update(i as int, cte_t { cap, cteMDBNode: boot_link() });
    assert(slot_inv(slots, ntcbs, i as int));
    assert forall|j: int| 0 <= j < new.len() implies #[trigger] slot_inv(new, ntcbs, j) by {
        assert(slot_inv(slots, ntcbs, j));
    }
    let rank = choose|rank: Seq<int>| mdb_ranked(slots, rank);
    assert forall|j: int| 0 <= j < new.len() && (#[trigger] new[j]).cteMDBNode.mdbNext != 0 implies rank[j]
        < rank[new[j].cteMDBNode.mdbNext as int] by {
        let x = slots[j];
    }
    assert(mdb_ranked(new, rank));
}

/// Puts a capability into a slot that stands in no list.
pub fn write_slot(k: &mut Kernel, slot: usize, cap: cap_t)
    requires
        old(k).wf(),
        old(k)@.slot_ok(slot),
        unlinked(old(k)@.slots[slot as int]),
        cap_ok(cap, old(k)@.slots.len(), old(k)@.tcbs.len()),
        !(cap is NullCap),
    ensures
        final(k)@ == (KernelView {
            slots: old(k)@.slots.update(slot as int, cte_t { cap, cteMDBNode: boot_link() }),
            ..old(k)@
        }),
        final(k).wf(),
{
    proof {
        lemma_write_slot_keeps_order(k@.slots, k@.tcbs.len(), slot, cap);
    }
    k.slots[slot].cap = cap;
    k.slots[slot].cteMDBNode = mdb_node_t {
        mdbNext: 0,
        mdbRevocable: true,
        mdbFirstBadged: true,
        mdbPrev: 0,
    };
    assert(k@.slots =~= old(k)@.slots.update(slot as int, cte_t { cap, cteMDBNode: boot_link() }));
}

/// The number of slots of the root CNode.
pub const ROOT_CNODE_SLOTS: usize = 8192;

/// The capability to the root CNode whose first slot has the reference
/// `ptr`: it resolves a whole word, the bits above its radix as a guard of 0.
pub open spec fn root_cnode_cap(ptr: usize) -> cap_t {
    cap_t::CNodeCap { capCNodePtr: ptr, capCNodeRadix: 13, capCNodeGuardSize: 51, capCNodeGuard: 0 }
}

/// Whether no capability of the kernel stands in a list yet, as it is while
/// boot fills the root CNode.
pub open spec fn all_unlinked(slots: Seq<cte_t>) -> bool {
    forall|i: int| 0 <= i < slots.len() ==> unlinked(#[trigger] slots[i])
}

/// Whether the kernel is ready for boot to fill the root CNode at `root`: it
/// is in order, no capability stands in a list, and the root CNode lies in
/// slot memory.
pub open spec fn boot_ready(k: KernelView, root: usize) -> bool {
    &&& k.wf()
    &&& all_unlinked(k.slots)
    &&& cap_ok(root_cnode_cap(root), k.slots.len(), k.tcbs.len())
}

/// Whether slot memory `new` is `old` but for slot `fixed` of the root CNode
/// at `root` and for its slots from `lo` up to but without `hi`.
pub open spec fn slots_kept(old: Seq<cte_t>, new: Seq<cte_t>, root: usize, fixed: int, lo: int, hi: int) -> bool {
    &&& new.len() == old.len()
    &&& forall|i: int|
        0 <= i < old.len() && i != root + fixed && !(root + lo <= i < root + hi) ==> #[trigger] new[i]
            == old[i]
}

/// Whether slot memory `new` is `old` but for the slots of the root CNode at
/// `root` from `lo` up to but without `hi`.
pub open spec fn range_kept(old: Seq<cte_t>, new: Seq<cte_t>, root: usize, lo: int, hi: int) -> bool {
    &&& new.len() == old.len()
    &&& forall|i: int| 0 <= i < old.len() && !(root + lo <= i < root + hi) ==> #[trigger] new[i] == old[i]
}

/// Slot `pos` of the root CNode at `root`.
pub open spec fn provided(slots: Seq<cte_t>, root: usize, pos: int) -> cte_t {
    slots[root + pos]
}

/// Whether the slots of the root CNode from `lo` up to but without `hi` are
/// in `new` what they are in `old`.
pub open spec fn provided_kept(old: Seq<cte_t>, new: Seq<cte_t>, root: usize, lo: int, hi: int) -> bool {
    forall|i: int| lo <= i < hi ==> #[trigger] provided(new, root, i) == provided(old, root, i)
}

proof fn lemma_root_mask()
    ensures
        low_mask(13) == 8191,
{
    assert(((1u64 << 13) - 1) as u64 == 8191) by (bit_vector);
}

/// Puts a capability into the next free slot of the root CNode, if there is
/// one left.
pub fn provide_cap(k: &mut Kernel, b: &mut boot_state_t, root_cnode_cap: &cap_t, cap: cap_t) -> (r: bool)
    requires
        boot_ready(old(k)@, root_cnode_cap.ptr()),
        *root_cnode_cap == self::root_cnode_cap(root_cnode_cap.ptr()),
        cap_ok(cap, old(k)@.slots.len(), old(k)@.tcbs.len()),
        !(cap is NullCap),
    ensures
        r == (old(b).ndks_boot.slot_pos_cur < ROOT_CNODE_SLOTS),
        r ==> final(k)@ == (KernelView {
            slots: old(k)@.slots.update(
                root_cnode_cap.ptr() + old(b).ndks_boot.slot_pos_cur,
                cte_t { cap, cteMDBNode: boot_link() },
            ),
            ..old(k)@
        }) && final(b).ndks_boot.slot_pos_cur == old(b).ndks_boot.slot_pos_cur + 1,
        !r ==> final(k)@ == old(k)@ && final(b).ndks_boot.slot_pos_cur == old(b).ndks_boot.slot_pos_cur,
        boot_ready(final(k)@, root_cnode_cap.ptr()),
        final(b).rootserver == old(b).rootserver,
        final(b).rootserver_mem == old(b).rootserver_mem,
        final(b).ndks_boot.bi_frame == old(b).ndks_boot.bi_frame,
        final(b).ndks_boot.freemem == old(b).ndks_boot.freemem,
{
    proof {
        lemma_root_mask();
    }
    if b.ndks_boot.slot_pos_cur >= ROOT_CNODE_SLOTS {
        return false;
    }
    let ptr: usize = crate::cap::cap_get_capPtr(root_cnode_cap);
    write_slot(k, ptr + b.ndks_boot.slot_pos_cur, cap);
    b.ndks_boot.slot_pos_cur = b.ndks_boot.slot_pos_cur + 1;
    true
}

/// The slot reference of the slot that lies at an address.
pub open spec fn slot_of(addr: usize) -> usize {
    addr / 32
}

/// The thread reference of the thread control block that lies at an address.
pub open spec fn tcb_of(addr: usize) -> usize {
    addr / 1024
}

/// Makes the capability to the root CNode and puts it into its own slot of
/// the root CNode.
pub fn create_root_cnode(k: &mut Kernel, b: &boot_state_t) -> (cap: cap_t)
    requires
        boot_ready(old(k)@, slot_of(b.rootserver.cnode)),
    ensures
        cap == root_cnode_cap(slot_of(b.rootserver.cnode)),
        final(k)@ == (KernelView {
            slots: old(k)@.slots.update(
                cap.ptr() + seL4_CapInitThreadCNode,
                cte_t { cap, cteMDBNode: boot_link() },
            ),
            ..old(k)@
        }),
        boot_ready(final(k)@, cap.ptr()),
{
    proof {
        lemma_root_mask();
    }
    let ptr: usize = b.rootserver.cnode / 32;
    let cap = cap_t::CNodeCap {
        capCNodePtr: ptr,
        capCNodeRadix: CONFIG_ROOT_CNODE_SIZE_BITS,
        capCNodeGuardSize: 64 - CONFIG_ROOT_CNODE_SIZE_BITS,
        capCNodeGuard: 0,
    };
    write_slot(k, ptr + seL4_CapInitThreadCNode, cap);
    cap
}

/// Whether the domain schedule is one the kernel can run: it has an entry,
/// and every entry names a domain that exists and runs it for some time.
pub open spec fn schedule_ok(schedule: Seq<crate::structures::dschedule_t>) -> bool {
    schedule.len() > 0 && forall|i: int|
        0 <= i < schedule.len() ==> (#[trigger] schedule[i]).domain < CONFIG_NUM_DOMAINS && schedule[i].length
            > 0
}

/// Puts the domain capability into its slot of the root CNode.
pub fn create_domain_cap(k: &mut Kernel, root_cnode_cap: &cap_t)
    requires
        boot_ready(old(k)@, root_cnode_cap.ptr()),
        *root_cnode_cap == self::root_cnode_cap(root_cnode_cap.ptr()),
        schedule_ok(old(k)@.ksDomSchedule),
    ensures
        final(k)@ == (KernelView {
            slots: old(k)@.slots.update(
                root_cnode_cap.ptr() + seL4_CapDomain,
                cte_t { cap: cap_t::DomainCap, cteMDBNode: boot_link() },
            ),
            ..old(k)@
        }),
        boot_ready(final(k)@, root_cnode_cap.ptr()),
{
    proof {
        lemma_root_mask();
    }
    let pos: usize = crate::cap::cap_get_capPtr(root_cnode_cap);
    write_slot(k, pos + seL4_CapDomain, cap_t::DomainCap);
}

/// The calls that switch every interrupt off and the timer interrupt on.
pub open spec fn irq_requests() -> Seq<request_t> {
    Seq::new(
        maxIRQ as nat,
        |j: int| request_t::SetIRQState { state: IRQInactive, irq: (j + 1) as usize },
    ).push(request_t::SetIRQState { state: IRQTimer, irq: KERNEL_TIMER_IRQ })
}

/// Switches every interrupt off and the timer interrupt on, and puts the
/// interrupt control capability into its slot of the root CNode.
pub fn init_irqs(k: &mut Kernel, root_cnode_cap: &cap_t)
    requires
        boot_ready(old(k)@, root_cnode_cap.ptr()),
        *root_cnode_cap == self::root_cnode_cap(root_cnode_cap.ptr()),
    ensures
        final(k)@ == (KernelView {
            slots: old(k)@.slots.update(
                root_cnode_cap.ptr() + seL4_CapIRQControl,
                cte_t { cap: cap_t::IrqControlCap, cteMDBNode: boot_link() },
            ),
            requests: old(k)@.requests + irq_requests(),
            ..old(k)@
        }),
        boot_ready(final(k)@, root_cnode_cap.ptr()),
{
    proof {
        lemma_root_mask();
    }
    let mut i: usize = 0;
    while i < maxIRQ + 1
        invariant
            i <= maxIRQ + 1,
            k@ == (KernelView {
                requests: old(k)@.requests + Seq::new(
                    (if i == 0 {
                        0
                    } else {
                        i - 1
                    }) as nat,
                    |j: int| request_t::SetIRQState { state: IRQInactive, irq: (j + 1) as usize },
                ),
                ..old(k)@
            }),
        decreases maxIRQ + 1 - i,
    {
        if i != 0 {
            k.requests.push(request_t::SetIRQState { state: IRQInactive, irq: i });
            proof {
                assert(k@.requests =~= old(k)@.requests + Seq::new(
                    i as nat,
                    |j: int| request_t::SetIRQState { state: IRQInactive, irq: (j + 1) as usize },
                ));
            }
        } else {
            assert(k@.requests =~= old(k)@.requests + Seq::new(
                0nat,
                |j: int| request_t::SetIRQState { state: IRQInactive, irq: (j + 1) as usize },
            ));
        }
        i = i + 1;
    }
    k.requests.push(request_t::SetIRQState { state: IRQTimer, irq: KERNEL_TIMER_IRQ });
    assert(k@.requests =~= old(k)@.requests + irq_requests());
    let ptr: usize = crate::cap::cap_get_capPtr(root_cnode_cap);
    write_slot(k, ptr + seL4_CapIRQControl, cap_t::IrqControlCap);
}

/// The least number of bits from `from` on that `size` bytes fit into.
pub open spec fn bits_for(size: int, from: nat) -> nat
    decreases 64 - from,
{
    if from >= 64 || size <= pow2(from) {
        from
    } else {
        bits_for(size, from + 1)
    }
}

/// The binary logarithm of the size of the region that holds the extra boot
/// info: nothing for no bytes, and at least a page for any.
pub open spec fn extra_bi_size_bits_of(extra_size: usize) -> usize {
    if extra_size == 0 {
        0
    } else {
        bits_for(extra_size as int, 12) as usize
    }
}

/// The binary logarithm of the size of the region that holds an extra boot
/// info of `extra_size` bytes.
pub fn calculate_extra_bi_size_bits(extra_size: usize) -> (r: usize)
    ensures
        r == extra_bi_size_bits_of(extra_size),
        r <= 64,
{
    if extra_size == 0 {
        return 0;
    }
    let mut bits: usize = 12;
    while bits < 64 && BIT(bits) < extra_size as u64
        invariant
            12 <= bits <= 64,
            bits_for(extra_size as int, bits as nat) == bits_for(extra_size as int, 12),
        decreases 64 - bits,
    {
        bits = bits + 1;
    }
    bits
}

/// The physical address behind an address of kernel memory.
pub open spec fn paddr_of(pptr: usize) -> usize {
    (pptr as u64).wrapping_sub(PPTR_BASE_OFFSET) as usize
}

/// Turns an address of kernel memory into the physical address behind it.
pub fn pptr_to_paddr(pptr: usize) -> (r: usize)
    ensures
        r == paddr_of(pptr),
{
    let p: u64 = (pptr as u64).wrapping_sub(PPTR_BASE_OFFSET);
    #[verifier::truncate]
    (p as usize)
}

/// The capability to a frame of the first thread that is mapped at `vptr`.
pub open spec fn mapped_frame_cap(pptr: usize, vptr: usize, asid: usize, use_large: bool) -> cap_t {
    cap_t::FrameCap {
        capFBasePtr: pptr,
        capFSize: if use_large {
            RISCV_Mega_Page
        } else {
            RISCV_4K_Page
        },
        capFVMRights: VMReadWrite,
        capFMappedASID: asid,
        capFMappedAddress: vptr,
        capFIsDevice: false,
    }
}

/// The capability to a frame that is mapped nowhere.
pub open spec fn unmapped_frame_cap(pptr: usize, use_large: bool) -> cap_t {
    cap_t::FrameCap {
        capFBasePtr: pptr,
        capFSize: if use_large {
            RISCV_Mega_Page
        } else {
            RISCV_4K_Page
        },
        capFVMRights: 0,
        capFMappedASID: asidInvalid,
        capFMappedAddress: 0,
        capFIsDevice: false,
    }
}

/// Makes the capability to a frame of the first thread and asks for the
/// frame to be mapped into the thread's address space.
pub fn rust_create_mapped_it_frame_cap(
    k: &mut Kernel,
    pd_cap: &cap_t,
    pptr: usize,
    vptr: usize,
    asid: usize,
    use_large: bool,
    _exec: bool,
) -> (cap: cap_t)
    ensures
        cap == mapped_frame_cap(pptr, vptr, asid, use_large),
        final(k)@ == old(k)@.asked(request_t::MapFrame { vspace: pd_cap.ptr(), frame: pptr, vptr }),
        old(k).wf() ==> final(k).wf(),
{
    let frame_size: usize = if use_large {
        RISCV_Mega_Page
    } else {
        RISCV_4K_Page
    };
    let cap = cap_t::FrameCap {
        capFBasePtr: pptr,
        capFSize: frame_size,
        capFVMRights: VMReadWrite,
        capFMappedASID: asid,
        capFMappedAddress: vptr,
        capFIsDevice: false,
    };
    k.requests.push(request_t::MapFrame { vspace: crate::cap::cap_get_capPtr(pd_cap), frame: pptr, vptr });
    cap
}

/// Makes the capability to a frame that is mapped nowhere.
pub fn rust_create_unmapped_it_frame_cap(pptr: usize, use_large: bool) -> (cap: cap_t)
    ensures
        cap == unmapped_frame_cap(pptr, use_large),
{
    let frame_size: usize = if use_large {
        RISCV_Mega_Page
    } else {
        RISCV_4K_Page
    };
    cap_t::FrameCap {
        capFBasePtr: pptr,
        capFSize: frame_size,
        capFVMRights: 0,
        capFMappedASID: asidInvalid,
        capFMappedAddress: 0,
        capFIsDevice: false,
    }
}

/// The capability to a page table of the first thread that is mapped at
/// `vptr`.
pub open spec fn it_pt_cap(pptr: usize, vptr: usize, asid: usize) -> cap_t {
    cap_t::PageTableCap {
        capPTBasePtr: pptr,
        capPTIsMapped: true,
        capPTMappedASID: asid,
        capPTMappedAddress: vptr,
    }
}

/// Makes the capability to a page table of the first thread and asks for
/// the table to be mapped into the thread's address space.
pub fn create_it_pt_cap(k: &mut Kernel, vspace_cap: &cap_t, pptr: usize, vptr: usize, asid: usize) -> (cap:
    cap_t)
    ensures
        cap == it_pt_cap(pptr, vptr, asid),
        final(k)@ == old(k)@.asked(request_t::MapPageTable { vspace: vspace_cap.ptr(), pt: pptr, vptr }),
        old(k).wf() ==> final(k).wf(),
{
    let cap = cap_t::PageTableCap {
        capPTBasePtr: pptr,
        capPTIsMapped: true,
        capPTMappedASID: asid,
        capPTMappedAddress: vptr,
    };
    k.requests.push(
        request_t::MapPageTable { vspace: crate::cap::cap_get_capPtr(vspace_cap), pt: pptr, vptr },
    );
    cap
}

/// The calls that clear the boot info and the extra boot info.
pub open spec fn bi_clear_requests(rootserver: rootserver_mem_t, extra_bi_size: usize) -> Seq<request_t> {
    if extra_bi_size != 0 {
        seq![
            request_t::ClearMemory { ptr: rootserver.boot_info, bits: 12 },
            request_t::ClearMemory {
                ptr: rootserver.extra_bi,
                bits: extra_bi_size_bits_of(extra_bi_size),
            },
        ]
    } else {
        seq![request_t::ClearMemory { ptr: rootserver.boot_info, bits: 12 }]
    }
}

/// Clears the boot info and fills in what is known of it from the start; the
/// first free slot of the root CNode is the one behind the well-known slots.
pub fn rust_populate_bi_frame(
    k: &mut Kernel,
    b: &mut boot_state_t,
    node_id: usize,
    num_nodes: usize,
    ipcbuf_vptr: usize,
    extra_bi_size: usize,
)
    requires
        old(k)@.ksDomScheduleIdx < old(k)@.ksDomSchedule.len(),
    ensures
        final(k)@ == (KernelView {
            requests: old(k)@.requests + bi_clear_requests(old(b).rootserver, extra_bi_size),
            ..old(k)@
        }),
        old(k).wf() ==> final(k).wf(),
        final(b).ndks_boot.bi_frame == (crate::structures::seL4_BootInfo {
            nodeID: node_id,
            numNodes: num_nodes,
            numIOPTLevels: 0,
            ipcBuffer: ipcbuf_vptr,
            initThreadCNodeSizeBits: CONFIG_ROOT_CNODE_SIZE_BITS,
            initThreadDomain: old(k)@.ksDomSchedule[old(k)@.ksDomScheduleIdx as int].domain,
            extraLen: extra_bi_size,
            ..old(b).ndks_boot.bi_frame
        }),
        final(b).ndks_boot.slot_pos_cur == seL4_NumInitialCaps,
        final(b).ndks_boot.freemem == old(b).ndks_boot.freemem,
        final(b).rootserver == old(b).rootserver,
        final(b).rootserver_mem == old(b).rootserver_mem,
{
    k.requests.push(request_t::ClearMemory { ptr: b.rootserver.boot_info, bits: 12 });
    if extra_bi_size != 0 {
        k.requests.push(
            request_t::ClearMemory {
                ptr: b.rootserver.extra_bi,
                bits: calculate_extra_bi_size_bits(extra_bi_size),
            },
        );
    }
    assert(k@.requests =~= old(k)@.requests + bi_clear_requests(old(b).rootserver, extra_bi_size));
    b.ndks_boot.bi_frame.nodeID = node_id;
    b.ndks_boot.bi_frame.numNodes = num_nodes;
    b.ndks_boot.bi_frame.numIOPTLevels = 0;
    b.ndks_boot.bi_frame.ipcBuffer = ipcbuf_vptr;
    b.ndks_boot.bi_frame.initThreadCNodeSizeBits = CONFIG_ROOT_CNODE_SIZE_BITS;
    b.ndks_boot.bi_frame.initThreadDomain = k.ksDomSchedule[k.ksDomScheduleIdx].domain;
    b.ndks_boot.bi_frame.extraLen = extra_bi_size;
    b.ndks_boot.slot_pos_cur = seL4_NumInitialCaps;
}

/// Maps the boot info into the first thread's address space and puts the
/// capability to its frame into its slot of the root CNode.
pub fn create_bi_frame_cap(k: &mut Kernel, b: &boot_state_t, root_cnode_cap: &cap_t, pd_cap: &cap_t, vptr: usize)
    requires
        boot_ready(old(k)@, root_cnode_cap.ptr()),
        *root_cnode_cap == self::root_cnode_cap(root_cnode_cap.ptr()),
    ensures
        final(k)@ == (KernelView {
            slots: old(k)@.slots.update(
                root_cnode_cap.ptr() + seL4_CapBootInfoFrame,
                cte_t {
                    cap: mapped_frame_cap(b.rootserver.boot_info, vptr, IT_ASID, false),
                    cteMDBNode: boot_link(),
                },
            ),
            ..old(k)@.asked(
                request_t::MapFrame { vspace: pd_cap.ptr(), frame: b.rootserver.boot_info, vptr },
            )
        }),
        boot_ready(final(k)@, root_cnode_cap.ptr()),
{
    proof {
        lemma_root_mask();
    }
    let cap = rust_create_mapped_it_frame_cap(k, pd_cap, b.rootserver.boot_info, vptr, IT_ASID, false, false);
    let ptr: usize = crate::cap::cap_get_capPtr(root_cnode_cap);
    write_slot(k, ptr + seL4_CapBootInfoFrame, cap);
}

/// Clears the IPC buffer of the first thread, maps it into the thread's
/// address space and puts the capability to its frame into its slot of the
/// root CNode.
pub fn create_ipcbuf_frame_cap(k: &mut Kernel, b: &boot_state_t, root_cnode_cap: &cap_t, pd_cap: &cap_t, vptr: usize) -> (cap:
    cap_t)
    requires
        boot_ready(old(k)@, root_cnode_cap.ptr()),
        *root_cnode_cap == self::root_cnode_cap(root_cnode_cap.ptr()),
    ensures
        cap == mapped_frame_cap(b.rootserver.ipc_buf, vptr, IT_ASID, false),
        final(k)@ == (KernelView {
            slots: old(k)@.slots.update(
                root_cnode_cap.ptr() + seL4_CapInitThreadIPCBuffer,
                cte_t { cap, cteMDBNode: boot_link() },
            ),
            ..old(k)@.asked(request_t::ClearMemory { ptr: b.rootserver.ipc_buf, bits: 12 }).asked(
                request_t::MapFrame { vspace: pd_cap.ptr(), frame: b.rootserver.ipc_buf, vptr },
            )
        }),
        boot_ready(final(k)@, root_cnode_cap.ptr()),
{
    proof {
        lemma_root_mask();
    }
    k.requests.push(request_t::ClearMemory { ptr: b.rootserver.ipc_buf, bits: 12 });
    let cap = rust_create_mapped_it_frame_cap(k, pd_cap, b.rootserver.ipc_buf, vptr, IT_ASID, false, false);
    let ptr: usize = crate::cap::cap_get_capPtr(root_cnode_cap);
    write_slot(k, ptr + seL4_CapInitThreadIPCBuffer, cap);
    cap
}

/// The number of frames of 4 KiB that cover a region.
pub open spec fn frames_in(reg: region_t) -> int {
    if reg.start < reg.end {
        (reg.end - reg.start + 4095) / 4096
    } else {
        0
    }
}

/// The address at which frame `j` of a region is mapped: its address less
/// the offset between kernel memory and the user address space, modulo a
/// word, as a physical address.
pub open spec fn region_frame_vptr(reg: region_t, j: int, pv_offset: usize) -> usize {
    paddr_of(((reg.start + j * 4096) as usize).wrapping_sub(pv_offset))
}

/// The capability to frame `j` of a region.
pub open spec fn region_frame_cap(reg: region_t, j: int, do_map: bool, pv_offset: usize) -> cap_t {
    if do_map {
        mapped_frame_cap(
            (reg.start + j * 4096) as usize,
            region_frame_vptr(reg, j, pv_offset),
            IT_ASID,
            false,
        )
    } else {
        unmapped_frame_cap((reg.start + j * 4096) as usize, false)
    }
}

/// Slot memory with the capabilities to the first `count` frames of a region
/// written by boot into the slots from `first` on.
#[verifier::opaque]
pub open spec fn with_frame_caps(
    slots: Seq<cte_t>,
    first: int,
    count: int,
    reg: region_t,
    do_map: bool,
    pv_offset: usize,
) -> Seq<cte_t> {
    Seq::new(
        slots.len(),
        |i: int|
            if first <= i < first + count {
                cte_t { cap: region_frame_cap(reg, i - first, do_map, pv_offset), cteMDBNode: boot_link() }
            } else {
                slots[i]
            },
    )
}

/// The calls that map the first `count` frames of a region.
pub open spec fn region_frame_requests(vspace: usize, reg: region_t, count: int, do_map: bool, pv_offset: usize) -> Seq<
    request_t,
> {
    if do_map {
        Seq::new(
            count as nat,
            |j: int|
                request_t::MapFrame {
                    vspace,
                    frame: (reg.start + j * 4096) as usize,
                    vptr: region_frame_vptr(reg, j, pv_offset),
                },
        )
    } else {
        Seq::empty()
    }
}

/// Whether the slots of the root CNode from `first` on hold the capabilities
/// to the frames of a region, one behind the other, as boot writes them.
pub open spec fn frames_provided(slots: Seq<cte_t>, root: usize, first: int, reg: region_t, do_map: bool, pv_offset: usize) -> bool {
    forall|i: int|
        first <= i < first + frames_in(reg) ==> #[trigger] provided(slots, root, i) == (cte_t {
            cap: region_frame_cap(reg, i - first, do_map, pv_offset),
            cteMDBNode: boot_link(),
        })
}

/// Makes a capability to every frame of a region and puts the capabilities
/// into the next free slots of the root CNode, mapping the frames into the
/// first thread's address space if asked to. Fails if the root CNode has too
/// few free slots.
pub fn rust_create_frames_of_region(
    k: &mut Kernel,
    b: &mut boot_state_t,
    root_cnode_cap: &cap_t,
    pd_cap: &cap_t,
    reg: region_t,
    do_map: bool,
    pv_offset: usize,
) -> (ret: create_frames_of_region_ret_t)
    requires
        boot_ready(old(k)@, root_cnode_cap.ptr()),
        *root_cnode_cap == self::root_cnode_cap(root_cnode_cap.ptr()),
        reg.end + 4096 <= usize::MAX,
    ensures
        ret.success == (frames_in(reg) == 0 || old(b).ndks_boot.slot_pos_cur + frames_in(reg)
            <= ROOT_CNODE_SLOTS),
        ret.success ==> {
            &&& ret.region == (seL4_SlotRegion {
                start: old(b).ndks_boot.slot_pos_cur,
                end: (old(b).ndks_boot.slot_pos_cur + frames_in(reg)) as usize,
            })
            &&& final(b).ndks_boot.slot_pos_cur == old(b).ndks_boot.slot_pos_cur + frames_in(reg)
            &&& final(k)@ == (KernelView {
                slots: with_frame_caps(
                    old(k)@.slots,
                    root_cnode_cap.ptr() + old(b).ndks_boot.slot_pos_cur,
                    frames_in(reg),
                    reg,
                    do_map,
                    pv_offset,
                ),
                requests: old(k)@.requests + region_frame_requests(
                    pd_cap.ptr(),
                    reg,
                    frames_in(reg),
                    do_map,
                    pv_offset,
                ),
                ..old(k)@
            })
        },
        ret.success ==> frames_provided(
            final(k)@.slots,
            root_cnode_cap.ptr(),
            old(b).ndks_boot.slot_pos_cur as int,
            reg,
            do_map,
            pv_offset,
        ),
        !ret.success ==> ret.region == (seL4_SlotRegion { start: 0, end: 0 }),
        range_kept(
            old(k)@.slots,
            final(k)@.slots,
            root_cnode_cap.ptr(),
            old(b).ndks_boot.slot_pos_cur as int,
            ROOT_CNODE_SLOTS as int,
        ),
        final(k)@.tcbs == old(k)@.tcbs,
        boot_ready(final(k)@, root_cnode_cap.ptr()),
        final(b).ndks_boot.slot_pos_cur >= old(b).ndks_boot.slot_pos_cur,
        final(b).rootserver == old(b).rootserver,
        final(b).rootserver_mem == old(b).rootserver_mem,
        final(b).ndks_boot.bi_frame == old(b).ndks_boot.bi_frame,
        final(b).ndks_boot.freemem == old(b).ndks_boot.freemem,
{
    proof {
        reveal(with_frame_caps);
    }
    let slot_pos_before: usize = b.ndks_boot.slot_pos_cur;
    let ghost root = root_cnode_cap.ptr();
    let ghost vspace = pd_cap.ptr();
    let mut f: usize = reg.start;
    proof {
        assert(k@.slots =~= with_frame_caps(old(k)@.slots, root + slot_pos_before, 0, reg, do_map, pv_offset));
        assert(k@.requests =~= old(k)@.requests + region_frame_requests(vspace, reg, 0, do_map, pv_offset));
    }
    while f < reg.end
        invariant
            slot_pos_before <= b.ndks_boot.slot_pos_cur,
            b.ndks_boot.slot_pos_cur - slot_pos_before <= frames_in(reg),
            f == reg.start + (b.ndks_boot.slot_pos_cur - slot_pos_before) * 4096,
            f < reg.end <==> b.ndks_boot.slot_pos_cur - slot_pos_before < frames_in(reg),
            reg.end + 4096 <= usize::MAX,
            root == root_cnode_cap.ptr(),
            vspace == pd_cap.ptr(),
            *root_cnode_cap == self::root_cnode_cap(root),
            slot_pos_before == old(b).ndks_boot.slot_pos_cur,
            b.ndks_boot.slot_pos_cur <= ROOT_CNODE_SLOTS || b.ndks_boot.slot_pos_cur == slot_pos_before,
            k@ == (KernelView {
                slots: with_frame_caps(
                    old(k)@.slots,
                    root + slot_pos_before,
                    b.ndks_boot.slot_pos_cur - slot_pos_before,
                    reg,
                    do_map,
                    pv_offset,
                ),
                requests: old(k)@.requests + region_frame_requests(
                    vspace,
                    reg,
                    b.ndks_boot.slot_pos_cur - slot_pos_before,
                    do_map,
                    pv_offset,
                ),
                ..old(k)@
            }),
            boot_ready(k@, root),
            b.rootserver == old(b).rootserver,
            b.rootserver_mem == old(b).rootserver_mem,
            b.ndks_boot.bi_frame == old(b).ndks_boot.bi_frame,
            b.ndks_boot.freemem == old(b).ndks_boot.freemem,
        decreases reg.end + 4096 - f,
    {
        let ghost j = b.ndks_boot.slot_pos_cur - slot_pos_before;
        let frame_cap: cap_t = if do_map {
            rust_create_mapped_it_frame_cap(
                k,
                pd_cap,
                f,
                pptr_to_paddr(f.wrapping_sub(pv_offset)),
                IT_ASID,
                false,
                true,
            )
        } else {
            rust_create_unmapped_it_frame_cap(f, false)
        };
        assert(frame_cap == region_frame_cap(reg, j, do_map, pv_offset));
        proof {
            lemma_root_mask();
            reveal(with_frame_caps);
        }
        if !provide_cap(k, b, root_cnode_cap, frame_cap) {
            return create_frames_of_region_ret_t {
                region: seL4_SlotRegion { start: 0, end: 0 },
                success: false,
            };
        }
        proof {
            assert(k@.slots =~= with_frame_caps(
                old(k)@.slots,
                root + slot_pos_before,
                j + 1,
                reg,
                do_map,
                pv_offset,
            ));
            assert(k@.requests =~= old(k)@.requests + region_frame_requests(
                vspace,
                reg,
                j + 1,
                do_map,
                pv_offset,
            ));
        }
        f = f + 4096;
    }
    proof {
        reveal(with_frame_caps);
        lemma_root_mask();
        assert forall|i: int|
            slot_pos_before <= i < slot_pos_before + frames_in(reg) implies #[trigger] provided(
            k@.slots,
            root_cnode_cap.ptr(),
            i,
        ) == (cte_t {
            cap: region_frame_cap(reg, i - slot_pos_before, do_map, pv_offset),
            cteMDBNode: boot_link(),
        }) by {}
    }
    create_frames_of_region_ret_t {
        region: seL4_SlotRegion { start: slot_pos_before, end: b.ndks_boot.slot_pos_cur },
        success: true,
    }
}

/// Table `j` of a level lies below the end of the region exactly if `j` is
/// below the number of tables of that level.
pub proof fn lemma_level_count(v: v_region_t, bits: nat, j: int)
    requires
        v.start <= v.end,
        0 <= j,
    ensures
        n_paging_level(v, bits) >= 0,
        round_down(v.start as int, bits) + j * pow2(bits) < v.end <==> j < n_paging_level(v, bits),
{
    lemma_pow2_pos(bits);
    let p = pow2(bits) as int;
    let s = v.start as int;
    let e = v.end as int;
    let rd = round_down(s, bits);
    let ru = round_up(e, bits);
    lemma_fundamental_div_mod(s, p);
    lemma_fundamental_div_mod(e, p);
    let a = s / p;
    let c = if e % p == 0 {
        e / p
    } else {
        e / p + 1
    };
    assert(rd == a * p) by (nonlinear_arith)
        requires
            rd == s - s % p,
            s == p * a + s % p,
    ;
    assert(ru == c * p) by (nonlinear_arith)
        requires
            e == p * (e / p) + e % p,
            ru == (if e % p == 0 {
                e
            } else {
                e - e % p + p
            }),
            c == (if e % p == 0 {
                e / p
            } else {
                e / p + 1
            }),
    ;
    assert(ru - rd == (c - a) * p + 0) by (nonlinear_arith)
        requires
            ru == c * p,
            rd == a * p,
    ;
    lemma_fundamental_div_mod_converse_div(ru - rd, p, c - a, 0);
    let n = n_paging_level(v, bits);
    assert(n == c - a);
    assert(ru >= e && ru - e < p && rd <= s);
    assert(n >= 0) by (nonlinear_arith)
        requires
            ru - rd == n * p,
            ru >= rd,
            p > 0,
    ;
    if j < n {
        assert(rd + j * p <= ru - p) by (nonlinear_arith)
            requires
                ru - rd == n * p,
                j <= n - 1,
                p > 0,
        ;
    } else {
        assert(rd + j * p >= ru) by (nonlinear_arith)
            requires
                ru - rd == n * p,
                j >= n,
                p > 0,
        ;
    }
}

/// The capability to table `j` of a level of the first thread's page tables:
/// the tables lie one behind the other from `paging` on and each maps `2^bits`
/// bytes from `vbase` on.
pub open spec fn level_pt_cap(paging: usize, vbase: int, bits: nat, j: int) -> cap_t {
    it_pt_cap((paging + j * 0x1000) as usize, (vbase + j * pow2(bits)) as usize, IT_ASID)
}

/// Slot memory with the capabilities to the first `count` tables of a level
/// written by boot into the slots from `first` on.
#[verifier::opaque]
pub open spec fn with_pt_caps(slots: Seq<cte_t>, first: int, count: int, paging: usize, vbase: int, bits: nat) -> Seq<
    cte_t,
> {
    Seq::new(
        slots.len(),
        |i: int|
            if first <= i < first + count {
                cte_t { cap: level_pt_cap(paging, vbase, bits, i - first), cteMDBNode: boot_link() }
            } else {
                slots[i]
            },
    )
}

/// The calls that map the first `count` tables of a level.
pub open spec fn level_pt_requests(vspace: usize, count: int, paging: usize, vbase: int, bits: nat) -> Seq<
    request_t,
> {
    Seq::new(
        count as nat,
        |j: int|
            request_t::MapPageTable {
                vspace,
                pt: (paging + j * 0x1000) as usize,
                vptr: (vbase + j * pow2(bits)) as usize,
            },
    )
}

/// Whether the slots of the root CNode from `first` on hold the capabilities
/// to `count` page tables of a level, one behind the other, as boot writes
/// them.
pub open spec fn tables_provided(slots: Seq<cte_t>, root: usize, first: int, count: int, paging: usize, vbase: int, bits: nat) -> bool {
    forall|i: int|
        first <= i < first + count ==> #[trigger] provided(slots, root, i) == (cte_t {
            cap: level_pt_cap(paging, vbase, bits, i - first),
            cteMDBNode: boot_link(),
        })
}

/// Makes the page tables of one level that cover the image of the first
/// thread, and puts the capabilities to them into the next free slots of the
/// root CNode. Fails if the root CNode has too few free slots.
fn create_it_pts_of_level(
    k: &mut Kernel,
    b: &mut boot_state_t,
    root_cnode_cap: &cap_t,
    lvl1pt_cap: &cap_t,
    it_v_reg: v_region_t,
    bits: usize,
) -> (r: bool)
    requires
        boot_ready(old(k)@, root_cnode_cap.ptr()),
        *root_cnode_cap == self::root_cnode_cap(root_cnode_cap.ptr()),
        v_region_ok(it_v_reg),
        bits == 30 || bits == 21,
        old(b).rootserver.paging.start + n_paging_level(it_v_reg, bits as nat) * 0x1000 <= old(
            b,
        ).rootserver.paging.end,
    ensures
        r == (n_paging_level(it_v_reg, bits as nat) == 0 || old(b).ndks_boot.slot_pos_cur
            + n_paging_level(it_v_reg, bits as nat) <= ROOT_CNODE_SLOTS),
        r ==> {
            &&& final(b).ndks_boot.slot_pos_cur == old(b).ndks_boot.slot_pos_cur + n_paging_level(
                it_v_reg,
                bits as nat,
            )
            &&& final(b).rootserver == (rootserver_mem_t {
                paging: region_t {
                    start: (old(b).rootserver.paging.start + n_paging_level(it_v_reg, bits as nat)
                        * 0x1000) as usize,
                    end: old(b).rootserver.paging.end,
                },
                ..old(b).rootserver
            })
            &&& final(k)@ == (KernelView {
                slots: with_pt_caps(
                    old(k)@.slots,
                    root_cnode_cap.ptr() + old(b).ndks_boot.slot_pos_cur,
                    n_paging_level(it_v_reg, bits as nat),
                    old(b).rootserver.paging.start,
                    round_down(it_v_reg.start as int, bits as nat),
                    bits as nat,
                ),
                requests: old(k)@.requests + level_pt_requests(
                    lvl1pt_cap.ptr(),
                    n_paging_level(it_v_reg, bits as nat),
                    old(b).rootserver.paging.start,
                    round_down(it_v_reg.start as int, bits as nat),
                    bits as nat,
                ),
                ..old(k)@
            })
        },
        r ==> tables_provided(
            final(k)@.slots,
            root_cnode_cap.ptr(),
            old(b).ndks_boot.slot_pos_cur as int,
            n_paging_level(it_v_reg, bits as nat),
            old(b).rootserver.paging.start,
            round_down(it_v_reg.start as int, bits as nat),
            bits as nat,
        ),
        range_kept(
            old(k)@.slots,
            final(k)@.slots,
            root_cnode_cap.ptr(),
            old(b).ndks_boot.slot_pos_cur as int,
            ROOT_CNODE_SLOTS as int,
        ),
        final(k)@.tcbs == old(k)@.tcbs,
        boot_ready(final(k)@, root_cnode_cap.ptr()),
        final(b).ndks_boot.slot_pos_cur >= old(b).ndks_boot.slot_pos_cur,
        layout_kept(old(b).rootserver, final(b).rootserver),
        final(b).rootserver_mem == old(b).rootserver_mem,
        final(b).ndks_boot.bi_frame == old(b).ndks_boot.bi_frame,
        final(b).ndks_boot.freemem == old(b).ndks_boot.freemem,
{
    proof {
        reveal(with_pt_caps);
    }
    proof {
        lemma2_to64();
        lemma2_to64_rest();
    }
    let slot_pos_before: usize = b.ndks_boot.slot_pos_cur;
    let ghost root = root_cnode_cap.ptr();
    let ghost vspace = lvl1pt_cap.ptr();
    let ghost n = n_paging_level(it_v_reg, bits as nat);
    let ghost paging = b.rootserver.paging.start;
    let ghost nb = bits as nat;
    let mut pt_vptr: u64 = ROUND_DOWN(it_v_reg.start as u64, bits);
    let ghost vbase = pt_vptr as int;
    let step: u64 = BIT(bits);
    proof {
        lemma_level_count(it_v_reg, nb, 0);
        assert(k@.slots =~= with_pt_caps(old(k)@.slots, root + slot_pos_before, 0, paging, vbase, nb));
        assert(k@.requests =~= old(k)@.requests + level_pt_requests(vspace, 0, paging, vbase, nb));
    }
    while pt_vptr < it_v_reg.end as u64
        invariant
            slot_pos_before <= b.ndks_boot.slot_pos_cur,
            b.ndks_boot.slot_pos_cur - slot_pos_before <= n,
            n == n_paging_level(it_v_reg, nb),
            nb == bits,
            bits == 30 || bits == 21,
            step == pow2(nb),
            v_region_ok(it_v_reg),
            vbase == round_down(it_v_reg.start as int, nb),
            pt_vptr == vbase + (b.ndks_boot.slot_pos_cur - slot_pos_before) * pow2(nb),
            pt_vptr < it_v_reg.end <==> b.ndks_boot.slot_pos_cur - slot_pos_before < n,
            root == root_cnode_cap.ptr(),
            vspace == lvl1pt_cap.ptr(),
            *root_cnode_cap == self::root_cnode_cap(root),
            slot_pos_before == old(b).ndks_boot.slot_pos_cur,
            paging == old(b).rootserver.paging.start,
            paging + n * 0x1000 <= old(b).rootserver.paging.end,
            b.ndks_boot.slot_pos_cur <= ROOT_CNODE_SLOTS || b.ndks_boot.slot_pos_cur == slot_pos_before,
            b.rootserver == (rootserver_mem_t {
                paging: region_t {
                    start: (paging + (b.ndks_boot.slot_pos_cur - slot_pos_before) * 0x1000) as usize,
                    end: old(b).rootserver.paging.end,
                },
                ..old(b).rootserver
            }),
            k@ == (KernelView {
                slots: with_pt_caps(
                    old(k)@.slots,
                    root + slot_pos_before,
                    b.ndks_boot.slot_pos_cur - slot_pos_before,
                    paging,
                    vbase,
                    nb,
                ),
                requests: old(k)@.requests + level_pt_requests(
                    vspace,
                    b.ndks_boot.slot_pos_cur - slot_pos_before,
                    paging,
                    vbase,
                    nb,
                ),
                ..old(k)@
            }),
            boot_ready(k@, root),
            b.rootserver_mem == old(b).rootserver_mem,
            b.ndks_boot.bi_frame == old(b).ndks_boot.bi_frame,
            b.ndks_boot.freemem == old(b).ndks_boot.freemem,
        decreases n - (b.ndks_boot.slot_pos_cur - slot_pos_before),
    {
        let ghost j = b.ndks_boot.slot_pos_cur - slot_pos_before;
        proof {
            reveal(with_pt_caps);
            lemma_root_mask();
            lemma2_to64();
            lemma2_to64_rest();
            lemma_level_count(it_v_reg, nb, j + 1);
            assert((j + 1) * pow2(nb) == j * pow2(nb) + pow2(nb)) by (nonlinear_arith);
        }
        let pptr: usize = it_alloc_paging(b);
        let cap = create_it_pt_cap(k, lvl1pt_cap, pptr, pt_vptr as usize, IT_ASID);
        assert(cap == level_pt_cap(paging, vbase, nb, j));
        if !provide_cap(k, b, root_cnode_cap, cap) {
            return false;
        }
        proof {
            assert(k@.slots =~= with_pt_caps(old(k)@.slots, root + slot_pos_before, j + 1, paging, vbase, nb));
            assert(k@.requests =~= old(k)@.requests + level_pt_requests(vspace, j + 1, paging, vbase, nb));
        }
        pt_vptr = pt_vptr + step;
    }
    proof {
        reveal(with_pt_caps);
        lemma_root_mask();
        assert forall|i: int| slot_pos_before <= i < slot_pos_before + n implies #[trigger] provided(
            k@.slots,
            root_cnode_cap.ptr(),
            i,
        ) == (cte_t {
            cap: level_pt_cap(paging, vbase, nb, i - slot_pos_before),
            cteMDBNode: boot_link(),
        }) by {}
    }
    true
}

/// Whether a layout is another but for what is left of the memory for page
/// tables.
pub open spec fn layout_kept(old: rootserver_mem_t, new: rootserver_mem_t) -> bool {
    new == (rootserver_mem_t { paging: new.paging, ..old })
}

/// The capability to the root of the first thread's address space.
pub open spec fn it_vspace_cap(rootserver: rootserver_mem_t) -> cap_t {
    it_pt_cap(rootserver.vspace, rootserver.vspace, IT_ASID)
}

/// Makes the address space of the first thread: the root page table goes into
/// its slot of the root CNode, and the page tables of both lower levels that
/// cover the thread's image go into the next free slots. Gives the capability
/// to the root, or the null capability if the root CNode has too few free
/// slots.
pub fn rust_create_it_address_space(k: &mut Kernel, b: &mut boot_state_t, root_cnode_cap: &cap_t, it_v_reg: v_region_t) -> (cap:
    cap_t)
    requires
        boot_ready(old(k)@, root_cnode_cap.ptr()),
        *root_cnode_cap == self::root_cnode_cap(root_cnode_cap.ptr()),
        v_region_ok(it_v_reg),
        seL4_NumInitialCaps <= old(b).ndks_boot.slot_pos_cur,
        old(b).ndks_boot.slot_pos_cur <= ROOT_CNODE_SLOTS,
        old(b).rootserver.paging.start + n_paging(it_v_reg) * 0x1000 <= old(b).rootserver.paging.end,
    ensures
        cap is NullCap <==> old(b).ndks_boot.slot_pos_cur + n_paging(it_v_reg) > ROOT_CNODE_SLOTS,
        !(cap is NullCap) ==> {
            &&& cap == it_vspace_cap(old(b).rootserver)
            &&& final(b).ndks_boot.slot_pos_cur == old(b).ndks_boot.slot_pos_cur + n_paging(it_v_reg)
            &&& final(b).ndks_boot.bi_frame == (crate::structures::seL4_BootInfo {
                userImagePaging: seL4_SlotRegion {
                    start: old(b).ndks_boot.slot_pos_cur,
                    end: (old(b).ndks_boot.slot_pos_cur + n_paging(it_v_reg)) as usize,
                },
                ..old(b).ndks_boot.bi_frame
            })
            &&& final(b).rootserver == (rootserver_mem_t {
                paging: region_t {
                    start: (old(b).rootserver.paging.start + n_paging(it_v_reg) * 0x1000) as usize,
                    end: old(b).rootserver.paging.end,
                },
                ..old(b).rootserver
            })
            &&& final(k)@ == (KernelView {
                slots: with_pt_caps(
                    with_pt_caps(
                        old(k)@.slots.update(
                            root_cnode_cap.ptr() + seL4_CapInitThreadVspace,
                            cte_t { cap, cteMDBNode: boot_link() },
                        ),
                        root_cnode_cap.ptr() + old(b).ndks_boot.slot_pos_cur,
                        n_paging_level(it_v_reg, 30),
                        old(b).rootserver.paging.start,
                        round_down(it_v_reg.start as int, 30),
                        30,
                    ),
                    root_cnode_cap.ptr() + old(b).ndks_boot.slot_pos_cur + n_paging_level(it_v_reg, 30),
                    n_paging_level(it_v_reg, 21),
                    (old(b).rootserver.paging.start + n_paging_level(it_v_reg, 30) * 0x1000) as usize,
                    round_down(it_v_reg.start as int, 21),
                    21,
                ),
                requests: old(k)@.requests.push(
                    request_t::CopyGlobalMappings { vspace: old(b).rootserver.vspace },
                ) + level_pt_requests(
                    old(b).rootserver.vspace,
                    n_paging_level(it_v_reg, 30),
                    old(b).rootserver.paging.start,
                    round_down(it_v_reg.start as int, 30),
                    30,
                ) + level_pt_requests(
                    old(b).rootserver.vspace,
                    n_paging_level(it_v_reg, 21),
                    (old(b).rootserver.paging.start + n_paging_level(it_v_reg, 30) * 0x1000) as usize,
                    round_down(it_v_reg.start as int, 21),
                    21,
                ),
                ..old(k)@
            })
        },
        !(cap is NullCap) ==> final(k)@.slots[root_cnode_cap.ptr() + seL4_CapInitThreadVspace] == (cte_t {
            cap,
            cteMDBNode: boot_link(),
        }),
        !(cap is NullCap) ==> tables_provided(
            final(k)@.slots,
            root_cnode_cap.ptr(),
            old(b).ndks_boot.slot_pos_cur as int,
            n_paging_level(it_v_reg, 30),
            old(b).rootserver.paging.start,
            round_down(it_v_reg.start as int, 30),
            30,
        ) && tables_provided(
            final(k)@.slots,
            root_cnode_cap.ptr(),
            old(b).ndks_boot.slot_pos_cur + n_paging_level(it_v_reg, 30),
            n_paging_level(it_v_reg, 21),
            (old(b).rootserver.paging.start + n_paging_level(it_v_reg, 30) * 0x1000) as usize,
            round_down(it_v_reg.start as int, 21),
            21,
        ),
        slots_kept(
            old(k)@.slots,
            final(k)@.slots,
            root_cnode_cap.ptr(),
            seL4_CapInitThreadVspace as int,
            old(b).ndks_boot.slot_pos_cur as int,
            ROOT_CNODE_SLOTS as int,
        ),
        final(k)@.tcbs == old(k)@.tcbs,
        boot_ready(final(k)@, root_cnode_cap.ptr()),
        final(b).ndks_boot.slot_pos_cur >= old(b).ndks_boot.slot_pos_cur,
        layout_kept(old(b).rootserver, final(b).rootserver),
        final(b).rootserver_mem == old(b).rootserver_mem,
        final(b).ndks_boot.freemem == old(b).ndks_boot.freemem,
{
    proof {
        reveal(with_pt_caps);
    }
    proof {
        lemma_root_mask();
        lemma_level_count(it_v_reg, 30, 0);
        lemma_level_count(it_v_reg, 21, 0);
    }
    k.requests.push(request_t::CopyGlobalMappings { vspace: b.rootserver.vspace });
    let lvl1pt_cap = cap_t::PageTableCap {
        capPTBasePtr: b.rootserver.vspace,
        capPTIsMapped: true,
        capPTMappedASID: IT_ASID,
        capPTMappedAddress: b.rootserver.vspace,
    };
    let ptr: usize = crate::cap::cap_get_capPtr(root_cnode_cap);
    let slot_pos_before: usize = b.ndks_boot.slot_pos_cur;
    write_slot(k, ptr + seL4_CapInitThreadVspace, lvl1pt_cap);
    let ghost k1 = k@;
    if !create_it_pts_of_level(k, b, root_cnode_cap, &lvl1pt_cap, it_v_reg, 30) {
        proof {
            assert forall|i: int|
                0 <= i < old(k)@.slots.len() && i != ptr + seL4_CapInitThreadVspace && !(ptr
                    + slot_pos_before <= i < ptr + ROOT_CNODE_SLOTS) implies #[trigger] k@.slots[i] == old(
                k,
            )@.slots[i] by {
                assert(k@.slots[i] == k1.slots[i]);
                assert(k1.slots[i] == old(k)@.slots[i]);
            }
        }
        return cap_t::NullCap;
    }
    let ghost k2 = k@;
    if !create_it_pts_of_level(k, b, root_cnode_cap, &lvl1pt_cap, it_v_reg, 21) {
        proof {
            assert forall|i: int|
                0 <= i < old(k)@.slots.len() && i != ptr + seL4_CapInitThreadVspace && !(ptr
                    + slot_pos_before <= i < ptr + ROOT_CNODE_SLOTS) implies #[trigger] k@.slots[i] == old(
                k,
            )@.slots[i] by {
                assert(k@.slots[i] == k2.slots[i]);
                assert(k2.slots[i] == k1.slots[i]);
            }
        }
        return cap_t::NullCap;
    }
    let slot_pos_after: usize = b.ndks_boot.slot_pos_cur;
    b.ndks_boot.bi_frame.userImagePaging = seL4_SlotRegion { start: slot_pos_before, end: slot_pos_after };
    proof {
        assert forall|i: int|
            0 <= i < old(k)@.slots.len() && i != ptr + seL4_CapInitThreadVspace && !(ptr + slot_pos_before
                <= i < ptr + ROOT_CNODE_SLOTS) implies #[trigger] k@.slots[i] == old(k)@.slots[i] by {
            assert(k@.slots[i] == k2.slots[i]);
            assert(k2.slots[i] == k1.slots[i]);
        }
    }
    lvl1pt_cap
}

/// Maps the boot info and the extra boot info into the first thread's address
/// space and puts the capabilities to their frames into the root CNode. Fails
/// if the root CNode has too few free slots.
pub fn init_bi_frame_cap(
    k: &mut Kernel,
    b: &mut boot_state_t,
    root_cnode_cap: &cap_t,
    it_pd_cap: &cap_t,
    bi_frame_vptr: usize,
    extra_bi_size: usize,
    extra_bi_frame_vptr: usize,
) -> (r: bool)
    requires
        boot_ready(old(k)@, root_cnode_cap.ptr()),
        *root_cnode_cap == self::root_cnode_cap(root_cnode_cap.ptr()),
        seL4_NumInitialCaps <= old(b).ndks_boot.slot_pos_cur,
        old(b).ndks_boot.slot_pos_cur <= ROOT_CNODE_SLOTS,
        old(b).rootserver.extra_bi + extra_bi_size + 4096 <= usize::MAX,
    ensures
        r == (old(b).ndks_boot.slot_pos_cur + frames_in(extra_bi_region(old(b).rootserver, extra_bi_size))
            <= ROOT_CNODE_SLOTS),
        r ==> {
            &&& final(b).ndks_boot.slot_pos_cur == old(b).ndks_boot.slot_pos_cur + frames_in(
                extra_bi_region(old(b).rootserver, extra_bi_size),
            )
            &&& final(b).ndks_boot.bi_frame == (if extra_bi_size > 0 {
                crate::structures::seL4_BootInfo {
                    extraBIPages: seL4_SlotRegion {
                        start: old(b).ndks_boot.slot_pos_cur,
                        end: final(b).ndks_boot.slot_pos_cur,
                    },
                    ..old(b).ndks_boot.bi_frame
                }
            } else {
                old(b).ndks_boot.bi_frame
            })
            &&& final(k)@.slots == with_frame_caps(
                old(k)@.slots.update(
                    root_cnode_cap.ptr() + seL4_CapBootInfoFrame,
                    cte_t {
                        cap: mapped_frame_cap(old(b).rootserver.boot_info, bi_frame_vptr, IT_ASID, false),
                        cteMDBNode: boot_link(),
                    },
                ),
                root_cnode_cap.ptr() + old(b).ndks_boot.slot_pos_cur,
                frames_in(extra_bi_region(old(b).rootserver, extra_bi_size)),
                extra_bi_region(old(b).rootserver, extra_bi_size),
                true,
                extra_bi_pv_offset(old(b).rootserver, extra_bi_frame_vptr),
            )
            &&& final(k)@.requests == old(k)@.requests.push(
                request_t::MapFrame {
                    vspace: it_pd_cap.ptr(),
                    frame: old(b).rootserver.boot_info,
                    vptr: bi_frame_vptr,
                },
            ) + region_frame_requests(
                it_pd_cap.ptr(),
                extra_bi_region(old(b).rootserver, extra_bi_size),
                frames_in(extra_bi_region(old(b).rootserver, extra_bi_size)),
                true,
                extra_bi_pv_offset(old(b).rootserver, extra_bi_frame_vptr),
            )
            &&& final(k)@ == (KernelView {
                slots: final(k)@.slots,
                requests: final(k)@.requests,
                ..old(k)@
            })
        },
        r ==> final(k)@.slots[root_cnode_cap.ptr() + seL4_CapBootInfoFrame] == (cte_t {
            cap: mapped_frame_cap(old(b).rootserver.boot_info, bi_frame_vptr, IT_ASID, false),
            cteMDBNode: boot_link(),
        }),
        r ==> frames_provided(
            final(k)@.slots,
            root_cnode_cap.ptr(),
            old(b).ndks_boot.slot_pos_cur as int,
            extra_bi_region(old(b).rootserver, extra_bi_size),
            true,
            extra_bi_pv_offset(old(b).rootserver, extra_bi_frame_vptr),
        ),
        slots_kept(
            old(k)@.slots,
            final(k)@.slots,
            root_cnode_cap.ptr(),
            seL4_CapBootInfoFrame as int,
            old(b).ndks_boot.slot_pos_cur as int,
            ROOT_CNODE_SLOTS as int,
        ),
        final(k)@.tcbs == old(k)@.tcbs,
        boot_ready(final(k)@, root_cnode_cap.ptr()),
        final(b).ndks_boot.slot_pos_cur >= old(b).ndks_boot.slot_pos_cur,
        final(b).rootserver == old(b).rootserver,
        final(b).rootserver_mem == old(b).rootserver_mem,
        final(b).ndks_boot.freemem == old(b).ndks_boot.freemem,
{
    proof {
        reveal(with_frame_caps);
    }
    proof {
        lemma_root_mask();
    }
    create_bi_frame_cap(k, b, root_cnode_cap, it_pd_cap, bi_frame_vptr);
    let ghost k1 = k@;
    if extra_bi_size > 0 {
        let extra_bi_region = region_t {
            start: b.rootserver.extra_bi,
            end: b.rootserver.extra_bi + extra_bi_size,
        };
        let extra_bi_ret = rust_create_frames_of_region(
            k,
            b,
            root_cnode_cap,
            it_pd_cap,
            extra_bi_region,
            true,
            pptr_to_paddr(extra_bi_region.start).wrapping_sub(extra_bi_frame_vptr),
        );
        proof {
            assert forall|i: int|
                0 <= i < old(k)@.slots.len() && i != root_cnode_cap.ptr() + seL4_CapBootInfoFrame && !(
                root_cnode_cap.ptr() + old(b).ndks_boot.slot_pos_cur <= i < root_cnode_cap.ptr()
                    + ROOT_CNODE_SLOTS) implies #[trigger] k@.slots[i] == old(k)@.slots[i] by {
                assert(k@.slots[i] == k1.slots[i]);
            }
        }
        if !extra_bi_ret.success {
            return false;
        }
        b.ndks_boot.bi_frame.extraBIPages = extra_bi_ret.region;
        proof {
            assert(k@.requests =~= old(k)@.requests.push(
                request_t::MapFrame {
                    vspace: it_pd_cap.ptr(),
                    frame: old(b).rootserver.boot_info,
                    vptr: bi_frame_vptr,
                },
            ) + region_frame_requests(
                it_pd_cap.ptr(),
                extra_bi_region,
                frames_in(extra_bi_region),
                true,
                extra_bi_pv_offset(old(b).rootserver, extra_bi_frame_vptr),
            ));
        }
    } else {
        proof {
            let reg = extra_bi_region(old(b).rootserver, extra_bi_size);
            assert(k@.slots =~= with_frame_caps(
                k1.slots,
                root_cnode_cap.ptr() + old(b).ndks_boot.slot_pos_cur,
                0,
                reg,
                true,
                extra_bi_pv_offset(old(b).rootserver, extra_bi_frame_vptr),
            ));
            assert(k@.requests =~= old(k)@.requests.push(
                request_t::MapFrame {
                    vspace: it_pd_cap.ptr(),
                    frame: old(b).rootserver.boot_info,
                    vptr: bi_frame_vptr,
                },
            ) + region_frame_requests(
                it_pd_cap.ptr(),
                reg,
                0,
                true,
                extra_bi_pv_offset(old(b).rootserver, extra_bi_frame_vptr),
            ));
        }
    }
    true
}

/// The region of kernel memory that holds the extra boot info.
pub open spec fn extra_bi_region(rootserver: rootserver_mem_t, extra_bi_size: usize) -> region_t {
    region_t { start: rootserver.extra_bi, end: (rootserver.extra_bi + extra_bi_size) as usize }
}

/// The offset between the extra boot info in kernel memory and where the
/// first thread sees it, modulo a word.
pub open spec fn extra_bi_pv_offset(rootserver: rootserver_mem_t, extra_bi_frame_vptr: usize) -> usize {
    paddr_of(rootserver.extra_bi).wrapping_sub(extra_bi_frame_vptr)
}

/// Maps the image of the first thread into the thread's address space and
/// puts the capabilities to its frames into the root CNode. Fails if the root
/// CNode has too few free slots.
pub fn create_frame_ui_frames(
    k: &mut Kernel,
    b: &mut boot_state_t,
    root_cnode_cap: &cap_t,
    it_pd_cap: &cap_t,
    ui_reg: region_t,
    pv_offset: usize,
) -> (r: bool)
    requires
        boot_ready(old(k)@, root_cnode_cap.ptr()),
        *root_cnode_cap == self::root_cnode_cap(root_cnode_cap.ptr()),
        old(b).ndks_boot.slot_pos_cur <= ROOT_CNODE_SLOTS,
        ui_reg.end + 4096 <= usize::MAX,
    ensures
        r == (old(b).ndks_boot.slot_pos_cur + frames_in(ui_reg) <= ROOT_CNODE_SLOTS),
        r ==> {
            &&& final(b).ndks_boot.slot_pos_cur == old(b).ndks_boot.slot_pos_cur + frames_in(ui_reg)
            &&& final(b).ndks_boot.bi_frame == (crate::structures::seL4_BootInfo {
                userImageFrames: seL4_SlotRegion {
                    start: old(b).ndks_boot.slot_pos_cur,
                    end: final(b).ndks_boot.slot_pos_cur,
                },
                ..old(b).ndks_boot.bi_frame
            })
            &&& final(k)@ == (KernelView {
                slots: with_frame_caps(
                    old(k)@.slots,
                    root_cnode_cap.ptr() + old(b).ndks_boot.slot_pos_cur,
                    frames_in(ui_reg),
                    ui_reg,
                    true,
                    pv_offset,
                ),
                requests: old(k)@.requests + region_frame_requests(
                    it_pd_cap.ptr(),
                    ui_reg,
                    frames_in(ui_reg),
                    true,
                    pv_offset,
                ),
                ..old(k)@
            })
        },
        r ==> frames_provided(
            final(k)@.slots,
            root_cnode_cap.ptr(),
            old(b).ndks_boot.slot_pos_cur as int,
            ui_reg,
            true,
            pv_offset,
        ),
        range_kept(
            old(k)@.slots,
            final(k)@.slots,
            root_cnode_cap.ptr(),
            old(b).ndks_boot.slot_pos_cur as int,
            ROOT_CNODE_SLOTS as int,
        ),
        final(k)@.tcbs == old(k)@.tcbs,
        boot_ready(final(k)@, root_cnode_cap.ptr()),
        final(b).ndks_boot.slot_pos_cur >= old(b).ndks_boot.slot_pos_cur,
        final(b).rootserver == old(b).rootserver,
        final(b).rootserver_mem == old(b).rootserver_mem,
        final(b).ndks_boot.freemem == old(b).ndks_boot.freemem,
{
    let create_frames_ret = rust_create_frames_of_region(k, b, root_cnode_cap, it_pd_cap, ui_reg, true, pv_offset);
    if !create_frames_ret.success {
        return false;
    }
    b.ndks_boot.bi_frame.userImageFrames = create_frames_ret.region;
    true
}

/// The capability to the ASID pool of the first thread.
pub open spec fn it_asid_pool_cap(rootserver: rootserver_mem_t) -> cap_t {
    cap_t::ASIDPoolCap { capASIDBase: IT_ASID >> asidLowBits, capASIDPool: rootserver.asid_pool }
}

/// Slot memory with the capability to the ASID pool of the first thread and
/// the ASID control capability in their slots of the root CNode.
pub open spec fn with_asid_caps(slots: Seq<cte_t>, root: usize, rootserver: rootserver_mem_t) -> Seq<cte_t> {
    slots.update(
        root + seL4_CapInitThreadASIDPool,
        cte_t { cap: it_asid_pool_cap(rootserver), cteMDBNode: boot_link() },
    ).update(root + seL4_CapASIDControl, cte_t { cap: cap_t::ASIDControlCap, cteMDBNode: boot_link() })
}

fn rust_create_it_asid_pool(k: &mut Kernel, b: &boot_state_t, root_cnode_cap: &cap_t) -> (cap: cap_t)
    requires
        boot_ready(old(k)@, root_cnode_cap.ptr()),
        *root_cnode_cap == self::root_cnode_cap(root_cnode_cap.ptr()),
    ensures
        cap == it_asid_pool_cap(b.rootserver),
        final(k)@ == (KernelView {
            slots: with_asid_caps(old(k)@.slots, root_cnode_cap.ptr(), b.rootserver),
            ..old(k)@
        }),
        boot_ready(final(k)@, root_cnode_cap.ptr()),
{
    proof {
        lemma_root_mask();
    }
    let ap_cap = cap_t::ASIDPoolCap {
        capASIDBase: IT_ASID >> asidLowBits,
        capASIDPool: b.rootserver.asid_pool,
    };
    let ptr: usize = crate::cap::cap_get_capPtr(root_cnode_cap);
    write_slot(k, ptr + seL4_CapInitThreadASIDPool, ap_cap);
    write_slot(k, ptr + seL4_CapASIDControl, cap_t::ASIDControlCap);
    ap_cap
}

fn write_it_asid_pool(k: &mut Kernel, it_ap_cap: &cap_t, it_lvl1pt_cap: &cap_t)
    ensures
        final(k)@ == old(k)@.asked(
            request_t::WriteASIDPool { pool: it_ap_cap.ptr(), asid: IT_ASID, vspace: it_lvl1pt_cap.ptr() },
        ),
        old(k).wf() ==> final(k).wf(),
{
    k.requests.push(
        request_t::WriteASIDPool {
            pool: crate::cap::cap_get_capPtr(it_ap_cap),
            asid: IT_ASID,
            vspace: crate::cap::cap_get_capPtr(it_lvl1pt_cap),
        },
    );
}

/// Puts the ASID capabilities of the first thread into the root CNode and
/// asks for the thread's address space to be entered in its ASID pool.
pub fn asid_init(k: &mut Kernel, b: &boot_state_t, root_cnode_cap: &cap_t, it_pd_cap: &cap_t) -> (r: bool)
    requires
        boot_ready(old(k)@, root_cnode_cap.ptr()),
        *root_cnode_cap == self::root_cnode_cap(root_cnode_cap.ptr()),
    ensures
        r,
        final(k)@ == (KernelView {
            slots: with_asid_caps(old(k)@.slots, root_cnode_cap.ptr(), b.rootserver),
            ..old(k)@.asked(
                request_t::WriteASIDPool {
                    pool: b.rootserver.asid_pool,
                    asid: IT_ASID,
                    vspace: it_pd_cap.ptr(),
                },
            )
        }),
        boot_ready(final(k)@, root_cnode_cap.ptr()),
{
    let it_ap_cap = rust_create_it_asid_pool(k, b, root_cnode_cap);
    match it_ap_cap {
        cap_t::NullCap => {
            return false;
        },
        _ => {},
    }
    write_it_asid_pool(k, &it_ap_cap, it_pd_cap);
    true
}

/// The master reply capability of a thread.
pub open spec fn reply_master_cap(thread: usize) -> cap_t {
    cap_t::ReplyCap { capTCBPtr: thread, capReplyMaster: true, capReplyCanGrant: true }
}

/// Slot memory with the master reply capability of a thread in the thread's
/// reply slot, unless that slot holds a capability already.
pub open spec fn with_reply_master(slots: Seq<cte_t>, thread: usize) -> Seq<cte_t> {
    if slots[tcb_cspace(thread, tcbReply)].cap is NullCap {
        slots.update(
            tcb_cspace(thread, tcbReply),
            cte_t { cap: reply_master_cap(thread), cteMDBNode: boot_link() },
        )
    } else {
        slots
    }
}

/// Puts the master reply capability of a thread into the thread's reply
/// slot, unless that slot holds a capability already.
pub fn setupReplyMaster(k: &mut Kernel, thread: usize)
    requires
        old(k).wf(),
        old(k)@.tcb_ok(thread),
    ensures
        final(k)@ == (KernelView { slots: with_reply_master(old(k)@.slots, thread), ..old(k)@ }),
        final(k).wf(),
{
    let slot: usize = getCSpace(thread, tcbReply);
    proof {
        assert(slot_inv(k@.slots, k@.tcbs.len(), slot as int));
    }
    match k.slots[slot].cap {
        cap_t::NullCap => {
            write_slot(
                k,
                slot,
                cap_t::ReplyCap { capTCBPtr: thread, capReplyMaster: true, capReplyCanGrant: true },
            );
        },
        _ => {},
    }
}

/// The thread control block of the first thread: it starts at `ui_v_entry`
/// with the address of the boot info in its first argument register, at the
/// highest priority, and it runs.
pub open spec fn initial_tcb(old: TcbView, ui_v_entry: usize, bi_frame_vptr: usize, ipcbuf_vptr: usize) -> TcbView {
    TcbView {
        registers: old.registers.update(SSTATUS as int, 0x0004_0020).update(
            capRegister as int,
            bi_frame_vptr,
        ).update(NextIP as int, ui_v_entry),
        tcbTimeSlice: CONFIG_TIME_SLICE,
        tcbIPCBuffer: ipcbuf_vptr,
        tcbMCP: seL4_MaxPrio,
        tcbPriority: seL4_MaxPrio,
        tcbState: thread_state_t { tsType: ThreadStateRunning, ..old.tcbState },
        ..old
    }
}

/// Slot memory once the first thread is made: the capabilities to the root
/// CNode, to the address space and to the IPC buffer are copied from the root
/// CNode at `root` into the thread's own slots, the thread has its master
/// reply capability, and the capability to the thread is in its slot of the
/// root CNode.
pub open spec fn initial_thread_slots(
    slots: Seq<cte_t>,
    root: usize,
    tcb: usize,
    root_cap: cap_t,
    it_pd_cap: cap_t,
    ipcbuf_cap: cap_t,
) -> Seq<cte_t> {
    let s1 = insert_slots(
        slots,
        root_cap,
        (root + seL4_CapInitThreadCNode) as usize,
        tcb_cspace(tcb, tcbCTable) as usize,
    );
    let s2 = insert_slots(
        s1,
        it_pd_cap,
        (root + seL4_CapInitThreadVspace) as usize,
        tcb_cspace(tcb, tcbVTable) as usize,
    );
    let s3 = insert_slots(
        s2,
        derived_cap(slots, (root + seL4_CapInitThreadIPCBuffer) as usize, ipcbuf_cap),
        (root + seL4_CapInitThreadIPCBuffer) as usize,
        tcb_cspace(tcb, tcbBuffer) as usize,
    );
    with_reply_master(s3, tcb).update(
        root + seL4_CapInitThreadTCB,
        cte_t { cap: cap_t::ThreadCap { capTCBPtr: tcb }, cteMDBNode: boot_link() },
    )
}

/// What making the first thread asks of the kernel: the root CNode holds the
/// three capabilities to copy, the slot for the capability to the thread
/// stands in no list, the thread's own slots are empty and lie outside the
/// root CNode, the thread is in no ready queue, and the domain schedule has
/// the entry that is current.
pub open spec fn initial_thread_ready(k: KernelView, root: usize, tcb: usize, it_pd_cap: cap_t, ipcbuf_cap: cap_t) -> bool {
    &&& k.wf()
    &&& cap_ok(root_cnode_cap(root), k.slots.len(), k.tcbs.len())
    &&& k.tcb_ok(tcb)
    &&& !k.tcbs[tcb as int].tcbState.tcbQueued
    &&& forall|i: int| 0 <= i < 5 ==> (#[trigger] k.slots[tcb_cspace(tcb, 0) + i]) == cte_t::empty()
    &&& (tcb_cspace(tcb, 5) <= root || root + ROOT_CNODE_SLOTS <= tcb_cspace(tcb, 0))
    &&& !(k.slots[root + seL4_CapInitThreadCNode].cap is NullCap)
    &&& !(k.slots[root + seL4_CapInitThreadVspace].cap is NullCap)
    &&& !(k.slots[root + seL4_CapInitThreadIPCBuffer].cap is NullCap)
    &&& unlinked(k.slots[root + seL4_CapInitThreadCNode])
    &&& unlinked(k.slots[root + seL4_CapInitThreadVspace])
    &&& unlinked(k.slots[root + seL4_CapInitThreadIPCBuffer])
    &&& unlinked(k.slots[root + seL4_CapInitThreadTCB])
    &&& ipcbuf_cap is FrameCap
    &&& cap_ok(it_pd_cap, k.slots.len(), k.tcbs.len())
    &&& !(it_pd_cap is NullCap)
    &&& k.ksDomScheduleIdx < k.ksDomSchedule.len()
    &&& k.ksDomSchedule[k.ksDomScheduleIdx as int].domain < CONFIG_NUM_DOMAINS
}

/// Sets the fields of the thread control block of the first thread that
/// need no more than a write.
fn init_tcb_fields(k: &mut Kernel, tcb: usize, ipcbuf_vptr: usize)
    requires
        old(k).wf(),
        2 <= tcb < old(k)@.tcbs.len(),
        !old(k)@.tcbs[tcb as int].tcbState.tcbQueued,
    ensures
        final(k)@ == (KernelView {
            tcbs: old(k)@.tcbs.update(
                tcb as int,
                TcbView {
                    registers: old(k)@.tcbs[tcb as int].registers.update(SSTATUS as int, 0x0004_0020),
                    tcbTimeSlice: CONFIG_TIME_SLICE,
                    tcbIPCBuffer: ipcbuf_vptr,
                    tcbMCP: seL4_MaxPrio,
                    tcbPriority: seL4_MaxPrio,
                    ..old(k)@.tcbs[tcb as int]
                },
            ),
            ..old(k)@
        }),
        final(k).wf(),
{
    k.tcbs[tcb].tcbTimeSlice = CONFIG_TIME_SLICE;
    let arch = Arch_initContext(k.tcbs[tcb].tcbArch);
    k.tcbs[tcb].tcbArch = arch;
    k.tcbs[tcb].tcbIPCBuffer = ipcbuf_vptr;
    k.tcbs[tcb].tcbMCP = seL4_MaxPrio;
    let ghost mid = k@.sched();
    proof {
        lemma_sched_frame(old(k)@.sched(), mid);
        lemma_priority_keeps_order(mid, tcb, seL4_MaxPrio);
    }
    k.tcbs[tcb].tcbPriority = seL4_MaxPrio;
    proof {
        assert(k@.tcbs =~= mid.tcbs.update(
            tcb as int,
            TcbView { tcbPriority: seL4_MaxPrio, ..mid.tcbs[tcb as int] },
        ));
        assert(k@.tcbs =~= old(k)@.tcbs.update(
            tcb as int,
            TcbView {
                registers: old(k)@.tcbs[tcb as int].registers.update(SSTATUS as int, 0x0004_0020),
                tcbTimeSlice: CONFIG_TIME_SLICE,
                tcbIPCBuffer: ipcbuf_vptr,
                tcbMCP: seL4_MaxPrio,
                tcbPriority: seL4_MaxPrio,
                ..old(k)@.tcbs[tcb as int]
            },
        ));
    }
}

/// Makes the first thread. Gives the reference of the thread.
pub fn create_initial_thread(
    k: &mut Kernel,
    b: &boot_state_t,
    root_cnode_cap: &cap_t,
    it_pd_cap: &cap_t,
    ui_v_entry: usize,
    bi_frame_vptr: usize,
    ipcbuf_vptr: usize,
    ipcbuf_cap: cap_t,
) -> (r: usize)
    requires
        *root_cnode_cap == self::root_cnode_cap(root_cnode_cap.ptr()),
        initial_thread_ready(old(k)@, root_cnode_cap.ptr(), tcb_of(b.rootserver.tcb), *it_pd_cap, ipcbuf_cap),
    ensures
        r == tcb_of(b.rootserver.tcb),
        final(k)@ == (KernelView {
            slots: initial_thread_slots(
                old(k)@.slots,
                root_cnode_cap.ptr(),
                r,
                *root_cnode_cap,
                *it_pd_cap,
                ipcbuf_cap,
            ),
            tcbs: old(k)@.tcbs.update(
                r as int,
                initial_tcb(old(k)@.tcbs[r as int], ui_v_entry, bi_frame_vptr, ipcbuf_vptr),
            ),
            ksCurDomain: old(k)@.ksDomSchedule[old(k)@.ksDomScheduleIdx as int].domain,
            ksDomainTime: old(k)@.ksDomSchedule[old(k)@.ksDomScheduleIdx as int].length,
            ..old(k)@
        }),
        final(k).wf(),
{
    proof {
        lemma_root_mask();
    }
    let tcb: usize = b.rootserver.tcb / 1024;
    let ptr: usize = crate::cap::cap_get_capPtr(root_cnode_cap);
    let ghost s0 = k@.slots;
    proof {
        assert(s0[tcb_cspace(tcb, 0) + 0] == cte_t::empty());
        assert(s0[tcb_cspace(tcb, 0) + 1] == cte_t::empty());
        assert(s0[tcb_cspace(tcb, 0) + 2] == cte_t::empty());
        assert(s0[tcb_cspace(tcb, 0) + 4] == cte_t::empty());
    }
    init_tcb_fields(k, tcb, ipcbuf_vptr);
    let dc_ret = deriveCap(k, ptr + seL4_CapInitThreadIPCBuffer, &ipcbuf_cap);
    if dc_ret.status != exception_t::EXCEPTION_NONE {
        return 0;
    }
    cteInsert(k, root_cnode_cap, ptr + seL4_CapInitThreadCNode, getCSpace(tcb, tcbCTable));
    cteInsert(k, it_pd_cap, ptr + seL4_CapInitThreadVspace, getCSpace(tcb, tcbVTable));
    cteInsert(k, &dc_ret.cap, ptr + seL4_CapInitThreadIPCBuffer, getCSpace(tcb, tcbBuffer));
    setRegister(k, tcb, capRegister, bi_frame_vptr);
    setNextPC(k, tcb, ui_v_entry);
    setThreadState(k, tcb, ThreadStateRunning);
    setupReplyMaster(k, tcb);
    let ghost before = k@.sched();
    k.ksCurDomain = k.ksDomSchedule[k.ksDomScheduleIdx].domain;
    k.ksDomainTime = k.ksDomSchedule[k.ksDomScheduleIdx].length;
    proof {
        lemma_sched_frame(before, k@.sched());
    }
    write_slot(k, ptr + seL4_CapInitThreadTCB, cap_t::ThreadCap { capTCBPtr: tcb });
    proof {
        assert(k@.tcbs =~= old(k)@.tcbs.update(
            tcb as int,
            initial_tcb(old(k)@.tcbs[tcb as int], ui_v_entry, bi_frame_vptr, ipcbuf_vptr),
        ));
    }
    tcb
}

/// Where boot puts the objects of the first thread, if a free region has
/// room for them.
pub open spec fn boot_plan(freemem: Seq<region_t>, it_v_reg: v_region_t, extra_bi_size_bits: usize) -> Option<
    rootserver_mem_t,
> {
    let size = rootserver_size(n_paging(it_v_reg), extra_bi_size_bits);
    let bits = rootserver_align_bits(extra_bi_size_bits) as nat;
    match region_chosen(freemem, 16, size, bits) {
        Some(c) => Some(
            rootserver_layout(fit_start(freemem[c], size, bits), n_paging(it_v_reg), extra_bi_size_bits),
        ),
        None => None,
    }
}

/// The number of slots of the root CNode that boot fills: the well-known
/// slots, one for every page table, and one for every frame of the extra boot
/// info and of the image of the first thread.
pub open spec fn boot_slots_needed(layout: rootserver_mem_t, it_v_reg: v_region_t, extra_bi_size: usize, ui_reg: region_t) -> int {
    seL4_NumInitialCaps + n_paging(it_v_reg) + frames_in(extra_bi_region(layout, extra_bi_size))
        + frames_in(ui_reg)
}

/// What boot asks for: a kernel that is in order and holds no capability and
/// no queued thread, free regions fit for carving that the two arenas cover,
/// a region of the image and a size of the extra boot info that do not
/// overflow, and a domain schedule that can be run, with a current entry.
pub open spec fn boot_inputs_ok(
    k: KernelView,
    b: boot_state_t,
    it_v_reg: v_region_t,
    extra_bi_size_bits: usize,
    extra_bi_size: usize,
    ui_reg: region_t,
) -> bool {
    &&& k.wf()
    &&& forall|i: int| 0 <= i < k.slots.len() ==> #[trigger] k.slots[i] == cte_t::empty()
    &&& forall|t: int| 0 <= t < k.tcbs.len() ==> !(#[trigger] k.tcbs[t]).tcbState.tcbQueued
    &&& v_region_ok(it_v_reg)
    &&& extra_bi_ok(extra_bi_size_bits)
    &&& extra_bi_size <= extra_bi_bytes(extra_bi_size_bits)
    &&& freemem_ok(b.ndks_boot.freemem@, rootserver_size(n_paging(it_v_reg), extra_bi_size_bits))
    &&& forall|i: int|
        0 <= i < 16 ==> (#[trigger] b.ndks_boot.freemem@[i]).end / 32 <= k.slots.len()
            && b.ndks_boot.freemem@[i].end / 1024 <= k.tcbs.len()
    &&& b.rootserver.extra_bi == 0
    &&& ui_reg.end + 4096 <= usize::MAX
    &&& k.ksDomScheduleIdx < k.ksDomSchedule.len()
    &&& schedule_ok(k.ksDomSchedule)
}

/// What the root CNode and the first thread hold once boot is done.
pub open spec fn booted(
    old: KernelView,
    new: KernelView,
    layout: rootserver_mem_t,
    ipcbuf_vptr: usize,
    bi_frame_vptr: usize,
    v_entry: usize,
    it_v_reg: v_region_t,
    extra_bi_size: usize,
    extra_bi_frame_vptr: usize,
    ui_reg: region_t,
    pv_offset: usize,
) -> bool {
    let root = slot_of(layout.cnode);
    let tcb = tcb_of(layout.tcb);
    let ipcbuf_cap = mapped_frame_cap(layout.ipc_buf, ipcbuf_vptr, IT_ASID, false);
    &&& new.wf()
    &&& new.slots.len() == old.slots.len()
    &&& new.tcbs.len() == old.tcbs.len()
    &&& new.slots[root + seL4_CapInitThreadTCB].cap == (cap_t::ThreadCap { capTCBPtr: tcb })
    &&& new.slots[root + seL4_CapInitThreadCNode].cap == root_cnode_cap(root)
    &&& new.slots[root + seL4_CapInitThreadVspace].cap == it_vspace_cap(layout)
    &&& new.slots[root + seL4_CapIRQControl].cap == cap_t::IrqControlCap
    &&& new.slots[root + seL4_CapASIDControl].cap == cap_t::ASIDControlCap
    &&& new.slots[root + seL4_CapInitThreadASIDPool].cap == it_asid_pool_cap(layout)
    &&& new.slots[root + seL4_CapBootInfoFrame].cap == mapped_frame_cap(
        layout.boot_info,
        bi_frame_vptr,
        IT_ASID,
        false,
    )
    &&& new.slots[root + seL4_CapInitThreadIPCBuffer].cap == ipcbuf_cap
    &&& new.slots[root + seL4_CapDomain].cap == cap_t::DomainCap
    &&& new.slots[tcb_cspace(tcb, tcbCTable)].cap == root_cnode_cap(root)
    &&& new.slots[tcb_cspace(tcb, tcbVTable)].cap == it_vspace_cap(layout)
    &&& new.slots[tcb_cspace(tcb, tcbBuffer)].cap == unmapped_copy(ipcbuf_cap)
    &&& new.slots[tcb_cspace(tcb, tcbReply)].cap == reply_master_cap(tcb)
    &&& new.tcbs[tcb as int] == initial_tcb(old.tcbs[tcb as int], v_entry, bi_frame_vptr, ipcbuf_vptr)
    &&& new.ksCurDomain == old.ksDomSchedule[old.ksDomScheduleIdx as int].domain
    &&& new.ksDomainTime == old.ksDomSchedule[old.ksDomScheduleIdx as int].length
    &&& new.requests == old.requests + boot_requests(
        layout,
        it_v_reg,
        ipcbuf_vptr,
        bi_frame_vptr,
        extra_bi_size,
        extra_bi_frame_vptr,
        ui_reg,
        pv_offset,
    )
    &&& image_tables_provided(new.slots, root, layout, it_v_reg)
    &&& image_frames_provided(
        new.slots,
        root,
        layout,
        it_v_reg,
        extra_bi_size,
        extra_bi_frame_vptr,
        ui_reg,
        pv_offset,
    )
    &&& forall|i: int|
        0 <= i < old.slots.len() && !(root <= i < root + ROOT_CNODE_SLOTS) && !(tcb_cspace(tcb, 0) <= i
            < tcb_cspace(tcb, 5)) ==> #[trigger] new.slots[i] == old.slots[i]
}

/// The copy of a frame capability that is mapped nowhere.
pub open spec fn unmapped_copy(cap: cap_t) -> cap_t {
    match cap {
        cap_t::FrameCap { capFBasePtr, capFSize, capFVMRights, capFIsDevice, .. } => cap_t::FrameCap {
            capFBasePtr,
            capFSize,
            capFVMRights,
            capFMappedASID: asidInvalid,
            capFMappedAddress: 0,
            capFIsDevice,
        },
        _ => cap,
    }
}

/// Whether the slots of the root CNode behind the well-known ones hold the
/// capabilities to the page tables that cover the image of the first thread:
/// those of the level of 1 GiB first, then those of the level of 2 MiB, each
/// table a page behind the one before from the start of the memory set aside
/// for them.
pub open spec fn image_tables_provided(slots: Seq<cte_t>, root: usize, layout: rootserver_mem_t, it_v_reg: v_region_t) -> bool {
    &&& tables_provided(
        slots,
        root,
        seL4_NumInitialCaps as int,
        n_paging_level(it_v_reg, 30),
        layout.paging.start,
        round_down(it_v_reg.start as int, 30),
        30,
    )
    &&& tables_provided(
        slots,
        root,
        seL4_NumInitialCaps + n_paging_level(it_v_reg, 30),
        n_paging_level(it_v_reg, 21),
        (layout.paging.start + n_paging_level(it_v_reg, 30) * 0x1000) as usize,
        round_down(it_v_reg.start as int, 21),
        21,
    )
}

/// Whether the slots of the root CNode behind the page tables hold the
/// capabilities to the frames of the extra boot info and, behind these, to
/// the frames of the image of the first thread.
pub open spec fn image_frames_provided(
    slots: Seq<cte_t>,
    root: usize,
    layout: rootserver_mem_t,
    it_v_reg: v_region_t,
    extra_bi_size: usize,
    extra_bi_frame_vptr: usize,
    ui_reg: region_t,
    pv_offset: usize,
) -> bool {
    &&& frames_provided(
        slots,
        root,
        seL4_NumInitialCaps + n_paging(it_v_reg),
        extra_bi_region(layout, extra_bi_size),
        true,
        extra_bi_pv_offset(layout, extra_bi_frame_vptr),
    )
    &&& frames_provided(
        slots,
        root,
        seL4_NumInitialCaps + n_paging(it_v_reg) + frames_in(extra_bi_region(layout, extra_bi_size)),
        ui_reg,
        true,
        pv_offset,
    )
}

/// The calls that boot asks for while it fills the well-known slots that
/// need no mapping.
pub open spec fn fixed_requests(layout: rootserver_mem_t, extra_bi_size: usize) -> Seq<request_t> {
    irq_requests() + bi_clear_requests(layout, extra_bi_size)
}

/// The calls that boot asks for while it makes the address space of the
/// first thread and maps the boot info into it.
pub open spec fn address_space_requests(
    layout: rootserver_mem_t,
    it_v_reg: v_region_t,
    bi_frame_vptr: usize,
    extra_bi_size: usize,
    extra_bi_frame_vptr: usize,
) -> Seq<request_t> {
    seq![request_t::CopyGlobalMappings { vspace: layout.vspace }] + level_pt_requests(
        layout.vspace,
        n_paging_level(it_v_reg, 30),
        layout.paging.start,
        round_down(it_v_reg.start as int, 30),
        30,
    ) + level_pt_requests(
        layout.vspace,
        n_paging_level(it_v_reg, 21),
        (layout.paging.start + n_paging_level(it_v_reg, 30) * 0x1000) as usize,
        round_down(it_v_reg.start as int, 21),
        21,
    ) + seq![request_t::MapFrame { vspace: layout.vspace, frame: layout.boot_info, vptr: bi_frame_vptr }]
        + region_frame_requests(
        layout.vspace,
        extra_bi_region(layout, extra_bi_size),
        frames_in(extra_bi_region(layout, extra_bi_size)),
        true,
        extra_bi_pv_offset(layout, extra_bi_frame_vptr),
    )
}

/// The calls that boot asks for while it maps the IPC buffer and the image of
/// the first thread and enters the address space in the ASID pool.
pub open spec fn image_requests(layout: rootserver_mem_t, ipcbuf_vptr: usize, ui_reg: region_t, pv_offset: usize) -> Seq<
    request_t,
> {
    seq![
        request_t::ClearMemory { ptr: layout.ipc_buf, bits: 12 },
        request_t::MapFrame { vspace: layout.vspace, frame: layout.ipc_buf, vptr: ipcbuf_vptr },
    ] + region_frame_requests(layout.vspace, ui_reg, frames_in(ui_reg), true, pv_offset) + seq![
        request_t::WriteASIDPool { pool: layout.asid_pool, asid: IT_ASID, vspace: layout.vspace },
    ]
}

/// The calls that boot asks of the collaborators, in order.
pub open spec fn boot_requests(
    layout: rootserver_mem_t,
    it_v_reg: v_region_t,
    ipcbuf_vptr: usize,
    bi_frame_vptr: usize,
    extra_bi_size: usize,
    extra_bi_frame_vptr: usize,
    ui_reg: region_t,
    pv_offset: usize,
) -> Seq<request_t> {
    fixed_requests(layout, extra_bi_size) + address_space_requests(
        layout,
        it_v_reg,
        bi_frame_vptr,
        extra_bi_size,
        extra_bi_frame_vptr,
    ) + image_requests(layout, ipcbuf_vptr, ui_reg, pv_offset)
}

/// The boot info as the first stage of boot leaves it.
pub open spec fn started_boot_info(
    bi: crate::structures::seL4_BootInfo,
    domain: usize,
    ipcbuf_vptr: usize,
    extra_bi_size: usize,
) -> crate::structures::seL4_BootInfo {
    crate::structures::seL4_BootInfo {
        nodeID: 0,
        numNodes: CONFIG_MAX_NUM_NODES,
        numIOPTLevels: 0,
        ipcBuffer: ipcbuf_vptr,
        initThreadCNodeSizeBits: CONFIG_ROOT_CNODE_SIZE_BITS,
        initThreadDomain: domain,
        extraLen: extra_bi_size,
        ..bi
    }
}

/// The boot info once boot is done: what is known from the start, and the
/// runs of slots of the root CNode that hold the page tables, the frames of
/// the extra boot info, if there is any, and the frames of the image.
pub open spec fn finished_boot_info(
    bi: crate::structures::seL4_BootInfo,
    domain: usize,
    layout: rootserver_mem_t,
    it_v_reg: v_region_t,
    ipcbuf_vptr: usize,
    extra_bi_size: usize,
    ui_reg: region_t,
) -> crate::structures::seL4_BootInfo {
    let tables = (seL4_NumInitialCaps + n_paging(it_v_reg)) as usize;
    let extra = (tables + frames_in(extra_bi_region(layout, extra_bi_size))) as usize;
    let started = started_boot_info(bi, domain, ipcbuf_vptr, extra_bi_size);
    crate::structures::seL4_BootInfo {
        userImagePaging: seL4_SlotRegion { start: seL4_NumInitialCaps, end: tables },
        extraBIPages: if extra_bi_size > 0 {
            seL4_SlotRegion { start: tables, end: extra }
        } else {
            started.extraBIPages
        },
        userImageFrames: seL4_SlotRegion { start: extra, end: (extra + frames_in(ui_reg)) as usize },
        ..started
    }
}

/// Whether the kernel `new` differs from `old` in slot memory and in the calls
/// asked of the collaborators only.
pub open spec fn only_slots_and_requests(old: KernelView, new: KernelView) -> bool {
    new == (KernelView { slots: new.slots, requests: new.requests, ..old })
}

/// Fills the slots of the root CNode that need none of the first thread's
/// memory mapped: the root CNode itself, the domain and the interrupt control;
/// and starts the boot info.
fn boot_fixed_caps(k: &mut Kernel, b: &mut boot_state_t, ipcbuf_vptr: usize, extra_bi_size: usize) -> (cap:
    cap_t)
    requires
        boot_ready(old(k)@, slot_of(old(b).rootserver.cnode)),
        schedule_ok(old(k)@.ksDomSchedule),
        old(k)@.ksDomScheduleIdx < old(k)@.ksDomSchedule.len(),
    ensures
        cap == root_cnode_cap(slot_of(old(b).rootserver.cnode)),
        boot_ready(final(k)@, cap.ptr()),
        only_slots_and_requests(old(k)@, final(k)@),
        range_kept(old(k)@.slots, final(k)@.slots, cap.ptr(), 0, seL4_NumInitialCaps as int),
        final(k)@.slots[cap.ptr() + seL4_CapInitThreadCNode].cap == cap,
        final(k)@.slots[cap.ptr() + seL4_CapDomain].cap == cap_t::DomainCap,
        final(k)@.slots[cap.ptr() + seL4_CapIRQControl].cap == cap_t::IrqControlCap,
        final(k)@.slots[cap.ptr() + seL4_CapInitThreadTCB] == old(k)@.slots[cap.ptr()
            + seL4_CapInitThreadTCB],
        final(k)@.requests == old(k)@.requests + fixed_requests(old(b).rootserver, extra_bi_size),
        final(b).ndks_boot.bi_frame == started_boot_info(
            old(b).ndks_boot.bi_frame,
            old(k)@.ksDomSchedule[old(k)@.ksDomScheduleIdx as int].domain,
            ipcbuf_vptr,
            extra_bi_size,
        ),
        final(b).ndks_boot.slot_pos_cur == seL4_NumInitialCaps,
        final(b).ndks_boot.freemem == old(b).ndks_boot.freemem,
        final(b).rootserver == old(b).rootserver,
        final(b).rootserver_mem == old(b).rootserver_mem,
{
    proof {
        lemma_root_mask();
    }
    let root_cnode_cap = create_root_cnode(k, b);
    create_domain_cap(k, &root_cnode_cap);
    init_irqs(k, &root_cnode_cap);
    rust_populate_bi_frame(k, b, 0, CONFIG_MAX_NUM_NODES, ipcbuf_vptr, extra_bi_size);
    proof {
        assert(k@.requests =~= old(k)@.requests + fixed_requests(old(b).rootserver, extra_bi_size));
    }
    root_cnode_cap
}

/// Fills the slots of the root CNode that stand for memory mapped into the
/// first thread's address space: the address space with its page tables and
/// the boot info with the extra boot info. Gives the capability to the
/// address space, or the null capability if the root CNode has too few slots.
fn boot_address_space(
    k: &mut Kernel,
    b: &mut boot_state_t,
    root_cnode_cap: &cap_t,
    it_v_reg: v_region_t,
    bi_frame_vptr: usize,
    extra_bi_size: usize,
    extra_bi_frame_vptr: usize,
) -> (cap: cap_t)
    requires
        boot_ready(old(k)@, root_cnode_cap.ptr()),
        *root_cnode_cap == self::root_cnode_cap(root_cnode_cap.ptr()),
        v_region_ok(it_v_reg),
        old(b).ndks_boot.slot_pos_cur == seL4_NumInitialCaps,
        old(b).rootserver.paging.start + n_paging(it_v_reg) * 0x1000 <= old(b).rootserver.paging.end,
        old(b).rootserver.extra_bi + extra_bi_size + 4096 <= usize::MAX,
    ensures
        boot_ready(final(k)@, root_cnode_cap.ptr()),
        final(k)@.tcbs == old(k)@.tcbs,
        range_kept(
            old(k)@.slots,
            final(k)@.slots,
            root_cnode_cap.ptr(),
            seL4_CapInitThreadVspace as int,
            ROOT_CNODE_SLOTS as int,
        ),
        final(k)@.slots[root_cnode_cap.ptr() + seL4_CapIRQControl] == old(k)@.slots[root_cnode_cap.ptr()
            + seL4_CapIRQControl],
        final(k)@.slots[root_cnode_cap.ptr() + seL4_CapDomain] == old(k)@.slots[root_cnode_cap.ptr()
            + seL4_CapDomain],
        cap is NullCap <==> seL4_NumInitialCaps + n_paging(it_v_reg) + frames_in(
            extra_bi_region(old(b).rootserver, extra_bi_size),
        ) > ROOT_CNODE_SLOTS,
        !(cap is NullCap) ==> {
            &&& cap == it_vspace_cap(old(b).rootserver)
            &&& only_slots_and_requests(old(k)@, final(k)@)
            &&& final(k)@.slots[root_cnode_cap.ptr() + seL4_CapInitThreadVspace].cap == cap
            &&& final(k)@.slots[root_cnode_cap.ptr() + seL4_CapBootInfoFrame].cap == mapped_frame_cap(
                old(b).rootserver.boot_info,
                bi_frame_vptr,
                IT_ASID,
                false,
            )
            &&& final(b).ndks_boot.slot_pos_cur == seL4_NumInitialCaps + n_paging(it_v_reg) + frames_in(
                extra_bi_region(old(b).rootserver, extra_bi_size),
            )
            &&& final(b).ndks_boot.bi_frame == (crate::structures::seL4_BootInfo {
                userImagePaging: seL4_SlotRegion {
                    start: seL4_NumInitialCaps,
                    end: (seL4_NumInitialCaps + n_paging(it_v_reg)) as usize,
                },
                extraBIPages: if extra_bi_size > 0 {
                    seL4_SlotRegion {
                        start: (seL4_NumInitialCaps + n_paging(it_v_reg)) as usize,
                        end: final(b).ndks_boot.slot_pos_cur,
                    }
                } else {
                    old(b).ndks_boot.bi_frame.extraBIPages
                },
                ..old(b).ndks_boot.bi_frame
            })
        },
        !(cap is NullCap) ==> image_tables_provided(
            final(k)@.slots,
            root_cnode_cap.ptr(),
            old(b).rootserver,
            it_v_reg,
        ) && frames_provided(
            final(k)@.slots,
            root_cnode_cap.ptr(),
            seL4_NumInitialCaps + n_paging(it_v_reg),
            extra_bi_region(old(b).rootserver, extra_bi_size),
            true,
            extra_bi_pv_offset(old(b).rootserver, extra_bi_frame_vptr),
        ),
        !(cap is NullCap) ==> final(k)@.requests == old(k)@.requests + address_space_requests(
            old(b).rootserver,
            it_v_reg,
            bi_frame_vptr,
            extra_bi_size,
            extra_bi_frame_vptr,
        ),
        final(b).rootserver.cnode == old(b).rootserver.cnode,
        final(b).rootserver.tcb == old(b).rootserver.tcb,
        final(b).rootserver.vspace == old(b).rootserver.vspace,
        final(b).rootserver.asid_pool == old(b).rootserver.asid_pool,
        final(b).rootserver.ipc_buf == old(b).rootserver.ipc_buf,
        final(b).rootserver.boot_info == old(b).rootserver.boot_info,
        final(b).rootserver.extra_bi == old(b).rootserver.extra_bi,
        final(b).ndks_boot.freemem == old(b).ndks_boot.freemem,
{
    proof {
        lemma_root_mask();
        lemma_level_count(it_v_reg, 30, 0);
        lemma_level_count(it_v_reg, 21, 0);
    }
    let ghost root = root_cnode_cap.ptr();
    let it_pd_cap = rust_create_it_address_space(k, b, root_cnode_cap, it_v_reg);
    let ghost k1 = k@;
    match it_pd_cap {
        cap_t::NullCap => {
            return cap_t::NullCap;
        },
        _ => {},
    }
    if !init_bi_frame_cap(k, b, root_cnode_cap, &it_pd_cap, bi_frame_vptr, extra_bi_size, extra_bi_frame_vptr) {
        proof {
            assert forall|i: int|
                0 <= i < old(k)@.slots.len() && !(root + seL4_CapInitThreadVspace <= i < root
                    + ROOT_CNODE_SLOTS) implies #[trigger] k@.slots[i] == old(k)@.slots[i] by {
                assert(k@.slots[i] == k1.slots[i]);
            }
        }
        return cap_t::NullCap;
    }
    proof {
        assert forall|i: int|
            0 <= i < old(k)@.slots.len() && !(root + seL4_CapInitThreadVspace <= i < root
                + ROOT_CNODE_SLOTS) implies #[trigger] k@.slots[i] == old(k)@.slots[i] by {
            assert(k@.slots[i] == k1.slots[i]);
        }
        assert(k@.slots[root + seL4_CapInitThreadVspace] == k1.slots[root + seL4_CapInitThreadVspace]);
        assert(k@.slots[root + seL4_CapIRQControl] == k1.slots[root + seL4_CapIRQControl]);
        assert(k@.slots[root + seL4_CapDomain] == k1.slots[root + seL4_CapDomain]);
        assert forall|i: int|
            seL4_NumInitialCaps <= i < seL4_NumInitialCaps + n_paging(it_v_reg) implies #[trigger] provided(
            k@.slots,
            root,
            i,
        ) == provided(k1.slots, root, i) by {
            assert(k@.slots[root + i] == k1.slots[root + i]);
        }
        assert(k@.requests =~= old(k)@.requests + address_space_requests(
            old(b).rootserver,
            it_v_reg,
            bi_frame_vptr,
            extra_bi_size,
            extra_bi_frame_vptr,
        ));
    }
    it_pd_cap
}

/// Fills the slots of the root CNode for the IPC buffer, the image and the
/// ASID pool of the first thread. Gives the capability to the IPC buffer, or
/// the null capability if the root CNode has too few slots.
fn boot_image_caps(
    k: &mut Kernel,
    b: &mut boot_state_t,
    root_cnode_cap: &cap_t,
    it_pd_cap: &cap_t,
    ipcbuf_vptr: usize,
    ui_reg: region_t,
    pv_offset: usize,
) -> (cap: cap_t)
    requires
        boot_ready(old(k)@, root_cnode_cap.ptr()),
        *root_cnode_cap == self::root_cnode_cap(root_cnode_cap.ptr()),
        seL4_NumInitialCaps <= old(b).ndks_boot.slot_pos_cur <= ROOT_CNODE_SLOTS,
        it_pd_cap.ptr() == old(b).rootserver.vspace,
        ui_reg.end + 4096 <= usize::MAX,
    ensures
        boot_ready(final(k)@, root_cnode_cap.ptr()),
        final(k)@.tcbs == old(k)@.tcbs,
        range_kept(
            old(k)@.slots,
            final(k)@.slots,
            root_cnode_cap.ptr(),
            seL4_CapASIDControl as int,
            ROOT_CNODE_SLOTS as int,
        ),
        final(k)@.slots[root_cnode_cap.ptr() + seL4_CapBootInfoFrame] == old(k)@.slots[root_cnode_cap.ptr()
            + seL4_CapBootInfoFrame],
        final(k)@.slots[root_cnode_cap.ptr() + seL4_CapDomain] == old(k)@.slots[root_cnode_cap.ptr()
            + seL4_CapDomain],
        cap is NullCap <==> old(b).ndks_boot.slot_pos_cur + frames_in(ui_reg) > ROOT_CNODE_SLOTS,
        !(cap is NullCap) ==> {
            &&& cap == mapped_frame_cap(old(b).rootserver.ipc_buf, ipcbuf_vptr, IT_ASID, false)
            &&& only_slots_and_requests(old(k)@, final(k)@)
            &&& final(k)@.slots[root_cnode_cap.ptr() + seL4_CapInitThreadIPCBuffer].cap == cap
            &&& final(k)@.slots[root_cnode_cap.ptr() + seL4_CapASIDControl].cap == cap_t::ASIDControlCap
            &&& final(k)@.slots[root_cnode_cap.ptr() + seL4_CapInitThreadASIDPool].cap == it_asid_pool_cap(
                old(b).rootserver,
            )
            &&& final(b).ndks_boot.slot_pos_cur == old(b).ndks_boot.slot_pos_cur + frames_in(ui_reg)
            &&& final(b).ndks_boot.bi_frame == (crate::structures::seL4_BootInfo {
                userImageFrames: seL4_SlotRegion {
                    start: old(b).ndks_boot.slot_pos_cur,
                    end: final(b).ndks_boot.slot_pos_cur,
                },
                ..old(b).ndks_boot.bi_frame
            })
        },
        !(cap is NullCap) ==> frames_provided(
            final(k)@.slots,
            root_cnode_cap.ptr(),
            old(b).ndks_boot.slot_pos_cur as int,
            ui_reg,
            true,
            pv_offset,
        ),
        provided_kept(
            old(k)@.slots,
            final(k)@.slots,
            root_cnode_cap.ptr(),
            seL4_NumInitialCaps as int,
            old(b).ndks_boot.slot_pos_cur as int,
        ),
        !(cap is NullCap) ==> final(k)@.requests == old(k)@.requests + image_requests(
            old(b).rootserver,
            ipcbuf_vptr,
            ui_reg,
            pv_offset,
        ),
        final(b).rootserver == old(b).rootserver,
        final(b).ndks_boot.freemem == old(b).ndks_boot.freemem,
{
    proof {
        lemma_root_mask();
    }
    let ghost root = root_cnode_cap.ptr();
    let ipcbuf_cap = create_ipcbuf_frame_cap(k, b, root_cnode_cap, it_pd_cap, ipcbuf_vptr);
    let ghost k1 = k@;
    if !create_frame_ui_frames(k, b, root_cnode_cap, it_pd_cap, ui_reg, pv_offset) {
        proof {
            assert forall|i: int|
                0 <= i < old(k)@.slots.len() && !(root + seL4_CapASIDControl <= i < root
                    + ROOT_CNODE_SLOTS) implies #[trigger] k@.slots[i] == old(k)@.slots[i] by {
                assert(k@.slots[i] == k1.slots[i]);
            }
            assert(k@.slots[root + seL4_CapBootInfoFrame] == k1.slots[root + seL4_CapBootInfoFrame]);
            assert(k@.slots[root + seL4_CapDomain] == k1.slots[root + seL4_CapDomain]);
            assert forall|i: int|
                seL4_NumInitialCaps <= i < old(b).ndks_boot.slot_pos_cur implies #[trigger] provided(
                k@.slots,
                root,
                i,
            ) == provided(old(k)@.slots, root, i) by {
                assert(k@.slots[root + i] == k1.slots[root + i]);
                assert(k1.slots[root + i] == old(k)@.slots[root + i]);
            }
        }
        return cap_t::NullCap;
    }
    let ghost k2 = k@;
    if !asid_init(k, b, root_cnode_cap, it_pd_cap) {
        return cap_t::NullCap;
    }
    proof {
        assert forall|i: int|
            0 <= i < old(k)@.slots.len() && !(root + seL4_CapASIDControl <= i < root + ROOT_CNODE_SLOTS) implies #[trigger] k@.slots[i]
            == old(k)@.slots[i] by {
            assert(k2.slots[i] == k1.slots[i]);
        }
        assert(k2.slots[root + seL4_CapInitThreadIPCBuffer] == k1.slots[root + seL4_CapInitThreadIPCBuffer]);
        assert(k2.slots[root + seL4_CapBootInfoFrame] == k1.slots[root + seL4_CapBootInfoFrame]);
        assert(k2.slots[root + seL4_CapDomain] == k1.slots[root + seL4_CapDomain]);
        assert forall|i: int|
            seL4_NumInitialCaps <= i < ROOT_CNODE_SLOTS implies #[trigger] provided(k@.slots, root, i)
            == provided(k2.slots, root, i) by {
            assert(k@.slots[root + i] == k2.slots[root + i]);
        }
        assert forall|i: int|
            seL4_NumInitialCaps <= i < old(b).ndks_boot.slot_pos_cur implies #[trigger] provided(
            k@.slots,
            root,
            i,
        ) == provided(old(k)@.slots, root, i) by {
            assert(provided(k@.slots, root, i) == provided(k2.slots, root, i));
            assert(k2.slots[root + i] == k1.slots[root + i]);
            assert(k1.slots[root + i] == old(k)@.slots[root + i]);
        }
        assert(k@.requests =~= old(k)@.requests + image_requests(
            old(b).rootserver,
            ipcbuf_vptr,
            ui_reg,
            pv_offset,
        ));
    }
    ipcbuf_cap
}

/// What the kernel holds once boot has filled the root CNode and before it
/// makes the first thread.
pub open spec fn filled(
    old: KernelView,
    mid: KernelView,
    layout: rootserver_mem_t,
    ipcbuf_vptr: usize,
    bi_frame_vptr: usize,
    it_v_reg: v_region_t,
    extra_bi_size: usize,
    extra_bi_frame_vptr: usize,
    ui_reg: region_t,
    pv_offset: usize,
) -> bool {
    let root = slot_of(layout.cnode);
    let tcb = tcb_of(layout.tcb);
    &&& boot_ready(mid, root)
    &&& only_slots_and_requests(old, mid)
    &&& mid.slots.len() == old.slots.len()
    &&& tcb_ref_ok(tcb, mid.tcbs.len(), mid.slots.len())
    &&& tcb_cspace(tcb, 0) >= root + ROOT_CNODE_SLOTS
    &&& mid.slots[root + seL4_CapInitThreadCNode].cap == root_cnode_cap(root)
    &&& mid.slots[root + seL4_CapInitThreadVspace].cap == it_vspace_cap(layout)
    &&& mid.slots[root + seL4_CapIRQControl].cap == cap_t::IrqControlCap
    &&& mid.slots[root + seL4_CapASIDControl].cap == cap_t::ASIDControlCap
    &&& mid.slots[root + seL4_CapInitThreadASIDPool].cap == it_asid_pool_cap(layout)
    &&& mid.slots[root + seL4_CapBootInfoFrame].cap == mapped_frame_cap(
        layout.boot_info,
        bi_frame_vptr,
        IT_ASID,
        false,
    )
    &&& mid.slots[root + seL4_CapInitThreadIPCBuffer].cap == mapped_frame_cap(
        layout.ipc_buf,
        ipcbuf_vptr,
        IT_ASID,
        false,
    )
    &&& mid.slots[root + seL4_CapDomain].cap == cap_t::DomainCap
    &&& forall|i: int|
        0 <= i < old.slots.len() && !(root <= i < root + ROOT_CNODE_SLOTS) ==> #[trigger] mid.slots[i]
            == old.slots[i]
    &&& forall|i: int| 0 <= i < 5 ==> (#[trigger] mid.slots[tcb_cspace(tcb, 0) + i]) == cte_t::empty()
    &&& image_tables_provided(mid.slots, root, layout, it_v_reg)
    &&& image_frames_provided(
        mid.slots,
        root,
        layout,
        it_v_reg,
        extra_bi_size,
        extra_bi_frame_vptr,
        ui_reg,
        pv_offset,
    )
    &&& boot_slots_needed(layout, it_v_reg, extra_bi_size, ui_reg) <= ROOT_CNODE_SLOTS
    &&& v_region_ok(it_v_reg)
    &&& mid.requests == old.requests + boot_requests(
        layout,
        it_v_reg,
        ipcbuf_vptr,
        bi_frame_vptr,
        extra_bi_size,
        extra_bi_frame_vptr,
        ui_reg,
        pv_offset,
    )
}

/// A root CNode and a thread control block that are carved out of a region
/// which the two arenas cover lie in the arenas, the slots of the thread
/// behind those of the root CNode.
pub proof fn lemma_layout_in_arenas(layout: rootserver_mem_t, reg: region_t, nslots: nat, ntcbs: nat)
    requires
        aligned(layout.cnode as int, 18),
        aligned(layout.tcb as int, 10),
        0 < layout.cnode,
        layout.cnode + 0x4_0000 <= layout.tcb,
        layout.tcb + 0x400 <= reg.end,
        reg.end / 32 <= nslots,
        reg.end / 1024 <= ntcbs,
    ensures
        cap_ok(root_cnode_cap(slot_of(layout.cnode)), nslots, ntcbs),
        tcb_ref_ok(tcb_of(layout.tcb), ntcbs, nslots),
        tcb_cspace(tcb_of(layout.tcb), 0) >= slot_of(layout.cnode) + ROOT_CNODE_SLOTS,
{
    lemma_root_mask();
    lemma2_to64();
    lemma2_to64_rest();
    assert(layout.cnode % 0x4_0000 == 0);
    assert(layout.tcb % 0x400 == 0);
}

/// The three stages of filling the root CNode leave it filled.
pub proof fn lemma_filled(
    old: KernelView,
    k1: KernelView,
    k2: KernelView,
    k3: KernelView,
    layout: rootserver_mem_t,
    ipcbuf_vptr: usize,
    bi_frame_vptr: usize,
    it_v_reg: v_region_t,
    extra_bi_size: usize,
    extra_bi_frame_vptr: usize,
    ui_reg: region_t,
    pv_offset: usize,
)
    requires
        forall|i: int| 0 <= i < old.slots.len() ==> #[trigger] old.slots[i] == cte_t::empty(),
        v_region_ok(it_v_reg),
        boot_slots_needed(layout, it_v_reg, extra_bi_size, ui_reg) <= ROOT_CNODE_SLOTS,
        tcb_ref_ok(tcb_of(layout.tcb), old.tcbs.len(), old.slots.len()),
        tcb_cspace(tcb_of(layout.tcb), 0) >= slot_of(layout.cnode) + ROOT_CNODE_SLOTS,
        boot_ready(k3, slot_of(layout.cnode)),
        only_slots_and_requests(old, k1),
        only_slots_and_requests(k1, k2),
        only_slots_and_requests(k2, k3),
        range_kept(old.slots, k1.slots, slot_of(layout.cnode), 0, seL4_NumInitialCaps as int),
        range_kept(
            k1.slots,
            k2.slots,
            slot_of(layout.cnode),
            seL4_CapInitThreadVspace as int,
            ROOT_CNODE_SLOTS as int,
        ),
        range_kept(
            k2.slots,
            k3.slots,
            slot_of(layout.cnode),
            seL4_CapASIDControl as int,
            ROOT_CNODE_SLOTS as int,
        ),
        k1.slots[slot_of(layout.cnode) + seL4_CapInitThreadCNode].cap == root_cnode_cap(
            slot_of(layout.cnode),
        ),
        k1.slots[slot_of(layout.cnode) + seL4_CapDomain].cap == cap_t::DomainCap,
        k1.slots[slot_of(layout.cnode) + seL4_CapIRQControl].cap == cap_t::IrqControlCap,
        k2.slots[slot_of(layout.cnode) + seL4_CapIRQControl] == k1.slots[slot_of(layout.cnode)
            + seL4_CapIRQControl],
        k2.slots[slot_of(layout.cnode) + seL4_CapDomain] == k1.slots[slot_of(layout.cnode)
            + seL4_CapDomain],
        k2.slots[slot_of(layout.cnode) + seL4_CapInitThreadVspace].cap == it_vspace_cap(layout),
        k2.slots[slot_of(layout.cnode) + seL4_CapBootInfoFrame].cap == mapped_frame_cap(
            layout.boot_info,
            bi_frame_vptr,
            IT_ASID,
            false,
        ),
        k3.slots[slot_of(layout.cnode) + seL4_CapBootInfoFrame] == k2.slots[slot_of(layout.cnode)
            + seL4_CapBootInfoFrame],
        k3.slots[slot_of(layout.cnode) + seL4_CapDomain] == k2.slots[slot_of(layout.cnode)
            + seL4_CapDomain],
        k3.slots[slot_of(layout.cnode) + seL4_CapInitThreadIPCBuffer].cap == mapped_frame_cap(
            layout.ipc_buf,
            ipcbuf_vptr,
            IT_ASID,
            false,
        ),
        k3.slots[slot_of(layout.cnode) + seL4_CapASIDControl].cap == cap_t::ASIDControlCap,
        k3.slots[slot_of(layout.cnode) + seL4_CapInitThreadASIDPool].cap == it_asid_pool_cap(layout),
        image_tables_provided(k2.slots, slot_of(layout.cnode), layout, it_v_reg),
        frames_provided(
            k2.slots,
            slot_of(layout.cnode),
            seL4_NumInitialCaps + n_paging(it_v_reg),
            extra_bi_region(layout, extra_bi_size),
            true,
            extra_bi_pv_offset(layout, extra_bi_frame_vptr),
        ),
        frames_provided(
            k3.slots,
            slot_of(layout.cnode),
            seL4_NumInitialCaps + n_paging(it_v_reg) + frames_in(extra_bi_region(layout, extra_bi_size)),
            ui_reg,
            true,
            pv_offset,
        ),
        provided_kept(
            k2.slots,
            k3.slots,
            slot_of(layout.cnode),
            seL4_NumInitialCaps as int,
            seL4_NumInitialCaps + n_paging(it_v_reg) + frames_in(extra_bi_region(layout, extra_bi_size)),
        ),
        k1.requests == old.requests + fixed_requests(layout, extra_bi_size),
        k2.requests == k1.requests + address_space_requests(
            layout,
            it_v_reg,
            bi_frame_vptr,
            extra_bi_size,
            extra_bi_frame_vptr,
        ),
        k3.requests == k2.requests + image_requests(layout, ipcbuf_vptr, ui_reg, pv_offset),
    ensures
        filled(
            old,
            k3,
            layout,
            ipcbuf_vptr,
            bi_frame_vptr,
            it_v_reg,
            extra_bi_size,
            extra_bi_frame_vptr,
            ui_reg,
            pv_offset,
        ),
{
    lemma_root_mask();
    lemma_level_count(it_v_reg, 30, 0);
    lemma_level_count(it_v_reg, 21, 0);
    let root = slot_of(layout.cnode);
    let tcb = tcb_of(layout.tcb);
    assert(k2.slots[root + seL4_CapInitThreadCNode] == k1.slots[root + seL4_CapInitThreadCNode]);
    assert(k3.slots[root + seL4_CapInitThreadCNode] == k2.slots[root + seL4_CapInitThreadCNode]);
    assert(k3.slots[root + seL4_CapInitThreadVspace] == k2.slots[root + seL4_CapInitThreadVspace]);
    assert(k3.slots[root + seL4_CapIRQControl] == k2.slots[root + seL4_CapIRQControl]);
    assert forall|i: int| 0 <= i < old.slots.len() && !(root <= i < root + ROOT_CNODE_SLOTS) implies #[trigger] k3.slots[i]
        == old.slots[i] by {
        assert(k3.slots[i] == k2.slots[i]);
        assert(k2.slots[i] == k1.slots[i]);
    }
    assert forall|i: int| 0 <= i < 5 implies (#[trigger] k3.slots[tcb_cspace(tcb, 0) + i]) == cte_t::empty() by {
        assert(k3.slots[tcb_cspace(tcb, 0) + i] == old.slots[tcb_cspace(tcb, 0) + i]);
    }
    assert(image_tables_provided(k3.slots, root, layout, it_v_reg));
    assert(k3.requests =~= old.requests + boot_requests(
        layout,
        it_v_reg,
        ipcbuf_vptr,
        bi_frame_vptr,
        extra_bi_size,
        extra_bi_frame_vptr,
        ui_reg,
        pv_offset,
    ));
}

/// Making the first thread in a kernel whose root CNode is filled leaves the
/// kernel booted.
pub proof fn lemma_booted(
    old: KernelView,
    mid: KernelView,
    new: KernelView,
    layout: rootserver_mem_t,
    ipcbuf_vptr: usize,
    bi_frame_vptr: usize,
    v_entry: usize,
    it_v_reg: v_region_t,
    extra_bi_size: usize,
    extra_bi_frame_vptr: usize,
    ui_reg: region_t,
    pv_offset: usize,
)
    requires
        filled(
            old,
            mid,
            layout,
            ipcbuf_vptr,
            bi_frame_vptr,
            it_v_reg,
            extra_bi_size,
            extra_bi_frame_vptr,
            ui_reg,
            pv_offset,
        ),
        new.wf(),
        mid.ksDomScheduleIdx < mid.ksDomSchedule.len(),
        new == (KernelView {
            slots: initial_thread_slots(
                mid.slots,
                slot_of(layout.cnode),
                tcb_of(layout.tcb),
                root_cnode_cap(slot_of(layout.cnode)),
                it_vspace_cap(layout),
                mapped_frame_cap(layout.ipc_buf, ipcbuf_vptr, IT_ASID, false),
            ),
            tcbs: mid.tcbs.update(
                tcb_of(layout.tcb) as int,
                initial_tcb(mid.tcbs[tcb_of(layout.tcb) as int], v_entry, bi_frame_vptr, ipcbuf_vptr),
            ),
            ksCurDomain: mid.ksDomSchedule[mid.ksDomScheduleIdx as int].domain,
            ksDomainTime: mid.ksDomSchedule[mid.ksDomScheduleIdx as int].length,
            ..mid
        }),
    ensures
        booted(
            old,
            new,
            layout,
            ipcbuf_vptr,
            bi_frame_vptr,
            v_entry,
            it_v_reg,
            extra_bi_size,
            extra_bi_frame_vptr,
            ui_reg,
            pv_offset,
        ),
{
    lemma_root_mask();
    lemma_level_count(it_v_reg, 30, 0);
    lemma_level_count(it_v_reg, 21, 0);
    assert forall|i: int|
        seL4_NumInitialCaps <= i < ROOT_CNODE_SLOTS implies #[trigger] provided(
        new.slots,
        slot_of(layout.cnode),
        i,
    ) == provided(mid.slots, slot_of(layout.cnode), i) by {
        assert(unlinked(mid.slots[slot_of(layout.cnode) + i]));
    }
    let root = slot_of(layout.cnode);
    let tcb = tcb_of(layout.tcb);
    let ipcbuf_cap = mapped_frame_cap(layout.ipc_buf, ipcbuf_vptr, IT_ASID, false);
    let s0 = mid.slots;
    let s1 = insert_slots(
        s0,
        root_cnode_cap(root),
        (root + seL4_CapInitThreadCNode) as usize,
        tcb_cspace(tcb, tcbCTable) as usize,
    );
    let s2 = insert_slots(
        s1,
        it_vspace_cap(layout),
        (root + seL4_CapInitThreadVspace) as usize,
        tcb_cspace(tcb, tcbVTable) as usize,
    );
    let s3 = insert_slots(
        s2,
        derived_cap(s0, (root + seL4_CapInitThreadIPCBuffer) as usize, ipcbuf_cap),
        (root + seL4_CapInitThreadIPCBuffer) as usize,
        tcb_cspace(tcb, tcbBuffer) as usize,
    );
    assert(s0[tcb_cspace(tcb, 0) + 2] == cte_t::empty());
    assert(s0[tcb_cspace(tcb, 0) + 0] == cte_t::empty());
    assert(s0[tcb_cspace(tcb, 0) + 1] == cte_t::empty());
    assert(s0[tcb_cspace(tcb, 0) + 4] == cte_t::empty());
    assert(unlinked(s0[root + seL4_CapInitThreadCNode]));
    assert(unlinked(s0[root + seL4_CapInitThreadVspace]));
    assert(unlinked(s0[root + seL4_CapInitThreadIPCBuffer]));
    assert(s3[tcb_cspace(tcb, tcbReply)].cap is NullCap);
    assert forall|i: int|
        0 <= i < old.slots.len() && !(root <= i < root + ROOT_CNODE_SLOTS) && !(tcb_cspace(tcb, 0) <= i
            < tcb_cspace(tcb, 5)) implies #[trigger] new.slots[i] == old.slots[i] by {
        assert(mid.slots[i] == old.slots[i]);
        assert(unlinked(s0[i]));
    }
}

/// Boots the first thread: carves its objects out of free memory, fills the
/// root CNode with the first capabilities and makes the thread. Gives the
/// reference of the thread and the capability to the root CNode, or nothing
/// where no free region has room for the objects or the root CNode has too few
/// slots.
pub fn root_server_init(
    k: &mut Kernel,
    b: &mut boot_state_t,
    it_v_reg: v_region_t,
    extra_bi_size_bits: usize,
    ipcbuf_vptr: usize,
    bi_frame_vptr: usize,
    extra_bi_size: usize,
    extra_bi_frame_vptr: usize,
    ui_reg: region_t,
    pv_offset: usize,
    v_entry: usize,
) -> (r: Option<(usize, cap_t)>)
    requires
        boot_inputs_ok(old(k)@, *old(b), it_v_reg, extra_bi_size_bits, extra_bi_size, ui_reg),
    ensures
        final(k).wf(),
        match boot_plan(old(b).ndks_boot.freemem@, it_v_reg, extra_bi_size_bits) {
            None => r is None && final(k)@ == old(k)@,
            Some(layout) => {
                &&& final(b).ndks_boot.freemem@ == regions_carved(
                    old(b).ndks_boot.freemem@,
                    region_chosen(
                        old(b).ndks_boot.freemem@,
                        16,
                        rootserver_size(n_paging(it_v_reg), extra_bi_size_bits),
                        rootserver_align_bits(extra_bi_size_bits) as nat,
                    )->0,
                    rootserver_size(n_paging(it_v_reg), extra_bi_size_bits),
                    rootserver_align_bits(extra_bi_size_bits) as nat,
                )
                &&& layout_kept(layout, final(b).rootserver)
                &&& r is Some <==> boot_slots_needed(layout, it_v_reg, extra_bi_size, ui_reg)
                    <= ROOT_CNODE_SLOTS
                &&& r is Some ==> {
                    &&& r == Some((tcb_of(layout.tcb), root_cnode_cap(slot_of(layout.cnode))))
                    &&& booted(
                        old(k)@,
                        final(k)@,
                        layout,
                        ipcbuf_vptr,
                        bi_frame_vptr,
                        v_entry,
                        it_v_reg,
                        extra_bi_size,
                        extra_bi_frame_vptr,
                        ui_reg,
                        pv_offset,
                    )
                    &&& final(b).ndks_boot.slot_pos_cur == boot_slots_needed(
                        layout,
                        it_v_reg,
                        extra_bi_size,
                        ui_reg,
                    )
                    &&& final(b).ndks_boot.bi_frame == finished_boot_info(
                        old(b).ndks_boot.bi_frame,
                        old(k)@.ksDomSchedule[old(k)@.ksDomScheduleIdx as int].domain,
                        layout,
                        it_v_reg,
                        ipcbuf_vptr,
                        extra_bi_size,
                        ui_reg,
                    )
                }
            },
        },
{
    let ghost size = rootserver_size(n_paging(it_v_reg), extra_bi_size_bits);
    let ghost bits = rootserver_align_bits(extra_bi_size_bits) as nat;
    let ghost chosen = region_chosen(b.ndks_boot.freemem@, 16, size, bits);
    if !root_server_mem_init(b, it_v_reg, extra_bi_size_bits) {
        return None;
    }
    let ghost c = chosen->0;
    let ghost layout = b.rootserver;
    let ghost root = slot_of(layout.cnode);
    let ghost tcb = tcb_of(layout.tcb);
    let ghost reg = old(b).ndks_boot.freemem@[c];
    proof {
        assert(reg.end / 32 <= k@.slots.len() && reg.end / 1024 <= k@.tcbs.len());
        lemma_layout_in_arenas(layout, reg, k@.slots.len(), k@.tcbs.len());
        assert(boot_ready(k@, root));
    }
    let root_cnode_cap = boot_fixed_caps(k, b, ipcbuf_vptr, extra_bi_size);
    match root_cnode_cap {
        cap_t::NullCap => {
            return None;
        },
        _ => {},
    }
    let ghost k1 = k@;
    let it_pd_cap = boot_address_space(
        k,
        b,
        &root_cnode_cap,
        it_v_reg,
        bi_frame_vptr,
        extra_bi_size,
        extra_bi_frame_vptr,
    );
    match it_pd_cap {
        cap_t::NullCap => {
            return None;
        },
        _ => {},
    }
    let ghost k2 = k@;
    proof {
        lemma_level_count(it_v_reg, 30, 0);
        lemma_level_count(it_v_reg, 21, 0);
    }
    let ipcbuf_cap = boot_image_caps(k, b, &root_cnode_cap, &it_pd_cap, ipcbuf_vptr, ui_reg, pv_offset);
    match ipcbuf_cap {
        cap_t::NullCap => {
            return None;
        },
        _ => {},
    }
    let ghost k3 = k@;
    proof {
        lemma_filled(
            old(k)@,
            k1,
            k2,
            k3,
            layout,
            ipcbuf_vptr,
            bi_frame_vptr,
            it_v_reg,
            extra_bi_size,
            extra_bi_frame_vptr,
            ui_reg,
            pv_offset,
        );
    }
    let initial = create_initial_thread(
        k,
        b,
        &root_cnode_cap,
        &it_pd_cap,
        v_entry,
        bi_frame_vptr,
        ipcbuf_vptr,
        ipcbuf_cap,
    );
    if initial == 0 {
        return None;
    }
    proof {
        lemma_booted(
            old(k)@,
            k3,
            k@,
            layout,
            ipcbuf_vptr,
            bi_frame_vptr,
            v_entry,
            it_v_reg,
            extra_bi_size,
            extra_bi_frame_vptr,
            ui_reg,
            pv_offset,
        );
    }
    Some((initial, root_cnode_cap))
}

} // verus!
