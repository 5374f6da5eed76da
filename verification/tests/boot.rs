use rel4_kernel::boot::{
    alloc_rootserver_obj, arch_get_n_paging, asid_init, boot_state_t, calculate_extra_bi_size_bits,
    calculate_rootserver_size, create_bi_frame_cap, create_domain_cap, create_frame_ui_frames,
    create_initial_thread, create_ipcbuf_frame_cap, create_it_pt_cap, create_root_cnode,
    create_rootserver_objects, init_bi_frame_cap, init_irqs, is_reg_empty, it_alloc_paging,
    pptr_to_paddr, provide_cap, root_server_init, root_server_mem_init, rootserver_max_size_bits,
    rust_create_frames_of_region, rust_create_it_address_space, rust_create_mapped_it_frame_cap,
    rust_create_unmapped_it_frame_cap, rust_populate_bi_frame, setupReplyMaster, write_slot, BIT,
    ROUND_DOWN, ROUND_UP,
};
use rel4_kernel::cap::cap_t;
use rel4_kernel::kernel::{request_t, Kernel};
use rel4_kernel::structures::{
    cte_t, dschedule_t, mdb_node_t, ndks_boot_t, p_region_t, region_t, rootserver_mem_t,
    seL4_BootInfo, seL4_SlotRegion, seL4_UntypedDesc, v_region_t,
};

const ROOT: usize = 49152;
const TCB: usize = 1816;
const TCB_SLOTS: usize = 58112;

fn blank_boot_info() -> seL4_BootInfo {
    let none = seL4_SlotRegion { start: 0, end: 0 };
    seL4_BootInfo {
        extraLen: 0,
        nodeID: 0,
        numNodes: 0,
        numIOPTLevels: 0,
        ipcBuffer: 0,
        empty: none,
        sharedFrames: none,
        userImageFrames: none,
        userImagePaging: none,
        ioSpaceCaps: none,
        extraBIPages: none,
        initThreadCNodeSizeBits: 0,
        initThreadDomain: 0,
        untyped: none,
        untypedList: [seL4_UntypedDesc { paddr: 0, sizeBits: 0, isDevice: 0, padding: [0; 6] }; 230],
    }
}

fn boot_state(regions: &[(usize, usize)]) -> boot_state_t {
    let mut freemem = [region_t { start: 0, end: 0 }; 16];
    for (i, r) in regions.iter().enumerate() {
        freemem[i] = region_t { start: r.0, end: r.1 };
    }
    boot_state_t {
        ndks_boot: ndks_boot_t {
            reserved: [p_region_t { start: 0, end: 0 }; 18],
            resv_count: 0,
            freemem,
            bi_frame: blank_boot_info(),
            slot_pos_cur: 0,
        },
        rootserver: rootserver_mem_t {
            cnode: 0,
            vspace: 0,
            asid_pool: 0,
            ipc_buf: 0,
            boot_info: 0,
            extra_bi: 0,
            tcb: 0,
            paging: region_t { start: 0, end: 0 },
        },
        rootserver_mem: region_t { start: 0, end: 0 },
    }
}

fn kernel() -> Kernel {
    Kernel::new(65536, 2048, 100, dschedule_t { domain: 0, length: 7 })
}

fn image() -> v_region_t {
    v_region_t { start: 0x10000, end: 0x20000 }
}

fn root_cap() -> cap_t {
    cap_t::CNodeCap { capCNodePtr: ROOT, capCNodeRadix: 13, capCNodeGuardSize: 51, capCNodeGuard: 0 }
}

fn mapped_frame(pptr: usize, vptr: usize) -> cap_t {
    cap_t::FrameCap {
        capFBasePtr: pptr,
        capFSize: 0,
        capFVMRights: 3,
        capFMappedASID: 1,
        capFMappedAddress: vptr,
        capFIsDevice: false,
    }
}

fn table(pptr: usize, vptr: usize) -> cap_t {
    cap_t::PageTableCap {
        capPTBasePtr: pptr,
        capPTIsMapped: true,
        capPTMappedASID: 1,
        capPTMappedAddress: vptr,
    }
}

fn boot_link() -> mdb_node_t {
    mdb_node_t { mdbNext: 0, mdbRevocable: true, mdbFirstBadged: true, mdbPrev: 0 }
}

#[test]
fn powers_and_rounding() {
    assert_eq!(BIT(0), 1);
    assert_eq!(BIT(12), 4096);
    assert_eq!(BIT(63), 1 << 63);
    assert_eq!(ROUND_DOWN(0x1B9C00, 18), 0x180000);
    assert_eq!(ROUND_DOWN(0x180000, 18), 0x180000);
    assert_eq!(ROUND_UP(0x20000, 21), 0x200000);
    assert_eq!(ROUND_UP(0x200000, 21), 0x200000);
    assert_eq!(ROUND_UP(0, 30), 0);
    assert!(is_reg_empty(&region_t { start: 5, end: 5 }));
    assert!(!is_reg_empty(&region_t { start: 5, end: 6 }));
}

#[test]
fn page_tables_covering_the_image() {
    assert_eq!(arch_get_n_paging(image()), 2);
    // two regions of 1 GiB, three of 2 MiB
    let wide = v_region_t { start: 0x3FF0_0000, end: 0x4030_0001 };
    assert_eq!(arch_get_n_paging(wide), 2 + 3);
    // even an empty region counts the tables its address lies in
    assert_eq!(arch_get_n_paging(v_region_t { start: 0x1000, end: 0x1000 }), 2);
    assert_eq!(arch_get_n_paging(v_region_t { start: 0, end: 0 }), 0);
}

#[test]
fn size_of_the_root_server_region() {
    assert_eq!(calculate_rootserver_size(image(), 0), 0x46400);
    assert_eq!(calculate_rootserver_size(image(), 12), 0x47400);
    assert_eq!(calculate_rootserver_size(image(), 20), 0x146400);
    assert_eq!(rootserver_max_size_bits(0), 18);
    assert_eq!(rootserver_max_size_bits(12), 18);
    assert_eq!(rootserver_max_size_bits(18), 18);
    assert_eq!(rootserver_max_size_bits(20), 20);
}

#[test]
fn size_bits_of_the_extra_boot_info() {
    assert_eq!(calculate_extra_bi_size_bits(0), 0);
    assert_eq!(calculate_extra_bi_size_bits(1), 12);
    assert_eq!(calculate_extra_bi_size_bits(4096), 12);
    assert_eq!(calculate_extra_bi_size_bits(4097), 13);
    assert_eq!(calculate_extra_bi_size_bits(8192), 13);
    assert_eq!(calculate_extra_bi_size_bits(9000), 14);
}

#[test]
fn physical_addresses() {
    assert_eq!(pptr_to_paddr(0xFFFF_FFC0_8000_0000), 0x8000_0000);
    assert_eq!(pptr_to_paddr(0x10000), 0x40_0001_0000);
}

#[test]
fn objects_are_laid_out_largest_first() {
    let mut b = boot_state(&[]);
    create_rootserver_objects(&mut b, 0x180000, image(), 0);
    assert_eq!(
        b.rootserver,
        rootserver_mem_t {
            cnode: 0x180000,
            vspace: 0x1C0000,
            asid_pool: 0x1C1000,
            ipc_buf: 0x1C2000,
            boot_info: 0x1C3000,
            extra_bi: 0,
            tcb: 0x1C6000,
            paging: region_t { start: 0x1C4000, end: 0x1C6000 },
        }
    );
    assert_eq!(b.rootserver_mem, region_t { start: 0x1C6400, end: 0x1C6400 });
    // extra boot info of a page: behind the root CNode
    let mut b = boot_state(&[]);
    create_rootserver_objects(&mut b, 0x180000, image(), 12);
    assert_eq!(b.rootserver.cnode, 0x180000);
    assert_eq!(b.rootserver.extra_bi, 0x1C0000);
    assert_eq!(b.rootserver.vspace, 0x1C1000);
    assert_eq!(b.rootserver.tcb, 0x1C7000);
    // extra boot info of 1 MiB: in front of the root CNode
    let mut b = boot_state(&[]);
    create_rootserver_objects(&mut b, 0x200000, image(), 20);
    assert_eq!(b.rootserver.extra_bi, 0x200000);
    assert_eq!(b.rootserver.cnode, 0x300000);
    assert_eq!(b.rootserver.vspace, 0x340000);
    assert_eq!(b.rootserver.tcb, 0x346000);
    assert_eq!(b.rootserver_mem.start, 0x346400);
}

#[test]
fn bump_allocation() {
    let mut b = boot_state(&[]);
    b.rootserver_mem = region_t { start: 0x4000, end: 0x8000 };
    assert_eq!(alloc_rootserver_obj(&mut b, 12, 2), 0x4000);
    assert_eq!(alloc_rootserver_obj(&mut b, 10, 1), 0x6000);
    assert_eq!(b.rootserver_mem, region_t { start: 0x6400, end: 0x8000 });
    b.rootserver.paging = region_t { start: 0x9000, end: 0xB000 };
    assert_eq!(it_alloc_paging(&mut b), 0x9000);
    assert_eq!(it_alloc_paging(&mut b), 0xA000);
    assert_eq!(b.rootserver.paging, region_t { start: 0xB000, end: 0xB000 });
}

#[test]
fn carving_splits_the_region() {
    let mut b = boot_state(&[(0x100000, 0x200000)]);
    assert!(root_server_mem_init(&mut b, image(), 0));
    assert_eq!(b.rootserver.cnode, 0x180000);
    assert_eq!(b.rootserver.tcb, 0x1C6000);
    assert_eq!(b.ndks_boot.freemem[0], region_t { start: 0x100000, end: 0x180000 });
    assert_eq!(b.ndks_boot.freemem[1], region_t { start: 0x1C6400, end: 0x200000 });
    assert_eq!(b.ndks_boot.freemem[2], region_t { start: 0, end: 0 });
}

#[test]
fn carving_takes_the_highest_region_that_fits() {
    let mut b = boot_state(&[(0x100000, 0x200000), (0x300000, 0x310000), (0x400000, 0x500000)]);
    assert!(root_server_mem_init(&mut b, image(), 0));
    assert_eq!(b.rootserver.cnode, 0x480000);
    assert_eq!(b.ndks_boot.freemem[0], region_t { start: 0x100000, end: 0x200000 });
    assert_eq!(b.ndks_boot.freemem[1], region_t { start: 0x300000, end: 0x310000 });
    assert_eq!(b.ndks_boot.freemem[2], region_t { start: 0x400000, end: 0x480000 });
    assert_eq!(b.ndks_boot.freemem[3], region_t { start: 0x4C6400, end: 0x500000 });
    // a region that is too small is shuffled up
    let mut b = boot_state(&[(0x100000, 0x200000), (0x300000, 0x310000)]);
    assert!(root_server_mem_init(&mut b, image(), 0));
    assert_eq!(b.rootserver.cnode, 0x180000);
    assert_eq!(b.ndks_boot.freemem[0], region_t { start: 0x100000, end: 0x180000 });
    assert_eq!(b.ndks_boot.freemem[1], region_t { start: 0x1C6400, end: 0x200000 });
    assert_eq!(b.ndks_boot.freemem[2], region_t { start: 0x300000, end: 0x310000 });
}

#[test]
fn carving_fails_without_room() {
    let mut b = boot_state(&[(0x100000, 0x140000), (0x300000, 0x310000)]);
    assert!(!root_server_mem_init(&mut b, image(), 0));
    assert_eq!(b.rootserver.cnode, 0);
    assert_eq!(b.ndks_boot.freemem[0], region_t { start: 0, end: 0 });
    assert_eq!(b.ndks_boot.freemem[1], region_t { start: 0x100000, end: 0x140000 });
    assert_eq!(b.ndks_boot.freemem[2], region_t { start: 0x300000, end: 0x310000 });
    let mut b = boot_state(&[]);
    assert!(!root_server_mem_init(&mut b, image(), 0));
}

#[test]
fn slots_are_provided_in_order() {
    let mut k = kernel();
    let mut b = boot_state(&[]);
    b.ndks_boot.slot_pos_cur = 8190;
    let cap = rust_create_unmapped_it_frame_cap(0x5000, false);
    assert!(provide_cap(&mut k, &mut b, &root_cap(), cap));
    assert!(provide_cap(&mut k, &mut b, &root_cap(), cap));
    assert!(!provide_cap(&mut k, &mut b, &root_cap(), cap));
    assert_eq!(b.ndks_boot.slot_pos_cur, 8192);
    assert_eq!(k.slots[ROOT + 8190], cte_t { cap, cteMDBNode: boot_link() });
    assert_eq!(k.slots[ROOT + 8191].cap, cap);
    assert_eq!(
        cap,
        cap_t::FrameCap {
            capFBasePtr: 0x5000,
            capFSize: 0,
            capFVMRights: 0,
            capFMappedASID: 0,
            capFMappedAddress: 0,
            capFIsDevice: false,
        }
    );
    write_slot(&mut k, ROOT + 5, cap_t::DomainCap);
    assert_eq!(k.slots[ROOT + 5], cte_t { cap: cap_t::DomainCap, cteMDBNode: boot_link() });
}

#[test]
fn frames_of_a_region() {
    let mut k = kernel();
    let mut b = boot_state(&[]);
    b.ndks_boot.slot_pos_cur = 12;
    let pd = table(0x1C0000, 0x1C0000);
    let reg = region_t { start: 0x300000, end: 0x302001 };
    let ret = rust_create_frames_of_region(&mut k, &mut b, &root_cap(), &pd, reg, true, 0x2f0000);
    assert!(ret.success);
    assert_eq!(ret.region, seL4_SlotRegion { start: 12, end: 15 });
    assert_eq!(b.ndks_boot.slot_pos_cur, 15);
    for j in 0..3 {
        let f = 0x300000 + j * 0x1000;
        let vptr = 0x40_0000_0000 + 0x10000 + j * 0x1000;
        assert_eq!(k.slots[ROOT + 12 + j].cap, mapped_frame(f, vptr));
        assert_eq!(k.requests[j], request_t::MapFrame { vspace: 0x1C0000, frame: f, vptr });
    }
    assert_eq!(k.slots[ROOT + 15], cte_t::default());
    // frames that are not mapped
    let ret = rust_create_frames_of_region(&mut k, &mut b, &root_cap(), &pd, reg, false, 0);
    assert_eq!(ret.region, seL4_SlotRegion { start: 15, end: 18 });
    assert_eq!(k.slots[ROOT + 16].cap, rust_create_unmapped_it_frame_cap(0x301000, false));
    assert_eq!(k.requests.len(), 3);
    // too many frames for what is left of the root CNode
    b.ndks_boot.slot_pos_cur = 8191;
    let ret = rust_create_frames_of_region(&mut k, &mut b, &root_cap(), &pd, reg, false, 0);
    assert!(!ret.success);
    assert_eq!(ret.region, seL4_SlotRegion { start: 0, end: 0 });
    // an empty region needs no slot
    let none = region_t { start: 0x300000, end: 0x300000 };
    let ret = rust_create_frames_of_region(&mut k, &mut b, &root_cap(), &pd, none, true, 0);
    assert!(ret.success);
    assert_eq!(ret.region, seL4_SlotRegion { start: 8192, end: 8192 });
}

#[test]
fn mapped_caps_ask_for_their_mapping() {
    let mut k = kernel();
    let pd = table(0x1C0000, 0x1C0000);
    let cap = rust_create_mapped_it_frame_cap(&mut k, &pd, 0x5000, 0x40_0000, 1, false, true);
    assert_eq!(cap, mapped_frame(0x5000, 0x40_0000));
    let large = rust_create_mapped_it_frame_cap(&mut k, &pd, 0x20_0000, 0x60_0000, 1, true, true);
    assert_eq!(
        large,
        cap_t::FrameCap {
            capFBasePtr: 0x20_0000,
            capFSize: 1,
            capFVMRights: 3,
            capFMappedASID: 1,
            capFMappedAddress: 0x60_0000,
            capFIsDevice: false,
        }
    );
    let pt = create_it_pt_cap(&mut k, &pd, 0x1C4000, 0x4000_0000, 1);
    assert_eq!(pt, table(0x1C4000, 0x4000_0000));
    assert_eq!(
        k.requests,
        vec![
            request_t::MapFrame { vspace: 0x1C0000, frame: 0x5000, vptr: 0x40_0000 },
            request_t::MapFrame { vspace: 0x1C0000, frame: 0x20_0000, vptr: 0x60_0000 },
            request_t::MapPageTable { vspace: 0x1C0000, pt: 0x1C4000, vptr: 0x4000_0000 },
        ]
    );
}

#[test]
fn boot_steps_fill_their_slots() {
    let mut k = kernel();
    let mut b = boot_state(&[(0x100000, 0x200000)]);
    assert!(root_server_mem_init(&mut b, image(), 0));
    let root = create_root_cnode(&mut k, &b);
    assert_eq!(root, root_cap());
    assert_eq!(k.slots[ROOT + 2], cte_t { cap: root, cteMDBNode: boot_link() });
    create_domain_cap(&mut k, &root);
    assert_eq!(k.slots[ROOT + 11].cap, cap_t::DomainCap);
    init_irqs(&mut k, &root);
    assert_eq!(k.slots[ROOT + 4].cap, cap_t::IrqControlCap);
    assert_eq!(k.requests.len(), 55);
    assert_eq!(k.requests[0], request_t::SetIRQState { state: 0, irq: 1 });
    assert_eq!(k.requests[53], request_t::SetIRQState { state: 0, irq: 54 });
    assert_eq!(k.requests[54], request_t::SetIRQState { state: 2, irq: 54 });
    rust_populate_bi_frame(&mut k, &mut b, 0, 1, 0x21000, 5000);
    assert_eq!(b.ndks_boot.slot_pos_cur, 12);
    assert_eq!(b.ndks_boot.bi_frame.ipcBuffer, 0x21000);
    assert_eq!(b.ndks_boot.bi_frame.numNodes, 1);
    assert_eq!(b.ndks_boot.bi_frame.extraLen, 5000);
    assert_eq!(b.ndks_boot.bi_frame.initThreadCNodeSizeBits, 13);
    assert_eq!(k.requests[55], request_t::ClearMemory { ptr: 0x1C3000, bits: 12 });
    assert_eq!(k.requests[56], request_t::ClearMemory { ptr: 0, bits: 13 });
    let pd = rust_create_it_address_space(&mut k, &mut b, &root, image());
    assert_eq!(pd, table(0x1C0000, 0x1C0000));
    assert_eq!(k.slots[ROOT + 3].cap, pd);
    assert_eq!(k.slots[ROOT + 12].cap, table(0x1C4000, 0));
    assert_eq!(k.slots[ROOT + 13].cap, table(0x1C5000, 0));
    assert_eq!(b.ndks_boot.bi_frame.userImagePaging, seL4_SlotRegion { start: 12, end: 14 });
    assert_eq!(b.rootserver.paging, region_t { start: 0x1C6000, end: 0x1C6000 });
    assert_eq!(k.requests[57], request_t::CopyGlobalMappings { vspace: 0x1C0000 });
    assert_eq!(k.requests[58], request_t::MapPageTable { vspace: 0x1C0000, pt: 0x1C4000, vptr: 0 });
    create_bi_frame_cap(&mut k, &b, &root, &pd, 0x22000);
    assert_eq!(k.slots[ROOT + 9].cap, mapped_frame(0x1C3000, 0x22000));
    let ipcbuf = create_ipcbuf_frame_cap(&mut k, &b, &root, &pd, 0x21000);
    assert_eq!(ipcbuf, mapped_frame(0x1C2000, 0x21000));
    assert_eq!(k.slots[ROOT + 10].cap, ipcbuf);
    let ui = region_t { start: 0x300000, end: 0x302000 };
    assert!(create_frame_ui_frames(&mut k, &mut b, &root, &pd, ui, 0x2f0000));
    assert_eq!(b.ndks_boot.bi_frame.userImageFrames, seL4_SlotRegion { start: 14, end: 16 });
    assert!(asid_init(&mut k, &b, &root, &pd));
    assert_eq!(k.slots[ROOT + 5].cap, cap_t::ASIDControlCap);
    assert_eq!(k.slots[ROOT + 6].cap, cap_t::ASIDPoolCap { capASIDBase: 0, capASIDPool: 0x1C1000 });
    assert_eq!(
        k.requests.last(),
        Some(&request_t::WriteASIDPool { pool: 0x1C1000, asid: 1, vspace: 0x1C0000 })
    );
    let tcb = create_initial_thread(&mut k, &b, &root, &pd, 0x10400, 0x22000, 0x21000, ipcbuf);
    assert_eq!(tcb, TCB);
    assert_eq!(k.slots[ROOT + 1].cap, cap_t::ThreadCap { capTCBPtr: TCB });
    assert_eq!(k.tcbs[TCB].tcbState.tsType, 1);
}

#[test]
fn extra_boot_info_is_mapped_behind_the_boot_info() {
    let mut k = kernel();
    let mut b = boot_state(&[(0x100000, 0x200000)]);
    assert!(root_server_mem_init(&mut b, image(), 13));
    assert_eq!(b.rootserver.extra_bi, 0x1C0000);
    let root = create_root_cnode(&mut k, &b);
    rust_populate_bi_frame(&mut k, &mut b, 0, 1, 0x21000, 5000);
    let pd = table(b.rootserver.vspace, b.rootserver.vspace);
    k.requests.clear();
    assert!(init_bi_frame_cap(&mut k, &mut b, &root, &pd, 0x22000, 5000, 0x23000));
    assert_eq!(k.slots[ROOT + 9].cap, mapped_frame(b.rootserver.boot_info, 0x22000));
    assert_eq!(b.ndks_boot.bi_frame.extraBIPages, seL4_SlotRegion { start: 12, end: 14 });
    // frame j of the extra boot info is seen at the given address plus j pages
    assert_eq!(k.slots[ROOT + 12].cap, mapped_frame(0x1C0000, 0x23000));
    assert_eq!(k.slots[ROOT + 13].cap, mapped_frame(0x1C1000, 0x24000));
    assert_eq!(k.requests.len(), 3);
}

#[test]
fn reply_master_is_set_up_once() {
    let mut k = kernel();
    setupReplyMaster(&mut k, 5);
    let master = cap_t::ReplyCap { capTCBPtr: 5, capReplyMaster: true, capReplyCanGrant: true };
    assert_eq!(k.slots[5 * 32 + 2], cte_t { cap: master, cteMDBNode: boot_link() });
    k.slots[5 * 32 + 2].cap = cap_t::ReplyCap { capTCBPtr: 5, capReplyMaster: false, capReplyCanGrant: false };
    let before = k.slots[5 * 32 + 2];
    setupReplyMaster(&mut k, 5);
    assert_eq!(k.slots[5 * 32 + 2], before);
}

#[test]
fn the_first_thread_is_booted() {
    let mut k = kernel();
    let mut b = boot_state(&[(0x100000, 0x200000)]);
    let ui = region_t { start: 0x300000, end: 0x304000 };
    let r = root_server_init(&mut k, &mut b, image(), 0, 0x21000, 0x22000, 0, 0x23000, ui, 0x2f0000, 0x10400);
    assert_eq!(r, Some((TCB, root_cap())));
    let pd = table(0x1C0000, 0x1C0000);
    let ipcbuf = mapped_frame(0x1C2000, 0x21000);
    assert_eq!(k.slots[ROOT + 1].cap, cap_t::ThreadCap { capTCBPtr: TCB });
    assert_eq!(k.slots[ROOT + 2].cap, root_cap());
    assert_eq!(k.slots[ROOT + 3].cap, pd);
    assert_eq!(k.slots[ROOT + 4].cap, cap_t::IrqControlCap);
    assert_eq!(k.slots[ROOT + 5].cap, cap_t::ASIDControlCap);
    assert_eq!(k.slots[ROOT + 6].cap, cap_t::ASIDPoolCap { capASIDBase: 0, capASIDPool: 0x1C1000 });
    assert_eq!(k.slots[ROOT + 7], cte_t::default());
    assert_eq!(k.slots[ROOT + 9].cap, mapped_frame(0x1C3000, 0x22000));
    assert_eq!(k.slots[ROOT + 10].cap, ipcbuf);
    assert_eq!(k.slots[ROOT + 11].cap, cap_t::DomainCap);
    assert_eq!(k.slots[ROOT + 12].cap, table(0x1C4000, 0));
    assert_eq!(k.slots[ROOT + 13].cap, table(0x1C5000, 0));
    for j in 0..4 {
        let vptr = 0x40_0000_0000 + 0x10000 + j * 0x1000;
        assert_eq!(k.slots[ROOT + 14 + j].cap, mapped_frame(0x300000 + j * 0x1000, vptr));
    }
    assert_eq!(k.slots[ROOT + 18], cte_t::default());
    assert_eq!(b.ndks_boot.slot_pos_cur, 18);
    assert_eq!(b.ndks_boot.bi_frame.userImagePaging, seL4_SlotRegion { start: 12, end: 14 });
    assert_eq!(b.ndks_boot.bi_frame.userImageFrames, seL4_SlotRegion { start: 14, end: 18 });
    assert_eq!(b.ndks_boot.bi_frame.initThreadDomain, 0);
    assert_eq!(b.ndks_boot.bi_frame.numNodes, 1);
    assert_eq!(b.ndks_boot.bi_frame.ipcBuffer, 0x21000);
    assert_eq!(b.ndks_boot.bi_frame.initThreadCNodeSizeBits, 13);
    assert_eq!(b.ndks_boot.bi_frame.extraLen, 0);
    assert_eq!(b.ndks_boot.bi_frame.extraBIPages, seL4_SlotRegion { start: 0, end: 0 });
    // the thread's own slots
    assert_eq!(k.slots[TCB_SLOTS].cap, root_cap());
    assert_eq!(k.slots[TCB_SLOTS + 1].cap, pd);
    assert_eq!(
        k.slots[TCB_SLOTS + 2].cap,
        cap_t::ReplyCap { capTCBPtr: TCB, capReplyMaster: true, capReplyCanGrant: true }
    );
    assert_eq!(k.slots[TCB_SLOTS + 3], cte_t::default());
    assert_eq!(
        k.slots[TCB_SLOTS + 4].cap,
        cap_t::FrameCap {
            capFBasePtr: 0x1C2000,
            capFSize: 0,
            capFVMRights: 3,
            capFMappedASID: 0,
            capFMappedAddress: 0,
            capFIsDevice: false,
        }
    );
    // the copies stand behind their sources in the list
    assert_eq!(k.slots[ROOT + 2].cteMDBNode.mdbNext, TCB_SLOTS);
    assert_eq!(k.slots[TCB_SLOTS].cteMDBNode.mdbPrev, ROOT + 2);
    assert_eq!(k.slots[ROOT + 10].cteMDBNode.mdbNext, TCB_SLOTS + 4);
    // the thread
    let tcb = &k.tcbs[TCB];
    assert_eq!(tcb.tcbState.tsType, 1);
    assert_eq!(tcb.tcbPriority, 255);
    assert_eq!(tcb.tcbMCP, 255);
    assert_eq!(tcb.tcbTimeSlice, 5);
    assert_eq!(tcb.tcbIPCBuffer, 0x21000);
    assert_eq!(tcb.tcbArch.registers[9], 0x22000);
    assert_eq!(tcb.tcbArch.registers[34], 0x10400);
    assert_eq!(tcb.tcbArch.registers[32], 0x0004_0020);
    assert_eq!(k.ksCurDomain, 0);
    assert_eq!(k.ksDomainTime, 7);
    assert_eq!(k.requests.len(), 55 + 1 + 1 + 2 + 1 + 2 + 4 + 1);
    assert_eq!(k.requests[55], request_t::ClearMemory { ptr: 0x1C3000, bits: 12 });
    assert_eq!(
        k.requests.last(),
        Some(&request_t::WriteASIDPool { pool: 0x1C1000, asid: 1, vspace: 0x1C0000 })
    );
    assert_eq!(b.ndks_boot.freemem[0], region_t { start: 0x100000, end: 0x180000 });
    assert_eq!(b.ndks_boot.freemem[1], region_t { start: 0x1C6400, end: 0x200000 });
}

#[test]
fn boot_fails_without_memory_or_slots() {
    let mut k = kernel();
    let mut b = boot_state(&[(0x100000, 0x140000)]);
    let ui = region_t { start: 0x300000, end: 0x304000 };
    let r = root_server_init(&mut k, &mut b, image(), 0, 0x21000, 0x22000, 0, 0x23000, ui, 0x2f0000, 0x10400);
    assert_eq!(r, None);
    assert!(k.slots.iter().all(|c| *c == cte_t::default()));
    assert!(k.requests.is_empty());
    // an image of more frames than the root CNode has slots
    let mut k = kernel();
    let mut b = boot_state(&[(0x100000, 0x200000)]);
    let ui = region_t { start: 0x300000, end: 0x300000 + 8200 * 0x1000 };
    let r = root_server_init(&mut k, &mut b, image(), 0, 0x21000, 0x22000, 0, 0x23000, ui, 0x2f0000, 0x10400);
    assert_eq!(r, None);
    // one that just fits: 12 well-known slots, 2 page tables, 8178 frames
    let mut k = kernel();
    let mut b = boot_state(&[(0x100000, 0x200000)]);
    let ui = region_t { start: 0x300000, end: 0x300000 + 8178 * 0x1000 };
    let r = root_server_init(&mut k, &mut b, image(), 0, 0x21000, 0x22000, 0, 0x23000, ui, 0x2f0000, 0x10400);
    assert_eq!(r, Some((TCB, root_cap())));
    assert_eq!(b.ndks_boot.slot_pos_cur, 8192);
}
