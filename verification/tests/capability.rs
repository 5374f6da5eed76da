use rel4_kernel::cap::{
    cap_capType_equals, cap_get_capIsPhysical, cap_get_capPtr, cap_get_capSizeBits,
    cap_get_capType, cap_t, isArchCap, pageBitsForSize, MASK,
};
use rel4_kernel::cap_rights::{
    rightsFromWord, seL4_CapRights_get_capAllowGrant, seL4_CapRights_get_capAllowGrantReply,
    seL4_CapRights_get_capAllowRead, seL4_CapRights_get_capAllowWrite, seL4_CapRights_t,
    wordFromRights,
};
use rel4_kernel::objecttype::{
    hasCancelSendRight, isCapRevocable, maskCapRights, maskVMRights, sameObjectAs, updateCapData,
};

fn endpoint(ptr: usize, badge: u64) -> cap_t {
    cap_t::EndpointCap {
        capEPPtr: ptr,
        capEPBadge: badge,
        capCanGrantReply: true,
        capCanGrant: true,
        capCanSend: true,
        capCanReceive: true,
    }
}

fn frame(base: usize, rights: usize) -> cap_t {
    cap_t::FrameCap {
        capFBasePtr: base,
        capFSize: 0,
        capFVMRights: rights,
        capFMappedASID: 0,
        capFMappedAddress: 0,
        capFIsDevice: false,
    }
}

fn cnode(ptr: usize, radix: usize, guard_size: usize, guard: u64) -> cap_t {
    cap_t::CNodeCap {
        capCNodePtr: ptr,
        capCNodeRadix: radix,
        capCNodeGuardSize: guard_size,
        capCNodeGuard: guard,
    }
}

fn rights(read: bool, write: bool, grant: bool, grant_reply: bool) -> seL4_CapRights_t {
    seL4_CapRights_t {
        capAllowGrantReply: grant_reply,
        capAllowGrant: grant,
        capAllowRead: read,
        capAllowWrite: write,
    }
}

#[test]
fn tags_have_their_numbers() {
    assert_eq!(cap_get_capType(&cap_t::NullCap), 0);
    assert_eq!(cap_get_capType(&endpoint(16, 0)), 4);
    assert_eq!(cap_get_capType(&cnode(8, 4, 0, 0)), 10);
    assert_eq!(cap_get_capType(&cap_t::ThreadCap { capTCBPtr: 2 }), 12);
    assert_eq!(cap_get_capType(&frame(0x1000, 3)), 1);
    assert_eq!(cap_get_capType(&cap_t::DomainCap), 20);
    assert_eq!(
        cap_get_capType(&cap_t::ZombieCap { capZombiePtr: 8, capZombieType: 4, capZombieNumber: 16 }),
        18
    );
    assert!(cap_capType_equals(&cap_t::IrqControlCap, 14));
    assert!(!cap_capType_equals(&cap_t::IrqControlCap, 16));
}

#[test]
fn arch_caps_are_the_odd_tags() {
    assert!(isArchCap(&frame(0x1000, 3)));
    assert!(isArchCap(&cap_t::ASIDControlCap));
    assert!(isArchCap(&cap_t::ASIDPoolCap { capASIDBase: 0, capASIDPool: 0x2000 }));
    assert!(!isArchCap(&endpoint(16, 0)));
    assert!(!isArchCap(&cap_t::NullCap));
}

#[test]
fn pointers_and_sizes() {
    assert_eq!(cap_get_capPtr(&endpoint(0x40, 7)), 0x40);
    assert_eq!(cap_get_capPtr(&cap_t::NullCap), 0);
    assert_eq!(cap_get_capPtr(&cnode(96, 4, 0, 0)), 96);
    assert_eq!(cap_get_capSizeBits(&cnode(96, 4, 0, 0)), 9);
    assert_eq!(cap_get_capSizeBits(&endpoint(0x40, 7)), 4);
    assert_eq!(cap_get_capSizeBits(&cap_t::ThreadCap { capTCBPtr: 2 }), 10);
    assert_eq!(pageBitsForSize(0), 12);
    assert_eq!(pageBitsForSize(1), 21);
    assert_eq!(pageBitsForSize(2), 30);
    assert!(cap_get_capIsPhysical(&frame(0x1000, 3)));
    assert!(!cap_get_capIsPhysical(&cap_t::DomainCap));
    assert_eq!(MASK(0), 0);
    assert_eq!(MASK(6), 63);
    assert_eq!(MASK(64), u64::MAX);
}

#[test]
fn rights_words_round_trip() {
    let r = rightsFromWord(0b1010);
    assert_eq!(r, rights(true, false, false, true));
    assert_eq!(wordFromRights(&r), 0b1010);
    assert_eq!(rightsFromWord(0xfff3), rights(true, true, false, false));
    assert_eq!(seL4_CapRights_get_capAllowRead(&r), 1);
    assert_eq!(seL4_CapRights_get_capAllowWrite(&r), 0);
    assert_eq!(seL4_CapRights_get_capAllowGrant(&r), 0);
    assert_eq!(seL4_CapRights_get_capAllowGrantReply(&r), 1);
    assert_eq!(r.and(&rights(true, true, true, false)), rights(true, false, false, false));
}

#[test]
fn same_object_ignores_badges() {
    assert!(sameObjectAs(&endpoint(0x40, 0), &endpoint(0x40, 9)));
    assert!(!sameObjectAs(&endpoint(0x40, 0), &endpoint(0x50, 0)));
    assert!(!sameObjectAs(&cap_t::NullCap, &cap_t::NullCap));
    assert!(!sameObjectAs(&cap_t::IrqControlCap, &cap_t::IrqHandlerCap { capIRQ: 3 }));
    // the interrupt control names no object
    assert!(!sameObjectAs(&cap_t::IrqControlCap, &cap_t::IrqControlCap));
    assert!(!sameObjectAs(&cap_t::IrqHandlerCap { capIRQ: 3 }, &cap_t::IrqControlCap));
    assert!(sameObjectAs(&cap_t::IrqHandlerCap { capIRQ: 3 }, &cap_t::IrqHandlerCap { capIRQ: 3 }));
    // capabilities of different kinds never name one object
    assert!(!sameObjectAs(&endpoint(0x40, 0), &cap_t::ThreadCap { capTCBPtr: 0x40 }));
    assert!(!sameObjectAs(&cap_t::DomainCap, &cap_t::ASIDControlCap));
    assert!(sameObjectAs(&cnode(96, 4, 0, 0), &cnode(96, 4, 2, 1)));
    assert!(!sameObjectAs(&cnode(96, 4, 0, 0), &cnode(96, 3, 0, 0)));
    let zombie = cap_t::ZombieCap { capZombiePtr: 96, capZombieType: 4, capZombieNumber: 16 };
    assert!(!sameObjectAs(&zombie, &zombie));
}

#[test]
fn untyped_names_what_lies_inside() {
    let untyped = cap_t::UntypedCap {
        capPtr: 0x10000,
        capBlockSize: 16,
        capIsDevice: false,
        capFreeIndex: 0,
    };
    let same_base = cap_t::UntypedCap {
        capPtr: 0x10000,
        capBlockSize: 16,
        capIsDevice: false,
        capFreeIndex: 4,
    };
    assert!(sameObjectAs(&untyped, &same_base));
    assert!(sameObjectAs(&untyped, &endpoint(0x10040, 0)));
    assert!(sameObjectAs(&untyped, &frame(0x1f000, 3)));
    assert!(!sameObjectAs(&untyped, &frame(0x20000, 3)));
    assert!(!sameObjectAs(&untyped, &cap_t::DomainCap));
    assert!(!sameObjectAs(&endpoint(0x10040, 0), &untyped));
    // a CNode of 16 slots at slot reference 0x800 lies at byte 0x10000
    assert!(sameObjectAs(&untyped, &cnode(0x800, 4, 0, 0)));
    assert!(!sameObjectAs(&untyped, &cnode(0x1000, 4, 0, 0)));
}

#[test]
fn revocable_derivations() {
    assert!(isCapRevocable(&endpoint(0x40, 7), &endpoint(0x40, 0)));
    assert!(!isCapRevocable(&endpoint(0x40, 7), &endpoint(0x40, 7)));
    assert!(isCapRevocable(&frame(0x1000, 2), &frame(0x1000, 3)));
    assert!(!isCapRevocable(&frame(0x1000, 3), &frame(0x1000, 3)));
    assert!(!isCapRevocable(
        &cap_t::IrqHandlerCap { capIRQ: 3 },
        &cap_t::IrqHandlerCap { capIRQ: 3 }
    ));
    // whatever is derived from an untyped capability can be revoked
    let untyped =
        cap_t::UntypedCap { capPtr: 0x10000, capBlockSize: 16, capIsDevice: false, capFreeIndex: 0 };
    assert!(isCapRevocable(&untyped, &untyped));
    assert!(isCapRevocable(&cap_t::ThreadCap { capTCBPtr: 0x41 }, &untyped));
    assert!(isCapRevocable(&cnode(0x800, 4, 0, 0), &untyped));
    assert!(isCapRevocable(&frame(0x10000, 3), &untyped));
    assert!(isCapRevocable(&endpoint(0x10040, 0), &untyped));
    // a plain copy cannot
    assert!(!isCapRevocable(&cnode(96, 4, 0, 0), &cnode(96, 4, 0, 0)));
    assert!(!isCapRevocable(&cap_t::ThreadCap { capTCBPtr: 2 }, &cap_t::ThreadCap { capTCBPtr: 2 }));
    assert!(!isCapRevocable(&untyped, &cnode(96, 4, 0, 0)));
}

#[test]
fn masking_intersects_rights() {
    let masked = maskCapRights(rights(true, false, false, false), &endpoint(0x40, 7));
    assert_eq!(
        masked,
        cap_t::EndpointCap {
            capEPPtr: 0x40,
            capEPBadge: 7,
            capCanGrantReply: false,
            capCanGrant: false,
            capCanSend: false,
            capCanReceive: true,
        }
    );
    let reply = cap_t::ReplyCap { capTCBPtr: 2, capReplyMaster: false, capReplyCanGrant: true };
    assert_eq!(
        maskCapRights(rights(true, true, false, true), &reply),
        cap_t::ReplyCap { capTCBPtr: 2, capReplyMaster: false, capReplyCanGrant: false }
    );
    assert_eq!(maskCapRights(rights(false, false, false, false), &cnode(96, 4, 0, 0)), cnode(96, 4, 0, 0));
    assert_eq!(maskCapRights(rights(true, false, false, false), &frame(0x1000, 3)), frame(0x1000, 2));
    assert_eq!(maskCapRights(rights(false, true, false, false), &frame(0x1000, 3)), frame(0x1000, 1));
    assert_eq!(maskVMRights(3, &rights(true, true, false, false)), 3);
    assert_eq!(maskVMRights(2, &rights(true, true, false, false)), 2);
    assert_eq!(maskVMRights(1, &rights(true, true, false, false)), 1);
}

#[test]
fn masking_twice_is_masking_by_the_intersection() {
    let all = [false, true];
    let caps = [endpoint(0x40, 7), frame(0x1000, 3), frame(0x1000, 2), cnode(96, 4, 0, 0)];
    for cap in caps.iter() {
        for a in 0..16u64 {
            for b in 0..16u64 {
                let r1 = rightsFromWord(a);
                let r2 = rightsFromWord(b);
                assert_eq!(
                    maskCapRights(r1, &maskCapRights(r2, cap)),
                    maskCapRights(r1.and(&r2), cap)
                );
            }
        }
    }
    assert!(all[1]);
}

#[test]
fn badge_is_set_once() {
    assert_eq!(updateCapData(false, 7, &endpoint(0x40, 0)), endpoint(0x40, 7));
    assert_eq!(updateCapData(false, 9, &endpoint(0x40, 7)), cap_t::NullCap);
    assert_eq!(updateCapData(true, 7, &endpoint(0x40, 0)), cap_t::NullCap);
    let ntfn = cap_t::NotificationCap {
        capNtfnPtr: 0x80,
        capNtfnBadge: 0,
        capNtfnCanReceive: true,
        capNtfnCanSend: true,
    };
    assert_eq!(
        updateCapData(false, 5, &ntfn),
        cap_t::NotificationCap {
            capNtfnPtr: 0x80,
            capNtfnBadge: 5,
            capNtfnCanReceive: true,
            capNtfnCanSend: true,
        }
    );
    assert_eq!(updateCapData(true, 5, &frame(0x1000, 3)), frame(0x1000, 3));
}

#[test]
fn guard_update_checks_the_bits() {
    // data word: guard size in the low six bits, guard above
    let data = (0xabu64 << 6) | 8;
    assert_eq!(updateCapData(false, data, &cnode(96, 4, 0, 0)), cnode(96, 4, 8, 0xab));
    // the guard is cut to its size
    let data = (0xfabu64 << 6) | 8;
    assert_eq!(updateCapData(true, data, &cnode(96, 4, 0, 0)), cnode(96, 4, 8, 0xab));
    // 61 + 4 > 64
    assert_eq!(updateCapData(false, 61, &cnode(96, 4, 0, 0)), cap_t::NullCap);
    // 60 + 4 == 64
    assert_eq!(updateCapData(false, 60, &cnode(96, 4, 0, 0)), cnode(96, 4, 60, 0));
    // a CNode that resolves no bit at all is refused
    assert_eq!(updateCapData(false, 0, &cnode(96, 0, 3, 1)), cap_t::NullCap);
}

#[test]
fn update_with_preserve_is_idempotent() {
    let caps = [endpoint(0x40, 0), endpoint(0x40, 7), cnode(96, 4, 0, 0), frame(0x1000, 3), cap_t::NullCap];
    for cap in caps.iter() {
        for data in [0u64, 8, 61, (0x3u64 << 6) | 2, u64::MAX] {
            let once = updateCapData(true, data, cap);
            assert_eq!(updateCapData(true, data, &once), once);
        }
    }
}

#[test]
fn cancel_send_needs_every_right() {
    assert!(hasCancelSendRight(&endpoint(0x40, 7)));
    assert!(!hasCancelSendRight(&maskCapRights(rights(true, true, true, false), &endpoint(0x40, 7))));
    assert!(!hasCancelSendRight(&cnode(96, 4, 0, 0)));
}
