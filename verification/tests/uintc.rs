use rel4_kernel::uintc::{IndexAllocator, UIntrReceiver, UIntrSTEntry};

#[test]
fn allocator_hands_out_lowest_free_index() {
    let mut a = IndexAllocator::<20>::new();
    assert_eq!(a.bitmap.len(), 3);
    assert_eq!(a.allocate(), Some(0));
    assert_eq!(a.allocate(), Some(1));
    assert_eq!(a.allocate(), Some(2));
    a.release(1);
    assert_eq!(a.allocate(), Some(1));
    assert_eq!(a.allocate(), Some(3));
}

#[test]
fn allocator_runs_out() {
    let mut a = IndexAllocator::<9>::new();
    for i in 0..9 {
        assert_eq!(a.allocate(), Some(i));
    }
    assert_eq!(a.allocate(), None);
    a.release(8);
    assert_eq!(a.allocate(), Some(8));
    assert_eq!(a.allocate(), None);
}

#[test]
fn entry_fields_do_not_overlap() {
    let mut e = UIntrSTEntry(0);
    e.set_vec(0x1234);
    e.set_index(0xbeef);
    assert_eq!(e.get_vec(), 0x1234);
    assert_eq!(e.get_index(), 0xbeef);
    assert_eq!(e.0, 0xbeef_0000_1234_0000);
    e.set_vec(0x5_0001);
    assert_eq!(e.get_vec(), 1);
    assert_eq!(e.get_index(), 0xbeef);
}

#[test]
fn set_valid_sets_the_lowest_bit() {
    let mut e = UIntrSTEntry(0);
    e.set_valid(true);
    assert_eq!(e.0, 1);
    e.set_vec(7);
    e.set_valid(false);
    assert_eq!(e.0, 7 << 16);
    assert!(!e.is_valid());
    let high = UIntrSTEntry(1 << 63);
    assert!(high.is_valid());
}

#[test]
fn receiver_words_round_trip() {
    let r = UIntrReceiver::from(0x0003_0002, 0xff);
    assert_eq!(r.mode, 2);
    assert_eq!(r.hartid, 3);
    assert_eq!(r.irq, 0xff);
    assert_eq!(r.sync(), (0x0003_0002, 0xff));
    let r = UIntrReceiver::from(0xdead_0003_0002, 0);
    assert_eq!(r.sync(), (0x0003_0002, 0));
}
