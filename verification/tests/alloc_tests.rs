use arena::AllocFailed;
use arena::Arena;
use arena::ArenaRefMut;
use arena::Storage;

#[test]
fn new_arena_is_empty() {
    let a = Arena::new();
    assert_eq!(a.capacity(), 0);
    assert_eq!(a.len(), 0);
    assert_eq!(a.storage(), Storage::Uninitialized);
}

#[test]
fn with_capacity_records_grant() {
    let a = Arena::with_capacity(1024);
    assert_eq!(a.capacity(), 1024);
    assert_eq!(a.len(), 0);
    assert_eq!(a.storage(), Storage::Owned);
}

#[test]
fn struct_allocation_is_aligned_and_in_range() {
    // A value of size 24 and alignment 8 inside a 1024-byte arena.
    let mut a = Arena::with_capacity(1024);
    let r: ArenaRefMut<[u64; 3]> = a.alloc_one();
    let off = a.offset_of(&r);
    assert_eq!(off % 8, 0);
    assert!(off < 1024);
    assert_eq!(off, 1000);
    assert_eq!(r.byte_len(), 24);
}

#[test]
fn owned_arena_grows_when_exhausted() {
    let mut a = Arena::with_capacity(1024);
    for _ in 0..20 {
        let r = a.try_alloc_layout(100, 1);
        assert!(r.is_ok());
    }
    assert!(a.capacity() > 1024);
    assert!(a.len() >= 2000);
    assert_eq!(a.storage(), Storage::Owned);
}

#[test]
fn borrowed_arena_fails_when_exhausted() {
    let mut a = Arena::new();
    a.fill_borrowed(vec![0u8; 1024]);
    let mut failed = false;
    for _ in 0..20 {
        match a.try_alloc_layout(100, 1) {
            Ok(_) => {}
            Err(e) => {
                assert_eq!(e, AllocFailed::MaxCapacityExceeded);
                failed = true;
                break;
            }
        }
    }
    assert!(failed);
    assert_eq!(a.storage(), Storage::Borrowed);
    assert_eq!(a.capacity(), 1024);
}

#[test]
fn borrowed_overflow_keeps_cursor() {
    // A 4096-byte caller buffer: 4000 bytes at alignment 8 fit, 200 more
    // do not, and the failed request must not move the cursor.
    let mut a = Arena::new();
    a.fill_borrowed(vec![0u8; 4096]);
    let r1 = a.try_alloc_layout(4000, 8).unwrap();
    assert_eq!(a.offset_of(&r1), 96);
    assert_eq!(a.len(), 4000);
    let r2 = a.try_alloc_layout(200, 8);
    assert_eq!(r2.unwrap_err(), AllocFailed::MaxCapacityExceeded);
    assert_eq!(a.len(), 4000);
    // The remaining 96 bytes are still allocatable afterwards.
    let r3 = a.try_alloc_layout(96, 1);
    assert!(r3.is_ok());
    assert_eq!(a.len(), 4096);
}

#[test]
fn allocations_are_aligned() {
    let mut a = Arena::with_capacity(999);
    for align in [1u64, 2, 4, 8, 16, 64, 256] {
        let r = a.try_alloc_layout(5, align as usize).unwrap();
        assert_eq!(a.offset_of(&r) % align, 0);
    }
}

#[test]
fn allocations_do_not_overlap() {
    let mut a = Arena::with_capacity(512);
    let mut ranges: Vec<(u64, u64)> = Vec::new();
    for (size, align) in [(7usize, 1usize), (16, 8), (1, 4), (30, 2), (9, 16)] {
        let r = a.try_alloc_layout(size, align).unwrap();
        let start = a.offset_of(&r);
        ranges.push((start, start + r.byte_len() as u64));
    }
    for i in 0..ranges.len() {
        for j in 0..ranges.len() {
            if i != j {
                let (s1, e1) = ranges[i];
                let (s2, e2) = ranges[j];
                assert!(e1 <= s2 || e2 <= s1);
            }
        }
    }
}

#[test]
fn growth_preserves_written_content() {
    // Write a known pattern, force growth with an oversized request, and
    // check the pattern is still reachable through the old reference.
    let mut a = Arena::with_capacity(64);
    let r1 = a.try_alloc_layout(50, 1).unwrap();
    let pattern: Vec<u8> = (0..50u32).map(|i| (i * 3 % 251) as u8).collect();
    a.write_bytes(&r1, &pattern);
    let r2 = a.try_alloc_layout(100, 1);
    assert!(r2.is_ok());
    assert!(a.capacity() >= 150);
    assert_eq!(a.read_bytes(&r1), pattern);
}

#[test]
fn uninitialized_arena_grows_into_owned() {
    let mut a = Arena::new();
    assert_eq!(a.storage(), Storage::Uninitialized);
    let r = a.try_alloc_layout(10, 2);
    assert!(r.is_ok());
    assert_eq!(a.storage(), Storage::Owned);
    assert!(a.capacity() >= 10);
}

#[test]
fn oversized_request_reports_os_failure() {
    let mut a = Arena::with_capacity(16);
    let r = a.try_alloc_layout(usize::MAX, 1);
    assert_eq!(r.unwrap_err(), AllocFailed::OsAllocFailed);
    assert_eq!(a.len(), 0);
    assert_eq!(a.capacity(), 16);
}

#[test]
fn byte_access_round_trips() {
    let mut a = Arena::with_capacity(32);
    let r = a.try_alloc_layout(4, 4).unwrap();
    a.set_byte(&r, 0, 0xde);
    a.set_byte(&r, 1, 0xad);
    a.set_byte(&r, 2, 0xbe);
    a.set_byte(&r, 3, 0xef);
    assert_eq!(a.get_byte(&r, 0), 0xde);
    assert_eq!(a.get_byte(&r, 1), 0xad);
    assert_eq!(a.get_byte(&r, 2), 0xbe);
    assert_eq!(a.get_byte(&r, 3), 0xef);
    assert_eq!(a.read_bytes(&r), vec![0xde, 0xad, 0xbe, 0xef]);
}

#[test]
fn fill_borrowed_replaces_owned_region() {
    let mut a = Arena::with_capacity(128);
    let _ = a.try_alloc_layout(100, 1).unwrap();
    a.fill_borrowed(vec![7u8; 256]);
    assert_eq!(a.storage(), Storage::Borrowed);
    assert_eq!(a.capacity(), 256);
    assert_eq!(a.len(), 0);
}

#[test]
fn zero_sized_allocation_succeeds() {
    let mut a = Arena::with_capacity(8);
    let r = a.try_alloc_layout(0, 4).unwrap();
    assert_eq!(r.byte_len(), 0);
    assert_eq!(a.offset_of(&r) % 4, 0);
}
