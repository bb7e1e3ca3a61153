use arena::persist::save_then_load;
use arena::Arena;
use arena::MemFile;

/// An owned arena holding `n` bytes of a recognizable pattern.
fn arena_with_pattern(n: usize) -> (Arena, Vec<u8>) {
    let mut a = Arena::with_capacity(64);
    let r = a.try_alloc_layout(n, 1).unwrap();
    let pattern: Vec<u8> = (0..n as u32).map(|i| (i * 7 % 253) as u8).collect();
    a.write_bytes(&r, &pattern);
    (a, pattern)
}

fn check_round_trip(n: usize, region_len: usize) {
    let (a, pattern) = arena_with_pattern(n);
    let (b, read) = save_then_load(&a, vec![0u8; region_len]).unwrap();
    assert_eq!(read, n);
    assert_eq!(b.len(), n as u64);
    assert_eq!(b.used_slice(), &pattern[..]);
    assert_eq!(b.used_slice(), a.used_slice());
}

#[test]
fn round_trip_empty() {
    check_round_trip(0, 64);
}

#[test]
fn round_trip_single_byte() {
    check_round_trip(1, 64);
}

#[test]
fn round_trip_one_page() {
    check_round_trip(4096, 256);
}

#[test]
fn round_trip_larger_than_page() {
    check_round_trip(5000, 8192);
}

#[test]
fn truncated_region_triggers_retry() {
    // 100 bytes of known content, loaded back through a scratch region of
    // only 50 bytes: the loader must notice the truncation, consult the
    // size on disk, take a larger region, and return all 100 bytes.
    let (a, pattern) = arena_with_pattern(100);
    let mut f = MemFile::empty();
    a.to_file(&mut f).unwrap();
    assert_eq!(f.contents(), &pattern);
    let (b, read) = Arena::from_file(&mut f, vec![0u8; 50]).unwrap();
    assert_eq!(read, 100);
    assert_eq!(b.len(), 100);
    assert_eq!(b.used_slice(), &pattern[..]);
}

#[test]
fn to_file_writes_only_used_bytes() {
    let mut a = Arena::with_capacity(512);
    let r = a.try_alloc_layout(3, 1).unwrap();
    a.write_bytes(&r, &[1, 2, 3]);
    let mut f = MemFile::empty();
    a.to_file(&mut f).unwrap();
    assert_eq!(f.contents(), &vec![1u8, 2, 3]);
}

#[test]
fn from_file_empty_source() {
    let mut f = MemFile::empty();
    let (b, read) = Arena::from_file(&mut f, vec![0u8; 64]).unwrap();
    assert_eq!(read, 0);
    assert_eq!(b.len(), 0);
    assert_eq!(b.used_slice(), &[] as &[u8]);
}

#[test]
fn from_file_exact_region_fit() {
    // When the source exactly fills the region the loader cannot tell
    // whether more follows, so it re-reads through the sizing path and
    // still returns everything.
    let bytes: Vec<u8> = (0..64u32).map(|i| i as u8).collect();
    let mut f = MemFile::with_bytes(bytes.clone());
    let (b, read) = Arena::from_file(&mut f, vec![0u8; 64]).unwrap();
    assert_eq!(read, 64);
    assert_eq!(b.used_slice(), &bytes[..]);
}

#[test]
fn loaded_arena_reports_bytes_read() {
    let (a, _) = arena_with_pattern(33);
    let (b, read) = save_then_load(&a, vec![0u8; 1024]).unwrap();
    assert_eq!(read, 33);
    assert!(b.capacity() >= 33);
}
