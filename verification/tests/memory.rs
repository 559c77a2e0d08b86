use ebpf_sandbox::memory::AccessError;
use ebpf_sandbox::memory::MemoryRef;
use ebpf_sandbox::memory::MemoryRegion;

const BASE: u64 = 0x400000000;

fn two_region_mem() -> MemoryRef {
    let mut mem = MemoryRef::new();
    mem.add_region(MemoryRegion::new_writable(vec![1, 2, 3, 4], BASE))
        .unwrap();
    mem.add_region(MemoryRegion::new_readonly(vec![9, 9], BASE + 100))
        .unwrap();
    mem
}

#[test]
fn read_within_region() {
    let mem = two_region_mem();
    let mut buf = vec![0u8; 3];
    assert!(mem.read(BASE + 1, &mut buf).is_ok());
    assert_eq!(buf, vec![2, 3, 4]);
}

#[test]
fn read_vec_within_region() {
    let mem = two_region_mem();
    let buf = mem.read_vec(BASE, 4).unwrap();
    assert_eq!(buf, vec![1, 2, 3, 4]);
}

#[test]
fn write_then_read_back() {
    let mut mem = two_region_mem();
    assert!(mem.write(BASE + 1, &vec![7, 8]).is_ok());
    let buf = mem.read_vec(BASE, 4).unwrap();
    assert_eq!(buf, vec![1, 7, 8, 4]);
}

#[test]
fn read_out_of_bounds_fails_whole_operation() {
    let mem = two_region_mem();
    let mut buf = vec![5u8; 3];
    assert_eq!(mem.read(BASE + 2, &mut buf), Err(AccessError::OutOfBounds));
    // No partial read: the caller's buffer is untouched.
    assert_eq!(buf, vec![5, 5, 5]);
}

#[test]
fn read_crossing_region_boundary_fails() {
    let mut mem = MemoryRef::new();
    mem.add_region(MemoryRegion::new_writable(vec![1, 2], BASE)).unwrap();
    // Adjacent region: the two-byte range starting at the last byte of the
    // first region is covered by no single region.
    mem.add_region(MemoryRegion::new_writable(vec![3, 4], BASE + 2)).unwrap();
    let mut buf = vec![0u8; 2];
    assert_eq!(mem.read(BASE + 1, &mut buf), Err(AccessError::OutOfBounds));
}

#[test]
fn write_to_readonly_region_fails() {
    let mut mem = two_region_mem();
    assert_eq!(mem.write(BASE + 100, &vec![1]), Err(AccessError::OutOfBounds));
    // A read of the same range still succeeds.
    assert_eq!(mem.read_vec(BASE + 100, 1).unwrap(), vec![9]);
}

#[test]
fn zero_length_access_is_a_no_op() {
    let mut mem = two_region_mem();
    let mut buf: Vec<u8> = Vec::new();
    assert!(mem.read(BASE, &mut buf).is_ok());
    assert!(buf.is_empty());
    assert!(mem.write(BASE, &Vec::new()).is_ok());
    assert_eq!(mem.read_vec(BASE, 4).unwrap(), vec![1, 2, 3, 4]);
}

#[test]
fn zero_length_access_outside_any_region_fails() {
    let mem = two_region_mem();
    let mut buf: Vec<u8> = Vec::new();
    assert_eq!(mem.read(BASE + 50, &mut buf), Err(AccessError::OutOfBounds));
}

#[test]
fn fill_writes_repeated_byte() {
    let mut mem = two_region_mem();
    assert!(mem.fill(BASE + 1, 0xab, 2).is_ok());
    assert_eq!(mem.read_vec(BASE, 4).unwrap(), vec![1, 0xab, 0xab, 4]);
}

#[test]
fn overlapping_region_is_rejected() {
    let mut mem = MemoryRef::new();
    mem.add_region(MemoryRegion::new_writable(vec![0; 8], BASE)).unwrap();
    let r = mem.add_region(MemoryRegion::new_readonly(vec![0; 4], BASE + 7));
    assert_eq!(r, Err(AccessError::OutOfBounds));
}

#[test]
fn wrapping_region_is_rejected() {
    let mut mem = MemoryRef::new();
    let r = mem.add_region(MemoryRegion::new_writable(vec![0; 2], u64::MAX));
    assert_eq!(r, Err(AccessError::OutOfBounds));
}
