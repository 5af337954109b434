use mtp_mount::buffer::{FileBuffer, WriteBuffer};

#[test]
fn test_new_buffer_empty() {
    let wb = WriteBuffer::new();
    assert!(!wb.is_open(1));
    assert!(wb.size(1).is_none());
}

#[test]
fn test_open_creates_buffer() {
    let mut wb = WriteBuffer::new();
    wb.open(1, 100, 0);
    assert!(wb.is_open(1));
    assert_eq!(wb.size(1), Some(0));
}

#[test]
fn test_write_sequential() {
    let mut wb = WriteBuffer::new();
    wb.open(1, 100, 0);
    wb.write(1, 0, b"hello").unwrap();
    wb.write(1, 5, b" world").unwrap();
    assert_eq!(wb.size(1), Some(11));
    let data = wb.read(1, 0, 11).unwrap();
    assert_eq!(&data, b"hello world");
}

#[test]
fn test_write_at_offset() {
    let mut wb = WriteBuffer::new();
    wb.open(1, 100, 0);
    wb.write(1, 5, b"abc").unwrap();
    assert_eq!(wb.size(1), Some(8));
    let data = wb.read(1, 0, 8).unwrap();
    assert_eq!(&data, b"\0\0\0\0\0abc");
}

#[test]
fn test_write_overwrite() {
    let mut wb = WriteBuffer::new();
    wb.open(1, 100, 0);
    wb.write(1, 0, b"hello").unwrap();
    wb.write(1, 1, b"ELL").unwrap();
    let data = wb.read(1, 0, 5).unwrap();
    assert_eq!(&data, b"hELLo");
}

#[test]
fn test_read_back() {
    let mut wb = WriteBuffer::new();
    wb.open(1, 100, 0);
    wb.write(1, 0, b"test data").unwrap();
    let data = wb.read(1, 5, 4).unwrap();
    assert_eq!(&data, b"data");
}

#[test]
fn test_read_past_end() {
    let mut wb = WriteBuffer::new();
    wb.open(1, 100, 0);
    wb.write(1, 0, b"short").unwrap();
    let data = wb.read(1, 3, 100).unwrap();
    assert_eq!(&data, b"rt");
}

#[test]
fn test_read_empty() {
    let mut wb = WriteBuffer::new();
    wb.open(1, 100, 0);
    let data = wb.read(1, 0, 10).unwrap();
    assert!(data.is_empty());
}

#[test]
fn test_flush_returns_data() {
    let mut wb = WriteBuffer::new();
    wb.open(1, 100, 0);
    wb.write(1, 0, b"flush me").unwrap();
    let fb = wb.flush(1).unwrap();
    assert_eq!(fb.inode, 100);
    assert_eq!(fb.into_data(), b"flush me");
}

#[test]
fn test_flush_removes_buffer() {
    let mut wb = WriteBuffer::new();
    wb.open(1, 100, 0);
    wb.write(1, 0, b"data").unwrap();
    wb.flush(1);
    assert!(!wb.is_open(1));
}

#[test]
fn test_dirty_tracking() {
    let mut wb = WriteBuffer::new();
    let fb = wb.open(1, 100, 0);
    assert!(!fb.is_dirty());
    wb.write(1, 0, b"x").unwrap();
    // Need to access via flush since we can't borrow after write through wb
    let fb = wb.flush(1).unwrap();
    assert!(fb.is_dirty());
}

#[test]
fn test_multiple_files() {
    let mut wb = WriteBuffer::new();
    wb.open(1, 100, 0);
    wb.open(2, 200, 0);
    wb.write(1, 0, b"file1").unwrap();
    wb.write(2, 0, b"file2").unwrap();
    assert!(wb.is_open(1));
    assert!(wb.is_open(2));
    assert_eq!(wb.read(1, 0, 5).unwrap(), b"file1");
    assert_eq!(wb.read(2, 0, 5).unwrap(), b"file2");
}

#[test]
fn test_write_nonexistent_fh() {
    let mut wb = WriteBuffer::new();
    let result = wb.write(999, 0, b"nope");
    assert!(result.is_err());
}

#[test]
fn test_large_write() {
    let mut wb = WriteBuffer::new();
    wb.open(1, 100, 0);
    let big = vec![0xABu8; 2 * 1024 * 1024]; // 2 MB
    let written = wb.write(1, 0, &big).unwrap();
    assert_eq!(written, 2 * 1024 * 1024);
    assert_eq!(wb.size(1), Some(2 * 1024 * 1024));
}

#[test]
fn test_sparse_write() {
    let mut wb = WriteBuffer::new();
    wb.open(1, 100, 0);
    wb.write(1, 1000, b"sparse").unwrap();
    assert_eq!(wb.size(1), Some(1006));
    let prefix = wb.read(1, 0, 1000).unwrap();
    assert!(prefix.iter().all(|&b| b == 0));
    let data = wb.read(1, 1000, 6).unwrap();
    assert_eq!(&data, b"sparse");
}

#[test]
fn a_second_open_keeps_what_was_written() {
    let mut wb = WriteBuffer::new();
    wb.open(7, 100, 3);
    wb.write(7, 0, b"kept").unwrap();
    let again = wb.open(7, 200, 9);
    assert_eq!(again.inode, 100);
    assert_eq!(again.original_size, 3);
    assert_eq!(again.read_at(0, 10), b"kept");
}

#[test]
fn closing_twice_finds_nothing_the_second_time() {
    let mut wb = WriteBuffer::default();
    wb.open(1, 100, 0);
    assert!(wb.close(1).is_some());
    assert!(wb.close(1).is_none());
}

#[test]
fn the_error_names_the_file_handle() {
    let wb = WriteBuffer::new();
    assert_eq!(
        wb.read(42, 0, 1).unwrap_err().message(),
        "no buffer for file handle 42"
    );
}

#[test]
fn a_negative_offset_reads_nothing() {
    let mut fb = FileBuffer::new(1, 0);
    assert_eq!(fb.write_at(0, b"abc"), 3);
    assert_eq!(fb.read_at(-1, 2), Vec::<u8>::new());
    assert_eq!(fb.len(), 3);
    assert_eq!(fb.inode, 1);
}

#[test]
fn an_empty_write_past_the_end_grows_the_file() {
    let mut fb = FileBuffer::new(1, 0);
    assert_eq!(fb.write_at(4, b""), 0);
    assert!(fb.is_dirty());
    assert_eq!(fb.into_data(), vec![0u8; 4]);
}

#[test]
fn a_write_without_a_buffer_fails_whatever_its_offset() {
    let mut wb = WriteBuffer::new();
    assert_eq!(
        wb.write(4, -1, b"x").unwrap_err().message(),
        "no buffer for file handle 4"
    );
    assert!(wb.write(4, i64::MAX, b"x").is_err());
}
