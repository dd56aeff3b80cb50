use rustic_vfs::error::FsError;
use rustic_vfs::file::{FileCursor, ReadRange, SeekFrom};
use rustic_vfs::meta::{NodeKind, NodeMeta};
use rustic_vfs::runtime::{contains, RuntimeType, RUNTIME_TYPE_BASIC, RUNTIME_TYPE_THREADPOOL};
use rustic_vfs::template::Timestamp;

fn file(size: u64) -> FileCursor {
    FileCursor::new(size)
}

/// Reads through a handle from a byte buffer standing for the store.
fn read(h: &mut FileCursor, data: &[u8], count: u64) -> Vec<u8> {
    let r = h.read_range(count);
    let out = data[r.offset as usize..(r.offset + r.len) as usize].to_vec();
    h.advance(out.len() as u64);
    out
}

#[test]
fn new_handle_starts_at_zero() {
    let h = file(10);
    assert_eq!(h.cursor, 0);
    assert_eq!(h.size, 10);
}

#[test]
fn seek_modes() {
    let mut h = file(10);
    assert_eq!(h.seek(SeekFrom::Start(4)), Ok(4));
    assert_eq!(h.seek(SeekFrom::Current(3)), Ok(7));
    assert_eq!(h.seek(SeekFrom::Current(-2)), Ok(5));
    assert_eq!(h.seek(SeekFrom::End(-3)), Ok(7));
    assert_eq!(h.seek(SeekFrom::End(5)), Ok(15));
    assert_eq!(h.cursor, 15);
}

#[test]
fn seek_before_start_is_refused() {
    let mut h = file(10);
    h.seek(SeekFrom::Start(2)).unwrap();
    assert_eq!(h.seek(SeekFrom::Current(-3)), Err(FsError::InvalidSeek));
    assert_eq!(h.cursor, 2);
    assert_eq!(h.seek(SeekFrom::End(-11)), Err(FsError::InvalidSeek));
    assert_eq!(h.cursor, 2);
}

#[test]
fn seek_beyond_u64_is_refused() {
    let mut h = file(10);
    h.seek(SeekFrom::Start(u64::MAX - 1)).unwrap();
    assert_eq!(h.seek(SeekFrom::Current(2)), Err(FsError::InvalidSeek));
    assert_eq!(h.seek(SeekFrom::Current(1)), Ok(u64::MAX));
}

#[test]
fn seek_end_then_read_returns_tail() {
    let data: Vec<u8> = (0u8..20).collect();
    let mut h = file(20);
    assert_eq!(h.seek(SeekFrom::End(-5)), Ok(15));
    assert_eq!(read(&mut h, &data, 5), vec![15, 16, 17, 18, 19]);
    assert_eq!(read(&mut h, &data, 5), Vec::<u8>::new());
}

#[test]
fn read_clamps_at_end_of_file() {
    let h = FileCursor { size: 10, cursor: 8 };
    assert_eq!(h.read_range(5), ReadRange { offset: 8, len: 2 });
    let h = FileCursor { size: 10, cursor: 12 };
    assert_eq!(h.read_range(5), ReadRange { offset: 12, len: 0 });
    let h = FileCursor { size: 10, cursor: 0 };
    assert_eq!(h.read_range(u64::MAX), ReadRange { offset: 0, len: 10 });
}

#[test]
fn reads_until_eof_cover_the_file() {
    let data: Vec<u8> = (0u8..23).collect();
    let mut h = file(23);
    let mut all = Vec::new();
    loop {
        let chunk = read(&mut h, &data, 4);
        if chunk.is_empty() {
            break;
        }
        all.extend(chunk);
    }
    assert_eq!(all.len(), 23);
    assert_eq!(all, data);
}

#[test]
fn interleaved_handles_do_not_interfere() {
    let data: Vec<u8> = (0u8..10).collect();
    let mut a = file(10);
    let mut b = file(10);
    assert_eq!(read(&mut a, &data, 3), vec![0, 1, 2]);
    assert_eq!(read(&mut b, &data, 2), vec![0, 1]);
    b.seek(SeekFrom::End(-1)).unwrap();
    assert_eq!(read(&mut a, &data, 3), vec![3, 4, 5]);
    assert_eq!(read(&mut b, &data, 3), vec![9]);
    assert_eq!(read(&mut a, &data, 10), vec![6, 7, 8, 9]);
}

fn meta(kind: NodeKind, mode: Option<u32>) -> NodeMeta {
    NodeMeta { kind, size: 3, mtime: None, atime: Some(Timestamp { secs: 7, nanos: 0, offset: 0 }), ctime: None, mode }
}

#[test]
fn executable_follows_owner_execute_bit() {
    assert_eq!(meta(NodeKind::File, Some(0o755)).executable(), Ok(true));
    assert_eq!(meta(NodeKind::File, Some(0o644)).executable(), Ok(false));
    assert_eq!(meta(NodeKind::File, Some(0o011)).executable(), Ok(false));
    assert_eq!(meta(NodeKind::File, None).executable(), Ok(false));
    assert_eq!(meta(NodeKind::Dir, Some(0o755)).executable(), Err(FsError::NotImplemented));
    assert_eq!(meta(NodeKind::Symlink, Some(0o777)).executable(), Err(FsError::NotImplemented));
}

#[test]
fn missing_times_fall_back_to_now() {
    let now = Timestamp { secs: 100, nanos: 1, offset: 0 };
    let m = meta(NodeKind::File, None);
    assert_eq!(m.modified(now), now);
    assert_eq!(m.accessed(now), Timestamp { secs: 7, nanos: 0, offset: 0 });
    assert_eq!(m.status_changed(now), now);
    assert_eq!(m.created(now), now);
    assert_eq!(m.len(), 3);
    assert!(m.is_file() && !m.is_dir() && !m.is_symlink());
    assert!(NodeMeta::synthetic_dir().is_dir());
    assert!(NodeMeta::synthetic_symlink().is_symlink());
}

#[test]
fn runtime_type_from_cache_or_description() {
    assert_eq!(RuntimeType::get(0, "Handle { inner: ThreadPool(..) }"), RuntimeType::ThreadPool);
    assert_eq!(RuntimeType::get(0, "Handle { inner: CurrentThread(..) }"), RuntimeType::Basic);
    assert_eq!(RuntimeType::get(RUNTIME_TYPE_BASIC, "ThreadPool"), RuntimeType::Basic);
    assert_eq!(RuntimeType::get(RUNTIME_TYPE_THREADPOOL, ""), RuntimeType::ThreadPool);
    assert_eq!(RuntimeType::from_code(RuntimeType::ThreadPool.code()), Some(RuntimeType::ThreadPool));
    assert_eq!(RuntimeType::from_code(0), None);
}

#[test]
fn contains_finds_substrings() {
    assert!(contains("abcThreadPool", "ThreadPool"));
    assert!(contains("abc", ""));
    assert!(!contains("Thread", "ThreadPool"));
    assert!(!contains("ThreadPoo", "ThreadPool"));
}
