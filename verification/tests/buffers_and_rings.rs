use osiris::buf::{Bound, IoBuf, Slice};
use osiris::error::{ErrorKind, IoError};
use osiris::fs::{
    FileType, Metadata, Statx, StatxTimestamp, STATX_BTIME, S_IFDIR, S_IFIFO, S_IFLNK, S_IFREG,
};
use osiris::io_uring::cq::{Completion, Cqe};
use osiris::io_uring::params::{
    normalize_size, queue_sizes, CqringOffsets, Params, SqringOffsets, IORING_FEAT_SINGLE_MMAP,
    IORING_SETUP_SQPOLL,
};
use osiris::io_uring::sq::{Submission, IORING_SQ_NEED_WAKEUP};
use osiris::io_uring::{IoUring, IORING_ENTER_GETEVENTS, IORING_ENTER_SQ_WAKEUP};

#[test]
fn vec_buffer_sizes_and_slices() {
    let v: Vec<u8> = vec![1, 2, 3, 4];
    assert_eq!(v.bytes_init(), 4);
    assert!(v.bytes_total() >= 4);
    let s = v.slice(Bound::Included(1), Bound::Excluded(3));
    assert_eq!(s.begin(), 1);
    assert_eq!(s.end(), 3);
    assert_eq!(s.get_ref(), &vec![1, 2, 3, 4]);
    assert_eq!(s.into_inner(), vec![1, 2, 3, 4]);
}

#[test]
fn slice_bounds_of_static_bytes() {
    let b: &'static [u8] = b"hello";
    assert_eq!(b.bytes_init(), 5);
    assert_eq!(b.bytes_total(), 5);
    let s = b.slice(Bound::Excluded(0), Bound::Included(3));
    assert_eq!((s.begin(), s.end()), (1, 4));
    let t = "abc".slice(Bound::Unbounded, Bound::Unbounded);
    assert_eq!((t.begin(), t.end()), (0, 3));
    let boxed: Box<[u8]> = vec![0u8; 6].into_boxed_slice();
    let u = boxed.slice(Bound::Included(2), Bound::Unbounded);
    assert_eq!((u.begin(), u.end()), (2, 6));
    let raw = Slice::new(7u32, 2, 9);
    assert_eq!((raw.begin(), raw.end(), *raw.get_ref()), (2, 9, 7));
}

fn ts(s: i64) -> StatxTimestamp {
    StatxTimestamp { tv_sec: s, tv_nsec: 0 }
}

fn metadata(mode: u16, size: u64) -> Metadata {
    Metadata {
        statx: Statx {
            stx_mask: STATX_BTIME,
            stx_mode: mode,
            stx_size: size,
            stx_atime: ts(1),
            stx_btime: ts(2),
            stx_ctime: ts(3),
            stx_mtime: ts(4),
        },
    }
}

#[test]
fn metadata_reads_mode_and_times() {
    let dir = metadata((S_IFDIR | 0o755) as u16, 4096);
    assert!(dir.is_dir());
    assert!(!dir.is_file());
    assert!(!dir.is_symlink());
    assert_eq!(dir.len(), 4096);
    assert_eq!(dir.accessed(), Ok(ts(1)));
    assert_eq!(dir.created(), Ok(ts(2)));
    assert_eq!(dir.modified(), Ok(ts(4)));
    assert_eq!(dir.file_type(), FileType((S_IFDIR | 0o755) as u16));
    let mut no_birth = metadata((S_IFDIR | 0o755) as u16, 4096);
    no_birth.statx.stx_mask = 0x7ff;
    assert_eq!(no_birth.created(), Err(IoError::Kind(ErrorKind::Unsupported)));
    assert_eq!(no_birth.accessed(), Ok(ts(1)));
    let file = metadata((S_IFREG | 0o644) as u16, 12);
    assert!(file.is_file() && !file.is_dir());
    let link = metadata(S_IFLNK as u16, 0);
    assert!(link.is_symlink() && !link.is_file());
}

#[test]
fn file_type_bits() {
    assert!(FileType(S_IFIFO as u16).is_fifo());
    assert!(!FileType(S_IFIFO as u16).is_dir());
    assert!(FileType(S_IFDIR as u16).is_dir());
    assert!(FileType(S_IFREG as u16).is_file());
    assert!(FileType(S_IFLNK as u16).is_symlink());
    assert!(!FileType(S_IFLNK as u16).is_fifo());
    assert!(FileType((S_IFIFO | 0o644) as u16).is_fifo());
}

fn params(sq_entries: u32, cq_entries: u32, array: u32, cqes: u32, features: u32) -> Params {
    Params {
        sq_entries,
        cq_entries,
        features,
        sq_off: SqringOffsets { array, ..Default::default() },
        cq_off: CqringOffsets { cqes, ..Default::default() },
        ..Default::default()
    }
}

#[test]
fn ring_mapping_sizes() {
    let p = params(8, 16, 64, 128, 0);
    assert_eq!(p.sq_size(), 64 + 8 * 4);
    assert_eq!(p.cq_size(), 128 + 16 * 16);
    assert_eq!(p.sqes_size(), 8 * 64);
    assert!(!p.feat_single_allocation());
    assert_eq!(queue_sizes(&p), (96, 384));
    let single = params(8, 16, 64, 128, IORING_FEAT_SINGLE_MMAP);
    assert!(single.feat_single_allocation());
    assert_eq!(queue_sizes(&single), (384, 384));
}

#[test]
fn ring_depth_is_rounded_to_a_power_of_two() {
    assert_eq!(normalize_size(0), 1);
    assert_eq!(normalize_size(1), 1);
    assert_eq!(normalize_size(5), 8);
    assert_eq!(normalize_size(8), 8);
    assert_eq!(normalize_size(5000), 4096);
}

fn cqe(user_data: u64) -> Cqe {
    Cqe { user_data, res: 0, flags: 0 }
}

fn completion(head: u32, tail: u32) -> Completion {
    Completion {
        head,
        tail,
        flags: 0,
        overflow: 0,
        cqes: vec![cqe(10), cqe(11), cqe(12), cqe(13)],
        ring_mask: 3,
        ring_entries: 4,
    }
}

#[test]
fn completion_ring_is_read_from_head_to_tail() {
    let mut cq = completion(1, 3);
    assert_eq!(cq.peek(), vec![cqe(11), cqe(12)]);
    assert_eq!(cq.head, 1);
    assert_eq!(cq.iter(), vec![cqe(11), cqe(12)]);
    assert_eq!(cq.head, 3);
    assert_eq!(cq.iter(), Vec::<Cqe>::new());
}

#[test]
fn completion_ring_wraps_around() {
    // the counters run on past the entry count; the mask picks the slot
    let mut cq = completion(3, 6);
    assert_eq!(cq.iter(), vec![cqe(13), cqe(10), cqe(11)]);
    assert_eq!(cq.head, 6);
    let mut later = completion(9, 11);
    assert_eq!(later.peek(), vec![cqe(11), cqe(12)]);
    assert_eq!(later.iter(), vec![cqe(11), cqe(12)]);
    assert_eq!(later.head, 11);
    // and they wrap around at 2^32
    let mut wrapped = completion(u32::MAX, 1);
    assert_eq!(wrapped.iter(), vec![cqe(13), cqe(10)]);
    assert_eq!(wrapped.head, 1);
}

fn ring(setup_flags: u32, sq_flags: u32) -> IoUring {
    IoUring {
        fd: 3,
        sq: Submission {
            head: 0,
            tail: 0,
            ring_mask: 3,
            ring_entries: 4,
            flags: sq_flags,
            dropped: 0,
            array: vec![0; 4],
        },
        cq: completion(0, 2),
        params: Params { flags: setup_flags, ..Default::default() },
    }
}

#[test]
fn enter_flags() {
    assert_eq!(ring(0, IORING_SQ_NEED_WAKEUP).submit_flags(), IORING_ENTER_GETEVENTS);
    let polled = ring(IORING_SETUP_SQPOLL, IORING_SQ_NEED_WAKEUP);
    assert!(polled.poll_mode());
    assert!(polled.sq.needs_wakeup());
    assert_eq!(polled.submit_flags(), IORING_ENTER_SQ_WAKEUP | IORING_ENTER_GETEVENTS);
    assert_eq!(ring(IORING_SETUP_SQPOLL, 0).submit_flags(), IORING_ENTER_GETEVENTS);
    assert!(ring(IORING_SETUP_SQPOLL, 0).params.sq_poll());
}

#[test]
fn ring_iter_commits_head() {
    let mut r = ring(0, IORING_SQ_NEED_WAKEUP);
    assert_eq!(r.iter(), vec![cqe(10), cqe(11)]);
    assert_eq!(r.cq.head, 2);
    assert_eq!(r.sq.flags, IORING_SQ_NEED_WAKEUP);
}
