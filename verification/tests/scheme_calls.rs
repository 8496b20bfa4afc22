use homework_scheme::protocol::{
    SchemeError, EBADF, EFAULT, EINVAL, ENOENT, ENOSYS, EOPNOTSUPP, KSMSG_MMAP_PREP, KSMSG_MUNMAP,
    SYS_CLOSE, SYS_DUP, SYS_FCHMOD, SYS_FCHOWN, SYS_FCNTL, SYS_FEVENT, SYS_FPATH, SYS_FRENAME,
    SYS_FSTAT, SYS_FSTATVFS, SYS_FSYNC, SYS_FTRUNCATE, SYS_FUTIMENS, SYS_OPEN, SYS_READ,
    SYS_RMDIR, SYS_UNLINK, SYS_WRITE,
};
use homework_scheme::scheme::{
    convert_in_scheme_handle_block, packet_region, OpenResult, Packet, Region, SlotScheme,
};

const WORD: usize = core::mem::size_of::<usize>();

fn packet(a: usize, b: usize, c: usize, d: usize) -> Packet {
    Packet { id: 1, pid: 7, uid: 0, gid: 0, a, b, c, d }
}

fn error_word(errno: i32) -> usize {
    (-(errno as isize)) as usize
}

fn write_word(scheme: &mut SlotScheme, value: usize) -> Option<usize> {
    let mut bytes = value.to_ne_bytes().to_vec();
    let p = packet(SYS_WRITE, 1, 0x1000, bytes.len());
    scheme.handle(&p, &mut bytes)
}

fn read_bytes(scheme: &mut SlotScheme) -> (Option<usize>, [u8; 4]) {
    let mut buf = [0u8, 1, 0, 1];
    let p = packet(SYS_READ, 1, 0x2000, 4);
    let reply = scheme.handle(&p, &mut buf);
    (reply, buf)
}

fn select(scheme: &mut SlotScheme, slot: usize) -> Option<usize> {
    let p = packet(SYS_FTRUNCATE, 1, slot, 0);
    scheme.handle(&p, &mut [])
}

fn open(scheme: &mut SlotScheme, path: &[u8]) -> Option<usize> {
    let mut path = path.to_vec();
    let p = packet(SYS_OPEN, 0x3000, path.len(), 0);
    scheme.handle(&p, &mut path)
}

#[test]
fn new_scheme_reads_zero() {
    let mut scheme = SlotScheme::new();
    let (reply, buf) = read_bytes(&mut scheme);
    assert_eq!(reply, Some(0));
    assert_eq!(buf, [0, 0, 0, 0]);
}

#[test]
fn read_gives_back_written_word() {
    let mut scheme = SlotScheme::new();
    assert_eq!(write_word(&mut scheme, 0x0102_0304), Some(0));
    let (reply, buf) = read_bytes(&mut scheme);
    assert_eq!(reply, Some(0));
    assert_eq!(buf[..], 0x0102_0304usize.to_ne_bytes()[..4]);
}

#[test]
fn read_old_fills_only_first_four_bytes() {
    let mut scheme = SlotScheme::new();
    let bytes = 513usize.to_ne_bytes();
    assert_eq!(scheme.write_old(1, &bytes), Ok(Some(0)));
    let mut buf = [9u8; 6];
    assert_eq!(scheme.read_old(1, &mut buf), Ok(Some(0)));
    assert_eq!(buf[..4], 513usize.to_ne_bytes()[..4]);
    assert_eq!(buf[4..], [9, 9]);
}

#[test]
fn slots_are_independent() {
    let mut scheme = SlotScheme::new();
    for slot in 0..4usize {
        assert_eq!(select(&mut scheme, slot), Some(0));
        assert_eq!(write_word(&mut scheme, 100 + slot), Some(0));
    }
    for slot in 0..4usize {
        assert_eq!(select(&mut scheme, slot), Some(0));
        let (_, buf) = read_bytes(&mut scheme);
        assert_eq!(buf[..], (100 + slot).to_ne_bytes()[..4]);
    }
}

#[test]
fn selecting_a_slot_above_three_is_refused() {
    let mut scheme = SlotScheme::new();
    assert_eq!(select(&mut scheme, 2), Some(0));
    assert_eq!(select(&mut scheme, 4), Some(error_word(EINVAL)));
    assert_eq!(scheme.ftruncate(1, 4), Err(SchemeError::InvalidArgument));
    assert_eq!(write_word(&mut scheme, 77), Some(0));
    assert_eq!(select(&mut scheme, 2), Some(0));
    let (_, buf) = read_bytes(&mut scheme);
    assert_eq!(buf[..], 77usize.to_ne_bytes()[..4]);
}

#[test]
fn write_of_more_than_a_word_is_refused() {
    let mut scheme = SlotScheme::new();
    assert_eq!(write_word(&mut scheme, 5), Some(0));
    let mut bytes = vec![1u8; WORD + 1];
    let p = packet(SYS_WRITE, 1, 0x1000, bytes.len());
    assert_eq!(scheme.handle(&p, &mut bytes), Some(error_word(EINVAL)));
    assert_eq!(scheme.write_old(1, &vec![1u8; WORD + 3]), Err(SchemeError::InvalidArgument));
    let (_, buf) = read_bytes(&mut scheme);
    assert_eq!(buf[..], 5usize.to_ne_bytes()[..4]);
}

#[test]
fn opens_hand_out_increasing_numbers() {
    let mut scheme = SlotScheme::new();
    assert!(scheme.can_open());
    assert_eq!(open(&mut scheme, b""), Some(1));
    assert_eq!(open(&mut scheme, b"anything"), Some(2));
    assert_eq!(scheme.open("x", 0, 0, 0), Ok(Some(3)));
}

#[test]
fn open_with_invalid_utf8_path_is_refused() {
    let mut scheme = SlotScheme::new();
    assert_eq!(open(&mut scheme, &[0xff, 0xfe]), Some(error_word(EINVAL)));
    assert_eq!(open(&mut scheme, b"ok"), Some(1));
}

#[test]
fn close_once_after_open() {
    let mut scheme = SlotScheme::new();
    let id = open(&mut scheme, b"").unwrap();
    let p = packet(SYS_CLOSE, id, 0, 0);
    assert_eq!(scheme.handle(&p, &mut []), Some(0));
    assert_eq!(scheme.handle(&p, &mut []), Some(error_word(EBADF)));
    assert_eq!(scheme.close(99), Err(SchemeError::BadFile));
}

#[test]
fn path_calls_answer_by_default() {
    let mut scheme = SlotScheme::new();
    let mut path = b"dir".to_vec();
    let p = packet(SYS_RMDIR, 0x3000, path.len(), 0);
    assert_eq!(scheme.handle(&p, &mut path), Some(error_word(ENOENT)));
    let p = packet(SYS_UNLINK, 0x3000, path.len(), 0);
    assert_eq!(scheme.handle(&p, &mut path), Some(error_word(ENOENT)));
    let mut bad = vec![0xc3u8];
    let p = packet(SYS_UNLINK, 0x3000, bad.len(), 0);
    assert_eq!(scheme.handle(&p, &mut bad), Some(error_word(EINVAL)));
    let p = packet(SYS_FRENAME, 1, 0x3000, path.len());
    assert_eq!(scheme.handle(&p, &mut path), Some(error_word(EBADF)));
    let p = packet(SYS_FRENAME, 1, 0x3000, bad.len());
    assert_eq!(scheme.handle(&p, &mut bad), Some(error_word(EINVAL)));
}

#[test]
fn file_calls_answer_bad_file() {
    let mut scheme = SlotScheme::new();
    for a in [SYS_DUP, SYS_FCHMOD, SYS_FCHOWN, SYS_FCNTL, SYS_FEVENT, SYS_FPATH, SYS_FSYNC] {
        assert_eq!(scheme.handle(&packet(a, 1, 0, 0), &mut []), Some(error_word(EBADF)));
    }
}

#[test]
fn record_calls_check_the_buffer_size() {
    let mut scheme = SlotScheme::new();
    let stat = core::mem::size_of::<syscall::data::Stat>();
    let statvfs = core::mem::size_of::<syscall::data::StatVfs>();
    let timespec = core::mem::size_of::<syscall::data::TimeSpec>();
    let cases = [(SYS_FSTAT, stat), (SYS_FSTATVFS, statvfs), (SYS_FUTIMENS, timespec)];
    for (a, size) in cases {
        assert_eq!(scheme.handle(&packet(a, 1, 0x4000, size), &mut []), Some(error_word(EBADF)));
        assert_eq!(
            scheme.handle(&packet(a, 1, 0x4000, size - 1), &mut []),
            Some(error_word(EFAULT))
        );
    }
}

#[test]
fn mapping_and_unknown_calls() {
    let mut scheme = SlotScheme::new();
    assert_eq!(
        scheme.handle(&packet(KSMSG_MMAP_PREP, 1, 0, 0), &mut []),
        Some(error_word(EOPNOTSUPP))
    );
    assert_eq!(
        scheme.handle(&packet(KSMSG_MUNMAP, 1, 0, 0), &mut []),
        Some(error_word(EOPNOTSUPP))
    );
    assert_eq!(scheme.handle(&packet(12345, 1, 0, 0), &mut []), Some(error_word(ENOSYS)));
}

#[test]
fn error_words_match_syscall_mux() {
    let mut scheme = SlotScheme::new();
    let expected = syscall::error::Error::mux(Err(syscall::error::Error::new(syscall::error::ENOSYS)));
    assert_eq!(scheme.handle(&packet(0, 0, 0, 0), &mut []), Some(expected));
    assert_eq!(expected, usize::MAX - 37);
}

#[test]
fn regions_of_packets() {
    assert_eq!(
        packet_region(&packet(SYS_OPEN, 10, 20, 30)),
        Some(Region { addr: 10, len: 20, writable: false })
    );
    assert_eq!(
        packet_region(&packet(SYS_WRITE, 10, 20, 30)),
        Some(Region { addr: 20, len: 30, writable: false })
    );
    assert_eq!(
        packet_region(&packet(SYS_READ, 10, 20, 30)),
        Some(Region { addr: 20, len: 30, writable: true })
    );
    assert_eq!(
        packet_region(&packet(SYS_FRENAME, 10, 20, 30)),
        Some(Region { addr: 20, len: 30, writable: false })
    );
    assert_eq!(packet_region(&packet(SYS_CLOSE, 10, 20, 30)), None);
}

#[test]
fn open_results_become_answers() {
    let p = packet(SYS_OPEN, 0, 0, 0);
    assert_eq!(
        convert_in_scheme_handle_block(&p, Ok(Some(OpenResult::ThisScheme { number: 4 }))),
        Ok(Some(4))
    );
    assert_eq!(
        convert_in_scheme_handle_block(&p, Ok(Some(OpenResult::OtherScheme { fd: 4 }))),
        Err(SchemeError::NotSupported)
    );
    assert_eq!(convert_in_scheme_handle_block(&p, Ok(None)), Ok(None));
    assert_eq!(
        convert_in_scheme_handle_block(&p, Err(SchemeError::BadFile)),
        Err(SchemeError::BadFile)
    );
}

#[test]
fn read_after_write_survives_other_calls() {
    let mut scheme = SlotScheme::new();
    assert_eq!(write_word(&mut scheme, 0xabcd), Some(0));
    let id = open(&mut scheme, b"f").unwrap();
    let (_, _) = read_bytes(&mut scheme);
    assert_eq!(scheme.handle(&packet(SYS_CLOSE, id, 0, 0), &mut []), Some(0));
    assert_eq!(scheme.handle(&packet(SYS_FSYNC, id, 0, 0), &mut []), Some(error_word(EBADF)));
    let (reply, buf) = read_bytes(&mut scheme);
    assert_eq!(reply, Some(0));
    assert_eq!(buf[..], 0xabcdusize.to_ne_bytes()[..4]);
}

#[test]
fn open_numbers_never_repeat() {
    let mut scheme = SlotScheme::new();
    let first = open(&mut scheme, b"a").unwrap();
    assert_eq!(scheme.handle(&packet(SYS_CLOSE, first, 0, 0), &mut []), Some(0));
    assert_eq!(write_word(&mut scheme, 3), Some(0));
    assert_eq!(select(&mut scheme, 1), Some(0));
    let second = open(&mut scheme, b"b").unwrap();
    assert!(second > first);
}

#[test]
fn selection_survives_close_and_reopen() {
    let mut scheme = SlotScheme::new();
    let first = scheme.open("", 0, 0, 0).unwrap().unwrap();
    assert_eq!(scheme.ftruncate(first, 2), Ok(Some(0)));
    assert_eq!(scheme.close(first), Ok(Some(0)));
    let second = scheme.open("", 0, 0, 0).unwrap().unwrap();
    assert!(second > first);
    assert_eq!(scheme.write_old(second, &0x55usize.to_ne_bytes()), Ok(Some(0)));
    assert_eq!(scheme.ftruncate(second, 0), Ok(Some(0)));
    let mut buf = [7u8; 4];
    assert_eq!(scheme.read_old(second, &mut buf), Ok(Some(0)));
    assert_eq!(buf, [0, 0, 0, 0]);
    assert_eq!(scheme.ftruncate(second, 2), Ok(Some(0)));
    assert_eq!(scheme.read_old(first, &mut buf), Ok(Some(0)));
    assert_eq!(buf[..], 0x55usize.to_ne_bytes()[..4]);
}
