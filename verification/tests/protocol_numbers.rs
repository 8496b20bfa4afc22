use syscall::error as e;
use syscall::number as n;
use homework_scheme::protocol::{
    decode_call, Call, SchemeError, EBADF, EFAULT, EINTR, EINVAL, ENOENT, ENOSYS, EOPNOTSUPP,
    KSMSG_MMAP_PREP, KSMSG_MUNMAP, SYS_CLOSE, SYS_DUP, SYS_FCHMOD, SYS_FCHOWN, SYS_FCNTL,
    SYS_FEVENT, SYS_FPATH, SYS_FRENAME, SYS_FSTAT, SYS_FSTATVFS, SYS_FSYNC, SYS_FTRUNCATE,
    SYS_FUTIMENS, SYS_OPEN, SYS_READ, SYS_RMDIR, SYS_UNLINK, SYS_WRITE,
};

#[test]
fn call_numbers_are_the_protocols() {
    assert_eq!(SYS_OPEN, n::SYS_OPEN);
    assert_eq!(SYS_RMDIR, n::SYS_RMDIR);
    assert_eq!(SYS_UNLINK, n::SYS_UNLINK);
    assert_eq!(SYS_DUP, n::SYS_DUP);
    assert_eq!(SYS_READ, n::SYS_READ);
    assert_eq!(SYS_WRITE, n::SYS_WRITE);
    assert_eq!(SYS_FCHMOD, n::SYS_FCHMOD);
    assert_eq!(SYS_FCHOWN, n::SYS_FCHOWN);
    assert_eq!(SYS_FCNTL, n::SYS_FCNTL);
    assert_eq!(SYS_FEVENT, n::SYS_FEVENT);
    assert_eq!(SYS_FPATH, n::SYS_FPATH);
    assert_eq!(SYS_FRENAME, n::SYS_FRENAME);
    assert_eq!(SYS_FSTAT, n::SYS_FSTAT);
    assert_eq!(SYS_FSTATVFS, n::SYS_FSTATVFS);
    assert_eq!(SYS_FSYNC, n::SYS_FSYNC);
    assert_eq!(SYS_FTRUNCATE, n::SYS_FTRUNCATE);
    assert_eq!(SYS_FUTIMENS, n::SYS_FUTIMENS);
    assert_eq!(SYS_CLOSE, n::SYS_CLOSE);
    assert_eq!(KSMSG_MMAP_PREP, n::KSMSG_MMAP_PREP);
    assert_eq!(KSMSG_MUNMAP, n::KSMSG_MUNMAP);
}

#[test]
fn error_numbers_are_the_protocols() {
    assert_eq!(ENOENT, e::ENOENT);
    assert_eq!(EINTR, e::EINTR);
    assert_eq!(EBADF, e::EBADF);
    assert_eq!(EFAULT, e::EFAULT);
    assert_eq!(EINVAL, e::EINVAL);
    assert_eq!(ENOSYS, e::ENOSYS);
    assert_eq!(EOPNOTSUPP, e::EOPNOTSUPP);
    assert_eq!(SchemeError::NoEntry.errno(), e::ENOENT);
    assert_eq!(SchemeError::BadFile.errno(), e::EBADF);
    assert_eq!(SchemeError::BadAddress.errno(), e::EFAULT);
    assert_eq!(SchemeError::InvalidArgument.errno(), e::EINVAL);
    assert_eq!(SchemeError::NotImplemented.errno(), e::ENOSYS);
    assert_eq!(SchemeError::NotSupported.errno(), e::EOPNOTSUPP);
}

#[test]
fn numbers_decode_to_their_calls() {
    let table = [
        (SYS_OPEN, Call::Open),
        (SYS_RMDIR, Call::Rmdir),
        (SYS_UNLINK, Call::Unlink),
        (SYS_DUP, Call::Dup),
        (SYS_READ, Call::Read),
        (SYS_WRITE, Call::Write),
        (SYS_FCHMOD, Call::Fchmod),
        (SYS_FCHOWN, Call::Fchown),
        (SYS_FCNTL, Call::Fcntl),
        (SYS_FEVENT, Call::Fevent),
        (SYS_FPATH, Call::Fpath),
        (SYS_FRENAME, Call::Frename),
        (SYS_FSTAT, Call::Fstat),
        (SYS_FSTATVFS, Call::Fstatvfs),
        (SYS_FSYNC, Call::Fsync),
        (SYS_FTRUNCATE, Call::Ftruncate),
        (SYS_FUTIMENS, Call::Futimens),
        (SYS_CLOSE, Call::Close),
        (KSMSG_MMAP_PREP, Call::MmapPrep),
        (KSMSG_MUNMAP, Call::Munmap),
    ];
    for (number, call) in table {
        assert_eq!(decode_call(number), call);
    }
    assert_eq!(decode_call(0), Call::Unsupported);
    assert_eq!(decode_call(syscall::number::SYS_OPENAT), Call::Unsupported);
}
