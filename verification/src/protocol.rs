//! Numbers of the Redox scheme protocol: the calls a scheme is asked to
//! serve and the error numbers it answers with.

use vstd::prelude::*;

verus! {

/// Open a path on this scheme.
pub const SYS_OPEN: usize = 0x1010_0005;
/// Remove a directory.
pub const SYS_RMDIR: usize = 0x1000_0054;
/// Remove a file.
pub const SYS_UNLINK: usize = 0x1000_000a;
/// Duplicate an open handle.
pub const SYS_DUP: usize = 0x2010_0029;
/// Read from an open handle into the caller's buffer.
pub const SYS_READ: usize = 0x2200_0003;
/// Write the caller's buffer to an open handle.
pub const SYS_WRITE: usize = 0x2100_0004;
/// Change the mode of an open handle.
pub const SYS_FCHMOD: usize = 0x2000_005e;
/// Change the owner of an open handle.
pub const SYS_FCHOWN: usize = 0x2000_00cf;
/// File control.
pub const SYS_FCNTL: usize = 0x2000_0037;
/// Register for events on an open handle.
pub const SYS_FEVENT: usize = 0x2000_039f;
/// Path of an open handle.
pub const SYS_FPATH: usize = 0x2200_03a0;
/// Rename an open handle.
pub const SYS_FRENAME: usize = 0x2300_0026;
/// Status of an open handle.
pub const SYS_FSTAT: usize = 0x2200_001c;
/// File system status of an open handle.
pub const SYS_FSTATVFS: usize = 0x2200_0064;
/// Flush an open handle.
pub const SYS_FSYNC: usize = 0x2000_0076;
/// Truncate an open handle to a length.
pub const SYS_FTRUNCATE: usize = 0x2000_005d;
/// Set the times of an open handle.
pub const SYS_FUTIMENS: usize = 0x2100_0140;
/// Close an open handle.
pub const SYS_CLOSE: usize = 0x2000_0006;
/// Kernel message: prepare a memory mapping.
pub const KSMSG_MMAP_PREP: usize = 0x2000_004b;
/// Kernel message: remove a memory mapping.
pub const KSMSG_MUNMAP: usize = 0x2000_004a;

/// No such file or directory.
pub const ENOENT: i32 = 2;
/// Interrupted system call.
pub const EINTR: i32 = 4;
/// Bad file number.
pub const EBADF: i32 = 9;
/// Bad address.
pub const EFAULT: i32 = 14;
/// Invalid argument.
pub const EINVAL: i32 = 22;
/// Function not implemented.
pub const ENOSYS: i32 = 38;
/// Operation not supported.
pub const EOPNOTSUPP: i32 = 95;

/// The calls that a scheme is asked to serve.
#[derive(Clone, Copy, Debug, PartialEq, Eq, Structural)]
pub enum Call {
    Open,
    Rmdir,
    Unlink,
    Dup,
    Read,
    Write,
    Fchmod,
    Fchown,
    Fcntl,
    Fevent,
    Fpath,
    Frename,
    Fstat,
    Fstatvfs,
    Fsync,
    Ftruncate,
    Futimens,
    Close,
    MmapPrep,
    Munmap,
    /// A number that names none of the calls above.
    Unsupported,
}

/// The number by which the protocol names a call.
pub open spec fn call_number(call: Call) -> Option<usize> {
    match call {
        Call::Open => Some(SYS_OPEN),
        Call::Rmdir => Some(SYS_RMDIR),
        Call::Unlink => Some(SYS_UNLINK),
        Call::Dup => Some(SYS_DUP),
        Call::Read => Some(SYS_READ),
        Call::Write => Some(SYS_WRITE),
        Call::Fchmod => Some(SYS_FCHMOD),
        Call::Fchown => Some(SYS_FCHOWN),
        Call::Fcntl => Some(SYS_FCNTL),
        Call::Fevent => Some(SYS_FEVENT),
        Call::Fpath => Some(SYS_FPATH),
        Call::Frename => Some(SYS_FRENAME),
        Call::Fstat => Some(SYS_FSTAT),
        Call::Fstatvfs => Some(SYS_FSTATVFS),
        Call::Fsync => Some(SYS_FSYNC),
        Call::Ftruncate => Some(SYS_FTRUNCATE),
        Call::Futimens => Some(SYS_FUTIMENS),
        Call::Close => Some(SYS_CLOSE),
        Call::MmapPrep => Some(KSMSG_MMAP_PREP),
        Call::Munmap => Some(KSMSG_MUNMAP),
        Call::Unsupported => None,
    }
}

/// The call that the number `a` names: the one whose number it is, or
/// `Unsupported` when it is the number of none.
pub open spec fn call_named(a: usize) -> Call {
    if exists|c: Call| call_number(c) == Some(a) {
        choose|c: Call| call_number(c) == Some(a)
    } else {
        Call::Unsupported
    }
}

/// Tells which call the number `a` of a packet names.
pub fn decode_call(a: usize) -> (call: Call)
    ensures
        call == call_named(a),
{
    let call = if a == SYS_OPEN {
        Call::Open
    } else if a == SYS_RMDIR {
        Call::Rmdir
    } else if a == SYS_UNLINK {
        Call::Unlink
    } else if a == SYS_DUP {
        Call::Dup
    } else if a == SYS_READ {
        Call::Read
    } else if a == SYS_WRITE {
        Call::Write
    } else if a == SYS_FCHMOD {
        Call::Fchmod
    } else if a == SYS_FCHOWN {
        Call::Fchown
    } else if a == SYS_FCNTL {
        Call::Fcntl
    } else if a == SYS_FEVENT {
        Call::Fevent
    } else if a == SYS_FPATH {
        Call::Fpath
    } else if a == SYS_FRENAME {
        Call::Frename
    } else if a == SYS_FSTAT {
        Call::Fstat
    } else if a == SYS_FSTATVFS {
        Call::Fstatvfs
    } else if a == SYS_FSYNC {
        Call::Fsync
    } else if a == SYS_FTRUNCATE {
        Call::Ftruncate
    } else if a == SYS_FUTIMENS {
        Call::Futimens
    } else if a == SYS_CLOSE {
        Call::Close
    } else if a == KSMSG_MMAP_PREP {
        Call::MmapPrep
    } else if a == KSMSG_MUNMAP {
        Call::Munmap
    } else {
        Call::Unsupported
    };
    proof {
        lemma_call_number_injective();
        if call != Call::Unsupported {
            assert(call_number(call) == Some(a));
        }
    }
    call
}

/// No two calls share a number.
pub proof fn lemma_call_number_injective()
    ensures
        forall|c1: Call, c2: Call|
            #[trigger] call_number(c1) == #[trigger] call_number(c2) && call_number(c1) is Some
                ==> c1 == c2,
{
}

/// Each protocol number names its own call, and a number that names none
/// is unsupported.
pub proof fn law_numbers_name_their_calls(a: usize)
    ensures
        call_named(SYS_OPEN) == Call::Open,
        call_named(SYS_RMDIR) == Call::Rmdir,
        call_named(SYS_UNLINK) == Call::Unlink,
        call_named(SYS_DUP) == Call::Dup,
        call_named(SYS_READ) == Call::Read,
        call_named(SYS_WRITE) == Call::Write,
        call_named(SYS_FCHMOD) == Call::Fchmod,
        call_named(SYS_FCHOWN) == Call::Fchown,
        call_named(SYS_FCNTL) == Call::Fcntl,
        call_named(SYS_FEVENT) == Call::Fevent,
        call_named(SYS_FPATH) == Call::Fpath,
        call_named(SYS_FRENAME) == Call::Frename,
        call_named(SYS_FSTAT) == Call::Fstat,
        call_named(SYS_FSTATVFS) == Call::Fstatvfs,
        call_named(SYS_FSYNC) == Call::Fsync,
        call_named(SYS_FTRUNCATE) == Call::Ftruncate,
        call_named(SYS_FUTIMENS) == Call::Futimens,
        call_named(SYS_CLOSE) == Call::Close,
        call_named(KSMSG_MMAP_PREP) == Call::MmapPrep,
        call_named(KSMSG_MUNMAP) == Call::Munmap,
        call_named(a) != Call::Unsupported ==> call_number(call_named(a)) == Some(a),
{
    lemma_call_number_injective();
    assert(call_number(Call::Open) == Some(SYS_OPEN));
    assert(call_number(Call::Rmdir) == Some(SYS_RMDIR));
    assert(call_number(Call::Unlink) == Some(SYS_UNLINK));
    assert(call_number(Call::Dup) == Some(SYS_DUP));
    assert(call_number(Call::Read) == Some(SYS_READ));
    assert(call_number(Call::Write) == Some(SYS_WRITE));
    assert(call_number(Call::Fchmod) == Some(SYS_FCHMOD));
    assert(call_number(Call::Fchown) == Some(SYS_FCHOWN));
    assert(call_number(Call::Fcntl) == Some(SYS_FCNTL));
    assert(call_number(Call::Fevent) == Some(SYS_FEVENT));
    assert(call_number(Call::Fpath) == Some(SYS_FPATH));
    assert(call_number(Call::Frename) == Some(SYS_FRENAME));
    assert(call_number(Call::Fstat) == Some(SYS_FSTAT));
    assert(call_number(Call::Fstatvfs) == Some(SYS_FSTATVFS));
    assert(call_number(Call::Fsync) == Some(SYS_FSYNC));
    assert(call_number(Call::Ftruncate) == Some(SYS_FTRUNCATE));
    assert(call_number(Call::Futimens) == Some(SYS_FUTIMENS));
    assert(call_number(Call::Close) == Some(SYS_CLOSE));
    assert(call_number(Call::MmapPrep) == Some(KSMSG_MMAP_PREP));
    assert(call_number(Call::Munmap) == Some(KSMSG_MUNMAP));
}

/// The errors with which this scheme answers a call.
#[derive(Clone, Copy, Debug, PartialEq, Eq, Structural)]
pub enum SchemeError {
    /// `ENOENT`: no such file or directory.
    NoEntry,
    /// `EBADF`: the handle does not name an open file, or the call is not
    /// served on it.
    BadFile,
    /// `EFAULT`: the caller's memory is too small for the answer.
    BadAddress,
    /// `EINVAL`: an argument is invalid.
    InvalidArgument,
    /// `ENOSYS`: the call is not implemented.
    NotImplemented,
    /// `EOPNOTSUPP`: the operation is not supported.
    NotSupported,
}

/// The error number of an error.
pub open spec fn errno_of(e: SchemeError) -> i32 {
    match e {
        SchemeError::NoEntry => ENOENT,
        SchemeError::BadFile => EBADF,
        SchemeError::BadAddress => EFAULT,
        SchemeError::InvalidArgument => EINVAL,
        SchemeError::NotImplemented => ENOSYS,
        SchemeError::NotSupported => EOPNOTSUPP,
    }
}

/// Each error is reported by its protocol error number.
pub proof fn law_error_numbers()
    ensures
        errno_of(SchemeError::NoEntry) == ENOENT,
        errno_of(SchemeError::BadFile) == EBADF,
        errno_of(SchemeError::BadAddress) == EFAULT,
        errno_of(SchemeError::InvalidArgument) == EINVAL,
        errno_of(SchemeError::NotImplemented) == ENOSYS,
        errno_of(SchemeError::NotSupported) == EOPNOTSUPP,
{
}

impl SchemeError {
    /// The protocol's error number for this error.
    pub fn errno(&self) -> (n: i32)
        ensures
            n == errno_of(*self),
            0 < n,
    {
        match self {
            SchemeError::NoEntry => ENOENT,
            SchemeError::BadFile => EBADF,
            SchemeError::BadAddress => EFAULT,
            SchemeError::InvalidArgument => EINVAL,
            SchemeError::NotImplemented => ENOSYS,
            SchemeError::NotSupported => EOPNOTSUPP,
        }
    }
}

} // verus!
