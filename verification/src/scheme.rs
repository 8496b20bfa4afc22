//! The slot scheme: four machine words behind a file-like interface.

use vstd::prelude::*;
use vstd::utf8::valid_utf8;
use std::collections::BTreeMap;
use crate::protocol::{Call, SchemeError, call_named, decode_call, errno_of};
use crate::native::{
    errno_word, mux, str_from_utf8,
    lemma_ne_bytes_len, lemma_ne_value_of_bytes, lemma_word_bounds, ne_bytes, ne_value,
    word_bytes, word_from_ne_bytes, word_to_ne_bytes,
};

verus! {

/// What a call of the scheme answers: nothing yet (`None`), a value, or an
/// error.
pub type CallResult = Result<Option<usize>, SchemeError>;

/// The number of slots.
pub const SLOT_COUNT: usize = 4;

/// An open file of the scheme.
struct Handle {
    /// The slot to which this handle points.
    current_slot: usize,
}

/// A request of the kernel to the scheme, as the plain numbers it carries.
#[derive(Clone, Copy, Debug, PartialEq, Eq, Structural)]
pub struct Packet {
    pub id: u64,
    pub pid: usize,
    pub uid: u32,
    pub gid: u32,
    /// The call's number.
    pub a: usize,
    pub b: usize,
    pub c: usize,
    pub d: usize,
}

/// Where an opened file lives.
#[derive(Clone, Copy, Debug, PartialEq, Eq, Structural)]
pub enum OpenResult {
    /// A file of this scheme, with the number that names it.
    ThisScheme { number: usize },
    /// A file that another scheme serves.
    OtherScheme { fd: usize },
}

/// The slot device.
pub struct SlotScheme {
    next_id: usize,
    slots: [usize; 4],
    current_slot: usize,
    handles: BTreeMap<usize, Handle>,
}

/// The state of a slot device.
#[verifier::ext_equal]
pub struct SchemeState {
    /// The last number handed out to an opened file.
    pub next_id: usize,
    /// The values of the slots.
    pub slots: Seq<usize>,
    /// The slot that reads and writes go to.
    pub current_slot: usize,
    /// The open files, each with the slot it points to.
    pub handles: Map<usize, usize>,
}

impl View for SlotScheme {
    type V = SchemeState;

    closed spec fn view(&self) -> SchemeState {
        SchemeState {
            next_id: self.next_id,
            slots: self.slots@,
            current_slot: self.current_slot,
            handles: self.handles@.map_values(|h: Handle| h.current_slot),
        }
    }
}

/// What holds of every state that the scheme reaches: four slots, a
/// selected slot among them, and open files numbered from 1 up to the last
/// number handed out, each pointing to the first slot.
pub open spec fn state_wf(s: SchemeState) -> bool {
    &&& s.slots.len() == SLOT_COUNT
    &&& s.current_slot < SLOT_COUNT
    &&& s.handles.dom().finite()
    &&& forall|id: usize| #[trigger]
        s.handles.contains_key(id) ==> 1 <= id <= s.next_id && s.handles[id] == 0
}

/// The state after a file is opened: the next number names it.
pub open spec fn opened(s: SchemeState) -> SchemeState {
    SchemeState {
        next_id: (s.next_id + 1) as usize,
        handles: s.handles.insert((s.next_id + 1) as usize, 0),
        ..s
    }
}

/// The state after `value` is written to the selected slot.
pub open spec fn written(s: SchemeState, value: usize) -> SchemeState {
    SchemeState { slots: s.slots.update(s.current_slot as int, value), ..s }
}

/// The state after slot `slot` is selected.
pub open spec fn selected(s: SchemeState, slot: usize) -> SchemeState {
    SchemeState { current_slot: slot, ..s }
}

/// The state after file `id` is closed.
pub open spec fn closed(s: SchemeState, id: usize) -> SchemeState {
    SchemeState { handles: s.handles.remove(id), ..s }
}

/// A call of one of the device's own operations, as far as it changes the
/// device: the bytes a write is given, the slot a truncation asks for, the
/// file a close names.
pub enum Op {
    Open,
    Read,
    Write { bytes: Seq<u8> },
    Ftruncate { len: usize },
    Close { id: usize },
}

/// The state after operation `op` in state `s`: `SlotScheme::open`,
/// `read_old`, `write_old`, `ftruncate` and `close` each leave exactly this
/// state.  A refused operation leaves `s` as it was.
pub open spec fn op_effect(s: SchemeState, op: Op) -> SchemeState {
    match op {
        Op::Open => opened(s),
        Op::Read => s,
        Op::Write { bytes } => if bytes.len() == word_bytes() && s.current_slot < SLOT_COUNT {
            written(s, ne_value(bytes))
        } else {
            s
        },
        Op::Ftruncate { len } => if len <= 3 {
            selected(s, len)
        } else {
            s
        },
        Op::Close { id } => if s.handles.contains_key(id) {
            closed(s, id)
        } else {
            s
        },
    }
}

/// The caller's buffer after a read: its first four bytes replaced by the
/// first four bytes of the selected slot in the machine's byte order.
pub open spec fn read_into(s: SchemeState, buf: Seq<u8>) -> Seq<u8> {
    ne_bytes(s.slots[s.current_slot as int]).subrange(0, 4) + buf.subrange(4, buf.len() as int)
}


/// The part of the caller's memory that a packet's call looks at: where it
/// starts, how long it is, and whether the scheme writes to it.
#[derive(Clone, Copy, Debug, PartialEq, Eq, Structural)]
pub struct Region {
    pub addr: usize,
    pub len: usize,
    pub writable: bool,
}

/// The caller's memory that the call of `p` looks at: the path of an open,
/// rmdir or unlink (`b`, `c`), the new path of a rename and the bytes of a
/// write (`c`, `d`), and the buffer that a read fills (`c`, `d`).  The other
/// calls look at none.
pub open spec fn region_of(p: Packet) -> Option<Region> {
    match call_named(p.a) {
        Call::Open | Call::Rmdir | Call::Unlink => Some(Region { addr: p.b, len: p.c, writable: false }),
        Call::Frename | Call::Write => Some(Region { addr: p.c, len: p.d, writable: false }),
        Call::Read => Some(Region { addr: p.c, len: p.d, writable: true }),
        _ => None,
    }
}

/// Tells which part of the caller's memory the call of `packet` looks at.
pub fn packet_region(packet: &Packet) -> (region: Option<Region>)
    ensures
        region == region_of(*packet),
{
    match decode_call(packet.a) {
        Call::Open | Call::Rmdir | Call::Unlink => Some(Region { addr: packet.b, len: packet.c, writable: false }),
        Call::Frename | Call::Write => Some(Region { addr: packet.c, len: packet.d, writable: false }),
        Call::Read => Some(Region { addr: packet.c, len: packet.d, writable: true }),
        _ => None,
    }
}

/// An open answered by a file of this scheme, or an open's error.
pub open spec fn in_this_scheme(r: CallResult) -> Result<Option<OpenResult>, SchemeError> {
    match r {
        Ok(Some(number)) => Ok(Some(OpenResult::ThisScheme { number })),
        Ok(None) => Ok(None),
        Err(e) => Err(e),
    }
}

/// The answer to an open: the number of a file of this scheme; a file of
/// another scheme is not supported here.
pub open spec fn open_answer(r: Result<Option<OpenResult>, SchemeError>) -> CallResult {
    match r {
        Ok(Some(OpenResult::ThisScheme { number })) => Ok(Some(number)),
        Ok(Some(OpenResult::OtherScheme { .. })) => Err(SchemeError::NotSupported),
        Ok(None) => Ok(None),
        Err(e) => Err(e),
    }
}

/// The word that answers a call: `None` where there is no answer yet, the
/// value, or the error's word.
pub open spec fn reply_of(r: CallResult) -> Option<usize> {
    match r {
        Ok(v) => v,
        Err(e) => Some(errno_word(errno_of(e))),
    }
}

/// A call that the scheme does not serve and that leaves everything as it
/// was, with its answer.
pub open spec fn refused(s: SchemeState, data: Seq<u8>, e: SchemeError) -> (SchemeState, CallResult, Seq<u8>) {
    (s, Err(e), data)
}

/// What serving packet `p` does to state `s` and to the caller's memory
/// `data` (the region that `region_of(p)` names), with the call's answer.
///
/// Calls that the slot device does not provide are answered as the scheme
/// protocol answers them by default: `NoEntry` for rmdir and unlink,
/// `BadFile` for the calls on an open file, `NotSupported` for memory
/// mapping, `NotImplemented` for an unknown number.  A path that is no valid
/// UTF-8 is an invalid argument, and a record buffer smaller than its
/// record is a bad address.
pub open spec fn outcome(s: SchemeState, p: Packet, data: Seq<u8>) -> (SchemeState, CallResult, Seq<u8>) {
    match call_named(p.a) {
        Call::Open => if valid_utf8(data) {
            (opened(s), Ok(Some(opened(s).next_id)), data)
        } else {
            refused(s, data, SchemeError::InvalidArgument)
        },
        Call::Rmdir | Call::Unlink => if valid_utf8(data) {
            refused(s, data, SchemeError::NoEntry)
        } else {
            refused(s, data, SchemeError::InvalidArgument)
        },
        Call::Read => (s, Ok(Some(0usize)), read_into(s, data)),
        Call::Write => if data.len() == word_bytes() {
            (written(s, ne_value(data)), Ok(Some(0usize)), data)
        } else {
            refused(s, data, SchemeError::InvalidArgument)
        },
        Call::Frename => if valid_utf8(data) {
            refused(s, data, SchemeError::BadFile)
        } else {
            refused(s, data, SchemeError::InvalidArgument)
        },
        Call::Fstat => if p.d >= vstd::layout::size_of::<syscall::data::Stat>() {
            refused(s, data, SchemeError::BadFile)
        } else {
            refused(s, data, SchemeError::BadAddress)
        },
        Call::Fstatvfs => if p.d >= vstd::layout::size_of::<syscall::data::StatVfs>() {
            refused(s, data, SchemeError::BadFile)
        } else {
            refused(s, data, SchemeError::BadAddress)
        },
        Call::Futimens => if p.d >= vstd::layout::size_of::<syscall::data::TimeSpec>() {
            refused(s, data, SchemeError::BadFile)
        } else {
            refused(s, data, SchemeError::BadAddress)
        },
        Call::Ftruncate => if p.c > 3 {
            refused(s, data, SchemeError::InvalidArgument)
        } else {
            (selected(s, p.c), Ok(Some(0usize)), data)
        },
        Call::Close => if s.handles.contains_key(p.b) {
            (closed(s, p.b), Ok(Some(0usize)), data)
        } else {
            refused(s, data, SchemeError::BadFile)
        },
        Call::Dup | Call::Fchmod | Call::Fchown | Call::Fcntl | Call::Fevent | Call::Fpath
        | Call::Fsync => refused(s, data, SchemeError::BadFile),
        Call::MmapPrep | Call::Munmap => refused(s, data, SchemeError::NotSupported),
        Call::Unsupported => refused(s, data, SchemeError::NotImplemented),
    }
}

/// Turns the result of an open or dup into the call's answer: the number
/// of a file of this scheme, `NotSupported` for a file of another scheme.
pub fn convert_in_scheme_handle_block(
    _packet: &Packet,
    result: Result<Option<OpenResult>, SchemeError>,
) -> (r: CallResult)
    ensures
        r == open_answer(result),
{
    match result {
        Ok(Some(OpenResult::ThisScheme { number })) => Ok(Some(number)),
        Ok(Some(OpenResult::OtherScheme { .. })) => Err(SchemeError::NotSupported),
        Ok(None) => Ok(None),
        Err(err) => Err(err),
    }
}

/// Marks the file that an open or dup names as a file of this scheme.
fn convert_to_this_scheme_block(r: CallResult) -> (o: Result<Option<OpenResult>, SchemeError>)
    ensures
        o == in_this_scheme(r),
{
    match r {
        Ok(Some(number)) => Ok(Some(OpenResult::ThisScheme { number })),
        Ok(None) => Ok(None),
        Err(e) => Err(e),
    }
}

/// The word that answers a call.
fn reply(r: CallResult) -> (word: Option<usize>)
    ensures
        word == reply_of(r),
{
    match r {
        Ok(None) => None,
        Ok(Some(v)) => Some(mux(Ok(v))),
        Err(e) => {
            let errno = e.errno();
            Some(mux(Err(errno)))
        },
    }
}

impl SlotScheme {
    /// What holds of every scheme that `new` and the calls produce.
    pub open spec fn wf(&self) -> bool {
        state_wf(self@)
    }

    /// A scheme whose four slots hold 0, with the first slot selected and no
    /// file open.
    pub fn new() -> (scheme: Self)
        ensures
            scheme.wf(),
            scheme@.next_id == 0,
            scheme@.slots == seq![0usize, 0usize, 0usize, 0usize],
            scheme@.current_slot == 0,
            scheme@.handles == Map::<usize, usize>::empty(),
    {
        let scheme = Self { next_id: 0, slots: [0; 4], current_slot: 0, handles: BTreeMap::new() };
        proof {
            assert(scheme@.slots =~= seq![0usize, 0usize, 0usize, 0usize]);
            assert(scheme@.handles =~= Map::<usize, usize>::empty());
        }
        scheme
    }

    /// Whether another file can be opened: the numbers that name files are
    /// not used up.
    pub fn can_open(&self) -> (b: bool)
        ensures
            b == (self@.next_id < usize::MAX),
    {
        self.next_id < usize::MAX
    }

    /// Opens a file: the next number names it, and the new file points to
    /// the first slot.  The path, flags and caller are not looked at.
    pub fn open(&mut self, _path: &str, _flags: usize, _uid: u32, _gid: u32) -> (r: CallResult)
        requires
            old(self).wf(),
            old(self)@.next_id < usize::MAX,
        ensures
            final(self)@ == op_effect(old(self)@, Op::Open),
            final(self).wf(),
            final(self)@ == opened(old(self)@),
            r == Ok::<Option<usize>, SchemeError>(Some(final(self)@.next_id)),
    {
        self.next_id += 1;
        let id = self.next_id;
        self.handles.insert(id, Handle { current_slot: 0 });
        proof {
            assert(self@ =~= opened(old(self)@));
        }
        Ok(Some(id))
    }

    /// Reads the selected slot: its first four bytes in the machine's byte
    /// order go to the start of `buf`, and the answer is 0.  Any file
    /// number reads.  Where the selected slot is none of the four, the
    /// answer is `BadAddress` and nothing changes.
    pub fn read_old(&mut self, _id: usize, buf: &mut [u8]) -> (r: CallResult)
        requires
            old(self)@.current_slot < SLOT_COUNT ==> old(buf)@.len() >= 4,
        ensures
            final(self)@ == op_effect(old(self)@, Op::Read),
            final(self)@ == old(self)@,
            old(self)@.current_slot < SLOT_COUNT ==> final(buf)@ == read_into(old(self)@, old(buf)@)
                && r == Ok::<Option<usize>, SchemeError>(Some(0usize)),
            old(self)@.current_slot >= SLOT_COUNT ==> final(buf)@ == old(buf)@ && r == Err::<
                Option<usize>,
                SchemeError,
            >(SchemeError::BadAddress),
    {
        if self.current_slot >= SLOT_COUNT {
            return Err(SchemeError::BadAddress);
        }
        let slot_value = word_to_ne_bytes(self.slots[self.current_slot]);
        proof {
            lemma_word_bounds();
            lemma_ne_bytes_len(self.slots[self.current_slot as int]);
        }
        buf[0] = slot_value[0];
        buf[1] = slot_value[1];
        buf[2] = slot_value[2];
        buf[3] = slot_value[3];
        proof {
            assert(buf@ =~= read_into(old(self)@, old(buf)@));
        }
        Ok(Some(0))
    }

    /// Writes the word whose bytes, in the machine's byte order, are `buf`
    /// to the selected slot, and answers 0.  More bytes than one word are
    /// refused as an invalid argument; where the selected slot is none of
    /// the four, the answer is `BadAddress`.  A refused write changes
    /// nothing.  Any file number writes.
    pub fn write_old(&mut self, _id: usize, buf: &[u8]) -> (r: CallResult)
        requires
            buf@.len() >= word_bytes(),
        ensures
            final(self)@ == op_effect(old(self)@, Op::Write { bytes: buf@ }),
            old(self).wf() ==> final(self).wf(),
            buf@.len() > word_bytes() ==> r == Err::<Option<usize>, SchemeError>(
                SchemeError::InvalidArgument,
            ) && final(self)@ == old(self)@,
            buf@.len() == word_bytes() && old(self)@.current_slot >= SLOT_COUNT ==> r == Err::<
                Option<usize>,
                SchemeError,
            >(SchemeError::BadAddress) && final(self)@ == old(self)@,
            buf@.len() == word_bytes() && old(self)@.current_slot < SLOT_COUNT ==> r == Ok::<
                Option<usize>,
                SchemeError,
            >(Some(0usize)) && final(self)@ == written(old(self)@, ne_value(buf@)),
    {
        let width = core::mem::size_of::<usize>();
        let int_bytes = vstd::slice::slice_subrange(buf, 0, width);
        let rest_len = buf.len() - width;
        if rest_len > 0 {
            return Err(SchemeError::InvalidArgument);
        }
        let value = word_from_ne_bytes(int_bytes);
        if self.current_slot >= SLOT_COUNT {
            return Err(SchemeError::BadAddress);
        }
        self.slots[self.current_slot] = value;
        proof {
            assert(int_bytes@ =~= buf@);
            lemma_ne_value_of_bytes(value);
            assert(self@ =~= written(old(self)@, ne_value(buf@)));
        }
        Ok(Some(0))
    }

    /// Selects slot `len` for the reads and writes that follow; a number
    /// above 3 is refused as an invalid argument.
    pub fn ftruncate(&mut self, _id: usize, len: usize) -> (r: CallResult)
        requires
            old(self).wf(),
        ensures
            final(self)@ == op_effect(old(self)@, Op::Ftruncate { len }),
            final(self).wf(),
            len > 3 ==> r == Err::<Option<usize>, SchemeError>(SchemeError::InvalidArgument)
                && final(self)@ == old(self)@,
            len <= 3 ==> r == Ok::<Option<usize>, SchemeError>(Some(0usize)) && final(self)@
                == selected(old(self)@, len),
    {
        if len > 3 {
            Err(SchemeError::InvalidArgument)
        } else {
            self.current_slot = len;
            proof {
                assert(self@ =~= selected(old(self)@, len));
            }
            Ok(Some(0))
        }
    }

    /// Closes file `id`; a number that names no open file is answered with
    /// `BadFile`.
    pub fn close(&mut self, id: usize) -> (r: CallResult)
        requires
            old(self).wf(),
        ensures
            final(self)@ == op_effect(old(self)@, Op::Close { id }),
            final(self).wf(),
            old(self)@.handles.contains_key(id) ==> r == Ok::<Option<usize>, SchemeError>(
                Some(0usize),
            ) && final(self)@ == closed(old(self)@, id),
            !old(self)@.handles.contains_key(id) ==> r == Err::<Option<usize>, SchemeError>(
                SchemeError::BadFile,
            ) && final(self)@ == old(self)@,
    {
        match self.handles.remove(&id) {
            Some(_handle) => {
                proof {
                    assert(self@ =~= closed(old(self)@, id));
                }
                Ok(Some(0))
            },
            None => {
                proof {
                    assert(self@ =~= old(self)@);
                }
                Err(SchemeError::BadFile)
            },
        }
    }
    /// Serves one request of the kernel.  `data` is the caller's memory that
    /// `packet_region(packet)` names (empty where it names none); a read
    /// fills it.  The answer is the word to send back: `None` where the
    /// request stays pending, otherwise the call's value or its error word.
    pub fn handle(&mut self, packet: &Packet, data: &mut [u8]) -> (reply: Option<usize>)
        requires
            old(self).wf(),
            region_of(*packet) matches Some(r) ==> old(data)@.len() == r.len,
            call_named(packet.a) == Call::Read ==> packet.d >= 4,
            call_named(packet.a) == Call::Write ==> packet.d >= word_bytes(),
            call_named(packet.a) == Call::Open && valid_utf8(old(data)@) ==> old(self)@.next_id
                < usize::MAX,
        ensures
            final(self).wf(),
            final(self)@ == outcome(old(self)@, *packet, old(data)@).0,
            reply == reply_of(outcome(old(self)@, *packet, old(data)@).1),
            final(data)@ == outcome(old(self)@, *packet, old(data)@).2,
    {
        let call = decode_call(packet.a);
        let res: CallResult = match call {
            Call::Open => match str_from_utf8(data) {
                Some(path) => convert_in_scheme_handle_block(
                    packet,
                    convert_to_this_scheme_block(self.open(path, packet.d, packet.uid, packet.gid)),
                ),
                None => Err(SchemeError::InvalidArgument),
            },
            Call::Rmdir | Call::Unlink => match str_from_utf8(data) {
                Some(_path) => Err(SchemeError::NoEntry),
                None => Err(SchemeError::InvalidArgument),
            },
            Call::Dup => convert_in_scheme_handle_block(
                packet,
                convert_to_this_scheme_block(Err(SchemeError::BadFile)),
            ),
            Call::Read => self.read_old(packet.b, data),
            Call::Write => self.write_old(packet.b, data),
            Call::Frename => match str_from_utf8(data) {
                Some(_path) => Err(SchemeError::BadFile),
                None => Err(SchemeError::InvalidArgument),
            },
            Call::Fstat => if packet.d >= core::mem::size_of::<syscall::data::Stat>() {
                Err(SchemeError::BadFile)
            } else {
                Err(SchemeError::BadAddress)
            },
            Call::Fstatvfs => if packet.d >= core::mem::size_of::<syscall::data::StatVfs>() {
                Err(SchemeError::BadFile)
            } else {
                Err(SchemeError::BadAddress)
            },
            Call::Futimens => if packet.d >= core::mem::size_of::<syscall::data::TimeSpec>() {
                Err(SchemeError::BadFile)
            } else {
                Err(SchemeError::BadAddress)
            },
            Call::Ftruncate => self.ftruncate(packet.b, packet.c),
            Call::Close => self.close(packet.b),
            Call::Fchmod | Call::Fchown | Call::Fcntl | Call::Fevent | Call::Fpath | Call::Fsync => {
                Err(SchemeError::BadFile)
            },
            Call::MmapPrep | Call::Munmap => Err(SchemeError::NotSupported),
            Call::Unsupported => Err(SchemeError::NotImplemented),
        };
        reply(res)
    }
}

} // verus!
