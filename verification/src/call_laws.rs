//! What each operation and each kernel request does, stated field by field
//! over the state before and after, the caller's memory and the answer.

use vstd::prelude::*;
use vstd::utf8::valid_utf8;
use crate::native::{lemma_bytes_encode_a_word, lemma_ne_bytes_len, lemma_word_bounds, ne_bytes, word_bytes};
use crate::protocol::{call_named, Call, SchemeError};
use crate::scheme::{open_answer, OpenResult, op_effect, outcome, region_of, reply_of, state_wf, Op, Packet, Region, SchemeState, SLOT_COUNT};

verus! {

/// Whether two states hold the same slots, selection, last number and
/// open files.
pub open spec fn same_state(t: SchemeState, s: SchemeState) -> bool {
    &&& t.slots == s.slots
    &&& t.current_slot == s.current_slot
    &&& t.next_id == s.next_id
    &&& t.handles == s.handles
}

/// `open` hands out the last number plus one, records that file as open,
/// pointing to the first slot, and leaves the slots and the selection.
pub proof fn law_open_effect(s: SchemeState)
    requires
        s.next_id < usize::MAX,
    ensures
        op_effect(s, Op::Open).next_id == s.next_id + 1,
        op_effect(s, Op::Open).handles == s.handles.insert((s.next_id + 1) as usize, 0usize),
        op_effect(s, Op::Open).slots == s.slots,
        op_effect(s, Op::Open).current_slot == s.current_slot,
{
}

/// `read_old` changes nothing in the device.
pub proof fn law_read_effect(s: SchemeState)
    ensures
        same_state(op_effect(s, Op::Read), s),
{
}

/// `write_old` of one word with a slot selected puts into the selected
/// slot the word whose native bytes are the ones written, and changes
/// nothing else; any other write changes nothing.
pub proof fn law_write_effect(s: SchemeState, bytes: Seq<u8>)
    requires
        state_wf(s),
    ensures
        bytes.len() == word_bytes() ==> ne_bytes(op_effect(s, Op::Write { bytes }).slots[s.current_slot as int]) == bytes,
        bytes.len() == word_bytes() ==> op_effect(s, Op::Write { bytes }).slots.len() == s.slots.len(),
        forall|i: int| 0 <= i < s.slots.len() && i != s.current_slot ==> #[trigger] op_effect(s, Op::Write { bytes }).slots[i] == s.slots[i],
        op_effect(s, Op::Write { bytes }).current_slot == s.current_slot,
        op_effect(s, Op::Write { bytes }).next_id == s.next_id,
        op_effect(s, Op::Write { bytes }).handles == s.handles,
        bytes.len() != word_bytes() ==> same_state(op_effect(s, Op::Write { bytes }), s),
{
    if bytes.len() == word_bytes() {
        lemma_bytes_encode_a_word(bytes);
    }
}

/// `ftruncate` to a slot number of at most 3 selects that slot and changes
/// nothing else; a larger number changes nothing.
pub proof fn law_ftruncate_effect(s: SchemeState, len: usize)
    ensures
        len <= 3 ==> op_effect(s, Op::Ftruncate { len }).current_slot == len,
        len <= 3 ==> op_effect(s, Op::Ftruncate { len }).slots == s.slots,
        len <= 3 ==> op_effect(s, Op::Ftruncate { len }).handles == s.handles,
        len <= 3 ==> op_effect(s, Op::Ftruncate { len }).next_id == s.next_id,
        len > 3 ==> same_state(op_effect(s, Op::Ftruncate { len }), s),
{
}

/// `close` of an open file removes exactly that file: every other open
/// file stays open; closing a number that is not open changes nothing.
pub proof fn law_close_effect(s: SchemeState, id: usize)
    ensures
        s.handles.contains_key(id) ==> op_effect(s, Op::Close { id }).handles == s.handles.remove(id),
        !op_effect(s, Op::Close { id }).handles.contains_key(id),
        forall|other: usize|
            other != id && #[trigger] s.handles.contains_key(other) ==> op_effect(
                s,
                Op::Close { id },
            ).handles.contains_key(other) && op_effect(s, Op::Close { id }).handles[other]
                == s.handles[other],
        op_effect(s, Op::Close { id }).slots == s.slots,
        op_effect(s, Op::Close { id }).current_slot == s.current_slot,
        op_effect(s, Op::Close { id }).next_id == s.next_id,
        !s.handles.contains_key(id) ==> same_state(op_effect(s, Op::Close { id }), s),
{
}

/// A truncation request selects slot `c` when `c` is at most 3 and answers
/// 0; above 3 it is refused with `InvalidArgument` and changes nothing.
pub proof fn law_handle_ftruncate(s: SchemeState, p: Packet, data: Seq<u8>)
    requires
        call_named(p.a) == Call::Ftruncate,
    ensures
        p.c > 3 ==> outcome(s, p, data) == (s, Err::<Option<usize>, SchemeError>(SchemeError::InvalidArgument), data),
        p.c <= 3 ==> outcome(s, p, data).1 == Ok::<Option<usize>, SchemeError>(Some(0usize)),
        p.c <= 3 ==> outcome(s, p, data).0.current_slot == p.c,
        p.c <= 3 ==> outcome(s, p, data).0.slots == s.slots,
        p.c <= 3 ==> outcome(s, p, data).0.handles == s.handles,
        p.c <= 3 ==> outcome(s, p, data).2 == data,
{
}

/// A close request of an open file removes exactly that file and answers
/// 0; of a number that is not open it answers `BadFile` and changes
/// nothing.
pub proof fn law_handle_close(s: SchemeState, p: Packet, data: Seq<u8>)
    requires
        call_named(p.a) == Call::Close,
    ensures
        s.handles.contains_key(p.b) ==> outcome(s, p, data).0.handles == s.handles.remove(p.b),
        s.handles.contains_key(p.b) ==> outcome(s, p, data).1 == Ok::<Option<usize>, SchemeError>(Some(0usize)),
        s.handles.contains_key(p.b) ==> outcome(s, p, data).0.slots == s.slots
            && outcome(s, p, data).0.current_slot == s.current_slot,
        !s.handles.contains_key(p.b) ==> outcome(s, p, data) == (s, Err::<Option<usize>, SchemeError>(SchemeError::BadFile), data),
{
}

/// An open request with a UTF-8 path answers the last number plus one and
/// records that file as open; a path that is no UTF-8 is refused with
/// `InvalidArgument`.
pub proof fn law_handle_open(s: SchemeState, p: Packet, data: Seq<u8>)
    requires
        call_named(p.a) == Call::Open,
        s.next_id < usize::MAX,
    ensures
        valid_utf8(data) ==> outcome(s, p, data).1 == Ok::<Option<usize>, SchemeError>(Some((s.next_id + 1) as usize)),
        valid_utf8(data) ==> outcome(s, p, data).0.handles == s.handles.insert((s.next_id + 1) as usize, 0usize),
        valid_utf8(data) ==> outcome(s, p, data).0.next_id == s.next_id + 1,
        valid_utf8(data) ==> outcome(s, p, data).0.slots == s.slots
            && outcome(s, p, data).0.current_slot == s.current_slot,
        !valid_utf8(data) ==> outcome(s, p, data) == (s, Err::<Option<usize>, SchemeError>(SchemeError::InvalidArgument), data),
{
}

/// A read request answers 0, puts the first four native bytes of the
/// selected slot at the start of the caller's buffer, keeps the rest of the
/// buffer and changes nothing in the device.
pub proof fn law_handle_read(s: SchemeState, p: Packet, data: Seq<u8>)
    requires
        state_wf(s),
        call_named(p.a) == Call::Read,
        data.len() >= 4,
    ensures
        outcome(s, p, data).1 == Ok::<Option<usize>, SchemeError>(Some(0usize)),
        same_state(outcome(s, p, data).0, s),
        outcome(s, p, data).2.len() == data.len(),
        forall|i: int| 0 <= i < 4 ==> #[trigger] outcome(s, p, data).2[i] == ne_bytes(s.slots[s.current_slot as int])[i],
        forall|i: int| 4 <= i < data.len() ==> #[trigger] outcome(s, p, data).2[i] == data[i],
{
    lemma_word_bounds();
    lemma_ne_bytes_len(s.slots[s.current_slot as int]);
}

/// A write request of one word answers 0 and puts into the selected slot
/// the word whose native bytes are the ones written, leaving the other
/// slots; any other length is refused with `InvalidArgument`.
pub proof fn law_handle_write(s: SchemeState, p: Packet, data: Seq<u8>)
    requires
        state_wf(s),
        call_named(p.a) == Call::Write,
    ensures
        data.len() == word_bytes() ==> outcome(s, p, data).1 == Ok::<Option<usize>, SchemeError>(Some(0usize)),
        data.len() == word_bytes() ==> ne_bytes(outcome(s, p, data).0.slots[s.current_slot as int]) == data,
        data.len() == word_bytes() ==> forall|i: int| 0 <= i < SLOT_COUNT && i != s.current_slot
            ==> #[trigger] outcome(s, p, data).0.slots[i] == s.slots[i],
        data.len() == word_bytes() ==> outcome(s, p, data).0.current_slot == s.current_slot
            && outcome(s, p, data).0.handles == s.handles && outcome(s, p, data).2 == data,
        data.len() != word_bytes() ==> outcome(s, p, data) == (s, Err::<Option<usize>, SchemeError>(SchemeError::InvalidArgument), data),
{
    if data.len() == word_bytes() {
        lemma_bytes_encode_a_word(data);
    }
}

/// The calls the device does not provide are answered as the protocol
/// answers them by default, and change nothing.
pub proof fn law_handle_default_answers(s: SchemeState, p: Packet, data: Seq<u8>)
    ensures
        (call_named(p.a) == Call::Rmdir || call_named(p.a) == Call::Unlink) ==> outcome(s, p, data) == (s, Err::<Option<usize>, SchemeError>(
            if valid_utf8(data) { SchemeError::NoEntry } else { SchemeError::InvalidArgument },
        ), data),
        call_named(p.a) == Call::Frename ==> outcome(s, p, data) == (s, Err::<Option<usize>, SchemeError>(
            if valid_utf8(data) { SchemeError::BadFile } else { SchemeError::InvalidArgument },
        ), data),
        (call_named(p.a) == Call::Dup || call_named(p.a) == Call::Fchmod || call_named(p.a) == Call::Fchown
            || call_named(p.a) == Call::Fcntl || call_named(p.a) == Call::Fevent || call_named(p.a) == Call::Fpath
            || call_named(p.a) == Call::Fsync) ==> outcome(s, p, data) == (s, Err::<Option<usize>, SchemeError>(SchemeError::BadFile), data),
        call_named(p.a) == Call::Fstat ==> outcome(s, p, data) == (s, Err::<Option<usize>, SchemeError>(
            if p.d >= vstd::layout::size_of::<syscall::data::Stat>() { SchemeError::BadFile } else { SchemeError::BadAddress },
        ), data),
        call_named(p.a) == Call::Fstatvfs ==> outcome(s, p, data) == (s, Err::<Option<usize>, SchemeError>(
            if p.d >= vstd::layout::size_of::<syscall::data::StatVfs>() { SchemeError::BadFile } else { SchemeError::BadAddress },
        ), data),
        call_named(p.a) == Call::Futimens ==> outcome(s, p, data) == (s, Err::<Option<usize>, SchemeError>(
            if p.d >= vstd::layout::size_of::<syscall::data::TimeSpec>() { SchemeError::BadFile } else { SchemeError::BadAddress },
        ), data),
        (call_named(p.a) == Call::MmapPrep || call_named(p.a) == Call::Munmap) ==> outcome(s, p, data) == (s, Err::<Option<usize>, SchemeError>(SchemeError::NotSupported), data),
        call_named(p.a) == Call::Unsupported ==> outcome(s, p, data) == (s, Err::<Option<usize>, SchemeError>(SchemeError::NotImplemented), data),
{
}

/// The answer word of a request: the value, `None` where there is none, or
/// for an error the two's complement of its error number.
pub proof fn law_reply_words(r: Result<Option<usize>, SchemeError>)
    ensures
        r matches Ok(v) ==> reply_of(r) == v,
        r matches Err(e) ==> reply_of(r) == Some(
            (usize::MAX - (crate::protocol::errno_of(e) - 1)) as usize,
        ),
        r == Err::<Option<usize>, SchemeError>(SchemeError::InvalidArgument) ==> reply_of(r) == Some((usize::MAX - 21) as usize),
        r == Err::<Option<usize>, SchemeError>(SchemeError::BadFile) ==> reply_of(r) == Some((usize::MAX - 8) as usize),
{
}

/// The memory a request looks at: the path argument (`b`, `c`) of an open,
/// rmdir or unlink; the buffer (`c`, `d`) of a rename or write, read only;
/// the buffer (`c`, `d`) of a read, which the device fills; none for the
/// other calls.
pub proof fn law_packet_regions(p: Packet)
    ensures
        (call_named(p.a) == Call::Open || call_named(p.a) == Call::Rmdir || call_named(p.a) == Call::Unlink)
            ==> region_of(p) == Some(Region { addr: p.b, len: p.c, writable: false }),
        (call_named(p.a) == Call::Frename || call_named(p.a) == Call::Write)
            ==> region_of(p) == Some(Region { addr: p.c, len: p.d, writable: false }),
        call_named(p.a) == Call::Read ==> region_of(p) == Some(Region { addr: p.c, len: p.d, writable: true }),
        !(call_named(p.a) == Call::Open || call_named(p.a) == Call::Rmdir || call_named(p.a) == Call::Unlink
            || call_named(p.a) == Call::Frename || call_named(p.a) == Call::Write || call_named(p.a) == Call::Read)
            ==> region_of(p) is None,
{
}

/// An open or dup answered by a file of this scheme answers its number; a
/// file of another scheme is not supported; no answer and errors pass
/// through.
pub proof fn law_open_answers(number: usize, fd: usize, e: SchemeError)
    ensures
        open_answer(Ok(Some(OpenResult::ThisScheme { number }))) == Ok::<Option<usize>, SchemeError>(Some(number)),
        open_answer(Ok(Some(OpenResult::OtherScheme { fd }))) == Err::<Option<usize>, SchemeError>(SchemeError::NotSupported),
        open_answer(Ok(None)) == Ok::<Option<usize>, SchemeError>(None),
        open_answer(Err(e)) == Err::<Option<usize>, SchemeError>(e),
{
}

} // verus!
