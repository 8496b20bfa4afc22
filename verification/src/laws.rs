//! What holds of the slot device across calls.

use vstd::prelude::*;
use crate::protocol::{Call, SchemeError, call_named};
use vstd::arithmetic::power::pow;
use vstd::endian::{endianness, Endian};
use crate::native::{
    le_value, lemma_bytes_encode_a_word, lemma_le_bytes_prefix,
    lemma_le_value_of_le_bytes, lemma_word_bounds, ne_bytes, ne_value, word_bytes,
};
use crate::scheme::{
    op_effect, outcome, read_into, reply_of, state_wf, Op, Packet, SchemeState, SLOT_COUNT,
};
use vstd::utf8::valid_utf8;

verus! {

/// The preconditions under which the scheme serves packet `p` in state `s`
/// with the caller's memory `data`, as `SlotScheme::handle` states them.
pub open spec fn servable(s: SchemeState, p: Packet, data: Seq<u8>) -> bool {
    &&& state_wf(s)
    &&& call_named(p.a) == Call::Read ==> data.len() >= 4
    &&& call_named(p.a) == Call::Write ==> data.len() >= word_bytes()
    &&& call_named(p.a) == Call::Open && valid_utf8(data) ==> s.next_id < usize::MAX
}

/// Every call keeps the scheme's invariant: four slots, a selected slot
/// among them, and open files numbered from 1 to the last number handed out.
pub proof fn law_calls_keep_invariant(s: SchemeState, p: Packet, data: Seq<u8>)
    requires
        servable(s, p, data),
    ensures
        state_wf(outcome(s, p, data).0),
{
}

/// A call that is refused changes neither the scheme nor the caller's
/// memory.
pub proof fn law_refused_calls_change_nothing(s: SchemeState, p: Packet, data: Seq<u8>)
    requires
        servable(s, p, data),
        outcome(s, p, data).1 is Err,
    ensures
        outcome(s, p, data).0 == s,
        outcome(s, p, data).2 == data,
{
}

/// A read after a write of one word gives back the first four bytes that
/// were written.
pub proof fn law_read_returns_written(
    s: SchemeState,
    write: Packet,
    bytes: Seq<u8>,
    read: Packet,
    buf: Seq<u8>,
)
    requires
        state_wf(s),
        call_named(write.a) == Call::Write,
        bytes.len() == word_bytes(),
        call_named(read.a) == Call::Read,
        buf.len() >= 4,
    ensures
        outcome(s, write, bytes).1 == Ok::<Option<usize>, SchemeError>(Some(0usize)),
        outcome(outcome(s, write, bytes).0, read, buf).1 == Ok::<Option<usize>, SchemeError>(
            Some(0usize),
        ),
        outcome(outcome(s, write, bytes).0, read, buf).2.subrange(0, 4) == bytes.subrange(0, 4),
        outcome(outcome(s, write, bytes).0, read, buf).2.subrange(4, buf.len() as int)
            == buf.subrange(4, buf.len() as int),
{
    let v = ne_value(bytes);
    lemma_word_bounds();
    lemma_bytes_encode_a_word(bytes);
    let s1 = outcome(s, write, bytes).0;
    assert(s1.slots[s1.current_slot as int] == v);
    let out = outcome(s1, read, buf).2;
    assert(out.subrange(0, 4) =~= bytes.subrange(0, 4));
    assert(out.subrange(4, buf.len() as int) =~= buf.subrange(4, buf.len() as int));
}

/// A write changes the selected slot only: the other slots, the selection
/// and the open files stay as they were.
pub proof fn law_write_changes_only_selected_slot(
    s: SchemeState,
    write: Packet,
    bytes: Seq<u8>,
    i: int,
)
    requires
        state_wf(s),
        call_named(write.a) == Call::Write,
        0 <= i < SLOT_COUNT,
        i != s.current_slot,
    ensures
        outcome(s, write, bytes).0.slots[i] == s.slots[i],
        outcome(s, write, bytes).0.current_slot == s.current_slot,
        outcome(s, write, bytes).0.handles == s.handles,
        outcome(s, write, bytes).0.next_id == s.next_id,
{
}

/// A read changes nothing in the scheme.
pub proof fn law_read_changes_no_state(s: SchemeState, read: Packet, buf: Seq<u8>)
    requires
        state_wf(s),
        call_named(read.a) == Call::Read,
    ensures
        outcome(s, read, buf).0 == s,
{
}

/// Selecting slot `n` (by truncating to `n`, at most 3) makes the next read
/// give the first four bytes of slot `n`.
pub proof fn law_read_gives_selected_slot(
    s: SchemeState,
    select: Packet,
    read: Packet,
    buf: Seq<u8>,
)
    requires
        state_wf(s),
        call_named(select.a) == Call::Ftruncate,
        select.c <= 3,
        call_named(read.a) == Call::Read,
        buf.len() >= 4,
    ensures
        outcome(s, select, Seq::empty()).1 == Ok::<Option<usize>, SchemeError>(Some(0usize)),
        outcome(outcome(s, select, Seq::empty()).0, read, buf).2.subrange(0, 4) == ne_bytes(
            s.slots[select.c as int],
        ).subrange(0, 4),
{
    let out = outcome(outcome(s, select, Seq::empty()).0, read, buf).2;
    lemma_word_bounds();
    crate::native::lemma_ne_bytes_len(s.slots[select.c as int]);
    assert(out.subrange(0, 4) =~= ne_bytes(s.slots[select.c as int]).subrange(0, 4));
}

/// An open hands out a number that names no open file and is above every
/// open file's number, and the new file is open afterwards.
pub proof fn law_open_gives_fresh_number(s: SchemeState, open: Packet, path: Seq<u8>)
    requires
        servable(s, open, path),
        call_named(open.a) == Call::Open,
        valid_utf8(path),
    ensures
        outcome(s, open, path).1 matches Ok(Some(id)) && !s.handles.contains_key(id) && (forall|
            other: usize,
        | s.handles.contains_key(other) ==> other < id) && outcome(
            s,
            open,
            path,
        ).0.handles.contains_key(id),
{
}

/// A file that an open hands out closes once: the first close succeeds,
/// the second is answered with `BadFile`.
pub proof fn law_close_after_open(
    s: SchemeState,
    open: Packet,
    path: Seq<u8>,
    close: Packet,
    data: Seq<u8>,
)
    requires
        servable(s, open, path),
        call_named(open.a) == Call::Open,
        valid_utf8(path),
        call_named(close.a) == Call::Close,
        outcome(s, open, path).1 == Ok::<Option<usize>, SchemeError>(Some(close.b)),
    ensures
        outcome(outcome(s, open, path).0, close, data).1 == Ok::<Option<usize>, SchemeError>(
            Some(0usize),
        ),
        outcome(outcome(outcome(s, open, path).0, close, data).0, close, data).1 == Err::<
            Option<usize>,
            SchemeError,
        >(SchemeError::BadFile),
        outcome(outcome(s, open, path).0, close, data).0.handles == s.handles,
{
    let s1 = outcome(s, open, path).0;
    assert(s1.handles.remove(close.b) =~= s.handles);
}

/// Every error is answered with its error number's word, which no
/// successful call answers with: those answer 0 or a file number.
pub proof fn law_errors_are_answered_by_error_words(s: SchemeState, p: Packet, data: Seq<u8>)
    requires
        servable(s, p, data),
    ensures
        outcome(s, p, data).1 matches Err(e) ==> reply_of(outcome(s, p, data).1) == Some(
            crate::native::errno_word(crate::protocol::errno_of(e)),
        ),
        outcome(s, p, data).1 matches Ok(Some(v)) ==> v <= s.next_id + 1,
{
}

/// On a little-endian machine, the value that the client shows for the
/// bytes a read gives back after a write of `value` (the little-endian
/// number of those four bytes, as `cli::shown_value` computes it) is `value`
/// modulo 2^32.
pub proof fn law_client_shows_written_value(
    s: SchemeState,
    write: Packet,
    value: usize,
    read: Packet,
    buf: Seq<u8>,
)
    requires
        endianness() == Endian::Little,
        state_wf(s),
        call_named(write.a) == Call::Write,
        call_named(read.a) == Call::Read,
        buf.len() >= 4,
    ensures
        le_value(outcome(outcome(s, write, ne_bytes(value)).0, read, buf).2.subrange(0, 4))
            == value as nat % 0x1_0000_0000,
{
    lemma_word_bounds();
    crate::native::lemma_ne_bytes_len(value);
    law_read_returns_written(s, write, ne_bytes(value), read, buf);
    lemma_le_bytes_prefix(value as nat, word_bytes(), 4);
    lemma_le_value_of_le_bytes(value as nat, 4);
    assert(pow(256, 4) == 0x1_0000_0000) by {
        reveal_with_fuel(pow, 5);
    }
}

/// The state after serving the requests `calls` in order from state `s`;
/// each request is a packet with the caller's memory it names.
pub open spec fn run(s: SchemeState, calls: Seq<(Packet, Seq<u8>)>) -> SchemeState
    decreases calls.len(),
{
    if calls.len() == 0 {
        s
    } else {
        outcome(run(s, calls.drop_last()), calls.last().0, calls.last().1).0
    }
}

/// Whether every request of `calls`, served in order from `s`, meets the
/// preconditions of `SlotScheme::handle`.
pub open spec fn runnable(s: SchemeState, calls: Seq<(Packet, Seq<u8>)>) -> bool
    decreases calls.len(),
{
    calls.len() == 0 || (runnable(s, calls.drop_last()) && servable(
        run(s, calls.drop_last()),
        calls.last().0,
        calls.last().1,
    ))
}

/// Whether `p` is a write or a truncation: the only calls that touch the
/// slots or the selection.
pub open spec fn touches_slots(p: Packet) -> bool {
    call_named(p.a) == Call::Write || call_named(p.a) == Call::Ftruncate
}

/// Every call other than a write or a truncation keeps the slots and the
/// selected slot.
pub proof fn law_other_calls_keep_slots(s: SchemeState, p: Packet, data: Seq<u8>)
    requires
        servable(s, p, data),
        !touches_slots(p),
    ensures
        outcome(s, p, data).0.slots == s.slots,
        outcome(s, p, data).0.current_slot == s.current_slot,
{
}

/// Every call keeps or raises the last number handed out to a file.
pub proof fn law_calls_never_lower_next_id(s: SchemeState, p: Packet, data: Seq<u8>)
    requires
        servable(s, p, data),
    ensures
        outcome(s, p, data).0.next_id >= s.next_id,
{
}

/// Serving a runnable sequence of requests keeps the invariant and never
/// lowers the last number handed out; where none of the requests is a
/// write or a truncation, the slots and the selection stay as they were.
pub proof fn law_runs_keep_invariant_and_slots(s: SchemeState, calls: Seq<(Packet, Seq<u8>)>)
    requires
        state_wf(s),
        runnable(s, calls),
    ensures
        state_wf(run(s, calls)),
        run(s, calls).next_id >= s.next_id,
        (forall|i: int| 0 <= i < calls.len() ==> !touches_slots(#[trigger] calls[i].0)) ==> run(
            s,
            calls,
        ).slots == s.slots && run(s, calls).current_slot == s.current_slot,
    decreases calls.len(),
{
    if calls.len() > 0 {
        let front = calls.drop_last();
        law_runs_keep_invariant_and_slots(s, front);
        if forall|i: int| 0 <= i < calls.len() ==> !touches_slots(#[trigger] calls[i].0) {
            assert forall|i: int| 0 <= i < front.len() implies !touches_slots(#[trigger] front[i].0) by {
                assert(front[i] == calls[i]);
            }
            assert(calls.last() == calls[calls.len() - 1]);
        }
    }
}

/// A read gives back the first four bytes of the last write even when
/// other calls that are neither writes nor truncations (opens, closes,
/// reads, refused calls) came in between.
pub proof fn law_read_returns_last_written(
    s: SchemeState,
    write: Packet,
    bytes: Seq<u8>,
    between: Seq<(Packet, Seq<u8>)>,
    read: Packet,
    buf: Seq<u8>,
)
    requires
        state_wf(s),
        call_named(write.a) == Call::Write,
        bytes.len() == word_bytes(),
        runnable(outcome(s, write, bytes).0, between),
        forall|i: int| 0 <= i < between.len() ==> !touches_slots(#[trigger] between[i].0),
        call_named(read.a) == Call::Read,
        buf.len() >= 4,
    ensures
        outcome(run(outcome(s, write, bytes).0, between), read, buf).1 == Ok::<
            Option<usize>,
            SchemeError,
        >(Some(0usize)),
        outcome(run(outcome(s, write, bytes).0, between), read, buf).2.subrange(0, 4)
            == bytes.subrange(0, 4),
{
    let s1 = outcome(s, write, bytes).0;
    law_read_returns_written(s, write, bytes, read, buf);
    law_runs_keep_invariant_and_slots(s1, between);
    let s2 = run(s1, between);
    assert(outcome(s2, read, buf).2 =~= outcome(s1, read, buf).2);
}

/// File numbers are never handed out twice: an open answers the last
/// number handed out plus one, and any later open, after any runnable
/// sequence of calls, answers a strictly greater number.
pub proof fn law_open_numbers_increase(
    s: SchemeState,
    open1: Packet,
    path1: Seq<u8>,
    between: Seq<(Packet, Seq<u8>)>,
    open2: Packet,
    path2: Seq<u8>,
)
    requires
        servable(s, open1, path1),
        call_named(open1.a) == Call::Open,
        valid_utf8(path1),
        runnable(outcome(s, open1, path1).0, between),
        servable(run(outcome(s, open1, path1).0, between), open2, path2),
        call_named(open2.a) == Call::Open,
        valid_utf8(path2),
    ensures
        outcome(s, open1, path1).1 == Ok::<Option<usize>, SchemeError>(Some((s.next_id + 1) as usize)),
        outcome(run(outcome(s, open1, path1).0, between), open2, path2).1 matches Ok(Some(id2))
            && id2 > s.next_id + 1,
{
    let s1 = outcome(s, open1, path1).0;
    law_runs_keep_invariant_and_slots(s1, between);
}

/// The state after the device's own operations `ops`, in order, from `s`.
pub open spec fn run_ops(s: SchemeState, ops: Seq<Op>) -> SchemeState
    decreases ops.len(),
{
    if ops.len() == 0 {
        s
    } else {
        op_effect(run_ops(s, ops.drop_last()), ops.last())
    }
}

/// Whether operation `op` meets its method's `requires` in state `s`, as
/// far as the state is concerned: an open needs an unused number, a write
/// at least one word of bytes.
pub open spec fn op_allowed(s: SchemeState, op: Op) -> bool {
    match op {
        Op::Open => s.next_id < usize::MAX,
        Op::Write { bytes } => bytes.len() >= word_bytes(),
        _ => true,
    }
}

/// Whether every operation of `ops`, performed in order from `s`, is
/// allowed.
pub open spec fn ops_allowed(s: SchemeState, ops: Seq<Op>) -> bool
    decreases ops.len(),
{
    ops.len() == 0 || (ops_allowed(s, ops.drop_last()) && op_allowed(
        run_ops(s, ops.drop_last()),
        ops.last(),
    ))
}

/// Whether `op` is a write.
pub open spec fn is_write(op: Op) -> bool {
    op is Write
}

/// Whether `op` is a truncation.
pub open spec fn is_truncation(op: Op) -> bool {
    op is Ftruncate
}

/// Any allowed run of the device's operations keeps the invariant and never
/// lowers the last number handed out.  Without truncations the selected
/// slot stays; without writes and truncations the slots stay too.
pub proof fn law_op_runs_keep_invariant_and_slots(s: SchemeState, ops: Seq<Op>)
    requires
        state_wf(s),
        ops_allowed(s, ops),
    ensures
        state_wf(run_ops(s, ops)),
        run_ops(s, ops).next_id >= s.next_id,
        (forall|i: int| 0 <= i < ops.len() ==> !is_truncation(#[trigger] ops[i])) ==> run_ops(
            s,
            ops,
        ).current_slot == s.current_slot,
        (forall|i: int|
            0 <= i < ops.len() ==> !is_truncation(#[trigger] ops[i]) && !is_write(ops[i]))
            ==> run_ops(s, ops).slots == s.slots,
    decreases ops.len(),
{
    if ops.len() > 0 {
        let front = ops.drop_last();
        law_op_runs_keep_invariant_and_slots(s, front);
        let t = run_ops(s, front);
        assert(ops.last() == ops[ops.len() - 1]);
        if forall|i: int| 0 <= i < ops.len() ==> !is_truncation(#[trigger] ops[i]) {
            assert forall|i: int| 0 <= i < front.len() implies !is_truncation(#[trigger] front[i]) by {
                assert(front[i] == ops[i]);
            }
        }
        if forall|i: int| 0 <= i < ops.len() ==> !is_truncation(#[trigger] ops[i]) && !is_write(ops[i]) {
            assert forall|i: int| 0 <= i < front.len() implies !is_truncation(#[trigger] front[i]) && !is_write(front[i]) by {
                assert(front[i] == ops[i]);
            }
        }
        match ops.last() {
            Op::Open => {
                assert(state_wf(op_effect(t, ops.last())));
            },
            _ => {},
        }
    }
}

/// `read_old` gives back the first four bytes of the last `write_old` of
/// one word, even when opens, closes, reads and refused operations came in
/// between, whatever file numbers they name.
pub proof fn law_read_old_returns_last_write_old(
    s: SchemeState,
    bytes: Seq<u8>,
    ops: Seq<Op>,
    buf: Seq<u8>,
)
    requires
        state_wf(s),
        bytes.len() == word_bytes(),
        ops_allowed(op_effect(s, Op::Write { bytes }), ops),
        forall|i: int| 0 <= i < ops.len() ==> !is_truncation(#[trigger] ops[i]) && !is_write(ops[i]),
        buf.len() >= 4,
    ensures
        run_ops(op_effect(s, Op::Write { bytes }), ops).current_slot < SLOT_COUNT,
        read_into(run_ops(op_effect(s, Op::Write { bytes }), ops), buf).subrange(0, 4)
            == bytes.subrange(0, 4),
{
    let s1 = op_effect(s, Op::Write { bytes });
    lemma_bytes_encode_a_word(bytes);
    law_op_runs_keep_invariant_and_slots(s1, ops);
    let s2 = run_ops(s1, ops);
    assert(s2.slots[s2.current_slot as int] == ne_value(bytes));
    lemma_word_bounds();
    assert(read_into(s2, buf).subrange(0, 4) =~= bytes.subrange(0, 4));
}

/// File numbers are never handed out twice by `open`: after an open, any
/// allowed run of operations, and another open, the second number is
/// strictly greater than the first.
pub proof fn law_open_numbers_increase_over_ops(s: SchemeState, ops: Seq<Op>)
    requires
        state_wf(s),
        s.next_id < usize::MAX,
        ops_allowed(op_effect(s, Op::Open), ops),
        run_ops(op_effect(s, Op::Open), ops).next_id < usize::MAX,
    ensures
        op_effect(run_ops(op_effect(s, Op::Open), ops), Op::Open).next_id > op_effect(
            s,
            Op::Open,
        ).next_id,
{
    law_op_runs_keep_invariant_and_slots(op_effect(s, Op::Open), ops);
}

/// The selected slot belongs to the device, not to a file: a slot selected
/// through one file stays selected after that file is closed and another
/// is opened, and the next write goes to it.
pub proof fn law_selection_survives_close_and_reopen(
    s: SchemeState,
    k: usize,
    bytes: Seq<u8>,
)
    requires
        state_wf(s),
        s.next_id + 1 < usize::MAX,
        k <= 3,
        bytes.len() == word_bytes(),
    ensures
        ({
            let first = (s.next_id + 1) as usize;
            let ops = seq![
                Op::Open,
                Op::Ftruncate { len: k },
                Op::Close { id: first },
                Op::Open,
                Op::Write { bytes },
            ];
            &&& run_ops(s, ops).current_slot == k
            &&& run_ops(s, ops).slots[k as int] == ne_value(bytes)
        }),
{
    let first = (s.next_id + 1) as usize;
    let ops = seq![Op::Open, Op::Ftruncate { len: k }, Op::Close { id: first }, Op::Open, Op::Write { bytes }];
    let s1 = op_effect(s, Op::Open);
    let s2 = op_effect(s1, Op::Ftruncate { len: k });
    let s3 = op_effect(s2, Op::Close { id: first });
    let s4 = op_effect(s3, Op::Open);
    let s5 = op_effect(s4, Op::Write { bytes });
    let p1 = seq![Op::Open];
    let p2 = p1.push(Op::Ftruncate { len: k });
    let p3 = p2.push(Op::Close { id: first });
    let p4 = p3.push(Op::Open);
    assert(p1.drop_last() =~= Seq::<Op>::empty());
    assert(p2.drop_last() =~= p1);
    assert(p3.drop_last() =~= p2);
    assert(p4.drop_last() =~= p3);
    assert(ops.drop_last() =~= p4);
    assert(run_ops(s, p1.drop_last()) == s);
    assert(p1.last() == Op::Open);
    assert(run_ops(s, p1) == s1);
    assert(run_ops(s, p2) == s2);
    assert(run_ops(s, p3) == s3);
    assert(run_ops(s, p4) == s4);
    assert(run_ops(s, ops) == s5);
}

} // verus!
