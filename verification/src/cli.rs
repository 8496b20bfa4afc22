//! The decisions of the command-line client of the slot device: what its
//! arguments ask for, the bytes it writes, and the value it shows after a
//! read.

use vstd::prelude::*;
use crate::native::{le_value, ne_bytes, word_to_ne_bytes};

verus! {

/// What the client is asked to do.
#[derive(Clone, Copy, Debug, PartialEq, Eq, Structural)]
pub enum Command {
    /// Show the low four bytes of the selected slot.
    Read,
    /// Write a word to the selected slot.
    Write { value: usize },
    /// Select a slot.
    Slot { slot: u64 },
}

/// Why the client's arguments ask for nothing.
#[derive(Clone, Copy, Debug, PartialEq, Eq, Structural)]
pub enum CommandError {
    /// No command was given.
    MissingCommand,
    /// `write` without a value.
    MissingValue,
    /// `slot` without a slot number.
    MissingSlot,
    /// The value or slot number is no unsigned integer of its type.
    NotANumber,
    /// The command is none of `read`, `write` and `slot`.
    Unrecognized,
}

/// Whether `c` is one of the ASCII digits.
pub open spec fn is_digit(c: char) -> bool {
    '0' <= c && c <= '9'
}

/// The number that the ASCII digits `d` write in base ten.
pub open spec fn digits_value(d: Seq<char>) -> nat
    decreases d.len(),
{
    if d.len() == 0 {
        0
    } else {
        digits_value(d.drop_last()) * 10 + ((d.last() as int) - ('0' as int)) as nat
    }
}

/// The number that `s` writes in base ten, as Rust reads an unsigned
/// integer: an optional `+`, then one or more ASCII digits and nothing else.
pub open spec fn decimal(s: Seq<char>) -> Option<nat> {
    let d = if s.len() > 0 && s[0] == '+' {
        s.drop_first()
    } else {
        s
    };
    if d.len() > 0 && forall|i: int| 0 <= i < d.len() ==> is_digit(#[trigger] d[i]) {
        Some(digits_value(d))
    } else {
        None
    }
}

/// The number that `s` writes, where it is at most `max`.
pub open spec fn decimal_at_most(s: Seq<char>, max: nat) -> Option<nat> {
    match decimal(s) {
        Some(v) => if v <= max {
            Some(v)
        } else {
            None
        },
        None => None,
    }
}

/// Reads `s` as a machine word.
///
/// Calls `str::parse::<usize>`, documented to accept an optional `+`
/// followed by digits only, and to fail where the number does not fit; the
/// contract states that.
#[verifier::external_body]
fn parse_usize(s: &str) -> (v: Option<usize>)
    ensures
        match decimal_at_most(s@, usize::MAX as nat) {
            Some(n) => v == Some(n as usize),
            None => v is None,
        },
{
    s.parse::<usize>().ok()
}

/// Reads `s` as a 64-bit unsigned integer.
///
/// Calls `str::parse::<u64>`, documented to accept an optional `+`
/// followed by digits only, and to fail where the number does not fit; the
/// contract states that.
#[verifier::external_body]
fn parse_u64(s: &str) -> (v: Option<u64>)
    ensures
        match decimal_at_most(s@, u64::MAX as nat) {
            Some(n) => v == Some(n as u64),
            None => v is None,
        },
{
    s.parse::<u64>().ok()
}

/// The command that the arguments `args` (the program's name first) ask
/// for.
pub open spec fn command_of(args: Seq<Seq<char>>) -> Result<Command, CommandError> {
    if args.len() < 2 {
        Err(CommandError::MissingCommand)
    } else if args[1] == "read"@ {
        Ok(Command::Read)
    } else if args[1] == "write"@ {
        if args.len() < 3 {
            Err(CommandError::MissingValue)
        } else {
            match decimal_at_most(args[2], usize::MAX as nat) {
                Some(n) => Ok(Command::Write { value: n as usize }),
                None => Err(CommandError::NotANumber),
            }
        }
    } else if args[1] == "slot"@ {
        if args.len() < 3 {
            Err(CommandError::MissingSlot)
        } else {
            match decimal_at_most(args[2], u64::MAX as nat) {
                Some(n) => Ok(Command::Slot { slot: n as u64 }),
                None => Err(CommandError::NotANumber),
            }
        }
    } else {
        Err(CommandError::Unrecognized)
    }
}

/// The command words differ from each other.
proof fn lemma_command_words_differ()
    ensures
        "read"@ != "write"@,
        "read"@ != "slot"@,
        "write"@ != "slot"@,
{
    reveal_strlit("read");
    reveal_strlit("write");
    reveal_strlit("slot");
    assert("read"@.len() == 4);
    assert("write"@.len() == 5);
    assert("slot"@[0] == 's');
    assert("read"@[0] == 'r');
}

/// `read` asks for a read, whatever follows it.
pub proof fn law_read_command(args: Seq<Seq<char>>)
    requires
        args.len() >= 2,
        args[1] == "read"@,
    ensures
        command_of(args) == Ok::<Command, CommandError>(Command::Read),
{
}

/// `write` followed by any text that reads as a decimal number that fits
/// in a word (zero included) asks to write that number; a text that does
/// not read so is `NotANumber`, and no text is `MissingValue`.
pub proof fn law_write_command(args: Seq<Seq<char>>)
    requires
        args.len() >= 2,
        args[1] == "write"@,
    ensures
        args.len() == 2 ==> command_of(args) == Err::<Command, CommandError>(CommandError::MissingValue),
        args.len() >= 3 ==> forall|n: nat|
            decimal(args[2]) == Some(n) && n <= usize::MAX ==> command_of(args) == Ok::<Command, CommandError>(
                Command::Write { value: n as usize },
            ),
        args.len() >= 3 ==> (decimal(args[2]) is None || decimal(args[2]).unwrap() > usize::MAX)
            ==> command_of(args) == Err::<Command, CommandError>(CommandError::NotANumber),
{
    lemma_command_words_differ();
}

/// `slot` followed by any text that reads as a decimal number of 64 bits
/// (zero included) asks to select that slot; a text that does not read so
/// is `NotANumber`, and no text is `MissingSlot`.
pub proof fn law_slot_command(args: Seq<Seq<char>>)
    requires
        args.len() >= 2,
        args[1] == "slot"@,
    ensures
        args.len() == 2 ==> command_of(args) == Err::<Command, CommandError>(CommandError::MissingSlot),
        args.len() >= 3 ==> forall|n: nat|
            decimal(args[2]) == Some(n) && n <= u64::MAX ==> command_of(args) == Ok::<Command, CommandError>(
                Command::Slot { slot: n as u64 },
            ),
        args.len() >= 3 ==> (decimal(args[2]) is None || decimal(args[2]).unwrap() > u64::MAX)
            ==> command_of(args) == Err::<Command, CommandError>(CommandError::NotANumber),
{
    lemma_command_words_differ();
}

/// Arguments without a command, or with a word other than `read`, `write`
/// and `slot`, ask for nothing.
pub proof fn law_other_commands(args: Seq<Seq<char>>)
    ensures
        args.len() < 2 ==> command_of(args) == Err::<Command, CommandError>(CommandError::MissingCommand),
        args.len() >= 2 && args[1] != "read"@ && args[1] != "write"@ && args[1] != "slot"@
            ==> command_of(args) == Err::<Command, CommandError>(CommandError::Unrecognized),
{
}

/// A text of ASCII digits, with or without a leading `+`, reads as the
/// number those digits write; appending a digit multiplies by ten and adds
/// the digit.
pub proof fn law_decimal_digits(d: Seq<char>, c: char)
    requires
        forall|i: int| 0 <= i < d.len() ==> is_digit(#[trigger] d[i]),
        is_digit(c),
    ensures
        d.len() > 0 ==> decimal(d) == Some(digits_value(d)),
        d.len() > 0 ==> decimal(seq!['+'] + d) == Some(digits_value(d)),
        digits_value(d.push(c)) == 10 * digits_value(d) + ((c as int) - ('0' as int)),
        decimal(seq![c]) == Some(((c as int) - ('0' as int)) as nat),
{
    assert(d.push(c).drop_last() =~= d);
    assert((seq!['+'] + d).drop_first() =~= d);
    assert(seq![c].drop_last() =~= Seq::<char>::empty());
    assert(c != '+');
    assert(seq![c][0] == c);
    assert(seq![c].last() == c);
    assert(digits_value(seq![c].drop_last()) == 0);
    assert(digits_value(seq![c]) == ((c as int) - ('0' as int)) as nat);
}

/// The texts of a list of arguments.
pub open spec fn texts(args: Seq<String>) -> Seq<Seq<char>> {
    args.map_values(|a: String| a@)
}

/// Tells what the arguments `args` (the program's name first) ask for.
pub fn parse_command(args: &Vec<String>) -> (c: Result<Command, CommandError>)
    ensures
        c == command_of(texts(args@)),
{
    let ghost t = texts(args@);
    if args.len() < 2 {
        return Err(CommandError::MissingCommand);
    }
    assert(t[1] == args@[1]@);
    if args[1] == String::from_str("read") {
        Ok(Command::Read)
    } else if args[1] == String::from_str("write") {
        if args.len() < 3 {
            return Err(CommandError::MissingValue);
        }
        assert(t[2] == args@[2]@);
        match parse_usize(args[2].as_str()) {
            Some(value) => Ok(Command::Write { value }),
            None => Err(CommandError::NotANumber),
        }
    } else if args[1] == String::from_str("slot") {
        if args.len() < 3 {
            return Err(CommandError::MissingSlot);
        }
        assert(t[2] == args@[2]@);
        match parse_u64(args[2].as_str()) {
            Some(slot) => Ok(Command::Slot { slot }),
            None => Err(CommandError::NotANumber),
        }
    } else {
        Err(CommandError::Unrecognized)
    }
}

/// The bytes that `write` sends: the value in the machine's byte order.
pub fn write_payload(value: usize) -> (bytes: Vec<u8>)
    ensures
        bytes@ == ne_bytes(value),
{
    word_to_ne_bytes(value)
}

/// The value that `read` shows for the four bytes it read: their
/// little-endian number, as `u32::from_le_bytes` reads them.
pub fn shown_value(bytes: [u8; 4]) -> (x: u32)
    ensures
        x as nat == le_value(bytes@),
{
    let b0 = bytes[0] as u32;
    let b1 = bytes[1] as u32;
    let b2 = bytes[2] as u32;
    let b3 = bytes[3] as u32;
    proof {
        reveal_with_fuel(le_value, 5);
        let s = bytes@;
        assert(s.drop_first().drop_first().drop_first().drop_first() =~= Seq::<u8>::empty());
        assert(s.drop_first()[0] == s[1]);
        assert(s.drop_first().drop_first()[0] == s[2]);
        assert(s.drop_first().drop_first().drop_first()[0] == s[3]);
        assert(le_value(bytes@) == b0 + 256 * (b1 + 256 * (b2 + 256 * b3)));
    }
    b0 + 256 * (b1 + 256 * (b2 + 256 * b3))
}

} // verus!
