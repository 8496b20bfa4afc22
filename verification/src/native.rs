//! Byte encodings of machine words, and the calls into `std` and `syscall`
//! on which the scheme relies.

use vstd::prelude::*;
use vstd::arithmetic::power::pow;
use vstd::endian::{endianness, Endian};

verus! {

/// The number of bytes in a machine word.
pub open spec fn word_bytes() -> nat {
    vstd::layout::size_of::<usize>()
}

/// The first `n` bytes of `x` in base 256, least significant first.
pub open spec fn le_bytes(x: nat, n: nat) -> Seq<u8>
    decreases n,
{
    if n == 0 {
        Seq::empty()
    } else {
        seq![(x % 256) as u8] + le_bytes(x / 256, (n - 1) as nat)
    }
}

/// The bytes of a machine word in the byte order of the machine that runs
/// the program.
pub open spec fn ne_bytes(x: usize) -> Seq<u8> {
    match endianness() {
        Endian::Little => le_bytes(x as nat, word_bytes()),
        Endian::Big => le_bytes(x as nat, word_bytes()).reverse(),
    }
}

pub proof fn lemma_word_bounds()
    ensures
        word_bytes() == 4 || word_bytes() == 8,
        (usize::MAX as int) + 1 == pow(256, word_bytes()),
{
    broadcast use vstd::layout::layout_of_primitives;
    assert(vstd::layout::size_of::<usize>() * 8 == usize::BITS);
    if usize::BITS == 32 {
        assert(pow(256, 4) == 0x1_0000_0000) by {
            reveal_with_fuel(pow, 5);
        }
    } else {
        assert(pow(256, 8) == 0x1_0000_0000_0000_0000) by {
            reveal_with_fuel(pow, 9);
        }
    }
}


/// `le_bytes(x, n)` holds `n` bytes.
pub proof fn lemma_le_bytes_len(x: nat, n: nat)
    ensures
        le_bytes(x, n).len() == n,
    decreases n,
{
    if n > 0 {
        lemma_le_bytes_len(x / 256, (n - 1) as nat);
    }
}

/// Two numbers below `256^n` with the same `n` low bytes are equal.
pub proof fn lemma_le_bytes_injective(x: nat, y: nat, n: nat)
    requires
        x < pow(256, n),
        y < pow(256, n),
        le_bytes(x, n) == le_bytes(y, n),
    ensures
        x == y,
    decreases n,
{
    reveal(pow);
    if n > 0 {
        let m = (n - 1) as nat;
        let bx = le_bytes(x, n);
        let by_ = le_bytes(y, n);
        assert(bx[0] == (x % 256) as u8);
        assert(by_[0] == (y % 256) as u8);
        assert(x % 256 == y % 256);
        assert(bx.subrange(1, bx.len() as int) =~= le_bytes(x / 256, m));
        assert(by_.subrange(1, by_.len() as int) =~= le_bytes(y / 256, m));
        let p = pow(256, m);
        assert(pow(256, n) == 256 * p);
        assert(x / 256 < p) by (nonlinear_arith)
            requires
                x < 256 * p,
        ;
        assert(y / 256 < p) by (nonlinear_arith)
            requires
                y < 256 * p,
        ;
        lemma_le_bytes_injective(x / 256, y / 256, m);
        assert(x == 256 * (x / 256) + x % 256) by (nonlinear_arith);
        assert(y == 256 * (y / 256) + y % 256) by (nonlinear_arith);
    }
}

/// A machine word is determined by its bytes.
pub proof fn lemma_ne_bytes_injective(x: usize, y: usize)
    requires
        ne_bytes(x) == ne_bytes(y),
    ensures
        x == y,
{
    lemma_word_bounds();
    let lx = le_bytes(x as nat, word_bytes());
    let ly = le_bytes(y as nat, word_bytes());
    match endianness() {
        Endian::Little => {},
        Endian::Big => {
            assert(lx.reverse().reverse() =~= lx);
            assert(ly.reverse().reverse() =~= ly);
        },
    }
    lemma_le_bytes_injective(x as nat, y as nat, word_bytes());
}

/// The native bytes of a word hold one word's worth of bytes.
pub proof fn lemma_ne_bytes_len(x: usize)
    ensures
        ne_bytes(x).len() == word_bytes(),
{
    lemma_le_bytes_len(x as nat, word_bytes());
}

/// The machine word whose bytes, in the machine's byte order, are `bytes`.
pub open spec fn ne_value(bytes: Seq<u8>) -> usize {
    choose|x: usize| ne_bytes(x) == bytes
}

/// A word is the value of its own bytes.
pub proof fn lemma_ne_value_of_bytes(x: usize)
    ensures
        ne_value(ne_bytes(x)) == x,
{
    let y = ne_value(ne_bytes(x));
    assert(ne_bytes(y) == ne_bytes(x));
    lemma_ne_bytes_injective(x, y);
}


/// The number that the bytes `b` write in base 256, least significant
/// first.
pub open spec fn le_value(b: Seq<u8>) -> nat
    decreases b.len(),
{
    if b.len() == 0 {
        0
    } else {
        b[0] as nat + 256 * le_value(b.drop_first())
    }
}

/// The bytes of `le_value(b)` are `b` again.
pub proof fn lemma_le_value(b: Seq<u8>)
    ensures
        le_value(b) < pow(256, b.len()),
        le_bytes(le_value(b), b.len()) == b,
    decreases b.len(),
{
    reveal(pow);
    if b.len() > 0 {
        let rest = b.drop_first();
        lemma_le_value(rest);
        let y = le_value(rest);
        let x = le_value(b);
        let b0 = b[0] as nat;
        let p = pow(256, rest.len());
        assert(x == b0 + 256 * y);
        assert(x % 256 == b0 && x / 256 == y) by (nonlinear_arith)
            requires
                x == b0 + 256 * y,
                b0 < 256,
        ;
        assert(x < 256 * p) by (nonlinear_arith)
            requires
                x == b0 + 256 * y,
                b0 < 256,
                y < p,
        ;
        assert(pow(256, b.len()) == 256 * p);
        assert(le_bytes(x, b.len()) =~= b);
    }
}


/// The first `k` of the `n` low bytes of `x` are its `k` low bytes.
pub proof fn lemma_le_bytes_prefix(x: nat, n: nat, k: nat)
    requires
        k <= n,
    ensures
        le_bytes(x, n).subrange(0, k as int) == le_bytes(x, k),
    decreases k,
{
    lemma_le_bytes_len(x, n);
    lemma_le_bytes_len(x, k);
    if k > 0 {
        lemma_le_bytes_prefix(x / 256, (n - 1) as nat, (k - 1) as nat);
        assert(le_bytes(x, n).subrange(0, k as int) =~= le_bytes(x, k));
    } else {
        assert(le_bytes(x, n).subrange(0, 0) =~= le_bytes(x, 0));
    }
}

/// The `k` low bytes of `x` write `x` modulo `256^k`.
pub proof fn lemma_le_value_of_le_bytes(x: nat, k: nat)
    ensures
        le_value(le_bytes(x, k)) == x % (pow(256, k) as nat),
    decreases k,
{
    reveal(pow);
    lemma_le_bytes_len(x, k);
    if k == 0 {
        assert(x % 1 == 0) by (nonlinear_arith);
    } else {
        let b = le_bytes(x, k);
        lemma_le_value_of_le_bytes(x / 256, (k - 1) as nat);
        assert(b.drop_first() =~= le_bytes(x / 256, (k - 1) as nat));
        let p = pow(256, (k - 1) as nat);
        vstd::arithmetic::power::lemma_pow_positive(256, (k - 1) as nat);
        vstd::arithmetic::div_mod::lemma_mod_breakdown(x as int, 256, p);
        assert(pow(256, k) == 256 * p);
    }
}

/// Byte `i` of the `n` low bytes of `x` is digit `i` of `x` in base 256.
pub proof fn lemma_le_bytes_digit(x: nat, n: nat, i: int)
    requires
        0 <= i < n,
    ensures
        le_bytes(x, n)[i] == ((x / (pow(256, i as nat) as nat)) % 256) as u8,
    decreases n,
{
    reveal(pow);
    lemma_le_bytes_len(x, n);
    if i > 0 {
        lemma_le_bytes_digit(x / 256, (n - 1) as nat, i - 1);
        let p = pow(256, (i - 1) as nat);
        vstd::arithmetic::power::lemma_pow_positive(256, (i - 1) as nat);
        vstd::arithmetic::div_mod::lemma_div_denominator(x as int, 256, p);
        assert(pow(256, i as nat) == 256 * p);
        assert(le_bytes(x, n)[i] == le_bytes(x / 256, (n - 1) as nat)[i - 1]);
    } else {
        assert(pow(256, 0) == 1);
        assert(x / 1 == x);
        assert(le_bytes(x, n)[0] == (x % 256) as u8);
    }
}

/// The native bytes of a word are its base-256 digits: least significant
/// first on a little-endian machine, most significant first on a big-endian
/// one.
pub proof fn law_ne_bytes_are_digits(x: usize, i: int)
    requires
        0 <= i < word_bytes(),
    ensures
        ne_bytes(x).len() == word_bytes(),
        endianness() == Endian::Little ==> ne_bytes(x)[i] == ((x as nat / (pow(256, i as nat) as nat)) % 256) as u8,
        endianness() == Endian::Big ==> ne_bytes(x)[word_bytes() - 1 - i] == ((x as nat / (pow(256, i as nat) as nat)) % 256) as u8,
{
    lemma_ne_bytes_len(x);
    lemma_le_bytes_digit(x as nat, word_bytes(), i);
}

/// The number that four bytes write, least significant first.
pub proof fn law_le_value_of_four_bytes(b: Seq<u8>)
    requires
        b.len() == 4,
    ensures
        le_value(b) == b[0] as nat + 256 * b[1] as nat + 65536 * b[2] as nat + 16777216 * b[3] as nat,
{
    reveal_with_fuel(le_value, 5);
    assert(b.drop_first().drop_first().drop_first().drop_first() =~= Seq::<u8>::empty());
    assert(b.drop_first()[0] == b[1]);
    assert(b.drop_first().drop_first()[0] == b[2]);
    assert(b.drop_first().drop_first().drop_first()[0] == b[3]);
}

/// Every word's worth of bytes is the native encoding of some word.
pub proof fn lemma_bytes_encode_a_word(bytes: Seq<u8>)
    requires
        bytes.len() == word_bytes(),
    ensures
        ne_bytes(ne_value(bytes)) == bytes,
{
    lemma_word_bounds();
    let le = match endianness() {
        Endian::Little => bytes,
        Endian::Big => bytes.reverse(),
    };
    lemma_le_value(le);
    let w = le_value(le) as usize;
    assert(le.reverse().reverse() =~= le);
    assert(bytes.reverse().reverse() =~= bytes);
    assert(ne_bytes(w) == bytes);
}

/// The bytes of `x` in the machine's byte order.
///
/// Calls `usize::to_ne_bytes`, whose documentation says it returns the
/// memory representation of the integer in native byte order; the
/// contract claims exactly that.
#[verifier::external_body]
pub(crate) fn word_to_ne_bytes(x: usize) -> (bytes: Vec<u8>)
    ensures
        bytes@ == ne_bytes(x),
{
    x.to_ne_bytes().to_vec()
}

/// The word whose bytes, in the machine's byte order, are `bytes`.
///
/// Calls `usize::from_ne_bytes`, whose documentation says it creates an
/// integer from its memory representation in native byte order; the
/// contract claims that the native bytes of the result are `bytes`.
#[verifier::external_body]
pub(crate) fn word_from_ne_bytes(bytes: &[u8]) -> (x: usize)
    requires
        bytes@.len() == word_bytes(),
    ensures
        ne_bytes(x) == bytes@,
{
    usize::from_ne_bytes(bytes.try_into().unwrap())
}

/// The text that `bytes` encode in UTF-8, or `None` where they are no
/// valid UTF-8.
///
/// Calls `core::str::from_utf8`, documented to fail exactly when the
/// bytes are not valid UTF-8; the contract states validity by vstd's model
/// of UTF-8 and the text by its decoding.
#[verifier::external_body]
pub(crate) fn str_from_utf8(bytes: &[u8]) -> (text: Option<&str>)
    ensures
        text is Some <==> vstd::utf8::valid_utf8(bytes@),
        text matches Some(t) ==> t@ == vstd::utf8::decode_utf8(bytes@),
{
    core::str::from_utf8(bytes).ok()
}

/// The word with which the protocol reports error number `errno`: the
/// two's complement of `errno`.
pub open spec fn errno_word(errno: i32) -> usize
    recommends
        0 < errno,
{
    (usize::MAX - (errno - 1)) as usize
}

/// The word that answers a call: the value itself, or the error word.
///
/// Calls `syscall::error::Error::mux` on the result with its error built by
/// `syscall::error::Error::new`; `mux` gives `Ok` values unchanged and an
/// error as `-errno as usize`, which for a positive `errno` is the
/// two's complement stated by `errno_word`.
#[verifier::external_body]
pub(crate) fn mux(result: Result<usize, i32>) -> (word: usize)
    requires
        result matches Err(e) ==> 0 < e,
    ensures
        match result {
            Ok(v) => word == v,
            Err(e) => word == errno_word(e),
        },
{
    syscall::error::Error::mux(result.map_err(syscall::error::Error::new))
}

/// `syscall::data::Stat`, the status record that `SYS_FSTAT` fills.
#[verifier::external_type_specification]
#[verifier::external_body]
pub struct ExStat(syscall::data::Stat);

/// `syscall::data::StatVfs`, the record that `SYS_FSTATVFS` fills.
#[verifier::external_type_specification]
#[verifier::external_body]
pub struct ExStatVfs(syscall::data::StatVfs);

/// `syscall::data::TimeSpec`, the records that `SYS_FUTIMENS` reads.
#[verifier::external_type_specification]
#[verifier::external_body]
pub struct ExTimeSpec(syscall::data::TimeSpec);

} // verus!
