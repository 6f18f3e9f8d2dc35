//! A 4-bit unsigned integer (`U4`) stored as four explicit boolean bits,
//! with ripple-carry addition, ripple-borrow subtraction, bitwise and
//! rotation operators, and a hexadecimal text codec.
//!
//! All arithmetic wraps modulo 16: that is the defined behaviour, not an
//! error. Values are immutable; every operation returns a new `U4`.

use vstd::prelude::*;

pub mod hex;

verus! {

use crate::hex::{
    ParseError, decode_hex, encode_hex, hex_encoding, hex_decodable, hex_decoding, is_hex_digit,
    hex_digit_char, hex_digit_str,
};

/// The decimal text of a value in [0, 16): one digit below ten, else `1`
/// followed by the second digit. The digits 0-9 coincide with the hex ones.
pub open spec fn decimal_text(v: nat) -> Seq<char>
    recommends
        v < 16,
{
    if v < 10 {
        seq![hex_digit_char(v)]
    } else {
        seq!['1', hex_digit_char((v - 10) as nat)]
    }
}

/// How many 1s a bit contributes: 1 if set, 0 if clear.
pub open spec fn bit_as_nat(b: bool) -> nat {
    if b {
        1
    } else {
        0
    }
}

/// The unsigned value of a 4-bit sequence, index 0 most significant.
pub open spec fn nibble_value(bits: Seq<bool>) -> nat
    recommends
        bits.len() == 4,
{
    8 * bit_as_nat(bits[0]) + 4 * bit_as_nat(bits[1]) + 2 * bit_as_nat(bits[2]) + bit_as_nat(
        bits[3],
    )
}

/// An unsigned integer in the closed range [0, 15], kept as four explicit
/// boolean bits rather than a packed machine integer, so that carry and
/// borrow propagation stay visible. `bit0` is the most-significant bit,
/// `bit3` the least-significant one.
#[derive(Debug, Clone, Copy, PartialEq, Eq, Structural)]
pub struct U4 {
    bit0: bool,
    bit1: bool,
    bit2: bool,
    bit3: bool,
}

impl View for U4 {
    type V = Seq<bool>;

    /// The bits as a sequence, index 0 most significant.
    closed spec fn view(&self) -> Seq<bool> {
        seq![self.bit0, self.bit1, self.bit2, self.bit3]
    }
}

impl U4 {
    /// The width of the type in bits.
    pub const BITS: usize = 4;

    /// The smallest value: all bits clear, value 0.
    pub fn min_value() -> (r: Self)
        ensures
            r.as_nat() == 0,
    {
        U4 { bit0: false, bit1: false, bit2: false, bit3: false }
    }

    /// The largest value: all bits set, value 15.
    pub fn max_value() -> (r: Self)
        ensures
            r.as_nat() == 15,
    {
        U4 { bit0: true, bit1: true, bit2: true, bit3: true }
    }

    /// The value this nibble represents, in [0, 16).
    pub open spec fn as_nat(self) -> nat {
        nibble_value(self@)
    }

    /// A `U4` always views as exactly 4 bits, and its value is below 16.
    pub proof fn lemma_view_len(self)
        ensures
            self@.len() == 4,
            self.as_nat() < 16,
    {
    }

    /// Two nibbles with the same bits are the same value.
    pub proof fn lemma_view_injective(a: U4, b: U4)
        requires
            a@ =~= b@,
        ensures
            a == b,
    {
        assert(a@[0] == b@[0] && a@[1] == b@[1] && a@[2] == b@[2] && a@[3] == b@[3]);
    }

    /// Two nibbles with the same value are the same nibble: the four bits
    /// are determined by the value.
    pub proof fn lemma_as_nat_injective(a: U4, b: U4)
        requires
            a.as_nat() == b.as_nat(),
        ensures
            a == b,
    {
    }

    /// Build the nibble whose value is `n mod 16`: bits above position 3
    /// are ignored (silent truncation, matching the wraparound semantics).
    pub fn from_u8(u: u8) -> (r: Self)
        ensures
            r.as_nat() == u % 16,
    {
        let r = U4 {
            bit0: u & 8 != 0,
            bit1: u & 4 != 0,
            bit2: u & 2 != 0,
            bit3: u & 1 != 0,
        };
        proof {
            assert(u & 15 == (u & 8) + (u & 4) + (u & 2) + (u & 1)) by (bit_vector);
            assert(u & 15 == u % 16) by (bit_vector);
            assert(u & 8 == 0 || u & 8 == 8) by (bit_vector);
            assert(u & 4 == 0 || u & 4 == 4) by (bit_vector);
            assert(u & 2 == 0 || u & 2 == 2) by (bit_vector);
            assert(u & 1 == 0 || u & 1 == 1) by (bit_vector);
        }
        r
    }

    /// Short constructor alias for `from_u8`.
    pub fn n(n: u8) -> (r: Self)
        ensures
            r.as_nat() == n % 16,
    {
        Self::from_u8(n)
    }

    /// The native 8-bit value of this nibble: the sum of `2^i` over the set
    /// bits, counted from the least-significant end. Always in [0, 16).
    pub fn to_u8(&self) -> (r: u8)
        ensures
            r == self.as_nat(),
            r < 16,
    {
        let mut sum: u8 = 0;
        if self.bit0 {
            sum += 8;
        }
        if self.bit1 {
            sum += 4;
        }
        if self.bit2 {
            sum += 2;
        }
        if self.bit3 {
            sum += 1;
        }
        sum
    }

    /// Addition wrapping modulo 16: a ripple-carry adder over the four bit
    /// positions, least-significant first, whose final carry is discarded.
    pub fn wrapping_add(self, rhs: Self) -> (r: Self)
        ensures
            r.as_nat() == (self.as_nat() + rhs.as_nat()) % 16,
    {
        let (s3, c3) = full_adder(self.bit3, rhs.bit3, false);
        let (s2, c2) = full_adder(self.bit2, rhs.bit2, c3);
        let (s1, c1) = full_adder(self.bit1, rhs.bit1, c2);
        let (s0, carry_out) = full_adder(self.bit0, rhs.bit0, c1);
        let r = U4 { bit0: s0, bit1: s1, bit2: s2, bit3: s3 };
        proof {
            assert(r.as_nat() + 16 * bit_as_nat(carry_out) == self.as_nat() + rhs.as_nat());
            lemma_value_of_wrapped_sum(self.as_nat() + rhs.as_nat() as int, r.as_nat());
        }
        r
    }

    /// Subtraction wrapping modulo 16 (`1 - 2 == 15`): a ripple-borrow
    /// subtractor over the four bit positions, least-significant first,
    /// whose final borrow is discarded.
    pub fn wrapping_sub(self, rhs: Self) -> (r: Self)
        ensures
            r.as_nat() == (self.as_nat() + 16 - rhs.as_nat()) % 16,
    {
        let (d3, b3) = full_subtractor(self.bit3, rhs.bit3, false);
        let (d2, b2) = full_subtractor(self.bit2, rhs.bit2, b3);
        let (d1, b1) = full_subtractor(self.bit1, rhs.bit1, b2);
        let (d0, borrow_out) = full_subtractor(self.bit0, rhs.bit0, b1);
        let r = U4 { bit0: d0, bit1: d1, bit2: d2, bit3: d3 };
        proof {
            assert(r.as_nat() + rhs.as_nat() == self.as_nat() + 16 * bit_as_nat(borrow_out));
            assert(self.as_nat() + 16 - rhs.as_nat() == if borrow_out {
                r.as_nat() as int
            } else {
                r.as_nat() + 16 as int
            });
            lemma_value_of_wrapped_sum(self.as_nat() + 16 - rhs.as_nat(), r.as_nat());
        }
        r
    }

    /// Build a nibble from the low 4 bits of the first byte of a buffer, by
    /// the same truncation rule as `from_u8`. An empty buffer is rejected
    /// with `EmptyInput`.
    pub fn from_bytes(a: &[u8]) -> (r: Result<Self, ParseError>)
        ensures
            r is Ok <==> a@.len() > 0,
            r is Ok ==> r->Ok_0.as_nat() == a@[0] % 16,
            r is Err ==> r == Err::<U4, ParseError>(ParseError::EmptyInput),
    {
        if a.len() == 0 {
            Err(ParseError::EmptyInput)
        } else {
            Ok(Self::from_u8(a[0]))
        }
    }

    /// Decode hex text into bytes and build a nibble from the first byte.
    /// A codec failure (`OddLength`, `InvalidHexDigit`) is handed on
    /// verbatim; text that decodes to no byte at all is `EmptyInput`.
    pub fn from_hex_str(s: &str) -> (r: Result<Self, ParseError>)
        ensures
            r is Ok <==> hex_decodable(s@) && s@.len() > 0,
            r is Ok ==> r->Ok_0.as_nat() == hex_decoding(s@)[0] % 16,
            r == Err::<U4, ParseError>(ParseError::OddLength) <==> s@.len() % 2 != 0,
            r == Err::<U4, ParseError>(ParseError::InvalidHexDigit) <==> s@.len() % 2 == 0 && (
            exists|i: int| 0 <= i < s@.len() && !is_hex_digit(#[trigger] s@[i])),
            r == Err::<U4, ParseError>(ParseError::EmptyInput) <==> s@.len() == 0,
    {
        match decode_hex(s) {
            Ok(bytes) => Self::from_bytes(bytes.as_slice()),
            Err(e) => Err(e),
        }
    }

    /// The value of this nibble as one byte of lowercase hex text: always
    /// two characters, the first always `0` since the value is below 16.
    pub fn to_hex_str(&self) -> (r: String)
        ensures
            r@ == hex_encoding(seq![self.as_nat() as u8]),
            r@.len() == 2,
    {
        let byte: [u8; 1] = [self.to_u8()];
        let r = encode_hex(byte.as_slice());
        proof {
            assert(byte@ =~= seq![self.as_nat() as u8]);
        }
        r
    }

    /// The decimal text of this nibble's value, `"0"` through `"15"`: the
    /// display form of the type.
    pub fn to_decimal_string(&self) -> (r: String)
        ensures
            r@ == decimal_text(self.as_nat()),
    {
        let v = self.to_u8();
        if v < 10 {
            let mut r = String::new();
            r.append(hex_digit_str(v));
            r
        } else {
            let mut r = String::new();
            proof {
                reveal_strlit("1");
            }
            r.append("1");
            r.append(hex_digit_str(v - 10));
            proof {
                assert(r@ =~= decimal_text(self.as_nat()));
            }
            r
        }
    }

    /// Position-wise boolean exclusive or, no carry state.
    pub fn xor(self, rhs: Self) -> (r: Self)
        ensures
            forall|i: int| 0 <= i < 4 ==> r@[i] == (self@[i] != rhs@[i]),
    {
        U4 {
            bit0: self.bit0 ^ rhs.bit0,
            bit1: self.bit1 ^ rhs.bit1,
            bit2: self.bit2 ^ rhs.bit2,
            bit3: self.bit3 ^ rhs.bit3,
        }
    }

    /// Position-wise boolean or, no carry state.
    pub fn or(self, rhs: Self) -> (r: Self)
        ensures
            forall|i: int| 0 <= i < 4 ==> r@[i] == (self@[i] || rhs@[i]),
    {
        U4 {
            bit0: self.bit0 || rhs.bit0,
            bit1: self.bit1 || rhs.bit1,
            bit2: self.bit2 || rhs.bit2,
            bit3: self.bit3 || rhs.bit3,
        }
    }

    /// Rotate the bits left by `n` places: output bit `i` is input bit
    /// `(i + n) mod 4`. Total for every `n`; rotating by a multiple of 4 is
    /// the identity.
    pub fn rotate_left(self, n: u32) -> (r: Self)
        ensures
            forall|i: int| 0 <= i < 4 ==> r@[i] == self@[(i + n as int) % 4],
    {
        proof {
            lemma_rotation_index(0, n as int);
            lemma_rotation_index(1, n as int);
            lemma_rotation_index(2, n as int);
            lemma_rotation_index(3, n as int);
        }
        match n % 4 {
            0 => self,
            1 => U4 { bit0: self.bit1, bit1: self.bit2, bit2: self.bit3, bit3: self.bit0 },
            2 => U4 { bit0: self.bit2, bit1: self.bit3, bit2: self.bit0, bit3: self.bit1 },
            _ => U4 { bit0: self.bit3, bit1: self.bit0, bit2: self.bit1, bit3: self.bit2 },
        }
    }

    /// Rotate the bits right by `n` places: output bit `i` is input bit
    /// `(i + 4 - n) mod 4`. Total for every `n`; rotating by a multiple of 4
    /// is the identity.
    pub fn rotate_right(self, n: u32) -> (r: Self)
        ensures
            forall|i: int| 0 <= i < 4 ==> r@[i] == self@[(i + 4 - n as int % 4) % 4],
    {
        match n % 4 {
            0 => self,
            1 => U4 { bit0: self.bit3, bit1: self.bit0, bit2: self.bit1, bit3: self.bit2 },
            2 => U4 { bit0: self.bit2, bit1: self.bit3, bit2: self.bit0, bit3: self.bit1 },
            _ => U4 { bit0: self.bit1, bit1: self.bit2, bit2: self.bit3, bit3: self.bit0 },
        }
    }
}

/// Round-trip law: converting a native value in [0, 16) to a nibble and
/// back returns the value. A nibble holding `v mod 16`, which is what
/// `from_u8` builds, reads back through `to_u8` as exactly `v`.
pub proof fn lemma_native_round_trip(v: u8, u: U4)
    requires
        v < 16,
        u.as_nat() == v % 16,
    ensures
        u.as_nat() == v,
{
}

/// Hex round-trip law: the two-character hex text that `to_hex_str`
/// produces for a nibble decodes back to the nibble's one value byte, so
/// `from_hex_str` on it reproduces the nibble's value.
pub proof fn lemma_hex_text_round_trip(u: U4)
    ensures
        hex_decodable(hex_encoding(seq![u.as_nat() as u8])),
        hex_encoding(seq![u.as_nat() as u8]).len() == 2,
        hex_decoding(hex_encoding(seq![u.as_nat() as u8]))[0] % 16 == u.as_nat(),
{
    crate::hex::lemma_hex_round_trip(seq![u.as_nat() as u8]);
    vstd::arithmetic::div_mod::lemma_small_mod(u.as_nat(), 16);
}

/// Rotation identity law: rotating by any non-negative multiple of 4 is the
/// identity. A nibble whose bits are those of `u` read at offset `n`, with
/// `n` divisible by 4, is `u` itself; `rotate_left(u, n)` and
/// `rotate_right(u, n)` both ensure exactly such a reading for such `n`.
pub proof fn lemma_rotation_identity(u: U4, r: U4, n: int)
    requires
        n >= 0,
        n % 4 == 0,
        forall|i: int| 0 <= i < 4 ==> r@[i] == u@[(i + n) % 4],
    ensures
        r == u,
{
    lemma_rotation_index(0, n);
    lemma_rotation_index(1, n);
    lemma_rotation_index(2, n);
    lemma_rotation_index(3, n);
    assert((0 + n) % 4 == 0 && (1 + n) % 4 == 1 && (2 + n) % 4 == 2 && (3 + n) % 4 == 3) by {
        vstd::arithmetic::div_mod::lemma_small_mod(0, 4);
        vstd::arithmetic::div_mod::lemma_small_mod(1, 4);
        vstd::arithmetic::div_mod::lemma_small_mod(2, 4);
        vstd::arithmetic::div_mod::lemma_small_mod(3, 4);
    }
    assert(r@[0] == u@[0] && r@[1] == u@[1] && r@[2] == u@[2] && r@[3] == u@[3]);
    assert(r@ =~= u@);
    U4::lemma_view_injective(r, u);
}

/// Commutativity law for addition: any two nibbles meeting
/// `wrapping_add`'s contract for `a + b` and for `b + a` are the same
/// nibble.
pub proof fn lemma_add_commutes(a: U4, b: U4, ab: U4, ba: U4)
    requires
        ab.as_nat() == (a.as_nat() + b.as_nat()) % 16,
        ba.as_nat() == (b.as_nat() + a.as_nat()) % 16,
    ensures
        ab == ba,
{
    U4::lemma_as_nat_injective(ab, ba);
}

/// Commutativity law for `or`: any two nibbles meeting `or`'s contract for
/// `a | b` and for `b | a` are the same nibble.
pub proof fn lemma_or_commutes(a: U4, b: U4, ab: U4, ba: U4)
    requires
        forall|i: int| 0 <= i < 4 ==> ab@[i] == (a@[i] || b@[i]),
        forall|i: int| 0 <= i < 4 ==> ba@[i] == (b@[i] || a@[i]),
    ensures
        ab == ba,
{
    assert(ab@ =~= ba@);
    U4::lemma_view_injective(ab, ba);
}

/// Commutativity law for `xor`: any two nibbles meeting `xor`'s contract
/// for `a ^ b` and for `b ^ a` are the same nibble.
pub proof fn lemma_xor_commutes(a: U4, b: U4, ab: U4, ba: U4)
    requires
        forall|i: int| 0 <= i < 4 ==> ab@[i] == (a@[i] != b@[i]),
        forall|i: int| 0 <= i < 4 ==> ba@[i] == (b@[i] != a@[i]),
    ensures
        ab == ba,
{
    assert(ab@ =~= ba@);
    U4::lemma_view_injective(ab, ba);
}

/// A wrapped 4-bit result stands for its mathematical value modulo 16: the
/// one discarded carry or borrow is worth exactly 16.
proof fn lemma_value_of_wrapped_sum(x: int, r: nat)
    requires
        r < 16,
        x == r || x == r + 16,
    ensures
        x % 16 == r,
{
    vstd::arithmetic::div_mod::lemma_small_mod(r, 16);
    if x == r + 16 {
        vstd::arithmetic::div_mod::lemma_mod_add_multiples_vanish(r as int, 16);
    }
}

/// Rotating by `n` reads the same bit as rotating by `n mod 4`: the index
/// arithmetic of the rotations wraps.
proof fn lemma_rotation_index(i: int, n: int)
    requires
        0 <= i < 4,
        0 <= n,
    ensures
        (i + n) % 4 == (i + n % 4) % 4,
{
    vstd::arithmetic::div_mod::lemma_add_mod_noop(i, n, 4);
    vstd::arithmetic::div_mod::lemma_add_mod_noop(i, n % 4, 4);
    vstd::arithmetic::div_mod::lemma_mod_twice(n, 4);
    vstd::arithmetic::div_mod::lemma_small_mod(i as nat, 4);
}

/// One bit position of the ripple-carry adder: sum and carry-out of two
/// operand bits and a carry-in, by the full-adder truth table.
fn full_adder(a: bool, b: bool, carry_in: bool) -> (r: (bool, bool))
    ensures
        bit_as_nat(r.0) + 2 * bit_as_nat(r.1) == bit_as_nat(a) + bit_as_nat(b) + bit_as_nat(
            carry_in,
        ),
{
    if a && b {
        if carry_in {
            (true, true)
        } else {
            (false, true)
        }
    } else if !a && !b {
        if carry_in {
            (true, false)
        } else {
            (false, false)
        }
    } else {
        if carry_in {
            (false, true)
        } else {
            (true, false)
        }
    }
}

/// One bit position of the ripple-borrow subtractor: difference and
/// borrow-out of two operand bits and a borrow-in, by the full-subtractor
/// truth table.
fn full_subtractor(a: bool, b: bool, borrow_in: bool) -> (r: (bool, bool))
    ensures
        bit_as_nat(r.0) + bit_as_nat(b) + bit_as_nat(borrow_in) == bit_as_nat(a) + 2 * bit_as_nat(
            r.1,
        ),
{
    if a && b {
        if borrow_in {
            (true, true)
        } else {
            (false, false)
        }
    } else if !a && !b {
        if borrow_in {
            (true, true)
        } else {
            (false, false)
        }
    } else if !a && b {
        if borrow_in {
            (false, true)
        } else {
            (true, true)
        }
    } else {
        if borrow_in {
            (false, false)
        } else {
            (true, false)
        }
    }
}

} // verus!
