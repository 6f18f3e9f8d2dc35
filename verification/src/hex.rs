//! Hexadecimal text codec: lowercase encoding of byte sequences, two
//! characters per byte with the most-significant nibble first, and decoding
//! that fails on odd-length input or on a character that is no hex digit.

use vstd::prelude::*;

verus! {

/// The ways parsing can fail, for the codec and for the nibble built on it.
#[derive(Debug, Clone, Copy, PartialEq, Eq, Structural)]
pub enum ParseError {
    /// The hex text has an odd number of characters.
    OddLength,
    /// A character of the hex text is no hexadecimal digit.
    InvalidHexDigit,
    /// A value was asked of an empty byte sequence.
    EmptyInput,
}

/// Whether `c` is a hexadecimal digit: `0-9`, `a-f` or `A-F`.
pub open spec fn is_hex_digit(c: char) -> bool {
    ('0' as int <= c as int && c as int <= '9' as int) || ('a' as int <= c as int && c as int
        <= 'f' as int) || ('A' as int <= c as int && c as int <= 'F' as int)
}

/// The numeric value of a hexadecimal digit, in [0, 16).
pub open spec fn hex_digit_value(c: char) -> nat
    recommends
        is_hex_digit(c),
{
    if '0' as int <= c as int && c as int <= '9' as int {
        (c as int - '0' as int) as nat
    } else if 'a' as int <= c as int && c as int <= 'f' as int {
        (c as int - 'a' as int + 10) as nat
    } else {
        (c as int - 'A' as int + 10) as nat
    }
}

/// The lowercase hexadecimal digit for a value in [0, 16).
pub open spec fn hex_digit_char(v: nat) -> char
    recommends
        v < 16,
{
    if v == 0 {
        '0'
    } else if v == 1 {
        '1'
    } else if v == 2 {
        '2'
    } else if v == 3 {
        '3'
    } else if v == 4 {
        '4'
    } else if v == 5 {
        '5'
    } else if v == 6 {
        '6'
    } else if v == 7 {
        '7'
    } else if v == 8 {
        '8'
    } else if v == 9 {
        '9'
    } else if v == 10 {
        'a'
    } else if v == 11 {
        'b'
    } else if v == 12 {
        'c'
    } else if v == 13 {
        'd'
    } else if v == 14 {
        'e'
    } else {
        'f'
    }
}

/// The lowercase hex text of a byte sequence: two characters per byte,
/// most-significant nibble first.
pub open spec fn hex_encoding(bytes: Seq<u8>) -> Seq<char> {
    Seq::new(
        bytes.len() * 2,
        |i: int|
            if i % 2 == 0 {
                hex_digit_char((bytes[i / 2] / 16) as nat)
            } else {
                hex_digit_char((bytes[i / 2] % 16) as nat)
            },
    )
}

/// Whether hex text decodes at all: even length, every character a digit.
pub open spec fn hex_decodable(s: Seq<char>) -> bool {
    s.len() % 2 == 0 && (forall|i: int| 0 <= i < s.len() ==> is_hex_digit(#[trigger] s[i]))
}

/// The bytes that decodable hex text stands for, one byte per character pair.
pub open spec fn hex_decoding(s: Seq<char>) -> Seq<u8>
    recommends
        hex_decodable(s),
{
    Seq::new(
        s.len() / 2,
        |i: int| (hex_digit_value(s[2 * i]) * 16 + hex_digit_value(s[2 * i + 1])) as u8,
    )
}

/// Every value in [0, 16) encodes to a digit that decodes back to it, and
/// the digits `0-9`, `a-f` are lowercase (never `A-F`).
pub proof fn lemma_hex_digit_round_trip(v: nat)
    requires
        v < 16,
    ensures
        is_hex_digit(hex_digit_char(v)),
        hex_digit_value(hex_digit_char(v)) == v,
{
}

/// Decoding is a left inverse of encoding: the hex text of any byte
/// sequence is decodable, and decodes to that same sequence.
pub proof fn lemma_hex_round_trip(bytes: Seq<u8>)
    ensures
        hex_decodable(hex_encoding(bytes)),
        hex_decoding(hex_encoding(bytes)) =~= bytes,
{
    let s = hex_encoding(bytes);
    assert forall|i: int| 0 <= i < s.len() implies is_hex_digit(#[trigger] s[i]) by {
        if i % 2 == 0 {
            lemma_hex_digit_round_trip((bytes[i / 2] / 16) as nat);
        } else {
            lemma_hex_digit_round_trip((bytes[i / 2] % 16) as nat);
        }
    }
    assert forall|k: int| 0 <= k < bytes.len() implies hex_decoding(s)[k] == bytes[k] by {
        assert((2 * k) % 2 == 0 && (2 * k + 1) % 2 == 1);
        lemma_hex_digit_round_trip((bytes[k] / 16) as nat);
        lemma_hex_digit_round_trip((bytes[k] % 16) as nat);
        assert(bytes[k] / 16 * 16 + bytes[k] % 16 == bytes[k]);
    }
}

/// The lowercase hex digit of a value in [0, 16), as a one-character string.
pub fn hex_digit_str(v: u8) -> (r: &'static str)
    requires
        v < 16,
    ensures
        r@ =~= seq![hex_digit_char(v as nat)],
{
    match v {
        0 => {
            proof {
                reveal_strlit("0");
            }
            "0"
        },
        1 => {
            proof {
                reveal_strlit("1");
            }
            "1"
        },
        2 => {
            proof {
                reveal_strlit("2");
            }
            "2"
        },
        3 => {
            proof {
                reveal_strlit("3");
            }
            "3"
        },
        4 => {
            proof {
                reveal_strlit("4");
            }
            "4"
        },
        5 => {
            proof {
                reveal_strlit("5");
            }
            "5"
        },
        6 => {
            proof {
                reveal_strlit("6");
            }
            "6"
        },
        7 => {
            proof {
                reveal_strlit("7");
            }
            "7"
        },
        8 => {
            proof {
                reveal_strlit("8");
            }
            "8"
        },
        9 => {
            proof {
                reveal_strlit("9");
            }
            "9"
        },
        10 => {
            proof {
                reveal_strlit("a");
            }
            "a"
        },
        11 => {
            proof {
                reveal_strlit("b");
            }
            "b"
        },
        12 => {
            proof {
                reveal_strlit("c");
            }
            "c"
        },
        13 => {
            proof {
                reveal_strlit("d");
            }
            "d"
        },
        14 => {
            proof {
                reveal_strlit("e");
            }
            "e"
        },
        _ => {
            proof {
                reveal_strlit("f");
            }
            "f"
        },
    }
}

/// Encode a byte sequence as lowercase hex text, two characters per byte,
/// most-significant nibble first.
pub fn encode_hex(bytes: &[u8]) -> (r: String)
    ensures
        r@ =~= hex_encoding(bytes@),
{
    let mut r = String::new();
    let mut i: usize = 0;
    while i < bytes.len()
        invariant
            i <= bytes@.len(),
            r@ =~= hex_encoding(bytes@.take(i as int)),
        decreases bytes@.len() - i,
    {
        let b = bytes[i];
        r.append(hex_digit_str(b / 16));
        r.append(hex_digit_str(b % 16));
        proof {
            assert(r@ =~= hex_encoding(bytes@.take(i + 1)));
        }
        i += 1;
    }
    proof {
        assert(bytes@.take(bytes@.len() as int) =~= bytes@);
    }
    r
}

/// The numeric value of one hex digit character, or `None` where the
/// character is no hex digit.
fn hex_digit_val(c: char) -> (r: Option<u8>)
    ensures
        r is Some <==> is_hex_digit(c),
        r is Some ==> r->0 == hex_digit_value(c) && r->0 < 16,
{
    let u = c as u32;
    if 48 <= u && u <= 57 {
        Some((u - 48) as u8)
    } else if 97 <= u && u <= 102 {
        Some((u - 97 + 10) as u8)
    } else if 65 <= u && u <= 70 {
        Some((u - 65 + 10) as u8)
    } else {
        None
    }
}

/// Decode hex text into the bytes it stands for. Fails with `OddLength` on
/// an odd number of characters, and with `InvalidHexDigit` where some
/// character is no hex digit; both upper- and lowercase digits decode.
pub fn decode_hex(s: &str) -> (r: Result<Vec<u8>, ParseError>)
    ensures
        r is Ok <==> hex_decodable(s@),
        r is Ok ==> r->Ok_0@ =~= hex_decoding(s@),
        r == Err::<Vec<u8>, ParseError>(ParseError::OddLength) <==> s@.len() % 2 != 0,
        r == Err::<Vec<u8>, ParseError>(ParseError::InvalidHexDigit) <==> s@.len() % 2 == 0
            && (exists|i: int| 0 <= i < s@.len() && !is_hex_digit(#[trigger] s@[i])),
{
    let n = s.unicode_len();
    if n % 2 != 0 {
        return Err(ParseError::OddLength);
    }
    let mut out: Vec<u8> = Vec::new();
    let mut i: usize = 0;
    while i < n
        invariant
            n == s@.len(),
            n % 2 == 0,
            i % 2 == 0,
            i <= n,
            forall|j: int| 0 <= j < i ==> is_hex_digit(#[trigger] s@[j]),
            out@.len() == i / 2,
            forall|k: int|
                0 <= k < i / 2 ==> out@[k] == (hex_digit_value(s@[2 * k]) * 16 + hex_digit_value(
                    s@[2 * k + 1],
                )) as u8,
        decreases n - i,
    {
        let hi = match hex_digit_val(s.get_char(i)) {
            Some(v) => v,
            None => {
                return Err(ParseError::InvalidHexDigit);
            },
        };
        let lo = match hex_digit_val(s.get_char(i + 1)) {
            Some(v) => v,
            None => {
                return Err(ParseError::InvalidHexDigit);
            },
        };
        out.push(hi * 16 + lo);
        i += 2;
    }
    proof {
        assert(out@ =~= hex_decoding(s@));
    }
    Ok(out)
}

} // verus!
