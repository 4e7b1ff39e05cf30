use vstd::prelude::*;
use vstd::string::StringExecFns;

use crate::errors::WolError;

verus! {

/// A validated 6-byte hardware address. A value of this type always holds
/// exactly 6 bytes, so no further well-formedness condition is needed.
#[derive(Clone, Copy, Debug, PartialEq, Eq, Structural)]
pub struct MacAddress {
    pub b0: u8,
    pub b1: u8,
    pub b2: u8,
    pub b3: u8,
    pub b4: u8,
    pub b5: u8,
}

impl View for MacAddress {
    type V = Seq<u8>;

    open spec fn view(&self) -> Seq<u8> {
        seq![self.b0, self.b1, self.b2, self.b3, self.b4, self.b5]
    }
}

impl MacAddress {
    pub fn new(b0: u8, b1: u8, b2: u8, b3: u8, b4: u8, b5: u8) -> (r: MacAddress)
        ensures
            r@ == seq![b0, b1, b2, b3, b4, b5],
    {
        MacAddress { b0, b1, b2, b3, b4, b5 }
    }

    /// The six bytes, in order.
    pub fn to_bytes(&self) -> (r: Vec<u8>)
        ensures
            r@ == self@,
    {
        let mut r: Vec<u8> = Vec::new();
        r.push(self.b0);
        r.push(self.b1);
        r.push(self.b2);
        r.push(self.b3);
        r.push(self.b4);
        r.push(self.b5);
        proof {
            assert(r@ =~= self@);
        }
        r
    }
}

/// Whether `c` is a hexadecimal digit, in either letter case.
pub open spec fn is_hex_digit(c: char) -> bool {
    ('0' <= c && c <= '9') || ('a' <= c && c <= 'f') || ('A' <= c && c <= 'F')
}

/// The value of the hexadecimal digit `c`.
pub open spec fn hex_val(c: char) -> int {
    if '0' <= c && c <= '9' {
        c as int - '0' as int
    } else if 'a' <= c && c <= 'f' {
        10 + c as int - 'a' as int
    } else {
        10 + c as int - 'A' as int
    }
}

/// Whether `c` occurs in `s`.
pub open spec fn contains_char(s: Seq<char>, c: char) -> bool {
    exists|i: int| 0 <= i < s.len() && s[i] == c
}

/// How often `c` occurs in `s` at positions `i` and beyond.
pub open spec fn count_char_from(s: Seq<char>, c: char, i: int) -> nat
    decreases s.len() - i,
{
    if i < 0 || i >= s.len() {
        0
    } else {
        (if s[i] == c {
            1nat
        } else {
            0nat
        }) + count_char_from(s, c, i + 1)
    }
}

/// How often `c` occurs in `s`.
pub open spec fn count_char(s: Seq<char>, c: char) -> nat {
    count_char_from(s, c, 0)
}

/// The delimiter the parser settles on: `-` wins if present, else `:`.
pub open spec fn delimiter_of(s: Seq<char>) -> char {
    if contains_char(s, '-') {
        '-'
    } else {
        ':'
    }
}

/// The canonical 17-character shape: six two-hex-digit groups with the single
/// delimiter `d` between them, so `d` stands exactly at the positions
/// congruent to 2 modulo 3.
pub open spec fn canonical_shape(s: Seq<char>, d: char) -> bool {
    &&& s.len() == 17
    &&& forall|i: int| #![trigger s[i]] 0 <= i < 17 && i % 3 == 2 ==> s[i] == d
    &&& forall|i: int| #![trigger s[i]] 0 <= i < 17 && i % 3 != 2 ==> is_hex_digit(s[i])
}

/// The six byte values of a canonically shaped MAC text.
pub open spec fn bytes_of(s: Seq<char>) -> Seq<u8> {
    Seq::new(6, |i: int| (hex_val(s[3 * i]) * 16 + hex_val(s[3 * i + 1])) as u8)
}

/// What parsing a MAC text yields: the six bytes, or the error kind that names
/// the first check the text fails.
pub open spec fn parse_spec(s: Seq<char>) -> Result<Seq<u8>, WolError> {
    if s.len() != 17 {
        Err(WolError::InvalidMacFormat)
    } else if !contains_char(s, '-') && !contains_char(s, ':') {
        Err(WolError::InvalidMacDelimiter)
    } else if count_char(s, delimiter_of(s)) != 5 {
        Err(WolError::InvalidMacLength)
    } else if !canonical_shape(s, delimiter_of(s)) {
        Err(WolError::InvalidMacByte)
    } else {
        Ok(bytes_of(s))
    }
}

/// The uppercase hexadecimal digit for the value `v`.
pub open spec fn hex_digit_char(v: int) -> char {
    if v == 0 {
        '0'
    } else if v == 1 {
        '1'
    } else if v == 2 {
        '2'
    } else if v == 3 {
        '3'
    } else if v == 4 {
        '4'
    } else if v == 5 {
        '5'
    } else if v == 6 {
        '6'
    } else if v == 7 {
        '7'
    } else if v == 8 {
        '8'
    } else if v == 9 {
        '9'
    } else if v == 10 {
        'A'
    } else if v == 11 {
        'B'
    } else if v == 12 {
        'C'
    } else if v == 13 {
        'D'
    } else if v == 14 {
        'E'
    } else {
        'F'
    }
}

/// The canonical text of the six bytes `b`: uppercase two-digit hex groups
/// joined by `:`.
pub open spec fn format_mac(b: Seq<u8>) -> Seq<char> {
    Seq::new(
        17,
        |i: int|
            if i % 3 == 2 {
                ':'
            } else if i % 3 == 0 {
                hex_digit_char(b[i / 3] as int / 16)
            } else {
                hex_digit_char(b[i / 3] as int % 16)
            },
    )
}

/// The value of `c` as a hexadecimal digit, or `None` if it is not one.
fn hex_char_val(c: char) -> (r: Option<u8>)
    ensures
        match r {
            Some(v) => is_hex_digit(c) && v < 16 && v == hex_val(c),
            None => !is_hex_digit(c),
        },
{
    let v: u32 = c as u32;
    if '0' as u32 <= v && v <= '9' as u32 {
        Some((v - '0' as u32) as u8)
    } else if 'a' as u32 <= v && v <= 'f' as u32 {
        Some((v - 'a' as u32 + 10) as u8)
    } else if 'A' as u32 <= v && v <= 'F' as u32 {
        Some((v - 'A' as u32 + 10) as u8)
    } else {
        None
    }
}

/// Whether `c` occurs in `s`.
fn str_contains_char(s: &str, c: char) -> (r: bool)
    ensures
        r == contains_char(s@, c),
{
    let n = s.unicode_len();
    let mut i: usize = 0;
    while i < n
        invariant
            n == s@.len(),
            i <= n,
            forall|j: int| 0 <= j < i ==> s@[j] != c,
        decreases n - i,
    {
        if s.get_char(i) == c {
            proof {
                assert(s@[i as int] == c);
            }
            return true;
        }
        i = i + 1;
    }
    false
}

/// How often `c` occurs in `s`.
fn str_count_char(s: &str, c: char) -> (r: usize)
    ensures
        r == count_char(s@, c),
{
    let n = s.unicode_len();
    let mut i: usize = 0;
    let mut cnt: usize = 0;
    while i < n
        invariant
            n == s@.len(),
            i <= n,
            cnt <= i,
            count_char(s@, c) == cnt + count_char_from(s@, c, i as int),
        decreases n - i,
    {
        if s.get_char(i) == c {
            cnt = cnt + 1;
        }
        i = i + 1;
    }
    cnt
}

/// Parses a MAC address text: exactly 17 characters, six two-hex-digit groups
/// (either letter case) joined by a single delimiter, `:` or `-`, used
/// consistently. Returns the error kind of the first check that fails;
/// nothing is accepted partially.
pub fn parse_mac(mac_string: &str) -> (r: Result<MacAddress, WolError>)
    ensures
        match r {
            Ok(mac) => parse_spec(mac_string@) == Ok::<Seq<u8>, WolError>(mac@),
            Err(e) => parse_spec(mac_string@) == Err::<Seq<u8>, WolError>(e),
        },
{
    let n = mac_string.unicode_len();
    if n != 17 {
        return Err(WolError::InvalidMacFormat);
    }
    let has_dash = str_contains_char(mac_string, '-');
    let has_colon = str_contains_char(mac_string, ':');
    if !has_dash && !has_colon {
        return Err(WolError::InvalidMacDelimiter);
    }
    let d: char = if has_dash {
        '-'
    } else {
        ':'
    };
    proof {
        assert(delimiter_of(mac_string@) == d);
    }
    if str_count_char(mac_string, d) != 5 {
        return Err(WolError::InvalidMacLength);
    }
    let mut bytes: Vec<u8> = Vec::new();
    let mut g: usize = 0;
    while g < 6
        invariant
            mac_string@.len() == 17,
            contains_char(mac_string@, '-') || contains_char(mac_string@, ':'),
            d == delimiter_of(mac_string@),
            count_char(mac_string@, delimiter_of(mac_string@)) == 5,
            g <= 6,
            bytes@.len() == g,
            forall|k: int|
                #![trigger bytes@[k]]
                0 <= k < g ==> bytes@[k] == (hex_val(mac_string@[3 * k]) * 16 + hex_val(
                    mac_string@[3 * k + 1],
                )) as u8,
            forall|i: int|
                #![trigger mac_string@[i]]
                0 <= i < 3 * g && i < 17 ==> (if i % 3 == 2 {
                    mac_string@[i] == d
                } else {
                    is_hex_digit(mac_string@[i])
                }),
        decreases 6 - g,
    {
        let hi = match hex_char_val(mac_string.get_char(3 * g)) {
            Some(v) => v,
            None => {
                proof {
                    assert(!canonical_shape(mac_string@, d)) by {
                        if canonical_shape(mac_string@, d) {
                            assert(is_hex_digit(mac_string@[3 * (g as int)]));
                        }
                    }
                }
                return Err(WolError::InvalidMacByte);
            },
        };
        let lo = match hex_char_val(mac_string.get_char(3 * g + 1)) {
            Some(v) => v,
            None => {
                proof {
                    assert(!canonical_shape(mac_string@, d)) by {
                        if canonical_shape(mac_string@, d) {
                            assert(is_hex_digit(mac_string@[3 * (g as int) + 1]));
                        }
                    }
                }
                return Err(WolError::InvalidMacByte);
            },
        };
        if g < 5 {
            if mac_string.get_char(3 * g + 2) != d {
                proof {
                    assert(!canonical_shape(mac_string@, d)) by {
                        if canonical_shape(mac_string@, d) {
                            assert(mac_string@[3 * (g as int) + 2] == d);
                        }
                    }
                }
                return Err(WolError::InvalidMacByte);
            }
        }
        bytes.push(hi * 16 + lo);
        g = g + 1;
    }
    let mac = MacAddress::new(bytes[0], bytes[1], bytes[2], bytes[3], bytes[4], bytes[5]);
    proof {
        assert(canonical_shape(mac_string@, d));
        assert(mac@ =~= bytes_of(mac_string@));
    }
    Ok(mac)
}

/// The one-character text of the hexadecimal digit `v`, uppercase.
fn hex_digit_str(v: u8) -> (r: &'static str)
    requires
        v < 16,
    ensures
        r@.len() == 1,
        r@[0] == hex_digit_char(v as int),
{
    if v == 0 {
        proof {
            reveal_strlit("0");
        }
        "0"
    } else if v == 1 {
        proof {
            reveal_strlit("1");
        }
        "1"
    } else if v == 2 {
        proof {
            reveal_strlit("2");
        }
        "2"
    } else if v == 3 {
        proof {
            reveal_strlit("3");
        }
        "3"
    } else if v == 4 {
        proof {
            reveal_strlit("4");
        }
        "4"
    } else if v == 5 {
        proof {
            reveal_strlit("5");
        }
        "5"
    } else if v == 6 {
        proof {
            reveal_strlit("6");
        }
        "6"
    } else if v == 7 {
        proof {
            reveal_strlit("7");
        }
        "7"
    } else if v == 8 {
        proof {
            reveal_strlit("8");
        }
        "8"
    } else if v == 9 {
        proof {
            reveal_strlit("9");
        }
        "9"
    } else if v == 10 {
        proof {
            reveal_strlit("A");
        }
        "A"
    } else if v == 11 {
        proof {
            reveal_strlit("B");
        }
        "B"
    } else if v == 12 {
        proof {
            reveal_strlit("C");
        }
        "C"
    } else if v == 13 {
        proof {
            reveal_strlit("D");
        }
        "D"
    } else if v == 14 {
        proof {
            reveal_strlit("E");
        }
        "E"
    } else {
        proof {
            reveal_strlit("F");
        }
        "F"
    }
}

/// Renders a MAC address in canonical form: six uppercase two-digit hex
/// groups joined by `:`, whatever delimiter the address was parsed from.
pub fn unparse_mac(mac: &MacAddress) -> (r: String)
    ensures
        r@ == format_mac(mac@),
        r@.len() == 17,
{
    let bytes = mac.to_bytes();
    let mut out = String::new();
    let mut i: usize = 0;
    while i < 6
        invariant
            bytes@ == mac@,
            bytes@.len() == 6,
            i <= 6,
            out@ =~= format_mac(mac@).subrange(
                0,
                if i == 6 {
                    17int
                } else {
                    3 * i as int
                },
            ),
        decreases 6 - i,
    {
        let hi = hex_digit_str(bytes[i] / 16);
        let lo = hex_digit_str(bytes[i] % 16);
        out.append(hi);
        out.append(lo);
        if i < 5 {
            out.append(":");
            proof {
                reveal_strlit(":");
            }
        }
        proof {
            let target = format_mac(mac@);
            assert(target[3 * (i as int)] == hex_digit_char(bytes@[i as int] as int / 16));
            assert(target[3 * (i as int) + 1] == hex_digit_char(bytes@[i as int] as int % 16));
            if i < 5 {
                assert(target[3 * (i as int) + 2] == ':');
            }
            assert(out@ =~= target.subrange(
                0,
                if i + 1 == 6 {
                    17int
                } else {
                    3 * (i + 1) as int
                },
            ));
        }
        i = i + 1;
    }
    proof {
        assert(format_mac(mac@).subrange(0, 17) =~= format_mac(mac@));
    }
    out
}

} // verus!
