//! Hardware (MAC) addresses and their textual form.

use vstd::prelude::*;

verus! {

/// Why a hardware-address string was rejected.
#[derive(Debug, PartialEq, Eq, Structural, Clone, Copy)]
pub enum ParseError {
    /// A conversion of one hex group failed after the structural check.
    FailedConversion,
    /// The string does not have the shape `xx:xx:xx:xx:xx:xx`.
    InvalidInput,
    /// The group count was not six after the structural check.
    InvalidLength,
}

/// A link-layer hardware address: exactly six octets.
#[derive(Debug, PartialEq, Eq, Structural, Clone, Copy)]
pub struct Mac(pub u8, pub u8, pub u8, pub u8, pub u8, pub u8);

impl View for Mac {
    type V = Seq<u8>;

    open spec fn view(&self) -> Seq<u8> {
        seq![self.0, self.1, self.2, self.3, self.4, self.5]
    }
}

/// `c` is a hexadecimal digit, in either case.
pub open spec fn is_hex_digit(c: char) -> bool {
    ||| '0' as u32 <= c as u32 && c as u32 <= '9' as u32
    ||| 'a' as u32 <= c as u32 && c as u32 <= 'f' as u32
    ||| 'A' as u32 <= c as u32 && c as u32 <= 'F' as u32
}

/// The numeric value of a hexadecimal digit (0 on any other character).
pub open spec fn hex_digit_value(c: char) -> u8 {
    if '0' as u32 <= c as u32 && c as u32 <= '9' as u32 {
        (c as u32 - '0' as u32) as u8
    } else if 'a' as u32 <= c as u32 && c as u32 <= 'f' as u32 {
        (c as u32 - 'a' as u32 + 10) as u8
    } else if 'A' as u32 <= c as u32 && c as u32 <= 'F' as u32 {
        (c as u32 - 'A' as u32 + 10) as u8
    } else {
        0
    }
}

/// The shape of a textual hardware address: exactly six two-hex-digit
/// groups separated by colons, 17 characters in all, with a colon at
/// every position of the form 3k+2 and a hex digit everywhere else.
pub open spec fn valid_mac_text(s: Seq<char>) -> bool {
    &&& s.len() == 17
    &&& (forall|i: int| 0 <= i < 17 && i % 3 == 2 ==> #[trigger] s[i] == ':')
    &&& (forall|i: int| 0 <= i < 17 && i % 3 != 2 ==> is_hex_digit(#[trigger] s[i]))
}

/// The value of the `k`-th colon-separated group of a valid address text.
pub open spec fn octet_at(s: Seq<char>, k: int) -> u8 {
    (hex_digit_value(s[3 * k]) * 16 + hex_digit_value(s[3 * k + 1])) as u8
}

/// The six octets denoted by a valid address text, in textual order.
pub open spec fn mac_octets(s: Seq<char>) -> Seq<u8> {
    Seq::new(6, |k: int| octet_at(s, k))
}

fn hex_digit(c: char) -> (b: bool)
    ensures
        b == is_hex_digit(c),
{
    let u = c as u32;
    ('0' as u32 <= u && u <= '9' as u32) || ('a' as u32 <= u && u <= 'f' as u32)
        || ('A' as u32 <= u && u <= 'F' as u32)
}

fn hex_value(c: char) -> (v: u8)
    requires
        is_hex_digit(c),
    ensures
        v == hex_digit_value(c),
        v <= 15,
{
    let u = c as u32;
    if u <= '9' as u32 {
        (u - '0' as u32) as u8
    } else if u >= 'a' as u32 {
        (u - 'a' as u32 + 10) as u8
    } else {
        (u - 'A' as u32 + 10) as u8
    }
}

/// Checks the address text against the structural pattern alone.
fn text_is_valid(s: &str) -> (b: bool)
    ensures
        b == valid_mac_text(s@),
{
    let n = s.unicode_len();
    if n != 17 {
        return false;
    }
    let mut i: usize = 0;
    while i < 17
        invariant
            s@.len() == 17,
            i <= 17,
            forall|t: int| 0 <= t < i && t % 3 == 2 ==> #[trigger] s@[t] == ':',
            forall|t: int| 0 <= t < i && t % 3 != 2 ==> is_hex_digit(#[trigger] s@[t]),
        decreases 17 - i,
    {
        let c = s.get_char(i);
        if i % 3 == 2 {
            if c != ':' {
                return false;
            }
        } else {
            if !hex_digit(c) {
                return false;
            }
        }
        i = i + 1;
    }
    true
}

/// Reads the `k`-th two-digit group of a structurally valid address text.
fn octet(s: &str, k: usize) -> (v: u8)
    requires
        valid_mac_text(s@),
        k < 6,
    ensures
        v == octet_at(s@, k as int),
{
    let hi = hex_value(s.get_char(3 * k));
    let lo = hex_value(s.get_char(3 * k + 1));
    hi * 16 + lo
}

/// Parses the textual form of a hardware address. Succeeds exactly on
/// strings of the shape `xx:xx:xx:xx:xx:xx` (hex digits of either case)
/// and returns the six octets in textual order; every other string is
/// rejected as `InvalidInput`.
pub fn parse_mac(s: &str) -> (r: Result<Mac, ParseError>)
    ensures
        valid_mac_text(s@) ==> (r matches Ok(m) && m@ == mac_octets(s@)),
        !valid_mac_text(s@) ==> r == Err::<Mac, ParseError>(ParseError::InvalidInput),
{
    if !text_is_valid(s) {
        return Err(ParseError::InvalidInput);
    }
    let m = Mac(octet(s, 0), octet(s, 1), octet(s, 2), octet(s, 3), octet(s, 4), octet(s, 5));
    proof {
        assert(m@ =~= mac_octets(s@));
    }
    Ok(m)
}

/// `c2` is `c1` with the case of an ASCII letter possibly flipped.
pub open spec fn eq_ignoring_ascii_case(c1: char, c2: char) -> bool {
    ||| c1 == c2
    ||| 'A' as u32 <= c1 as u32 && c1 as u32 <= 'Z' as u32 && c2 as u32 == c1 as u32 + 32
    ||| 'a' as u32 <= c1 as u32 && c1 as u32 <= 'z' as u32 && c1 as u32 == c2 as u32 + 32
}

/// `s2` is `s1` with the case of ASCII letters possibly flipped.
pub open spec fn same_text_ignoring_case(s1: Seq<char>, s2: Seq<char>) -> bool {
    &&& s1.len() == s2.len()
    &&& forall|i: int| 0 <= i < s1.len() ==> eq_ignoring_ascii_case(s1[i], #[trigger] s2[i])
}

proof fn lemma_char_case(c1: char, c2: char)
    requires
        eq_ignoring_ascii_case(c1, c2),
    ensures
        is_hex_digit(c1) == is_hex_digit(c2),
        (c1 == ':') == (c2 == ':'),
        is_hex_digit(c1) ==> hex_digit_value(c1) == hex_digit_value(c2),
{
}

/// Case-insensitivity of the address grammar: two strings that differ
/// only in the case of ASCII letters are either both valid, denoting
/// the same six octets, or both invalid.
pub proof fn lemma_parse_case_insensitive(s1: Seq<char>, s2: Seq<char>)
    requires
        same_text_ignoring_case(s1, s2),
    ensures
        valid_mac_text(s1) == valid_mac_text(s2),
        valid_mac_text(s1) ==> mac_octets(s1) == mac_octets(s2),
{
    if valid_mac_text(s1) {
        assert forall|i: int| 0 <= i < 17 && i % 3 == 2 implies #[trigger] s2[i] == ':' by {
            lemma_char_case(s1[i], s2[i]);
        }
        assert forall|i: int| 0 <= i < 17 && i % 3 != 2 implies is_hex_digit(
            #[trigger] s2[i],
        ) by {
            lemma_char_case(s1[i], s2[i]);
        }
        assert(valid_mac_text(s2));
        assert forall|k: int| 0 <= k < 6 implies octet_at(s1, k) == octet_at(s2, k) by {
            lemma_char_case(s1[3 * k], s2[3 * k]);
            lemma_char_case(s1[3 * k + 1], s2[3 * k + 1]);
        }
        assert(mac_octets(s1) =~= mac_octets(s2));
    }
    if valid_mac_text(s2) {
        assert forall|i: int| 0 <= i < 17 && i % 3 == 2 implies #[trigger] s1[i] == ':' by {
            lemma_char_case(s1[i], s2[i]);
        }
        assert forall|i: int| 0 <= i < 17 && i % 3 != 2 implies is_hex_digit(
            #[trigger] s1[i],
        ) by {
            lemma_char_case(s1[i], s2[i]);
        }
        assert(valid_mac_text(s1));
    }
}

impl core::str::FromStr for Mac {
    type Err = ParseError;

    fn from_str(s: &str) -> Result<Mac, ParseError> {
        parse_mac(s)
    }
}

impl Mac {
    pub fn new(a: (u8, u8, u8, u8, u8, u8)) -> (m: Mac)
        ensures
            m@ == seq![a.0, a.1, a.2, a.3, a.4, a.5],
    {
        Mac(a.0, a.1, a.2, a.3, a.4, a.5)
    }

    pub fn as_bytes(&self) -> (b: [u8; 6])
        ensures
            b@ == self@,
    {
        let b = [self.0, self.1, self.2, self.3, self.4, self.5];
        proof {
            assert(b@ =~= self@);
        }
        b
    }
}

} // verus!
