//! MAC addresses: the protocol-facing value type for a machine's hardware
//! address, with parsing from text and formatting back.
//!
//! The text form is six hexadecimal octet groups separated by `:` or `-`.
//! Parsing also accepts fewer groups, filling the missing trailing octets
//! with zero, and rejects empty groups, non-hex digits, group values above
//! one octet, and more than six groups.

use vstd::prelude::*;
use vstd::array::array_index_get;
use vstd::slice::slice_index_get;
use vstd::string::{StringExecFns, StringSliceAdditionalSpecFns};

verus! {

/// A MAC address.
#[derive(Copy, Clone, Eq, PartialEq, Hash, Debug)]
pub struct HwAddr {
    value: [u8; 6],
}

impl View for HwAddr {
    type V = Seq<u8>;

    closed spec fn view(&self) -> Seq<u8> {
        self.value@
    }
}

/// The text could not be parsed as a MAC address.
#[derive(Clone, Copy, Debug, PartialEq, Eq, Structural)]
pub struct HwAddrParseError;

/// The bytes that separate octet groups: `:` and `-`.
pub open spec fn is_group_separator(b: u8) -> bool {
    b == 0x3au8 || b == 0x2du8
}

/// The value of one hexadecimal digit byte, upper or lower case.
pub open spec fn hex_digit_value(b: u8) -> Option<u8> {
    if 0x30 <= b && b <= 0x39 {
        Some((b - 0x30) as u8)
    } else if 0x41 <= b && b <= 0x46 {
        Some((b - 0x41 + 10) as u8)
    } else if 0x61 <= b && b <= 0x66 {
        Some((b - 0x61 + 10) as u8)
    } else {
        None
    }
}

/// Parse hex digits from `i` to the next separator or the end, accumulating
/// onto `acc`; the group's value must fit one octet. Yields the value and
/// the position of the separator or end.
pub open spec fn parse_group(bytes: Seq<u8>, i: int, acc: u8) -> Option<(u8, int)>
    decreases bytes.len() - i,
{
    if i < 0 || i > bytes.len() {
        None
    } else if i == bytes.len() {
        Some((acc, i))
    } else if is_group_separator(bytes[i]) {
        Some((acc, i))
    } else {
        match hex_digit_value(bytes[i]) {
            Some(d) => if acc * 16 + d <= 255 {
                parse_group(bytes, i + 1, (acc * 16 + d) as u8)
            } else {
                None
            },
            None => None,
        }
    }
}

/// Parse the separator-delimited octet groups from `i` to the end; every
/// group must be nonempty.
pub open spec fn parse_groups(bytes: Seq<u8>, i: int) -> Option<Seq<u8>>
    decreases bytes.len() - i,
{
    if i < 0 || i > bytes.len() {
        None
    } else {
        match parse_group(bytes, i, 0) {
            Some((v, j)) => if j <= i {
                None
            } else if j == bytes.len() {
                Some(seq![v])
            } else if j < bytes.len() {
                match parse_groups(bytes, j + 1) {
                    Some(rest) => Some(seq![v] + rest),
                    None => None,
                }
            } else {
                None
            },
            None => None,
        }
    }
}

/// Parse a whole MAC address text: at most six groups, missing trailing
/// octets zero.
pub open spec fn spec_parse_hwaddr(bytes: Seq<u8>) -> Option<Seq<u8>> {
    match parse_groups(bytes, 0) {
        Some(groups) => if groups.len() <= 6 {
            Some(groups + Seq::new((6 - groups.len()) as nat, |k: int| 0u8))
        } else {
            None
        },
        None => None,
    }
}

/// The value of one hexadecimal digit byte, executable form.
fn hex_digit(b: u8) -> (r: Option<u8>)
    ensures
        r == hex_digit_value(b),
        r matches Some(d) ==> d <= 15,
{
    if 0x30 <= b && b <= 0x39 {
        Some(b - 0x30)
    } else if 0x41 <= b && b <= 0x46 {
        Some(b - 0x41 + 10)
    } else if 0x61 <= b && b <= 0x66 {
        Some(b - 0x61 + 10)
    } else {
        None
    }
}

/// Executable mirror of [`parse_group`].
fn parse_group_x(bytes: &[u8], i: usize, acc: u8) -> (r: Option<(u8, usize)>)
    requires
        i <= bytes@.len(),
    ensures
        match r {
            Some((v, j)) => parse_group(bytes@, i as int, acc) == Some((v, j as int)) && i <= j
                <= bytes@.len(),
            None => parse_group(bytes@, i as int, acc) is None,
        },
    decreases bytes@.len() - i,
{
    if i == bytes.len() {
        return Some((acc, i));
    }
    let b = *slice_index_get(bytes, i);
    if b == 0x3a || b == 0x2d {
        return Some((acc, i));
    }
    let d = match hex_digit(b) {
        Some(d) => d,
        None => {
            return None;
        },
    };
    if acc > 15 {
        return None;
    }
    parse_group_x(bytes, i + 1, acc * 16 + d)
}

/// Executable mirror of [`parse_groups`].
fn parse_groups_x(bytes: &[u8], i: usize) -> (r: Option<Vec<u8>>)
    requires
        i <= bytes@.len(),
    ensures
        match r {
            Some(v) => parse_groups(bytes@, i as int) == Some(v@),
            None => parse_groups(bytes@, i as int) is None,
        },
    decreases bytes@.len() - i,
{
    match parse_group_x(bytes, i, 0) {
        Some((v, j)) => {
            if j == i {
                None
            } else if j == bytes.len() {
                let mut out: Vec<u8> = Vec::new();
                out.push(v);
                proof {
                    assert(out@ =~= seq![v]);
                }
                Some(out)
            } else {
                match parse_groups_x(bytes, j + 1) {
                    Some(rest) => {
                        let mut out: Vec<u8> = Vec::new();
                        out.push(v);
                        let mut rest = rest;
                        out.append(&mut rest);
                        proof {
                            assert(out@ =~= seq![v] + parse_groups(bytes@, j + 1)->Some_0);
                        }
                        Some(out)
                    },
                    None => None,
                }
            }
        },
        None => None,
    }
}

impl HwAddr {
    /// The octets composing the MAC address.
    pub fn octets(&self) -> (r: [u8; 6])
        ensures
            r@ == self@,
    {
        self.value
    }

    /// Whether the address is the broadcast address, all octets `0xFF`.
    pub fn is_broadcast(&self) -> (r: bool)
        ensures
            r <==> self@ =~= seq![0xffu8, 0xffu8, 0xffu8, 0xffu8, 0xffu8, 0xffu8],
    {
        let v = &self.value;
        let r = *array_index_get(v, 0) == 0xff && *array_index_get(v, 1) == 0xff
            && *array_index_get(v, 2) == 0xff && *array_index_get(v, 3) == 0xff
            && *array_index_get(v, 4) == 0xff && *array_index_get(v, 5) == 0xff;
        proof {
            assert(self@.len() == 6);
        }
        r
    }

    /// A MAC address from its six octets.
    pub fn from_octets(value: [u8; 6]) -> (r: HwAddr)
        ensures
            r@ == value@,
    {
        HwAddr { value }
    }

    /// A MAC address from the first six bytes of a slice.
    pub fn from_bytes(b: &[u8]) -> (r: HwAddr)
        requires
            b@.len() >= 6,
        ensures
            r@ == b@.subrange(0, 6),
    {
        let value: [u8; 6] = [
            *slice_index_get(b, 0),
            *slice_index_get(b, 1),
            *slice_index_get(b, 2),
            *slice_index_get(b, 3),
            *slice_index_get(b, 4),
            *slice_index_get(b, 5),
        ];
        let r = HwAddr { value };
        proof {
            assert(r@ =~= b@.subrange(0, 6));
        }
        r
    }

    /// A MAC address from an integer: its four little-endian bytes into the
    /// first four octets, the last two zero.
    pub fn from_u32(value: u32) -> (r: HwAddr)
        ensures
            r@ == spec_from_u32(value),
    {
        let b0 = (value & 0xff) as u8;
        let b1 = ((value >> 8) & 0xff) as u8;
        let b2 = ((value >> 16) & 0xff) as u8;
        let b3 = ((value >> 24) & 0xff) as u8;
        let r = HwAddr { value: [b0, b1, b2, b3, 0u8, 0u8] };
        proof {
            assert(r@ =~= spec_from_u32(value));
        }
        r
    }

    /// Parse a MAC address text such as `"FF:FF:FF:FF:FF:FF"` or
    /// `"FF-FF-FF-FF-FF-FF"`.
    pub fn parse_text(s: &str) -> (r: Result<HwAddr, HwAddrParseError>)
        ensures
            match r {
                Ok(a) => spec_parse_hwaddr(s.spec_bytes()) == Some(a@),
                Err(_) => spec_parse_hwaddr(s.spec_bytes()) is None,
            },
    {
        let bytes: &[u8] = s.as_bytes();
        let groups = match parse_groups_x(bytes, 0) {
            Some(g) => g,
            None => {
                return Err(HwAddrParseError);
            },
        };
        if groups.len() > 6 {
            return Err(HwAddrParseError);
        }
        let mut full = groups;
        while full.len() < 6
            invariant
                full@.len() <= 6,
                full@ == parse_groups(bytes@, 0)->Some_0 + Seq::new(
                    (full@.len() - parse_groups(bytes@, 0)->Some_0.len()) as nat,
                    |k: int| 0u8,
                ),
                parse_groups(bytes@, 0) matches Some(g) && g.len() <= full@.len(),
            decreases 6 - full@.len(),
        {
            full.push(0);
            proof {
                let g = parse_groups(bytes@, 0)->Some_0;
                assert(full@ =~= g + Seq::new((full@.len() - g.len()) as nat, |k: int| 0u8));
            }
        }
        let value: [u8; 6] = [full[0], full[1], full[2], full[3], full[4], full[5]];
        let r = HwAddr { value };
        proof {
            assert(r@ =~= spec_parse_hwaddr(s.spec_bytes())->Some_0);
        }
        Ok(r)
    }

    /// The text form, six upper-case hexadecimal octets separated by `:`.
    pub fn to_text(&self) -> (r: String)
        ensures
            r@ == spec_hwaddr_text(self@),
    {
        let mut s = String::new();
        let mut k: usize = 0;
        while k < 6
            invariant
                k <= 6,
                s@ == hwaddr_text_upto(self@, k as int),
            decreases 6 - k,
        {
            proof {
                reveal_strlit(":");
            }
            if k > 0 {
                s.append(":");
            }
            let x = *array_index_get(&self.value, k);
            s.append(hex_char_str(x / 16));
            s.append(hex_char_str(x % 16));
            proof {
                assert(s@ =~= hwaddr_text_upto(self@, k as int + 1));
            }
            k = k + 1;
        }
        s
    }
}

/// The octets of a MAC address built from an integer: its four
/// little-endian bytes, then two zero octets.
pub open spec fn spec_from_u32(value: u32) -> Seq<u8> {
    seq![
        (value & 0xff) as u8,
        ((value >> 8) & 0xff) as u8,
        ((value >> 16) & 0xff) as u8,
        ((value >> 24) & 0xff) as u8,
        0u8,
        0u8,
    ]
}

/// The character of one hexadecimal digit, upper case.
pub open spec fn hex_char(d: u8) -> char
    recommends
        d < 16,
{
    if d < 10 {
        ((0x30 + d) as u8) as char
    } else {
        ((0x41 + d - 10) as u8) as char
    }
}

/// The two characters of one octet.
pub open spec fn octet_chars(x: u8) -> Seq<char> {
    seq![hex_char(x / 16), hex_char(x % 16)]
}

/// The text of the first `k` octets, `:`-separated.
pub open spec fn hwaddr_text_upto(b: Seq<u8>, k: int) -> Seq<char>
    decreases k,
{
    if k <= 0 {
        Seq::empty()
    } else if k == 1 {
        octet_chars(b[0])
    } else {
        hwaddr_text_upto(b, k - 1) + seq![':'] + octet_chars(b[k - 1])
    }
}

/// The full text of a MAC address.
pub open spec fn spec_hwaddr_text(b: Seq<u8>) -> Seq<char> {
    hwaddr_text_upto(b, 6)
}

/// The one-character text of one hexadecimal digit, upper case.
fn hex_char_str(d: u8) -> (r: &'static str)
    requires
        d < 16,
    ensures
        r@ == seq![hex_char(d)],
{
    proof {
        reveal_strlit("0");
        reveal_strlit("1");
        reveal_strlit("2");
        reveal_strlit("3");
        reveal_strlit("4");
        reveal_strlit("5");
        reveal_strlit("6");
        reveal_strlit("7");
        reveal_strlit("8");
        reveal_strlit("9");
        reveal_strlit("A");
        reveal_strlit("B");
        reveal_strlit("C");
        reveal_strlit("D");
        reveal_strlit("E");
        reveal_strlit("F");
    }
    match d {
        0 => "0",
        1 => "1",
        2 => "2",
        3 => "3",
        4 => "4",
        5 => "5",
        6 => "6",
        7 => "7",
        8 => "8",
        9 => "9",
        10 => "A",
        11 => "B",
        12 => "C",
        13 => "D",
        14 => "E",
        _ => "F",
    }
}

impl core::str::FromStr for HwAddr {
    type Err = HwAddrParseError;

    fn from_str(value: &str) -> Result<Self, Self::Err> {
        HwAddr::parse_text(value)
    }
}

} // verus!
