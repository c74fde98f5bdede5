//! Plain-value model of the XML-derived source schema, and the verified
//! parsers for its numeric and bit-range literals.
//!
//! The thin layer around the library deserializes the XML document into
//! copies of these types and converts; a malformed literal is a fatal
//! parse error.

use crate::mmio::permissions::Permissions;
use crate::mmio::report::FatalError;
use crate::text::{digit_at, digits_val, is_ascii_digit_char, parse_u64, spec_parse_u64};
use vstd::prelude::*;

verus! {

/// A whole source document.
#[derive(Debug)]
pub struct Device {
    pub vendor: String,
    pub name: String,
    pub version: String,
    pub description: String,
    pub license_text: String,
    pub cpu: Cpu,
    pub address_unit_bits: u32,
    pub width: u32,
    pub peripherals: Peripherals,
}

/// The processor description of a source document.
#[derive(Debug)]
pub struct Cpu {
    pub name: String,
    pub revision: String,
    pub endian: String,
    pub mpu_present: bool,
    pub fpu_present: bool,
    pub vtor_present: bool,
    pub nvic_prio_bits: u32,
    pub vendor_systick_config: bool,
    pub device_num_interrupts: u32,
}

/// The peripheral list of a source document.
#[derive(Debug)]
pub struct Peripherals {
    pub peripheral: Vec<Peripheral>,
}

/// One peripheral declaration.
#[derive(Debug)]
pub struct Peripheral {
    pub name: String,
    pub version: Option<String>,
    pub description: Option<String>,
    pub base_address: u64,
    pub size: u64,
    pub address_block: Option<AddressBlock>,
    pub interrupt: Vec<Interrupt>,
    pub registers: Option<Registers>,
    pub derived_from: Option<String>,
}

/// An address block: also reused to carry a parsed bit range, whose
/// `offset` is the range's low bit and whose `size` is its width.
#[derive(Debug)]
pub struct AddressBlock {
    pub offset: u64,
    pub size: u64,
    pub usage: String,
}

/// One interrupt declaration.
#[derive(Debug)]
pub struct Interrupt {
    pub name: String,
    pub value: u32,
}

/// The register list of a peripheral.
#[derive(Debug)]
pub struct Registers {
    pub register: Vec<Register>,
}

/// One register declaration.
#[derive(Debug)]
pub struct Register {
    pub name: String,
    pub description: String,
    pub address_offset: u64,
    pub reset_value: u64,
    pub fields: Fields,
}

/// The field list of a register.
#[derive(Debug)]
pub struct Fields {
    pub field: Vec<Field>,
}

/// One bitfield declaration.
#[derive(Debug)]
pub struct Field {
    pub name: String,
    pub description: String,
    pub bit_range: AddressBlock,
    pub access: Permissions,
}

/// `s` with every leading `0x` pair removed, as
/// `trim_start_matches("0x")` leaves it.
pub open spec fn spec_trim_0x(s: Seq<char>) -> Seq<char>
    decreases s.len(),
{
    if s.len() >= 2 && s[0] == '0' && s[1] == 'x' {
        spec_trim_0x(s.skip(2))
    } else {
        s
    }
}

/// What parsing a numeric literal returns: hexadecimal after an `0x`
/// prefix (with every repetition of the prefix removed first), else
/// decimal.
pub open spec fn spec_numeric_value(s: Seq<char>) -> Option<u64> {
    if s.len() >= 2 && s[0] == '0' && s[1] == 'x' {
        spec_parse_u64(spec_trim_0x(s), true)
    } else {
        spec_parse_u64(s, false)
    }
}

/// Parses a numeric literal of the source document; a literal that is
/// neither a decimal number nor an `0x`-prefixed hexadecimal number is
/// a fatal parse error naming the literal.
pub fn from_hex_string(s: &str) -> (r: Result<u64, FatalError>)
    ensures
        match spec_numeric_value(s@) {
            Some(v) => r == Ok::<u64, FatalError>(v),
            None => r matches Err(FatalError::MalformedNumber(t)) && t@ == s@,
        },
{
    let n = s.unicode_len();
    let hex = n >= 2 && s.get_char(0) == '0' && s.get_char(1) == 'x';
    let parsed: Option<u64>;
    if hex {
        let mut pos: usize = 0;
        proof {
            assert(s@.skip(0) =~= s@);
        }
        while n - pos > 1 && s.get_char(pos) == '0' && s.get_char(pos + 1) == 'x'
            invariant
                n == s@.len(),
                pos <= n,
                spec_trim_0x(s@) == spec_trim_0x(s@.skip(pos as int)),
            decreases n - pos,
        {
            proof {
                assert(s@.skip(pos as int)[0] == s@[pos as int]);
                assert(s@.skip(pos as int)[1] == s@[pos + 1]);
                assert(s@.skip(pos as int).skip(2) =~= s@.skip(pos + 2));
            }
            pos += 2;
        }
        proof {
            assert(spec_trim_0x(s@.skip(pos as int)) == s@.skip(pos as int));
        }
        let tail = s.substring_char(pos, n);
        proof {
            assert(tail@ =~= s@.skip(pos as int));
        }
        parsed = parse_u64(tail, true);
    } else {
        parsed = parse_u64(s, false);
    }
    match parsed {
        Some(v) => Ok(v),
        None => Err(FatalError::MalformedNumber(s.to_owned())),
    }
}

/// The end of the maximal ASCII digit run starting at `i`.
pub open spec fn spec_run_end(s: Seq<char>, i: int) -> int
    decreases s.len() - i,
{
    if 0 <= i < s.len() && is_ascii_digit_char(s[i]) {
        spec_run_end(s, i + 1)
    } else {
        i
    }
}

/// A digit run reaches from its start to its end, which lies on the
/// first non-digit or at the end of the string.
proof fn lemma_run_end(s: Seq<char>, start: int)
    requires
        0 <= start <= s.len(),
    ensures
        start <= spec_run_end(s, start) <= s.len(),
        forall|t: int| start <= t < spec_run_end(s, start) ==> is_ascii_digit_char(s[t]),
        spec_run_end(s, start) == s.len() || !is_ascii_digit_char(s[spec_run_end(s, start)]),
    decreases s.len() - start,
{
    if start < s.len() && is_ascii_digit_char(s[start]) {
        lemma_run_end(s, start + 1);
    }
}

/// Whether the bit-range pattern `[msb:lsb]` matches at position `i`:
/// an opening bracket, one or more digits, a colon, one or more digits,
/// and a closing bracket, with both digit runs maximal.
pub open spec fn spec_bitrange_at(s: Seq<char>, i: int) -> bool {
    let j = spec_run_end(s, i + 1);
    let k = spec_run_end(s, j + 1);
    &&& 0 <= i < s.len()
    &&& s[i] == '['
    &&& j > i + 1
    &&& j < s.len()
    &&& s[j] == ':'
    &&& k > j + 1
    &&& k < s.len()
    &&& s[k] == ']'
}

/// The end of the maximal ASCII digit run starting at `start`.
fn run_end(s: &str, start: usize) -> (r: usize)
    requires
        start <= s@.len(),
    ensures
        r == spec_run_end(s@, start as int),
        start <= r,
        r <= s@.len(),
{
    let n = s.unicode_len();
    let mut i = start;
    while i < n && digit_at(s, i)
        invariant
            start <= i <= n,
            n == s@.len(),
            spec_run_end(s@, start as int) == spec_run_end(s@, i as int),
        decreases n - i,
    {
        i += 1;
    }
    i
}

/// Parses the first bit-range literal `[msb:lsb]` found in `s` into an
/// [`AddressBlock`] whose `offset` is the low bit and whose `size` is
/// `msb - lsb + 1`. A string without a well-formed range in it — no
/// match, a number too large, or a high bit below the low bit — is a
/// fatal parse error naming the literal.
pub fn from_bitrange(s: &str) -> (r: Result<AddressBlock, FatalError>)
    ensures
        (forall|i: int| !spec_bitrange_at(s@, i)) ==> (r matches Err(FatalError::MalformedBitRange(
            t,
        )) && t@ == s@),
        forall|i: int|
            spec_bitrange_at(s@, i) && (forall|i2: int| 0 <= i2 < i ==> !spec_bitrange_at(s@, i2))
                ==> ({
                let j = spec_run_end(s@, i + 1);
                let k = spec_run_end(s@, j + 1);
                let upper = digits_val(s@.subrange(i + 1, j), false);
                let lower = digits_val(s@.subrange(j + 1, k), false);
                if upper <= u64::MAX && lower <= u64::MAX && lower <= upper && upper - lower
                    < u64::MAX {
                    r matches Ok(ab) && ab.offset == lower && ab.size == upper - lower + 1
                        && ab.usage@ == "bitfield"@
                } else {
                    r matches Err(FatalError::MalformedBitRange(t)) && t@ == s@
                }
            }),
{
    let n = s.unicode_len();
    let mut i: usize = 0;
    while i < n
        invariant
            i <= n,
            n == s@.len(),
            forall|i2: int| 0 <= i2 < i ==> !spec_bitrange_at(s@, i2),
        decreases n - i,
    {
        if s.get_char(i) == '[' {
            let j = run_end(s, i + 1);
            if j > i + 1 && j < n && s.get_char(j) == ':' {
                let k = run_end(s, j + 1);
                if k > j + 1 && k < n && s.get_char(k) == ']' {
                    proof {
                        assert(spec_bitrange_at(s@, i as int));
                        lemma_run_end(s@, i + 1);
                        lemma_run_end(s@, j + 1);
                    }
                    let upper_s = s.substring_char(i + 1, j);
                    let lower_s = s.substring_char(j + 1, k);
                    proof {
                        assert(upper_s@ =~= s@.subrange(i + 1, j as int));
                        assert(lower_s@ =~= s@.subrange(j + 1, k as int));
                        assert(forall|t: int|
                            0 <= t < upper_s@.len() ==> is_ascii_digit_char(#[trigger] upper_s@[t]));
                        assert(forall|t: int|
                            0 <= t < lower_s@.len() ==> is_ascii_digit_char(#[trigger] lower_s@[t]));
                        assert(upper_s@[0] != '+');
                        assert(lower_s@[0] != '+');
                    }
                    let up = parse_u64(upper_s, false);
                    let lo = parse_u64(lower_s, false);
                    match (up, lo) {
                        (Some(u), Some(l)) => {
                            if l <= u && u - l < u64::MAX {
                                return Ok(
                                    AddressBlock {
                                        offset: l,
                                        size: u - l + 1,
                                        usage: String::from_str("bitfield"),
                                    },
                                );
                            } else {
                                return Err(FatalError::MalformedBitRange(s.to_owned()));
                            }
                        },
                        _ => {
                            return Err(FatalError::MalformedBitRange(s.to_owned()));
                        },
                    }
                }
            }
        }
        i += 1;
    }
    proof {
        assert(forall|i2: int| !spec_bitrange_at(s@, i2));
    }
    Err(FatalError::MalformedBitRange(s.to_owned()))
}

} // verus!
