//! Command-line value parsing and validation for the inspection tool:
//! hex addresses, address ranges, chip-select states, and the checks the
//! argument set must pass.  Reading the process arguments and the
//! filesystem stays with the caller.

use crate::strutil::lower_of;
use crate::strutil::lowercase;
use crate::strutil::str_eq;
use crate::types::ServeAlg;
use crate::types::StmVariant;
use vstd::prelude::*;
use vstd::string::StrSliceExecFns;
use vstd::string::StringExecFns;

verus! {

/// The value of one hexadecimal digit character, if it is one.
pub open spec fn hex_digit(c: char) -> Option<int> {
    let u = c as int;
    if 48 <= u <= 57 {
        Some(u - 48)
    } else if 97 <= u <= 102 {
        Some(u - 87)
    } else if 65 <= u <= 70 {
        Some(u - 55)
    } else {
        None
    }
}

/// Every character is a hexadecimal digit, and there is at least one.
pub open spec fn all_hex(t: Seq<char>) -> bool {
    t.len() > 0 && forall|i: int| 0 <= i < t.len() ==> (#[trigger] hex_digit(t[i])) is Some
}

/// The value of a string of hexadecimal digits, most significant first.
pub open spec fn hex_value(t: Seq<char>) -> int
    decreases t.len(),
{
    if t.len() == 0 {
        0
    } else {
        hex_value(t.drop_last()) * 16 + match hex_digit(t.last()) {
            Some(d) => d,
            None => 0,
        }
    }
}

/// A hex string with its `0x`, `0X` or `$` prefix removed.
pub open spec fn strip_hex_prefix(s: Seq<char>) -> Seq<char> {
    if s.len() >= 2 && s[0] == '0' && (s[1] == 'x' || s[1] == 'X') {
        s.skip(2)
    } else if s.len() >= 1 && s[0] == '$' {
        s.skip(1)
    } else {
        s
    }
}

/// A digit string with a single leading plus sign removed.
pub open spec fn strip_plus(t: Seq<char>) -> Seq<char> {
    if t.len() >= 1 && t[0] == '+' {
        t.skip(1)
    } else {
        t
    }
}

/// The digits a hex argument boils down to.
pub open spec fn hex_digits_of(s: Seq<char>) -> Seq<char> {
    strip_plus(strip_hex_prefix(s))
}

/// The value of one hexadecimal digit character, if it is one.
fn hex_digit_exec(c: char) -> (r: Option<u32>)
    ensures
        (r is Some) == (hex_digit(c) is Some),
        r matches Some(d) ==> hex_digit(c) == Some(d as int) && d < 16,
{
    let u = c as u32;
    if 48 <= u && u <= 57 {
        Some(u - 48)
    } else if 97 <= u && u <= 102 {
        Some(u - 87)
    } else if 65 <= u && u <= 70 {
        Some(u - 55)
    } else {
        None
    }
}

/// Parses a hex address such as `0x1000` or `$1000`: the optional prefix
/// and an optional plus sign are stripped, and the digits must be
/// hexadecimal with a value that fits 32 bits.
pub fn parse_hex(s: &str) -> (r: Result<u32, String>)
    ensures
        r is Ok <==> (all_hex(hex_digits_of(s@)) && hex_value(hex_digits_of(s@)) <= u32::MAX),
        r matches Ok(v) ==> v == hex_value(hex_digits_of(s@)),
{
    let n = s.unicode_len();
    let start0: usize = if n >= 2 && s.get_char(0) == '0' && (s.get_char(1) == 'x' || s.get_char(1)
        == 'X') {
        2
    } else if n >= 1 && s.get_char(0) == '$' {
        1
    } else {
        0
    };
    let start: usize = if n > start0 && s.get_char(start0) == '+' {
        start0 + 1
    } else {
        start0
    };
    let ghost digits = hex_digits_of(s@);
    proof {
        assert(digits =~= s@.subrange(start as int, n as int));
    }
    if start >= n {
        return Err(hex_error(s));
    }
    let mut acc: u32 = 0;
    let mut ovf = false;
    let mut i: usize = start;
    while i < n
        invariant
            start <= i <= n,
            n == s@.len(),
            digits == s@.subrange(start as int, n as int),
            digits == hex_digits_of(s@),
            forall|k: int| start <= k < i ==> (#[trigger] hex_digit(s@[k])) is Some,
            !ovf ==> acc == hex_value(s@.subrange(start as int, i as int)) && acc <= u32::MAX,
            ovf ==> hex_value(s@.subrange(start as int, i as int)) > u32::MAX,
        decreases n - i,
    {
        let c = s.get_char(i);
        let d = match hex_digit_exec(c) {
            Some(d) => d,
            None => {
                proof {
                    assert(digits[i - start] == s@[i as int]);
                    assert(hex_digit(digits[i - start]) is None);
                    assert(!all_hex(digits));
                }
                return Err(hex_error(s));
            },
        };
        let ghost prefix = s@.subrange(start as int, i as int);
        let ghost prefix1 = s@.subrange(start as int, i as int + 1);
        proof {
            assert(prefix1.drop_last() =~= prefix);
            assert(prefix1.last() == s@[i as int]);
        }
        if !ovf {
            let v64: u64 = (acc as u64) * 16 + (d as u64);
            if v64 > 0xFFFFFFFF {
                ovf = true;
            } else {
                acc = v64 as u32;
            }
        } else {
            proof {
                assert(hex_value(prefix) * 16 + hex_digit(s@[i as int])->0 > u32::MAX);
            }
        }
        i = i + 1;
    }
    proof {
        assert(s@.subrange(start as int, n as int) == digits);
    }
    if ovf {
        return Err(hex_error(s));
    }
    Ok(acc)
}

/// The error a bad hex argument produces.
fn hex_error(s: &str) -> (r: String)
    ensures
        r@ == "Invalid hex value: "@ + s@,
{
    let mut msg = String::from_str("Invalid hex value: ");
    msg.append(s);
    msg
}

/// Parses a chip-select line state: `0` or `1`.
pub fn parse_cs_line(s: &str) -> (r: Result<u8, String>)
    ensures
        s@ == "0"@ ==> r == Ok::<u8, String>(0u8),
        s@ == "1"@ ==> r == Ok::<u8, String>(1u8),
        s@ != "0"@ && s@ != "1"@ ==> r is Err,
{
    proof {
        reveal_strlit("0");
        reveal_strlit("1");
    }
    if str_eq(s, "0") {
        proof {
            assert(s@ == "0"@);
            assert(s@ != "1"@) by {
                assert("0"@[0] == '0' && "1"@[0] == '1');
                assert('0' as u32 != '1' as u32);
            }
        }
        Ok(0)
    } else if str_eq(s, "1") {
        Ok(1)
    } else {
        Err(String::from_str("CS line state must be 0 or 1"))
    }
}

/// Parses an address range such as `1000-1FFF`: exactly one dash, a hex
/// value on each side, and a start no greater than the end.
pub fn parse_range(s: &str) -> (r: Result<(u32, u32), String>)
    ensures
        r matches Ok(v) ==> v.0 <= v.1 && (exists|d: int|
            {
                &&& 0 <= d < s@.len()
                &&& #[trigger] s@[d] == '-'
                &&& all_hex(hex_digits_of(s@.subrange(0, d)))
                &&& all_hex(hex_digits_of(s@.subrange(d + 1, s@.len() as int)))
                &&& v.0 == hex_value(hex_digits_of(s@.subrange(0, d)))
                &&& v.1 == hex_value(hex_digits_of(s@.subrange(d + 1, s@.len() as int)))
            }),
{
    let n = s.unicode_len();
    let mut dash: Option<usize> = None;
    let mut i: usize = 0;
    while i < n
        invariant
            i <= n,
            n == s@.len(),
            dash matches Some(d) ==> d < i && s@[d as int] == '-',
        decreases n - i,
    {
        if s.get_char(i) == '-' {
            if dash.is_some() {
                return Err(
                    String::from_str("Range format must be: start-end (e.g., 1000-1FFF)"),
                );
            }
            dash = Some(i);
        }
        i = i + 1;
    }
    let d = match dash {
        Some(d) => d,
        None => {
            return Err(String::from_str("Range format must be: start-end (e.g., 1000-1FFF)"));
        },
    };
    let left = s.substring_char(0, d);
    let right = s.substring_char(d + 1, n);
    let start = match parse_hex(left) {
        Ok(v) => v,
        Err(e) => {
            return Err(e);
        },
    };
    let end = match parse_hex(right) {
        Ok(v) => v,
        Err(e) => {
            return Err(e);
        },
    };
    if start > end {
        return Err(String::from_str("Range start must be less than or equal to end"));
    }
    proof {
        assert(left@ == s@.subrange(0, d as int));
        assert(right@ == s@.subrange(d as int + 1, n as int));
        assert(s@[d as int] == '-' && start == hex_value(hex_digits_of(s@.subrange(0, d as int)))
            && end == hex_value(hex_digits_of(s@.subrange(d as int + 1, s@.len() as int))));
    }
    Ok((start, end))
}

/// Parses a microcontroller variant name; the error lists the accepted
/// names.
pub fn parse_stm_variant(s: &str) -> (r: Result<StmVariant, String>)
    ensures
        r is Ok <==> StmVariant::spec_from_str(lower_of(s@)) is Some,
        r matches Ok(v) ==> Some(v) == StmVariant::spec_from_str(lower_of(s@)),
{
    match StmVariant::try_from_str(s) {
        Some(v) => Ok(v),
        None => {
            let mut msg = String::from_str("Invalid STM32 variant: ");
            msg.append(s);
            msg.append(
                ". Valid values are: f446rc, f446re, f411rc, f411re, f405rg, f401re, f401rb, f401rc",
            );
            Err(msg)
        },
    }
}

/// Parses a serving-algorithm name; the error lists the accepted names.
pub fn parse_serve_alg(s: &str) -> (r: Result<ServeAlg, String>)
    ensures
        r is Ok <==> ServeAlg::spec_from_str(lower_of(s@)) is Some,
        r matches Ok(v) ==> Some(v) == ServeAlg::spec_from_str(lower_of(s@)),
{
    match ServeAlg::try_from_str(s) {
        Some(v) => Ok(v),
        None => {
            let mut msg = String::from_str("Invalid serve algorithm: ");
            msg.append(s);
            msg.append(". Valid values are: default, a (2 CS 1 Addr), b (Addr on CS)");
            Err(msg)
        },
    }
}

/// Which inspection operation to run.
#[derive(Debug, Clone, Copy, PartialEq, Eq, Structural)]
pub enum Command {
    Info,
    LookupRaw,
    Lookup,
}

/// The validated argument set of the inspection tool.
#[derive(Debug, Clone)]
pub struct Args {
    pub command: Command,
    pub firmware: String,
    pub set: Option<u8>,
    pub addr: Option<u32>,
    pub range: Option<(u32, u32)>,
    pub cs1: Option<bool>,
    pub cs2: Option<bool>,
    pub cs3: Option<bool>,
    pub x1: Option<bool>,
    pub x2: Option<bool>,
    pub output_mangled: Option<bool>,
    pub output_binary: Option<bool>,
}

/// The firmware name ends in `.bin` or `.elf`, ignoring case: the
/// extension is what follows the last dot.
pub open spec fn spec_extension_ok(name: Seq<char>) -> bool {
    exists|i: int|
        0 <= i < name.len() && #[trigger] name[i] == '.' && (forall|j: int|
            i < j < name.len() ==> name[j] != '.') && (lower_of(name.subrange(i + 1, name.len() as int))
            == "bin"@ || lower_of(name.subrange(i + 1, name.len() as int)) == "elf"@)
}

/// Checks the firmware name's extension.
fn extension_ok(firmware: &str) -> (r: bool)
    ensures
        r == spec_extension_ok(firmware@),
{
    let n = firmware.unicode_len();
    let mut last_dot: Option<usize> = None;
    let mut i: usize = 0;
    while i < n
        invariant
            i <= n,
            n == firmware@.len(),
            last_dot matches Some(d) ==> d < i && firmware@[d as int] == '.' && (forall|j: int|
                d < j < i ==> firmware@[j] != '.'),
            last_dot is None ==> forall|j: int| 0 <= j < i ==> firmware@[j] != '.',
        decreases n - i,
    {
        if firmware.get_char(i) == '.' {
            last_dot = Some(i);
        }
        i = i + 1;
    }
    match last_dot {
        Some(d) => {
            let ext = firmware.substring_char(d + 1, n);
            let low = lowercase(ext);
            let ok = str_eq(low.as_str(), "bin") || str_eq(low.as_str(), "elf");
            proof {
                if ok {
                    assert(spec_extension_ok(firmware@));
                } else {
                    if spec_extension_ok(firmware@) {
                        let i2 = choose|i2: int|
                            0 <= i2 < firmware@.len() && #[trigger] firmware@[i2] == '.' && (forall|
                                j: int,
                            |
                                i2 < j < firmware@.len() ==> firmware@[j] != '.') && (lower_of(
                                firmware@.subrange(i2 + 1, firmware@.len() as int),
                            ) == "bin"@ || lower_of(
                                firmware@.subrange(i2 + 1, firmware@.len() as int),
                            ) == "elf"@);
                        assert(i2 == d);
                    }
                }
            }
            ok
        },
        None => {
            proof {
                if spec_extension_ok(firmware@) {
                    let i2 = choose|i2: int|
                        0 <= i2 < firmware@.len() && #[trigger] firmware@[i2] == '.';
                }
            }
            false
        },
    }
}

/// Validates and assembles the inspection tool's arguments: the lookup
/// operation needs exactly one of a single address or a range, the
/// firmware name must end in `.bin` or `.elf`, and addresses must fit the
/// sixteen-bit physical space.  Whether the file exists is the caller's
/// concern.
pub fn parse_args(
    command: Command,
    firmware: String,
    set: u8,
    addr: Option<u32>,
    range: Option<(u32, u32)>,
    cs1: u8,
    cs2: Option<u8>,
    cs3: Option<u8>,
    x1: Option<u8>,
    x2: Option<u8>,
    output_mangled: bool,
    output_binary: bool,
) -> (r: Result<Args, String>)
    ensures
        r is Ok ==> spec_extension_ok(firmware@),
        r matches Ok(a) ==> a.command == command && a.firmware == firmware,
        command == Command::Lookup && addr is Some && range is Some ==> r is Err,
        command == Command::Lookup && addr is None && range is None ==> r is Err,
        r matches Ok(a) ==> (a.addr matches Some(v) ==> v <= 0xFFFF),
        r matches Ok(a) ==> (a.range matches Some(p) ==> p.0 <= 0xFFFF && p.1 <= 0xFFFF),
{
    let (vset, vaddr, vrange, vcs1, vcs2, vcs3, vx1, vx2, vmangled, vbinary): (
        Option<u8>,
        Option<u32>,
        Option<(u32, u32)>,
        Option<bool>,
        Option<bool>,
        Option<bool>,
        Option<bool>,
        Option<bool>,
        Option<bool>,
        Option<bool>,
    ) = match command {
        Command::Info => (None, None, None, None, None, None, None, None, None, None),
        Command::LookupRaw => (
            Some(set),
            addr,
            None,
            None,
            None,
            None,
            None,
            None,
            Some(output_mangled),
            None,
        ),
        Command::Lookup => {
            if addr.is_some() && range.is_some() {
                return Err(String::from_str("Cannot specify both --addr and --range"));
            }
            if addr.is_none() && range.is_none() {
                return Err(String::from_str("Must specify either --addr or --range"));
            }
            (
                Some(set),
                addr,
                range,
                Some(cs1 != 0),
                match cs2 {
                    Some(v) => Some(v != 0),
                    None => None,
                },
                match cs3 {
                    Some(v) => Some(v != 0),
                    None => None,
                },
                match x1 {
                    Some(v) => Some(v != 0),
                    None => None,
                },
                match x2 {
                    Some(v) => Some(v != 0),
                    None => None,
                },
                Some(output_mangled),
                Some(output_binary),
            )
        },
    };
    if !extension_ok(firmware.as_str()) {
        return Err(String::from_str("Firmware file must have .bin or .elf extension"));
    }
    if let Some(a) = vaddr {
        if a > 0xFFFF {
            return Err(String::from_str("Address must be in the range 0x0000 to 0xFFFF"));
        }
    }
    if let Some((lo, hi)) = vrange {
        if lo > 0xFFFF || hi > 0xFFFF {
            return Err(String::from_str("Range must be in the range 0x0000 to 0xFFFF"));
        }
    }
    Ok(
        Args {
            command,
            firmware,
            set: vset,
            addr: vaddr,
            range: vrange,
            cs1: vcs1,
            cs2: vcs2,
            cs3: vcs3,
            x1: vx1,
            x2: vx2,
            output_mangled: vmangled,
            output_binary: vbinary,
        },
    )
}

} // verus!
