//! The firmware decoder: walks a flat byte buffer holding a device's memory
//! image, resolves the pointers inside it, and builds the typed model.
//!
//! Every multi-byte field is little-endian, read through bounds-checked
//! slice access at the fixed offsets of its record.  Failures in the header
//! are fatal; failures past it are recorded per field and decoding goes on.

use crate::firmware::SdrrPins;
use crate::firmware::SdrrStmPort;
use vstd::bytes::spec_u16_from_le_bytes;
use vstd::bytes::spec_u32_from_le_bytes;
use vstd::bytes::u16_from_le_bytes;
use vstd::bytes::u32_from_le_bytes;
use vstd::prelude::*;
use vstd::slice::slice_subrange;
use vstd::slice::slice_to_vec;
use vstd::utf8::decode_utf8;
use vstd::utf8::valid_utf8;

verus! {

/// The 16-bit little-endian value at a byte offset.
pub open spec fn le16_at(d: Seq<u8>, off: int) -> u16 {
    spec_u16_from_le_bytes(d.subrange(off, off + 2))
}

/// The 32-bit little-endian value at a byte offset.
pub open spec fn le32_at(d: Seq<u8>, off: int) -> u32 {
    spec_u32_from_le_bytes(d.subrange(off, off + 4))
}

/// Reads the 16-bit little-endian value at a byte offset.
pub fn read_u16_le(d: &[u8], off: usize) -> (r: u16)
    requires
        off + 2 <= d@.len(),
    ensures
        r == le16_at(d@, off as int),
{
    let _n = d.len();
    u16_from_le_bytes(slice_subrange(d, off, off + 2))
}

/// Reads the 32-bit little-endian value at a byte offset.
pub fn read_u32_le(d: &[u8], off: usize) -> (r: u32)
    requires
        off + 4 <= d@.len(),
    ensures
        r == le32_at(d@, off as int),
{
    let _n = d.len();
    u32_from_le_bytes(slice_subrange(d, off, off + 4))
}

/// The position of the first zero byte at or after `k`, if any.
pub open spec fn first_null_from(d: Seq<u8>, k: int) -> Option<int>
    decreases d.len() - k,
{
    if k < 0 || k >= d.len() {
        None
    } else if d[k] == 0 {
        Some(k)
    } else {
        first_null_from(d, k + 1)
    }
}

/// The first null found lies at or after the start, before the end, and on
/// a zero byte, with no zero byte before it.
pub proof fn lemma_first_null_from(d: Seq<u8>, k: int)
    requires
        0 <= k,
        first_null_from(d, k) is Some,
    ensures
        k <= first_null_from(d, k)->0 < d.len(),
        d[first_null_from(d, k)->0] == 0,
        forall|t: int| k <= t < first_null_from(d, k)->0 ==> d[t] != 0,
    decreases d.len() - k,
{
    if k >= d.len() {
    } else if d[k] == 0 {
    } else {
        lemma_first_null_from(d, k + 1);
    }
}

/// Hard cap on the length of a string read from the firmware.
pub const MAX_STRING_LEN: usize = 1024;

/// What resolving a null-terminated string pointer yields: nothing when
/// the pointer precedes the base address or lands outside the buffer,
/// when no terminator follows within the hard cap, or when the bytes
/// before the terminator are not valid UTF-8; otherwise their decoding.
pub open spec fn string_at(full: Seq<u8>, ptr: u32, base: u32) -> Option<Seq<char>> {
    if ptr < base {
        None
    } else {
        let off = ptr - base;
        if off >= full.len() {
            None
        } else {
            match first_null_from(full, off) {
                Some(end) => if end - off >= MAX_STRING_LEN {
                    None
                } else if valid_utf8(full.subrange(off, end)) {
                    Some(decode_utf8(full.subrange(off, end)))
                } else {
                    None
                },
                None => None,
            }
        }
    }
}

/// Resolves a pointer to a null-terminated string in the firmware buffer.
///
/// Fails exactly when the pointer precedes the base address, lands
/// outside the buffer, has no terminator within the hard cap, or covers
/// invalid UTF-8; the error names the cause.
pub fn read_string_at_ptr(data: &[u8], ptr: u32, base_addr: u32) -> (r: Result<
    String,
    &'static str,
>)
    ensures
        r is Ok <==> string_at(data@, ptr, base_addr) is Some,
        r matches Ok(s) ==> Some(s@) == string_at(data@, ptr, base_addr),
{
    if ptr < base_addr {
        return Err("Invalid pointer");
    }
    let offset32 = ptr - base_addr;
    if (offset32 as u64) >= (data.len() as u64) {
        return Err("Pointer out of bounds");
    }
    let offset = offset32 as usize;

    // Find the null terminator, within the hard cap.
    let mut k = offset;
    while k < data.len() && k - offset < MAX_STRING_LEN && data[k] != 0
        invariant
            offset <= k <= data@.len(),
            k - offset <= MAX_STRING_LEN,
            first_null_from(data@, offset as int) == first_null_from(data@, k as int),
        decreases data@.len() - k,
    {
        k = k + 1;
    }
    if k == data.len() {
        return Err("Unterminated string");
    }
    if k - offset >= MAX_STRING_LEN {
        proof {
            if first_null_from(data@, offset as int) is Some {
                lemma_first_null_from(data@, k as int);
            }
        }
        return Err("String too long");
    }
    proof {
        lemma_first_null_from(data@, offset as int);
    }

    let bytes = slice_to_vec(slice_subrange(data, offset, k));
    match crate::strutil::string_from_utf8(bytes) {
        Some(s) => Ok(s),
        None => Err("Invalid UTF-8 string"),
    }
}

/// The pin configuration record is present and decodable at the pointer:
/// the pointer is at or past the base, its 64 bytes lie inside the buffer,
/// and the five port selector bytes are known codes.
pub open spec fn pins_ok(full: Seq<u8>, ptr: u32, base: u32) -> bool {
    &&& ptr >= base
    &&& ptr - base + 64 <= full.len()
    &&& SdrrStmPort::spec_from_u8(full[ptr - base]) is Some
    &&& SdrrStmPort::spec_from_u8(full[ptr - base + 1]) is Some
    &&& SdrrStmPort::spec_from_u8(full[ptr - base + 2]) is Some
    &&& SdrrStmPort::spec_from_u8(full[ptr - base + 3]) is Some
    &&& SdrrStmPort::spec_from_u8(full[ptr - base + 4]) is Some
}

/// The decoded pin configuration carries the record's bytes: ports, ROM pin
/// count, the data and address pin lists, the chip-select block, the
/// selector lines and the status pin, each at its fixed offset.
pub open spec fn pins_match(p: SdrrPins, full: Seq<u8>, ptr: u32, base: u32) -> bool {
    let o = ptr - base;
    &&& Some(p.data_port) == SdrrStmPort::spec_from_u8(full[o])
    &&& Some(p.addr_port) == SdrrStmPort::spec_from_u8(full[o + 1])
    &&& Some(p.cs_port) == SdrrStmPort::spec_from_u8(full[o + 2])
    &&& Some(p.sel_port) == SdrrStmPort::spec_from_u8(full[o + 3])
    &&& Some(p.status_port) == SdrrStmPort::spec_from_u8(full[o + 4])
    &&& p.rom_pin_count == full[o + 5]
    &&& p.data@ == full.subrange(o + 8, o + 16)
    &&& p.addr@ == full.subrange(o + 16, o + 32)
    &&& p.cs1_2364 == full[o + 36]
    &&& p.cs1_2332 == full[o + 37]
    &&& p.cs1_2316 == full[o + 38]
    &&& p.cs2_2332 == full[o + 39]
    &&& p.cs2_2316 == full[o + 40]
    &&& p.cs3_2316 == full[o + 41]
    &&& p.x1 == full[o + 42]
    &&& p.x2 == full[o + 43]
    &&& p.ce_23128 == full[o + 44]
    &&& p.oe_23128 == full[o + 45]
    &&& p.sel0 == full[o + 52]
    &&& p.sel1 == full[o + 53]
    &&& p.sel2 == full[o + 54]
    &&& p.sel3 == full[o + 55]
    &&& p.status == full[o + 60]
}

/// Decodes the 64-byte pin configuration record lying at the start of the
/// given slice.
pub fn read_pins(data: &[u8]) -> (r: Result<SdrrPins, &'static str>)
    requires
        data@.len() >= 64,
        SdrrStmPort::spec_from_u8(data@[0]) is Some,
        SdrrStmPort::spec_from_u8(data@[1]) is Some,
        SdrrStmPort::spec_from_u8(data@[2]) is Some,
        SdrrStmPort::spec_from_u8(data@[3]) is Some,
        SdrrStmPort::spec_from_u8(data@[4]) is Some,
    ensures
        r matches Ok(p) && pins_match(p, data@, 0, 0),
{
    let data_port = match SdrrStmPort::from_u8(data[0]) {
        Some(p) => p,
        None => vstd::pervasive::unreached(),
    };
    let addr_port = match SdrrStmPort::from_u8(data[1]) {
        Some(p) => p,
        None => vstd::pervasive::unreached(),
    };
    let cs_port = match SdrrStmPort::from_u8(data[2]) {
        Some(p) => p,
        None => vstd::pervasive::unreached(),
    };
    let sel_port = match SdrrStmPort::from_u8(data[3]) {
        Some(p) => p,
        None => vstd::pervasive::unreached(),
    };
    let status_port = match SdrrStmPort::from_u8(data[4]) {
        Some(p) => p,
        None => vstd::pervasive::unreached(),
    };
    let data_pins = [
        data[8],
        data[9],
        data[10],
        data[11],
        data[12],
        data[13],
        data[14],
        data[15],
    ];
    let addr_pins = [
        data[16],
        data[17],
        data[18],
        data[19],
        data[20],
        data[21],
        data[22],
        data[23],
        data[24],
        data[25],
        data[26],
        data[27],
        data[28],
        data[29],
        data[30],
        data[31],
    ];
    proof {
        assert(data_pins@ =~= data@.subrange(8, 16));
        assert(addr_pins@ =~= data@.subrange(16, 32));
    }
    Ok(
        SdrrPins {
            data_port,
            addr_port,
            cs_port,
            sel_port,
            status_port,
            rom_pin_count: data[5],
            data: data_pins,
            addr: addr_pins,
            cs1_2364: data[36],
            cs1_2332: data[37],
            cs1_2316: data[38],
            cs2_2332: data[39],
            cs2_2316: data[40],
            cs3_2316: data[41],
            x1: data[42],
            x2: data[43],
            ce_23128: data[44],
            oe_23128: data[45],
            sel0: data[52],
            sel1: data[53],
            sel2: data[54],
            sel3: data[55],
            status: data[60],
        },
    )
}

/// Resolves the pin configuration pointer and decodes the record behind it.
///
/// Fails exactly when the record is out of reach or a port selector byte is
/// unknown; the caller records the failure and leaves the field absent.
pub fn read_pins_at_ptr(data: &[u8], ptr: u32, base_addr: u32) -> (r: Result<
    SdrrPins,
    &'static str,
>)
    ensures
        r is Ok <==> pins_ok(data@, ptr, base_addr),
        r matches Ok(p) ==> pins_match(p, data@, ptr, base_addr),
{
    if ptr < base_addr {
        return Err("Invalid pins pointer");
    }
    let off64 = (ptr - base_addr) as u64;
    if off64 + 64 > data.len() as u64 {
        return Err("Pins data out of bounds");
    }
    let offset = (ptr - base_addr) as usize;
    let rec = slice_subrange(data, offset, offset + 64);
    let mut port_check: usize = 0;
    while port_check < 5
        invariant
            port_check <= 5,
            rec@ == data@.subrange(offset as int, offset as int + 64),
            rec@.len() == 64,
            offset == ptr - base_addr,
            ptr >= base_addr,
            offset + 64 <= data@.len(),
            forall|t: int| 0 <= t < port_check ==> SdrrStmPort::spec_from_u8(rec@[t]) is Some,
        decreases 5 - port_check,
    {
        if SdrrStmPort::from_u8(rec[port_check]).is_none() {
            return Err("Invalid port selector");
        }
        port_check = port_check + 1;
    }
    match read_pins(rec) {
        Ok(p) => {
            proof {
                assert forall|k: int| 0 <= k < 64 implies rec@[k] == data@[offset + k] by {}
                assert(rec@.subrange(8, 16) =~= data@.subrange(offset + 8, offset + 16));
                assert(rec@.subrange(16, 32) =~= data@.subrange(offset + 16, offset + 32));
            }
            Ok(p)
        },
        Err(e) => Err(e),
    }
}

} // verus!

use crate::firmware::ParseError;
use crate::firmware::SdrrCsState;
use crate::firmware::SdrrRomInfo;
use crate::firmware::SdrrRomSet;
use crate::firmware::SdrrRomType;
use crate::firmware::SdrrServe;
use crate::strutil::append_decimal;
use crate::strutil::dec_spec;
use vstd::string::StringExecFns;

verus! {

/// The indices below `n` at which the given predicate holds, in order.
pub open spec fn ok_indices(ok: spec_fn(int) -> bool, n: int) -> Seq<int>
    decreases n,
{
    if n <= 0 {
        Seq::empty()
    } else if ok(n - 1) {
        ok_indices(ok, n - 1).push(n - 1)
    } else {
        ok_indices(ok, n - 1)
    }
}

/// The indices below `n` at which the given predicate fails, in order.
pub open spec fn fail_indices(ok: spec_fn(int) -> bool, n: int) -> Seq<int>
    decreases n,
{
    if n <= 0 {
        Seq::empty()
    } else if ok(n - 1) {
        fail_indices(ok, n - 1)
    } else {
        fail_indices(ok, n - 1).push(n - 1)
    }
}

/// Width of a ROM info record: eight bytes when boot logging widened it
/// with a filename pointer, else four.
pub open spec fn rom_info_size(logging: bool) -> int {
    if logging {
        8
    } else {
        4
    }
}

/// ROM info entry `j` behind the pointer array at `roms_ptr` is decodable:
/// its pointer slot lies in the buffer, the pointer is at or past the base,
/// the record lies in the buffer, and its four code bytes are known.
pub open spec fn rom_info_ok(
    full: Seq<u8>,
    base: u32,
    roms_ptr: u32,
    j: int,
    logging: bool,
) -> bool {
    let po = roms_ptr - base + 4 * j;
    &&& po + 4 <= full.len()
    &&& le32_at(full, po) >= base
    &&& le32_at(full, po) - base + rom_info_size(logging) <= full.len()
    &&& SdrrRomType::spec_from_u8(full[le32_at(full, po) - base]) is Some
    &&& SdrrCsState::spec_from_u8(full[le32_at(full, po) - base + 1]) is Some
    &&& SdrrCsState::spec_from_u8(full[le32_at(full, po) - base + 2]) is Some
    &&& SdrrCsState::spec_from_u8(full[le32_at(full, po) - base + 3]) is Some
}

/// The decodability of ROM info entries, as a function of the index.
pub open spec fn rom_ok_fn(full: Seq<u8>, base: u32, roms_ptr: u32, logging: bool) -> spec_fn(
    int,
) -> bool {
    |j: int| rom_info_ok(full, base, roms_ptr, j, logging)
}

/// The source filename of a ROM info record at offset `io`, when boot
/// logging stored one and its string resolves.
pub open spec fn rom_filename_at(full: Seq<u8>, base: u32, io: int, logging: bool) -> Option<
    Seq<char>,
> {
    if logging {
        let fptr = le32_at(full, io + 4);
        if fptr >= base {
            string_at(full, fptr, base)
        } else {
            None
        }
    } else {
        None
    }
}

/// The decoded ROM info entry carries its record's bytes: type, the three
/// chip-select states, and the filename when one resolves.
pub open spec fn rom_info_matches(
    r: SdrrRomInfo,
    full: Seq<u8>,
    base: u32,
    roms_ptr: u32,
    j: int,
    logging: bool,
) -> bool {
    let po = roms_ptr - base + 4 * j;
    let io = le32_at(full, po) - base;
    &&& Some(r.rom_type) == SdrrRomType::spec_from_u8(full[io])
    &&& Some(r.cs1_state) == SdrrCsState::spec_from_u8(full[io + 1])
    &&& Some(r.cs2_state) == SdrrCsState::spec_from_u8(full[io + 2])
    &&& Some(r.cs3_state) == SdrrCsState::spec_from_u8(full[io + 3])
    &&& (r.filename is Some) == (rom_filename_at(full, base, io, logging) is Some)
    &&& (r.filename is Some ==> Some(r.filename->0@) == rom_filename_at(full, base, io, logging))
}

/// The field path of ROM set `i`, such as `rom_set[1]`.
pub open spec fn set_field(i: int) -> Seq<char>
    recommends
        i >= 0,
{
    "rom_set["@ + dec_spec(i as nat) + "]"@
}

/// The field path of ROM `j` of set `i`, such as `rom_set[1].roms[2]`.
pub open spec fn rom_field(i: int, j: int) -> Seq<char>
    recommends
        i >= 0,
        j >= 0,
{
    "rom_set["@ + dec_spec(i as nat) + "].roms["@ + dec_spec(j as nat) + "]"@
}

/// Builds the field path of ROM set `i`.
fn set_field_string(i: u8) -> (r: String)
    ensures
        r@ == set_field(i as int),
{
    let mut s = String::from_str("rom_set[");
    append_decimal(&mut s, i as u32);
    s.append("]");
    s
}

/// Builds the field path of ROM `j` of set `i`.
fn rom_field_string(i: u8, j: u8) -> (r: String)
    ensures
        r@ == rom_field(i as int, j as int),
{
    let mut s = String::from_str("rom_set[");
    append_decimal(&mut s, i as u32);
    s.append("].roms[");
    append_decimal(&mut s, j as u32);
    s.append("]");
    s
}

/// Decodes ROM info entry `j` behind the pointer array at `ptr`.
fn read_rom_info_at(data: &[u8], ptr: u32, j: u8, base_addr: u32, logging: bool) -> (r: Result<
    SdrrRomInfo,
    &'static str,
>)
    requires
        ptr >= base_addr,
    ensures
        r is Ok <==> rom_info_ok(data@, base_addr, ptr, j as int, logging),
        r matches Ok(ri) ==> rom_info_matches(ri, data@, base_addr, ptr, j as int, logging),
{
    let len64 = data.len() as u64;
    let po64 = (ptr - base_addr) as u64 + 4u64 * (j as u64);
    if po64 + 4 > len64 {
        return Err("ROM info pointer out of bounds");
    }
    let po = po64 as usize;
    let rom_info_ptr = read_u32_le(data, po);
    if rom_info_ptr < base_addr {
        return Err("Invalid ROM info pointer");
    }
    let isize64: u64 = if logging {
        8
    } else {
        4
    };
    let io64 = (rom_info_ptr - base_addr) as u64;
    if io64 + isize64 > len64 {
        return Err("ROM info data out of bounds");
    }
    let io = io64 as usize;
    let rom_type = match SdrrRomType::from_u8(data[io]) {
        Some(t) => t,
        None => {
            return Err("Invalid ROM type");
        },
    };
    let cs1_state = match SdrrCsState::from_u8(data[io + 1]) {
        Some(s) => s,
        None => {
            return Err("Invalid CS1 state");
        },
    };
    let cs2_state = match SdrrCsState::from_u8(data[io + 2]) {
        Some(s) => s,
        None => {
            return Err("Invalid CS2 state");
        },
    };
    let cs3_state = match SdrrCsState::from_u8(data[io + 3]) {
        Some(s) => s,
        None => {
            return Err("Invalid CS3 state");
        },
    };
    let filename = if logging {
        let filename_ptr = read_u32_le(data, io + 4);
        if filename_ptr >= base_addr {
            match read_string_at_ptr(data, filename_ptr, base_addr) {
                Ok(s) => Some(s),
                Err(_) => None,
            }
        } else {
            None
        }
    } else {
        None
    };
    Ok(SdrrRomInfo { rom_type, cs1_state, cs2_state, cs3_state, filename })
}

/// Decodes the ROM info entries of one set.  A failing entry is omitted,
/// recorded under its path, and its siblings go on; a null array pointer or
/// a zero count yields an empty list and no error.
pub fn read_rom_infos(
    data: &[u8],
    ptr: u32,
    count: u8,
    base_addr: u32,
    boot_logging_enabled: bool,
    set_idx: u8,
    errs: &mut Vec<ParseError>,
) -> (roms: Vec<SdrrRomInfo>)
    ensures
        final(errs)@.len() >= old(errs)@.len(),
        final(errs)@.subrange(0, old(errs)@.len() as int) == old(errs)@,
        (ptr < base_addr || count == 0) ==> roms@.len() == 0 && final(errs)@ == old(errs)@,
        ptr >= base_addr && count > 0 ==> ({
            let okf = rom_ok_fn(data@, base_addr, ptr, boot_logging_enabled);
            &&& roms@.len() == ok_indices(okf, count as int).len()
            &&& forall|k: int|
                0 <= k < roms@.len() ==> rom_info_ok(
                    data@,
                    base_addr,
                    ptr,
                    ok_indices(okf, count as int)[k],
                    boot_logging_enabled,
                ) && rom_info_matches(
                    roms@[k],
                    data@,
                    base_addr,
                    ptr,
                    ok_indices(okf, count as int)[k],
                    boot_logging_enabled,
                )
            &&& final(errs)@.len() == old(errs)@.len() + fail_indices(okf, count as int).len()
            &&& forall|k: int|
                0 <= k < fail_indices(okf, count as int).len() ==> final(errs)@[old(
                    errs,
                )@.len() + k].field@ == rom_field(
                    set_idx as int,
                    fail_indices(okf, count as int)[k],
                )
        }),
{
    let mut roms: Vec<SdrrRomInfo> = Vec::new();
    if ptr < base_addr || count == 0 {
        proof {
            assert(errs@.subrange(0, errs@.len() as int) =~= errs@);
        }
        return roms;
    }
    let ghost okf = rom_ok_fn(data@, base_addr, ptr, boot_logging_enabled);
    let ghost err0 = errs@;
    let mut gidx: Ghost<Seq<int>> = Ghost(Seq::empty());
    let mut gfail: Ghost<Seq<int>> = Ghost(Seq::empty());
    let mut j: u8 = 0;
    while j < count
        invariant
            j <= count,
            ptr >= base_addr,
            okf == rom_ok_fn(data@, base_addr, ptr, boot_logging_enabled),
            gidx@ == ok_indices(okf, j as int),
            gfail@ == fail_indices(okf, j as int),
            roms@.len() == gidx@.len(),
            forall|k: int|
                0 <= k < roms@.len() ==> rom_info_ok(
                    data@,
                    base_addr,
                    ptr,
                    #[trigger] gidx@[k],
                    boot_logging_enabled,
                ) && rom_info_matches(
                    roms@[k],
                    data@,
                    base_addr,
                    ptr,
                    gidx@[k],
                    boot_logging_enabled,
                ),
            errs@.len() == err0.len() + gfail@.len(),
            errs@.subrange(0, err0.len() as int) == err0,
            forall|k: int|
                0 <= k < gfail@.len() ==> errs@[err0.len() + k].field@ == rom_field(
                    set_idx as int,
                    #[trigger] gfail@[k],
                ),
        decreases count - j,
    {
        match read_rom_info_at(data, ptr, j, base_addr, boot_logging_enabled) {
            Ok(ri) => {
                let ghost gri = ri;
                roms.push(ri);
                proof {
                    assert(okf(j as int));
                    assert(ok_indices(okf, j as int + 1) =~= ok_indices(okf, j as int).push(
                        j as int,
                    ));
                    assert(fail_indices(okf, j as int + 1) =~= fail_indices(okf, j as int));
                    gidx@ = gidx@.push(j as int);
                }
            },
            Err(reason) => {
                let field = rom_field_string(set_idx, j);
                errs.push(ParseError::new(field, String::from_str(reason)));
                proof {
                    assert(!okf(j as int));
                    assert(ok_indices(okf, j as int + 1) =~= ok_indices(okf, j as int));
                    assert(fail_indices(okf, j as int + 1) =~= fail_indices(okf, j as int).push(
                        j as int,
                    ));
                    assert(errs@.subrange(0, err0.len() as int) =~= err0);
                    gfail@ = gfail@.push(j as int);
                }
            },
        }
        j = j + 1;
    }
    proof {
        assert forall|k: int| 0 <= k < roms@.len() implies rom_info_ok(
            data@,
            base_addr,
            ptr,
            ok_indices(okf, count as int)[k],
            boot_logging_enabled,
        ) && rom_info_matches(
            roms@[k],
            data@,
            base_addr,
            ptr,
            ok_indices(okf, count as int)[k],
            boot_logging_enabled,
        ) by {
            assert(ok_indices(okf, count as int)[k] == gidx@[k]);
        }
        assert forall|k: int| 0 <= k < fail_indices(okf, count as int).len() implies errs@[err0.len()
            + k].field@ == rom_field(
            set_idx as int,
            #[trigger] fail_indices(okf, count as int)[k],
        ) by {
            assert(fail_indices(okf, count as int)[k] == gfail@[k]);
        }
    }
    roms
}

} // verus!

verus! {

/// The byte offset of ROM set record `i` in the firmware buffer.
pub open spec fn set_off(base: u32, sets_ptr: u32, i: int) -> int {
    sets_ptr - base + 16 * i
}

/// ROM set record `i` is decodable: the 16-byte record lies in the buffer,
/// its serve-algorithm and multi-ROM CS1 bytes are known codes, and the
/// image bytes its data pointer and size name lie in the buffer.
pub open spec fn set_ok(full: Seq<u8>, base: u32, sets_ptr: u32, i: int) -> bool {
    let so = set_off(base, sets_ptr, i);
    &&& so + 16 <= full.len()
    &&& SdrrServe::spec_from_u8(full[so + 13]) is Some
    &&& SdrrCsState::spec_from_u8(full[so + 14]) is Some
    &&& (le32_at(full, so) >= base ==> le32_at(full, so) - base + le32_at(full, so + 4)
        <= full.len())
}

/// The decodability of ROM set records, as a function of the index.
pub open spec fn set_ok_fn(full: Seq<u8>, base: u32, sets_ptr: u32) -> spec_fn(int) -> bool {
    |i: int| set_ok(full, base, sets_ptr, i)
}

/// The ROM info array pointer of set record `i`.
pub open spec fn set_roms_ptr(full: Seq<u8>, base: u32, sets_ptr: u32, i: int) -> u32 {
    le32_at(full, set_off(base, sets_ptr, i) + 8)
}

/// The ROM count byte of set record `i`.
pub open spec fn set_rom_count(full: Seq<u8>, base: u32, sets_ptr: u32, i: int) -> u8 {
    full[set_off(base, sets_ptr, i) + 12]
}

/// The decoded ROM set carries record `i`'s bytes: size, ROM count, serve
/// algorithm and multi-ROM CS1 state; its image bytes are the buffer range
/// its data pointer and size name (empty for a null pointer); and its ROM
/// list holds exactly the decodable ROM info entries, in order.
pub open spec fn set_matches(
    s: SdrrRomSet,
    full: Seq<u8>,
    base: u32,
    sets_ptr: u32,
    i: int,
    logging: bool,
) -> bool {
    let so = set_off(base, sets_ptr, i);
    let data_ptr = le32_at(full, so);
    let size = le32_at(full, so + 4);
    let roms_ptr = set_roms_ptr(full, base, sets_ptr, i);
    let cnt = set_rom_count(full, base, sets_ptr, i);
    let okf = rom_ok_fn(full, base, roms_ptr, logging);
    &&& s.size == size
    &&& s.rom_count == cnt
    &&& Some(s.serve) == SdrrServe::spec_from_u8(full[so + 13])
    &&& Some(s.multi_rom_cs1_state) == SdrrCsState::spec_from_u8(full[so + 14])
    &&& s.data@ == (if data_ptr >= base {
        full.subrange(data_ptr - base, data_ptr - base + size)
    } else {
        Seq::<u8>::empty()
    })
    &&& (roms_ptr < base || cnt == 0) ==> s.roms@.len() == 0
    &&& (roms_ptr >= base && cnt > 0) ==> ({
        &&& s.roms@.len() == ok_indices(okf, cnt as int).len()
        &&& forall|k: int|
            0 <= k < s.roms@.len() ==> rom_info_matches(
                s.roms@[k],
                full,
                base,
                roms_ptr,
                #[trigger] ok_indices(okf, cnt as int)[k],
                logging,
            )
    })
}

/// Decodes ROM set record `i`, its image bytes and its ROM info entries.
/// Failing ROM entries are recorded in `errs` and omitted.
fn read_rom_set_at(
    data: &[u8],
    sets_ptr: u32,
    i: u8,
    base_addr: u32,
    boot_logging_enabled: bool,
    errs: &mut Vec<ParseError>,
) -> (r: Result<SdrrRomSet, &'static str>)
    requires
        sets_ptr >= base_addr,
    ensures
        final(errs)@.len() >= old(errs)@.len(),
        final(errs)@.subrange(0, old(errs)@.len() as int) == old(errs)@,
        r is Ok <==> set_ok(data@, base_addr, sets_ptr, i as int),
        r matches Ok(s) ==> set_matches(
            s,
            data@,
            base_addr,
            sets_ptr,
            i as int,
            boot_logging_enabled,
        ),
        r is Err ==> final(errs)@ == old(errs)@,
{
    proof {
        assert(errs@.subrange(0, errs@.len() as int) =~= errs@);
    }
    let len64 = data.len() as u64;
    let so64 = (sets_ptr - base_addr) as u64 + 16u64 * (i as u64);
    if so64 + 16 > len64 {
        return Err("ROM set data out of bounds");
    }
    let so = so64 as usize;
    let data_ptr = read_u32_le(data, so);
    let size = read_u32_le(data, so + 4);
    let roms_ptr = read_u32_le(data, so + 8);
    let rom_count = data[so + 12];
    let serve = match SdrrServe::from_u8(data[so + 13]) {
        Some(s) => s,
        None => {
            return Err("Invalid serve algorithm");
        },
    };
    let multi_rom_cs1_state = match SdrrCsState::from_u8(data[so + 14]) {
        Some(s) => s,
        None => {
            return Err("Invalid multi-ROM CS1 state");
        },
    };

    // Copy the transformed image bytes out, so the decoded value is
    // self-contained once the source buffer is gone.
    let rom_data: Vec<u8> = if data_ptr >= base_addr {
        let data_off64 = (data_ptr - base_addr) as u64;
        if data_off64 + (size as u64) <= len64 {
            let data_off = data_off64 as usize;
            slice_to_vec(slice_subrange(data, data_off, data_off + size as usize))
        } else {
            return Err("ROM data out of bounds");
        }
    } else {
        Vec::new()
    };

    let roms = read_rom_infos(
        data,
        roms_ptr,
        rom_count,
        base_addr,
        boot_logging_enabled,
        i,
        errs,
    );

    Ok(
        SdrrRomSet {
            data: rom_data,
            size,
            roms,
            rom_count,
            serve,
            multi_rom_cs1_state,
        },
    )
}

/// Decodes the ROM set array.  A failing set is omitted and recorded under
/// its path, and its siblings go on; the result holds exactly the decodable
/// sets, in order.  A null array pointer or a zero count yields an empty
/// list and no error.
pub fn read_rom_sets(
    data: &[u8],
    ptr: u32,
    count: u8,
    base_addr: u32,
    boot_logging_enabled: bool,
    errs: &mut Vec<ParseError>,
) -> (sets: Vec<SdrrRomSet>)
    ensures
        final(errs)@.len() >= old(errs)@.len(),
        final(errs)@.subrange(0, old(errs)@.len() as int) == old(errs)@,
        (ptr < base_addr || count == 0) ==> sets@.len() == 0 && final(errs)@ == old(errs)@,
        ptr >= base_addr && count > 0 ==> ({
            let sokf = set_ok_fn(data@, base_addr, ptr);
            &&& sets@.len() == ok_indices(sokf, count as int).len()
            &&& forall|k: int|
                0 <= k < sets@.len() ==> set_matches(
                    sets@[k],
                    data@,
                    base_addr,
                    ptr,
                    #[trigger] ok_indices(sokf, count as int)[k],
                    boot_logging_enabled,
                )
            &&& forall|i: int|
                0 <= i < count && !(#[trigger] set_ok(data@, base_addr, ptr, i)) ==> exists|e: int|
                    0 <= e < final(errs)@.len() && (#[trigger] final(errs)@[e].field@)
                        == set_field(i)
        }),
{
    let mut sets: Vec<SdrrRomSet> = Vec::new();
    if ptr < base_addr || count == 0 {
        proof {
            assert(errs@.subrange(0, errs@.len() as int) =~= errs@);
        }
        return sets;
    }
    let ghost sokf = set_ok_fn(data@, base_addr, ptr);
    let ghost err0 = errs@;
    let mut gidx: Ghost<Seq<int>> = Ghost(Seq::empty());
    let mut i: u8 = 0;
    while i < count
        invariant
            i <= count,
            ptr >= base_addr,
            sokf == set_ok_fn(data@, base_addr, ptr),
            gidx@ == ok_indices(sokf, i as int),
            sets@.len() == gidx@.len(),
            forall|k: int|
                0 <= k < sets@.len() ==> set_matches(
                    sets@[k],
                    data@,
                    base_addr,
                    ptr,
                    #[trigger] gidx@[k],
                    boot_logging_enabled,
                ),
            errs@.len() >= err0.len(),
            errs@.subrange(0, err0.len() as int) == err0,
            forall|i2: int|
                0 <= i2 < i && !(#[trigger] sokf(i2)) ==> exists|e: int|
                    0 <= e < errs@.len() && (#[trigger] errs@[e].field@) == set_field(i2),
        decreases count - i,
    {
        let ghost prev_errs = errs@;
        match read_rom_set_at(data, ptr, i, base_addr, boot_logging_enabled, errs) {
            Ok(s) => {
                let ghost gs = s;
                sets.push(s);
                proof {
                    assert(sokf(i as int));
                    assert(ok_indices(sokf, i as int + 1) =~= ok_indices(sokf, i as int).push(
                        i as int,
                    ));
                    gidx@ = gidx@.push(i as int);
                    assert(errs@.subrange(0, err0.len() as int) =~= err0);
                }
            },
            Err(reason) => {
                let field = set_field_string(i);
                let ghost werr = errs@.len();
                errs.push(ParseError::new(field, String::from_str(reason)));
                proof {
                    assert(!sokf(i as int));
                    assert(ok_indices(sokf, i as int + 1) =~= ok_indices(sokf, i as int));
                    assert(errs@.subrange(0, err0.len() as int) =~= err0);
                    assert(errs@[werr as int].field@ == set_field(i as int));
                }
            },
        }
        proof {
            assert forall|i2: int| 0 <= i2 < i + 1 && !(#[trigger] sokf(i2)) implies exists|e: int|
                0 <= e < errs@.len() && (#[trigger] errs@[e].field@) == set_field(i2) by {
                if i2 < i {
                    let e = choose|e: int|
                        0 <= e < prev_errs.len() && (#[trigger] prev_errs[e].field@) == set_field(
                            i2,
                        );
                    assert(errs@[e].field@ == set_field(i2));
                }
            }
        }
        i = i + 1;
        proof {
            assert(ok_indices(sokf, i as int) == ok_indices(sokf, (i - 1) as int + 1));
        }
    }
    proof {
        assert forall|k: int| 0 <= k < sets@.len() implies set_matches(
            sets@[k],
            data@,
            base_addr,
            ptr,
            #[trigger] ok_indices(sokf, count as int)[k],
            boot_logging_enabled,
        ) by {
            assert(ok_indices(sokf, count as int)[k] == gidx@[k]);
        }
        assert forall|i2: int|
            0 <= i2 < count && !(#[trigger] set_ok(data@, base_addr, ptr, i2)) implies exists|
            e: int,
        | 0 <= e < errs@.len() && (#[trigger] errs@[e].field@) == set_field(i2) by {
            assert(!sokf(i2));
        }
    }
    sets
}

} // verus!

use crate::firmware::DecodeError;
use crate::firmware::FileType;
use crate::firmware::SdrrInfo;
use crate::firmware::StmLine;
use crate::firmware::StmStorage;

verus! {

/// The fatal check the header must pass, in order: enough bytes for the
/// fixed header, the `SDRR` magic, the version gate against the decoder's
/// ceiling, and known line and storage codes.
pub open spec fn spec_header_err(d: Seq<u8>) -> Option<DecodeError> {
    if d.len() < 56 {
        Some(DecodeError::HeaderTruncated)
    } else if !(d[0] == 0x53 && d[1] == 0x44 && d[2] == 0x52 && d[3] == 0x52) {
        Some(DecodeError::NotSdrrFirmware)
    } else if !crate::spec_version_le(
        le16_at(d, 4),
        le16_at(d, 6),
        le16_at(d, 8),
        crate::MAX_VERSION_MAJOR,
        crate::MAX_VERSION_MINOR,
        crate::MAX_VERSION_PATCH,
    ) {
        Some(DecodeError::UnsupportedVersion)
    } else if StmLine::spec_from_u16(le16_at(d, 28)) is None {
        Some(DecodeError::UnknownStmLine)
    } else if StmStorage::spec_from_u16(le16_at(d, 30)) is None {
        Some(DecodeError::UnknownStmStorage)
    } else {
        None
    }
}

/// The decoded image carries the header's bytes and everything its pointers
/// reach: every scalar field at its fixed offset, the two strings when they
/// resolve, exactly the decodable ROM sets in order, the pin configuration
/// when its record decodes, and a recorded error for each piece that
/// failed.
pub open spec fn info_matches(
    info: SdrrInfo,
    file_type: FileType,
    d: Seq<u8>,
    full: Seq<u8>,
    base: u32,
    file_size: int,
) -> bool {
    let sets_ptr = le32_at(d, 44);
    let cnt = d[41];
    let logging = d[39] != 0;
    let sokf = set_ok_fn(full, base, sets_ptr);
    &&& info.file_type == file_type
    &&& info.file_size == file_size
    &&& info.magic@ == d.subrange(0, 4)
    &&& info.major_version == le16_at(d, 4)
    &&& info.minor_version == le16_at(d, 6)
    &&& info.patch_version == le16_at(d, 8)
    &&& info.build_number == le16_at(d, 10)
    &&& (info.build_date is Some) == (string_at(full, le32_at(d, 12), base) is Some)
    &&& (info.build_date is Some ==> Some(info.build_date->0@) == string_at(
        full,
        le32_at(d, 12),
        base,
    ))
    &&& info.commit@ == d.subrange(16, 24)
    &&& (info.hw_rev is Some) == (string_at(full, le32_at(d, 24), base) is Some)
    &&& (info.hw_rev is Some ==> Some(info.hw_rev->0@) == string_at(full, le32_at(d, 24), base))
    &&& Some(info.stm_line) == StmLine::spec_from_u16(le16_at(d, 28))
    &&& Some(info.stm_storage) == StmStorage::spec_from_u16(le16_at(d, 30))
    &&& info.freq == le16_at(d, 32)
    &&& info.overclock == (d[34] != 0)
    &&& info.swd_enabled == (d[35] != 0)
    &&& info.preload_image_to_ram == (d[36] != 0)
    &&& info.bootloader_capable == (d[37] != 0)
    &&& info.status_led_enabled == (d[38] != 0)
    &&& info.boot_logging_enabled == (d[39] != 0)
    &&& info.mco_enabled == (d[40] != 0)
    &&& info.rom_set_count == d[41]
    &&& (sets_ptr < base || cnt == 0) ==> info.rom_sets@.len() == 0
    &&& (sets_ptr >= base && cnt > 0) ==> ({
        &&& info.rom_sets@.len() == ok_indices(sokf, cnt as int).len()
        &&& forall|k: int|
            0 <= k < info.rom_sets@.len() ==> set_matches(
                info.rom_sets@[k],
                full,
                base,
                sets_ptr,
                #[trigger] ok_indices(sokf, cnt as int)[k],
                logging,
            )
        &&& forall|i: int|
            0 <= i < cnt && !(#[trigger] set_ok(full, base, sets_ptr, i)) ==> exists|e: int|
                0 <= e < info.parse_errors@.len() && (#[trigger] info.parse_errors@[e].field@)
                    == set_field(i)
    })
    &&& (info.pins is Some) == pins_ok(full, le32_at(d, 48), base)
    &&& (info.pins is Some ==> pins_match(info.pins->0, full, le32_at(d, 48), base))
    &&& (string_at(full, le32_at(d, 12), base) is None ==> exists|e: int|
        0 <= e < info.parse_errors@.len() && (#[trigger] info.parse_errors@[e].field@)
            == "build_date"@)
    &&& (string_at(full, le32_at(d, 24), base) is None ==> exists|e: int|
        0 <= e < info.parse_errors@.len() && (#[trigger] info.parse_errors@[e].field@)
            == "hw_rev"@)
    &&& (!pins_ok(full, le32_at(d, 48), base) ==> exists|e: int|
        0 <= e < info.parse_errors@.len() && (#[trigger] info.parse_errors@[e].field@) == "pins"@)
}

impl SdrrInfo {
    /// Decodes a firmware image.  `data` is the header region; pointers
    /// inside it are resolved against `full_firmware` relative to the base
    /// address.  A bad magic, an unsupported version, a truncated header or
    /// an unknown header code is fatal; any later failure is recorded in
    /// the result's error list and decoding goes on without that piece.
    pub fn from_firmware_bytes(
        file_type: FileType,
        data: &[u8],
        full_firmware: &[u8],
        base_addr: u32,
        _info_offset: usize,
        file_size: usize,
    ) -> (r: Result<SdrrInfo, DecodeError>)
        ensures
            r is Err <==> spec_header_err(data@) is Some,
            r matches Err(e) ==> Some(e) == spec_header_err(data@),
            r matches Ok(info) ==> info_matches(
                info,
                file_type,
                data@,
                full_firmware@,
                base_addr,
                file_size as int,
            ),
    {
        let n = data.len();
        if n < 56 {
            return Err(DecodeError::HeaderTruncated);
        }
        if !(data[0] == 0x53 && data[1] == 0x44 && data[2] == 0x52 && data[3] == 0x52) {
            return Err(DecodeError::NotSdrrFirmware);
        }
        let magic = [data[0], data[1], data[2], data[3]];
        let major_version = read_u16_le(data, 4);
        let minor_version = read_u16_le(data, 6);
        let patch_version = read_u16_le(data, 8);
        let build_number = read_u16_le(data, 10);
        if !crate::version_le(
            major_version,
            minor_version,
            patch_version,
            crate::MAX_VERSION_MAJOR,
            crate::MAX_VERSION_MINOR,
            crate::MAX_VERSION_PATCH,
        ) {
            return Err(DecodeError::UnsupportedVersion);
        }
        let build_date_ptr = read_u32_le(data, 12);
        let commit = [
            data[16],
            data[17],
            data[18],
            data[19],
            data[20],
            data[21],
            data[22],
            data[23],
        ];
        let hw_rev_ptr = read_u32_le(data, 24);
        let stm_line = match StmLine::from_u16(read_u16_le(data, 28)) {
            Some(l) => l,
            None => {
                return Err(DecodeError::UnknownStmLine);
            },
        };
        let stm_storage = match StmStorage::from_u16(read_u16_le(data, 30)) {
            Some(s) => s,
            None => {
                return Err(DecodeError::UnknownStmStorage);
            },
        };
        let freq = read_u16_le(data, 32);
        let overclock = data[34] != 0;
        let swd_enabled = data[35] != 0;
        let preload_image_to_ram = data[36] != 0;
        let bootloader_capable = data[37] != 0;
        let status_led_enabled = data[38] != 0;
        let boot_logging_enabled = data[39] != 0;
        let mco_enabled = data[40] != 0;
        let rom_set_count = data[41];
        let rom_sets_ptr = read_u32_le(data, 44);
        let pins_ptr = read_u32_le(data, 48);

        let mut parse_errors: Vec<ParseError> = Vec::new();

        let build_date = match read_string_at_ptr(full_firmware, build_date_ptr, base_addr) {
            Ok(s) => Some(s),
            Err(reason) => {
                parse_errors.push(
                    ParseError::new(String::from_str("build_date"), String::from_str(reason)),
                );
                None
            },
        };
        let ghost bd_w: int = parse_errors@.len() - 1;
        let hw_rev = match read_string_at_ptr(full_firmware, hw_rev_ptr, base_addr) {
            Ok(s) => Some(s),
            Err(reason) => {
                parse_errors.push(
                    ParseError::new(String::from_str("hw_rev"), String::from_str(reason)),
                );
                None
            },
        };
        let ghost hw_w: int = parse_errors@.len() - 1;
        let ghost pre_sets = parse_errors@;

        let rom_sets = read_rom_sets(
            full_firmware,
            rom_sets_ptr,
            rom_set_count,
            base_addr,
            boot_logging_enabled,
            &mut parse_errors,
        );
        let ghost post_sets = parse_errors@;

        let pins = match read_pins_at_ptr(full_firmware, pins_ptr, base_addr) {
            Ok(p) => Some(p),
            Err(reason) => {
                parse_errors.push(
                    ParseError::new(String::from_str("pins"), String::from_str(reason)),
                );
                None
            },
        };

        let info = SdrrInfo {
            file_type,
            file_size,
            magic,
            major_version,
            minor_version,
            patch_version,
            build_number,
            build_date,
            commit,
            hw_rev,
            stm_line,
            stm_storage,
            freq,
            overclock,
            swd_enabled,
            preload_image_to_ram,
            bootloader_capable,
            status_led_enabled,
            boot_logging_enabled,
            mco_enabled,
            rom_set_count,
            rom_sets,
            pins,
            parse_errors,
        };
        proof {
            assert(magic@ =~= data@.subrange(0, 4));
            assert(commit@ =~= data@.subrange(16, 24));
            assert forall|e: int| 0 <= e < pre_sets.len() implies post_sets[e] == pre_sets[e] by {
                assert(post_sets.subrange(0, pre_sets.len() as int)[e] == post_sets[e]);
            }
            if string_at(full_firmware@, le32_at(data@, 12), base_addr) is None {
                assert(info.build_date is None);
                assert(pre_sets[bd_w].field@ == "build_date"@);
                assert(info.parse_errors@[bd_w].field@ == "build_date"@);
                assert(0 <= bd_w < info.parse_errors@.len());
            }
            if string_at(full_firmware@, le32_at(data@, 24), base_addr) is None {
                assert(info.hw_rev is None);
                assert(pre_sets[hw_w].field@ == "hw_rev"@);
                assert(info.parse_errors@[hw_w].field@ == "hw_rev"@);
                assert(0 <= hw_w < info.parse_errors@.len());
            }
            if !pins_ok(full_firmware@, le32_at(data@, 48), base_addr) {
                assert(info.pins is None);
                assert(info.parse_errors@.len() > 0);
                assert(info.parse_errors@[info.parse_errors@.len() - 1].field@ == "pins"@);
            }
            if rom_sets_ptr >= base_addr && rom_set_count > 0 {
                assert forall|i: int|
                    0 <= i < rom_set_count && !(#[trigger] set_ok(
                        full_firmware@,
                        base_addr,
                        rom_sets_ptr,
                        i,
                    )) implies exists|e: int|
                    0 <= e < info.parse_errors@.len() && (#[trigger] info.parse_errors@[e].field@)
                        == set_field(i) by {
                    let e = choose|e: int|
                        0 <= e < post_sets.len() && (#[trigger] post_sets[e].field@) == set_field(
                            i,
                        );
                    assert(info.parse_errors@[e].field@ == set_field(i));
                }
            }
        }

        Ok(info)
    }
}

/// Decodes a flat firmware binary: the header is expected at the fixed
/// offset from the start of the image, and pointers are resolved against
/// the flash base address of the target microcontroller family.
pub fn load_from_binary(firmware_data: &Vec<u8>) -> (r: Result<SdrrInfo, DecodeError>)
    ensures
        firmware_data@.len() < crate::SDRR_INFO_OFFSET ==> r == Err::<SdrrInfo, DecodeError>(
            DecodeError::HeaderTruncated,
        ),
        firmware_data@.len() >= crate::SDRR_INFO_OFFSET ==> ({
            let d = firmware_data@.subrange(
                crate::SDRR_INFO_OFFSET as int,
                firmware_data@.len() as int,
            );
            &&& (r is Err <==> spec_header_err(d) is Some)
            &&& (r matches Err(e) ==> Some(e) == spec_header_err(d))
            &&& (r matches Ok(info) ==> info_matches(
                info,
                FileType::Orc,
                d,
                firmware_data@,
                crate::STM32F4_FLASH_BASE,
                firmware_data@.len() as int,
            ))
        }),
{
    let full = firmware_data.as_slice();
    let n = full.len();
    if n < crate::SDRR_INFO_OFFSET {
        return Err(DecodeError::HeaderTruncated);
    }
    let sdrr_data = slice_subrange(full, crate::SDRR_INFO_OFFSET, n);
    SdrrInfo::from_firmware_bytes(
        FileType::Orc,
        sdrr_data,
        full,
        crate::STM32F4_FLASH_BASE,
        crate::SDRR_INFO_OFFSET,
        n,
    )
}

} // verus!
