//! Tests for the firmware decoder: the version gate, graceful degradation
//! past corrupted pointers, and the end-to-end inspection path.

use sdrr::decode::load_from_binary;
use sdrr::decode::read_string_at_ptr;
use sdrr::firmware::DecodeError;
use sdrr::firmware::FileType;
use sdrr::firmware::SdrrInfo;
use sdrr::lookup::lookup_byte;
use sdrr::SDRR_INFO_OFFSET;
use sdrr::STM32F4_FLASH_BASE;

const BASE: u32 = STM32F4_FLASH_BASE;
const HDR: usize = SDRR_INFO_OFFSET;

fn put_u16(buf: &mut [u8], off: usize, v: u16) {
    buf[off..off + 2].copy_from_slice(&v.to_le_bytes());
}

fn put_u32(buf: &mut [u8], off: usize, v: u32) {
    buf[off..off + 4].copy_from_slice(&v.to_le_bytes());
}

/// A minimal well-formed firmware buffer: valid magic, the given version,
/// null pointers everywhere, no ROM sets.
fn minimal_firmware(major: u16, minor: u16, patch: u16) -> Vec<u8> {
    let mut buf = vec![0u8; 0x800];
    buf[HDR..HDR + 4].copy_from_slice(b"SDRR");
    put_u16(&mut buf, HDR + 4, major);
    put_u16(&mut buf, HDR + 6, minor);
    put_u16(&mut buf, HDR + 8, patch);
    put_u16(&mut buf, HDR + 10, 42);
    // line F401 (0) and storage C (2)
    put_u16(&mut buf, HDR + 28, 0);
    put_u16(&mut buf, HDR + 30, 2);
    put_u16(&mut buf, HDR + 32, 151);
    buf
}

fn write_pins(buf: &mut [u8], off: usize) {
    buf[off] = 1; // data port A
    buf[off + 1] = 3; // addr port C
    buf[off + 2] = 3; // cs port C
    buf[off + 3] = 2; // sel port B
    buf[off + 4] = 2; // status port B
    buf[off + 5] = 24;
    for i in 0..8 {
        buf[off + 8 + i] = (7 - i) as u8;
    }
    for i in 0..13 {
        buf[off + 16 + i] = i as u8;
    }
    for i in 13..16 {
        buf[off + 16 + i] = 255;
    }
    buf[off + 36] = 13; // 2364 CS1
    buf[off + 37] = 13; // 2332 CS1
    buf[off + 38] = 13; // 2316 CS1
    buf[off + 39] = 9; // 2332 CS2
    buf[off + 40] = 9; // 2316 CS2
    buf[off + 41] = 12; // 2316 CS3
    buf[off + 42] = 14; // X1
    buf[off + 43] = 15; // X2
    buf[off + 44] = 255;
    buf[off + 45] = 255;
    buf[off + 60] = 4;
}

/// A firmware buffer with one 2364 ROM set, strings, and pins: the
/// end-to-end shape.
fn full_firmware() -> Vec<u8> {
    let mut buf = vec![0u8; 0x2000];
    buf[HDR..HDR + 4].copy_from_slice(b"SDRR");
    put_u16(&mut buf, HDR + 4, 0);
    put_u16(&mut buf, HDR + 6, 3);
    put_u16(&mut buf, HDR + 8, 0);
    put_u16(&mut buf, HDR + 10, 7);
    put_u32(&mut buf, HDR + 12, BASE + 0x400); // build date
    buf[HDR + 16..HDR + 24].copy_from_slice(b"abc1234\0");
    put_u32(&mut buf, HDR + 24, BASE + 0x410); // hw rev
    put_u16(&mut buf, HDR + 28, 0);
    put_u16(&mut buf, HDR + 30, 2);
    put_u16(&mut buf, HDR + 32, 151);
    buf[HDR + 41] = 1; // one ROM set
    put_u32(&mut buf, HDR + 44, BASE + 0x500); // rom sets
    put_u32(&mut buf, HDR + 48, BASE + 0x600); // pins
    buf[0x400..0x40B].copy_from_slice(b"2025-01-02\0");
    buf[0x410..0x415].copy_from_slice(b"24-f\0");
    // ROM set record
    put_u32(&mut buf, 0x500, BASE + 0x1000); // image data
    put_u32(&mut buf, 0x504, 0x100); // image size
    put_u32(&mut buf, 0x508, BASE + 0x520); // rom info pointers
    buf[0x50C] = 1; // one ROM
    buf[0x50D] = 1; // serve: addr on CS
    buf[0x50E] = 2; // multi-ROM CS1: not used
    // ROM info pointer and record
    put_u32(&mut buf, 0x520, BASE + 0x530);
    buf[0x530] = 2; // 2364
    buf[0x531] = 0; // CS1 active low
    buf[0x532] = 2;
    buf[0x533] = 2;
    write_pins(&mut buf, 0x600);
    for i in 0..0x100usize {
        buf[0x1000 + i] = (i as u8).wrapping_mul(3);
    }
    buf
}

#[test]
fn version_gate_equal_max_decodes() {
    let buf = minimal_firmware(0, 3, 0);
    assert!(load_from_binary(&buf).is_ok());
}

#[test]
fn version_gate_one_patch_above_rejected() {
    let buf = minimal_firmware(0, 3, 1);
    assert_eq!(load_from_binary(&buf).err(), Some(DecodeError::UnsupportedVersion));
}

#[test]
fn version_gate_below_max_accepted() {
    assert!(load_from_binary(&minimal_firmware(0, 2, 9)).is_ok());
    assert!(load_from_binary(&minimal_firmware(0, 0, 0)).is_ok());
}

#[test]
fn version_gate_major_above_rejected() {
    assert_eq!(
        load_from_binary(&minimal_firmware(1, 0, 0)).err(),
        Some(DecodeError::UnsupportedVersion)
    );
}

#[test]
fn bad_magic_is_fatal() {
    let mut buf = minimal_firmware(0, 3, 0);
    buf[HDR] = b'X';
    assert_eq!(load_from_binary(&buf).err(), Some(DecodeError::NotSdrrFirmware));
}

#[test]
fn truncated_header_is_fatal() {
    let buf = vec![0u8; HDR + 10];
    assert_eq!(load_from_binary(&buf).err(), Some(DecodeError::HeaderTruncated));
}

#[test]
fn unknown_line_and_storage_are_fatal() {
    let mut buf = minimal_firmware(0, 3, 0);
    put_u16(&mut buf, HDR + 28, 99);
    assert_eq!(load_from_binary(&buf).err(), Some(DecodeError::UnknownStmLine));
    let mut buf = minimal_firmware(0, 3, 0);
    put_u16(&mut buf, HDR + 30, 99);
    assert_eq!(load_from_binary(&buf).err(), Some(DecodeError::UnknownStmStorage));
}

#[test]
fn null_pointers_degrade_to_absent_fields() {
    let info = load_from_binary(&minimal_firmware(0, 3, 0)).unwrap();
    assert!(info.build_date.is_none());
    assert!(info.hw_rev.is_none());
    assert!(info.pins.is_none());
    assert_eq!(info.rom_sets.len(), 0);
    let fields: Vec<&str> = info.parse_errors.iter().map(|e| e.field.as_str()).collect();
    assert!(fields.contains(&"build_date"));
    assert!(fields.contains(&"hw_rev"));
    assert!(fields.contains(&"pins"));
}

#[test]
fn corrupt_rom_info_pointer_degrades_that_rom_only() {
    // Two ROM sets; the second ROM of the first set has a wild pointer:
    // that entry is absent and recorded, everything else is intact.
    let mut buf = full_firmware();
    buf[HDR + 41] = 2;
    // second set record at 0x510
    put_u32(&mut buf, 0x510, BASE + 0x1100);
    put_u32(&mut buf, 0x514, 0x10);
    put_u32(&mut buf, 0x518, BASE + 0x560);
    buf[0x51C] = 1;
    buf[0x51D] = 1;
    buf[0x51E] = 2;
    put_u32(&mut buf, 0x560, BASE + 0x530);
    // first set now has two ROM pointers; the second is out of bounds
    buf[0x50C] = 2;
    put_u32(&mut buf, 0x524, BASE + 0x0FFF_0000);
    let info = load_from_binary(&buf).unwrap();
    assert_eq!(info.rom_sets.len(), 2);
    assert_eq!(info.rom_sets[0].roms.len(), 1);
    assert_eq!(info.rom_sets[1].roms.len(), 1);
    assert!(info.pins.is_some());
    let fields: Vec<&str> = info.parse_errors.iter().map(|e| e.field.as_str()).collect();
    assert!(fields.contains(&"rom_set[0].roms[1]"));
    assert!(!fields.contains(&"rom_set[1]"));
}

#[test]
fn corrupt_set_record_degrades_that_set_only() {
    let mut buf = full_firmware();
    buf[HDR + 41] = 2;
    // second set record at 0x510 with an out-of-bounds data region
    put_u32(&mut buf, 0x510, BASE + 0x0FFF_0000);
    put_u32(&mut buf, 0x514, 0x10);
    put_u32(&mut buf, 0x518, 0);
    buf[0x51C] = 0;
    buf[0x51D] = 1;
    buf[0x51E] = 2;
    let info = load_from_binary(&buf).unwrap();
    assert_eq!(info.rom_sets.len(), 1);
    let fields: Vec<&str> = info.parse_errors.iter().map(|e| e.field.as_str()).collect();
    assert!(fields.contains(&"rom_set[1]"));
}

#[test]
fn end_to_end_decode_mangle_demangle() {
    // One 2364 set with CS1 active-low, reversed data pins and identity
    // address pins: logical 0x0000 with CS1 active mangles to 0x2000, and
    // physical byte 0x01 demangles to 0x80.
    let info = load_from_binary(&full_firmware()).unwrap();
    assert_eq!(info.major_version, 0);
    assert_eq!(info.build_date.as_deref(), Some("2025-01-02"));
    assert_eq!(info.hw_rev.as_deref(), Some("24-f"));
    assert!(info.is_hw_rev_f());
    assert_eq!(info.rom_sets.len(), 1);
    assert_eq!(info.rom_sets[0].roms.len(), 1);
    assert_eq!(info.rom_sets[0].data.len(), 0x100);
    assert_eq!(info.rom_sets[0].data[3], 9);
    let mangled = info.mangle_address(0x0000, true, None, None, None, None);
    assert_eq!(mangled, Ok(0x2000));
    assert_eq!(info.demangle_byte(0x01), 0x80);
}

#[test]
fn lookup_byte_demangles() {
    let info = load_from_binary(&full_firmware()).unwrap();
    // stored byte at 0x21 is 0x63; demangled through reversed data pins
    // it reads back bit-reversed.
    assert_eq!(lookup_byte(&info, 0, 0x21, true), Ok(0x63));
    assert_eq!(lookup_byte(&info, 0, 0x21, false), Ok(0x63u8.reverse_bits()));
    assert!(lookup_byte(&info, 9, 0, true).is_err());
}

#[test]
fn read_string_errors_name_their_cause() {
    let data = b"hi\0there";
    assert_eq!(read_string_at_ptr(data, BASE, BASE), Ok("hi".to_string()));
    assert_eq!(read_string_at_ptr(data, BASE - 1, BASE).err(), Some("Invalid pointer"));
    assert_eq!(read_string_at_ptr(data, BASE + 100, BASE).err(), Some("Pointer out of bounds"));
    assert_eq!(read_string_at_ptr(data, BASE + 3, BASE).err(), Some("Unterminated string"));
    let bad = [0xFFu8, 0xFE, 0x00];
    assert_eq!(read_string_at_ptr(&bad, BASE, BASE).err(), Some("Invalid UTF-8 string"));
}

#[test]
fn non_ascii_strings_decode_as_utf8() {
    let mut buf = minimal_firmware(0, 3, 0);
    put_u32(&mut buf, HDR + 12, BASE + 0x400);
    let s = "caf\u{e9}";
    let bytes = s.as_bytes();
    buf[0x400..0x400 + bytes.len()].copy_from_slice(bytes);
    buf[0x400 + bytes.len()] = 0;
    let info = load_from_binary(&buf).unwrap();
    assert_eq!(info.build_date.as_deref(), Some("caf\u{e9}"));
}

#[test]
fn from_firmware_bytes_keeps_scalar_fields() {
    let buf = full_firmware();
    let info = SdrrInfo::from_firmware_bytes(
        FileType::Orc,
        &buf[HDR..],
        &buf,
        BASE,
        HDR,
        buf.len(),
    )
    .unwrap();
    assert_eq!(info.file_type, FileType::Orc);
    assert_eq!(info.file_size, buf.len());
    assert_eq!(&info.magic, b"SDRR");
    assert_eq!(info.build_number, 7);
    assert_eq!(info.freq, 151);
    assert_eq!(&info.commit, b"abc1234\0");
    assert_eq!(info.rom_set_count, 1);
    let pins = info.pins.as_ref().unwrap();
    assert_eq!(pins.data, [7, 6, 5, 4, 3, 2, 1, 0]);
    assert_eq!(pins.cs1_2364, 13);
    assert_eq!(pins.x1, 14);
}

#[test]
fn overlong_string_is_too_long() {
    // A terminator past the hard cap: the string is refused, not read.
    let mut data = vec![b'a'; 2000];
    data[1500] = 0;
    assert_eq!(read_string_at_ptr(&data, BASE, BASE).err(), Some("String too long"));
    // A terminator just inside the cap still reads.
    let mut data = vec![b'a'; 2000];
    data[1023] = 0;
    assert_eq!(read_string_at_ptr(&data, BASE, BASE).unwrap().len(), 1023);
}
