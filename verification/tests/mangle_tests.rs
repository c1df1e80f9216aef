//! Tests for the pin-permutation engine: address mangling in both
//! directions, byte mangling round trips, and the failure modes.

use sdrr::firmware::MangleError;
use sdrr::firmware::SdrrPins;
use sdrr::firmware::SdrrRomType;
use sdrr::firmware::SdrrStmPort;
use sdrr::mangle::demangle_address;
use sdrr::mangle::demangle_byte_with;
use sdrr::mangle::mangle_address_with;
use sdrr::mangle::mangle_byte_with;

fn rev_f_pins() -> SdrrPins {
    SdrrPins {
        data_port: SdrrStmPort::PortA,
        addr_port: SdrrStmPort::PortC,
        cs_port: SdrrStmPort::PortC,
        sel_port: SdrrStmPort::PortB,
        status_port: SdrrStmPort::PortB,
        rom_pin_count: 24,
        data: [7, 6, 5, 4, 3, 2, 1, 0],
        addr: [0, 1, 2, 3, 4, 5, 6, 7, 8, 9, 10, 11, 12, 255, 255, 255],
        cs1_2364: 13,
        cs1_2332: 13,
        cs1_2316: 13,
        cs2_2332: 9,
        cs2_2316: 9,
        cs3_2316: 12,
        x1: 14,
        x2: 15,
        ce_23128: 255,
        oe_23128: 255,
        sel0: 0,
        sel1: 1,
        sel2: 2,
        sel3: 3,
        status: 4,
    }
}

#[test]
fn mangle_identity_map_cs1_only() {
    // Identity address pins, CS1 on pin 13: logical 0 with CS1 active
    // gives only bit 13.
    let pins = rev_f_pins();
    let r = mangle_address_with(&pins, SdrrRomType::Rom2364, false, 0, true, None, None, None, None);
    assert_eq!(r, Ok(0x2000));
}

#[test]
fn mangle_identity_map_addr_bits() {
    let pins = rev_f_pins();
    let r = mangle_address_with(
        &pins,
        SdrrRomType::Rom2364,
        false,
        0x1555,
        false,
        None,
        None,
        None,
        None,
    );
    assert_eq!(r, Ok(0x1555));
}

#[test]
fn mangle_boundary_last_address_ok() {
    // rom_size - 1 mangles successfully for every ROM type.
    let pins = rev_f_pins();
    assert!(mangle_address_with(
        &pins,
        SdrrRomType::Rom2364,
        false,
        0x1FFF,
        true,
        None,
        None,
        None,
        None
    )
    .is_ok());
    assert!(mangle_address_with(
        &pins,
        SdrrRomType::Rom2332,
        false,
        0xFFF,
        true,
        Some(false),
        None,
        None,
        None
    )
    .is_ok());
    assert!(mangle_address_with(
        &pins,
        SdrrRomType::Rom2316,
        false,
        0x7FF,
        true,
        Some(false),
        Some(false),
        None,
        None
    )
    .is_ok());
}

#[test]
fn mangle_boundary_size_overflows() {
    // rom_size itself fails with AddressOverflow.
    let pins = rev_f_pins();
    assert_eq!(
        mangle_address_with(
            &pins,
            SdrrRomType::Rom2364,
            false,
            0x2000,
            true,
            None,
            None,
            None,
            None
        ),
        Err(MangleError::AddressOverflow)
    );
    assert_eq!(
        mangle_address_with(
            &pins,
            SdrrRomType::Rom2332,
            false,
            0x1000,
            true,
            Some(false),
            None,
            None,
            None
        ),
        Err(MangleError::AddressOverflow)
    );
    assert_eq!(
        mangle_address_with(
            &pins,
            SdrrRomType::Rom2316,
            false,
            0x800,
            true,
            Some(false),
            Some(false),
            None,
            None
        ),
        Err(MangleError::AddressOverflow)
    );
}

#[test]
fn mangle_2332_cs2_bit() {
    // For 2332, CS2 is overlaid as logical bit 12 on its own pin (9).
    let pins = rev_f_pins();
    let r = mangle_address_with(
        &pins,
        SdrrRomType::Rom2332,
        false,
        0,
        false,
        Some(true),
        None,
        None,
        None,
    );
    assert_eq!(r, Ok(1 << 9));
}

#[test]
fn mangle_2316_cs2_cs3_bits() {
    // For 2316, CS2 is logical bit 11 (pin 9) and CS3 logical bit 12
    // (pin 12).
    let pins = rev_f_pins();
    let r = mangle_address_with(
        &pins,
        SdrrRomType::Rom2316,
        false,
        0,
        false,
        Some(true),
        Some(false),
        None,
        None,
    );
    assert_eq!(r, Ok(1 << 9));
    let r = mangle_address_with(
        &pins,
        SdrrRomType::Rom2316,
        false,
        0,
        false,
        Some(false),
        Some(true),
        None,
        None,
    );
    assert_eq!(r, Ok(1 << 12));
}

#[test]
fn mangle_multi_rom_selector_bits() {
    let pins = rev_f_pins();
    let r = mangle_address_with(
        &pins,
        SdrrRomType::Rom2364,
        true,
        0,
        false,
        None,
        None,
        Some(true),
        Some(true),
    );
    assert_eq!(r, Ok((1 << 14) | (1 << 15)));
}

#[test]
fn mangle_pin_conflict() {
    // An extra selector colliding with a claimed address pin is a fatal
    // configuration error.
    let mut pins = rev_f_pins();
    pins.x1 = 5;
    let r = mangle_address_with(
        &pins,
        SdrrRomType::Rom2364,
        true,
        0,
        false,
        None,
        None,
        Some(false),
        Some(false),
    );
    assert_eq!(r, Err(MangleError::PinConflict));
}

#[test]
fn mangle_round_trip_concrete() {
    // Mangle then re-derive: the original address and control states come
    // back exactly.
    let pins = rev_f_pins();
    for addr in [0u32, 1, 0x7FF, 0x1234, 0x1FFF] {
        for cs1 in [false, true] {
            let physical = mangle_address_with(
                &pins,
                SdrrRomType::Rom2364,
                false,
                addr,
                cs1,
                None,
                None,
                None,
                None,
            )
            .unwrap();
            let (raddr, rcs1, rcs2, rcs3, rx1, rx2) =
                demangle_address(&pins, SdrrRomType::Rom2364, false, physical);
            assert_eq!(raddr, addr);
            assert_eq!(rcs1, cs1);
            assert_eq!(rcs2, None);
            assert_eq!(rcs3, None);
            assert_eq!(rx1, None);
            assert_eq!(rx2, None);
        }
    }
}

#[test]
fn byte_round_trip_all_values() {
    // demangle(mangle(b)) == b for every byte, for every supported map.
    let reversed: [u8; 8] = [7, 6, 5, 4, 3, 2, 1, 0];
    let identity: [u8; 8] = [0, 1, 2, 3, 4, 5, 6, 7];
    let scrambled: [u8; 8] = [3, 0, 5, 1, 7, 2, 6, 4];
    for map in [reversed, identity, scrambled] {
        for b in 0..=255u8 {
            let m = mangle_byte_with(&map, b);
            assert_eq!(demangle_byte_with(&map, m), b);
        }
    }
}

#[test]
fn byte_mangle_reversed_bits() {
    let reversed: [u8; 8] = [7, 6, 5, 4, 3, 2, 1, 0];
    assert_eq!(mangle_byte_with(&reversed, 0x01), 0x80);
    assert_eq!(demangle_byte_with(&reversed, 0x01), 0x80);
    assert_eq!(mangle_byte_with(&reversed, 0xA5), 0xA5u8.reverse_bits());
}
