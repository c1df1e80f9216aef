//! Tests for the hardware configuration model: name normalization, the
//! pin validators, and whole-configuration validation.

use sdrr::hardware::normalize_name;
use sdrr::hardware::validate_config;
use sdrr::hardware::validate_pin_array;
use sdrr::hardware::validate_pin_number;
use sdrr::hardware::validate_pin_values;
use sdrr::hardware::HwConfig;
use sdrr::hardware::Port;
use sdrr::hardware::Rom;
use sdrr::hardware::RomPins;
use sdrr::hardware::RomTypeMap;
use sdrr::hardware::Stm;
use sdrr::hardware::StmPins;
use sdrr::hardware::StmPorts;
use sdrr::types::RomType;
use sdrr::types::StmFamily;

#[test]
fn test_normalize_name() {
    assert_eq!(normalize_name("23-D"), "23-d");
    assert_eq!(normalize_name("23_D"), "23-d");
    assert_eq!(normalize_name("28_A"), "28-a");
    assert_eq!(normalize_name("28-A"), "28-a");
}

#[test]
fn port_parse_folds_case() {
    assert_eq!(Port::from_str("a"), Some(Port::A));
    assert_eq!(Port::from_str("C"), Some(Port::C));
    assert_eq!(Port::from_str("none"), Some(Port::NoPort));
    assert_eq!(Port::from_str("E"), None);
}

#[test]
fn pin_number_validation() {
    assert!(validate_pin_number(0, "data", "cfg").is_ok());
    assert!(validate_pin_number(15, "data", "cfg").is_ok());
    assert!(validate_pin_number(255, "data", "cfg").is_ok());
    assert!(validate_pin_number(16, "data", "cfg").is_err());
}

#[test]
fn pin_array_validation() {
    assert!(validate_pin_array(&vec![0, 1, 2], "data", "cfg", 8).is_ok());
    assert!(validate_pin_array(&vec![0, 1, 1], "data", "cfg", 8).is_err());
    assert!(validate_pin_array(&vec![0, 99, 2], "data", "cfg", 8).is_err());
    assert!(validate_pin_array(&vec![0, 1, 2], "data", "cfg", 2).is_err());
}

#[test]
fn pin_values_validation() {
    assert!(validate_pin_values(&vec![0, 7, 3], "data", "cfg", 3, 7).is_ok());
    assert!(validate_pin_values(&vec![0, 8, 3], "data", "cfg", 3, 7).is_err());
    // Entries past the checked prefix may exceed the ceiling.
    assert!(validate_pin_values(&vec![0, 1, 9], "data", "cfg", 2, 7).is_ok());
}

fn rev_f_config() -> HwConfig {
    let cs1 = RomTypeMap { m2316: Some(13), m2332: Some(13), m2364: Some(13), m23128: None };
    let cs2 = RomTypeMap { m2316: Some(9), m2332: Some(9), m2364: None, m23128: None };
    let cs3 = RomTypeMap { m2316: Some(12), m2332: None, m2364: None, m23128: None };
    let none_map = RomTypeMap { m2316: None, m2332: None, m2364: None, m23128: None };
    HwConfig {
        name: "24-f".to_string(),
        description: "24 pin rev F".to_string(),
        rom: Rom { pins: RomPins { quantity: 24 } },
        stm: Stm {
            family: StmFamily::F4,
            ports: StmPorts {
                data_port: Port::A,
                addr_port: Port::C,
                cs_port: Port::C,
                sel_port: Port::B,
                status_port: Port::B,
            },
            pins: StmPins {
                data: vec![7, 6, 5, 4, 3, 2, 1, 0],
                addr: vec![0, 1, 2, 3, 4, 5, 6, 7, 8, 9, 10, 11, 12],
                cs1,
                cs2,
                cs3,
                x1: Some(14),
                x2: Some(15),
                ce: none_map,
                oe: none_map,
                sel: vec![0, 1, 2, 3],
                status: 4,
            },
        },
    }
}

#[test]
fn whole_config_validates() {
    let cfg = rev_f_config();
    assert!(validate_config("24-f", &cfg).is_ok());
    assert!(cfg.supports_multi_rom_sets());
    assert_eq!(cfg.pin_cs1(&RomType::Rom2364), 13);
    assert_eq!(cfg.pin_cs2(&RomType::Rom2364), 255);
    assert_eq!(cfg.pin_cs3(&RomType::Rom2316), 12);
    assert_eq!(cfg.pin_x1(), 14);
    assert_eq!(cfg.pin_sel(2), 2);
    assert_eq!(cfg.pin_sel(9), 255);
    assert_eq!(cfg.cs_pin_for_rom_in_set(&RomType::Rom2364, 0), 13);
    assert_eq!(cfg.cs_pin_for_rom_in_set(&RomType::Rom2364, 1), 14);
    assert_eq!(cfg.cs_pin_for_rom_in_set(&RomType::Rom2364, 3), 255);
}

#[test]
fn config_rejects_bad_socket_and_ports() {
    let mut cfg = rev_f_config();
    cfg.rom.pins.quantity = 28;
    assert!(validate_config("x", &cfg).is_err());
    let mut cfg = rev_f_config();
    cfg.stm.ports.data_port = Port::B;
    assert!(validate_config("x", &cfg).is_err());
    let mut cfg = rev_f_config();
    cfg.stm.pins.data = vec![7, 6, 5, 4, 3, 2, 1];
    assert!(validate_config("x", &cfg).is_err());
}

#[test]
fn config_rejects_disallowed_pin_sharing() {
    // The status line colliding with a select pin on port B is refused; a
    // chip select overlaid on an address pin is allowed.
    let mut cfg = rev_f_config();
    cfg.stm.pins.status = 0;
    assert!(validate_config("x", &cfg).is_err());
    let mut cfg = rev_f_config();
    cfg.stm.pins.cs1 =
        RomTypeMap { m2316: Some(12), m2332: Some(12), m2364: Some(12), m23128: None };
    cfg.stm.pins.cs3 = RomTypeMap { m2316: Some(11), m2332: None, m2364: None, m23128: None };
    assert!(validate_config("x", &cfg).is_ok());
}
