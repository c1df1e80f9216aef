//! Tests for ROM set serving and the generation-side configuration.

use sdrr::config::Config;
use sdrr::config::CsConfig;
use sdrr::config::RomConfig;
use sdrr::config::RomInSet;
use sdrr::config::SizeHandling;
use sdrr::hardware::HwConfig;
use sdrr::hardware::Port;
use sdrr::hardware::Rom;
use sdrr::hardware::RomPins;
use sdrr::hardware::RomTypeMap;
use sdrr::hardware::Stm;
use sdrr::hardware::StmPins;
use sdrr::hardware::StmPorts;
use sdrr::preprocess::RomImage;
use sdrr::preprocess::RomSet;
use sdrr::types::CsLogic;
use sdrr::types::RomType;
use sdrr::types::ServeAlg;
use sdrr::types::StmFamily;
use sdrr::types::StmVariant;

fn hw() -> HwConfig {
    let cs1 = RomTypeMap { m2316: Some(13), m2332: Some(13), m2364: Some(13), m23128: None };
    let cs2 = RomTypeMap { m2316: Some(9), m2332: Some(9), m2364: None, m23128: None };
    let cs3 = RomTypeMap { m2316: Some(12), m2332: None, m2364: None, m23128: None };
    let none_map = RomTypeMap { m2316: None, m2332: None, m2364: None, m23128: None };
    HwConfig {
        name: "24-f".to_string(),
        description: "24 pin rev F".to_string(),
        rom: Rom { pins: RomPins { quantity: 24 } },
        stm: Stm {
            family: StmFamily::F4,
            ports: StmPorts {
                data_port: Port::A,
                addr_port: Port::C,
                cs_port: Port::C,
                sel_port: Port::B,
                status_port: Port::B,
            },
            pins: StmPins {
                data: vec![7, 6, 5, 4, 3, 2, 1, 0],
                addr: vec![0, 1, 2, 3, 4, 5, 6, 7, 8, 9, 10, 11, 12],
                cs1,
                cs2,
                cs3,
                x1: Some(14),
                x2: Some(15),
                ce: none_map,
                oe: none_map,
                sel: vec![0, 1, 2, 3],
                status: 4,
            },
        },
    }
}

fn rom_config(set: Option<usize>) -> RomConfig {
    RomConfig {
        file: "rom.bin".to_string(),
        original_source: "rom.bin".to_string(),
        extract: None,
        licence: None,
        rom_type: RomType::Rom2364,
        cs_config: CsConfig::new(CsLogic::ActiveLow, None, None),
        size_handling: SizeHandling::Nothing,
        set,
    }
}

fn image_counting() -> RomImage {
    let mut data = vec![0u8; 8192];
    for (i, b) in data.iter_mut().enumerate() {
        *b = i as u8;
    }
    RomImage { data }
}

fn config(roms: Vec<RomConfig>) -> Config {
    Config {
        roms,
        stm_variant: StmVariant::F446RE,
        output_dir: "./output".to_string(),
        swd: false,
        mco: false,
        mco2: false,
        boot_logging: false,
        main_loop_logging: false,
        debug_logging: false,
        overwrite: false,
        hse: false,
        hw: hw(),
        freq: 180,
        status_led: false,
        overclock: false,
        bootloader: false,
        preload_to_ram: true,
        auto_yes: false,
        serve_alg: ServeAlg::Default,
    }
}

#[test]
fn single_rom_set_serves_through_transforms() {
    let set = RomSet {
        id: 0,
        roms: vec![RomInSet { config: rom_config(None), image: image_counting(), original_index: 0 }],
    };
    // Physical pin 5 carries logical address bit 0, so physical address
    // 0x20 reads logical byte 1, served through the reversed data pins.
    let b = set.get_byte(1 << 5, &StmFamily::F4, &hw());
    assert_eq!(b, 1u8.reverse_bits());
}

#[test]
fn multi_rom_set_selects_by_cs_and_serves_idle_when_none_match() {
    let set = RomSet {
        id: 0,
        roms: vec![
            RomInSet { config: rom_config(Some(0)), image: image_counting(), original_index: 0 },
            RomInSet { config: rom_config(Some(0)), image: image_counting(), original_index: 1 },
        ],
    };
    // CS1 (pin 13) low selects the first ROM (active-low wiring).
    let b = set.get_byte(1 << 5, &StmFamily::F4, &hw());
    assert_eq!(b, 1u8.reverse_bits());
    // With CS1 and X1 both high no member answers: the idle pattern comes
    // back, the fixed byte through the data-pin permutation.
    let b = set.get_byte((1 << 13) | (1 << 14), &StmFamily::F4, &hw());
    assert_eq!(b, 0xAAu8.reverse_bits());
}

#[test]
fn config_validation_rules() {
    assert!(config(vec![rom_config(None)]).validate().is_ok());
    assert!(config(vec![]).validate().is_err());
    // A frequency the variant cannot reach is refused.
    let mut c = config(vec![rom_config(None)]);
    c.freq = 500;
    assert!(c.validate().is_err());
    // Mixed set numbering is refused.
    assert!(config(vec![rom_config(Some(0)), rom_config(None)]).validate().is_err());
    // A gap in set numbering is refused.
    assert!(config(vec![rom_config(Some(0)), rom_config(Some(2))]).validate().is_err());
    assert!(config(vec![rom_config(Some(1)), rom_config(Some(0))]).validate().is_ok());
}

#[test]
fn rom_sets_without_numbers_get_one_set_each() {
    let c = config(vec![rom_config(None), rom_config(None)]);
    let images = vec![image_counting(), image_counting()];
    let sets = c.create_rom_sets(&images).unwrap();
    assert_eq!(sets.len(), 2);
    assert_eq!(sets[0].id, 0);
    assert_eq!(sets[1].id, 1);
    assert_eq!(sets[0].roms.len(), 1);
    assert_eq!(sets[1].roms[0].original_index, 1);
}

#[test]
fn rom_sets_group_by_id_in_order() {
    let c = config(vec![rom_config(Some(1)), rom_config(Some(0)), rom_config(Some(1))]);
    let images = vec![image_counting(), image_counting(), image_counting()];
    let sets = c.create_rom_sets(&images).unwrap();
    assert_eq!(sets.len(), 2);
    assert_eq!(sets[0].id, 0);
    assert_eq!(sets[1].id, 1);
    assert_eq!(sets[0].roms.len(), 1);
    assert_eq!(sets[1].roms.len(), 2);
    assert_eq!(sets[1].roms[0].original_index, 0);
    assert_eq!(sets[1].roms[1].original_index, 2);
}

#[test]
fn rom_sets_cap_at_three_members() {
    let c = config(vec![
        rom_config(Some(0)),
        rom_config(Some(0)),
        rom_config(Some(0)),
        rom_config(Some(0)),
    ]);
    let images = vec![image_counting(), image_counting(), image_counting(), image_counting()];
    assert!(c.create_rom_sets(&images).is_err());
}

#[test]
fn masking_strips_select_bits() {
    let set = RomSet {
        id: 0,
        roms: vec![RomInSet { config: rom_config(None), image: image_counting(), original_index: 0 }],
    };
    // CS1 (pin 13) and X1/X2 (14/15) drop out; address bits stay.
    let masked = set.mask_cs_selection_bits(0xE155, &RomType::Rom2364, &hw());
    assert_eq!(masked, 0x0155);
    // For 2332 the CS2 pin (9) drops out too.
    let masked = set.mask_cs_selection_bits(0x0355, &RomType::Rom2332, &hw());
    assert_eq!(masked, 0x0155);
}
