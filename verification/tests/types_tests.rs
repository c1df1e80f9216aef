//! Tests for the catalogue types, the PLL computation, argument parsing
//! and ROM image preprocessing.

use sdrr::args::parse_args;
use sdrr::args::parse_cs_line;
use sdrr::args::parse_hex;
use sdrr::args::parse_range;
use sdrr::args::parse_serve_alg;
use sdrr::args::parse_stm_variant;
use sdrr::args::Command;
use sdrr::config::CsConfig;
use sdrr::config::SizeHandling;
use sdrr::preprocess::RomImage;
use sdrr::strutil::u32_decimal;
use sdrr::types::CsLogic;
use sdrr::types::RomType;
use sdrr::types::ServeAlg;
use sdrr::types::StmFamily;
use sdrr::types::StmProcessor;
use sdrr::types::StmVariant;
use sdrr::version_le;

#[test]
fn rom_type_names_and_sizes() {
    assert_eq!(RomType::try_from_str("2364"), Some(RomType::Rom2364));
    assert_eq!(RomType::try_from_str("23128"), Some(RomType::Rom23128));
    assert_eq!(RomType::try_from_str("9999"), None);
    assert_eq!(RomType::Rom2316.size_bytes(), 2048);
    assert_eq!(RomType::Rom2364.num_addr_lines(), 13);
    assert_eq!(RomType::Rom2332.cs_lines_count(), 2);
    assert_eq!(RomType::Rom2364.name(), "2364");
    assert_eq!(RomType::Rom2316.c_enum(), "ROM_TYPE_2316");
}

#[test]
fn stm_family_parse_folds_case() {
    assert_eq!(StmFamily::try_from_str("F4"), Some(StmFamily::F4));
    assert_eq!(StmFamily::try_from_str("f4"), Some(StmFamily::F4));
    assert_eq!(StmFamily::try_from_str("f1"), None);
}

#[test]
fn variant_tables() {
    assert_eq!(StmVariant::try_from_str("F405RG"), Some(StmVariant::F405RG));
    assert_eq!(StmVariant::F405RG.flash_storage_kb(), 1024);
    assert_eq!(StmVariant::F401RB.ram_kb(), 64);
    assert!(!StmVariant::F401RB.supports_multi_rom_sets());
    assert!(StmVariant::F446RE.supports_banked_roms());
    assert_eq!(StmVariant::F446RC.chip_id(), "STM32F446RCTx");
    assert_eq!(StmVariant::F411RE.makefile_var(), "stm32f411re");
    assert_eq!(StmVariant::F401RE.line_enum(), "F401DE");
    assert_eq!(StmVariant::F405RG.ccm_ram_kb(), Some(64));
    assert_eq!(StmVariant::F446RE.ccm_ram_kb(), None);
}

#[test]
fn size_defines_render_numbers() {
    assert_eq!(
        StmVariant::F446RC.define_flash_size_bytes(),
        "#define STM_FLASH_SIZE 262144"
    );
    assert_eq!(StmVariant::F446RC.define_flash_size_kb(), "#define STM_FLASH_SIZE_KB 256");
    assert_eq!(StmVariant::F401RE.define_ram_size_bytes(), "#define STM_RAM_SIZE 98304");
    assert_eq!(StmVariant::F401RE.define_ram_size_kb(), "#define STM_RAM_SIZE_KB 96");
}

#[test]
fn decimal_rendering() {
    assert_eq!(u32_decimal(0), "0");
    assert_eq!(u32_decimal(7), "7");
    assert_eq!(u32_decimal(10), "10");
    assert_eq!(u32_decimal(4294967295), "4294967295");
}

#[test]
fn pll_exact_values() {
    // 180 MHz on an F446: divisor 2 gives a 360 MHz VCO, PLLN 180, and a
    // USB divisor of round(360/48) = 8.
    assert_eq!(StmProcessor::F446.calculate_pll_hsi(180, false), Some((8, 180, 2, 8)));
    // 84 MHz on an F401: divisor 4 puts the VCO at 336 MHz in the
    // 192..432 window; divisor 2 would leave it at 168, too low.
    assert_eq!(StmProcessor::F401BC.calculate_pll_hsi(84, false), Some((8, 168, 4, 7)));
    // Above the rated ceiling without overclocking: refused.
    assert_eq!(StmProcessor::F411.calculate_pll_hsi(150, false), None);
    assert!(StmProcessor::F446.is_frequency_valid(180, false));
    assert!(!StmProcessor::F411.is_frequency_valid(150, false));
}

#[test]
fn pll_defines_render() {
    let text = StmProcessor::F446.generate_pll_defines(180, false).unwrap();
    assert!(text.contains("#define PLL_N    180"));
    assert!(text.contains("#define PLL_P    0b00  // div 2"));
    assert!(text.contains("SYSCLK=180MHz"));
    assert!(StmProcessor::F411.generate_pll_defines(150, false).is_none());
}

#[test]
fn serve_alg_and_cs_logic_parse() {
    assert_eq!(ServeAlg::try_from_str("DEFAULT"), Some(ServeAlg::Default));
    assert_eq!(ServeAlg::try_from_str("a"), Some(ServeAlg::TwoCsOneAddr));
    assert_eq!(ServeAlg::try_from_str("two_cs_one_addr"), Some(ServeAlg::TwoCsOneAddr));
    assert_eq!(ServeAlg::try_from_str("b"), Some(ServeAlg::AddrOnCs));
    assert_eq!(ServeAlg::try_from_str("c"), None);
    assert_eq!(ServeAlg::Default.c_value(), "SERVE_ADDR_ON_CS");
    assert_eq!(ServeAlg::TwoCsOneAddr.c_value(), "SERVE_TWO_CS_ONE_ADDR");
    assert_eq!(ServeAlg::Default.c_value_multi_rom_set(), "SERVE_ADDR_ON_ANY_CS");
    assert_eq!(CsLogic::try_from_str("0"), Some(CsLogic::ActiveLow));
    assert_eq!(CsLogic::try_from_str("1"), Some(CsLogic::ActiveHigh));
    assert_eq!(CsLogic::try_from_str("IGNORE"), Some(CsLogic::Ignore));
    assert_eq!(CsLogic::try_from_str("2"), None);
}

#[test]
fn version_gate_comparison() {
    assert!(version_le(0, 3, 0, 0, 3, 0));
    assert!(!version_le(0, 3, 1, 0, 3, 0));
    assert!(version_le(0, 2, 9, 0, 3, 0));
    assert!(!version_le(1, 0, 0, 0, 3, 0));
    assert!(version_le(0, 1, 1, 0, 3, 0));
}

#[test]
fn hex_parsing() {
    assert_eq!(parse_hex("0x1000"), Ok(0x1000));
    assert_eq!(parse_hex("$1FFF"), Ok(0x1FFF));
    assert_eq!(parse_hex("abCD"), Ok(0xABCD));
    assert_eq!(parse_hex("+10"), Ok(0x10));
    assert_eq!(parse_hex("FFFFFFFF"), Ok(0xFFFFFFFF));
    assert!(parse_hex("100000000").is_err());
    assert!(parse_hex("0x").is_err());
    assert!(parse_hex("12G4").is_err());
    assert!(parse_hex("").is_err());
}

#[test]
fn range_parsing() {
    assert_eq!(parse_range("1000-1FFF"), Ok((0x1000, 0x1FFF)));
    assert!(parse_range("1FFF-1000").is_err());
    assert!(parse_range("1000").is_err());
    assert!(parse_range("1-2-3").is_err());
}

#[test]
fn cs_line_parsing() {
    assert_eq!(parse_cs_line("0"), Ok(0));
    assert_eq!(parse_cs_line("1"), Ok(1));
    assert!(parse_cs_line("2").is_err());
}

#[test]
fn variant_and_alg_argument_errors() {
    assert!(parse_stm_variant("f446re").is_ok());
    assert!(parse_stm_variant("f7").is_err());
    assert!(parse_serve_alg("default").is_ok());
    assert!(parse_serve_alg("z").is_err());
}

#[test]
fn args_validation() {
    let ok = parse_args(
        Command::Lookup,
        "fw.bin".to_string(),
        0,
        Some(0x1000),
        None,
        0,
        None,
        None,
        None,
        None,
        false,
        false,
    );
    assert!(ok.is_ok());
    let a = ok.unwrap();
    assert_eq!(a.addr, Some(0x1000));
    assert_eq!(a.cs1, Some(false));
    // both address and range
    assert!(parse_args(
        Command::Lookup,
        "fw.bin".to_string(),
        0,
        Some(1),
        Some((1, 2)),
        0,
        None,
        None,
        None,
        None,
        false,
        false
    )
    .is_err());
    // neither
    assert!(parse_args(
        Command::Lookup,
        "fw.bin".to_string(),
        0,
        None,
        None,
        0,
        None,
        None,
        None,
        None,
        false,
        false
    )
    .is_err());
    // bad extension
    assert!(parse_args(
        Command::Info,
        "fw.hex".to_string(),
        0,
        None,
        None,
        0,
        None,
        None,
        None,
        None,
        false,
        false
    )
    .is_err());
    // upper-case extension accepted
    assert!(parse_args(
        Command::Info,
        "FW.ELF".to_string(),
        0,
        None,
        None,
        0,
        None,
        None,
        None,
        None,
        false,
        false
    )
    .is_ok());
    // address above the sixteen-bit space
    assert!(parse_args(
        Command::Lookup,
        "fw.bin".to_string(),
        0,
        Some(0x10000),
        None,
        0,
        None,
        None,
        None,
        None,
        false,
        false
    )
    .is_err());
}

#[test]
fn cs_config_validation() {
    assert!(CsConfig::new(CsLogic::ActiveLow, None, None).validate(&RomType::Rom2364).is_ok());
    assert!(CsConfig::new(CsLogic::Ignore, None, None).validate(&RomType::Rom2364).is_err());
    assert!(CsConfig::new(CsLogic::ActiveLow, Some(CsLogic::Ignore), None)
        .validate(&RomType::Rom2364)
        .is_err());
    assert!(CsConfig::new(CsLogic::ActiveLow, Some(CsLogic::ActiveHigh), None)
        .validate(&RomType::Rom2332)
        .is_ok());
    assert!(CsConfig::new(CsLogic::ActiveLow, None, None).validate(&RomType::Rom2332).is_err());
    assert!(CsConfig::new(
        CsLogic::ActiveLow,
        Some(CsLogic::ActiveHigh),
        Some(CsLogic::Ignore)
    )
    .validate(&RomType::Rom2316)
    .is_ok());
}

#[test]
fn rom_image_sizing() {
    // Exact size passes untouched.
    let data = vec![1u8; 2048];
    let img = RomImage::from_data(data, &RomType::Rom2316, &SizeHandling::Nothing).unwrap();
    assert_eq!(img.data.len(), 2048);
    // dup on an exact-size file is refused.
    assert!(
        RomImage::from_data(vec![1u8; 2048], &RomType::Rom2316, &SizeHandling::Duplicate)
            .is_err()
    );
    // A half-size file duplicates.
    let mut half = vec![0u8; 1024];
    half[0] = 0x5A;
    let img = RomImage::from_data(half, &RomType::Rom2316, &SizeHandling::Duplicate).unwrap();
    assert_eq!(img.data.len(), 2048);
    assert_eq!(img.data[0], 0x5A);
    assert_eq!(img.data[1024], 0x5A);
    // A non-divisor length cannot duplicate.
    assert!(
        RomImage::from_data(vec![0u8; 1000], &RomType::Rom2316, &SizeHandling::Duplicate)
            .is_err()
    );
    // Padding fills with the idle byte.
    let img =
        RomImage::from_data(vec![9u8; 1000], &RomType::Rom2316, &SizeHandling::Pad).unwrap();
    assert_eq!(img.data.len(), 2048);
    assert_eq!(img.data[999], 9);
    assert_eq!(img.data[1000], 0xAA);
    // An oversized file is refused.
    assert!(
        RomImage::from_data(vec![0u8; 4096], &RomType::Rom2316, &SizeHandling::Nothing).is_err()
    );
    // An undersized file with no handling is refused.
    assert!(
        RomImage::from_data(vec![0u8; 1024], &RomType::Rom2316, &SizeHandling::Nothing).is_err()
    );
}

#[test]
fn transform_byte_and_addresses() {
    assert_eq!(RomImage::transform_byte(0x01, &StmFamily::F4), 0x80);
    assert_eq!(RomImage::transform_byte(0xF0, &StmFamily::F4), 0x0F);
    // F4 2364 table: physical pin 5 carries logical bit 0.
    assert_eq!(RomImage::transform_address_f4(1 << 5, &RomType::Rom2364), 1);
    // Pin 10 carries CS1 for 2364 and no address bit.
    assert_eq!(RomImage::transform_address_f4(1 << 10, &RomType::Rom2364), 0);
    // The older family: address bit 1 moves to pin 7.
    assert_eq!(RomImage::transform_address_f1(1 << 1), 1 << 7);
    assert_eq!(RomImage::transform_address_f1(1), 1);
}
