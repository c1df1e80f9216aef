//! Tests for the decoded model's code tables and descriptions.

use sdrr::firmware::DecodeError;
use sdrr::firmware::FileType;
use sdrr::firmware::SdrrCsPin;
use sdrr::firmware::SdrrCsState;
use sdrr::firmware::SdrrHwRev;
use sdrr::firmware::SdrrRomType;
use sdrr::firmware::SdrrServe;
use sdrr::firmware::SdrrStmPort;
use sdrr::firmware::StmLine;
use sdrr::firmware::StmStorage;

#[test]
fn hw_rev_codes() {
    assert_eq!(SdrrHwRev::from_u32(0xFFFFFFFF), Some(SdrrHwRev::NotSet));
    assert_eq!(SdrrHwRev::from_u32(0x03), Some(SdrrHwRev::Rev24D));
    assert_eq!(SdrrHwRev::from_u32(0x05), Some(SdrrHwRev::Rev24F));
    assert_eq!(SdrrHwRev::from_u32(0x20), Some(SdrrHwRev::Rev28A));
    assert_eq!(SdrrHwRev::from_u32(0x06), None);
}

#[test]
fn line_and_storage_codes() {
    assert_eq!(StmLine::from_u16(0), Some(StmLine::F401));
    assert_eq!(StmLine::from_u16(3), Some(StmLine::F446));
    assert_eq!(StmLine::from_u16(4), None);
    assert_eq!(StmLine::F401.ram_kb(), "96");
    assert_eq!(StmLine::F446.ram_kb(), "128");
    assert_eq!(StmStorage::from_u16(6), Some(StmStorage::StorageG));
    assert_eq!(StmStorage::from_u16(7), None);
    assert_eq!(StmStorage::StorageC.kb(), "256");
    assert_eq!(StmStorage::StorageC.package_code(), "C");
}

#[test]
fn record_byte_codes() {
    assert_eq!(SdrrRomType::from_u8(0), Some(SdrrRomType::Rom2316));
    assert_eq!(SdrrRomType::from_u8(2), Some(SdrrRomType::Rom2364));
    assert_eq!(SdrrRomType::from_u8(3), None);
    assert_eq!(SdrrCsState::from_u8(0), Some(SdrrCsState::ActiveLow));
    assert_eq!(SdrrCsState::from_u8(2), Some(SdrrCsState::NotUsed));
    assert_eq!(SdrrCsState::from_u8(3), None);
    assert_eq!(SdrrServe::from_u8(1), Some(SdrrServe::AddrOnCs));
    assert_eq!(SdrrServe::from_u8(3), None);
    assert_eq!(SdrrCsPin::from_u8(2), Some(SdrrCsPin::Pin20));
    assert_eq!(SdrrCsPin::from_u8(6), None);
    assert_eq!(SdrrStmPort::from_u8(0), Some(SdrrStmPort::NoPort));
    assert_eq!(SdrrStmPort::from_u8(1), Some(SdrrStmPort::PortA));
    assert_eq!(SdrrStmPort::from_u8(5), None);
}

#[test]
fn descriptions() {
    assert_eq!(FileType::Elf.description(), "ELF (.elf)");
    assert_eq!(FileType::Orc.description(), "Binary (.bin)");
    assert_eq!(DecodeError::NotSdrrFirmware.description(), "Invalid magic bytes");
    assert_eq!(
        DecodeError::UnsupportedVersion.description(),
        "Firmware version unsupported"
    );
}
