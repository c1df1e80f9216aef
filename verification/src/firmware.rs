//! The decoded in-memory model of an SDRR firmware image: hardware
//! identification enums, the pin configuration record, ROM set and ROM info
//! entries, and the error types of the decoder and the mangling engine.

use vstd::prelude::*;

verus! {

/// Kind of file the firmware image came from.
#[derive(Debug, Clone, Copy, PartialEq, Eq, Structural)]
pub enum FileType {
    Elf,
    Orc,
}

impl FileType {
    /// A short human-readable description of the file kind.
    pub fn description(&self) -> (r: &'static str)
        ensures
            *self == FileType::Elf ==> r@ == "ELF (.elf)"@,
            *self == FileType::Orc ==> r@ == "Binary (.bin)"@,
    {
        match self {
            FileType::Elf => "ELF (.elf)",
            FileType::Orc => "Binary (.bin)",
        }
    }
}

/// Board revision codes stored by older firmware.
#[derive(Debug, Clone, Copy, PartialEq, Eq, Structural)]
pub enum SdrrHwRev {
    NotSet,
    Rev24A,
    Rev24B,
    Rev24C,
    Rev24D,
    Rev24E,
    Rev24F,
    Rev28A,
}

impl SdrrHwRev {
    /// Decodes a 32-bit hardware revision code: the high bits select the
    /// board family, the low bits its revision letter.
    pub fn from_u32(value: u32) -> (r: Option<SdrrHwRev>)
        ensures
            r == SdrrHwRev::spec_from_u32(value),
    {
        if value == 0xFFFFFFFF {
            Some(SdrrHwRev::NotSet)
        } else if value == 0x00 {
            Some(SdrrHwRev::Rev24A)
        } else if value == 0x01 {
            Some(SdrrHwRev::Rev24B)
        } else if value == 0x02 {
            Some(SdrrHwRev::Rev24C)
        } else if value == 0x03 {
            Some(SdrrHwRev::Rev24D)
        } else if value == 0x04 {
            Some(SdrrHwRev::Rev24E)
        } else if value == 0x05 {
            Some(SdrrHwRev::Rev24F)
        } else if value == 0x20 {
            Some(SdrrHwRev::Rev28A)
        } else {
            None
        }
    }

    /// The revision each code stands for; codes outside the table give none.
    pub open spec fn spec_from_u32(value: u32) -> Option<SdrrHwRev> {
        if value == 0xFFFFFFFF {
            Some(SdrrHwRev::NotSet)
        } else if value == 0x00 {
            Some(SdrrHwRev::Rev24A)
        } else if value == 0x01 {
            Some(SdrrHwRev::Rev24B)
        } else if value == 0x02 {
            Some(SdrrHwRev::Rev24C)
        } else if value == 0x03 {
            Some(SdrrHwRev::Rev24D)
        } else if value == 0x04 {
            Some(SdrrHwRev::Rev24E)
        } else if value == 0x05 {
            Some(SdrrHwRev::Rev24F)
        } else if value == 0x20 {
            Some(SdrrHwRev::Rev28A)
        } else {
            None
        }
    }
}

/// Microcontroller product line recorded in the header.
#[derive(Debug, Clone, Copy, PartialEq, Eq, Structural)]
pub enum StmLine {
    F401,
    F405,
    F411,
    F446,
}

impl StmLine {
    pub open spec fn spec_from_u16(value: u16) -> Option<StmLine> {
        if value == 0x0000 {
            Some(StmLine::F401)
        } else if value == 0x0001 {
            Some(StmLine::F405)
        } else if value == 0x0002 {
            Some(StmLine::F411)
        } else if value == 0x0003 {
            Some(StmLine::F446)
        } else {
            None
        }
    }

    /// Decodes the product line code stored in the header.
    pub fn from_u16(value: u16) -> (r: Option<StmLine>)
        ensures
            r == StmLine::spec_from_u16(value),
    {
        match value {
            0x0000 => Some(StmLine::F401),
            0x0001 => Some(StmLine::F405),
            0x0002 => Some(StmLine::F411),
            0x0003 => Some(StmLine::F446),
            _ => None,
        }
    }

    /// RAM size of the line, in kilobytes, as decimal text.
    pub fn ram_kb(&self) -> (r: &'static str)
        ensures
            *self == StmLine::F401 ==> r@ == "96"@,
            *self != StmLine::F401 ==> r@ == "128"@,
    {
        match self {
            StmLine::F401 => "96",
            StmLine::F405 | StmLine::F411 | StmLine::F446 => "128",
        }
    }
}

/// Flash storage class recorded in the header.
#[derive(Debug, Clone, Copy, PartialEq, Eq, Structural)]
pub enum StmStorage {
    Storage8,
    StorageB,
    StorageC,
    StorageD,
    StorageE,
    StorageF,
    StorageG,
}

impl StmStorage {
    pub open spec fn spec_from_u16(value: u16) -> Option<StmStorage> {
        if value == 0 {
            Some(StmStorage::Storage8)
        } else if value == 1 {
            Some(StmStorage::StorageB)
        } else if value == 2 {
            Some(StmStorage::StorageC)
        } else if value == 3 {
            Some(StmStorage::StorageD)
        } else if value == 4 {
            Some(StmStorage::StorageE)
        } else if value == 5 {
            Some(StmStorage::StorageF)
        } else if value == 6 {
            Some(StmStorage::StorageG)
        } else {
            None
        }
    }

    /// Decodes the storage class code stored in the header.
    pub fn from_u16(value: u16) -> (r: Option<StmStorage>)
        ensures
            r == StmStorage::spec_from_u16(value),
    {
        match value {
            0 => Some(StmStorage::Storage8),
            1 => Some(StmStorage::StorageB),
            2 => Some(StmStorage::StorageC),
            3 => Some(StmStorage::StorageD),
            4 => Some(StmStorage::StorageE),
            5 => Some(StmStorage::StorageF),
            6 => Some(StmStorage::StorageG),
            _ => None,
        }
    }

    /// Flash size of the storage class, in kilobytes, as decimal text.
    pub fn kb(&self) -> (r: &'static str)
        ensures
            *self == StmStorage::Storage8 ==> r@ == "64"@,
            *self == StmStorage::StorageB ==> r@ == "128"@,
            *self == StmStorage::StorageC ==> r@ == "256"@,
            *self == StmStorage::StorageD ==> r@ == "384"@,
            *self == StmStorage::StorageE ==> r@ == "512"@,
            *self == StmStorage::StorageF ==> r@ == "768"@,
            *self == StmStorage::StorageG ==> r@ == "1024"@,
    {
        match self {
            StmStorage::Storage8 => "64",
            StmStorage::StorageB => "128",
            StmStorage::StorageC => "256",
            StmStorage::StorageD => "384",
            StmStorage::StorageE => "512",
            StmStorage::StorageF => "768",
            StmStorage::StorageG => "1024",
        }
    }

    /// The letter (or digit) the storage class contributes to the part
    /// number.
    pub fn package_code(&self) -> (r: &'static str)
        ensures
            *self == StmStorage::Storage8 ==> r@ == "8"@,
            *self == StmStorage::StorageB ==> r@ == "B"@,
            *self == StmStorage::StorageC ==> r@ == "C"@,
            *self == StmStorage::StorageD ==> r@ == "D"@,
            *self == StmStorage::StorageE ==> r@ == "E"@,
            *self == StmStorage::StorageF ==> r@ == "F"@,
            *self == StmStorage::StorageG ==> r@ == "G"@,
    {
        match self {
            StmStorage::Storage8 => "8",
            StmStorage::StorageB => "B",
            StmStorage::StorageC => "C",
            StmStorage::StorageD => "D",
            StmStorage::StorageE => "E",
            StmStorage::StorageF => "F",
            StmStorage::StorageG => "G",
        }
    }
}

/// ROM capacity family an emulated image belongs to.
#[derive(Debug, Clone, Copy, PartialEq, Eq, Structural)]
pub enum SdrrRomType {
    Rom2316,
    Rom2332,
    Rom2364,
}

impl SdrrRomType {
    pub open spec fn spec_from_u8(value: u8) -> Option<SdrrRomType> {
        if value == 0 {
            Some(SdrrRomType::Rom2316)
        } else if value == 1 {
            Some(SdrrRomType::Rom2332)
        } else if value == 2 {
            Some(SdrrRomType::Rom2364)
        } else {
            None
        }
    }

    /// Decodes the ROM type byte of a ROM info record.
    pub fn from_u8(value: u8) -> (r: Option<SdrrRomType>)
        ensures
            r == SdrrRomType::spec_from_u8(value),
    {
        match value {
            0 => Some(SdrrRomType::Rom2316),
            1 => Some(SdrrRomType::Rom2332),
            2 => Some(SdrrRomType::Rom2364),
            _ => None,
        }
    }
}

/// Active state of a chip-select line.
#[derive(Debug, Clone, Copy, PartialEq, Eq, Structural)]
pub enum SdrrCsState {
    ActiveLow,
    ActiveHigh,
    NotUsed,
}

impl SdrrCsState {
    pub open spec fn spec_from_u8(value: u8) -> Option<SdrrCsState> {
        if value == 0 {
            Some(SdrrCsState::ActiveLow)
        } else if value == 1 {
            Some(SdrrCsState::ActiveHigh)
        } else if value == 2 {
            Some(SdrrCsState::NotUsed)
        } else {
            None
        }
    }

    /// Decodes a chip-select state byte of a ROM info record.
    pub fn from_u8(value: u8) -> (r: Option<SdrrCsState>)
        ensures
            r == SdrrCsState::spec_from_u8(value),
    {
        match value {
            0 => Some(SdrrCsState::ActiveLow),
            1 => Some(SdrrCsState::ActiveHigh),
            2 => Some(SdrrCsState::NotUsed),
            _ => None,
        }
    }
}

/// Algorithm the firmware uses to serve bytes for a ROM set.
#[derive(Debug, Clone, Copy, PartialEq, Eq, Structural)]
pub enum SdrrServe {
    TwoCsOneAddr,
    AddrOnCs,
    AddrOnAnyCs,
}

impl SdrrServe {
    pub open spec fn spec_from_u8(value: u8) -> Option<SdrrServe> {
        if value == 0 {
            Some(SdrrServe::TwoCsOneAddr)
        } else if value == 1 {
            Some(SdrrServe::AddrOnCs)
        } else if value == 2 {
            Some(SdrrServe::AddrOnAnyCs)
        } else {
            None
        }
    }

    /// Decodes the serving-algorithm byte of a ROM set record.
    pub fn from_u8(value: u8) -> (r: Option<SdrrServe>)
        ensures
            r == SdrrServe::spec_from_u8(value),
    {
        match value {
            0 => Some(SdrrServe::TwoCsOneAddr),
            1 => Some(SdrrServe::AddrOnCs),
            2 => Some(SdrrServe::AddrOnAnyCs),
            _ => None,
        }
    }
}

/// Which physical line carries a chip select.
#[derive(Debug, Clone, Copy, PartialEq, Eq, Structural)]
pub enum SdrrCsPin {
    NoPin,
    Pin18,
    Pin20,
    Pin21,
    PinX1,
    PinX2,
}

impl SdrrCsPin {
    pub open spec fn spec_from_u8(value: u8) -> Option<SdrrCsPin> {
        if value == 0 {
            Some(SdrrCsPin::NoPin)
        } else if value == 1 {
            Some(SdrrCsPin::Pin18)
        } else if value == 2 {
            Some(SdrrCsPin::Pin20)
        } else if value == 3 {
            Some(SdrrCsPin::Pin21)
        } else if value == 4 {
            Some(SdrrCsPin::PinX1)
        } else if value == 5 {
            Some(SdrrCsPin::PinX2)
        } else {
            None
        }
    }

    /// Decodes a chip-select line selector byte.
    pub fn from_u8(value: u8) -> (r: Option<SdrrCsPin>)
        ensures
            r == SdrrCsPin::spec_from_u8(value),
    {
        match value {
            0 => Some(SdrrCsPin::NoPin),
            1 => Some(SdrrCsPin::Pin18),
            2 => Some(SdrrCsPin::Pin20),
            3 => Some(SdrrCsPin::Pin21),
            4 => Some(SdrrCsPin::PinX1),
            5 => Some(SdrrCsPin::PinX2),
            _ => None,
        }
    }
}

/// Microcontroller GPIO port selector.
#[derive(Debug, Clone, Copy, PartialEq, Eq, Structural)]
pub enum SdrrStmPort {
    NoPort,
    PortA,
    PortB,
    PortC,
    PortD,
}

impl SdrrStmPort {
    pub open spec fn spec_from_u8(value: u8) -> Option<SdrrStmPort> {
        if value == 0x00 {
            Some(SdrrStmPort::NoPort)
        } else if value == 0x01 {
            Some(SdrrStmPort::PortA)
        } else if value == 0x02 {
            Some(SdrrStmPort::PortB)
        } else if value == 0x03 {
            Some(SdrrStmPort::PortC)
        } else if value == 0x04 {
            Some(SdrrStmPort::PortD)
        } else {
            None
        }
    }

    /// Decodes a port selector byte of the pin configuration record.
    pub fn from_u8(value: u8) -> (r: Option<SdrrStmPort>)
        ensures
            r == SdrrStmPort::spec_from_u8(value),
    {
        match value {
            0x00 => Some(SdrrStmPort::NoPort),
            0x01 => Some(SdrrStmPort::PortA),
            0x02 => Some(SdrrStmPort::PortB),
            0x03 => Some(SdrrStmPort::PortC),
            0x04 => Some(SdrrStmPort::PortD),
            _ => None,
        }
    }
}

/// The pin configuration record: which physical microcontroller pin carries
/// each logical bus line.  A pin value of 255 means "not present".
#[derive(Debug, Clone)]
pub struct SdrrPins {
    pub data_port: SdrrStmPort,
    pub addr_port: SdrrStmPort,
    pub cs_port: SdrrStmPort,
    pub sel_port: SdrrStmPort,
    pub status_port: SdrrStmPort,
    pub rom_pin_count: u8,
    pub data: [u8; 8],
    pub addr: [u8; 16],
    pub cs1_2364: u8,
    pub cs1_2332: u8,
    pub cs1_2316: u8,
    pub cs2_2332: u8,
    pub cs2_2316: u8,
    pub cs3_2316: u8,
    pub x1: u8,
    pub x2: u8,
    pub ce_23128: u8,
    pub oe_23128: u8,
    pub sel0: u8,
    pub sel1: u8,
    pub sel2: u8,
    pub sel3: u8,
    pub status: u8,
}

/// One emulated ROM within a set.
#[derive(Debug, Clone)]
pub struct SdrrRomInfo {
    pub rom_type: SdrrRomType,
    pub cs1_state: SdrrCsState,
    pub cs2_state: SdrrCsState,
    pub cs3_state: SdrrCsState,
    /// Source filename; present only when the firmware was built with boot
    /// logging, which widens the record from four to eight bytes.
    pub filename: Option<String>,
}

/// One ROM set: the unit the firmware switches between at runtime.
#[derive(Debug, Clone)]
pub struct SdrrRomSet {
    /// The transformed ROM image bytes, copied out of the firmware.
    pub data: Vec<u8>,
    pub size: u32,
    pub roms: Vec<SdrrRomInfo>,
    pub rom_count: u8,
    pub serve: SdrrServe,
    pub multi_rom_cs1_state: SdrrCsState,
}

/// A recoverable decoding failure: the field it struck and why.
#[derive(Debug, Clone)]
pub struct ParseError {
    /// The field or structure that failed to parse, as a path such as
    /// `rom_set[1].roms[2]`.
    pub field: String,
    /// Human-readable description of why parsing failed.
    pub reason: String,
}

impl ParseError {
    /// Create a new parse error.
    pub fn new(field: String, reason: String) -> (r: ParseError)
        ensures
            r.field == field,
            r.reason == reason,
    {
        ParseError { field, reason }
    }
}

/// A fatal decoding failure: the whole decode is refused.
#[derive(Debug, Clone, Copy, PartialEq, Eq, Structural)]
pub enum DecodeError {
    /// The header region is truncated: fewer bytes than the fixed header
    /// needs.
    HeaderTruncated,
    /// The magic bytes at the start of the header are not `SDRR`.
    NotSdrrFirmware,
    /// The header's version is above the decoder's ceiling.
    UnsupportedVersion,
    /// The microcontroller line code in the header is unknown.
    UnknownStmLine,
    /// The storage class code in the header is unknown.
    UnknownStmStorage,
}

impl DecodeError {
    /// A short human-readable description of the failure.
    pub fn description(&self) -> (r: &'static str)
        ensures
            *self == DecodeError::HeaderTruncated ==> r@ == "Firmware data too small"@,
            *self == DecodeError::NotSdrrFirmware ==> r@ == "Invalid magic bytes"@,
            *self == DecodeError::UnsupportedVersion ==> r@ == "Firmware version unsupported"@,
            *self == DecodeError::UnknownStmLine ==> r@ == "Unknown STM line"@,
            *self == DecodeError::UnknownStmStorage ==> r@ == "Unknown STM storage"@,
    {
        match self {
            DecodeError::HeaderTruncated => "Firmware data too small",
            DecodeError::NotSdrrFirmware => "Invalid magic bytes",
            DecodeError::UnsupportedVersion => "Firmware version unsupported",
            DecodeError::UnknownStmLine => "Unknown STM line",
            DecodeError::UnknownStmStorage => "Unknown STM storage",
        }
    }
}

/// A failure of a single mangling operation: misuse rather than corrupt
/// input data, raised synchronously to the caller.
#[derive(Debug, Clone, Copy, PartialEq, Eq, Structural)]
pub enum MangleError {
    /// The requested logical address has a bit outside the ROM type's
    /// address mask.
    AddressOverflow,
    /// An extra-selector pin collides with an address or chip-select pin
    /// already claimed.
    PinConflict,
}

/// The decoded firmware image: self-contained, every variable-length datum
/// copied out of the source buffer at decode time.
#[derive(Debug)]
pub struct SdrrInfo {
    pub file_type: FileType,
    pub file_size: usize,
    pub magic: [u8; 4],
    pub major_version: u16,
    pub minor_version: u16,
    pub patch_version: u16,
    pub build_number: u16,
    /// Build date, resolved from a pointer; absent when the string could
    /// not be read.
    pub build_date: Option<String>,
    pub commit: [u8; 8],
    /// Hardware revision, resolved from a pointer; absent when the string
    /// could not be read.
    pub hw_rev: Option<String>,
    pub stm_line: StmLine,
    pub stm_storage: StmStorage,
    pub freq: u16,
    pub overclock: bool,
    pub swd_enabled: bool,
    pub preload_image_to_ram: bool,
    pub bootloader_capable: bool,
    pub status_led_enabled: bool,
    pub boot_logging_enabled: bool,
    pub mco_enabled: bool,
    pub rom_set_count: u8,
    pub rom_sets: Vec<SdrrRomSet>,
    /// Pin configuration; absent when its record could not be read.
    pub pins: Option<SdrrPins>,
    /// Recoverable failures met while decoding; their presence does not by
    /// itself mean the decode failed.
    pub parse_errors: Vec<ParseError>,
}

impl SdrrInfo {
    /// True when the hardware revision string names the 24-pin board,
    /// revision F.
    pub fn is_hw_rev_f(&self) -> (r: bool)
        ensures
            r == (self.hw_rev is Some && self.hw_rev->0@ == "24-f"@),
    {
        match &self.hw_rev {
            Some(s) => crate::strutil::str_eq(s.as_str(), "24-f"),
            None => false,
        }
    }

    /// The transformed image bytes of ROM set `set`, when there is one.
    pub fn get_rom_set_image(&self, set: u8) -> (r: Option<&Vec<u8>>)
        ensures
            (set as int) < self.rom_sets@.len() ==> r == Some(&self.rom_sets@[set as int].data),
            (set as int) >= self.rom_sets@.len() ==> r is None,
    {
        if (set as usize) < self.rom_sets.len() {
            Some(&self.rom_sets[set as usize].data)
        } else {
            None
        }
    }
}

} // verus!
