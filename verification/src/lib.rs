//! Decoder and bit-mangling engine for Software Defined Retro ROM (SDRR)
//! firmware images.
//!
//! The library walks a flat byte buffer holding a device's memory image,
//! resolves the pointer-linked structures inside it into typed values, and
//! translates between logical ROM addresses / data bytes and the physical
//! bit patterns the hardware pins carry.

use vstd::prelude::*;

pub mod args;
pub mod bits;
pub mod config;
pub mod decode;
pub mod firmware;
pub mod hardware;
pub mod lookup;
pub mod mangle;
pub mod parser;
pub mod preprocess;
pub mod strutil;
pub mod types;

verus! {

/// Highest firmware major version this decoder understands.
pub const MAX_VERSION_MAJOR: u16 = 0;

/// Highest firmware minor version this decoder understands.
pub const MAX_VERSION_MINOR: u16 = 3;

/// Highest firmware patch version this decoder understands.
pub const MAX_VERSION_PATCH: u16 = 0;

/// Ordered (major, minor, patch) comparison: true when the version on the
/// left is less than or equal to the ceiling on the right.
pub open spec fn spec_version_le(
    major: u16,
    minor: u16,
    patch: u16,
    max_major: u16,
    max_minor: u16,
    max_patch: u16,
) -> bool {
    ||| major < max_major
    ||| (major == max_major && minor < max_minor)
    ||| (major == max_major && minor == max_minor && patch <= max_patch)
}

/// Lexicographic version gate: a version decodes only when it is at or
/// below the ceiling, compared component by component.
pub fn version_le(
    major: u16,
    minor: u16,
    patch: u16,
    max_major: u16,
    max_minor: u16,
    max_patch: u16,
) -> (r: bool)
    ensures
        r == spec_version_le(major, minor, patch, max_major, max_minor, max_patch),
{
    if major != max_major {
        major < max_major
    } else if minor != max_minor {
        minor < max_minor
    } else {
        patch <= max_patch
    }
}

/// Offset from the start of a flat firmware image where the header lies.
pub const SDRR_INFO_OFFSET: usize = 0x200;

/// Flash base address of the target microcontroller family.
pub const STM32F4_FLASH_BASE: u32 = 0x08000000;

} // verus!
