//! The byte-source abstraction of the firmware parser: a window of
//! absolute addresses can be read into a buffer, whether the bytes come
//! from a file in memory, a relocated image, or a live debug probe.

use vstd::prelude::*;

verus! {

/// A source of firmware bytes addressed in the target's memory map.
/// Implementations live with the caller: an in-memory buffer, a mapped
/// file, or a probe connection.  Nothing is assumed of the bytes a read
/// returns beyond their number; a decode must hold for whatever came back.
pub trait Reader {
    /// The error type of the underlying read operation.
    type Error;

    /// Reads `len` bytes starting at the absolute address `addr`.  An
    /// out-of-bounds request is a recoverable error, not a crash.
    fn read(&mut self, addr: u32, len: usize) -> (r: Result<Vec<u8>, Self::Error>)
        ensures
            r matches Ok(v) ==> v@.len() == len,
    ;
}

/// A firmware parser bound to a byte source and a base address.
pub struct Parser<R: Reader> {
    pub reader: R,
    pub base_address: u32,
}

impl<R: Reader> Parser<R> {
    /// Creates a parser with the default flash base address of the target
    /// microcontroller family.
    pub fn new(reader: R) -> (r: Parser<R>)
        ensures
            r.base_address == crate::STM32F4_FLASH_BASE,
    {
        Parser { reader, base_address: crate::STM32F4_FLASH_BASE }
    }

    /// Creates a parser with a custom base address, for non-standard
    /// memory maps or relocated images.
    pub fn with_base_address(reader: R, base_address: u32) -> (r: Parser<R>)
        ensures
            r.base_address == base_address,
    {
        Parser { reader, base_address }
    }
}

} // verus!
