//! Byte lookups against a decoded firmware image: the compute side of the
//! inspection queries, answering what the hardware would serve.

use crate::firmware::SdrrInfo;
use crate::mangle::byte_demangle_post;
use crate::mangle::data_pins_wf;
use vstd::prelude::*;
use vstd::string::StringExecFns;

verus! {

/// The byte a ROM set's stored image holds at a raw (mangled) address,
/// demangled into the logical byte unless the raw value is asked for.
/// Fails exactly when the image has no such set.
pub fn lookup_byte(info: &SdrrInfo, set: u8, lookup_addr: u32, output_mangled: bool) -> (r: Result<
    u8,
    String,
>)
    requires
        (set as int) < info.rom_sets@.len() ==> (lookup_addr as int)
            < info.rom_sets@[set as int].data@.len(),
        !output_mangled ==> info.pins is Some && data_pins_wf(info.pins->0.data@),
    ensures
        r is Err <==> (set as int) >= info.rom_sets@.len(),
        r matches Ok(b) ==> (if output_mangled {
            b == info.rom_sets@[set as int].data@[lookup_addr as int]
        } else {
            byte_demangle_post(
                info.pins->0.data@,
                info.rom_sets@[set as int].data@[lookup_addr as int],
                b,
            )
        }),
{
    let image = match info.get_rom_set_image(set) {
        Some(image) => image,
        None => {
            let mut msg = String::from_str("No ROM set found for set number ");
            crate::strutil::append_decimal(&mut msg, set as u32);
            return Err(msg);
        },
    };
    let byte = image[lookup_addr as usize];
    if output_mangled {
        Ok(byte)
    } else {
        Ok(info.demangle_byte(byte))
    }
}

} // verus!
