//! The pin-permutation engine: translates between logical ROM addresses /
//! data bytes and the physical bit patterns on the hardware pins.
//!
//! A 16-slot table maps each physical pin to the logical address bit it
//! carries.  The table is built from the pin configuration's address-pin
//! list, then the ROM type's chip-select lines are overlaid on fixed
//! high-order slots (chosen by the ROM family's internal addressing
//! convention), and, for sets holding more than one ROM, the two extra
//! selector lines on slots fourteen and fifteen.

use crate::bits::bit32;
use crate::bits::bit8;
use crate::bits::lemma_bit32_and;
use crate::bits::lemma_bit32_in_mask;
use crate::bits::lemma_bit32_low_mask;
use crate::bits::lemma_bit32_or_keeps_u16;
use crate::bits::lemma_bit32_or_one;
use crate::bits::lemma_bit32_test;
use crate::bits::lemma_bit8_or_one;
use crate::bits::lemma_bit8_test;
use crate::bits::lemma_u32_eq_from_low16;
use crate::bits::lemma_u8_eq_from_bits;
use crate::firmware::MangleError;
use crate::firmware::SdrrInfo;
use crate::firmware::SdrrPins;
use crate::firmware::SdrrRomType;
use vstd::prelude::*;

verus! {

/// Number of address lines of a ROM type.
pub open spec fn addr_lines(rt: SdrrRomType) -> u32 {
    match rt {
        SdrrRomType::Rom2316 => 11,
        SdrrRomType::Rom2332 => 12,
        SdrrRomType::Rom2364 => 13,
    }
}

/// The address mask of a ROM type: the representable logical addresses.
pub open spec fn spec_addr_mask(rt: SdrrRomType) -> u32 {
    match rt {
        SdrrRomType::Rom2316 => 0x7FF,
        SdrrRomType::Rom2332 => 0xFFF,
        SdrrRomType::Rom2364 => 0x1FFF,
    }
}

/// The address mask is the low mask of the type's line count.
pub proof fn lemma_addr_mask_is_low(rt: SdrrRomType)
    ensures
        spec_addr_mask(rt) == ((1u32 << addr_lines(rt)) - 1) as u32,
        spec_addr_mask(rt) < 0x10000,
{
    assert(((1u32 << 11) - 1) as u32 == 0x7FF) by (bit_vector);
    assert(((1u32 << 12) - 1) as u32 == 0xFFF) by (bit_vector);
    assert(((1u32 << 13) - 1) as u32 == 0x1FFF) by (bit_vector);
}

/// Number of address lines of a ROM type.
pub fn addr_lines_exec(rt: SdrrRomType) -> (r: usize)
    ensures
        r == addr_lines(rt),
{
    match rt {
        SdrrRomType::Rom2316 => 11,
        SdrrRomType::Rom2332 => 12,
        SdrrRomType::Rom2364 => 13,
    }
}

/// The address mask of a ROM type.
pub fn addr_mask(rt: SdrrRomType) -> (r: u32)
    ensures
        r == spec_addr_mask(rt),
{
    match rt {
        SdrrRomType::Rom2316 => 0x7FF,
        SdrrRomType::Rom2332 => 0xFFF,
        SdrrRomType::Rom2364 => 0x1FFF,
    }
}

/// The logical address bit carried on pin `p` according to the first `n`
/// entries of the address-pin list; a later entry wins over an earlier one.
pub open spec fn addr_slot_upto(addr: Seq<u8>, n: int, p: int) -> Option<u8>
    decreases n,
{
    if n <= 0 {
        None
    } else if addr[n - 1] == p {
        Some((n - 1) as u8)
    } else {
        addr_slot_upto(addr, n - 1, p)
    }
}

/// An address slot is below the number of entries considered.
pub proof fn lemma_addr_slot_upto_bound(addr: Seq<u8>, n: int, p: int)
    requires
        addr_slot_upto(addr, n, p) is Some,
    ensures
        addr_slot_upto(addr, n, p)->0 < n,
    decreases n,
{
    if n <= 0 {
    } else if addr[n - 1] == p {
    } else {
        lemma_addr_slot_upto_bound(addr, n - 1, p);
    }
}

/// The chip-select slot overlaid on pin `p` for a ROM type: CS1 on slot 13
/// for every type; CS2 on slot 12 for 2332; CS2 on slot 11 and CS3 on slot
/// 12 for 2316.  A select written later wins over one written earlier.
pub open spec fn cs_slot(pins: &SdrrPins, rt: SdrrRomType, p: int) -> Option<u8> {
    match rt {
        SdrrRomType::Rom2364 => if p == pins.cs1_2364 {
            Some(13u8)
        } else {
            None
        },
        SdrrRomType::Rom2332 => if p == pins.cs2_2332 {
            Some(12u8)
        } else if p == pins.cs1_2332 {
            Some(13u8)
        } else {
            None
        },
        SdrrRomType::Rom2316 => if p == pins.cs3_2316 {
            Some(12u8)
        } else if p == pins.cs2_2316 {
            Some(11u8)
        } else if p == pins.cs1_2316 {
            Some(13u8)
        } else {
            None
        },
    }
}

/// The slot of pin `p` before the extra selector lines are overlaid.
pub open spec fn base_slot(pins: &SdrrPins, rt: SdrrRomType, p: int) -> Option<u8> {
    if cs_slot(pins, rt, p) is Some {
        cs_slot(pins, rt, p)
    } else {
        addr_slot_upto(pins.addr@, addr_lines(rt) as int, p)
    }
}

/// The slot of pin `p` in the finished table.
pub open spec fn pin_slot(pins: &SdrrPins, rt: SdrrRomType, multi: bool, p: int) -> Option<u8> {
    if multi && p == pins.x2 {
        Some(15u8)
    } else if multi && p == pins.x1 {
        Some(14u8)
    } else {
        base_slot(pins, rt, p)
    }
}

/// The extra selector lines collide with an address or chip-select pin
/// already claimed, or with each other.
pub open spec fn x_pin_conflict(pins: &SdrrPins, rt: SdrrRomType, multi: bool) -> bool {
    multi && (base_slot(pins, rt, pins.x1 as int) is Some || pins.x2 == pins.x1 || base_slot(
        pins,
        rt,
        pins.x2 as int,
    ) is Some)
}

/// The pins the mangler reads are physical pin numbers below sixteen.
pub open spec fn mangle_pins_wf(pins: &SdrrPins, rt: SdrrRomType, multi: bool) -> bool {
    &&& forall|i: int| 0 <= i < addr_lines(rt) ==> pins.addr@[i] < 16
    &&& match rt {
        SdrrRomType::Rom2364 => pins.cs1_2364 < 16,
        SdrrRomType::Rom2332 => pins.cs1_2332 < 16 && pins.cs2_2332 < 16,
        SdrrRomType::Rom2316 => pins.cs1_2316 < 16 && pins.cs2_2316 < 16 && pins.cs3_2316 < 16,
    }
    &&& multi ==> pins.x1 < 16 && pins.x2 < 16
}

/// Every pin slot of a well-formed configuration is below sixteen.
pub proof fn lemma_pin_slot_bound(pins: &SdrrPins, rt: SdrrRomType, multi: bool, p: int)
    requires
        pin_slot(pins, rt, multi, p) is Some,
    ensures
        pin_slot(pins, rt, multi, p)->0 < 16,
{
    if !(multi && p == pins.x2) && !(multi && p == pins.x1) && cs_slot(pins, rt, p) is None {
        lemma_addr_slot_upto_bound(pins.addr@, addr_lines(rt) as int, p);
    }
}

/// Bit `i` of the composed logical value the mangler scatters: the masked
/// address with each control line's bit set per its supplied state.
pub open spec fn input_bit(
    rt: SdrrRomType,
    multi: bool,
    addr: u32,
    cs1: bool,
    cs2: Option<bool>,
    cs3: Option<bool>,
    x1: Option<bool>,
    x2: Option<bool>,
    i: u32,
) -> bool {
    if i < addr_lines(rt) {
        bit32(addr, i)
    } else if i == 13 {
        cs1
    } else if i == 12 {
        (rt == SdrrRomType::Rom2332 && cs2 == Some(true)) || (rt == SdrrRomType::Rom2316 && cs3
            == Some(true))
    } else if i == 11 {
        rt == SdrrRomType::Rom2316 && cs2 == Some(true)
    } else if i == 14 {
        multi && x1 == Some(true)
    } else if i == 15 {
        multi && x2 == Some(true)
    } else {
        false
    }
}

/// What a successful mangling returns: a sixteen-bit pattern whose bit at
/// each physical pin is the composed logical value's bit at that pin's
/// slot; pins without a slot stay at zero.
pub open spec fn mangle_post(
    pins: &SdrrPins,
    rt: SdrrRomType,
    multi: bool,
    addr: u32,
    cs1: bool,
    cs2: Option<bool>,
    cs3: Option<bool>,
    x1: Option<bool>,
    x2: Option<bool>,
    r: u32,
) -> bool {
    &&& r < 0x10000
    &&& forall|p: u32|
        p < 16 ==> bit32(r, p) == (pin_slot(pins, rt, multi, p as int) is Some && input_bit(
            rt,
            multi,
            addr,
            cs1,
            cs2,
            cs3,
            x1,
            x2,
            pin_slot(pins, rt, multi, p as int)->0 as u32,
        ))
}

/// Translates a logical ROM address and the states of up to five control
/// lines into the physical bit pattern the hardware's address port carries.
///
/// Fails with `PinConflict` when the extra selector lines collide with a
/// claimed pin, and with `AddressOverflow` when the address has a bit
/// outside the ROM type's mask; it never truncates.
pub fn mangle_address_with(
    pins: &SdrrPins,
    rt: SdrrRomType,
    multi: bool,
    addr: u32,
    cs1: bool,
    cs2: Option<bool>,
    cs3: Option<bool>,
    x1: Option<bool>,
    x2: Option<bool>,
) -> (r: Result<u32, MangleError>)
    requires
        mangle_pins_wf(pins, rt, multi),
    ensures
        (r == Err::<u32, MangleError>(MangleError::PinConflict)) == x_pin_conflict(
            pins,
            rt,
            multi,
        ),
        !x_pin_conflict(pins, rt, multi) ==> ((r == Err::<u32, MangleError>(
            MangleError::AddressOverflow,
        )) == (addr & !spec_addr_mask(rt) != 0)),
        r matches Ok(v) ==> addr & !spec_addr_mask(rt) == 0 && mangle_post(
            pins,
            rt,
            multi,
            addr,
            cs1,
            cs2,
            cs3,
            x1,
            x2,
            v,
        ),
{
    let lines = addr_lines_exec(rt);

    // Step 1: address bit i lives on physical pin addr[i].
    let mut table: [Option<u8>; 16] = [
        None,
        None,
        None,
        None,
        None,
        None,
        None,
        None,
        None,
        None,
        None,
        None,
        None,
        None,
        None,
        None,
    ];
    let mut i: usize = 0;
    while i < lines
        invariant
            i <= lines,
            lines == addr_lines(rt),
            mangle_pins_wf(pins, rt, multi),
            table@.len() == 16,
            forall|p: int| 0 <= p < 16 ==> table@[p] == addr_slot_upto(pins.addr@, i as int, p),
        decreases lines - i,
    {
        let pin = pins.addr[i];
        table[pin as usize] = Some(i as u8);
        i = i + 1;
    }

    // Step 2: overlay the chip-select lines on their fixed slots.
    match rt {
        SdrrRomType::Rom2364 => {
            table[pins.cs1_2364 as usize] = Some(13);
        },
        SdrrRomType::Rom2332 => {
            table[pins.cs1_2332 as usize] = Some(13);
            table[pins.cs2_2332 as usize] = Some(12);
        },
        SdrrRomType::Rom2316 => {
            table[pins.cs1_2316 as usize] = Some(13);
            table[pins.cs2_2316 as usize] = Some(11);
            table[pins.cs3_2316 as usize] = Some(12);
        },
    }
    assert(forall|p: int| 0 <= p < 16 ==> table@[p] == base_slot(pins, rt, p));

    // Step 3: with more than one ROM in the set, overlay the extra selector
    // lines; a collision is a configuration error, not a data error.
    if multi {
        if table[pins.x1 as usize].is_some() {
            return Err(MangleError::PinConflict);
        }
        table[pins.x1 as usize] = Some(14);
        if table[pins.x2 as usize].is_some() {
            return Err(MangleError::PinConflict);
        }
        table[pins.x2 as usize] = Some(15);
    }
    assert(!x_pin_conflict(pins, rt, multi));
    assert(forall|p: int| 0 <= p < 16 ==> table@[p] == pin_slot(pins, rt, multi, p));

    // Step 4: an address bit outside the mask is not representable.
    let mask = addr_mask(rt);
    if addr & !mask != 0 {
        return Err(MangleError::AddressOverflow);
    }

    // Step 5: compose the masked logical value with the control-line bits.
    let a1 = addr & mask;
    let a2 = if cs1 {
        a1 | (1u32 << 13)
    } else {
        a1
    };
    let a3 = match rt {
        SdrrRomType::Rom2364 => a2,
        SdrrRomType::Rom2332 => if matches!(cs2, Some(true)) {
            a2 | (1u32 << 12)
        } else {
            a2
        },
        SdrrRomType::Rom2316 => if matches!(cs2, Some(true)) {
            a2 | (1u32 << 11)
        } else {
            a2
        },
    };
    let a4 = if matches!(rt, SdrrRomType::Rom2316) && matches!(cs3, Some(true)) {
        a3 | (1u32 << 12)
    } else {
        a3
    };
    let a5 = if multi && matches!(x1, Some(true)) {
        a4 | (1u32 << 14)
    } else {
        a4
    };
    let input = if multi && matches!(x2, Some(true)) {
        a5 | (1u32 << 15)
    } else {
        a5
    };

    proof {
        lemma_addr_mask_is_low(rt);
        assert forall|q: u32| q < 32 implies bit32(input, q) == input_bit(
            rt,
            multi,
            addr,
            cs1,
            cs2,
            cs3,
            x1,
            x2,
            q,
        ) by {
            lemma_bit32_and(addr, mask, q);
            lemma_bit32_low_mask(addr_lines(rt), q);
            lemma_bit32_or_one(a1, 13, q);
            lemma_bit32_or_one(a2, 12, q);
            lemma_bit32_or_one(a2, 11, q);
            lemma_bit32_or_one(a3, 12, q);
            lemma_bit32_or_one(a4, 14, q);
            lemma_bit32_or_one(a5, 15, q);
            lemma_bit32_in_mask(addr, mask, q);
        }
    }

    // Step 6: scatter every set logical bit out to its physical pin.
    let mut result: u32 = 0;
    let mut p: usize = 0;
    proof {
        assert forall|q: u32| q < 16 implies !bit32(0u32, q) by {
            crate::bits::lemma_bit32_zero(q);
        }
        assert forall|t: int| 0 <= t < 16 && table@[t] is Some implies table@[t]->0 < 16 by {
            lemma_pin_slot_bound(pins, rt, multi, t);
        }
    }
    while p < 16
        invariant
            p <= 16,
            result < 0x10000,
            table@.len() == 16,
            forall|t: int| 0 <= t < 16 ==> table@[t] == pin_slot(pins, rt, multi, t),
            forall|t: int| 0 <= t < 16 && table@[t] is Some ==> table@[t]->0 < 16,
            forall|q: u32| q < 32 ==> bit32(input, q) == input_bit(
                rt, multi, addr, cs1, cs2, cs3, x1, x2, q,
            ),
            forall|q: u32|
                q < 16 ==> bit32(result, q) == (q < p && table@[q as int] is Some && bit32(
                    input,
                    table@[q as int]->0 as u32,
                )),
        decreases 16 - p,
    {
        let ghost prev = result;
        if let Some(ab) = table[p] {
            proof {
                lemma_pin_slot_bound(pins, rt, multi, p as int);
                lemma_bit32_test(input, ab as u32);
            }
            if input & (1u32 << (ab as u32)) != 0 {
                proof {
                    lemma_bit32_or_keeps_u16(result, p as u32);
                    assert forall|q: u32| q < 16 implies bit32(
                        result | (1u32 << (p as u32)),
                        q,
                    ) == (bit32(result, q) || q == p) by {
                        lemma_bit32_or_one(result, p as u32, q);
                    }
                }
                result = result | (1u32 << (p as u32));
            }
        }
        proof {
            assert forall|q: u32| q < 16 implies bit32(result, q) == (q < p + 1
                && table@[q as int] is Some && bit32(input, table@[q as int]->0 as u32)) by {
                if q == p {
                    assert(bit32(prev, q) == false);
                } else {
                    assert(bit32(result, q) == bit32(prev, q));
                }
            }
        }
        p = p + 1;
    }

    Ok(result)
}

/// The physical pin carrying CS1 for a ROM type.
pub open spec fn spec_cs1_pin(pins: &SdrrPins, rt: SdrrRomType) -> u8 {
    match rt {
        SdrrRomType::Rom2364 => pins.cs1_2364,
        SdrrRomType::Rom2332 => pins.cs1_2332,
        SdrrRomType::Rom2316 => pins.cs1_2316,
    }
}

/// The physical pin carrying CS2 for a ROM type that has one.
pub open spec fn spec_cs2_pin(pins: &SdrrPins, rt: SdrrRomType) -> u8 {
    match rt {
        SdrrRomType::Rom2364 => pins.cs1_2364,
        SdrrRomType::Rom2332 => pins.cs2_2332,
        SdrrRomType::Rom2316 => pins.cs2_2316,
    }
}

/// What re-deriving the logical inputs from a physical pattern returns:
/// address bit `i` is the pattern's bit at the pin carrying it, and each
/// control line's state is the pattern's bit at its own pin.
pub open spec fn demangle_addr_post(
    pins: &SdrrPins,
    rt: SdrrRomType,
    multi: bool,
    physical: u32,
    r: (u32, bool, Option<bool>, Option<bool>, Option<bool>, Option<bool>),
) -> bool {
    &&& r.0 < 0x10000
    &&& forall|i: u32|
        i < addr_lines(rt) ==> bit32(r.0, i) == bit32(physical, pins.addr@[i as int] as u32)
    &&& forall|i: u32| addr_lines(rt) <= i < 16 ==> !bit32(r.0, i)
    &&& r.1 == bit32(physical, spec_cs1_pin(pins, rt) as u32)
    &&& (rt == SdrrRomType::Rom2364 ==> r.2 is None)
    &&& (rt != SdrrRomType::Rom2364 ==> r.2 == Some(
        bit32(physical, spec_cs2_pin(pins, rt) as u32),
    ))
    &&& (rt == SdrrRomType::Rom2316 ==> r.3 == Some(bit32(physical, pins.cs3_2316 as u32)))
    &&& (rt != SdrrRomType::Rom2316 ==> r.3 is None)
    &&& (multi ==> r.4 == Some(bit32(physical, pins.x1 as u32)) && r.5 == Some(
        bit32(physical, pins.x2 as u32),
    ))
    &&& (!multi ==> r.4 is None && r.5 is None)
}

/// Re-derives the logical address and control-line states from a physical
/// address-port pattern, using the known pin map: the inverse direction of
/// `mangle_address_with`.
pub fn demangle_address(pins: &SdrrPins, rt: SdrrRomType, multi: bool, physical: u32) -> (r: (
    u32,
    bool,
    Option<bool>,
    Option<bool>,
    Option<bool>,
    Option<bool>,
))
    requires
        mangle_pins_wf(pins, rt, multi),
    ensures
        demangle_addr_post(pins, rt, multi, physical, r),
{
    let lines = addr_lines_exec(rt);
    let mut addr: u32 = 0;
    let mut i: usize = 0;
    proof {
        assert forall|q: u32| q < 16 implies !bit32(0u32, q) by {
            crate::bits::lemma_bit32_zero(q);
        }
    }
    while i < lines
        invariant
            i <= lines,
            lines == addr_lines(rt),
            lines <= 13,
            mangle_pins_wf(pins, rt, multi),
            addr < 0x10000,
            forall|q: u32| q < i ==> bit32(addr, q) == bit32(physical, pins.addr@[q as int] as u32),
            forall|q: u32| i <= q < 16 ==> !bit32(addr, q),
        decreases lines - i,
    {
        let ghost prev = addr;
        let pin = pins.addr[i];
        if physical & (1u32 << (pin as u32)) != 0 {
            proof {
                lemma_bit32_or_keeps_u16(addr, i as u32);
                assert forall|q: u32| q < 16 implies bit32(addr | (1u32 << (i as u32)), q) == (
                bit32(addr, q) || q == i) by {
                    lemma_bit32_or_one(addr, i as u32, q);
                }
            }
            addr = addr | (1u32 << (i as u32));
        }
        proof {
            lemma_bit32_test(physical, pin as u32);
            assert forall|q: u32| q < 16 implies bit32(addr, q) == (bit32(prev, q) || (q == i
                && bit32(physical, pin as u32))) by {
                if q == i {
                    assert(!bit32(prev, q));
                }
            }
        }
        i = i + 1;
    }
    let cs1_pin = match rt {
        SdrrRomType::Rom2364 => pins.cs1_2364,
        SdrrRomType::Rom2332 => pins.cs1_2332,
        SdrrRomType::Rom2316 => pins.cs1_2316,
    };
    let cs1 = read_bit(physical, cs1_pin);
    let cs2 = match rt {
        SdrrRomType::Rom2364 => None,
        SdrrRomType::Rom2332 => Some(read_bit(physical, pins.cs2_2332)),
        SdrrRomType::Rom2316 => Some(read_bit(physical, pins.cs2_2316)),
    };
    let cs3 = match rt {
        SdrrRomType::Rom2316 => Some(read_bit(physical, pins.cs3_2316)),
        _ => None,
    };
    let (x1, x2) = if multi {
        (Some(read_bit(physical, pins.x1)), Some(read_bit(physical, pins.x2)))
    } else {
        (None, None)
    };
    (addr, cs1, cs2, cs3, x1, x2)
}

/// Whether the pattern carries a one on the given pin.
fn read_bit(physical: u32, pin: u8) -> (r: bool)
    requires
        pin < 16,
    ensures
        r == bit32(physical, pin as u32),
{
    proof {
        lemma_bit32_test(physical, pin as u32);
    }
    physical & (1u32 << (pin as u32)) != 0
}

/// The supplied control-line states fit the ROM type and set shape: CS2
/// only for 2332 and 2316, CS3 only for 2316, the extra selectors only for
/// a set holding more than one ROM.
pub open spec fn cs_shape_valid(
    rt: SdrrRomType,
    multi: bool,
    cs2: Option<bool>,
    cs3: Option<bool>,
    x1: Option<bool>,
    x2: Option<bool>,
) -> bool {
    &&& (rt == SdrrRomType::Rom2364 ==> cs2 is None)
    &&& (rt != SdrrRomType::Rom2364 ==> cs2 is Some)
    &&& (rt == SdrrRomType::Rom2316 ==> cs3 is Some)
    &&& (rt != SdrrRomType::Rom2316 ==> cs3 is None)
    &&& (multi ==> x1 is Some && x2 is Some)
    &&& (!multi ==> x1 is None && x2 is None)
}

/// The pin map loses no information: every address pin keeps its own slot
/// once the chip-select and selector overlays are in, and every control
/// line keeps its own slot.  A map in which two lines share a pin cannot be
/// inverted.
pub open spec fn recovery_pins_wf(pins: &SdrrPins, rt: SdrrRomType, multi: bool) -> bool {
    &&& mangle_pins_wf(pins, rt, multi)
    &&& forall|i: int|
        0 <= i < addr_lines(rt) ==> pin_slot(pins, rt, multi, pins.addr@[i] as int) == Some(
            i as u8,
        )
    &&& pin_slot(pins, rt, multi, spec_cs1_pin(pins, rt) as int) == Some(13u8)
    &&& (rt == SdrrRomType::Rom2332 ==> pin_slot(pins, rt, multi, pins.cs2_2332 as int) == Some(
        12u8,
    ))
    &&& (rt == SdrrRomType::Rom2316 ==> pin_slot(pins, rt, multi, pins.cs2_2316 as int) == Some(
        11u8,
    ) && pin_slot(pins, rt, multi, pins.cs3_2316 as int) == Some(12u8))
    &&& (multi ==> pin_slot(pins, rt, multi, pins.x1 as int) == Some(14u8) && pin_slot(
        pins,
        rt,
        multi,
        pins.x2 as int,
    ) == Some(15u8))
}

/// Round trip: mangling a valid logical address with valid control-line
/// states and then re-deriving the logical inputs from the physical
/// pattern, with an invertible pin map, recovers the original inputs
/// exactly.
pub proof fn lemma_mangle_round_trip(
    pins: &SdrrPins,
    rt: SdrrRomType,
    multi: bool,
    addr: u32,
    cs1: bool,
    cs2: Option<bool>,
    cs3: Option<bool>,
    x1: Option<bool>,
    x2: Option<bool>,
    physical: u32,
    rec: (u32, bool, Option<bool>, Option<bool>, Option<bool>, Option<bool>),
)
    requires
        recovery_pins_wf(pins, rt, multi),
        cs_shape_valid(rt, multi, cs2, cs3, x1, x2),
        addr & !spec_addr_mask(rt) == 0,
        mangle_post(pins, rt, multi, addr, cs1, cs2, cs3, x1, x2, physical),
        demangle_addr_post(pins, rt, multi, physical, rec),
    ensures
        rec.0 == addr,
        rec.1 == cs1,
        rec.2 == cs2,
        rec.3 == cs3,
        rec.4 == x1,
        rec.5 == x2,
{
    lemma_addr_mask_is_low(rt);
    crate::bits::lemma_bit32_masked_lt(addr, spec_addr_mask(rt));
    assert forall|i: u32| i < 16 implies bit32(rec.0, i) == bit32(addr, i) by {
        if i < addr_lines(rt) {
            let pin = pins.addr@[i as int];
            assert(pin_slot(pins, rt, multi, pin as int) == Some(i as u8));
            assert(bit32(physical, pin as u32) == input_bit(
                rt, multi, addr, cs1, cs2, cs3, x1, x2, i,
            ));
        } else {
            lemma_bit32_in_mask(addr, spec_addr_mask(rt), i);
            lemma_bit32_low_mask(addr_lines(rt), i);
        }
    }
    lemma_u32_eq_from_low16(rec.0, addr);
    assert(bit32(physical, spec_cs1_pin(pins, rt) as u32) == input_bit(
        rt, multi, addr, cs1, cs2, cs3, x1, x2, 13,
    ));
    if rt == SdrrRomType::Rom2332 {
        assert(bit32(physical, pins.cs2_2332 as u32) == input_bit(
            rt, multi, addr, cs1, cs2, cs3, x1, x2, 12,
        ));
    }
    if rt == SdrrRomType::Rom2316 {
        assert(bit32(physical, pins.cs2_2316 as u32) == input_bit(
            rt, multi, addr, cs1, cs2, cs3, x1, x2, 11,
        ));
        assert(bit32(physical, pins.cs3_2316 as u32) == input_bit(
            rt, multi, addr, cs1, cs2, cs3, x1, x2, 12,
        ));
    }
    if multi {
        assert(bit32(physical, pins.x1 as u32) == input_bit(
            rt, multi, addr, cs1, cs2, cs3, x1, x2, 14,
        ));
        assert(bit32(physical, pins.x2 as u32) == input_bit(
            rt, multi, addr, cs1, cs2, cs3, x1, x2, 15,
        ));
    }
}

/// The data-pin list is eight physical pin numbers below eight.
pub open spec fn data_pins_wf(data: Seq<u8>) -> bool {
    data.len() == 8 && forall|i: int| 0 <= i < 8 ==> data[i] < 8
}

/// No two logical data bits share a physical pin.
pub open spec fn data_pins_distinct(data: Seq<u8>) -> bool {
    forall|i: int, j: int| 0 <= i < j < 8 ==> data[i] != data[j]
}

/// Pin `p` appears among the first `n` entries of the data-pin list.
pub open spec fn in_prefix(data: Seq<u8>, n: int, p: u8) -> bool {
    exists|j: int| #![trigger data[j]] 0 <= j < n && data[j] == p
}

/// What mangling a byte returns: the bit at physical pin `data[i]` is
/// logical bit `i`, and pins carrying no data bit stay at zero.
pub open spec fn byte_mangle_post(data: Seq<u8>, b: u8, m: u8) -> bool {
    &&& forall|i: u8| i < 8 ==> bit8(m, data[i as int]) == bit8(b, i)
    &&& forall|p: u8| p < 8 && !in_prefix(data, 8, p) ==> !bit8(m, p)
}

/// What demangling a byte returns: logical bit `i` is the bit at physical
/// pin `data[i]`.
pub open spec fn byte_demangle_post(data: Seq<u8>, m: u8, d: u8) -> bool {
    forall|i: u8| i < 8 ==> bit8(d, i) == bit8(m, data[i as int])
}

/// Rearranges a logical byte into the physical bit order of the data pins:
/// the inverse permutation of `demangle_byte_with`.
pub fn mangle_byte_with(data: &[u8; 8], b: u8) -> (m: u8)
    requires
        data_pins_wf(data@),
        data_pins_distinct(data@),
    ensures
        byte_mangle_post(data@, b, m),
{
    let mut m: u8 = 0;
    let mut i: usize = 0;
    proof {
        assert forall|q: u8| q < 8 implies !bit8(0u8, q) by {
            crate::bits::lemma_bit8_zero(q);
        }
    }
    while i < 8
        invariant
            i <= 8,
            data_pins_wf(data@),
            data_pins_distinct(data@),
            forall|j: u8| j < i ==> bit8(m, data@[j as int]) == bit8(b, j),
            forall|p: u8| p < 8 && !in_prefix(data@, i as int, p) ==> !bit8(m, p),
        decreases 8 - i,
    {
        let ghost prev = m;
        let pin = data[i];
        if b & (1u8 << (i as u8)) != 0 {
            proof {
                assert forall|q: u8| q < 8 implies bit8(m | (1u8 << pin), q) == (bit8(m, q) || q
                    == pin) by {
                    lemma_bit8_or_one(m, pin, q);
                }
            }
            m = m | (1u8 << pin);
        }
        proof {
            lemma_bit8_test(b, i as u8);
            assert(!in_prefix(data@, i as int, pin)) by {
                if in_prefix(data@, i as int, pin) {
                    let j = choose|j: int| 0 <= j < i && data@[j] == pin;
                    assert(data@[j] != data@[i as int]);
                }
            }
            assert(!bit8(prev, pin));
            assert forall|j: u8| j < i + 1 implies bit8(m, data@[j as int]) == bit8(b, j) by {
                if j < i {
                    assert(data@[j as int] != pin);
                }
            }
            assert forall|p: u8| p < 8 && !in_prefix(data@, i as int + 1, p) implies !bit8(
                m,
                p,
            ) by {
                assert(data@[i as int] != p);
                assert(!in_prefix(data@, i as int, p));
                assert(!bit8(prev, p));
                assert(bit8(m, p) == (bit8(prev, p) || p == pin));
            }
        }
        i = i + 1;
    }
    m
}

/// Rearranges a physical byte back into logical bit order: logical bit `i`
/// is read from physical pin `data[i]`.
pub fn demangle_byte_with(data: &[u8; 8], m: u8) -> (d: u8)
    requires
        data_pins_wf(data@),
    ensures
        byte_demangle_post(data@, m, d),
{
    let mut d: u8 = 0;
    let mut i: usize = 0;
    proof {
        assert forall|q: u8| q < 8 implies !bit8(0u8, q) by {
            crate::bits::lemma_bit8_zero(q);
        }
    }
    while i < 8
        invariant
            i <= 8,
            data_pins_wf(data@),
            forall|j: u8| j < i ==> bit8(d, j) == bit8(m, data@[j as int]),
            forall|j: u8| i <= j < 8 ==> !bit8(d, j),
        decreases 8 - i,
    {
        let ghost prev = d;
        let pin = data[i];
        if m & (1u8 << pin) != 0 {
            proof {
                assert forall|q: u8| q < 8 implies bit8(d | (1u8 << (i as u8)), q) == (bit8(d, q)
                    || q == i) by {
                    lemma_bit8_or_one(d, i as u8, q);
                }
            }
            d = d | (1u8 << (i as u8));
        }
        proof {
            lemma_bit8_test(m, pin);
            assert forall|q: u8| q < 8 implies bit8(d, q) == (bit8(prev, q) || (q == i && bit8(
                m,
                pin,
            ))) by {
            }
        }
        i = i + 1;
    }
    d
}

/// Round trip: for every byte and every data-pin map of eight distinct
/// pins, demangling the mangled byte gives the byte back.  Demangling
/// alone is not generally idempotent; it is the inverse of mangling.
pub proof fn lemma_byte_round_trip(data: Seq<u8>, b: u8, m: u8, d: u8)
    requires
        data_pins_wf(data),
        data_pins_distinct(data),
        byte_mangle_post(data, b, m),
        byte_demangle_post(data, m, d),
    ensures
        d == b,
{
    assert forall|i: u8| i < 8 implies bit8(d, i) == bit8(b, i) by {
        assert(bit8(d, i) == bit8(m, data[i as int]));
        assert(bit8(m, data[i as int]) == bit8(b, i));
    }
    lemma_u8_eq_from_bits(d, b);
}

impl SdrrInfo {
    /// The ROM type the mangler serves: that of the first ROM of the first
    /// set.
    pub open spec fn mangle_rom_type(&self) -> SdrrRomType {
        self.rom_sets@[0].roms@[0].rom_type
    }

    /// Whether the first set holds more than one ROM.
    pub open spec fn mangle_multi(&self) -> bool {
        self.rom_sets@[0].rom_count > 1
    }

    /// Translates a logical ROM address and control-line states into the
    /// physical address-port pattern, using the decoded pin configuration
    /// and the first ROM set's type.
    pub fn mangle_address(
        &self,
        addr: u32,
        cs1: bool,
        cs2: Option<bool>,
        cs3: Option<bool>,
        x1: Option<bool>,
        x2: Option<bool>,
    ) -> (r: Result<u32, MangleError>)
        requires
            self.rom_sets@.len() > 0,
            self.rom_sets@[0].roms@.len() > 0,
            self.pins is Some,
            mangle_pins_wf(&self.pins->0, self.mangle_rom_type(), self.mangle_multi()),
        ensures
            (r == Err::<u32, MangleError>(MangleError::PinConflict)) == x_pin_conflict(
                &self.pins->0,
                self.mangle_rom_type(),
                self.mangle_multi(),
            ),
            !x_pin_conflict(&self.pins->0, self.mangle_rom_type(), self.mangle_multi()) ==> ((r
                == Err::<u32, MangleError>(MangleError::AddressOverflow)) == (addr
                & !spec_addr_mask(self.mangle_rom_type()) != 0)),
            r matches Ok(v) ==> addr & !spec_addr_mask(self.mangle_rom_type()) == 0 && mangle_post(
                &self.pins->0,
                self.mangle_rom_type(),
                self.mangle_multi(),
                addr,
                cs1,
                cs2,
                cs3,
                x1,
                x2,
                v,
            ),
    {
        let rt = self.rom_sets[0].roms[0].rom_type;
        let multi = self.rom_sets[0].rom_count > 1;
        match &self.pins {
            Some(p) => mangle_address_with(p, rt, multi, addr, cs1, cs2, cs3, x1, x2),
            None => vstd::pervasive::unreached(),
        }
    }

    /// Maps a physical data-port byte back to the logical byte, using the
    /// decoded data-pin list: logical bit `i` is read from the pin that
    /// carries it.
    pub fn demangle_byte(&self, byte: u8) -> (r: u8)
        requires
            self.pins is Some,
            data_pins_wf(self.pins->0.data@),
        ensures
            byte_demangle_post(self.pins->0.data@, byte, r),
    {
        match &self.pins {
            Some(p) => demangle_byte_with(&p.data, byte),
            None => vstd::pervasive::unreached(),
        }
    }
}

} // verus!

verus! {

/// A pin absent from the first `n` address entries has no address slot.
proof fn lemma_addr_slot_upto_none(addr: Seq<u8>, n: int, p: int)
    requires
        forall|j: int| 0 <= j < n ==> #[trigger] addr[j] != p,
    ensures
        addr_slot_upto(addr, n, p) is None,
    decreases n,
{
    if n > 0 {
        lemma_addr_slot_upto_none(addr, n - 1, p);
    }
}

/// With pairwise-distinct address pins, pin `addr[i]` keeps slot `i`.
proof fn lemma_addr_slot_upto_finds(addr: Seq<u8>, n: int, i: int)
    requires
        0 <= i < n <= addr.len(),
        n <= 16,
        forall|j: int, k: int| 0 <= j < k < n ==> addr[j] != addr[k],
    ensures
        addr_slot_upto(addr, n, addr[i] as int) == Some(i as u8),
    decreases n,
{
    if i == n - 1 {
    } else {
        lemma_addr_slot_upto_finds(addr, n - 1, i);
    }
}

/// A pin map whose lines are pairwise distinct is invertible: distinct
/// address pins, chip-select pins off the address pins and off each
/// other, and extra selectors off everything give back every slot.
pub proof fn lemma_distinct_pins_invertible(pins: &SdrrPins, rt: SdrrRomType, multi: bool)
    requires
        mangle_pins_wf(pins, rt, multi),
        forall|i: int, j: int|
            0 <= i < j < addr_lines(rt) ==> pins.addr@[i] != pins.addr@[j],
        forall|i: int|
            0 <= i < addr_lines(rt) ==> #[trigger] pins.addr@[i] != spec_cs1_pin(pins, rt),
        rt == SdrrRomType::Rom2332 ==> pins.cs2_2332 != pins.cs1_2332 && (forall|i: int|
            0 <= i < addr_lines(rt) ==> #[trigger] pins.addr@[i] != pins.cs2_2332),
        rt == SdrrRomType::Rom2316 ==> pins.cs2_2316 != pins.cs1_2316 && pins.cs3_2316
            != pins.cs1_2316 && pins.cs3_2316 != pins.cs2_2316 && (forall|i: int|
            0 <= i < addr_lines(rt) ==> #[trigger] pins.addr@[i] != pins.cs2_2316
                && pins.addr@[i] != pins.cs3_2316),
        multi ==> pins.x1 != pins.x2 && !x_pin_conflict(pins, rt, multi),
    ensures
        recovery_pins_wf(pins, rt, multi),
{
    assert(pins.addr@.len() == 16);
    if multi {
        assert(base_slot(pins, rt, pins.x1 as int) is None);
        assert(base_slot(pins, rt, pins.x2 as int) is None);
    }
    assert forall|i: int| 0 <= i < addr_lines(rt) implies pin_slot(
        pins,
        rt,
        multi,
        pins.addr@[i] as int,
    ) == Some(i as u8) by {
        lemma_addr_slot_upto_finds(pins.addr@, addr_lines(rt) as int, i);
        if multi {
            if pins.addr@[i] == pins.x1 || pins.addr@[i] == pins.x2 {
                assert(base_slot(pins, rt, pins.addr@[i] as int) is Some);
            }
        }
    }
    assert(pin_slot(pins, rt, multi, spec_cs1_pin(pins, rt) as int) == Some(13u8)) by {
        if multi {
            if spec_cs1_pin(pins, rt) == pins.x1 || spec_cs1_pin(pins, rt) == pins.x2 {
                assert(base_slot(pins, rt, spec_cs1_pin(pins, rt) as int) is Some);
            }
        }
    }
    if rt == SdrrRomType::Rom2332 {
        assert(pin_slot(pins, rt, multi, pins.cs2_2332 as int) == Some(12u8)) by {
            if multi {
                if pins.cs2_2332 == pins.x1 || pins.cs2_2332 == pins.x2 {
                    assert(base_slot(pins, rt, pins.cs2_2332 as int) is Some);
                }
            }
        }
    }
    if rt == SdrrRomType::Rom2316 {
        assert(pin_slot(pins, rt, multi, pins.cs2_2316 as int) == Some(11u8)) by {
            if multi {
                if pins.cs2_2316 == pins.x1 || pins.cs2_2316 == pins.x2 {
                    assert(base_slot(pins, rt, pins.cs2_2316 as int) is Some);
                }
            }
        }
        assert(pin_slot(pins, rt, multi, pins.cs3_2316 as int) == Some(12u8)) by {
            if multi {
                if pins.cs3_2316 == pins.x1 || pins.cs3_2316 == pins.x2 {
                    assert(base_slot(pins, rt, pins.cs3_2316 as int) is Some);
                }
            }
        }
    }
}

} // verus!
