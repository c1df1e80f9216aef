//! Generation-side preprocessing: transforms logical ROM images into the
//! physical bit order the hardware pins carry, and serves bytes for
//! single- and multi-ROM sets.

use crate::bits::bit32;
use crate::bits::lemma_bit32_or_one;
use crate::bits::lemma_bit32_test;
use crate::bits::lemma_bit32_zero;
use crate::config::RomInSet;
use crate::hardware::HwConfig;
use crate::mangle::byte_mangle_post;
use crate::mangle::mangle_byte_with;
use crate::types::RomType;
use crate::types::StmFamily;
use vstd::prelude::*;

verus! {

/// The address bit carried on pin `p` of the older board family: a fixed
/// thirteen-entry table.
pub open spec fn f1_pin(b: int) -> u8 {
    if b == 0 {
        0
    } else if b == 1 {
        7
    } else if b == 2 {
        8
    } else if b == 3 {
        9
    } else if b == 4 {
        10
    } else if b == 5 {
        11
    } else if b == 6 {
        12
    } else if b == 7 {
        1
    } else if b == 8 {
        2
    } else if b == 9 {
        3
    } else if b == 10 {
        6
    } else if b == 11 {
        5
    } else {
        4
    }
}

/// The logical address bit carried on pin `p` of the newer board family,
/// for each ROM type; pins that carry a chip select have no address bit.
pub open spec fn f4_slot(rt: RomType, p: int) -> Option<u8> {
    match rt {
        RomType::Rom2364 => if p == 0 {
            Some(7u8)
        } else if p == 1 {
            Some(6u8)
        } else if p == 2 {
            Some(5u8)
        } else if p == 3 {
            Some(4u8)
        } else if p == 4 {
            Some(1u8)
        } else if p == 5 {
            Some(0u8)
        } else if p == 6 {
            Some(2u8)
        } else if p == 7 {
            Some(3u8)
        } else if p == 8 {
            Some(8u8)
        } else if p == 9 {
            Some(12u8)
        } else if p == 11 {
            Some(10u8)
        } else if p == 12 {
            Some(11u8)
        } else if p == 13 {
            Some(9u8)
        } else {
            None
        },
        RomType::Rom2332 => if p == 0 {
            Some(7u8)
        } else if p == 1 {
            Some(6u8)
        } else if p == 2 {
            Some(5u8)
        } else if p == 3 {
            Some(4u8)
        } else if p == 4 {
            Some(1u8)
        } else if p == 5 {
            Some(0u8)
        } else if p == 6 {
            Some(2u8)
        } else if p == 7 {
            Some(3u8)
        } else if p == 8 {
            Some(8u8)
        } else if p == 11 {
            Some(10u8)
        } else if p == 12 {
            Some(11u8)
        } else if p == 13 {
            Some(9u8)
        } else {
            None
        },
        RomType::Rom2316 => if p == 0 {
            Some(7u8)
        } else if p == 1 {
            Some(6u8)
        } else if p == 2 {
            Some(5u8)
        } else if p == 3 {
            Some(4u8)
        } else if p == 4 {
            Some(1u8)
        } else if p == 5 {
            Some(0u8)
        } else if p == 6 {
            Some(2u8)
        } else if p == 7 {
            Some(3u8)
        } else if p == 8 {
            Some(8u8)
        } else if p == 11 {
            Some(10u8)
        } else if p == 13 {
            Some(9u8)
        } else {
            None
        },
        RomType::Rom23128 => if p == 0 {
            Some(7u8)
        } else if p == 1 {
            Some(6u8)
        } else if p == 2 {
            Some(5u8)
        } else if p == 3 {
            Some(4u8)
        } else if p == 4 {
            Some(1u8)
        } else if p == 5 {
            Some(0u8)
        } else if p == 6 {
            Some(2u8)
        } else if p == 7 {
            Some(3u8)
        } else if p == 8 {
            Some(12u8)
        } else if p == 9 {
            Some(8u8)
        } else if p == 10 {
            Some(9u8)
        } else if p == 11 {
            Some(11u8)
        } else if p == 12 {
            Some(10u8)
        } else if p == 13 {
            Some(13u8)
        } else {
            None
        },
    }
}

/// Bit `q` of the transformed address is set when some pin below fourteen
/// carries logical bit `q` and that pin's bit is set in the input.
pub open spec fn f4_target_bit(rt: RomType, a: u32, q: u32) -> bool {
    q < 16 && exists|p: int|
        #![trigger f4_slot(rt, p)]
        0 <= p < 14 && f4_slot(rt, p) == Some(q as u8) && bit32(a, p as u32)
}

/// What the newer family's address transform returns.
pub open spec fn f4_addr_post(rt: RomType, a: u32, r: u32) -> bool {
    &&& r < 0x4000
    &&& forall|q: u32| q < 32 ==> bit32(r, q) == f4_target_bit(rt, a, q)
}

/// What the older family's address transform returns: address bit `b`
/// moves to pin `f1_pin(b)`.
pub open spec fn f1_addr_post(a: u32, r: u32) -> bool {
    &&& r < 0x2000
    &&& forall|q: u32|
        q < 32 ==> bit32(r, q) == (q < 16 && exists|b: int|
            #![trigger f1_pin(b)]
            0 <= b < 13 && f1_pin(b) == q as u8 && bit32(a, b as u32))
}


/// The pin carrying address bit `b` on the older family.
fn f1_pin_exec(b: usize) -> (r: u8)
    requires
        b < 13,
    ensures
        r == f1_pin(b as int),
        r <= 12,
{
    if b == 0 {
        0
    } else if b == 1 {
        7
    } else if b == 2 {
        8
    } else if b == 3 {
        9
    } else if b == 4 {
        10
    } else if b == 5 {
        11
    } else if b == 6 {
        12
    } else if b == 7 {
        1
    } else if b == 8 {
        2
    } else if b == 9 {
        3
    } else if b == 10 {
        6
    } else if b == 11 {
        5
    } else {
        4
    }
}

/// The address bit carried on pin `p` on the newer family, if any.
fn f4_slot_exec(rt: &RomType, p: usize) -> (r: Option<u8>)
    requires
        p < 14,
    ensures
        r == f4_slot(*rt, p as int),
        r matches Some(s) ==> s < rt.spec_num_addr_lines(),
{
    match rt {
        RomType::Rom2364 => match p {
            0 => Some(7),
            1 => Some(6),
            2 => Some(5),
            3 => Some(4),
            4 => Some(1),
            5 => Some(0),
            6 => Some(2),
            7 => Some(3),
            8 => Some(8),
            9 => Some(12),
            11 => Some(10),
            12 => Some(11),
            13 => Some(9),
            _ => None,
        },
        RomType::Rom2332 => match p {
            0 => Some(7),
            1 => Some(6),
            2 => Some(5),
            3 => Some(4),
            4 => Some(1),
            5 => Some(0),
            6 => Some(2),
            7 => Some(3),
            8 => Some(8),
            11 => Some(10),
            12 => Some(11),
            13 => Some(9),
            _ => None,
        },
        RomType::Rom2316 => match p {
            0 => Some(7),
            1 => Some(6),
            2 => Some(5),
            3 => Some(4),
            4 => Some(1),
            5 => Some(0),
            6 => Some(2),
            7 => Some(3),
            8 => Some(8),
            11 => Some(10),
            13 => Some(9),
            _ => None,
        },
        RomType::Rom23128 => match p {
            0 => Some(7),
            1 => Some(6),
            2 => Some(5),
            3 => Some(4),
            4 => Some(1),
            5 => Some(0),
            6 => Some(2),
            7 => Some(3),
            8 => Some(12),
            9 => Some(8),
            10 => Some(9),
            11 => Some(11),
            12 => Some(10),
            13 => Some(13),
            _ => None,
        },
    }
}

/// A loaded, size-validated ROM image.
#[derive(Debug, Clone)]
#[verifier::ext_equal]
pub struct RomImage {
    pub data: Vec<u8>,
}

impl RomImage {
    /// Maps a logical address to the pin ordering of the older board
    /// family: address bit `b` moves to GPIO pin `f1_pin(b)`.
    pub fn transform_address_f1(address: usize) -> (r: usize)
        requires
            address < 0x2000,
        ensures
            f1_addr_post(address as u32, r as u32),
            r < 0x2000,
    {
        let a = address as u32;
        proof {
            assert forall|q: u32| q < 16 implies !bit32(0u32, q) by {
                lemma_bit32_zero(q);
            }
        }
        let mut result: u32 = 0;
        let mut b: usize = 0;
        while b < 13
            invariant
                b <= 13,
                a == address,
                a < 0x2000,
                result < 0x2000,
                forall|q: u32|
                    q < 16 ==> bit32(result, q) == (exists|k: int|
                        #![trigger f1_pin(k)]
                        0 <= k < b && f1_pin(k) == q as u8 && bit32(a, k as u32)),
            decreases 13 - b,
        {
            let ghost prev = result;
            let pin = f1_pin_exec(b);
            let bit_set = a & (1u32 << (b as u32)) != 0;
            if bit_set {
                proof {
                    assert(result | (1u32 << (pin as u32)) < 0x2000) by (bit_vector)
                        requires
                            result < 0x2000,
                            pin <= 12,
                    ;
                    assert forall|q: u32| q < 16 implies bit32(result | (1u32 << (pin as u32)), q)
                        == (bit32(result, q) || q == pin) by {
                        lemma_bit32_or_one(result, pin as u32, q);
                    }
                }
                result = result | (1u32 << (pin as u32));
            }
            proof {
                lemma_bit32_test(a, b as u32);
                assert forall|q: u32| q < 16 implies bit32(result, q) == (exists|k: int|
                    #![trigger f1_pin(k)]
                    0 <= k < b + 1 && f1_pin(k) == q as u8 && bit32(a, k as u32)) by {
                    if bit_set {
                        assert(result == prev | (1u32 << (pin as u32)));
                        lemma_bit32_or_one(prev, pin as u32, q);
                        assert(bit32(result, q) == (bit32(prev, q) || q == pin));
                    } else {
                        assert(result == prev);
                    }
                    assert(bit32(result, q) == (bit32(prev, q) || (q == pin && bit32(
                        a,
                        b as u32,
                    ))));
                    if q == pin && bit32(a, b as u32) {
                        assert(f1_pin(b as int) == q as u8 && bit32(a, b as u32));
                    } else {
                        if exists|k: int|
                            #![trigger f1_pin(k)]
                            0 <= k < b + 1 && f1_pin(k) == q as u8 && bit32(a, k as u32) {
                            let k = choose|k: int|
                                #![trigger f1_pin(k)]
                                0 <= k < b + 1 && f1_pin(k) == q as u8 && bit32(a, k as u32);
                            assert(k < b);
                        }
                    }
                }
            }
            b = b + 1;
        }
        proof {
            assert forall|q: u32| #![trigger bit32(result, q)] q < 32 implies bit32(result, q)
                == (q < 16 && exists|k: int|
                #![trigger f1_pin(k)]
                0 <= k < 13 && f1_pin(k) == q as u8 && bit32(a, k as u32)) by {
                if q >= 16 {
                    crate::bits::lemma_bit32_u16_high_zero(result, q);
                }
            }
        }
        result as usize
    }

    /// Maps a physical pin pattern to the logical address of the newer
    /// board family: the bit on each pin moves to the address bit the pin
    /// carries, and chip-select pins carry none.
    pub fn transform_address_f4(address: usize, rom_type: &RomType) -> (r: usize)
        requires
            address < 0x4000,
        ensures
            f4_addr_post(*rom_type, address as u32, r as u32),
            r < 0x4000,
            r < rom_type.spec_size_bytes(),
    {
        let a = address as u32;
        let rt = *rom_type;
        let ghost lines = rom_type.spec_num_addr_lines();
        proof {
            assert forall|q: u32| q < 16 implies !bit32(0u32, q) by {
                lemma_bit32_zero(q);
            }
            let l = lines as u32;
            assert(0u32 < (1u32 << l)) by (bit_vector)
                requires
                    l <= 14,
            ;
        }
        let mut result: u32 = 0;
        let mut p: usize = 0;
        while p < 14
            invariant
                p <= 14,
                a == address,
                a < 0x4000,
                rt == *rom_type,
                lines == rom_type.spec_num_addr_lines(),
                result < (1u32 << (lines as u32)),
                forall|q: u32|
                    q < 16 ==> bit32(result, q) == (exists|k: int|
                        #![trigger f4_slot(rt, k)]
                        0 <= k < p && f4_slot(rt, k) == Some(q as u8) && bit32(a, k as u32)),
            decreases 14 - p,
        {
            let ghost prev = result;
            let slot = f4_slot_exec(rom_type, p);
            let bit_set = a & (1u32 << (p as u32)) != 0;
            if let Some(ab) = slot {
                if bit_set {
                    proof {
                        let l = lines as u32;
                        assert(result | (1u32 << (ab as u32)) < (1u32 << l)) by (bit_vector)
                            requires
                                result < (1u32 << l),
                                ab < l,
                                l <= 14,
                        ;
                        assert forall|q: u32| q < 16 implies bit32(
                            result | (1u32 << (ab as u32)),
                            q,
                        ) == (bit32(result, q) || q == ab) by {
                            lemma_bit32_or_one(result, ab as u32, q);
                        }
                    }
                    result = result | (1u32 << (ab as u32));
                }
            }
            proof {
                lemma_bit32_test(a, p as u32);
                assert forall|q: u32| q < 16 implies bit32(result, q) == (exists|k: int|
                    #![trigger f4_slot(rt, k)]
                    0 <= k < p + 1 && f4_slot(rt, k) == Some(q as u8) && bit32(a, k as u32)) by {
                    if slot is Some && bit_set {
                        assert(result == prev | (1u32 << (slot->0 as u32)));
                        lemma_bit32_or_one(prev, slot->0 as u32, q);
                        assert(bit32(result, q) == (bit32(prev, q) || q == slot->0));
                    } else {
                        assert(result == prev);
                    }
                    assert(bit32(result, q) == (bit32(prev, q) || (f4_slot(rt, p as int) == Some(
                        q as u8,
                    ) && bit32(a, p as u32))));
                    if f4_slot(rt, p as int) == Some(q as u8) && bit32(a, p as u32) {
                        assert(f4_slot(rt, p as int) == Some(q as u8) && bit32(a, p as u32));
                    } else {
                        if exists|k: int|
                            #![trigger f4_slot(rt, k)]
                            0 <= k < p + 1 && f4_slot(rt, k) == Some(q as u8) && bit32(
                                a,
                                k as u32,
                            ) {
                            let k = choose|k: int|
                                #![trigger f4_slot(rt, k)]
                                0 <= k < p + 1 && f4_slot(rt, k) == Some(q as u8) && bit32(
                                    a,
                                    k as u32,
                                );
                            assert(k < p);
                        }
                    }
                }
            }
            p = p + 1;
        }
        proof {
            let l = lines as u32;
            assert((1u32 << l) <= 0x4000) by (bit_vector)
                requires
                    l <= 14,
            ;
            assert forall|q: u32| #![trigger bit32(result, q)] q < 32 implies bit32(result, q)
                == f4_target_bit(rt, a, q) by {
                if q >= 16 {
                    crate::bits::lemma_bit32_u16_high_zero(result, q);
                }
            }
            assert((1u32 << 11u32) == 2048 && (1u32 << 12u32) == 4096 && (1u32 << 13u32)
                == 8192 && (1u32 << 14u32) == 16384) by (bit_vector);
            assert(result < rom_type.spec_size_bytes());
        }
        result as usize
    }

    /// Maps a physical address to a logical one for the given family.
    pub fn transform_address(&self, address: usize, family: &StmFamily, rom_type: &RomType) -> (r:
        usize)
        requires
            address < 0x4000,
        ensures
            f4_addr_post(*rom_type, address as u32, r as u32),
            r < rom_type.spec_size_bytes(),
    {
        match family {
            StmFamily::F4 => Self::transform_address_f4(address, rom_type),
        }
    }

    /// The data-pin order of a family: entry `i` is the physical position
    /// logical bit `i` moves to.
    pub open spec fn family_byte_map(family: StmFamily) -> Seq<u8> {
        match family {
            StmFamily::F4 => seq![7u8, 6, 5, 4, 3, 2, 1, 0],
        }
    }

    /// Rearranges a data byte into the physical bit order of the family's
    /// data pins.
    pub fn transform_byte(byte: u8, family: &StmFamily) -> (r: u8)
        ensures
            byte_mangle_post(Self::family_byte_map(*family), byte, r),
    {
        let map: [u8; 8] = match family {
            StmFamily::F4 => [7, 6, 5, 4, 3, 2, 1, 0],
        };
        proof {
            assert(map@ =~= Self::family_byte_map(*family));
        }
        mangle_byte_with(&map, byte)
    }

    /// The byte the hardware reads at a physical address: the address is
    /// mapped to its logical position, the byte fetched there, and its
    /// bits rearranged for the data pins.
    pub fn get_byte(&self, address: usize, family: &StmFamily, rom_type: &RomType) -> (r: u8)
        requires
            address < 0x4000,
            self.data@.len() >= rom_type.spec_size_bytes(),
        ensures
            exists|t: u32|
                {
                    &&& #[trigger] f4_addr_post(*rom_type, address as u32, t)
                    &&& t < self.data@.len()
                    &&& byte_mangle_post(
                        Self::family_byte_map(*family),
                        self.data@[t as int],
                        r,
                    )
                },
    {
        let transformed_address = self.transform_address(address, family, rom_type);
        let byte = self.data[transformed_address];
        let r = Self::transform_byte(byte, family);
        proof {
            assert(f4_addr_post(*rom_type, address as u32, transformed_address as u32));
        }
        r
    }
}

/// A numbered group of ROMs served together.
#[derive(Debug, Clone)]
pub struct RomSet {
    pub id: usize,
    pub roms: Vec<RomInSet>,
}

/// The wiring a multi-ROM member needs in range for serving: its selecting
/// pin and, where its type has them, its CS2 and CS3 pins.
pub open spec fn spec_member_pins_wf(hw: HwConfig, set: RomSet, m: int) -> bool {
    let rt = set.roms@[m].config.rom_type;
    &&& spec_select_pin(hw, set, m) < 16
    &&& (set.roms@[m].config.cs_config.cs2 matches Some(l) && l != crate::types::CsLogic::Ignore
        ==> spec_cs2_pin(hw, rt) < 16)
    &&& (set.roms@[m].config.cs_config.cs3 matches Some(l) && l != crate::types::CsLogic::Ignore
        ==> spec_cs3_pin(hw, rt) < 16)
}

/// The pin that selects member `m` of a set: CS1 for the first member,
/// then the extra selector lines.
pub open spec fn spec_select_pin(hw: HwConfig, set: RomSet, m: int) -> u8 {
    let rt = set.roms@[m].config.rom_type;
    if m == 0 {
        spec_cs1_pin_hw(hw, rt)
    } else if m == 1 {
        match hw.stm.pins.x1 {
            Some(p) => p,
            None => 255,
        }
    } else if m == 2 {
        match hw.stm.pins.x2 {
            Some(p) => p,
            None => 255,
        }
    } else {
        255
    }
}

/// The CS1 pin of a ROM type on a board, or 255.
pub open spec fn spec_cs1_pin_hw(hw: HwConfig, rt: RomType) -> u8 {
    match hw.stm.pins.cs1.spec_get(rt) {
        Some(p) => p,
        None => 255,
    }
}

/// The CS2 pin of a ROM type on a board, or 255.
pub open spec fn spec_cs2_pin(hw: HwConfig, rt: RomType) -> u8 {
    match hw.stm.pins.cs2.spec_get(rt) {
        Some(p) => p,
        None => 255,
    }
}

/// The CS3 pin of a ROM type on a board, or 255.
pub open spec fn spec_cs3_pin(hw: HwConfig, rt: RomType) -> u8 {
    match hw.stm.pins.cs3.spec_get(rt) {
        Some(p) => p,
        None => 255,
    }
}

/// A member's CS2 and CS3 requirements hold for a physical address: an
/// absent or ignored line always holds, an active-low line needs its pin
/// bit clear, an active-high line needs it set.
pub open spec fn spec_cs_requirements(hw: HwConfig, set: RomSet, m: int, address: u32) -> bool {
    let rt = set.roms@[m].config.rom_type;
    let cs = set.roms@[m].config.cs_config;
    &&& match cs.cs2 {
        Some(crate::types::CsLogic::ActiveLow) => !bit32(address, spec_cs2_pin(hw, rt) as u32),
        Some(crate::types::CsLogic::ActiveHigh) => bit32(address, spec_cs2_pin(hw, rt) as u32),
        _ => true,
    }
    &&& match cs.cs3 {
        Some(crate::types::CsLogic::ActiveLow) => !bit32(address, spec_cs3_pin(hw, rt) as u32),
        Some(crate::types::CsLogic::ActiveHigh) => bit32(address, spec_cs3_pin(hw, rt) as u32),
        _ => true,
    }
}

/// A member answers a physical address when its selecting pin is in its
/// active state and its CS2 and CS3 requirements hold.
pub open spec fn spec_member_selected(hw: HwConfig, set: RomSet, m: int, address: u32) -> bool {
    let active = if set.roms@[m].config.cs_config.cs1 == crate::types::CsLogic::ActiveHigh {
        bit32(address, spec_select_pin(hw, set, m) as u32)
    } else {
        !bit32(address, spec_select_pin(hw, set, m) as u32)
    };
    active && spec_cs_requirements(hw, set, m, address)
}

/// The first member of the set, in order, that answers the address.
pub open spec fn spec_first_selected(hw: HwConfig, set: RomSet, address: u32, n: int) -> Option<
    int,
>
    decreases n,
{
    if n <= 0 {
        None
    } else {
        match spec_first_selected(hw, set, address, n - 1) {
            Some(m) => Some(m),
            None => if spec_member_selected(hw, set, n - 1, address) {
                Some(n - 1)
            } else {
                None
            },
        }
    }
}

impl RomSet {
    /// Checks a member's CS2 and CS3 requirements against an address.
    fn check_rom_cs_requirements(&self, m: usize, address: usize, hw: &HwConfig) -> (r: bool)
        requires
            m < self.roms@.len(),
            address < 0x10000,
            spec_member_pins_wf(*hw, *self, m as int),
        ensures
            r == spec_cs_requirements(*hw, *self, m as int, address as u32),
    {
        let rt = self.roms[m].config.rom_type;
        let cs2_ok = match self.roms[m].config.cs_config.cs2 {
            Some(crate::types::CsLogic::ActiveLow) => {
                let pin = hw.pin_cs2(&rt);
                proof {
                    lemma_bit32_test(address as u32, pin as u32);
                }
                (address as u32) & (1u32 << (pin as u32)) == 0
            },
            Some(crate::types::CsLogic::ActiveHigh) => {
                let pin = hw.pin_cs2(&rt);
                proof {
                    lemma_bit32_test(address as u32, pin as u32);
                }
                (address as u32) & (1u32 << (pin as u32)) != 0
            },
            _ => true,
        };
        if !cs2_ok {
            return false;
        }
        let cs3_ok = match self.roms[m].config.cs_config.cs3 {
            Some(crate::types::CsLogic::ActiveLow) => {
                let pin = hw.pin_cs3(&rt);
                proof {
                    lemma_bit32_test(address as u32, pin as u32);
                }
                (address as u32) & (1u32 << (pin as u32)) == 0
            },
            Some(crate::types::CsLogic::ActiveHigh) => {
                let pin = hw.pin_cs3(&rt);
                proof {
                    lemma_bit32_test(address as u32, pin as u32);
                }
                (address as u32) & (1u32 << (pin as u32)) != 0
            },
            _ => true,
        };
        cs3_ok
    }

    /// The byte the set serves at a physical address: a single ROM serves
    /// directly; with several, the first member whose selecting pin is
    /// active and whose CS requirements hold answers, and with none the
    /// idle pattern (all data lines high) is served.
    pub fn get_byte(&self, address: usize, family: &StmFamily, hw: &HwConfig) -> (r: u8)
        requires
            self.roms@.len() > 0,
            address < 0x4000,
            forall|m: int|
                0 <= m < self.roms@.len() ==> (#[trigger] self.roms@[m]).image.data@.len()
                    >= self.roms@[m].config.rom_type.spec_size_bytes(),
            forall|m: int| 0 <= m < self.roms@.len() ==> spec_member_pins_wf(*hw, *self, m),
        ensures
            self.roms@.len() == 1 ==> exists|t: u32|
                {
                    &&& #[trigger] f4_addr_post(self.roms@[0].config.rom_type, address as u32, t)
                    &&& t < self.roms@[0].image.data@.len()
                    &&& byte_mangle_post(
                        RomImage::family_byte_map(*family),
                        self.roms@[0].image.data@[t as int],
                        r,
                    )
                },
            self.roms@.len() > 1 ==> match spec_first_selected(
                *hw,
                *self,
                address as u32,
                self.roms@.len() as int,
            ) {
                Some(m) => exists|t: u32|
                    {
                        &&& #[trigger] f4_addr_post(
                            self.roms@[m].config.rom_type,
                            address as u32,
                            t,
                        )
                        &&& t < self.roms@[m].image.data@.len()
                        &&& byte_mangle_post(
                            RomImage::family_byte_map(*family),
                            self.roms@[m].image.data@[t as int],
                            r,
                        )
                    },
                None => byte_mangle_post(RomImage::family_byte_map(*family), 0xAA, r),
            },
    {
        if self.roms.len() == 1 {
            return self.roms[0].image.get_byte(address, family, &self.roms[0].config.rom_type);
        }
        let mut m: usize = 0;
        while m < self.roms.len()
            invariant
                m <= self.roms@.len(),
                address < 0x4000,
                forall|k: int|
                    0 <= k < self.roms@.len() ==> (#[trigger] self.roms@[k]).image.data@.len()
                        >= self.roms@[k].config.rom_type.spec_size_bytes(),
                forall|k: int| 0 <= k < self.roms@.len() ==> spec_member_pins_wf(*hw, *self, k),
                spec_first_selected(*hw, *self, address as u32, m as int) is None,
            decreases self.roms@.len() - m,
        {
            let rt = self.roms[m].config.rom_type;
            let cs_pin = hw.cs_pin_for_rom_in_set(&rt, m);
            proof {
                assert(spec_member_pins_wf(*hw, *self, m as int));
                assert(cs_pin == spec_select_pin(*hw, *self, m as int));
                assert(cs_pin < 16);
                lemma_bit32_test(address as u32, cs_pin as u32);
            }
            let cs_active = if matches!(
                self.roms[m].config.cs_config.cs1,
                crate::types::CsLogic::ActiveHigh
            ) {
                (address as u32) & (1u32 << (cs_pin as u32)) != 0
            } else {
                (address as u32) & (1u32 << (cs_pin as u32)) == 0
            };
            if cs_active {
                if self.check_rom_cs_requirements(m, address, hw) {
                    proof {
                        assert(spec_member_selected(*hw, *self, m as int, address as u32));
                        assert(spec_first_selected(
                            *hw,
                            *self,
                            address as u32,
                            self.roms@.len() as int,
                        ) == Some(m as int)) by {
                            lemma_first_selected_extends(
                                *hw,
                                *self,
                                address as u32,
                                m as int,
                                self.roms@.len() as int,
                            );
                        }
                    }
                    return self.roms[m].image.get_byte(address, family, &rt);
                }
            }
            proof {
                assert(!spec_member_selected(*hw, *self, m as int, address as u32));
            }
            m = m + 1;
        }
        RomImage::transform_byte(0xAA, family)
    }
}

/// Once a member is the first to answer at position `m`, it stays the
/// first for any longer prefix.
proof fn lemma_first_selected_extends(hw: HwConfig, set: RomSet, address: u32, m: int, n: int)
    requires
        0 <= m < n,
        spec_first_selected(hw, set, address, m) is None,
        spec_member_selected(hw, set, m, address),
    ensures
        spec_first_selected(hw, set, address, n) == Some(m),
    decreases n,
{
    if n == m + 1 {
    } else {
        lemma_first_selected_extends(hw, set, address, m, n - 1);
    }
}

} // verus!

verus! {

/// What bringing a ROM file to its type's size yields: rejected when the
/// size handling does not fit the file's length, else the file repeated or
/// padded to the capacity.
pub open spec fn spec_sized_ok(len: int, expected: int, h: crate::config::SizeHandling) -> bool {
    if len == expected {
        h == crate::config::SizeHandling::Nothing
    } else if len < expected {
        match h {
            crate::config::SizeHandling::Nothing => false,
            crate::config::SizeHandling::Duplicate => expected % len == 0,
            crate::config::SizeHandling::Pad => true,
        }
    } else {
        false
    }
}

impl RomImage {
    /// Builds a validated image from a ROM file's bytes: an exact-size
    /// file is taken as is, a smaller one is repeated whole (when its
    /// length divides the capacity) or padded with the idle byte, and a
    /// larger one is rejected; `dup` or `pad` on an exact-size file is
    /// rejected as unnecessary.
    pub fn from_data(
        data: Vec<u8>,
        rom_type: &crate::types::RomType,
        size_handling: &crate::config::SizeHandling,
    ) -> (r: Result<RomImage, String>)
        requires
            data@.len() > 0,
        ensures
            r is Ok <==> spec_sized_ok(
                data@.len() as int,
                rom_type.spec_size_bytes() as int,
                *size_handling,
            ),
            r matches Ok(img) ==> ({
                &&& img.data@.len() == rom_type.spec_size_bytes()
                &&& forall|i: int|
                    0 <= i < img.data@.len() ==> #[trigger] img.data@[i] == (if i < data@.len() {
                        data@[i]
                    } else if *size_handling == crate::config::SizeHandling::Duplicate {
                        data@[i % (data@.len() as int)]
                    } else {
                        0xAAu8
                    })
            }),
    {
        let expected = rom_type.size_bytes();
        let len = data.len();
        if len == expected {
            if matches!(size_handling, crate::config::SizeHandling::Nothing) {
                proof {
                    assert forall|i: int| 0 <= i < data@.len() implies data@[i] == data@[i] by {}
                }
                return Ok(RomImage { data });
            }
            return Err(
                <String as vstd::string::StringExecFns>::from_str(
                    "ROM file is already correct size, 'dup' or 'pad' not needed",
                ),
            );
        }
        if len > expected {
            return Err(<String as vstd::string::StringExecFns>::from_str("ROM file too large"));
        }
        match size_handling {
            crate::config::SizeHandling::Nothing => Err(
                <String as vstd::string::StringExecFns>::from_str("Invalid ROM size for the ROM type"),
            ),
            crate::config::SizeHandling::Duplicate => {
                if expected % len != 0 {
                    return Err(
                        <String as vstd::string::StringExecFns>::from_str(
                            "ROM size is not an exact divisor of the expected size",
                        ),
                    );
                }
                let mut out: Vec<u8> = Vec::new();
                let mut i: usize = 0;
                while i < expected
                    invariant
                        out@.len() == i,
                        i <= expected,
                        len == data@.len(),
                        0 < len <= expected,
                        forall|k: int|
                            0 <= k < i ==> #[trigger] out@[k] == data@[k % (data@.len() as int)],
                    decreases expected - i,
                {
                    out.push(data[i % len]);
                    i = i + 1;
                }
                proof {
                    assert forall|k: int| 0 <= k < out@.len() implies #[trigger] out@[k] == (
                    if k < data@.len() {
                        data@[k]
                    } else {
                        data@[k % (data@.len() as int)]
                    }) by {
                        if k < data@.len() {
                            assert(k % (data@.len() as int) == k) by (nonlinear_arith)
                                requires
                                    0 <= k < data@.len(),
                            ;
                        }
                    }
                }
                Ok(RomImage { data: out })
            },
            crate::config::SizeHandling::Pad => {
                let mut out = data;
                while out.len() < expected
                    invariant
                        out@.len() <= expected,
                        out@.len() >= len,
                        len == data@.len(),
                        forall|k: int| 0 <= k < len ==> out@[k] == data@[k],
                        forall|k: int| len <= k < out@.len() ==> out@[k] == 0xAAu8,
                    decreases expected - out@.len(),
                {
                    out.push(0xAA);
                }
                Ok(RomImage { data: out })
            },
        }
    }
}

} // verus!

verus! {

/// Whether bit `q` of a physical address survives masking out the
/// chip-select and selector bits for a ROM type on a board: only address
/// bits below thirteen that sit on no select line.
pub open spec fn spec_mask_keeps(hw: HwConfig, rt: RomType, q: u32) -> bool {
    &&& q < 13
    &&& q != spec_cs1_pin_hw(hw, rt)
    &&& ((hw.stm.pins.x1 is Some && hw.stm.pins.x2 is Some && hw.stm.pins.x1->0 < 255
        && hw.stm.pins.x2->0 < 255) ==> q != hw.stm.pins.x1->0 && q != hw.stm.pins.x2->0)
    &&& (rt == RomType::Rom2332 || rt == RomType::Rom2316 ==> q != spec_cs2_pin(hw, rt))
    &&& (rt == RomType::Rom2316 ==> q != spec_cs3_pin(hw, rt))
}

impl RomSet {
    /// Masks the chip-select and selector bits out of a physical address,
    /// leaving the address bits the ROM itself decodes (at most thirteen).
    pub fn mask_cs_selection_bits(&self, address: usize, rom_type: &RomType, hw: &HwConfig) -> (r:
        usize)
        requires
            address < 0x10000,
            spec_cs1_pin_hw(*hw, *rom_type) < 16,
            (hw.stm.pins.x1 is Some && hw.stm.pins.x2 is Some && hw.stm.pins.x1->0 < 255
                && hw.stm.pins.x2->0 < 255) ==> (hw.stm.pins.x1->0 < 15 && hw.stm.pins.x2->0
                < 15),
            rt_uses_cs2(*rom_type) ==> spec_cs2_pin(*hw, *rom_type) < 16,
            *rom_type == RomType::Rom2316 ==> spec_cs3_pin(*hw, *rom_type) < 16,
        ensures
            r < 0x2000,
            forall|q: u32|
                q < 32 ==> bit32(r as u32, q) == (bit32(address as u32, q) && spec_mask_keeps(
                    *hw,
                    *rom_type,
                    q,
                )),
    {
        let a = address as u32;
        let cs1 = hw.pin_cs1(rom_type);
        let a1 = a & !(1u32 << (cs1 as u32));
        let multi = hw.supports_multi_rom_sets();
        let a2 = if multi {
            let ax = a1 & !(1u32 << (hw.pin_x1() as u32));
            ax & !(1u32 << (hw.pin_x2() as u32))
        } else {
            a1
        };
        let a3 = match rom_type {
            RomType::Rom2332 => a2 & !(1u32 << (hw.pin_cs2(rom_type) as u32)),
            RomType::Rom2316 => {
                let ac = a2 & !(1u32 << (hw.pin_cs2(rom_type) as u32));
                ac & !(1u32 << (hw.pin_cs3(rom_type) as u32))
            },
            _ => a2,
        };
        let result = a3 & 0x1FFF;
        let r_out = result as usize;
        proof {
            assert(r_out as u32 == result);
            assert(((1u32 << 13u32) - 1) as u32 == 0x1FFF) by (bit_vector);
            assert(result < 0x2000) by (bit_vector)
                requires
                    result == a3 & 0x1FFF,
            ;
            assert forall|q: u32| q < 32 implies bit32(r_out as u32, q) == (bit32(a, q)
                && spec_mask_keeps(*hw, *rom_type, q)) by {
                crate::bits::lemma_bit32_andnot_one(a, spec_cs1_pin_hw(*hw, *rom_type) as u32, q);
                if multi {
                    crate::bits::lemma_bit32_andnot_one(a1, hw.stm.pins.x1->0 as u32, q);
                    crate::bits::lemma_bit32_andnot_one(
                        a1 & !(1u32 << (hw.stm.pins.x1->0 as u32)),
                        hw.stm.pins.x2->0 as u32,
                        q,
                    );
                }
                if rt_uses_cs2(*rom_type) {
                    crate::bits::lemma_bit32_andnot_one(a2, spec_cs2_pin(*hw, *rom_type) as u32, q);
                }
                if *rom_type == RomType::Rom2316 {
                    crate::bits::lemma_bit32_andnot_one(
                        a2 & !(1u32 << (spec_cs2_pin(*hw, *rom_type) as u32)),
                        spec_cs3_pin(*hw, *rom_type) as u32,
                        q,
                    );
                }
                crate::bits::lemma_bit32_and(a3, 0x1FFF, q);
                crate::bits::lemma_bit32_low_mask(13, q);
            }
            assert(forall|q: u32|
                q < 32 ==> #[trigger] bit32(r_out as u32, q) == (bit32(address as u32, q)
                    && spec_mask_keeps(*hw, *rom_type, q)));
        }
        r_out
    }
}

/// Whether a ROM type has a second chip-select line.
pub open spec fn rt_uses_cs2(rt: RomType) -> bool {
    rt == RomType::Rom2332 || rt == RomType::Rom2316
}

} // verus!
