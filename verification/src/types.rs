//! ROM and microcontroller catalogue types shared by the generation and
//! inspection sides: capacities, clock limits, PLL computation, and the
//! fixed strings each part contributes to generated build files.

use crate::strutil::dec_spec;
use crate::strutil::lower_of;
use crate::strutil::lowercase;
use crate::strutil::str_eq;
use vstd::prelude::*;
use vstd::string::StringExecFns;

verus! {

/// A ROM type the device can emulate.
#[derive(Debug, Clone, Copy, PartialEq, Eq, Hash, Structural)]
pub enum RomType {
    Rom2316,
    Rom2332,
    Rom2364,
    Rom23128,
}

impl RomType {
    /// The ROM type a name selects, after case folding.
    pub open spec fn spec_from_str(t: Seq<char>) -> Option<RomType> {
        if t == "2316"@ {
            Some(RomType::Rom2316)
        } else if t == "2332"@ {
            Some(RomType::Rom2332)
        } else if t == "2364"@ {
            Some(RomType::Rom2364)
        } else if t == "23128"@ {
            Some(RomType::Rom23128)
        } else {
            None
        }
    }

    /// Parses a ROM type name, ignoring case.
    pub fn try_from_str(s: &str) -> (r: Option<RomType>)
        ensures
            r == RomType::spec_from_str(lower_of(s@)),
    {
        let low = lowercase(s);
        if str_eq(low.as_str(), "2316") {
            Some(RomType::Rom2316)
        } else if str_eq(low.as_str(), "2332") {
            Some(RomType::Rom2332)
        } else if str_eq(low.as_str(), "2364") {
            Some(RomType::Rom2364)
        } else if str_eq(low.as_str(), "23128") {
            Some(RomType::Rom23128)
        } else {
            None
        }
    }

    /// Number of address lines the ROM type decodes.
    pub open spec fn spec_num_addr_lines(self) -> usize {
        match self {
            RomType::Rom2316 => 11,
            RomType::Rom2332 => 12,
            RomType::Rom2364 => 13,
            RomType::Rom23128 => 14,
        }
    }

    /// Number of address lines the ROM type decodes.
    pub fn num_addr_lines(&self) -> (r: usize)
        ensures
            r == self.spec_num_addr_lines(),
    {
        match self {
            RomType::Rom2316 => 11,
            RomType::Rom2332 => 12,
            RomType::Rom2364 => 13,
            RomType::Rom23128 => 14,
        }
    }

    /// Capacity in bytes: two to the number of address lines.
    pub open spec fn spec_size_bytes(self) -> usize {
        match self {
            RomType::Rom2316 => 2048,
            RomType::Rom2332 => 4096,
            RomType::Rom2364 => 8192,
            RomType::Rom23128 => 16384,
        }
    }

    /// Capacity in bytes.
    pub fn size_bytes(&self) -> (r: usize)
        ensures
            r == self.spec_size_bytes(),
            r == (1usize << self.spec_num_addr_lines()),
    {
        proof {
            assert(1usize << 11usize == 2048) by (bit_vector);
            assert(1usize << 12usize == 4096) by (bit_vector);
            assert(1usize << 13usize == 8192) by (bit_vector);
            assert(1usize << 14usize == 16384) by (bit_vector);
        }
        match self {
            RomType::Rom2316 => 2048,
            RomType::Rom2332 => 4096,
            RomType::Rom2364 => 8192,
            RomType::Rom23128 => 16384,
        }
    }

    /// How many chip-select lines the package has.
    pub fn cs_lines_count(&self) -> (r: usize)
        ensures
            r == match *self {
                RomType::Rom2316 => 3usize,
                RomType::Rom2332 => 2usize,
                RomType::Rom2364 => 1usize,
                RomType::Rom23128 => 2usize,
            },
    {
        match self {
            RomType::Rom2316 => 3,
            RomType::Rom2332 => 2,
            RomType::Rom2364 => 1,
            RomType::Rom23128 => 2,
        }
    }

    /// The ROM type's name.
    pub fn name(&self) -> (r: &'static str)
        ensures
            r@ == match *self {
                RomType::Rom2316 => "2316"@,
                RomType::Rom2332 => "2332"@,
                RomType::Rom2364 => "2364"@,
                RomType::Rom23128 => "23128"@,
            },
    {
        match self {
            RomType::Rom2316 => "2316",
            RomType::Rom2332 => "2332",
            RomType::Rom2364 => "2364",
            RomType::Rom23128 => "23128",
        }
    }

    /// The enumerator name generated build files use for the type.
    pub fn c_enum(&self) -> (r: &'static str)
        ensures
            r@ == match *self {
                RomType::Rom2316 => "ROM_TYPE_2316"@,
                RomType::Rom2332 => "ROM_TYPE_2332"@,
                RomType::Rom2364 => "ROM_TYPE_2364"@,
                RomType::Rom23128 => "ROM_TYPE_23128"@,
            },
    {
        match self {
            RomType::Rom2316 => "ROM_TYPE_2316",
            RomType::Rom2332 => "ROM_TYPE_2332",
            RomType::Rom2364 => "ROM_TYPE_2364",
            RomType::Rom23128 => "ROM_TYPE_23128",
        }
    }
}

/// Microcontroller family.
#[derive(Debug, Clone, Copy, PartialEq, Eq, Structural)]
pub enum StmFamily {
    F4,
}

impl StmFamily {
    /// Parses a family name, ignoring case.
    pub fn try_from_str(s: &str) -> (r: Option<StmFamily>)
        ensures
            r == (if lower_of(s@) == "f4"@ {
                Some(StmFamily::F4)
            } else {
                None::<StmFamily>
            }),
    {
        let low = lowercase(s);
        if str_eq(low.as_str(), "f4") {
            Some(StmFamily::F4)
        } else {
            None
        }
    }

    /// The family's display name.
    pub fn name(&self) -> (r: &'static str)
        ensures
            r@ == "F4"@,
    {
        match self {
            StmFamily::F4 => "F4",
        }
    }
}

/// Microcontroller processor grouping: parts that share clock limits.
#[derive(Debug, Clone, Copy, PartialEq, Eq, Structural)]
pub enum StmProcessor {
    F401BC,
    F401DE,
    F405,
    F411,
    F446,
}

impl StmProcessor {
    /// Lowest admissible VCO frequency, in MHz.
    pub open spec fn spec_vco_min_mhz(self) -> u32 {
        match self {
            StmProcessor::F401BC => 192,
            StmProcessor::F401DE => 192,
            StmProcessor::F405 => 100,
            StmProcessor::F411 => 100,
            StmProcessor::F446 => 100,
        }
    }

    /// Lowest admissible VCO frequency, in MHz.
    pub fn vco_min_mhz(&self) -> (r: u32)
        ensures
            r == self.spec_vco_min_mhz(),
    {
        match self {
            StmProcessor::F401BC => 192,
            StmProcessor::F401DE => 192,
            StmProcessor::F405 => 100,
            StmProcessor::F411 => 100,
            StmProcessor::F446 => 100,
        }
    }

    /// Highest admissible VCO frequency, in MHz; raised when overclocking.
    pub open spec fn spec_vco_max_mhz(self, overclock: bool) -> u32 {
        if !overclock {
            432
        } else {
            800
        }
    }

    /// Highest admissible VCO frequency, in MHz; raised when overclocking.
    pub fn vco_max_mhz(&self, overclock: bool) -> (r: u32)
        ensures
            r == self.spec_vco_max_mhz(overclock),
    {
        if !overclock {
            432
        } else {
            800
        }
    }

    /// Rated system clock ceiling, in MHz.
    pub open spec fn spec_max_sysclk_mhz(self) -> u32 {
        match self {
            StmProcessor::F401BC => 84,
            StmProcessor::F401DE => 84,
            StmProcessor::F405 => 168,
            StmProcessor::F411 => 100,
            StmProcessor::F446 => 180,
        }
    }

    /// Rated system clock ceiling, in MHz.
    pub fn max_sysclk_mhz(&self) -> (r: u32)
        ensures
            r == self.spec_max_sysclk_mhz(),
    {
        match self {
            StmProcessor::F401BC => 84,
            StmProcessor::F401DE => 84,
            StmProcessor::F405 => 168,
            StmProcessor::F411 => 100,
            StmProcessor::F446 => 180,
        }
    }

    /// The PLL values one divisor choice yields for a target frequency, if
    /// admissible: VCO input is 2 MHz (HSI 16 MHz over PLLM 8), PLLN the
    /// VCO over 2, PLLQ the VCO over 48 rounded then clamped to 2..15.
    pub open spec fn spec_pll_attempt(self, target: int, overclock: bool, pllp: int) -> Option<
        (u8, u16, u8, u8),
    > {
        let vco = target * pllp;
        if self.spec_vco_min_mhz() <= vco <= self.spec_vco_max_mhz(overclock) && 50 <= vco / 2
            <= 432 {
            let q_raw = (2 * vco + 48) / 96;
            let q = if q_raw < 2 {
                2
            } else if q_raw > 15 {
                15
            } else {
                q_raw
            };
            Some((8u8, (vco / 2) as u16, pllp as u8, q as u8))
        } else {
            None
        }
    }

    /// The PLL values for a target frequency: the first admissible divisor
    /// among 2, 4, 6 and 8, or none (also none when the target is above the
    /// rated ceiling and overclocking is off).
    pub open spec fn spec_calculate_pll_hsi(self, target: int, overclock: bool) -> Option<
        (u8, u16, u8, u8),
    > {
        if target > self.spec_max_sysclk_mhz() && !overclock {
            None
        } else if self.spec_pll_attempt(target, overclock, 2) is Some {
            self.spec_pll_attempt(target, overclock, 2)
        } else if self.spec_pll_attempt(target, overclock, 4) is Some {
            self.spec_pll_attempt(target, overclock, 4)
        } else if self.spec_pll_attempt(target, overclock, 6) is Some {
            self.spec_pll_attempt(target, overclock, 6)
        } else {
            self.spec_pll_attempt(target, overclock, 8)
        }
    }

    /// Calculates PLL values (PLLM, PLLN, PLLP, PLLQ) for a target
    /// frequency driven from the 16 MHz internal oscillator, or none when
    /// the frequency is not achievable.
    #[verifier::rlimit(50)]
    pub fn calculate_pll_hsi(&self, target_freq_mhz: u32, overclock: bool) -> (r: Option<
        (u8, u16, u8, u8),
    >)
        ensures
            r == self.spec_calculate_pll_hsi(target_freq_mhz as int, overclock),
    {
        if target_freq_mhz > self.max_sysclk_mhz() && !overclock {
            return None;
        }
        let target = target_freq_mhz as u64;
        let vco_min = self.vco_min_mhz() as u64;
        let vco_max = self.vco_max_mhz(overclock) as u64;
        let mut pllp: u64 = 2;
        while pllp <= 8
            invariant
                pllp == 2 || pllp == 4 || pllp == 6 || pllp == 8 || pllp == 10,
                target == target_freq_mhz,
                vco_min == self.spec_vco_min_mhz(),
                vco_max == self.spec_vco_max_mhz(overclock),
                !(target_freq_mhz > self.spec_max_sysclk_mhz() && !overclock),
                forall|p: int|
                    2 <= p < pllp && (p == 2 || p == 4 || p == 6 || p == 8)
                        ==> #[trigger] self.spec_pll_attempt(
                        target_freq_mhz as int,
                        overclock,
                        p,
                    ) is None,
            decreases 8 - pllp + 2,
        {
            let vco = target * pllp;
            if vco >= vco_min && vco <= vco_max {
                let plln = vco / 2;
                if 50 <= plln && plln <= 432 {
                    let q_raw = (2 * vco + 48) / 96;
                    let q: u64 = if q_raw < 2 {
                        2
                    } else if q_raw > 15 {
                        15
                    } else {
                        q_raw
                    };
                    proof {
                        assert(vco == target_freq_mhz as int * pllp as int);
                        assert(self.spec_pll_attempt(
                            target_freq_mhz as int,
                            overclock,
                            pllp as int,
                        ) == Some((8u8, plln as u16, pllp as u8, q as u8)));
                        assert(pllp == 2 || pllp == 4 || pllp == 6 || pllp == 8);
                        if pllp >= 4 {
                            assert(self.spec_pll_attempt(
                                target_freq_mhz as int,
                                overclock,
                                2,
                            ) is None);
                        }
                        if pllp >= 6 {
                            assert(self.spec_pll_attempt(
                                target_freq_mhz as int,
                                overclock,
                                4,
                            ) is None);
                        }
                        if pllp >= 8 {
                            assert(self.spec_pll_attempt(
                                target_freq_mhz as int,
                                overclock,
                                6,
                            ) is None);
                        }
                        assert(!(target_freq_mhz as int > self.spec_max_sysclk_mhz()
                            && !overclock));
                        if pllp == 2 {
                            assert(self.spec_pll_attempt(target_freq_mhz as int, overclock, 2)
                                == Some((8u8, plln as u16, pllp as u8, q as u8)));
                        } else if pllp == 4 {
                            assert(self.spec_pll_attempt(target_freq_mhz as int, overclock, 4)
                                == Some((8u8, plln as u16, pllp as u8, q as u8)));
                        } else if pllp == 6 {
                            assert(self.spec_pll_attempt(target_freq_mhz as int, overclock, 6)
                                == Some((8u8, plln as u16, pllp as u8, q as u8)));
                        } else {
                            assert(self.spec_pll_attempt(target_freq_mhz as int, overclock, 8)
                                == Some((8u8, plln as u16, pllp as u8, q as u8)));
                        }
                        assert(self.spec_calculate_pll_hsi(target_freq_mhz as int, overclock)
                            == Some((8u8, plln as u16, pllp as u8, q as u8)));
                    }
                    return Some((8u8, plln as u16, pllp as u8, q as u8));
                }
            }
            pllp = pllp + 2;
        }
        None
    }

    /// The generated PLL define block for a target frequency.
    pub open spec fn spec_pll_defines(self, target: int, overclock: bool) -> Option<Seq<char>> {
        match self.spec_calculate_pll_hsi(target, overclock) {
            Some(mnpq) => {
                let fvco = 2 * mnpq.1;
                let sysclk = fvco as int / mnpq.2 as int;
                let usb = fvco as int / mnpq.3 as int;
                let p_reg = if mnpq.2 == 2 {
                    "0b00"@
                } else if mnpq.2 == 4 {
                    "0b01"@
                } else if mnpq.2 == 6 {
                    "0b10"@
                } else {
                    "0b11"@
                };
                Some(
                    "//   HSI=16MHz\n//   VCO_input=2MHz\n//   fVCO="@ + dec_spec(fvco as nat)
                        + "MHz\n//   SYSCLK="@ + dec_spec(sysclk as nat) + "MHz\n//   USB="@
                        + dec_spec(usb as nat) + "MHz\n#define PLL_M    8\n#define PLL_N    "@
                        + dec_spec(mnpq.1 as nat) + "\n#define PLL_P    "@ + p_reg + "  // div "@
                        + dec_spec(mnpq.2 as nat) + "\n#define PLL_Q    "@ + dec_spec(
                        mnpq.3 as nat,
                    ),
                )
            },
            None => None,
        }
    }

    /// Renders the PLL define block for a target frequency, or none when
    /// the frequency is not achievable.
    pub fn generate_pll_defines(&self, target_freq_mhz: u32, overclock: bool) -> (r: Option<
        String,
    >)
        ensures
            (r is Some) == (self.spec_calculate_pll_hsi(target_freq_mhz as int, overclock)
                is Some),
            r matches Some(s) ==> Some(s@) == self.spec_pll_defines(
                target_freq_mhz as int,
                overclock,
            ),
    {
        match self.calculate_pll_hsi(target_freq_mhz, overclock) {
            Some((m, n, p, q)) => {
                let fvco: u32 = 2 * (n as u32);
                let sysclk: u32 = fvco / (p as u32);
                let usb: u32 = fvco / (q as u32);
                let p_reg: &'static str = if p == 2 {
                    "0b00"
                } else if p == 4 {
                    "0b01"
                } else if p == 6 {
                    "0b10"
                } else {
                    "0b11"
                };
                let mut s = String::from_str("//   HSI=16MHz\n//   VCO_input=2MHz\n//   fVCO=");
                crate::strutil::append_decimal(&mut s, fvco);
                s.append("MHz\n//   SYSCLK=");
                crate::strutil::append_decimal(&mut s, sysclk);
                s.append("MHz\n//   USB=");
                crate::strutil::append_decimal(&mut s, usb);
                s.append("MHz\n#define PLL_M    8\n#define PLL_N    ");
                crate::strutil::append_decimal(&mut s, n as u32);
                s.append("\n#define PLL_P    ");
                s.append(p_reg);
                s.append("  // div ");
                crate::strutil::append_decimal(&mut s, p as u32);
                s.append("\n#define PLL_Q    ");
                crate::strutil::append_decimal(&mut s, q as u32);
                Some(s)
            },
            None => None,
        }
    }

    /// A target frequency is achievable exactly when a PLL configuration
    /// exists for it.
    pub fn is_frequency_valid(&self, target_freq_mhz: u32, overclock: bool) -> (r: bool)
        ensures
            r == (self.spec_calculate_pll_hsi(target_freq_mhz as int, overclock) is Some),
    {
        self.calculate_pll_hsi(target_freq_mhz, overclock).is_some()
    }
}

} // verus!

verus! {

/// A specific microcontroller part.
#[derive(Debug, Clone, Copy, PartialEq, Eq, Structural)]
pub enum StmVariant {
    F446RC,
    F446RE,
    F411RC,
    F411RE,
    F405RG,
    F401RE,
    F401RB,
    F401RC,
}

impl StmVariant {
    /// The variant a name selects, after case folding.
    pub open spec fn spec_from_str(t: Seq<char>) -> Option<StmVariant> {
        if t == "f446rc"@ {
            Some(StmVariant::F446RC)
        } else if t == "f446re"@ {
            Some(StmVariant::F446RE)
        } else if t == "f411rc"@ {
            Some(StmVariant::F411RC)
        } else if t == "f411re"@ {
            Some(StmVariant::F411RE)
        } else if t == "f405rg"@ {
            Some(StmVariant::F405RG)
        } else if t == "f401re"@ {
            Some(StmVariant::F401RE)
        } else if t == "f401rb"@ {
            Some(StmVariant::F401RB)
        } else if t == "f401rc"@ {
            Some(StmVariant::F401RC)
        } else {
            None
        }
    }

    /// Parses a variant name, ignoring case.
    pub fn try_from_str(s: &str) -> (r: Option<StmVariant>)
        ensures
            r == StmVariant::spec_from_str(lower_of(s@)),
    {
        let low = lowercase(s);
        if str_eq(low.as_str(), "f446rc") {
            Some(StmVariant::F446RC)
        } else if str_eq(low.as_str(), "f446re") {
            Some(StmVariant::F446RE)
        } else if str_eq(low.as_str(), "f411rc") {
            Some(StmVariant::F411RC)
        } else if str_eq(low.as_str(), "f411re") {
            Some(StmVariant::F411RE)
        } else if str_eq(low.as_str(), "f405rg") {
            Some(StmVariant::F405RG)
        } else if str_eq(low.as_str(), "f401re") {
            Some(StmVariant::F401RE)
        } else if str_eq(low.as_str(), "f401rb") {
            Some(StmVariant::F401RB)
        } else if str_eq(low.as_str(), "f401rc") {
            Some(StmVariant::F401RC)
        } else {
            None
        }
    }

    /// The enumerator name of the variant's product line.
    pub fn line_enum(&self) -> (r: &'static str)
        ensures
            r@ == match *self {
                StmVariant::F446RC | StmVariant::F446RE => "F446"@,
                StmVariant::F411RC | StmVariant::F411RE => "F411"@,
                StmVariant::F405RG => "F405"@,
                StmVariant::F401RE => "F401DE"@,
                StmVariant::F401RB | StmVariant::F401RC => "F401BC"@,
            },
    {
        match self {
            StmVariant::F446RC | StmVariant::F446RE => "F446",
            StmVariant::F411RC | StmVariant::F411RE => "F411",
            StmVariant::F405RG => "F405",
            StmVariant::F401RE => "F401DE",
            StmVariant::F401RB | StmVariant::F401RC => "F401BC",
        }
    }

    /// The enumerator name of the variant's storage class.
    pub fn storage_enum(&self) -> (r: &'static str)
        ensures
            r@ == match *self {
                StmVariant::F446RC => "STORAGE_C"@,
                StmVariant::F446RE => "STORAGE_E"@,
                StmVariant::F411RC => "STORAGE_C"@,
                StmVariant::F411RE => "STORAGE_E"@,
                StmVariant::F405RG => "STORAGE_G"@,
                StmVariant::F401RE => "STORAGE_E"@,
                StmVariant::F401RB => "STORAGE_B"@,
                StmVariant::F401RC => "STORAGE_C"@,
            },
    {
        match self {
            StmVariant::F446RC => "STORAGE_C",
            StmVariant::F446RE => "STORAGE_E",
            StmVariant::F411RC => "STORAGE_C",
            StmVariant::F411RE => "STORAGE_E",
            StmVariant::F405RG => "STORAGE_G",
            StmVariant::F401RE => "STORAGE_E",
            StmVariant::F401RB => "STORAGE_B",
            StmVariant::F401RC => "STORAGE_C",
        }
    }

    /// Flash size in kilobytes.
    pub open spec fn spec_flash_storage_kb(self) -> usize {
        match self {
            StmVariant::F446RC => 256,
            StmVariant::F446RE => 512,
            StmVariant::F411RC => 256,
            StmVariant::F411RE => 512,
            StmVariant::F405RG => 1024,
            StmVariant::F401RB => 128,
            StmVariant::F401RC => 256,
            StmVariant::F401RE => 512,
        }
    }

    /// Flash size in kilobytes.
    pub fn flash_storage_kb(&self) -> (r: usize)
        ensures
            r == self.spec_flash_storage_kb(),
    {
        match self {
            StmVariant::F446RC => 256,
            StmVariant::F446RE => 512,
            StmVariant::F411RC => 256,
            StmVariant::F411RE => 512,
            StmVariant::F405RG => 1024,
            StmVariant::F401RB => 128,
            StmVariant::F401RC => 256,
            StmVariant::F401RE => 512,
        }
    }

    /// Flash size in bytes.
    fn flash_storage_bytes(&self) -> (r: usize)
        ensures
            r == self.spec_flash_storage_kb() * 1024,
    {
        self.flash_storage_kb() * 1024
    }

    /// RAM size in kilobytes.
    pub open spec fn spec_ram_kb(self) -> usize {
        match self {
            StmVariant::F446RC | StmVariant::F446RE => 128,
            StmVariant::F411RC | StmVariant::F411RE => 128,
            StmVariant::F405RG => 128,
            StmVariant::F401RB | StmVariant::F401RC => 64,
            StmVariant::F401RE => 96,
        }
    }

    /// RAM size in kilobytes.
    pub fn ram_kb(&self) -> (r: usize)
        ensures
            r == self.spec_ram_kb(),
    {
        match self {
            StmVariant::F446RC | StmVariant::F446RE => 128,
            StmVariant::F411RC | StmVariant::F411RE => 128,
            StmVariant::F405RG => 128,
            StmVariant::F401RB | StmVariant::F401RC => 64,
            StmVariant::F401RE => 96,
        }
    }

    /// Banked ROM images need more than 72 KB of RAM and at least 96 KB of
    /// flash: four banked 16 KB images plus logging and working space.
    pub fn supports_banked_roms(&self) -> (r: bool)
        ensures
            r == (self.spec_ram_kb() > 72 && self.spec_flash_storage_kb() >= 96),
    {
        self.ram_kb() > 72 && self.flash_storage_kb() >= 96
    }

    /// Multi-ROM sets have the same resource needs as banked ROMs.
    pub fn supports_multi_rom_sets(&self) -> (r: bool)
        ensures
            r == (self.spec_ram_kb() > 72 && self.spec_flash_storage_kb() >= 96),
    {
        self.supports_banked_roms()
    }

    /// Core-coupled RAM in kilobytes, on the one part that has it.
    pub fn ccm_ram_kb(&self) -> (r: Option<usize>)
        ensures
            *self == StmVariant::F405RG ==> r == Some(64usize),
            *self != StmVariant::F405RG ==> r is None,
    {
        match self {
            StmVariant::F405RG => Some(64),
            _ => None,
        }
    }

    /// The generated define for the flash size in bytes.
    pub fn define_flash_size_bytes(&self) -> (r: String)
        ensures
            r@ == "#define STM_FLASH_SIZE "@ + dec_spec((self.spec_flash_storage_kb() * 1024) as nat),
    {
        let mut s = String::from_str("#define STM_FLASH_SIZE ");
        crate::strutil::append_decimal(&mut s, self.flash_storage_bytes() as u32);
        s
    }

    /// The generated define for the flash size in kilobytes.
    pub fn define_flash_size_kb(&self) -> (r: String)
        ensures
            r@ == "#define STM_FLASH_SIZE_KB "@ + dec_spec(self.spec_flash_storage_kb() as nat),
    {
        let mut s = String::from_str("#define STM_FLASH_SIZE_KB ");
        crate::strutil::append_decimal(&mut s, self.flash_storage_kb() as u32);
        s
    }

    /// The generated define for the RAM size in bytes.
    pub fn define_ram_size_bytes(&self) -> (r: String)
        ensures
            r@ == "#define STM_RAM_SIZE "@ + dec_spec((self.spec_ram_kb() * 1024) as nat),
    {
        let mut s = String::from_str("#define STM_RAM_SIZE ");
        crate::strutil::append_decimal(&mut s, (self.ram_kb() * 1024) as u32);
        s
    }

    /// The generated define for the RAM size in kilobytes.
    pub fn define_ram_size_kb(&self) -> (r: String)
        ensures
            r@ == "#define STM_RAM_SIZE_KB "@ + dec_spec(self.spec_ram_kb() as nat),
    {
        let mut s = String::from_str("#define STM_RAM_SIZE_KB ");
        crate::strutil::append_decimal(&mut s, self.ram_kb() as u32);
        s
    }

    /// The generated define naming the variant's sub-family.
    pub fn define_var_sub_fam(&self) -> (r: &'static str)
        ensures
            r@ == match *self {
                StmVariant::F446RC | StmVariant::F446RE => "#define STM32F446      1"@,
                StmVariant::F411RC | StmVariant::F411RE => "#define STM32F411      1"@,
                StmVariant::F405RG => "#define STM32F405      1"@,
                StmVariant::F401RE => "#define STM32F401DE    1"@,
                StmVariant::F401RB | StmVariant::F401RC => "#define STM32F401BC    1"@,
            },
    {
        match self {
            StmVariant::F446RC | StmVariant::F446RE => "#define STM32F446      1",
            StmVariant::F411RC | StmVariant::F411RE => "#define STM32F411      1",
            StmVariant::F405RG => "#define STM32F405      1",
            StmVariant::F401RE => "#define STM32F401DE    1",
            StmVariant::F401RB | StmVariant::F401RC => "#define STM32F401BC    1",
        }
    }

    /// Every supported variant belongs to the F4 family.
    pub fn family(&self) -> (r: StmFamily)
        ensures
            r == StmFamily::F4,
    {
        match self {
            StmVariant::F446RC
            | StmVariant::F446RE
            | StmVariant::F411RC
            | StmVariant::F411RE
            | StmVariant::F405RG
            | StmVariant::F401RE
            | StmVariant::F401RB
            | StmVariant::F401RC => StmFamily::F4,
        }
    }

    /// The processor grouping of the variant.
    pub open spec fn spec_processor(self) -> StmProcessor {
        match self {
            StmVariant::F446RC | StmVariant::F446RE => StmProcessor::F446,
            StmVariant::F411RC | StmVariant::F411RE => StmProcessor::F411,
            StmVariant::F405RG => StmProcessor::F405,
            StmVariant::F401RE => StmProcessor::F401DE,
            StmVariant::F401RB | StmVariant::F401RC => StmProcessor::F401BC,
        }
    }

    /// The processor grouping of the variant.
    pub fn processor(&self) -> (r: StmProcessor)
        ensures
            r == self.spec_processor(),
    {
        match self {
            StmVariant::F446RC | StmVariant::F446RE => StmProcessor::F446,
            StmVariant::F411RC | StmVariant::F411RE => StmProcessor::F411,
            StmVariant::F405RG => StmProcessor::F405,
            StmVariant::F401RE => StmProcessor::F401DE,
            StmVariant::F401RB | StmVariant::F401RC => StmProcessor::F401BC,
        }
    }

    /// The generated define naming the family.
    pub fn define_var_fam(&self) -> (r: &'static str)
        ensures
            r@ == "#define STM32F4        1"@,
    {
        match self.family() {
            StmFamily::F4 => "#define STM32F4        1",
        }
    }

    /// The generated define carrying the variant's name.
    pub fn define_var_str(&self) -> (r: &'static str)
        ensures
            r@ == match *self {
                StmVariant::F446RC => "#define STM_VARIANT    \"F446RC\""@,
                StmVariant::F446RE => "#define STM_VARIANT    \"F446RE\""@,
                StmVariant::F411RC => "#define STM_VARIANT    \"F411RC\""@,
                StmVariant::F411RE => "#define STM_VARIANT    \"F411RE\""@,
                StmVariant::F405RG => "#define STM_VARIANT    \"F405RG\""@,
                StmVariant::F401RE => "#define STM_VARIANT    \"F401RE\""@,
                StmVariant::F401RB => "#define STM_VARIANT    \"F401RB\""@,
                StmVariant::F401RC => "#define STM_VARIANT    \"F401RC\""@,
            },
    {
        match self {
            StmVariant::F446RC => "#define STM_VARIANT    \"F446RC\"",
            StmVariant::F446RE => "#define STM_VARIANT    \"F446RE\"",
            StmVariant::F411RC => "#define STM_VARIANT    \"F411RC\"",
            StmVariant::F411RE => "#define STM_VARIANT    \"F411RE\"",
            StmVariant::F405RG => "#define STM_VARIANT    \"F405RG\"",
            StmVariant::F401RE => "#define STM_VARIANT    \"F401RE\"",
            StmVariant::F401RB => "#define STM_VARIANT    \"F401RB\"",
            StmVariant::F401RC => "#define STM_VARIANT    \"F401RC\"",
        }
    }

    /// Renders the PLL define block for a target frequency on this
    /// variant's processor.
    pub fn generate_pll_defines(&self, target_freq_mhz: u32, overclock: bool) -> (r: Option<
        String,
    >)
        ensures
            (r is Some) == (self.spec_processor().spec_calculate_pll_hsi(
                target_freq_mhz as int,
                overclock,
            ) is Some),
            r matches Some(s) ==> Some(s@) == self.spec_processor().spec_pll_defines(
                target_freq_mhz as int,
                overclock,
            ),
    {
        self.processor().generate_pll_defines(target_freq_mhz, overclock)
    }

    /// The variant name passed into the firmware build.
    pub fn makefile_var(&self) -> (r: &'static str)
        ensures
            r@ == match *self {
                StmVariant::F446RC => "stm32f446rc"@,
                StmVariant::F446RE => "stm32f446re"@,
                StmVariant::F411RC => "stm32f411rc"@,
                StmVariant::F411RE => "stm32f411re"@,
                StmVariant::F405RG => "stm32f405rg"@,
                StmVariant::F401RE => "stm32f401re"@,
                StmVariant::F401RB => "stm32f401rb"@,
                StmVariant::F401RC => "stm32f401rc"@,
            },
    {
        match self {
            StmVariant::F446RC => "stm32f446rc",
            StmVariant::F446RE => "stm32f446re",
            StmVariant::F411RC => "stm32f411rc",
            StmVariant::F411RE => "stm32f411re",
            StmVariant::F405RG => "stm32f405rg",
            StmVariant::F401RE => "stm32f401re",
            StmVariant::F401RB => "stm32f401rb",
            StmVariant::F401RC => "stm32f401rc",
        }
    }

    /// The probe identifier of the part.
    pub fn chip_id(&self) -> (r: &'static str)
        ensures
            r@ == match *self {
                StmVariant::F446RC => "STM32F446RCTx"@,
                StmVariant::F446RE => "STM32F446RETx"@,
                StmVariant::F411RC => "STM32F411RCTx"@,
                StmVariant::F411RE => "STM32F411RETx"@,
                StmVariant::F405RG => "STM32F405RGTx"@,
                StmVariant::F401RE => "STM32F401RETx"@,
                StmVariant::F401RB => "STM32F401RBTx"@,
                StmVariant::F401RC => "STM32F401RCTx"@,
            },
    {
        match self {
            StmVariant::F446RC => "STM32F446RCTx",
            StmVariant::F446RE => "STM32F446RETx",
            StmVariant::F411RC => "STM32F411RCTx",
            StmVariant::F411RE => "STM32F411RETx",
            StmVariant::F405RG => "STM32F405RGTx",
            StmVariant::F401RE => "STM32F401RETx",
            StmVariant::F401RB => "STM32F401RBTx",
            StmVariant::F401RC => "STM32F401RCTx",
        }
    }

    /// A target frequency is achievable exactly when a PLL configuration
    /// exists for it on the variant's processor.
    pub fn is_frequency_valid(&self, target_freq_mhz: u32, overclock: bool) -> (r: bool)
        ensures
            r == (self.spec_processor().spec_calculate_pll_hsi(
                target_freq_mhz as int,
                overclock,
            ) is Some),
    {
        self.processor().is_frequency_valid(target_freq_mhz, overclock)
    }
}

/// Byte-serving algorithm choice.
#[derive(Debug, Clone, Copy, PartialEq, Eq, Structural)]
pub enum ServeAlg {
    Default,
    TwoCsOneAddr,
    AddrOnCs,
}

impl ServeAlg {
    /// The algorithm a name selects, after case folding.
    pub open spec fn spec_from_str(t: Seq<char>) -> Option<ServeAlg> {
        if t == "default"@ {
            Some(ServeAlg::Default)
        } else if t == "a"@ || t == "two_cs_one_addr"@ {
            Some(ServeAlg::TwoCsOneAddr)
        } else if t == "b"@ {
            Some(ServeAlg::AddrOnCs)
        } else {
            None
        }
    }

    /// Parses an algorithm name, ignoring case.
    pub fn try_from_str(s: &str) -> (r: Option<ServeAlg>)
        ensures
            r == ServeAlg::spec_from_str(lower_of(s@)),
    {
        let low = lowercase(s);
        if str_eq(low.as_str(), "default") {
            Some(ServeAlg::Default)
        } else if str_eq(low.as_str(), "a") || str_eq(low.as_str(), "two_cs_one_addr") {
            Some(ServeAlg::TwoCsOneAddr)
        } else if str_eq(low.as_str(), "b") {
            Some(ServeAlg::AddrOnCs)
        } else {
            None
        }
    }

    /// The enumerator name generated build files use for the algorithm.
    pub fn c_value(&self) -> (r: &'static str)
        ensures
            r@ == match *self {
                ServeAlg::Default => "SERVE_ADDR_ON_CS"@,
                ServeAlg::TwoCsOneAddr => "SERVE_TWO_CS_ONE_ADDR"@,
                ServeAlg::AddrOnCs => "SERVE_ADDR_ON_CS"@,
            },
    {
        match self {
            ServeAlg::Default => "SERVE_ADDR_ON_CS",
            ServeAlg::TwoCsOneAddr => "SERVE_TWO_CS_ONE_ADDR",
            ServeAlg::AddrOnCs => "SERVE_ADDR_ON_CS",
        }
    }

    /// Multi-ROM sets always serve on any chip-select edge.
    pub fn c_value_multi_rom_set(&self) -> (r: &'static str)
        ensures
            r@ == "SERVE_ADDR_ON_ANY_CS"@,
    {
        "SERVE_ADDR_ON_ANY_CS"
    }
}

/// The wiring sense of a chip-select line.
#[derive(Debug, Clone, Copy, PartialEq, Eq, Structural)]
pub enum CsLogic {
    ActiveLow,
    ActiveHigh,
    /// The line is tied permanently active, so its state is ignored.
    Ignore,
}

impl CsLogic {
    /// The logic a name selects, after case folding.
    pub open spec fn spec_from_str(t: Seq<char>) -> Option<CsLogic> {
        if t == "0"@ {
            Some(CsLogic::ActiveLow)
        } else if t == "1"@ {
            Some(CsLogic::ActiveHigh)
        } else if t == "ignore"@ {
            Some(CsLogic::Ignore)
        } else {
            None
        }
    }

    /// Parses a chip-select logic name, ignoring case.
    pub fn try_from_str(s: &str) -> (r: Option<CsLogic>)
        ensures
            r == CsLogic::spec_from_str(lower_of(s@)),
    {
        let low = lowercase(s);
        if str_eq(low.as_str(), "0") {
            Some(CsLogic::ActiveLow)
        } else if str_eq(low.as_str(), "1") {
            Some(CsLogic::ActiveHigh)
        } else if str_eq(low.as_str(), "ignore") {
            Some(CsLogic::Ignore)
        } else {
            None
        }
    }
}

} // verus!
