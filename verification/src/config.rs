//! Generation-side configuration: the ROMs to embed, their chip-select
//! wiring, and the grouping of ROMs into the sets the firmware switches
//! between.

use crate::hardware::HwConfig;
use crate::preprocess::RomImage;
use crate::preprocess::RomSet;
use crate::types::CsLogic;
use crate::types::RomType;
use crate::types::ServeAlg;
use crate::types::StmVariant;
use vstd::prelude::*;
use vstd::string::StringExecFns;

verus! {

/// How a ROM file smaller than its type's capacity is brought to size.
#[derive(Debug, Clone, Copy, PartialEq, Eq, Structural)]
pub enum SizeHandling {
    Nothing,
    Duplicate,
    Pad,
}

/// One ROM to embed: its source, type, chip-select wiring and sizing.
#[derive(Debug, Clone)]
#[verifier::ext_equal]
pub struct RomConfig {
    pub file: String,
    pub original_source: String,
    pub extract: Option<String>,
    pub licence: Option<String>,
    pub rom_type: RomType,
    pub cs_config: CsConfig,
    pub size_handling: SizeHandling,
    pub set: Option<usize>,
}

/// A ROM placed into a set, with its loaded image and its position in the
/// original configuration order.
#[derive(Debug, Clone)]
pub struct RomInSet {
    pub config: RomConfig,
    pub image: RomImage,
    pub original_index: usize,
}

/// The chip-select wiring of one ROM.
#[derive(Debug, Clone, Copy, PartialEq, Eq, Structural)]
pub struct CsConfig {
    pub cs1: CsLogic,
    pub cs2: Option<CsLogic>,
    pub cs3: Option<CsLogic>,
}

/// A chip-select wiring fits a ROM type when CS1 carries a real level and
/// exactly the lines the package has are given: none beyond CS1 for 2364,
/// CS2 for 2332, CS2 and CS3 for 2316.
pub open spec fn spec_cs_config_valid(cs: CsConfig, rt: RomType) -> bool {
    &&& cs.cs1 != CsLogic::Ignore
    &&& match rt {
        RomType::Rom2364 => cs.cs2 is None && cs.cs3 is None,
        RomType::Rom2332 => cs.cs2 is Some && cs.cs3 is None,
        RomType::Rom2316 => cs.cs2 is Some && cs.cs3 is Some,
        RomType::Rom23128 => false,
    }
}

impl CsConfig {
    /// Builds a chip-select wiring.
    pub fn new(cs1: CsLogic, cs2: Option<CsLogic>, cs3: Option<CsLogic>) -> (r: CsConfig)
        ensures
            r.cs1 == cs1,
            r.cs2 == cs2,
            r.cs3 == cs3,
    {
        CsConfig { cs1, cs2, cs3 }
    }

    /// Checks the wiring against a ROM type's chip-select lines.
    pub fn validate(&self, rom_type: &RomType) -> (r: Result<(), String>)
        requires
            *rom_type != RomType::Rom23128,
        ensures
            r is Ok <==> spec_cs_config_valid(*self, *rom_type),
    {
        if matches!(self.cs1, CsLogic::Ignore) {
            return Err(
                String::from_str("CS1 cannot be set to 'ignore' - it must be active high or low"),
            );
        }
        let shape_ok = match rom_type {
            RomType::Rom2364 => self.cs2.is_none() && self.cs3.is_none(),
            RomType::Rom2332 => {
                if self.cs3.is_some() {
                    let mut msg = String::from_str("ROM type 2332 does not support CS3");
                    return Err(msg);
                }
                self.cs2.is_some()
            },
            RomType::Rom2316 => self.cs2.is_some() && self.cs3.is_some(),
            RomType::Rom23128 => vstd::pervasive::unreached(),
        };
        if shape_ok {
            Ok(())
        } else {
            let mut msg = String::from_str("ROM type ");
            msg.append(rom_type.name());
            msg.append(" requires the matching number of CS line(s)");
            Err(msg)
        }
    }
}

/// The whole generation configuration.
#[derive(Debug, Clone)]
pub struct Config {
    pub roms: Vec<RomConfig>,
    pub stm_variant: StmVariant,
    pub output_dir: String,
    pub swd: bool,
    pub mco: bool,
    pub mco2: bool,
    pub boot_logging: bool,
    pub main_loop_logging: bool,
    pub debug_logging: bool,
    pub overwrite: bool,
    pub hse: bool,
    pub hw: HwConfig,
    pub freq: u32,
    pub status_led: bool,
    pub overclock: bool,
    pub bootloader: bool,
    pub preload_to_ram: bool,
    pub auto_yes: bool,
    pub serve_alg: ServeAlg,
}

/// Some ROM names a set.
pub open spec fn spec_sets_specified(roms: Seq<RomConfig>) -> bool {
    exists|i: int| 0 <= i < roms.len() && (#[trigger] roms[i].set) is Some
}

/// Set id `j` is named by some ROM.
pub open spec fn spec_set_used(roms: Seq<RomConfig>, j: int) -> bool {
    exists|i: int| 0 <= i < roms.len() && (#[trigger] roms[i].set) == Some(j as usize)
}

/// Set numbering is sequential from zero: every ROM names a set, and every
/// used id above zero has its predecessor in use too.
pub open spec fn spec_sets_numbering_valid(roms: Seq<RomConfig>) -> bool {
    &&& forall|i: int| 0 <= i < roms.len() ==> (#[trigger] roms[i].set) is Some
    &&& forall|j: int| 1 <= j <= usize::MAX && #[trigger] spec_set_used(roms, j) ==> spec_set_used(
        roms,
        j - 1,
    )
}

/// What a whole configuration must satisfy: at least one ROM, a valid
/// chip-select wiring for each, an achievable frequency, and, when sets
/// are used, a complete sequential numbering.
pub open spec fn spec_config_valid(c: Config) -> bool {
    &&& c.roms@.len() > 0
    &&& forall|i: int|
        0 <= i < c.roms@.len() ==> spec_cs_config_valid(
            (#[trigger] c.roms@[i]).cs_config,
            c.roms@[i].rom_type,
        )
    &&& c.stm_variant.spec_processor().spec_calculate_pll_hsi(c.freq as int, c.overclock) is Some
    &&& (spec_sets_specified(c.roms@) ==> spec_sets_numbering_valid(c.roms@))
}

impl Config {
    /// Validates the configuration: ROM list, chip-select wiring, the
    /// variant's family against the board, the frequency, and the set
    /// numbering.  Checks on the output directory are the caller's.
    pub fn validate(&self) -> (r: Result<(), String>)
        requires
            forall|i: int| 0 <= i < self.roms@.len() ==> (#[trigger] self.roms@[i]).rom_type != RomType::Rom23128,
        ensures
            r is Ok <==> spec_config_valid(*self),
    {
        if self.roms.len() == 0 {
            return Err(String::from_str("At least one ROM image must be provided"));
        }
        let mut i: usize = 0;
        while i < self.roms.len()
            invariant
                i <= self.roms@.len(),
                forall|k: int|
                    0 <= k < self.roms@.len() ==> (#[trigger] self.roms@[k]).rom_type
                        != RomType::Rom23128,
                forall|k: int|
                    0 <= k < i ==> spec_cs_config_valid(
                        (#[trigger] self.roms@[k]).cs_config,
                        self.roms@[k].rom_type,
                    ),
            decreases self.roms@.len() - i,
        {
            if let Err(e) = self.roms[i].cs_config.validate(&self.roms[i].rom_type) {
                return Err(e);
            }
            i = i + 1;
        }

        // Every supported variant and board are F4, so the family check
        // cannot fail; the frequency must still be achievable.
        if !self.stm_variant.is_frequency_valid(self.freq, self.overclock) {
            let mut msg = String::from_str("Frequency ");
            crate::strutil::append_decimal(&mut msg, self.freq);
            msg.append("MHz is not valid for variant ");
            msg.append(self.stm_variant.makefile_var());
            return Err(msg);
        }

        if self.some_rom_has_set() {
            let mut i: usize = 0;
            while i < self.roms.len()
                invariant
                    i <= self.roms@.len(),
                    spec_sets_specified(self.roms@),
                    forall|k: int| 0 <= k < i ==> (#[trigger] self.roms@[k].set) is Some,
                decreases self.roms@.len() - i,
            {
                if self.roms[i].set.is_none() {
                    return Err(
                        String::from_str("When using sets, all ROMs must specify a set number"),
                    );
                }
                i = i + 1;
            }
            let mut i: usize = 0;
            while i < self.roms.len()
                invariant
                    i <= self.roms@.len(),
                    spec_sets_specified(self.roms@),
                    forall|j: int|
                        #![trigger spec_set_used(self.roms@, j - 1)]
                        1 <= j <= usize::MAX && (exists|k: int|
                            0 <= k < i && (#[trigger] self.roms@[k].set) == Some(j as usize))
                            ==> spec_set_used(self.roms@, j - 1),
                decreases self.roms@.len() - i,
            {
                if let Some(j) = self.roms[i].set {
                    if j > 0 {
                        if !self.set_is_used(j - 1) {
                            proof {
                                assert(spec_set_used(self.roms@, j as int));
                                assert(!spec_sets_numbering_valid(self.roms@));
                            }
                            return Err(
                                String::from_str(
                                    "ROM sets must be numbered sequentially starting from 0",
                                ),
                            );
                        }
                    }
                }
                i = i + 1;
            }
            proof {
                assert forall|j: int| 1 <= j <= usize::MAX && #[trigger] spec_set_used(
                    self.roms@,
                    j,
                ) implies spec_set_used(self.roms@, j - 1) by {
                    let k = choose|k: int|
                        0 <= k < self.roms@.len() && (#[trigger] self.roms@[k].set) == Some(
                            j as usize,
                        );
                    assert(0 <= k < self.roms@.len() && self.roms@[k].set == Some(j as usize));
                }
            }
        }
        Ok(())
    }

    /// Whether any ROM names a set.
    fn some_rom_has_set(&self) -> (r: bool)
        ensures
            r == spec_sets_specified(self.roms@),
    {
        let mut i: usize = 0;
        while i < self.roms.len()
            invariant
                i <= self.roms@.len(),
                forall|k: int| 0 <= k < i ==> (#[trigger] self.roms@[k].set) is None,
            decreases self.roms@.len() - i,
        {
            if self.roms[i].set.is_some() {
                return true;
            }
            i = i + 1;
        }
        false
    }

    /// Whether some ROM names set id `j`.
    fn set_is_used(&self, j: usize) -> (r: bool)
        ensures
            r == spec_set_used(self.roms@, j as int),
    {
        let mut i: usize = 0;
        while i < self.roms.len()
            invariant
                i <= self.roms@.len(),
                forall|k: int| 0 <= k < i ==> (#[trigger] self.roms@[k].set) != Some(j),
            decreases self.roms@.len() - i,
        {
            if let Some(s) = self.roms[i].set {
                if s == j {
                    return true;
                }
            }
            i = i + 1;
        }
        false
    }

    /// Groups the ROMs and their loaded images into ROM sets.  With no set
    /// numbers given, each ROM gets its own set in order; with set numbers,
    /// ROMs are grouped by id in ascending id order, at most three to a
    /// set, and only on a board with both extra selector pins.
    pub fn create_rom_sets(&self, rom_images: &Vec<RomImage>) -> (r: Result<Vec<RomSet>, String>)
        requires
            rom_images@.len() == self.roms@.len(),
            (self.hw.stm.pins.x1 is Some && self.hw.stm.pins.x2 is Some && self.hw.stm.pins.x1->0
                < 255 && self.hw.stm.pins.x2->0 < 255) ==> (self.hw.stm.pins.x1->0 < 15
                && self.hw.stm.pins.x2->0 < 15),
        ensures
            !spec_sets_specified(self.roms@) ==> ({
                &&& r is Ok
                &&& r->Ok_0@.len() == self.roms@.len()
                &&& forall|k: int|
                    0 <= k < self.roms@.len() ==> ({
                        &&& (#[trigger] r->Ok_0@[k]).id == k
                        &&& r->Ok_0@[k].roms@.len() == 1
                        &&& r->Ok_0@[k].roms@[0].config == self.roms@[k]
                        &&& r->Ok_0@[k].roms@[0].image.data@ == rom_images@[k].data@
                        &&& r->Ok_0@[k].roms@[0].original_index == k
                    })
            }),
            spec_sets_specified(self.roms@) && !(self.hw.stm.pins.x1 is Some
                && self.hw.stm.pins.x2 is Some && self.hw.stm.pins.x1->0 < 255
                && self.hw.stm.pins.x2->0 < 255) ==> r is Err,
            spec_sets_specified(self.roms@) ==> (r matches Ok(sets) ==> {
                &&& forall|a: int, b: int|
                    0 <= a < b < sets@.len() ==> (#[trigger] sets@[a]).id < (#[trigger] sets@[b]).id
                &&& forall|a: int, m: int|
                    #![trigger sets@[a].roms@[m]]
                    0 <= a < sets@.len() && 0 <= m < sets@[a].roms@.len() ==> ({
                        let oi = sets@[a].roms@[m].original_index;
                        &&& oi < self.roms@.len()
                        &&& sets@[a].roms@[m].config == self.roms@[oi as int]
                        &&& sets@[a].roms@[m].image.data@ == rom_images@[oi as int].data@
                        &&& self.roms@[oi as int].set == Some(sets@[a].id)
                        &&& sets@[a].roms@.len() <= 3
                    })
            }),
    {
        if !self.some_rom_has_set() {
            let mut rom_sets: Vec<RomSet> = Vec::new();
            let mut i: usize = 0;
            while i < self.roms.len()
                invariant
                    i <= self.roms@.len(),
                    rom_images@.len() == self.roms@.len(),
                    rom_sets@.len() == i,
                    forall|k: int|
                        0 <= k < i ==> ({
                            &&& (#[trigger] rom_sets@[k]).id == k
                            &&& rom_sets@[k].roms@.len() == 1
                            &&& rom_sets@[k].roms@[0].config == self.roms@[k]
                            &&& rom_sets@[k].roms@[0].image.data@ == rom_images@[k].data@
                            &&& rom_sets@[k].roms@[0].original_index == k
                        }),
                decreases self.roms@.len() - i,
            {
                let mut members: Vec<RomInSet> = Vec::new();
                members.push(
                    RomInSet {
                        config: clone_rom_config(&self.roms[i]),
                        image: clone_rom_image(&rom_images[i]),
                        original_index: i,
                    },
                );
                rom_sets.push(RomSet { id: i, roms: members });
                i = i + 1;
            }
            return Ok(rom_sets);
        }
        if !self.hw.supports_multi_rom_sets() {
            return Err(
                String::from_str(
                    "Multiple ROMs per set is only supported on hardware revision F",
                ),
            );
        }

        let mut rom_sets: Vec<RomSet> = Vec::new();
        let mut i: usize = 0;
        while i < self.roms.len()
            invariant
                i <= self.roms@.len(),
                spec_sets_specified(self.roms@),
                rom_images@.len() == self.roms@.len(),
                forall|a: int, b: int|
                    0 <= a < b < rom_sets@.len() ==> (#[trigger] rom_sets@[a]).id < (
                    #[trigger] rom_sets@[b]).id,
                forall|a: int, m: int|
                    #![trigger rom_sets@[a].roms@[m]]
                    0 <= a < rom_sets@.len() && 0 <= m < rom_sets@[a].roms@.len() ==> ({
                        let oi = rom_sets@[a].roms@[m].original_index;
                        &&& oi < self.roms@.len()
                        &&& rom_sets@[a].roms@[m].config == self.roms@[oi as int]
                        &&& rom_sets@[a].roms@[m].image.data@ == rom_images@[oi as int].data@
                        &&& self.roms@[oi as int].set == Some(rom_sets@[a].id)
                        &&& rom_sets@[a].roms@.len() <= 3
                    }),
            decreases self.roms@.len() - i,
        {
            let set_id = match self.roms[i].set {
                Some(s) => s,
                None => {
                    let mut msg = String::from_str(
                        "When using sets, all ROMs must specify a set number",
                    );
                    return Err(msg);
                },
            };
            let member = RomInSet {
                config: clone_rom_config(&self.roms[i]),
                image: clone_rom_image(&rom_images[i]),
                original_index: i,
            };
            // Find the insertion point among the sets, kept sorted by id.
            let mut pos: usize = 0;
            while pos < rom_sets.len() && rom_sets[pos].id < set_id
                invariant
                    pos <= rom_sets@.len(),
                    forall|a: int| 0 <= a < pos ==> (#[trigger] rom_sets@[a]).id < set_id,
                decreases rom_sets@.len() - pos,
            {
                pos = pos + 1;
            }
            if pos < rom_sets.len() && rom_sets[pos].id == set_id {
                if rom_sets[pos].roms.len() >= 3 {
                    let mut msg = String::from_str("Set ");
                    crate::strutil::append_decimal(&mut msg, set_id as u32);
                    msg.append(" has more than the maximum 3 ROMs");
                    return Err(msg);
                }
                let mut existing = rom_sets.remove(pos);
                existing.roms.push(member);
                rom_sets.insert(pos, existing);
            } else {
                let mut members: Vec<RomInSet> = Vec::new();
                members.push(member);
                rom_sets.insert(pos, RomSet { id: set_id, roms: members });
            }
            i = i + 1;
        }
        Ok(rom_sets)
    }
}

} // verus!

verus! {

/// Copies an optional string, keeping its value.
fn clone_opt_string(o: &Option<String>) -> (r: Option<String>)
    ensures
        r == *o,
{
    match o {
        Some(s) => Some(s.clone()),
        None => None,
    }
}

/// Copies a ROM configuration, keeping its value.
fn clone_rom_config(c: &RomConfig) -> (r: RomConfig)
    ensures
        r == *c,
{
    let r = RomConfig {
        file: c.file.clone(),
        original_source: c.original_source.clone(),
        extract: clone_opt_string(&c.extract),
        licence: clone_opt_string(&c.licence),
        rom_type: c.rom_type,
        cs_config: c.cs_config,
        size_handling: c.size_handling,
        set: c.set,
    };
    proof {
        assert(r =~= *c);
    }
    r
}

/// Copies a loaded ROM image, keeping its bytes.
fn clone_rom_image(img: &RomImage) -> (r: RomImage)
    ensures
        r.data@ == img.data@,
{
    let mut data: Vec<u8> = Vec::new();
    let mut i: usize = 0;
    while i < img.data.len()
        invariant
            i <= img.data@.len(),
            data@ == img.data@.subrange(0, i as int),
        decreases img.data@.len() - i,
    {
        data.push(img.data[i]);
        proof {
            assert(data@ =~= img.data@.subrange(0, i as int + 1));
        }
        i = i + 1;
    }
    proof {
        assert(data@ =~= img.data@);
    }
    RomImage { data }
}

} // verus!
