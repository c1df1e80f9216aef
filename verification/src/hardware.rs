//! Hardware configuration model: which microcontroller port and pin carries
//! each ROM line on a board revision, and the validation rules a
//! configuration must pass before generation uses it.

use crate::strutil::lower_of;
use crate::strutil::lowercase;
use crate::strutil::push_char;
use crate::strutil::str_eq;
use crate::strutil::upper_of;
use crate::strutil::uppercase;
use crate::types::RomType;
use crate::types::StmFamily;
use vstd::prelude::*;
use vstd::string::StrSliceExecFns;

verus! {

/// Highest pin number on a microcontroller port.
pub const MAX_STM_PIN_NUM: u8 = 15;

/// A microcontroller GPIO port.
#[derive(Debug, Clone, Copy, PartialEq, Eq, Hash, Structural)]
pub enum Port {
    NoPort,
    A,
    B,
    C,
    D,
}

impl Port {
    /// The port a name selects, after upper-casing.
    pub open spec fn spec_from_str(t: Seq<char>) -> Option<Port> {
        if t == "A"@ {
            Some(Port::A)
        } else if t == "B"@ {
            Some(Port::B)
        } else if t == "C"@ {
            Some(Port::C)
        } else if t == "D"@ {
            Some(Port::D)
        } else if t == "NONE"@ {
            Some(Port::NoPort)
        } else {
            None
        }
    }

    /// Parses a port name, ignoring case.
    pub fn from_str(s: &str) -> (r: Option<Port>)
        ensures
            r == Port::spec_from_str(upper_of(s@)),
    {
        let up = uppercase(s);
        if str_eq(up.as_str(), "A") {
            Some(Port::A)
        } else if str_eq(up.as_str(), "B") {
            Some(Port::B)
        } else if str_eq(up.as_str(), "C") {
            Some(Port::C)
        } else if str_eq(up.as_str(), "D") {
            Some(Port::D)
        } else if str_eq(up.as_str(), "NONE") {
            Some(Port::NoPort)
        } else {
            None
        }
    }
}

/// The port each logical bus lives on.
#[derive(Debug, Clone, Copy, PartialEq, Eq, Structural)]
pub struct StmPorts {
    pub data_port: Port,
    pub addr_port: Port,
    pub cs_port: Port,
    pub sel_port: Port,
    pub status_port: Port,
}

/// The ROM socket's pin count.
#[derive(Debug, Clone, Copy, PartialEq, Eq, Structural)]
pub struct RomPins {
    pub quantity: u8,
}

/// The ROM side of a hardware configuration.
#[derive(Debug, Clone, Copy, PartialEq, Eq, Structural)]
pub struct Rom {
    pub pins: RomPins,
}

/// A pin assignment per ROM type; absent when the type has no such line.
#[derive(Debug, Clone, Copy, PartialEq, Eq, Structural)]
pub struct RomTypeMap {
    pub m2316: Option<u8>,
    pub m2332: Option<u8>,
    pub m2364: Option<u8>,
    pub m23128: Option<u8>,
}

impl RomTypeMap {
    /// The entry for a ROM type.
    pub open spec fn spec_get(self, rt: RomType) -> Option<u8> {
        match rt {
            RomType::Rom2316 => self.m2316,
            RomType::Rom2332 => self.m2332,
            RomType::Rom2364 => self.m2364,
            RomType::Rom23128 => self.m23128,
        }
    }

    /// The entry for a ROM type.
    pub fn get(&self, rt: &RomType) -> (r: Option<u8>)
        ensures
            r == self.spec_get(*rt),
    {
        match rt {
            RomType::Rom2316 => self.m2316,
            RomType::Rom2332 => self.m2332,
            RomType::Rom2364 => self.m2364,
            RomType::Rom23128 => self.m23128,
        }
    }

    /// Every present entry is a valid pin number.
    pub open spec fn all_pins_valid(self) -> bool {
        &&& (self.m2316 matches Some(p) ==> spec_pin_number_valid(p))
        &&& (self.m2332 matches Some(p) ==> spec_pin_number_valid(p))
        &&& (self.m2364 matches Some(p) ==> spec_pin_number_valid(p))
        &&& (self.m23128 matches Some(p) ==> spec_pin_number_valid(p))
    }
}

/// The microcontroller pin assignments of a configuration.
#[derive(Debug, Clone, PartialEq, Eq)]
pub struct StmPins {
    pub data: Vec<u8>,
    pub addr: Vec<u8>,
    pub cs1: RomTypeMap,
    pub cs2: RomTypeMap,
    pub cs3: RomTypeMap,
    pub x1: Option<u8>,
    pub x2: Option<u8>,
    pub ce: RomTypeMap,
    pub oe: RomTypeMap,
    pub sel: Vec<u8>,
    pub status: u8,
}

/// The microcontroller side of a hardware configuration.
#[derive(Debug, Clone, PartialEq, Eq)]
pub struct Stm {
    pub family: StmFamily,
    pub ports: StmPorts,
    pub pins: StmPins,
}

/// A board revision's hardware configuration.
#[derive(Debug, Clone, PartialEq, Eq)]
pub struct HwConfig {
    pub name: String,
    pub description: String,
    pub rom: Rom,
    pub stm: Stm,
}

impl HwConfig {
    /// The port carrying the data bus.
    pub fn port_data(&self) -> (r: Port)
        ensures
            r == self.stm.ports.data_port,
    {
        self.stm.ports.data_port
    }

    /// The port carrying the address bus.
    pub fn port_addr(&self) -> (r: Port)
        ensures
            r == self.stm.ports.addr_port,
    {
        self.stm.ports.addr_port
    }

    /// The port carrying the chip-select lines.
    pub fn port_cs(&self) -> (r: Port)
        ensures
            r == self.stm.ports.cs_port,
    {
        self.stm.ports.cs_port
    }

    /// The port carrying the image-select lines.
    pub fn port_sel(&self) -> (r: Port)
        ensures
            r == self.stm.ports.sel_port,
    {
        self.stm.ports.sel_port
    }

    /// The port carrying the status line.
    pub fn port_status(&self) -> (r: Port)
        ensures
            r == self.stm.ports.status_port,
    {
        self.stm.ports.status_port
    }

    /// The status pin number.
    pub fn pin_status(&self) -> (r: u8)
        ensures
            r == self.stm.pins.status,
    {
        self.stm.pins.status
    }

    /// The CS1 pin for a ROM type, or 255 when the type has none.
    pub fn pin_cs1(&self, rom_type: &RomType) -> (r: u8)
        ensures
            r == match self.stm.pins.cs1.spec_get(*rom_type) {
                Some(p) => p,
                None => 255u8,
            },
    {
        match self.stm.pins.cs1.get(rom_type) {
            Some(p) => p,
            None => 255,
        }
    }

    /// The CS2 pin for a ROM type, or 255 when the type has none.
    pub fn pin_cs2(&self, rom_type: &RomType) -> (r: u8)
        ensures
            r == match self.stm.pins.cs2.spec_get(*rom_type) {
                Some(p) => p,
                None => 255u8,
            },
    {
        match self.stm.pins.cs2.get(rom_type) {
            Some(p) => p,
            None => 255,
        }
    }

    /// The CS3 pin for a ROM type, or 255 when the type has none.
    pub fn pin_cs3(&self, rom_type: &RomType) -> (r: u8)
        ensures
            r == match self.stm.pins.cs3.spec_get(*rom_type) {
                Some(p) => p,
                None => 255u8,
            },
    {
        match self.stm.pins.cs3.get(rom_type) {
            Some(p) => p,
            None => 255,
        }
    }

    /// The first extra selector pin, or 255 when the board has none.
    pub fn pin_x1(&self) -> (r: u8)
        ensures
            r == match self.stm.pins.x1 {
                Some(p) => p,
                None => 255u8,
            },
    {
        match self.stm.pins.x1 {
            Some(p) => p,
            None => 255,
        }
    }

    /// The second extra selector pin, or 255 when the board has none.
    pub fn pin_x2(&self) -> (r: u8)
        ensures
            r == match self.stm.pins.x2 {
                Some(p) => p,
                None => 255u8,
            },
    {
        match self.stm.pins.x2 {
            Some(p) => p,
            None => 255,
        }
    }

    /// The chip-enable pin for a ROM type, or 255 when the type has none.
    pub fn pin_ce(&self, rom_type: &RomType) -> (r: u8)
        ensures
            r == match self.stm.pins.ce.spec_get(*rom_type) {
                Some(p) => p,
                None => 255u8,
            },
    {
        match self.stm.pins.ce.get(rom_type) {
            Some(p) => p,
            None => 255,
        }
    }

    /// The output-enable pin for a ROM type, or 255 when the type has none.
    pub fn pin_oe(&self, rom_type: &RomType) -> (r: u8)
        ensures
            r == match self.stm.pins.oe.spec_get(*rom_type) {
                Some(p) => p,
                None => 255u8,
            },
    {
        match self.stm.pins.oe.get(rom_type) {
            Some(p) => p,
            None => 255,
        }
    }

    /// The image-select pin at an index, or 255 when the board has fewer.
    pub fn pin_sel(&self, sel: usize) -> (r: u8)
        ensures
            r == (if sel < self.stm.pins.sel@.len() {
                self.stm.pins.sel@[sel as int]
            } else {
                255u8
            }),
    {
        if sel < self.stm.pins.sel.len() {
            self.stm.pins.sel[sel]
        } else {
            255
        }
    }

    /// The chip-select pin that selects ROM `set_index` of a multi-ROM
    /// set: the ROM type's CS1 for the first, then the extra selectors.
    pub fn cs_pin_for_rom_in_set(&self, rom_type: &RomType, set_index: usize) -> (r: u8)
        ensures
            set_index == 0 ==> r == match self.stm.pins.cs1.spec_get(*rom_type) {
                Some(p) => p,
                None => 255u8,
            },
            set_index == 1 ==> r == match self.stm.pins.x1 {
                Some(p) => p,
                None => 255u8,
            },
            set_index == 2 ==> r == match self.stm.pins.x2 {
                Some(p) => p,
                None => 255u8,
            },
            set_index >= 3 ==> r == 255u8,
    {
        match set_index {
            0 => self.pin_cs1(rom_type),
            1 => self.pin_x1(),
            2 => self.pin_x2(),
            _ => 255,
        }
    }

    /// Multi-ROM sets need both extra selector pins present; a present
    /// pin at or above fifteen is a configuration fault, excluded here.
    pub fn supports_multi_rom_sets(&self) -> (r: bool)
        requires
            (self.stm.pins.x1 is Some && self.stm.pins.x2 is Some && self.stm.pins.x1->0 < 255
                && self.stm.pins.x2->0 < 255) ==> (self.stm.pins.x1->0 < 15 && self.stm.pins.x2->0
                < 15),
        ensures
            r == (self.stm.pins.x1 is Some && self.stm.pins.x2 is Some && self.stm.pins.x1->0 < 255
                && self.stm.pins.x2->0 < 255),
    {
        if let Some(x1) = self.stm.pins.x1 {
            if let Some(x2) = self.stm.pins.x2 {
                if x1 < 255 && x2 < 255 {
                    return true;
                }
            }
        }
        false
    }
}

/// A configuration name with its case folded and underscores turned into
/// dashes.
pub open spec fn spec_normalize(t: Seq<char>) -> Seq<char> {
    Seq::new(
        t.len(),
        |i: int|
            if t[i] == '_' {
                '-'
            } else {
                t[i]
            },
    )
}

/// Normalizes a configuration name: lower case, dashes for underscores.
pub fn normalize_name(name: &str) -> (r: String)
    ensures
        r@ == spec_normalize(lower_of(name@)),
{
    let low = lowercase(name);
    let lref = low.as_str();
    let n = lref.unicode_len();
    let mut out = String::new();
    let mut i: usize = 0;
    while i < n
        invariant
            i <= n,
            n == lref@.len(),
            lref@ == lower_of(name@),
            out@ == spec_normalize(lref@).subrange(0, i as int),
        decreases n - i,
    {
        let c = lref.get_char(i);
        if c == '_' {
            push_char(&mut out, '-');
        } else {
            push_char(&mut out, c);
        }
        proof {
            assert(out@ =~= spec_normalize(lref@).subrange(0, i as int + 1));
        }
        i = i + 1;
    }
    proof {
        assert(spec_normalize(lref@).subrange(0, n as int) =~= spec_normalize(lref@));
    }
    out
}

/// A pin number is a port pin below sixteen, or 255 for "not present".
pub open spec fn spec_pin_number_valid(pin: u8) -> bool {
    pin <= MAX_STM_PIN_NUM || pin == 255
}

/// Checks one pin number; the error names the pin and the configuration.
pub fn validate_pin_number(pin: u8, pin_name: &str, config_name: &str) -> (r: Result<(), String>)
    ensures
        r is Ok <==> spec_pin_number_valid(pin),
{
    if pin > MAX_STM_PIN_NUM && pin != 255 {
        let mut msg = String::from_str(config_name);
        msg.append(": invalid pin number ");
        crate::strutil::append_decimal(&mut msg, pin as u32);
        msg.append(" for ");
        msg.append(pin_name);
        msg.append(", must be 0-15 or 255");
        return Err(msg);
    }
    Ok(())
}

/// Checks every present entry of a per-ROM-type pin map.
pub fn validate_rom_types(rom_map: &RomTypeMap, pin_type: &str, config_name: &str) -> (r: Result<
    (),
    String,
>)
    ensures
        r is Ok <==> rom_map.all_pins_valid(),
{
    if let Some(p) = rom_map.m2316 {
        if let Err(e) = validate_pin_number(p, pin_type, config_name) {
            return Err(e);
        }
    }
    if let Some(p) = rom_map.m2332 {
        if let Err(e) = validate_pin_number(p, pin_type, config_name) {
            return Err(e);
        }
    }
    if let Some(p) = rom_map.m2364 {
        if let Err(e) = validate_pin_number(p, pin_type, config_name) {
            return Err(e);
        }
    }
    if let Some(p) = rom_map.m23128 {
        if let Err(e) = validate_pin_number(p, pin_type, config_name) {
            return Err(e);
        }
    }
    Ok(())
}

/// Every entry of a pin list is a valid pin number, no pin repeats, and the
/// list is no longer than the bus allows.
pub open spec fn spec_pin_array_valid(pins: Seq<u8>, max_pins: u8) -> bool {
    &&& forall|i: int| 0 <= i < pins.len() ==> spec_pin_number_valid(#[trigger] pins[i])
    &&& forall|i: int, j: int| 0 <= i < j < pins.len() ==> pins[i] != pins[j]
    &&& pins.len() <= max_pins
}

/// Checks a pin list: valid numbers, pairwise distinct, within the bus
/// width.
pub fn validate_pin_array(pins: &Vec<u8>, pin_type: &str, config_name: &str, max_pins: u8) -> (r:
    Result<(), String>)
    ensures
        r is Ok <==> spec_pin_array_valid(pins@, max_pins),
{
    let mut i: usize = 0;
    while i < pins.len()
        invariant
            i <= pins@.len(),
            forall|k: int| 0 <= k < i ==> spec_pin_number_valid(#[trigger] pins@[k]),
            forall|k: int, j: int| 0 <= k < j < i ==> pins@[k] != pins@[j],
        decreases pins@.len() - i,
    {
        let pin = pins[i];
        if let Err(e) = validate_pin_number(pin, pin_type, config_name) {
            return Err(e);
        }
        let mut j: usize = 0;
        while j < i
            invariant
                j <= i < pins@.len(),
                pin == pins@[i as int],
                forall|k: int| 0 <= k < j ==> pins@[k] != pins@[i as int],
            decreases i - j,
        {
            if pins[j] == pin {
                let mut msg = String::from_str(config_name);
                msg.append(": duplicate pin ");
                crate::strutil::append_decimal(&mut msg, pin as u32);
                msg.append(" in ");
                msg.append(pin_type);
                msg.append(" array");
                return Err(msg);
            }
            j = j + 1;
        }
        i = i + 1;
    }
    if pins.len() > max_pins as usize {
        let mut msg = String::from_str(config_name);
        msg.append(": too many pins in ");
        msg.append(pin_type);
        msg.append(" array, maximum is ");
        crate::strutil::append_decimal(&mut msg, max_pins as u32);
        return Err(msg);
    }
    Ok(())
}

/// The first `min_valid` entries of a pin list stay at or below a ceiling.
pub open spec fn spec_pin_values_valid(pins: Seq<u8>, min_valid: int, valid_value: u8) -> bool {
    forall|i: int| 0 <= i < min_valid && i < pins.len() ==> #[trigger] pins[i] <= valid_value
}

/// Checks that the first `min_valid` entries of a pin list stay at or
/// below a ceiling.
pub fn validate_pin_values(
    pins: &Vec<u8>,
    pin_type: &str,
    config_name: &str,
    min_valid: usize,
    valid_value: u8,
) -> (r: Result<(), String>)
    ensures
        r is Ok <==> spec_pin_values_valid(pins@, min_valid as int, valid_value),
{
    let mut i: usize = 0;
    while i < pins.len() && i < min_valid
        invariant
            i <= pins@.len(),
            forall|k: int| 0 <= k < i && k < min_valid ==> #[trigger] pins@[k] <= valid_value,
        decreases pins@.len() - i,
    {
        let pin = pins[i];
        if pin > valid_value {
            let mut msg = String::from_str(config_name);
            msg.append(": invalid pin value ");
            crate::strutil::append_decimal(&mut msg, pin as u32);
            msg.append(" in ");
            msg.append(pin_type);
            msg.append(" array, must be 0-");
            crate::strutil::append_decimal(&mut msg, valid_value as u32);
            return Err(msg);
        }
        i = i + 1;
    }
    Ok(())
}

} // verus!

verus! {

/// Kind codes for pin claims: data, address, select, the chip-select block
/// (CS1, CS2, CS3, CE, OE), the extra selectors and the status line.
pub open spec fn spec_cs_kind(k: u8) -> bool {
    k == 3 || k == 4 || k == 5 || k == 8 || k == 9
}

/// Two claims may share a pin only when at least one is a chip-select and
/// both are chip-selects or address lines: a chip-select may be overlaid on
/// an address pin, nothing else may collide.
pub open spec fn spec_overlap_allowed(k1: u8, k2: u8) -> bool {
    &&& (spec_cs_kind(k1) || spec_cs_kind(k2))
    &&& (spec_cs_kind(k1) || k1 == 1)
    &&& (spec_cs_kind(k2) || k2 == 1)
}

/// One optional claim.
pub open spec fn opt_claim(kind: u8, port: Port, o: Option<u8>) -> Seq<(u8, Port, u8)> {
    match o {
        Some(p) => seq![(kind, port, p)],
        None => Seq::empty(),
    }
}

/// Every pin claim a configuration makes, with its kind and port.
pub open spec fn spec_claims(c: HwConfig) -> Seq<(u8, Port, u8)> {
    Seq::new(c.stm.pins.data@.len(), |i: int| (0u8, c.stm.ports.data_port, c.stm.pins.data@[i]))
        + Seq::new(
        c.stm.pins.addr@.len(),
        |i: int| (1u8, c.stm.ports.addr_port, c.stm.pins.addr@[i]),
    ) + Seq::new(c.stm.pins.sel@.len(), |i: int| (2u8, c.stm.ports.sel_port, c.stm.pins.sel@[i]))
        + opt_claim(3, c.stm.ports.cs_port, c.stm.pins.cs1.m2316) + opt_claim(
        3,
        c.stm.ports.cs_port,
        c.stm.pins.cs1.m2332,
    ) + opt_claim(3, c.stm.ports.cs_port, c.stm.pins.cs1.m2364) + opt_claim(
        3,
        c.stm.ports.cs_port,
        c.stm.pins.cs1.m23128,
    ) + opt_claim(4, c.stm.ports.cs_port, c.stm.pins.cs2.m2316) + opt_claim(
        4,
        c.stm.ports.cs_port,
        c.stm.pins.cs2.m2332,
    ) + opt_claim(4, c.stm.ports.cs_port, c.stm.pins.cs2.m2364) + opt_claim(
        4,
        c.stm.ports.cs_port,
        c.stm.pins.cs2.m23128,
    ) + opt_claim(5, c.stm.ports.cs_port, c.stm.pins.cs3.m2316) + opt_claim(
        5,
        c.stm.ports.cs_port,
        c.stm.pins.cs3.m2332,
    ) + opt_claim(5, c.stm.ports.cs_port, c.stm.pins.cs3.m2364) + opt_claim(
        5,
        c.stm.ports.cs_port,
        c.stm.pins.cs3.m23128,
    ) + opt_claim(6, c.stm.ports.cs_port, c.stm.pins.x1) + opt_claim(
        7,
        c.stm.ports.cs_port,
        c.stm.pins.x2,
    ) + opt_claim(8, c.stm.ports.cs_port, c.stm.pins.ce.m2316) + opt_claim(
        8,
        c.stm.ports.cs_port,
        c.stm.pins.ce.m2332,
    ) + opt_claim(8, c.stm.ports.cs_port, c.stm.pins.ce.m2364) + opt_claim(
        8,
        c.stm.ports.cs_port,
        c.stm.pins.ce.m23128,
    ) + opt_claim(9, c.stm.ports.cs_port, c.stm.pins.oe.m2316) + opt_claim(
        9,
        c.stm.ports.cs_port,
        c.stm.pins.oe.m2332,
    ) + opt_claim(9, c.stm.ports.cs_port, c.stm.pins.oe.m2364) + opt_claim(
        9,
        c.stm.ports.cs_port,
        c.stm.pins.oe.m23128,
    ) + seq![(10u8, c.stm.ports.status_port, c.stm.pins.status)]
}

/// No two claims on the same port share a pin unless the overlap rule
/// allows it.
pub open spec fn spec_conflict_free(cl: Seq<(u8, Port, u8)>) -> bool {
    forall|a: int, b: int|
        0 <= a < b < cl.len() && (#[trigger] cl[a]).1 == (#[trigger] cl[b]).1 && cl[a].2 == cl[b].2
            ==> spec_overlap_allowed(cl[a].0, cl[b].0)
}

/// The bus ports a supported board must use.
pub open spec fn spec_ports_valid(c: HwConfig) -> bool {
    &&& c.stm.ports.data_port == Port::A
    &&& c.stm.ports.addr_port == Port::C
    &&& c.stm.ports.cs_port == Port::C
    &&& c.stm.ports.sel_port == Port::B
}

/// Everything a hardware configuration must satisfy: a 24-pin ROM socket,
/// exactly eight distinct data pins on pins 0-7, at most sixteen distinct
/// address pins with the first thirteen on pins 0-13, at most four select
/// pins, valid chip-select assignments, the fixed bus ports, and no
/// disallowed pin sharing.
pub open spec fn spec_hw_config_valid(c: HwConfig) -> bool {
    &&& c.rom.pins.quantity == 24
    &&& c.stm.pins.data@.len() == 8
    &&& spec_pin_array_valid(c.stm.pins.data@, 8)
    &&& spec_pin_array_valid(c.stm.pins.addr@, 16)
    &&& spec_pin_array_valid(c.stm.pins.sel@, 4)
    &&& spec_pin_values_valid(c.stm.pins.data@, 8, 7)
    &&& spec_pin_values_valid(c.stm.pins.addr@, 13, 13)
    &&& c.stm.pins.cs1.all_pins_valid()
    &&& c.stm.pins.cs2.all_pins_valid()
    &&& c.stm.pins.cs3.all_pins_valid()
    &&& c.stm.pins.ce.all_pins_valid()
    &&& c.stm.pins.oe.all_pins_valid()
    &&& spec_ports_valid(c)
    &&& (c.stm.pins.x1 matches Some(p) ==> spec_pin_number_valid(p))
    &&& (c.stm.pins.x2 matches Some(p) ==> spec_pin_number_valid(p))
    &&& spec_conflict_free(spec_claims(c))
}

/// Collects every pin claim of a configuration.
#[verifier::rlimit(100)]
#[verifier::spinoff_prover]
fn collect_claims(c: &HwConfig) -> (v: Vec<(u8, Port, u8)>)
    ensures
        v@ == spec_claims(*c),
{
    let mut v: Vec<(u8, Port, u8)> = Vec::new();
    let ghost d0 = Seq::new(
        c.stm.pins.data@.len(),
        |i: int| (0u8, c.stm.ports.data_port, c.stm.pins.data@[i]),
    );
    let mut i: usize = 0;
    while i < c.stm.pins.data.len()
        invariant
            i <= c.stm.pins.data@.len(),
            d0 == Seq::new(
                c.stm.pins.data@.len(),
                |k: int| (0u8, c.stm.ports.data_port, c.stm.pins.data@[k]),
            ),
            v@ == d0.subrange(0, i as int),
        decreases c.stm.pins.data@.len() - i,
    {
        v.push((0, c.stm.ports.data_port, c.stm.pins.data[i]));
        proof {
            assert(v@ =~= d0.subrange(0, i as int + 1));
        }
        i = i + 1;
    }
    proof {
        assert(d0.subrange(0, d0.len() as int) =~= d0);
    }
    let ghost p1 = v@;
    let ghost a0 = Seq::new(
        c.stm.pins.addr@.len(),
        |i: int| (1u8, c.stm.ports.addr_port, c.stm.pins.addr@[i]),
    );
    let mut i: usize = 0;
    while i < c.stm.pins.addr.len()
        invariant
            i <= c.stm.pins.addr@.len(),
            a0 == Seq::new(
                c.stm.pins.addr@.len(),
                |k: int| (1u8, c.stm.ports.addr_port, c.stm.pins.addr@[k]),
            ),
            v@ == p1 + a0.subrange(0, i as int),
        decreases c.stm.pins.addr@.len() - i,
    {
        v.push((1, c.stm.ports.addr_port, c.stm.pins.addr[i]));
        proof {
            assert(v@ =~= p1 + a0.subrange(0, i as int + 1));
        }
        i = i + 1;
    }
    proof {
        assert(p1 + a0.subrange(0, a0.len() as int) =~= p1 + a0);
    }
    let ghost p2 = v@;
    let ghost s0 = Seq::new(
        c.stm.pins.sel@.len(),
        |i: int| (2u8, c.stm.ports.sel_port, c.stm.pins.sel@[i]),
    );
    let mut i: usize = 0;
    while i < c.stm.pins.sel.len()
        invariant
            i <= c.stm.pins.sel@.len(),
            s0 == Seq::new(
                c.stm.pins.sel@.len(),
                |k: int| (2u8, c.stm.ports.sel_port, c.stm.pins.sel@[k]),
            ),
            v@ == p2 + s0.subrange(0, i as int),
        decreases c.stm.pins.sel@.len() - i,
    {
        v.push((2, c.stm.ports.sel_port, c.stm.pins.sel[i]));
        proof {
            assert(v@ =~= p2 + s0.subrange(0, i as int + 1));
        }
        i = i + 1;
    }
    proof {
        assert(p2 + s0.subrange(0, s0.len() as int) =~= p2 + s0);
    }
    let cs_port = c.stm.ports.cs_port;
    push_map(&mut v, 3, cs_port, &c.stm.pins.cs1);
    push_map(&mut v, 4, cs_port, &c.stm.pins.cs2);
    push_map(&mut v, 5, cs_port, &c.stm.pins.cs3);
    push_opt(&mut v, 6, cs_port, c.stm.pins.x1);
    push_opt(&mut v, 7, cs_port, c.stm.pins.x2);
    push_map(&mut v, 8, cs_port, &c.stm.pins.ce);
    push_map(&mut v, 9, cs_port, &c.stm.pins.oe);
    v.push((10, c.stm.ports.status_port, c.stm.pins.status));
    proof {
        assert(v@ == spec_claims(*c));
    }
    v
}

/// Appends the claim of one optional pin.
fn push_opt(v: &mut Vec<(u8, Port, u8)>, kind: u8, port: Port, o: Option<u8>)
    ensures
        final(v)@ == old(v)@ + opt_claim(kind, port, o),
{
    let ghost p = v@;
    if let Some(pin) = o {
        v.push((kind, port, pin));
    }
    proof {
        assert(v@ =~= p + opt_claim(kind, port, o));
    }
}

/// Appends the claims of one per-ROM-type pin map.
fn push_map(v: &mut Vec<(u8, Port, u8)>, kind: u8, port: Port, m: &RomTypeMap)
    ensures
        final(v)@ == old(v)@ + opt_claim(kind, port, m.m2316) + opt_claim(kind, port, m.m2332)
            + opt_claim(kind, port, m.m2364) + opt_claim(kind, port, m.m23128),
{
    push_opt(v, kind, port, m.m2316);
    push_opt(v, kind, port, m.m2332);
    push_opt(v, kind, port, m.m2364);
    push_opt(v, kind, port, m.m23128);
}

/// Whether a claim kind is part of the chip-select block.
fn is_cs_kind(k: u8) -> (r: bool)
    ensures
        r == spec_cs_kind(k),
{
    k == 3 || k == 4 || k == 5 || k == 8 || k == 9
}

/// Validates a whole hardware configuration against every rule: socket
/// size, pin lists, chip-select maps, bus ports and pin sharing.  The
/// error says which rule failed and where.
#[verifier::rlimit(100)]
pub fn validate_config(name: &str, config: &HwConfig) -> (r: Result<(), String>)
    ensures
        r is Ok <==> spec_hw_config_valid(*config),
{
    if config.rom.pins.quantity != 24 {
        let mut msg = String::from_str(name);
        msg.append(": ROM pins quantity must currently be 24, found ");
        crate::strutil::append_decimal(&mut msg, config.rom.pins.quantity as u32);
        return Err(msg);
    }
    if config.stm.pins.data.len() != 8 {
        let mut msg = String::from_str(name);
        msg.append(": data pins must be exactly 8, found ");
        crate::strutil::append_decimal(&mut msg, config.stm.pins.data.len() as u32);
        return Err(msg);
    }
    if let Err(e) = validate_pin_array(&config.stm.pins.data, "data", name, 8) {
        return Err(e);
    }
    if let Err(e) = validate_pin_array(&config.stm.pins.addr, "addr", name, 16) {
        return Err(e);
    }
    if let Err(e) = validate_pin_array(&config.stm.pins.sel, "sel", name, 4) {
        return Err(e);
    }
    if let Err(e) = validate_pin_values(&config.stm.pins.data, "data", name, 8, 7) {
        return Err(e);
    }
    // For 24-pin ROMs the first thirteen address pins must stay at or
    // below pin 13: pins 14 and 15 are reserved for the extra selectors.
    if let Err(e) = validate_pin_values(&config.stm.pins.addr, "addr", name, 13, 13) {
        return Err(e);
    }
    if let Err(e) = validate_rom_types(&config.stm.pins.cs1, "cs1", name) {
        return Err(e);
    }
    if let Err(e) = validate_rom_types(&config.stm.pins.cs2, "cs2", name) {
        return Err(e);
    }
    if let Err(e) = validate_rom_types(&config.stm.pins.cs3, "cs3", name) {
        return Err(e);
    }
    if let Err(e) = validate_rom_types(&config.stm.pins.ce, "ce", name) {
        return Err(e);
    }
    if let Err(e) = validate_rom_types(&config.stm.pins.oe, "oe", name) {
        return Err(e);
    }
    if config.stm.ports.data_port != Port::A {
        let mut msg = String::from_str(name);
        msg.append(": data port must be A");
        return Err(msg);
    }
    if config.stm.ports.addr_port != Port::C {
        let mut msg = String::from_str(name);
        msg.append(": address port must be C");
        return Err(msg);
    }
    if config.stm.ports.cs_port != Port::C {
        let mut msg = String::from_str(name);
        msg.append(": CS port must be C");
        return Err(msg);
    }
    if config.stm.ports.sel_port != Port::B {
        let mut msg = String::from_str(name);
        msg.append(": SEL port must be B");
        return Err(msg);
    }
    if let Some(pin) = config.stm.pins.x1 {
        if let Err(e) = validate_pin_number(pin, "x1", name) {
            return Err(e);
        }
    }
    if let Some(pin) = config.stm.pins.x2 {
        if let Err(e) = validate_pin_number(pin, "x2", name) {
            return Err(e);
        }
    }

    // Check every pair of claims for disallowed pin sharing within a port.
    let claims = collect_claims(config);
    let mut a: usize = 0;
    while a < claims.len()
        invariant
            a <= claims@.len(),
            claims@ == spec_claims(*config),
            forall|x: int, y: int|
                0 <= x < y < claims@.len() && x < a && (#[trigger] claims@[x]).1 == (
                #[trigger] claims@[y]).1 && claims@[x].2 == claims@[y].2 ==> spec_overlap_allowed(
                    claims@[x].0,
                    claims@[y].0,
                ),
        decreases claims@.len() - a,
    {
        let (ka, pa, na) = claims[a];
        let mut b: usize = a + 1;
        while b < claims.len()
            invariant
                a < b <= claims@.len(),
                claims@ == spec_claims(*config),
                (ka, pa, na) == claims@[a as int],
                forall|y: int|
                    a < y < b ==> ((#[trigger] claims@[y]).1 == claims@[a as int].1 && claims@[y].2
                        == claims@[a as int].2 ==> spec_overlap_allowed(
                        claims@[a as int].0,
                        claims@[y].0,
                    )),
            decreases claims@.len() - b,
        {
            let (kb, pb, nb) = claims[b];
            if pa == pb && na == nb {
                let allowed = (is_cs_kind(ka) || is_cs_kind(kb)) && (is_cs_kind(ka) || ka == 1)
                    && (is_cs_kind(kb) || kb == 1);
                if !allowed {
                    let mut msg = String::from_str(name);
                    msg.append(": pin ");
                    crate::strutil::append_decimal(&mut msg, na as u32);
                    msg.append(" used by multiple incompatible functions");
                    return Err(msg);
                }
            }
            b = b + 1;
        }
        a = a + 1;
    }
    Ok(())
}

} // verus!
