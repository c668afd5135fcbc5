//! Bit positions of the panel's controls within the packed 24-bit snapshot.
//!
//! The device reports three data bytes, packed big-endian into the low 24
//! bits of a `u32`: the first byte lands in `0x??0000`, the second in
//! `0x00??00`, the third in `0x0000??`. Each toggle switch, gear lever
//! direction and rotary magneto position owns a single bit.

use vstd::prelude::*;

verus! {

pub const BATTERY: u32 = 0x010000;

pub const ALT: u32 = 0x020000;

pub const AVIONICS: u32 = 0x040000;

pub const FUELPUMP: u32 = 0x080000;

pub const DEICE: u32 = 0x100000;

pub const PITOTHEAT: u32 = 0x200000;

pub const COWLCLOSE: u32 = 0x400000;

pub const PANELLIGHT: u32 = 0x800000;

pub const BEACON: u32 = 0x000100;

pub const NAVLIGHTS: u32 = 0x000200;

pub const STROBE: u32 = 0x000400;

pub const TAXI: u32 = 0x000800;

pub const LANDING: u32 = 0x001000;

pub const GEARUP: u32 = 0x000004;

pub const GEARDOWN: u32 = 0x000008;

pub const GEARMASK: u32 = GEARUP | GEARDOWN;

/// All bits handled by the generic switch path: the 13 toggle switches plus
/// the two gear lever directions.
pub const SWITCHMASK: u32 = BATTERY | ALT | AVIONICS | FUELPUMP | DEICE | PITOTHEAT | COWLCLOSE
    | PANELLIGHT | BEACON | NAVLIGHTS | STROBE | TAXI | LANDING | GEARMASK;

pub const MAGOFF: u32 = 0x002000;

pub const MAGR: u32 = 0x004000;

pub const MAGL: u32 = 0x008000;

pub const MAGBOTH: u32 = 0x000001;

pub const MAGSTART: u32 = 0x000002;

/// All bits of the five mutually exclusive rotary magneto positions.
pub const MAGMASK: u32 = MAGOFF | MAGR | MAGL | MAGBOTH | MAGSTART;

/// Holds exactly of the 15 bit masks that the generic switch path handles.
pub open spec fn is_switch_bit(m: u32) -> bool {
    ||| m == BATTERY
    ||| m == ALT
    ||| m == AVIONICS
    ||| m == FUELPUMP
    ||| m == DEICE
    ||| m == PITOTHEAT
    ||| m == COWLCLOSE
    ||| m == PANELLIGHT
    ||| m == BEACON
    ||| m == NAVLIGHTS
    ||| m == STROBE
    ||| m == TAXI
    ||| m == LANDING
    ||| m == GEARUP
    ||| m == GEARDOWN
}

/// Holds exactly of the five rotary magneto position masks.
pub open spec fn is_rotary_bit(m: u32) -> bool {
    ||| m == MAGOFF
    ||| m == MAGR
    ||| m == MAGL
    ||| m == MAGBOTH
    ||| m == MAGSTART
}

/// Two distinct switch bits never overlap: each mask carries a single,
/// unique set bit.
pub proof fn lemma_switch_bits_disjoint()
    by (bit_vector)
    ensures
        forall|a: u32, b: u32|
            is_switch_bit(a) && is_switch_bit(b) && a != b ==> #[trigger] (a & b) == 0,
{
}

/// Every switch bit lies inside the switch-and-gear mask and outside the
/// rotary mask.
pub proof fn lemma_switch_bit_in_mask()
    by (bit_vector)
    ensures
        forall|a: u32| is_switch_bit(a) ==> #[trigger] (a & SWITCHMASK) == a,
        forall|a: u32| is_switch_bit(a) ==> #[trigger] (a & MAGMASK) == 0,
{
}

/// Intersecting with an empty change set selects nothing.
pub proof fn lemma_and_zero()
    by (bit_vector)
    ensures
        forall|a: u32| #[trigger] (a & 0u32) == 0,
        forall|a: u32| #[trigger] (0u32 & a) == 0,
{
}

/// A mask is absorbed by any union it joins: nothing of it lies outside
/// the union, and lying outside a union is preserved when the union grows.
pub proof fn lemma_union_absorb()
    by (bit_vector)
    ensures
        forall|a: u32, b: u32| #[trigger] (a & !(b | a)) == 0,
        forall|a: u32, b: u32, c: u32| a & !b == 0 ==> #[trigger] (a & !(b | c)) == 0,
{
}

} // verus!
