//! The device-side model: packing raw report bytes into a snapshot, the
//! pair of snapshots (current and previous) that drives edge detection, and
//! the static table mapping control names to their bit masks.
//!
//! Acquiring the raw 4-byte report — from the real panel or from a piped
//! emulator — is I/O and stays outside the library; callers hand the frame
//! to [`Device::read`] as plain bytes.

use vstd::prelude::*;

use crate::switch_constants::{
    ALT, AVIONICS, BATTERY, BEACON, COWLCLOSE, DEICE, FUELPUMP, GEARDOWN, GEARUP, LANDING,
    NAVLIGHTS, PANELLIGHT, PITOTHEAT, STROBE, TAXI, is_switch_bit,
};

verus! {

/// The packed snapshot that three report bytes yield: first byte high,
/// third byte low, within the low 24 bits.
pub open spec fn spec_pack(buf: Seq<u8>) -> u32
    recommends
        buf.len() >= 3,
{
    ((buf[0] as u32) << 16u32) | ((buf[1] as u32) << 8u32) | (buf[2] as u32)
}

/// Pack the first 3 bytes of the incoming buffer into the low 24 bits of a
/// `u32`, first byte highest, so that the masks in `switch_constants`
/// coincide with the packed value.
pub fn pack(buf: &[u8]) -> (r: u32)
    requires
        buf@.len() >= 3,
    ensures
        r == spec_pack(buf@),
        r <= 0xFFFFFF,
{
    let b0 = buf[0];
    let b1 = buf[1];
    let b2 = buf[2];
    let r = ((b0 as u32) << 16u32) | ((b1 as u32) << 8u32) | (b2 as u32);
    proof {
        assert(((b0 as u32) << 16u32) | ((b1 as u32) << 8u32) | (b2 as u32) <= 0xFFFFFF)
            by (bit_vector);
    }
    r
}

/// The two snapshots the driver keeps between reads: the value just read
/// and the value of the immediately prior read cycle.
pub struct Device {
    pub input_current: u32,
    pub input_old: u32,
}

impl Device {
    /// A fresh device state, seeded with the snapshot obtained while the
    /// device was set up; no prior reading exists yet.
    pub fn new(initial_input: u32) -> (d: Device)
        ensures
            d.input_current == initial_input,
            d.input_old == 0,
    {
        Device { input_current: initial_input, input_old: 0 }
    }

    /// Take in one raw report frame. A read that yielded 2 or fewer
    /// meaningful bytes counts as "no new data" and leaves the current
    /// snapshot untouched; otherwise the first three bytes are packed into
    /// the current snapshot.
    pub fn read(&mut self, buf: &[u8], read_length: usize)
        requires
            buf@.len() >= 3,
        ensures
            final(self).input_current == (if read_length > 2 {
                spec_pack(buf@)
            } else {
                old(self).input_current
            }),
            final(self).input_old == old(self).input_old,
    {
        if read_length > 2 {
            self.input_current = pack(buf);
        }
    }

    /// Returns the current input value.
    pub fn get_current_input(&self) -> (r: u32)
        ensures
            r == self.input_current,
    {
        self.input_current
    }

    /// Returns the old input value.
    pub fn get_previous_input(&self) -> (r: u32)
        ensures
            r == self.input_old,
    {
        self.input_old
    }

    /// Saves the current input as the old input.
    pub fn preserve_current_input(&mut self)
        ensures
            final(self).input_old == old(self).input_current,
            final(self).input_current == old(self).input_current,
    {
        self.input_old = self.input_current;
    }

    /// Compares the current input with the old input; true if they differ.
    pub fn has_input_changed(&self) -> (r: bool)
        ensures
            r == (self.input_current != self.input_old),
    {
        self.input_current != self.input_old
    }
}

/// Equality of two string slices, decided at the level of their character
/// sequences.
pub fn str_eq(a: &str, b: &str) -> (r: bool)
    ensures
        r == (a@ == b@),
{
    let a2: String = a.to_owned();
    let b2: String = b.to_owned();
    a2 == b2
}

/// The name/bit table at the level of character sequences: one entry per
/// physical control, 13 toggle switches plus the two gear directions.
pub open spec fn spec_name_map() -> Seq<(Seq<char>, u32)> {
    seq![
        ("BATTERY"@, BATTERY),
        ("ALT"@, ALT),
        ("AVIONICS"@, AVIONICS),
        ("FUELPUMP"@, FUELPUMP),
        ("DEICE"@, DEICE),
        ("PITOTHEAT"@, PITOTHEAT),
        ("COWLCLOSE"@, COWLCLOSE),
        ("PANELLIGHT"@, PANELLIGHT),
        ("BEACON"@, BEACON),
        ("NAVLIGHTS"@, NAVLIGHTS),
        ("STROBE"@, STROBE),
        ("TAXI"@, TAXI),
        ("LANDING"@, LANDING),
        ("GEARUP"@, GEARUP),
        ("GEARDOWN"@, GEARDOWN),
    ]
}

/// A name table seen at the level of character sequences.
pub open spec fn name_map_view(m: Seq<(String, u32)>) -> Seq<(Seq<char>, u32)> {
    m.map_values(|p: (String, u32)| (p.0@, p.1))
}

/// Every bit value in the table belongs to the generic switch path.
pub open spec fn name_map_wf(m: Seq<(Seq<char>, u32)>) -> bool {
    forall|i: int| 0 <= i < m.len() ==> is_switch_bit(#[trigger] m[i].1)
}

pub proof fn lemma_spec_name_map_wf()
    ensures
        name_map_wf(spec_name_map()),
{
    assert forall|i: int| 0 <= i < spec_name_map().len() implies is_switch_bit(
        #[trigger] spec_name_map()[i].1,
    ) by {
        if i == 0 {
        } else if i == 1 {
        } else if i == 2 {
        } else if i == 3 {
        } else if i == 4 {
        } else if i == 5 {
        } else if i == 6 {
        } else if i == 7 {
        } else if i == 8 {
        } else if i == 9 {
        } else if i == 10 {
        } else if i == 11 {
        } else if i == 12 {
        } else if i == 13 {
        } else {
        }
    }
}

/// Build the table keyed by the textual switch name, with the switch
/// bit value as the data. This is all static information.
pub fn make_name_map() -> (m: Vec<(String, u32)>)
    ensures
        name_map_view(m@) == spec_name_map(),
{
    let mut m: Vec<(String, u32)> = Vec::new();
    m.push(("BATTERY".to_owned(), BATTERY));
    m.push(("ALT".to_owned(), ALT));
    m.push(("AVIONICS".to_owned(), AVIONICS));
    m.push(("FUELPUMP".to_owned(), FUELPUMP));
    m.push(("DEICE".to_owned(), DEICE));
    m.push(("PITOTHEAT".to_owned(), PITOTHEAT));
    m.push(("COWLCLOSE".to_owned(), COWLCLOSE));
    m.push(("PANELLIGHT".to_owned(), PANELLIGHT));
    m.push(("BEACON".to_owned(), BEACON));
    m.push(("NAVLIGHTS".to_owned(), NAVLIGHTS));
    m.push(("STROBE".to_owned(), STROBE));
    m.push(("TAXI".to_owned(), TAXI));
    m.push(("LANDING".to_owned(), LANDING));
    m.push(("GEARUP".to_owned(), GEARUP));
    m.push(("GEARDOWN".to_owned(), GEARDOWN));
    proof {
        assert(name_map_view(m@) =~= spec_name_map());
    }
    m
}

/// The value bound to the first entry of `m` whose name reads `name`, if
/// any entry does.
pub open spec fn spec_lookup(m: Seq<(Seq<char>, u32)>, name: Seq<char>) -> Option<u32>
    decreases m.len(),
{
    if m.len() == 0 {
        None
    } else if m[0].0 == name {
        Some(m[0].1)
    } else {
        spec_lookup(m.drop_first(), name)
    }
}

/// Look a control name up in the name/bit table.
pub fn lookup_name(m: &Vec<(String, u32)>, name: &str) -> (r: Option<u32>)
    ensures
        r == spec_lookup(name_map_view(m@), name@),
{
    let ghost mv = name_map_view(m@);
    let n = m.len();
    proof {
        assert(mv.skip(0) =~= mv);
    }
    for i in 0..n
        invariant
            n == m@.len(),
            mv == name_map_view(m@),
            spec_lookup(mv, name@) == spec_lookup(mv.skip(i as int), name@),
    {
        proof {
            assert(mv.skip(i as int)[0] == mv[i as int]);
            assert(mv.skip(i as int).drop_first() =~= mv.skip(i as int + 1));
        }
        if str_eq(m[i].0.as_str(), name) {
            return Some(m[i].1);
        }
    }
    proof {
        assert(mv.skip(n as int) =~= Seq::<(Seq<char>, u32)>::empty());
    }
    None
}

} // verus!
