//! The control mapper: the stateful core that turns snapshot changes into
//! named simulator commands.
//!
//! A [`Simulator`] holds the switch mapping loaded from the configuration,
//! the last value sent for every configured switch, and the rotary magneto
//! selector's state. [`Simulator::initialise_switches`] announces the whole
//! panel once at startup; [`Simulator::process_input`] turns one
//! previous/current snapshot pair into the commands owed for it. Both
//! return the commands as values; sending them is the caller's business.

use vstd::prelude::*;

use crate::config::{
    ConfigError, ConfigEvent, LoadResult, StartType, initial_loader_state,
    load_events, load_step, loader_state, parse_xml_events, switch_bit_keys, switch_map_view,
    unique_keys, upsert_switch, xml_events_of,
};
use crate::switch_constants::{
    MAGBOTH, MAGL, MAGMASK, MAGOFF, MAGR, MAGSTART, SWITCHMASK, is_rotary_bit, is_switch_bit,
    lemma_and_zero, lemma_switch_bits_disjoint, lemma_union_absorb,
};
use crate::switch_device::{
    lookup_name, make_name_map, name_map_view, name_map_wf, spec_lookup, spec_name_map, str_eq,
};

verus! {

/// One outbound command: the simulator-side control name and the small
/// integer action code sent with it.
pub struct Command {
    pub control: String,
    pub action: u8,
}

/// The rotary table: each magneto position's bit mask bound to its command
/// code, in the selector's order.
pub open spec fn spec_mag_table() -> Seq<(u32, u8)> {
    seq![(MAGOFF, 0u8), (MAGR, 1u8), (MAGL, 2u8), (MAGBOTH, 3u8), (MAGSTART, 4u8)]
}

/// The command code of a rotary position's bit mask.
pub open spec fn spec_mag_code(key: u32) -> u8 {
    if key == MAGOFF {
        0u8
    } else if key == MAGR {
        1u8
    } else if key == MAGL {
        2u8
    } else if key == MAGBOTH {
        3u8
    } else {
        4u8
    }
}

/// The per-switch state right after loading: every configured switch's
/// last-sent value seeded to 0.
pub open spec fn status_from(switches: Seq<(u32, Seq<char>)>) -> Seq<(u32, u8)> {
    switches.map_values(|p: (u32, Seq<char>)| (p.0, 0u8))
}

/// The control mapper's state: the switch mapping and last-sent values,
/// the rotary selector's tables and current position, and the command
/// names the configuration declared.
pub struct Simulator {
    pub switch_mapper: Vec<(u32, String)>,
    pub switch_status: Vec<(u32, u8)>,
    pub magneto: String,
    pub mag_value: u32,
    pub mag_mapper: Vec<(u32, u8)>,
    pub starter: String,
    pub gear_retarget: String,
    pub gear_primer: String,
}

impl Simulator {
    /// Well-formedness: the status table mirrors the mapping table key for
    /// key, every key is a distinct switch bit, every last-sent value is a
    /// binary one, the active rotary value is absent or one of the five
    /// positions, and the rotary table is the static one.
    pub open spec fn wf(self) -> bool {
        &&& self.switch_status@.len() == self.switch_mapper@.len()
        &&& (forall|i: int|
            0 <= i < self.switch_mapper@.len() ==> (#[trigger] self.switch_status@[i]).0
                == self.switch_mapper@[i].0)
        &&& (forall|i: int|
            0 <= i < self.switch_mapper@.len() ==> (#[trigger] self.switch_status@[i]).1 <= 1)
        &&& (forall|i: int|
            0 <= i < self.switch_mapper@.len() ==> is_switch_bit(
                (#[trigger] self.switch_mapper@[i]).0,
            ))
        &&& (forall|i: int, j: int|
            0 <= i < j < self.switch_mapper@.len() ==> (#[trigger] self.switch_mapper@[i]).0 != (
            #[trigger] self.switch_mapper@[j]).0)
        &&& (self.mag_value == 0 || is_rotary_bit(self.mag_value))
        &&& self.mag_mapper@ == spec_mag_table()
    }
}

/// Build the static rotary table.
fn make_mag_table() -> (m: Vec<(u32, u8)>)
    ensures
        m@ == spec_mag_table(),
{
    let mut m: Vec<(u32, u8)> = Vec::new();
    m.push((MAGOFF, 0u8));
    m.push((MAGR, 1u8));
    m.push((MAGL, 2u8));
    m.push((MAGBOTH, 3u8));
    m.push((MAGSTART, 4u8));
    proof {
        assert(m@ =~= spec_mag_table());
    }
    m
}

/// Toggle a last-sent binary value.
pub open spec fn flip(v: u8) -> u8 {
    if v == 0 {
        1u8
    } else {
        0u8
    }
}

/// The binary state of the control with mask `m` within snapshot `s`.
pub open spec fn bit_state(s: u32, m: u32) -> u8 {
    if s & m == 0 {
        0u8
    } else {
        1u8
    }
}

/// The switch commands owed for the change set `changed`, scanning the
/// configured entries from position `i` on: one command per entry whose
/// mask intersects the change set, carrying the entry's command name and
/// its toggled last-sent value.
pub open spec fn switch_commands_from(
    mapper: Seq<(u32, String)>,
    status: Seq<(u32, u8)>,
    changed: u32,
    i: int,
) -> Seq<Command>
    decreases mapper.len() - i,
{
    if i < 0 || i >= mapper.len() {
        Seq::empty()
    } else {
        let rest = switch_commands_from(mapper, status, changed, i + 1);
        if mapper[i].0 & changed != 0 {
            seq![Command { control: mapper[i].1, action: flip(status[i].1) }] + rest
        } else {
            rest
        }
    }
}

/// All switch commands owed for the change set `changed`, in the mapping's
/// order.
pub open spec fn spec_switch_commands(
    mapper: Seq<(u32, String)>,
    status: Seq<(u32, u8)>,
    changed: u32,
) -> Seq<Command> {
    switch_commands_from(mapper, status, changed, 0)
}

/// The last-sent table after the change set `changed`: every entry whose
/// mask intersects it is toggled, every other entry is kept.
pub open spec fn spec_toggled_status(status: Seq<(u32, u8)>, changed: u32) -> Seq<(u32, u8)> {
    Seq::new(
        status.len(),
        |i: int|
            if status[i].0 & changed != 0u32 {
                (status[i].0, flip(status[i].1))
            } else {
                status[i]
            },
    )
}

/// The rotary commands owed when the snapshot `current` arrives while the
/// active rotary value is `mag_value`: nothing while no rotary bit is
/// asserted or the position is unchanged; otherwise a starter-deactivate
/// first if the selector leaves the start position, then the rotary
/// position command, then a starter-activate if it enters it.
pub open spec fn spec_rotary_commands(
    magneto: String,
    starter: String,
    mag_value: u32,
    current: u32,
) -> Seq<Command> {
    let key = current & MAGMASK;
    if key == 0 || key == mag_value {
        Seq::empty()
    } else {
        let stop = if mag_value == MAGSTART {
            seq![Command { control: starter, action: 0u8 }]
        } else {
            Seq::empty()
        };
        let engage = if key == MAGSTART {
            seq![Command { control: starter, action: 1u8 }]
        } else {
            Seq::empty()
        };
        stop + seq![Command { control: magneto, action: spec_mag_code(key) }] + engage
    }
}

/// The active rotary value after the snapshot `current` arrives.
pub open spec fn spec_new_mag_value(mag_value: u32, current: u32) -> u32 {
    let key = current & MAGMASK;
    if key == 0 || key == mag_value {
        mag_value
    } else {
        key
    }
}

/// The union of the configured entries' masks up to position `i`.
pub open spec fn configured_mask_upto(mapper: Seq<(u32, String)>, i: int) -> u32
    decreases i,
{
    if i <= 0 {
        0u32
    } else {
        configured_mask_upto(mapper, i - 1) | mapper[i - 1].0
    }
}

/// The union of all configured entries' masks: the bits the mapping can
/// account for.
pub open spec fn configured_mask(mapper: Seq<(u32, String)>) -> u32 {
    configured_mask_upto(mapper, mapper.len() as int)
}

/// A configured entry's mask lies nowhere outside the union of all
/// configured masks.
pub proof fn lemma_configured_bit_covered(mapper: Seq<(u32, String)>, k: int, i: int)
    requires
        0 <= k < i <= mapper.len(),
    ensures
        mapper[k].0 & !configured_mask_upto(mapper, i) == 0,
    decreases i,
{
    lemma_union_absorb();
    if k < i - 1 {
        lemma_configured_bit_covered(mapper, k, i - 1);
    }
}

/// A fatal internal inconsistency between the static bit table and the
/// loaded configuration, detected while processing a change.
#[derive(Debug)]
pub enum ProcessError {
    /// Bits of the mask-filtered change set with no configured binding;
    /// safe operation cannot proceed, since no command exists for them.
    UnregisteredSwitchBits(u32),
}

/// The per-switch commands of the initialisation pass: one command per
/// configured switch, in the mapping's order, each carrying the switch's
/// binary state within the snapshot.
pub open spec fn spec_initial_switch_commands(
    mapper: Seq<(u32, String)>,
    current: u32,
) -> Seq<Command> {
    Seq::new(
        mapper.len(),
        |i: int| Command { control: mapper[i].1, action: bit_state(current, mapper[i].0) },
    )
}

/// The last-sent table after the initialisation pass: every configured
/// switch's binary state within the snapshot.
pub open spec fn spec_initial_status(mapper: Seq<(u32, String)>, current: u32) -> Seq<(u32, u8)> {
    Seq::new(mapper.len(), |i: int| (mapper[i].0, bit_state(current, mapper[i].0)))
}

/// The first entry of the rotary table, from position `i` on, whose mask
/// is set in the snapshot.
pub open spec fn spec_first_rotary(table: Seq<(u32, u8)>, current: u32, i: int) -> Option<
    (u32, u8),
>
    decreases table.len() - i,
{
    if i < 0 || i >= table.len() {
        None
    } else if current & table[i].0 != 0 {
        Some(table[i])
    } else {
        spec_first_rotary(table, current, i + 1)
    }
}

/// The rotary command of the initialisation pass: the mapped code of the
/// first rotary mask found set in the snapshot, if any is.
pub open spec fn spec_initial_rotary_commands(
    magneto: String,
    table: Seq<(u32, u8)>,
    current: u32,
) -> Seq<Command> {
    match spec_first_rotary(table, current, 0) {
        Some(p) => seq![Command { control: magneto, action: p.1 }],
        None => Seq::empty(),
    }
}

/// When no entry from position `i` on intersects the change set, no
/// command is owed from position `i` on.
pub proof fn lemma_switch_commands_from_empty(
    mapper: Seq<(u32, String)>,
    status: Seq<(u32, u8)>,
    changed: u32,
    i: int,
)
    requires
        forall|j: int| i <= j < mapper.len() ==> (#[trigger] mapper[j]).0 & changed == 0,
    ensures
        switch_commands_from(mapper, status, changed, i) == Seq::<Command>::empty(),
    decreases mapper.len() - i,
{
    if 0 <= i < mapper.len() {
        lemma_switch_commands_from_empty(mapper, status, changed, i + 1);
    }
}

/// Interpret the configuration document's events against the name/bit
/// table and, on success, fill the mapper's tables: the switch bindings in
/// declaration order with every last-sent value seeded to 0, the declared
/// command names, and the static rotary table. On any configuration
/// mistake — an unknown device-side name, an element the format does not
/// define, or fewer than 13 distinct switch bindings — the mapper is left
/// exactly as it was and the mistake is reported.
pub fn config_loader(
    events: &Vec<ConfigEvent>,
    devmap: &Vec<(String, u32)>,
    config_data: &mut Simulator,
) -> (result: Result<(), ConfigError>)
    requires
        name_map_wf(name_map_view(devmap@)),
    ensures
        (match result {
            Ok(()) => (match load_events(
                initial_loader_state(),
                name_map_view(devmap@),
                events@,
            ) {
                LoadResult::Done(st) => {
                    &&& st.switches.len() >= 13
                    &&& switch_map_view(final(config_data).switch_mapper@) == st.switches
                    &&& final(config_data).switch_status@ == status_from(st.switches)
                    &&& final(config_data).magneto@ == st.magneto
                    &&& final(config_data).starter@ == st.starter
                    &&& final(config_data).gear_retarget@ == st.gear_retarget
                    &&& final(config_data).gear_primer@ == st.gear_primer
                    &&& final(config_data).mag_mapper@ == spec_mag_table()
                    &&& final(config_data).mag_value == old(config_data).mag_value
                    &&& (old(config_data).mag_value == 0 || is_rotary_bit(
                        old(config_data).mag_value,
                    )) ==> final(config_data).wf()
                },
                _ => false,
            }),
            Err(e) => {
                &&& *final(config_data) == *old(config_data)
                &&& (match e {
                    ConfigError::UnknownSwitchName(s) => load_events(
                        initial_loader_state(),
                        name_map_view(devmap@),
                        events@,
                    ) matches LoadResult::UnknownName(n) && s@ == n,
                    ConfigError::UnexpectedElement(s) => load_events(
                        initial_loader_state(),
                        name_map_view(devmap@),
                        events@,
                    ) matches LoadResult::BadElement(n) && s@ == n,
                    ConfigError::TooFewSwitches(c) => load_events(
                        initial_loader_state(),
                        name_map_view(devmap@),
                        events@,
                    ) matches LoadResult::Done(st) && st.switches.len() < 13 && c
                        == st.switches.len(),
                })
            },
        }),
{
    let ghost dm = name_map_view(devmap@);
    let mut mode = StartType::Plane;
    let mut switch: u32 = 0;
    let mut mapper: Vec<(u32, String)> = Vec::new();
    let mut magneto = String::new();
    let mut starter = String::new();
    let mut gear_retarget = String::new();
    let mut gear_primer = String::new();

    let n = events.len();
    let mut i: usize = 0;
    proof {
        assert(events@.skip(0) =~= events@);
        assert(switch_map_view(mapper@) =~= Seq::<(u32, Seq<char>)>::empty());
        assert(loader_state(
            mode,
            switch,
            switch_map_view(mapper@),
            magneto@,
            starter@,
            gear_retarget@,
            gear_primer@,
        ) == initial_loader_state());
    }
    while i < n
        invariant_except_break
            i <= n,
            n == events@.len(),
            dm == name_map_view(devmap@),
            name_map_wf(dm),
            *config_data == *old(config_data),
            unique_keys(switch_map_view(mapper@)),
            switch_bit_keys(switch_map_view(mapper@)),
            mode matches StartType::Switch ==> is_switch_bit(switch),
            load_events(initial_loader_state(), dm, events@) == load_events(
                loader_state(
                    mode,
                    switch,
                    switch_map_view(mapper@),
                    magneto@,
                    starter@,
                    gear_retarget@,
                    gear_primer@,
                ),
                dm,
                events@.skip(i as int),
            ),
        ensures
            dm == name_map_view(devmap@),
            *config_data == *old(config_data),
            unique_keys(switch_map_view(mapper@)),
            switch_bit_keys(switch_map_view(mapper@)),
            load_events(initial_loader_state(), dm, events@) == LoadResult::Done(
                loader_state(
                    mode,
                    switch,
                    switch_map_view(mapper@),
                    magneto@,
                    starter@,
                    gear_retarget@,
                    gear_primer@,
                ),
            ),
        decreases n - i,
    {
        let ghost st_pre = loader_state(
            mode,
            switch,
            switch_map_view(mapper@),
            magneto@,
            starter@,
            gear_retarget@,
            gear_primer@,
        );
        proof {
            assert(events@.skip(i as int)[0] == events@[i as int]);
            assert(events@.skip(i as int).drop_first() =~= events@.skip(i as int + 1));
        }
        match &events[i] {
            ConfigEvent::StartElement(name, attributes) => {
                if str_eq(name.as_str(), "switch") {
                    let sname = crate::config::find_name_attr(attributes);
                    match lookup_name(devmap, sname.as_str()) {
                        Some(x) => {
                            proof {
                                crate::config::lemma_lookup_gives_switch_bit(dm, sname@);
                            }
                            mode = StartType::Switch;
                            switch = x;
                        },
                        None => {
                            return Err(ConfigError::UnknownSwitchName(sname));
                        },
                    }
                } else if str_eq(name.as_str(), "magnetos") {
                    mode = StartType::Magnetos;
                } else if str_eq(name.as_str(), "starter") {
                    mode = StartType::Starter;
                } else if str_eq(name.as_str(), "gear-retarget") {
                    mode = StartType::GearRetarget;
                } else if str_eq(name.as_str(), "gear-primer") {
                    mode = StartType::GearPrimer;
                } else if str_eq(name.as_str(), "plane") {
                    mode = StartType::Plane;
                } else {
                    return Err(ConfigError::UnexpectedElement(name.clone()));
                }
            },
            ConfigEvent::Characters(data) => {
                match mode {
                    StartType::Plane => {},
                    StartType::Switch => {
                        upsert_switch(&mut mapper, switch, data.clone());
                    },
                    StartType::Magnetos => {
                        magneto = data.clone();
                    },
                    StartType::Starter => {
                        starter = data.clone();
                    },
                    StartType::GearRetarget => {
                        gear_retarget = data.clone();
                    },
                    StartType::GearPrimer => {
                        gear_primer = data.clone();
                    },
                }
            },
            ConfigEvent::Error => {
                break ;
            },
            ConfigEvent::Other => {},
        }
        proof {
            let st_post = loader_state(
                mode,
                switch,
                switch_map_view(mapper@),
                magneto@,
                starter@,
                gear_retarget@,
                gear_primer@,
            );
            assert(load_step(st_pre, dm, events@[i as int]) == LoadResult::Done(st_post));
            assert(load_events(st_pre, dm, events@.skip(i as int)) == load_events(
                st_post,
                dm,
                events@.skip(i as int + 1),
            ));
        }
        i = i + 1;
    }
    if mapper.len() < 13 {
        return Err(ConfigError::TooFewSwitches(mapper.len()));
    }
    let mut status: Vec<(u32, u8)> = Vec::new();
    let m = mapper.len();
    for k in 0..m
        invariant
            m == mapper@.len(),
            status@.len() == k,
            forall|j: int| 0 <= j < k ==> status@[j] == (mapper@[j].0, 0u8),
    {
        status.push((mapper[k].0, 0u8));
    }
    proof {
        assert forall|j: int| 0 <= j < mapper@.len() implies status_from(switch_map_view(mapper@))[j]
            == status@[j] by {
            assert(switch_map_view(mapper@)[j] == (mapper@[j].0, mapper@[j].1@));
        }
        assert(status@ =~= status_from(switch_map_view(mapper@)));
        assert forall|j: int| 0 <= j < mapper@.len() implies is_switch_bit(
            (#[trigger] mapper@[j]).0,
        ) by {
            assert(switch_map_view(mapper@)[j] == (mapper@[j].0, mapper@[j].1@));
        }
        assert forall|a: int, b: int| 0 <= a < b < mapper@.len() implies (#[trigger] mapper@[a]).0
            != (#[trigger] mapper@[b]).0 by {
            assert(switch_map_view(mapper@)[a] == (mapper@[a].0, mapper@[a].1@));
            assert(switch_map_view(mapper@)[b] == (mapper@[b].0, mapper@[b].1@));
        }
    }
    config_data.switch_mapper = mapper;
    config_data.switch_status = status;
    config_data.magneto = magneto;
    config_data.starter = starter;
    config_data.gear_retarget = gear_retarget;
    config_data.gear_primer = gear_primer;
    config_data.mag_mapper = make_mag_table();
    Ok(())
}

/// The decimal digit character of a single-digit action code.
pub open spec fn digit_char(d: u8) -> char {
    if d == 0 {
        '0'
    } else if d == 1 {
        '1'
    } else if d == 2 {
        '2'
    } else if d == 3 {
        '3'
    } else {
        '4'
    }
}

/// The text of one command datagram: the control name, a comma, the
/// action code's digit, and a newline.
pub open spec fn spec_command_text(control: Seq<char>, action: u8) -> Seq<char> {
    control + seq![','] + seq![digit_char(action)] + seq!['\n']
}

/// Render one command as the datagram text the simulator expects.
pub fn format_command(command: &Command) -> (r: String)
    requires
        command.action <= 4,
    ensures
        r@ == spec_command_text(command.control@, command.action),
{
    let mut r = command.control.clone();
    r.append(",");
    let digit = if command.action == 0 {
        "0"
    } else if command.action == 1 {
        "1"
    } else if command.action == 2 {
        "2"
    } else if command.action == 3 {
        "3"
    } else {
        "4"
    };
    r.append(digit);
    r.append("\n");
    proof {
        reveal_strlit(",");
        reveal_strlit("\n");
        reveal_strlit("0");
        reveal_strlit("1");
        reveal_strlit("2");
        reveal_strlit("3");
        reveal_strlit("4");
        assert(r@ =~= spec_command_text(command.control@, command.action));
    }
    r
}

/// The rotary table's entries, position by position.
pub proof fn lemma_mag_table_entries()
    ensures
        spec_mag_table().len() == 5,
        spec_mag_table()[0] == (MAGOFF, 0u8),
        spec_mag_table()[1] == (MAGR, 1u8),
        spec_mag_table()[2] == (MAGL, 2u8),
        spec_mag_table()[3] == (MAGBOTH, 3u8),
        spec_mag_table()[4] == (MAGSTART, 4u8),
{
}

/// The command code bound to a rotary position's mask in the rotary table.
fn rotary_code(table: &Vec<(u32, u8)>, key: u32) -> (code: u8)
    requires
        table@ == spec_mag_table(),
        is_rotary_bit(key),
    ensures
        code == spec_mag_code(key),
{
    let n = table.len();
    proof {
        lemma_mag_table_entries();
    }
    let mut j: usize = 0;
    while j < n
        invariant
            n == 5,
            table@ == spec_mag_table(),
            j <= n,
            is_rotary_bit(key),
            forall|k: int| 0 <= k < j ==> (#[trigger] table@[k]).0 != key,
        decreases n - j,
    {
        if table[j].0 == key {
            proof {
                lemma_mag_table_entries();
            }
            return table[j].1;
        }
        j = j + 1;
    }
    proof {
        lemma_mag_table_entries();
        assert(false);
    }
    unreached()
}

impl Simulator {
    /// Create and initialise the mapper structure from the configuration
    /// document's text, forming the tables for easy access. Errors come
    /// exactly as [`config_loader`] reports them for the document's events
    /// against the static name/bit table.
    pub fn new(config: &str) -> (result: Result<Simulator, ConfigError>)
        ensures
            (match result {
                Ok(sim) => (match load_events(
                    initial_loader_state(),
                    spec_name_map(),
                    xml_events_of(config@),
                ) {
                    LoadResult::Done(st) => {
                        &&& st.switches.len() >= 13
                        &&& sim.wf()
                        &&& switch_map_view(sim.switch_mapper@) == st.switches
                        &&& sim.switch_status@ == status_from(st.switches)
                        &&& sim.magneto@ == st.magneto
                        &&& sim.starter@ == st.starter
                        &&& sim.gear_retarget@ == st.gear_retarget
                        &&& sim.gear_primer@ == st.gear_primer
                        &&& sim.mag_value == 0
                        &&& sim.mag_mapper@ == spec_mag_table()
                    },
                    _ => false,
                }),
                Err(e) => (match e {
                    ConfigError::UnknownSwitchName(s) => load_events(
                        initial_loader_state(),
                        spec_name_map(),
                        xml_events_of(config@),
                    ) matches LoadResult::UnknownName(n) && s@ == n,
                    ConfigError::UnexpectedElement(s) => load_events(
                        initial_loader_state(),
                        spec_name_map(),
                        xml_events_of(config@),
                    ) matches LoadResult::BadElement(n) && s@ == n,
                    ConfigError::TooFewSwitches(c) => load_events(
                        initial_loader_state(),
                        spec_name_map(),
                        xml_events_of(config@),
                    ) matches LoadResult::Done(st) && st.switches.len() < 13 && c
                        == st.switches.len(),
                }),
            }),
    {
        let events = parse_xml_events(config);
        let devmap = make_name_map();
        proof {
            crate::switch_device::lemma_spec_name_map_wf();
        }
        let mut sim = Simulator {
            switch_mapper: Vec::new(),
            switch_status: Vec::new(),
            magneto: String::new(),
            mag_value: 0,
            mag_mapper: Vec::new(),
            starter: String::new(),
            gear_retarget: String::new(),
            gear_primer: String::new(),
        };
        match config_loader(&events, &devmap, &mut sim) {
            Ok(()) => Ok(sim),
            Err(e) => Err(e),
        }
    }

    /// Set up initial values for the switches: record every configured
    /// switch's binary state within the snapshot and return one command
    /// per switch announcing it, then scan the rotary table and, for the
    /// first position found set, adopt it as the active rotary value and
    /// append its mapped command once.
    pub fn initialise_switches(&mut self, current_input: u32) -> (commands: Vec<Command>)
        requires
            old(self).wf(),
        ensures
            commands@ == spec_initial_switch_commands(old(self).switch_mapper@, current_input)
                + spec_initial_rotary_commands(old(self).magneto, spec_mag_table(), current_input),
            final(self).switch_status@ == spec_initial_status(
                old(self).switch_mapper@,
                current_input,
            ),
            final(self).mag_value == (match spec_first_rotary(spec_mag_table(), current_input, 0) {
                Some(p) => p.0,
                None => old(self).mag_value,
            }),
            final(self).switch_mapper == old(self).switch_mapper,
            final(self).magneto == old(self).magneto,
            final(self).starter == old(self).starter,
            final(self).mag_mapper == old(self).mag_mapper,
            final(self).gear_retarget == old(self).gear_retarget,
            final(self).gear_primer == old(self).gear_primer,
            final(self).wf(),
    {
        let mut commands: Vec<Command> = Vec::new();
        let n = self.switch_mapper.len();
        for i in 0..n
            invariant
                old(self).wf(),
                n == self.switch_mapper@.len(),
                self.switch_mapper == old(self).switch_mapper,
                self.magneto == old(self).magneto,
                self.starter == old(self).starter,
                self.mag_mapper == old(self).mag_mapper,
                self.mag_value == old(self).mag_value,
                self.gear_retarget == old(self).gear_retarget,
                self.gear_primer == old(self).gear_primer,
                self.switch_status@.len() == n,
                forall|j: int|
                    0 <= j < i ==> #[trigger] self.switch_status@[j] == (
                    old(self).switch_mapper@[j].0,
                    bit_state(current_input, old(self).switch_mapper@[j].0),
                ),
                forall|j: int|
                    i <= j < n ==> #[trigger] self.switch_status@[j] == old(
                        self,
                    ).switch_status@[j],
                commands@.len() == i,
                forall|j: int|
                    0 <= j < i ==> #[trigger] commands@[j] == (Command {
                        control: old(self).switch_mapper@[j].1,
                        action: bit_state(current_input, old(self).switch_mapper@[j].0),
                    }),
        {
            let key = self.switch_mapper[i].0;
            let status: u8 = if current_input & key == 0 {
                0
            } else {
                1
            };
            self.switch_status[i] = (key, status);
            let control = self.switch_mapper[i].1.clone();
            commands.push(Command { control, action: status });
        }
        proof {
            assert(self.switch_status@ =~= spec_initial_status(
                old(self).switch_mapper@,
                current_input,
            ));
            assert(commands@ =~= spec_initial_switch_commands(
                old(self).switch_mapper@,
                current_input,
            ));
        }
        let ghost switch_cmds = commands@;
        let m = self.mag_mapper.len();
        let mut j: usize = 0;
        proof {
            lemma_mag_table_entries();
        }
        while j < m
            invariant_except_break
                old(self).wf(),
                m == 5,
                j <= m,
                self.mag_mapper == old(self).mag_mapper,
                self.mag_mapper@ == spec_mag_table(),
                self.magneto == old(self).magneto,
                self.mag_value == old(self).mag_value,
                self.switch_mapper == old(self).switch_mapper,
                self.starter == old(self).starter,
                self.gear_retarget == old(self).gear_retarget,
                self.gear_primer == old(self).gear_primer,
                self.switch_status@ == spec_initial_status(
                    old(self).switch_mapper@,
                    current_input,
                ),
                commands@ == switch_cmds,
                spec_first_rotary(spec_mag_table(), current_input, 0) == spec_first_rotary(
                    spec_mag_table(),
                    current_input,
                    j as int,
                ),
            ensures
                self.mag_mapper == old(self).mag_mapper,
                self.magneto == old(self).magneto,
                self.switch_mapper == old(self).switch_mapper,
                self.starter == old(self).starter,
                self.gear_retarget == old(self).gear_retarget,
                self.gear_primer == old(self).gear_primer,
                self.switch_status@ == spec_initial_status(
                    old(self).switch_mapper@,
                    current_input,
                ),
                (match spec_first_rotary(spec_mag_table(), current_input, 0) {
                    Some(p) => {
                        &&& commands@ == switch_cmds.push(
                            Command { control: old(self).magneto, action: p.1 },
                        )
                        &&& self.mag_value == p.0
                        &&& is_rotary_bit(p.0)
                    },
                    None => commands@ == switch_cmds && self.mag_value == old(self).mag_value,
                }),
            decreases m - j,
        {
            let key = self.mag_mapper[j].0;
            if current_input & key != 0 {
                let code = self.mag_mapper[j].1;
                commands.push(Command { control: self.magneto.clone(), action: code });
                self.mag_value = key;
                proof {
                    lemma_mag_table_entries();
                    assert(spec_first_rotary(spec_mag_table(), current_input, j as int)
                        == Some((key, code)));
                }
                break ;
            }
            j = j + 1;
        }
        proof {
            match spec_first_rotary(spec_mag_table(), current_input, 0) {
                Some(p) => {
                    assert(commands@ =~= switch_cmds + spec_initial_rotary_commands(
                        old(self).magneto,
                        spec_mag_table(),
                        current_input,
                    ));
                },
                None => {
                    assert(commands@ =~= switch_cmds + spec_initial_rotary_commands(
                        old(self).magneto,
                        spec_mag_table(),
                        current_input,
                    ));
                },
            }
        }
        commands
    }

    /// Send suitable commands for the change between the previous and the
    /// current snapshot: one toggling command per configured switch whose
    /// bit changed, then the rotary transition's commands, with the
    /// starter pulse paired around the start position. A changed mask bit
    /// that no configured entry accounts for is a fatal inconsistency
    /// between the static bit table and the loaded configuration: it is
    /// reported, and the mapper's state is left untouched.
    pub fn process_input(&mut self, current_input: u32, previous_input: u32) -> (result: Result<
        Vec<Command>,
        ProcessError,
    >)
        requires
            old(self).wf(),
            current_input & MAGMASK == 0 || is_rotary_bit(current_input & MAGMASK),
        ensures
            (match result {
                Ok(commands) => {
                    &&& ((current_input ^ previous_input) & SWITCHMASK) & !configured_mask(
                        old(self).switch_mapper@,
                    ) == 0
                    &&& commands@ == spec_switch_commands(
                        old(self).switch_mapper@,
                        old(self).switch_status@,
                        (current_input ^ previous_input) & SWITCHMASK,
                    ) + spec_rotary_commands(
                        old(self).magneto,
                        old(self).starter,
                        old(self).mag_value,
                        current_input,
                    )
                    &&& final(self).switch_status@ == spec_toggled_status(
                        old(self).switch_status@,
                        (current_input ^ previous_input) & SWITCHMASK,
                    )
                    &&& final(self).mag_value == spec_new_mag_value(
                        old(self).mag_value,
                        current_input,
                    )
                    &&& final(self).switch_mapper == old(self).switch_mapper
                    &&& final(self).magneto == old(self).magneto
                    &&& final(self).starter == old(self).starter
                    &&& final(self).mag_mapper == old(self).mag_mapper
                    &&& final(self).gear_retarget == old(self).gear_retarget
                    &&& final(self).gear_primer == old(self).gear_primer
                    &&& final(self).wf()
                },
                Err(e) => {
                    &&& ((current_input ^ previous_input) & SWITCHMASK) & !configured_mask(
                        old(self).switch_mapper@,
                    ) != 0
                    &&& e == ProcessError::UnregisteredSwitchBits(
                        ((current_input ^ previous_input) & SWITCHMASK) & !configured_mask(
                            old(self).switch_mapper@,
                        ),
                    )
                    &&& *final(self) == *old(self)
                },
            }),
    {
        let mut commands: Vec<Command> = Vec::new();
        let key = (current_input ^ previous_input) & SWITCHMASK;
        let ghost changed = key;
        let ghost mapper0 = old(self).switch_mapper@;
        let ghost status0 = old(self).switch_status@;
        if key != 0 {
            let n = self.switch_mapper.len();
            let mut cover: u32 = 0;
            for i in 0..n
                invariant
                    n == self.switch_mapper@.len(),
                    *self == *old(self),
                    mapper0 == self.switch_mapper@,
                    cover == configured_mask_upto(mapper0, i as int),
            {
                cover = cover | self.switch_mapper[i].0;
            }
            if key & !cover != 0 {
                return Err(ProcessError::UnregisteredSwitchBits(key & !cover));
            }
            let mut i: usize = 0;
            while i < n
                invariant_except_break
                    old(self).wf(),
                    i <= n,
                    n == mapper0.len(),
                    mapper0 == old(self).switch_mapper@,
                    status0 == old(self).switch_status@,
                    changed == key,
                    self.switch_mapper == old(self).switch_mapper,
                    self.magneto == old(self).magneto,
                    self.starter == old(self).starter,
                    self.mag_mapper == old(self).mag_mapper,
                    self.mag_value == old(self).mag_value,
                    self.gear_retarget == old(self).gear_retarget,
                    self.gear_primer == old(self).gear_primer,
                    self.switch_status@.len() == n,
                    forall|j: int|
                        0 <= j < i ==> #[trigger] self.switch_status@[j] == spec_toggled_status(
                            status0,
                            changed,
                        )[j],
                    forall|j: int| i <= j < n ==> #[trigger] self.switch_status@[j] == status0[j],
                    commands@ + switch_commands_from(mapper0, status0, changed, i as int)
                        == spec_switch_commands(mapper0, status0, changed),
                ensures
                    mapper0 == old(self).switch_mapper@,
                    status0 == old(self).switch_status@,
                    changed == key,
                    self.switch_mapper == old(self).switch_mapper,
                    self.magneto == old(self).magneto,
                    self.starter == old(self).starter,
                    self.mag_mapper == old(self).mag_mapper,
                    self.mag_value == old(self).mag_value,
                    self.gear_retarget == old(self).gear_retarget,
                    self.gear_primer == old(self).gear_primer,
                    self.switch_status@ == spec_toggled_status(status0, changed),
                    commands@ == spec_switch_commands(mapper0, status0, changed),
                decreases n - i,
            {
                let lkey = self.switch_mapper[i].0;
                if lkey & key != 0 {
                    let value = self.switch_status[i].1;
                    let toggled: u8 = if value == 0 {
                        1
                    } else {
                        0
                    };
                    self.switch_status[i] = (lkey, toggled);
                    let control = self.switch_mapper[i].1.clone();
                    commands.push(Command { control, action: toggled });
                    if key == lkey {
                        proof {
                            lemma_switch_bits_disjoint();
                            assert forall|j: int| i as int + 1 <= j < n implies (
                            #[trigger] mapper0[j]).0 & changed == 0 by {
                                assert(is_switch_bit(mapper0[j].0));
                                assert(mapper0[j].0 != mapper0[i as int].0);
                            }
                            lemma_switch_commands_from_empty(
                                mapper0,
                                status0,
                                changed,
                                i as int + 1,
                            );
                            assert forall|j: int| 0 <= j < n implies #[trigger] self
                                .switch_status@[j] == spec_toggled_status(status0, changed)[j] by {
                                if i as int + 1 <= j {
                                    assert(is_switch_bit(mapper0[j].0));
                                    assert(mapper0[j].0 != mapper0[i as int].0);
                                    assert(status0[j].0 == mapper0[j].0);
                                }
                            }
                            assert(self.switch_status@ =~= spec_toggled_status(status0, changed));
                        }
                        break ;
                    }
                }
                i = i + 1;
            }
        } else {
            proof {
                lemma_and_zero();
                lemma_switch_commands_from_empty(mapper0, status0, changed, 0);
                assert(self.switch_status@ =~= spec_toggled_status(status0, changed));
            }
        }
        let ghost switch_cmds = commands@;
        let mag_key = current_input & MAGMASK;
        if mag_key != 0 && mag_key != self.mag_value {
            if self.mag_value == MAGSTART {
                commands.push(Command { control: self.starter.clone(), action: 0 });
            }
            self.mag_value = mag_key;
            let code = rotary_code(&self.mag_mapper, mag_key);
            commands.push(Command { control: self.magneto.clone(), action: code });
            if mag_key == MAGSTART {
                commands.push(Command { control: self.starter.clone(), action: 1 });
            }
        }
        proof {
            assert(commands@ =~= switch_cmds + spec_rotary_commands(
                old(self).magneto,
                old(self).starter,
                old(self).mag_value,
                current_input,
            ));
        }
        Ok(commands)
    }
}

} // verus!
