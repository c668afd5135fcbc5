//! The mapper's general laws, stated once and for all over the spec
//! functions that the mapper's contracts use, and proved here.

use vstd::prelude::*;

use crate::simulator::{
    Command, Simulator, configured_mask, flip, lemma_configured_bit_covered,
    lemma_switch_commands_from_empty, spec_initial_switch_commands, spec_mag_code,
    spec_new_mag_value, spec_rotary_commands, spec_switch_commands, spec_toggled_status,
    switch_commands_from,
};
use crate::switch_constants::{
    MAGMASK, MAGSTART, SWITCHMASK, is_rotary_bit, is_switch_bit, lemma_and_zero,
    lemma_switch_bit_in_mask, lemma_switch_bits_disjoint,
};

verus! {

/// The initialisation pass owes exactly one command per configured switch,
/// in the mapping's order, and each command's action reflects whether the
/// switch's bit is set in the snapshot.
pub proof fn lemma_initialise_one_command_per_switch(mapper: Seq<(u32, String)>, s: u32)
    ensures
        spec_initial_switch_commands(mapper, s).len() == mapper.len(),
        forall|i: int|
            0 <= i < mapper.len() ==> (#[trigger] spec_initial_switch_commands(mapper, s)[i]).control
                == mapper[i].1,
        forall|i: int|
            0 <= i < mapper.len() ==> ((#[trigger] spec_initial_switch_commands(mapper, s)[i]).action
                == 1 <==> s & mapper[i].0 != 0),
        forall|i: int|
            0 <= i < mapper.len() ==> ((#[trigger] spec_initial_switch_commands(mapper, s)[i]).action
                == 0 <==> s & mapper[i].0 == 0),
{
}

/// When exactly one configured entry's mask intersects the change set, the
/// scan from position `i` owes that entry's toggling command alone — or
/// nothing, once the scan has passed it.
proof fn lemma_fire_only_at(
    mapper: Seq<(u32, String)>,
    status: Seq<(u32, u8)>,
    changed: u32,
    k: int,
    i: int,
)
    requires
        0 <= i <= mapper.len(),
        0 <= k < mapper.len(),
        mapper[k].0 & changed != 0,
        forall|j: int| 0 <= j < mapper.len() && j != k ==> (#[trigger] mapper[j]).0 & changed == 0,
    ensures
        switch_commands_from(mapper, status, changed, i) == (if i <= k {
            seq![Command { control: mapper[k].1, action: flip(status[k].1) }]
        } else {
            Seq::<Command>::empty()
        }),
    decreases mapper.len() - i,
{
    if i < mapper.len() {
        lemma_fire_only_at(mapper, status, changed, k, i + 1);
        if i == k {
            assert(switch_commands_from(mapper, status, changed, i) =~= seq![
                Command { control: mapper[k].1, action: flip(status[k].1) },
            ]);
        }
    }
}

/// When the two snapshots differ in a single configured switch bit — the
/// one of entry `k` — and the rotary field is quiet, processing owes
/// exactly one command: entry `k`'s name with its toggled last-sent value;
/// and only entry `k`'s last-sent value flips.
pub proof fn lemma_single_switch_change(sim: Simulator, previous: u32, current: u32, k: int)
    requires
        sim.wf(),
        0 <= k < sim.switch_mapper@.len(),
        current == previous ^ sim.switch_mapper@[k].0,
        current & MAGMASK == 0 || current & MAGMASK == sim.mag_value,
    ensures
        spec_switch_commands(
            sim.switch_mapper@,
            sim.switch_status@,
            (current ^ previous) & SWITCHMASK,
        ) + spec_rotary_commands(sim.magneto, sim.starter, sim.mag_value, current) == seq![
            Command {
                control: sim.switch_mapper@[k].1,
                action: flip(sim.switch_status@[k].1),
            },
        ],
        spec_toggled_status(sim.switch_status@, (current ^ previous) & SWITCHMASK)
            == sim.switch_status@.update(
            k,
            (sim.switch_status@[k].0, flip(sim.switch_status@[k].1)),
        ),
        ((current ^ previous) & SWITCHMASK) & !configured_mask(sim.switch_mapper@) == 0,
{
    let m = sim.switch_mapper@[k].0;
    lemma_configured_bit_covered(sim.switch_mapper@, k, sim.switch_mapper@.len() as int);
    assert(current ^ previous == m) by (bit_vector)
        requires
            current == previous ^ m,
    ;
    assert(is_switch_bit(m));
    lemma_switch_bit_in_mask();
    assert((current ^ previous) & SWITCHMASK == m);
    assert(m & m == m && m != 0) by (bit_vector)
        requires
            is_switch_bit(m),
    ;
    lemma_switch_bits_disjoint();
    assert forall|j: int|
        0 <= j < sim.switch_mapper@.len() && j != k implies (#[trigger] sim.switch_mapper@[j]).0 & m
        == 0 by {
        assert(is_switch_bit(sim.switch_mapper@[j].0));
        if j < k {
            assert(sim.switch_mapper@[j].0 != sim.switch_mapper@[k].0);
        } else {
            assert(sim.switch_mapper@[k].0 != sim.switch_mapper@[j].0);
        }
    }
    lemma_fire_only_at(sim.switch_mapper@, sim.switch_status@, m, k, 0);
    assert(spec_switch_commands(sim.switch_mapper@, sim.switch_status@, m) + spec_rotary_commands(
        sim.magneto,
        sim.starter,
        sim.mag_value,
        current,
    ) =~= seq![Command { control: sim.switch_mapper@[k].1, action: flip(sim.switch_status@[k].1) }]);
    assert forall|j: int| 0 <= j < sim.switch_status@.len() implies spec_toggled_status(
        sim.switch_status@,
        m,
    )[j] == sim.switch_status@.update(
        k,
        (sim.switch_status@[k].0, flip(sim.switch_status@[k].1)),
    )[j] by {
        assert(sim.switch_status@[j].0 == sim.switch_mapper@[j].0);
        if j != k {
            assert(sim.switch_mapper@[j].0 & m == 0);
        }
    }
    assert(spec_toggled_status(sim.switch_status@, m) =~= sim.switch_status@.update(
        k,
        (sim.switch_status@[k].0, flip(sim.switch_status@[k].1)),
    ));
}

/// When no bit under the switch-and-gear mask differs between the two
/// snapshots, processing owes no switch command and flips no last-sent
/// value.
pub proof fn lemma_no_switch_change_no_commands(
    mapper: Seq<(u32, String)>,
    status: Seq<(u32, u8)>,
    previous: u32,
    current: u32,
)
    requires
        (current ^ previous) & SWITCHMASK == 0,
    ensures
        spec_switch_commands(mapper, status, (current ^ previous) & SWITCHMASK)
            == Seq::<Command>::empty(),
        spec_toggled_status(status, (current ^ previous) & SWITCHMASK) == status,
        ((current ^ previous) & SWITCHMASK) & !configured_mask(mapper) == 0,
{
    lemma_and_zero();
    lemma_switch_commands_from_empty(mapper, status, 0, 0);
    assert(spec_toggled_status(status, 0) =~= status);
}

/// The active rotary value stays either zero or exactly one of the five
/// rotary masks across any processing step whose snapshot keeps the rotary
/// field sound.
pub proof fn lemma_rotary_value_valid(mag_value: u32, current: u32)
    requires
        mag_value == 0 || is_rotary_bit(mag_value),
        current & MAGMASK == 0 || is_rotary_bit(current & MAGMASK),
    ensures
        spec_new_mag_value(mag_value, current) == 0 || is_rotary_bit(
            spec_new_mag_value(mag_value, current),
        ),
{
}

/// The starter pulse is paired with the start position: a transition away
/// from it owes the starter-deactivate first, before the rotary position
/// command; a transition into it owes the starter-activate immediately
/// after the rotary position command.
pub proof fn lemma_starter_pairing(magneto: String, starter: String, mag_value: u32, current: u32)
    ensures
        (mag_value == MAGSTART && current & MAGMASK != 0 && current & MAGMASK != mag_value) ==> {
            let cmds = spec_rotary_commands(magneto, starter, mag_value, current);
            &&& cmds.len() == 2
            &&& cmds[0] == (Command { control: starter, action: 0u8 })
            &&& cmds[1] == (Command {
                control: magneto,
                action: spec_mag_code(current & MAGMASK),
            })
        },
        (current & MAGMASK == MAGSTART && mag_value != MAGSTART) ==> {
            let cmds = spec_rotary_commands(magneto, starter, mag_value, current);
            &&& cmds.len() == 2
            &&& cmds[0] == (Command { control: magneto, action: spec_mag_code(MAGSTART) })
            &&& cmds[1] == (Command { control: starter, action: 1u8 })
        },
{
    let key = current & MAGMASK;
    if mag_value == MAGSTART && key != 0 && key != mag_value {
        assert(spec_rotary_commands(magneto, starter, mag_value, current) =~= seq![
            Command { control: starter, action: 0u8 },
            Command { control: magneto, action: spec_mag_code(key) },
        ]);
    }
    if key == MAGSTART && mag_value != MAGSTART {
        assert(key != 0);
        assert(spec_rotary_commands(magneto, starter, mag_value, current) =~= seq![
            Command { control: magneto, action: spec_mag_code(MAGSTART) },
            Command { control: starter, action: 1u8 },
        ]);
    }
}

/// After any processing step, the active rotary value agrees with the
/// snapshot just processed wherever that snapshot asserts a rotary bit.
pub proof fn lemma_process_settles_rotary(mag_value: u32, current: u32)
    ensures
        current & MAGMASK == 0 || spec_new_mag_value(mag_value, current) == current & MAGMASK,
{
}

/// Processing a snapshot against itself owes nothing and changes nothing,
/// whenever the active rotary value agrees with that snapshot — as it
/// does after any processing step on it.
pub proof fn lemma_process_idempotent(sim: Simulator, x: u32)
    requires
        x & MAGMASK == 0 || sim.mag_value == x & MAGMASK,
    ensures
        spec_switch_commands(sim.switch_mapper@, sim.switch_status@, (x ^ x) & SWITCHMASK)
            == Seq::<Command>::empty(),
        spec_rotary_commands(sim.magneto, sim.starter, sim.mag_value, x) == Seq::<Command>::empty(),
        spec_toggled_status(sim.switch_status@, (x ^ x) & SWITCHMASK) == sim.switch_status@,
        spec_new_mag_value(sim.mag_value, x) == sim.mag_value,
        ((x ^ x) & SWITCHMASK) & !configured_mask(sim.switch_mapper@) == 0,
{
    assert((x ^ x) & SWITCHMASK == 0) by (bit_vector);
    lemma_no_switch_change_no_commands(sim.switch_mapper@, sim.switch_status@, x, x);
}

} // verus!

