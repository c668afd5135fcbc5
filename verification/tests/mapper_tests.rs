use saitekswitch::simulator::{Command, ProcessError, Simulator, format_command};
use saitekswitch::switch_constants::{BATTERY, MAGOFF, MAGR, MAGSTART, STROBE};

/// A complete configuration binding all 13 toggle switches.
fn full_config() -> String {
    let mut s = String::new();
    s.push_str("<plane>Cessna 172\n");
    s.push_str("<switch name=\"BATTERY\">battery</switch>\n");
    s.push_str("<switch name=\"ALT\">alternator</switch>\n");
    s.push_str("<switch name=\"AVIONICS\">avionics</switch>\n");
    s.push_str("<switch name=\"FUELPUMP\">fuel-pump</switch>\n");
    s.push_str("<switch name=\"DEICE\">deice</switch>\n");
    s.push_str("<switch name=\"PITOTHEAT\">pitot-heat</switch>\n");
    s.push_str("<switch name=\"COWLCLOSE\">cowl-flaps</switch>\n");
    s.push_str("<switch name=\"PANELLIGHT\">panel-light</switch>\n");
    s.push_str("<switch name=\"BEACON\">beacon</switch>\n");
    s.push_str("<switch name=\"NAVLIGHTS\">nav-lights</switch>\n");
    s.push_str("<switch name=\"STROBE\">strobe</switch>\n");
    s.push_str("<switch name=\"TAXI\">taxi-light</switch>\n");
    s.push_str("<switch name=\"LANDING\">landing-light</switch>\n");
    s.push_str("<magnetos>magneto</magnetos>\n");
    s.push_str("<starter>starter</starter>\n");
    s.push_str("<gear-retarget>gear-retarget</gear-retarget>\n");
    s.push_str("<gear-primer>gear-primer</gear-primer>\n");
    s.push_str("</plane>\n");
    s
}

fn mapper() -> Simulator {
    Simulator::new(&full_config()).unwrap()
}

fn rendered(commands: &[Command]) -> Vec<String> {
    commands.iter().map(|c| format_command(c).trim_end().to_string()).collect()
}

#[test]
fn a_command_renders_as_name_comma_action_newline() {
    let c = Command { control: "battery".to_string(), action: 1 };
    assert_eq!(format_command(&c), "battery,1\n");
    let c = Command { control: "magneto".to_string(), action: 4 };
    assert_eq!(format_command(&c), "magneto,4\n");
}

#[test]
fn initialise_emits_one_command_per_switch() {
    let mut sim = mapper();
    // BATTERY and STROBE on, no rotary bit asserted
    let snapshot = BATTERY | STROBE;
    let commands = sim.initialise_switches(snapshot);
    assert_eq!(commands.len(), 13);
    for (i, c) in commands.iter().enumerate() {
        let (bit, name) = &sim.switch_mapper[i];
        assert_eq!(&c.control, name);
        let expected = if snapshot & bit != 0 { 1 } else { 0 };
        assert_eq!(c.action, expected);
        assert_eq!(sim.switch_status[i], (*bit, expected));
    }
    assert_eq!(sim.mag_value, 0);
}

#[test]
fn initialise_announces_the_active_rotary_position() {
    let mut sim = mapper();
    let commands = sim.initialise_switches(MAGR);
    assert_eq!(commands.len(), 14);
    assert_eq!(rendered(&commands)[13], "magneto,1");
    assert_eq!(sim.mag_value, MAGR);
}

#[test]
fn a_single_switch_toggle_emits_one_command() {
    let mut sim = mapper();
    sim.initialise_switches(0x000000);
    // battery switched on: 0x000000 -> 0x010000
    let commands = sim.process_input(BATTERY, 0x000000).unwrap();
    assert_eq!(rendered(&commands), vec!["battery,1"]);
    // and off again
    let commands = sim.process_input(0x000000, BATTERY).unwrap();
    assert_eq!(rendered(&commands), vec!["battery,0"]);
}

#[test]
fn several_coalesced_toggles_each_emit() {
    let mut sim = mapper();
    sim.initialise_switches(0x000000);
    let commands = sim.process_input(BATTERY | STROBE, 0x000000).unwrap();
    assert_eq!(rendered(&commands), vec!["battery,1", "strobe,1"]);
}

#[test]
fn no_mask_relevant_change_emits_no_switch_command() {
    let mut sim = mapper();
    sim.initialise_switches(0x000000);
    let status_before = sim.switch_status.clone();
    // only a rotary bit differs: the switch path stays quiet
    let commands = sim.process_input(MAGOFF, 0x000000).unwrap();
    assert_eq!(rendered(&commands), vec!["magneto,0"]);
    assert_eq!(sim.switch_status, status_before);
}

#[test]
fn an_unchanged_snapshot_emits_nothing() {
    let mut sim = mapper();
    sim.initialise_switches(0x000000);
    let x = BATTERY | MAGOFF;
    sim.process_input(x, 0x000000).unwrap();
    let commands = sim.process_input(x, x).unwrap();
    assert!(commands.is_empty());
}

#[test]
fn entering_start_pairs_the_starter_after_the_position() {
    let mut sim = mapper();
    sim.initialise_switches(MAGR);
    assert_eq!(sim.mag_value, MAGR);
    let commands = sim.process_input(MAGSTART, MAGR).unwrap();
    assert_eq!(rendered(&commands), vec!["magneto,4", "starter,1"]);
    assert_eq!(sim.mag_value, MAGSTART);
}

#[test]
fn leaving_start_releases_the_starter_first() {
    let mut sim = mapper();
    sim.initialise_switches(MAGSTART);
    assert_eq!(sim.mag_value, MAGSTART);
    let commands = sim.process_input(MAGOFF, MAGSTART).unwrap();
    assert_eq!(rendered(&commands), vec!["starter,0", "magneto,0"]);
    assert_eq!(sim.mag_value, MAGOFF);
}

#[test]
fn an_unchanged_rotary_position_stays_quiet() {
    let mut sim = mapper();
    sim.initialise_switches(MAGOFF);
    let commands = sim.process_input(MAGOFF | BATTERY, MAGOFF).unwrap();
    assert_eq!(rendered(&commands), vec!["battery,1"]);
    assert_eq!(sim.mag_value, MAGOFF);
}

#[test]
fn rotary_walks_through_every_position() {
    let mut sim = mapper();
    sim.initialise_switches(MAGOFF);
    let steps: Vec<(u32, Vec<&str>)> = vec![
        (0x004000, vec!["magneto,1"]),
        (0x008000, vec!["magneto,2"]),
        (0x000001, vec!["magneto,3"]),
        (0x000002, vec!["magneto,4", "starter,1"]),
        (0x002000, vec!["starter,0", "magneto,0"]),
    ];
    let mut previous = MAGOFF;
    for (current, expected) in steps {
        let commands = sim.process_input(current, previous).unwrap();
        assert_eq!(rendered(&commands), expected);
        assert_eq!(sim.mag_value, current);
        previous = current;
    }
}

#[test]
fn gear_lever_moves_go_through_the_switch_path() {
    let config = full_config().replace(
        "<magnetos>",
        "<switch name=\"GEARUP\">gear-up</switch><switch name=\"GEARDOWN\">gear-down</switch><magnetos>",
    );
    let mut sim = Simulator::new(&config).unwrap();
    sim.initialise_switches(0x000004); // gear up
    // the lever moves to down: both direction bits flip
    let commands = sim.process_input(0x000008, 0x000004).unwrap();
    assert_eq!(rendered(&commands), vec!["gear-up,0", "gear-down,1"]);
}

#[test]
fn a_changed_bit_without_a_binding_is_fatal() {
    // the full configuration binds the 13 switches but not the gear bits
    let mut sim = mapper();
    sim.initialise_switches(0x000000);
    let status_before = sim.switch_status.clone();
    match sim.process_input(0x000004, 0x000000) {
        Err(ProcessError::UnregisteredSwitchBits(bits)) => assert_eq!(bits, 0x000004),
        Ok(commands) => panic!("expected a fatal inconsistency, got {} commands", commands.len()),
    }
    // the mapper's state is left untouched
    assert_eq!(sim.switch_status, status_before);
    assert_eq!(sim.mag_value, 0);
    // a sound change still processes afterwards
    let commands = sim.process_input(BATTERY, 0x000000).unwrap();
    assert_eq!(rendered(&commands), vec!["battery,1"]);
}

#[test]
fn only_the_unbound_bits_are_reported() {
    let mut sim = mapper();
    sim.initialise_switches(0x000000);
    // battery is bound, both gear bits are not; nothing is emitted
    match sim.process_input(BATTERY | 0x000004 | 0x000008, 0x000000) {
        Err(ProcessError::UnregisteredSwitchBits(bits)) => assert_eq!(bits, 0x00000c),
        Ok(commands) => panic!("expected a fatal inconsistency, got {} commands", commands.len()),
    }
}
