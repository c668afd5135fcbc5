use saitekswitch::config::ConfigError;
use saitekswitch::simulator::Simulator;

/// A complete, well-formed configuration: all 13 toggle switches bound,
/// plus the rotary, starter and gear declarations.
fn full_config() -> String {
    let mut s = String::new();
    s.push_str("<plane>Cessna 172\n");
    s.push_str("<switch name=\"BATTERY\">battery</switch>\n");
    s.push_str("<switch name=\"ALT\">alternator</switch>\n");
    s.push_str("<switch name=\"AVIONICS\">avionics</switch>\n");
    s.push_str("<switch name=\"FUELPUMP\">fuel-pump</switch>\n");
    s.push_str("<switch name=\"DEICE\">deice</switch>\n");
    s.push_str("<switch name=\"PITOTHEAT\">pitot-heat</switch>\n");
    s.push_str("<switch name=\"COWLCLOSE\">cowl-flaps</switch>\n");
    s.push_str("<switch name=\"PANELLIGHT\">panel-light</switch>\n");
    s.push_str("<switch name=\"BEACON\">beacon</switch>\n");
    s.push_str("<switch name=\"NAVLIGHTS\">nav-lights</switch>\n");
    s.push_str("<switch name=\"STROBE\">strobe</switch>\n");
    s.push_str("<switch name=\"TAXI\">taxi-light</switch>\n");
    s.push_str("<switch name=\"LANDING\">landing-light</switch>\n");
    s.push_str("<magnetos>magneto</magnetos>\n");
    s.push_str("<starter>starter</starter>\n");
    s.push_str("<gear-retarget>gear-retarget</gear-retarget>\n");
    s.push_str("<gear-primer>gear-primer</gear-primer>\n");
    s.push_str("</plane>\n");
    s
}

#[test]
fn loads_a_complete_configuration() {
    let sim = Simulator::new(&full_config()).unwrap();
    assert_eq!(sim.switch_mapper.len(), 13);
    assert_eq!(sim.switch_status.len(), 13);
    // declaration order is kept
    assert_eq!(sim.switch_mapper[0], (0x010000, "battery".to_string()));
    assert_eq!(sim.switch_mapper[12], (0x001000, "landing-light".to_string()));
    // every last-sent value is seeded to 0, keyed like the mapping
    for i in 0..13 {
        assert_eq!(sim.switch_status[i].0, sim.switch_mapper[i].0);
        assert_eq!(sim.switch_status[i].1, 0);
    }
    assert_eq!(sim.magneto, "magneto");
    assert_eq!(sim.starter, "starter");
    assert_eq!(sim.gear_retarget, "gear-retarget");
    assert_eq!(sim.gear_primer, "gear-primer");
    assert_eq!(sim.mag_value, 0);
    assert_eq!(
        sim.mag_mapper,
        vec![(0x002000, 0), (0x004000, 1), (0x008000, 2), (0x000001, 3), (0x000002, 4)]
    );
}

#[test]
fn gear_directions_load_through_the_switch_path() {
    let config = full_config().replace(
        "<magnetos>",
        "<switch name=\"GEARUP\">gear-up</switch><switch name=\"GEARDOWN\">gear-down</switch><magnetos>",
    );
    let sim = Simulator::new(&config).unwrap();
    assert_eq!(sim.switch_mapper.len(), 15);
    assert_eq!(sim.switch_mapper[13], (0x000004, "gear-up".to_string()));
    assert_eq!(sim.switch_mapper[14], (0x000008, "gear-down".to_string()));
}

#[test]
fn a_repeated_switch_name_overwrites_its_binding() {
    let config = full_config().replace(
        "<magnetos>",
        "<switch name=\"BATTERY\">battery-master</switch><magnetos>",
    );
    let sim = Simulator::new(&config).unwrap();
    assert_eq!(sim.switch_mapper.len(), 13);
    assert_eq!(sim.switch_mapper[0], (0x010000, "battery-master".to_string()));
}

#[test]
fn an_unknown_switch_name_is_fatal() {
    let config = full_config().replace("BATTERY", "WARPDRIVE");
    match Simulator::new(&config) {
        Err(ConfigError::UnknownSwitchName(name)) => assert_eq!(name, "WARPDRIVE"),
        other => panic!("expected an unknown-switch-name error, got {:?}", other.map(|_| ())),
    }
}

#[test]
fn an_unexpected_element_is_fatal() {
    let config = full_config().replace("<magnetos>magneto</magnetos>", "<engine>rotax</engine>");
    match Simulator::new(&config) {
        Err(ConfigError::UnexpectedElement(name)) => assert_eq!(name, "engine"),
        other => panic!("expected an unexpected-element error, got {:?}", other.map(|_| ())),
    }
}

#[test]
fn fewer_than_13_switches_is_fatal() {
    let config = full_config().replace("<switch name=\"TAXI\">taxi-light</switch>\n", "");
    match Simulator::new(&config) {
        Err(ConfigError::TooFewSwitches(n)) => assert_eq!(n, 12),
        other => panic!("expected a too-few-switches error, got {:?}", other.map(|_| ())),
    }
}

#[test]
fn duplicate_bindings_count_once() {
    // 13 switch elements, but two bind the same control: only 12 distinct
    let config = full_config().replace("\"ALT\">alternator", "\"BATTERY\">battery-bis");
    match Simulator::new(&config) {
        Err(ConfigError::TooFewSwitches(n)) => assert_eq!(n, 12),
        other => panic!("expected a too-few-switches error, got {:?}", other.map(|_| ())),
    }
}

#[test]
fn a_truncated_document_keeps_what_was_read() {
    // the reader stops at the malformed point; too few switches were seen
    let config = "<plane><switch name=\"BATTERY\">battery</switch><switch ".to_string();
    match Simulator::new(&config) {
        Err(ConfigError::TooFewSwitches(n)) => assert_eq!(n, 1),
        other => panic!("expected a too-few-switches error, got {:?}", other.map(|_| ())),
    }
}
