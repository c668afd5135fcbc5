use saitekswitch::switch_device::{Device, make_name_map, pack};

#[test]
fn pack_puts_first_byte_highest() {
    assert_eq!(pack(&[0x01, 0x02, 0x03, 0xff]), 0x010203);
    assert_eq!(pack(&[0x00, 0x00, 0x00, 0x00]), 0x000000);
    assert_eq!(pack(&[0xff, 0xff, 0xff, 0x00]), 0xffffff);
}

#[test]
fn pack_ignores_the_padding_byte() {
    assert_eq!(pack(&[0x12, 0x34, 0x56, 0x00]), pack(&[0x12, 0x34, 0x56, 0x99]));
}

#[test]
fn device_keeps_snapshot_on_short_read() {
    let mut d = Device::new(0x010203);
    assert_eq!(d.get_current_input(), 0x010203);
    assert_eq!(d.get_previous_input(), 0);
    d.preserve_current_input();
    assert_eq!(d.get_previous_input(), 0x010203);

    // a read of 2 or fewer meaningful bytes counts as "no new data"
    d.read(&[0xaa, 0xbb, 0xcc, 0x00], 2);
    assert_eq!(d.get_current_input(), 0x010203);
    assert!(!d.has_input_changed());

    d.read(&[0xaa, 0xbb, 0xcc, 0x00], 4);
    assert_eq!(d.get_current_input(), 0xaabbcc);
    assert!(d.has_input_changed());

    d.preserve_current_input();
    assert!(!d.has_input_changed());
}

#[test]
fn name_map_holds_every_control_once() {
    let m = make_name_map();
    assert_eq!(m.len(), 15);
    let get = |name: &str| -> u32 {
        m.iter().find(|p| p.0 == name).map(|p| p.1).unwrap()
    };
    assert_eq!(get("BATTERY"), 0x010000);
    assert_eq!(get("ALT"), 0x020000);
    assert_eq!(get("AVIONICS"), 0x040000);
    assert_eq!(get("FUELPUMP"), 0x080000);
    assert_eq!(get("DEICE"), 0x100000);
    assert_eq!(get("PITOTHEAT"), 0x200000);
    assert_eq!(get("COWLCLOSE"), 0x400000);
    assert_eq!(get("PANELLIGHT"), 0x800000);
    assert_eq!(get("BEACON"), 0x000100);
    assert_eq!(get("NAVLIGHTS"), 0x000200);
    assert_eq!(get("STROBE"), 0x000400);
    assert_eq!(get("TAXI"), 0x000800);
    assert_eq!(get("LANDING"), 0x001000);
    assert_eq!(get("GEARUP"), 0x000004);
    assert_eq!(get("GEARDOWN"), 0x000008);
    // every bit value is distinct
    for i in 0..m.len() {
        for j in (i + 1)..m.len() {
            assert_ne!(m[i].1, m[j].1);
        }
    }
}
