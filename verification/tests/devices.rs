use audio_switch::device::{
    add_endpoint, device_from_endpoint, find_device, propvariant_to_string, AudioDevice,
    EndpointFormFactor, PropVariant, HEADSET, VT_LPWSTR, VT_UI4,
};
use audio_switch::error::AudioSwitchError;
use audio_switch::rotation::next_device;

fn device(id: &str, selectable: bool) -> AudioDevice {
    AudioDevice {
        id: id.to_string(),
        friendly_name: format!("Device {}", id),
        selectable,
        form_factor: EndpointFormFactor(0),
    }
}

fn name(text: &str) -> PropVariant {
    PropVariant {
        vt: VT_LPWSTR,
        wide: text.encode_utf16().collect(),
        ul_val: 0,
        debug: String::new(),
    }
}

fn number(value: u32) -> PropVariant {
    PropVariant { vt: VT_UI4, wide: Vec::new(), ul_val: value, debug: String::new() }
}

fn nothing() -> PropVariant {
    PropVariant {
        vt: 0,
        wide: Vec::new(),
        ul_val: 0,
        debug: "PROPVARIANT { type: 0 }".to_string(),
    }
}

#[test]
fn string_property_is_decoded() {
    assert_eq!(propvariant_to_string(&name("Kopfhörer 🎧")).unwrap(), "Kopfhörer 🎧");
    let mut broken: PropVariant = name("a");
    broken.wide.push(0xD800);
    assert_eq!(propvariant_to_string(&broken).unwrap(), "a\u{FFFD}");
}

#[test]
fn other_property_is_no_string() {
    assert!(matches!(
        propvariant_to_string(&number(3)),
        Err(AudioSwitchError::UnsupportedPropertyType { vt: VT_UI4 })
    ));
}

#[test]
fn endpoint_becomes_a_selectable_device() {
    let d: AudioDevice =
        device_from_endpoint("{0.0}".to_string(), &name("Headset"), &number(5)).unwrap();
    assert_eq!(d.id, "{0.0}");
    assert_eq!(d.friendly_name, "Headset");
    assert!(d.selectable);
    assert_eq!(d.form_factor, EndpointFormFactor(HEADSET));
}

#[test]
fn form_factor_is_read_as_signed() {
    let d: AudioDevice =
        device_from_endpoint("x".to_string(), &name("n"), &number(u32::MAX)).unwrap();
    assert_eq!(d.form_factor, EndpointFormFactor(-1));
    let d: AudioDevice =
        device_from_endpoint("x".to_string(), &name("n"), &number(0x8000_0000)).unwrap();
    assert_eq!(d.form_factor, EndpointFormFactor(i32::MIN));
}

#[test]
fn form_factor_is_looked_at_before_the_name() {
    match device_from_endpoint("x".to_string(), &nothing(), &nothing()) {
        Err(AudioSwitchError::UnsupportedFormFactor { property }) => {
            assert_eq!(property, "PROPVARIANT { type: 0 }")
        }
        other => panic!("{:?}", other),
    }
    assert!(matches!(
        device_from_endpoint("x".to_string(), &nothing(), &number(1)),
        Err(AudioSwitchError::UnsupportedPropertyType { vt: 0 })
    ));
}

#[test]
fn endpoints_are_listed_in_order() {
    let mut devices: Vec<AudioDevice> = Vec::new();
    assert!(add_endpoint(&mut devices, "a".to_string(), &name("A"), &number(1)).is_ok());
    assert!(add_endpoint(&mut devices, "b".to_string(), &name("B"), &nothing()).is_err());
    assert!(add_endpoint(&mut devices, "c".to_string(), &name("C"), &number(3)).is_ok());
    let ids: Vec<&str> = devices.iter().map(|d| d.id.as_str()).collect();
    assert_eq!(ids, vec!["a", "c"]);
}

#[test]
fn first_device_with_an_id_is_found() {
    let devices: Vec<AudioDevice> = vec![device("a", true), device("b", true), device("b", false)];
    assert_eq!(find_device(&devices, "b"), Some(1));
    assert_eq!(find_device(&devices, "a"), Some(0));
    assert_eq!(find_device(&devices, "B"), None);
    assert_eq!(find_device(&[], "a"), None);
}

#[test]
fn rotation_goes_to_the_nearest_selectable_device() {
    let devices: Vec<AudioDevice> =
        vec![device("a", true), device("b", false), device("c", true), device("d", false)];
    assert_eq!(next_device(&devices, "a"), Some(2));
    assert_eq!(next_device(&devices, "b"), Some(2));
    assert_eq!(next_device(&devices, "c"), Some(0));
    assert_eq!(next_device(&devices, "d"), Some(0));
}

#[test]
fn rotation_from_an_unknown_device_starts_after_the_first() {
    let devices: Vec<AudioDevice> = vec![device("a", true), device("b", true)];
    assert_eq!(next_device(&devices, "gone"), Some(1));
    let devices: Vec<AudioDevice> = vec![device("a", true), device("b", false)];
    assert_eq!(next_device(&devices, "gone"), Some(0));
}

#[test]
fn rotation_without_selectable_devices_stays() {
    assert_eq!(next_device(&[], "a"), None);
    assert_eq!(next_device(&[device("a", false), device("b", false)], "a"), None);
}

#[test]
fn single_selectable_device_is_always_next() {
    let devices: Vec<AudioDevice> = vec![device("a", false), device("b", true), device("c", false)];
    for current in ["a", "b", "c", "d"] {
        assert_eq!(next_device(&devices, current), Some(1));
    }
}

#[test]
fn rotation_visits_every_selectable_device_once() {
    let devices: Vec<AudioDevice> = vec![
        device("a", true),
        device("b", false),
        device("c", true),
        device("d", true),
        device("e", false),
    ];
    let mut current: String = "c".to_string();
    let mut visited: Vec<String> = Vec::new();
    for _ in 0..3 {
        let next: usize = next_device(&devices, &current).unwrap();
        current = devices[next].id.clone();
        visited.push(current.clone());
    }
    assert_eq!(visited, vec!["d", "a", "c"]);
}

#[test]
fn rotation_from_anywhere_visits_every_selectable_device_once() {
    let devices: Vec<AudioDevice> =
        vec![device("a", true), device("b", false), device("c", true), device("d", true)];
    for start in ["a", "b", "c", "d", "gone"] {
        let mut current: String = start.to_string();
        let mut visited: Vec<String> = Vec::new();
        for _ in 0..3 {
            let next: usize = next_device(&devices, &current).unwrap();
            current = devices[next].id.clone();
            visited.push(current.clone());
        }
        visited.sort();
        assert_eq!(visited, vec!["a", "c", "d"]);
    }
}
