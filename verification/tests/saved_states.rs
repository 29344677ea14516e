use audio_switch::device::{AudioDevice, EndpointFormFactor};
use audio_switch::state::{
    apply_device_selectable_state, load_device_selectable_state, save_device_selectable_state,
    DeviceStates, CONFIG_APP_DIR, CONFIG_FILE, CONFIG_VENDOR_DIR,
};
use std::collections::HashMap;

fn saved(id: &str, selectable: bool) -> AudioDevice {
    AudioDevice {
        id: id.to_string(),
        friendly_name: format!("Device {}", id),
        selectable,
        form_factor: EndpointFormFactor(1),
    }
}

fn selectable_flags(devices: &[AudioDevice]) -> Vec<bool> {
    devices.iter().map(|d| d.selectable).collect()
}

#[test]
fn saved_text_is_a_json_object() {
    let devices: Vec<AudioDevice> = vec![saved("a", true), saved("\"b\"\n", false)];
    let text: String = save_device_selectable_state(&devices).unwrap();
    let read: HashMap<String, bool> = serde_json::from_str(&text).unwrap();
    assert_eq!(read.len(), 2);
    assert_eq!(read["a"], true);
    assert_eq!(read["\"b\"\n"], false);
}

#[test]
fn single_saved_state_is_pretty_printed() {
    let text: String = save_device_selectable_state(&[saved("a", true)]).unwrap();
    assert_eq!(text, "{\n  \"a\": true\n}");
    assert_eq!(save_device_selectable_state(&[]).unwrap(), "{}");
}

#[test]
fn what_was_saved_comes_back() {
    let devices: Vec<AudioDevice> =
        vec![saved("a", true), saved("b", false), saved("ü\u{0}🎧", false)];
    let text: String = save_device_selectable_state(&devices).unwrap();
    let states: DeviceStates = load_device_selectable_state(Some(&text)).unwrap();
    let mut later: Vec<AudioDevice> = vec![
        saved("new", true),
        saved("ü\u{0}🎧", true),
        saved("b", true),
        saved("a", true),
    ];
    apply_device_selectable_state(&mut later, &states);
    assert_eq!(selectable_flags(&later), vec![true, false, false, true]);
    apply_device_selectable_state(&mut later, &states);
    assert_eq!(selectable_flags(&later), vec![true, false, false, true]);
    assert_eq!(later[1].friendly_name, "Device ü\u{0}🎧");
}

#[test]
fn last_of_two_devices_with_one_id_counts() {
    let devices: Vec<AudioDevice> = vec![saved("a", true), saved("a", false)];
    let states: DeviceStates = DeviceStates::of_devices(&devices);
    assert_eq!(states.get(&"a".to_string()), Some(false));
    let text: String = save_device_selectable_state(&devices).unwrap();
    assert_eq!(text, "{\n  \"a\": false\n}");
}

#[test]
fn missing_file_holds_no_states() {
    let states: DeviceStates = load_device_selectable_state(None).unwrap();
    assert_eq!(states.get(&"a".to_string()), None);
    let mut devices: Vec<AudioDevice> = vec![saved("a", true), saved("b", false)];
    apply_device_selectable_state(&mut devices, &states);
    assert_eq!(selectable_flags(&devices), vec![true, false]);
    assert_eq!(DeviceStates::new().get(&"a".to_string()), None);
}

#[test]
fn handwritten_file_is_read() {
    let states: DeviceStates =
        load_device_selectable_state(Some("{ \"a\": false, \"b\": true, \"a\": true }")).unwrap();
    assert_eq!(states.get(&"a".to_string()), Some(true));
    assert_eq!(states.get(&"b".to_string()), Some(true));
    assert_eq!(states.get(&"c".to_string()), None);
}

#[test]
fn broken_file_is_reported() {
    for text in ["", "{", "[]", "{ \"a\": 1 }", "{ \"a\": true } x", "null"] {
        assert!(load_device_selectable_state(Some(text)).is_err());
    }
}

#[test]
fn file_location() {
    assert_eq!(CONFIG_VENDOR_DIR, "PurpleHatstands");
    assert_eq!(CONFIG_APP_DIR, "AudioSwitch");
    assert_eq!(CONFIG_FILE, "device_config.json");
}
