use audio_switch::device::{AudioDevice, EndpointFormFactor, HEADPHONES, HEADSET, SPEAKERS};
use audio_switch::effect::{after_effect, first_effect, Effect, Next};
use audio_switch::error::AudioSwitchError;
use audio_switch::menu::{device_id_to_menu_id, POPUP_CURRENT_DEVICE_ID, POPUP_EXIT_ID};
use audio_switch::message::{TASKBAR_CB_ID, WM_CLOSE};
use audio_switch::state::{
    load_device_selectable_state, save_device_selectable_state, DeviceStates,
};
use audio_switch::switch::{
    is_dark_mode, load_icon, notify_icon_data, removed_icon_data, startup, AudioSwitch,
    NotifyIconData, Startup,
};
use audio_switch::utf16::wide_null;

fn known(id: &str, form_factor: i32, selectable: bool) -> AudioDevice {
    AudioDevice {
        id: id.to_string(),
        friendly_name: format!("Device {}", id),
        selectable,
        form_factor: EndpointFormFactor(form_factor),
    }
}

fn tray(devices: Vec<AudioDevice>) -> AudioSwitch {
    AudioSwitch {
        window: 11,
        icon: 1,
        popup_menu: 12,
        available_devices: devices,
        headphones_icon: 2,
        headset_icon: 3,
        speaker_icon: 4,
    }
}

fn four() -> AudioSwitch {
    tray(vec![
        known("a", SPEAKERS, true),
        known("b", HEADPHONES, false),
        known("c", HEADSET, true),
        known("d", 9, true),
    ])
}

#[test]
fn each_kind_of_device_has_its_icon() {
    let me: AudioSwitch = four();
    assert_eq!(me.icon_for_form_factor(EndpointFormFactor(HEADPHONES)), 2);
    assert_eq!(me.icon_for_form_factor(EndpointFormFactor(HEADSET)), 3);
    assert_eq!(me.icon_for_form_factor(EndpointFormFactor(SPEAKERS)), 4);
    for other in [-1, 0, 2, 4, 6, 10] {
        assert_eq!(me.icon_for_form_factor(EndpointFormFactor(other)), 1);
    }
}

#[test]
fn current_device_has_its_icon() {
    let me: AudioSwitch = four();
    assert_eq!(me.current_icon("a").unwrap(), 4);
    assert_eq!(me.current_icon("b").unwrap(), 2);
    assert_eq!(me.current_icon("d").unwrap(), 1);
    assert!(matches!(me.current_icon("e"), Err(AudioSwitchError::CurrentDeviceNotFound)));
}

#[test]
fn popup_names_the_current_device_first() {
    let effects: Vec<Effect> = four().show_popup_menu("c", 640, -3).unwrap();
    assert_eq!(effects.len(), 3);
    match &effects[0] {
        Effect::RelabelItem { id, label } => {
            assert_eq!(*id, POPUP_CURRENT_DEVICE_ID);
            assert_eq!(label, "Device c");
        }
        other => panic!("{:?}", other),
    }
    assert!(matches!(effects[1], Effect::SetForeground));
    assert!(matches!(effects[2], Effect::TrackPopup { x: 640, y: -3, flags: 0x22 }));
}

#[test]
fn popup_needs_a_known_device() {
    assert!(matches!(
        four().show_popup_menu("e", 0, 0),
        Err(AudioSwitchError::CurrentDeviceNotFound)
    ));
}

#[test]
fn exit_closes_the_window() {
    let mut me: AudioSwitch = four();
    let effects: Vec<Effect> = me.menu_selection(POPUP_EXIT_ID);
    assert_eq!(effects.len(), 1);
    assert!(matches!(
        effects[0],
        Effect::PostMessage { message: WM_CLOSE, wparam: 0, lparam: 0 }
    ));
}

#[test]
fn toggling_updates_the_item_and_saves() {
    let mut me: AudioSwitch = four();
    let id: u32 = device_id_to_menu_id("b");
    let effects: Vec<Effect> = me.menu_selection(id);
    assert!(me.available_devices[1].selectable);
    assert_eq!(effects.len(), 2);
    match &effects[0] {
        Effect::CheckItem { id: item, selectable } => {
            assert_eq!(*item, id);
            assert!(*selectable);
        }
        other => panic!("{:?}", other),
    }
    assert!(matches!(effects[1], Effect::SaveStates));
    me.menu_selection(id);
    assert!(!me.available_devices[1].selectable);
    assert_eq!(me.window, 11);
    assert_eq!(me.popup_menu, 12);
}

#[test]
fn unknown_item_asks_for_nothing() {
    let mut me: AudioSwitch = four();
    assert!(me.menu_selection(POPUP_CURRENT_DEVICE_ID).is_empty());
    assert!(!me.available_devices[1].selectable);
}

#[test]
fn click_switches_and_shows_the_next_device() {
    let effects: Vec<Effect> = four().next_device("a");
    assert_eq!(effects.len(), 2);
    match &effects[0] {
        Effect::SetDefaultEndpoint { device_id, role } => {
            assert_eq!(*device_id, wide_null("c"));
            assert_eq!(*role, 0);
        }
        other => panic!("{:?}", other),
    }
    assert!(matches!(effects[1], Effect::ModifyIcon { device: 2 }));
}

#[test]
fn click_without_selectable_devices_asks_for_nothing() {
    assert!(tray(vec![known("a", 1, false)]).next_device("a").is_empty());
    assert!(tray(Vec::new()).next_device("a").is_empty());
}

#[test]
fn shutdown_saves_and_quits() {
    let effects: Vec<Effect> = four().shutdown();
    assert_eq!(effects.len(), 2);
    assert!(matches!(effects[0], Effect::SaveStates));
    assert!(matches!(effects[1], Effect::PostQuit { exit_code: 0 }));
}

#[test]
fn only_saving_may_fail() {
    assert!(Effect::SaveStates.tolerates_failure());
    for effect in [
        Effect::PostMessage { message: 16, wparam: 0, lparam: 0 },
        Effect::PostQuit { exit_code: 0 },
        Effect::CheckItem { id: 3, selectable: true },
        Effect::RelabelItem { id: 3, label: String::new() },
        Effect::SetForeground,
        Effect::TrackPopup { x: 0, y: 0, flags: 0 },
        Effect::SetDefaultEndpoint { device_id: vec![0], role: 0 },
        Effect::ModifyIcon { device: 0 },
    ] {
        assert!(!effect.tolerates_failure());
    }
}

#[test]
fn tray_shows_a_device() {
    let data: NotifyIconData = four().switched_icon_data(2);
    assert_eq!(data.window, 11);
    assert_eq!(data.icon, 3);
    assert_eq!(data.guid, 0x8fc84650_4bca_4125_b778_10313f9623df);
    assert_eq!(data.flags, 0xA7);
    assert_eq!(data.callback_message, TASKBAR_CB_ID);
    assert_eq!(data.version, 4);
    assert_eq!(String::from_utf16(&data.tip[..8]).unwrap(), "Device c");
    assert_eq!(data.tip[8], 0);
}

#[test]
fn removal_only_names_the_icon() {
    let data: NotifyIconData = removed_icon_data(11);
    assert_eq!(data.window, 11);
    assert_eq!(data.guid, 0x8fc84650_4bca_4125_b778_10313f9623df);
    assert_eq!(data.flags, 0x20);
    assert_eq!((data.icon, data.callback_message, data.version), (0, 0, 0));
    assert!(data.tip.iter().all(|u| *u == 0));
}

#[test]
fn request_goes_on_after_success() {
    let effects: Vec<Effect> = four().next_device("a");
    assert_eq!(first_effect(&effects), Next::Perform { index: 0 });
    assert_eq!(after_effect(&effects, 0, true), Next::Perform { index: 1 });
    assert_eq!(after_effect(&effects, 1, true), Next::Done);
    assert_eq!(first_effect(&[]), Next::Done);
}

#[test]
fn request_stops_at_a_failure_that_counts() {
    let effects: Vec<Effect> = four().next_device("a");
    assert_eq!(after_effect(&effects, 0, false), Next::Failed);
    assert_eq!(after_effect(&effects, 1, false), Next::Failed);
}

#[test]
fn request_goes_on_where_saving_failed() {
    let effects: Vec<Effect> = four().shutdown();
    assert_eq!(after_effect(&effects, 0, false), Next::Perform { index: 1 });
    let effects: Vec<Effect> = four().menu_selection(device_id_to_menu_id("b"));
    assert_eq!(after_effect(&effects, 1, false), Next::Done);
}

#[test]
fn tray_icon_at_start() {
    let data: NotifyIconData = notify_icon_data(5, 6, "x");
    assert_eq!((data.window, data.icon, data.tip[0], data.tip[1]), (5, 6, 0x78, 0));
}

#[test]
fn startup_restores_choices() {
    let states: DeviceStates =
        load_device_selectable_state(Some("{\"a\": false, \"z\": true}")).unwrap();
    let devices: Vec<AudioDevice> = vec![known("a", 1, true), known("b", 1, true)];
    let s: Startup = startup(devices, &states, "b").unwrap();
    assert_eq!(s.current, 1);
    assert_eq!(s.tooltip, "Device b");
    assert!(!s.devices[0].selectable);
    assert!(s.devices[1].selectable);
}

#[test]
fn choice_outlives_the_program() {
    let mut me: AudioSwitch = four();
    me.menu_selection(device_id_to_menu_id("c"));
    let text: String = save_device_selectable_state(&me.available_devices).unwrap();
    let states: DeviceStates = load_device_selectable_state(Some(&text)).unwrap();
    let devices: Vec<AudioDevice> =
        vec![known("c", HEADSET, true), known("e", 1, true), known("b", HEADPHONES, true)];
    let s: Startup = startup(devices, &states, "e").unwrap();
    let flags: Vec<bool> = s.devices.iter().map(|d| d.selectable).collect();
    assert_eq!(flags, vec![false, true, false]);
}

#[test]
fn startup_needs_a_known_device() {
    assert!(matches!(
        startup(vec![known("a", 1, true)], &DeviceStates::new(), "b"),
        Err(AudioSwitchError::CurrentDeviceNotFound)
    ));
}

#[test]
fn invalid_handles_are_no_icons() {
    assert_eq!(load_icon("audio_icon", 42).unwrap(), 42);
    for handle in [0, -1] {
        match load_icon("audio_icon", handle) {
            Err(AudioSwitchError::IconNotLoaded { name }) => assert_eq!(name, "audio_icon"),
            other => panic!("{:?}", other),
        }
    }
}

#[test]
fn dark_unless_light() {
    assert!(!is_dark_mode(1));
    assert!(is_dark_mode(0));
    assert!(is_dark_mode(2));
}
