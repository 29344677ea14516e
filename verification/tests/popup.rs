use audio_switch::device::{AudioDevice, EndpointFormFactor};
use audio_switch::menu::{
    checked_item, create_popup_menu, device_id_to_menu_id, device_menu_ids, popup_menu_items,
    relabelled_item, select_by_menu_ids, select_menu_item, state_query, MenuItemInfo, MenuSelection,
    MFS_CHECKED, MFS_DISABLED, MFS_UNCHECKED, MFT_SEPARATOR, MFT_STRING, MIIM_FTYPE, MIIM_ID,
    MIIM_STATE, MIIM_STRING, POPUP_CURRENT_DEVICE_ID, POPUP_EXIT_ID,
};
use audio_switch::message::LOWORD;

fn labelled(id: &str, friendly_name: &str, selectable: bool) -> AudioDevice {
    AudioDevice {
        id: id.to_string(),
        friendly_name: friendly_name.to_string(),
        selectable,
        form_factor: EndpointFormFactor(0),
    }
}

fn queried(state: u32) -> MenuItemInfo {
    MenuItemInfo {
        mask: MIIM_STATE,
        item_type: 0,
        state,
        id: 0,
        text: Vec::new(),
        cch: 0,
        item_data: 0,
    }
}

fn label(item: &MenuItemInfo) -> String {
    match item.text.split_last() {
        Some((nul, units)) => {
            assert_eq!(*nul, 0);
            String::from_utf16(units).unwrap()
        }
        None => String::new(),
    }
}

fn flags(devices: &[AudioDevice]) -> Vec<bool> {
    devices.iter().map(|d| d.selectable).collect()
}

#[test]
fn menu_id_is_the_checksum_of_the_device_id() {
    assert_eq!(device_id_to_menu_id("123456789"), 0xBB3D);
    assert_eq!(device_id_to_menu_id(""), 0);
    let utf8: u16 = crc16::State::<crc16::ARC>::calculate("Gerät 🎧".as_bytes());
    assert_eq!(device_id_to_menu_id("Gerät 🎧"), utf8 as u32);
}

fn bitwise_checksum(bytes: &[u8]) -> u16 {
    let mut crc: u16 = 0;
    for byte in bytes {
        crc ^= *byte as u16;
        for _ in 0..8 {
            crc = if crc & 1 == 1 { (crc >> 1) ^ 0xA001 } else { crc >> 1 };
        }
    }
    crc
}

#[test]
fn menu_id_follows_the_bitwise_checksum() {
    assert_eq!(device_id_to_menu_id("A"), 0x30C0);
    for c in '\u{0}'..'\u{900}' {
        let id: String = format!("{}{}{}", c, "{0.0.0.00000000}", c);
        assert_eq!(device_id_to_menu_id(&id), bitwise_checksum(id.as_bytes()) as u32);
    }
}

#[test]
fn item_query_asks_for_the_state() {
    let item: MenuItemInfo = state_query();
    assert_eq!(item.mask, MIIM_STATE);
    assert_eq!((item.item_type, item.state, item.id, item.cch, item.item_data), (0, 0, 0, 0, 0));
    assert!(item.text.is_empty());
}

#[test]
fn menu_ids_survive_a_command() {
    for id in ["", "123456789", "{0.0.0.00000000}.{8d5b9b1e}", "Gerät 🎧"] {
        let menu_id: u32 = device_id_to_menu_id(id);
        assert_eq!(LOWORD(menu_id as isize) as u32, menu_id);
    }
}

#[test]
fn menu_is_inserted_from_the_bottom_up() {
    let devices: Vec<AudioDevice> =
        vec![labelled("a", "Speakers", true), labelled("b", "Kopfhörer", false)];
    let items: Vec<MenuItemInfo> = create_popup_menu(&devices, &devices[1]);
    let labels: Vec<String> = items.iter().map(label).collect();
    assert_eq!(
        labels,
        vec!["Exit", "", "Kopfhörer", "Speakers", "", "Kopfhörer", "AudioSwitch"]
    );
    let ids: Vec<u32> = items.iter().map(|i| i.id).collect();
    assert_eq!(
        ids,
        vec![
            POPUP_EXIT_ID,
            0,
            device_id_to_menu_id("b"),
            device_id_to_menu_id("a"),
            0,
            POPUP_CURRENT_DEVICE_ID,
            0
        ]
    );
    let states: Vec<u32> = items.iter().map(|i| i.state).collect();
    assert_eq!(states, vec![0, 0, MFS_UNCHECKED, MFS_CHECKED, 0, MFS_DISABLED, MFS_DISABLED]);
    let lengths: Vec<u32> = items.iter().map(|i| i.cch).collect();
    assert_eq!(lengths, vec![4, 0, 9, 8, 0, 9, 11]);
}

#[test]
fn menu_items_say_which_fields_count() {
    let devices: Vec<AudioDevice> = vec![labelled("a", "Speakers", true)];
    let items: Vec<MenuItemInfo> = popup_menu_items(&devices, &[77], &devices[0]);
    assert_eq!(items.len(), 6);
    let masks: Vec<u32> = items.iter().map(|i| i.mask).collect();
    assert_eq!(
        masks,
        vec![
            MIIM_FTYPE | MIIM_ID | MIIM_STRING,
            MIIM_FTYPE,
            MIIM_FTYPE | MIIM_ID | MIIM_STRING | MIIM_STATE,
            MIIM_FTYPE,
            MIIM_FTYPE | MIIM_STATE | MIIM_STRING | MIIM_ID,
            MIIM_FTYPE | MIIM_STATE | MIIM_STRING,
        ]
    );
    let types: Vec<u32> = items.iter().map(|i| i.item_type).collect();
    assert_eq!(
        types,
        vec![MFT_STRING, MFT_SEPARATOR, MFT_STRING, MFT_SEPARATOR, MFT_STRING, MFT_STRING]
    );
    assert_eq!(items[2].id, 77);
}

#[test]
fn current_item_counts_characters() {
    let devices: Vec<AudioDevice> = vec![labelled("a", "🎧🎧", true)];
    let items: Vec<MenuItemInfo> = create_popup_menu(&devices, &devices[0]);
    assert_eq!(items[2].cch, 4);
    assert_eq!(items[4].cch, 2);
    assert_eq!(items[4].text.len(), 5);
}

#[test]
fn menu_without_devices() {
    let current: AudioDevice = labelled("a", "Speakers", true);
    let items: Vec<MenuItemInfo> = create_popup_menu(&[], &current);
    let labels: Vec<String> = items.iter().map(label).collect();
    assert_eq!(labels, vec!["Exit", "", "", "Speakers", "AudioSwitch"]);
}

#[test]
fn choosing_a_device_toggles_it() {
    let mut devices: Vec<AudioDevice> =
        vec![labelled("a", "A", true), labelled("b", "B", false), labelled("c", "C", true)];
    assert_eq!(
        select_by_menu_ids(&mut devices, &[10, 20, 30], 20),
        MenuSelection::Toggled { index: 1, selectable: true }
    );
    assert_eq!(flags(&devices), vec![true, true, true]);
    assert_eq!(
        select_by_menu_ids(&mut devices, &[10, 20, 30], 20),
        MenuSelection::Toggled { index: 1, selectable: false }
    );
    assert_eq!(flags(&devices), vec![true, false, true]);
}

#[test]
fn colliding_ids_toggle_the_first_device() {
    let mut devices: Vec<AudioDevice> = vec![labelled("a", "A", true), labelled("b", "B", true)];
    assert_eq!(
        select_by_menu_ids(&mut devices, &[5, 5], 5),
        MenuSelection::Toggled { index: 0, selectable: false }
    );
    assert_eq!(flags(&devices), vec![false, true]);
}

#[test]
fn exit_wins_over_a_colliding_device() {
    let mut devices: Vec<AudioDevice> = vec![labelled("a", "A", true)];
    assert_eq!(select_by_menu_ids(&mut devices, &[POPUP_EXIT_ID], 1), MenuSelection::Exit);
    assert_eq!(flags(&devices), vec![true]);
}

#[test]
fn unknown_item_changes_nothing() {
    let mut devices: Vec<AudioDevice> = vec![labelled("a", "A", true), labelled("b", "B", false)];
    assert_eq!(select_by_menu_ids(&mut devices, &[10, 20], 30), MenuSelection::Unknown);
    assert_eq!(select_menu_item(&mut devices, POPUP_CURRENT_DEVICE_ID), MenuSelection::Unknown);
    assert_eq!(flags(&devices), vec![true, false]);
}

#[test]
fn menu_ids_lead_back_to_their_devices() {
    let mut devices: Vec<AudioDevice> =
        vec![labelled("{a}", "A", true), labelled("{b}", "B", true), labelled("{c}", "C", false)];
    let ids: Vec<u32> = device_menu_ids(&devices);
    assert_eq!(ids[2], device_id_to_menu_id("{c}"));
    assert_eq!(
        select_menu_item(&mut devices, ids[2]),
        MenuSelection::Toggled { index: 2, selectable: true }
    );
    assert_eq!(flags(&devices), vec![true, true, true]);
}

#[test]
fn check_mark_follows_the_device() {
    let item: MenuItemInfo = checked_item(queried(0x1080), true);
    assert_eq!(item.state, 0x1088);
    assert_eq!(item.mask, MIIM_STATE);
    assert_eq!(checked_item(item, false).state, 0x1080);
    assert_eq!(checked_item(queried(0x8), true).state, 0x8);
    assert_eq!(checked_item(queried(0x1), false).state, 0x1);
}

#[test]
fn label_follows_the_current_device() {
    let item: MenuItemInfo = relabelled_item(queried(MFS_DISABLED), "🎧 A");
    assert_eq!(item.mask, MIIM_STRING);
    assert_eq!(item.state, MFS_DISABLED);
    assert_eq!(label(&item), "🎧 A");
    assert_eq!(item.item_data, 3);
    assert_eq!(item.cch, 0);
}
