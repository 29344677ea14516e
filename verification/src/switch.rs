//! The tray icon's window: its devices, its icons, and what it does on request.

use crate::device::{
    device_index, find_device, ids_unique, models, AudioDevice, DeviceModel, EndpointFormFactor,
    HEADPHONES, HEADSET, SPEAKERS,
};
use crate::effect::{effect_models, Effect, EffectModel};
use crate::error::AudioSwitchError;
use crate::menu::{
    after_selection, chosen, crc16_arc, law_selection, menu_ids, select_menu_item, selection,
    MenuSelection, POPUP_CURRENT_DEVICE_ID,
};
use crate::message::{TASKBAR_CB_ID, WM_CLOSE};
use crate::rotation::{
    law_next_is_nearest, law_step_goes_to_next, next_device, next_index, stepped,
};
use crate::search::law_first_true;
use crate::state::{
    apply_device_selectable_state, law_earlier_states_applied, restored_all, states_agree,
    states_of, DeviceStates,
};
use crate::utf16::{
    decode_lossy, law_decode_undoes_encode, law_tip_shows_text, law_wide_null_holds_text,
    string_to_tip, until_nul, utf16, wide_null, TIP_LEN,
};
use vstd::prelude::*;
use vstd::utf8::encode_utf8;

verus! {

/// Identifies the tray icon to the system from one run to the next.
pub const NOTIFY_ICON_GUID: u128 = 0x8fc84650_4bca_4125_b778_10313f9623df;

pub const NIF_MESSAGE: u32 = 0x01;

pub const NIF_ICON: u32 = 0x02;

pub const NIF_TIP: u32 = 0x04;

pub const NIF_GUID: u32 = 0x20;

pub const NIF_SHOWTIP: u32 = 0x80;

/// What of a tray icon is set. Both `NIF_TIP` and `NIF_SHOWTIP` are required to actually show
/// the tooltip.
pub const NOTIFY_FLAGS: u32 = NIF_ICON | NIF_MESSAGE | NIF_GUID | NIF_TIP | NIF_SHOWTIP;

pub const NOTIFYICON_VERSION_4: u32 = 4;

/// The role in which a device is the default one: that for games, system sounds and commands.
pub const E_CONSOLE: i32 = 0;

pub const TPM_LEFTALIGN: u32 = 0x00;

pub const TPM_RIGHTBUTTON: u32 = 0x02;

pub const TPM_BOTTOMALIGN: u32 = 0x20;

/// How the popup menu is placed and answers to the mouse.
pub const POPUP_FLAGS: u32 = TPM_LEFTALIGN | TPM_BOTTOMALIGN | TPM_RIGHTBUTTON;

/// The state behind the tray icon. Windows, icons and menus are held as the numbers of their
/// handles.
#[derive(Debug)]
pub struct AudioSwitch {
    pub window: isize,
    /// The icon for devices that are neither headphones, nor a headset, nor speakers.
    pub icon: isize,
    pub popup_menu: isize,
    pub available_devices: Vec<AudioDevice>,
    pub headphones_icon: isize,
    pub headset_icon: isize,
    pub speaker_icon: isize,
}

/// A tray icon as the system is told of it.
#[derive(Debug)]
pub struct NotifyIconData {
    pub window: isize,
    pub icon: isize,
    /// Which icon this is.
    pub guid: u128,
    pub flags: u32,
    pub callback_message: u32,
    pub tip: [u16; 128],
    pub version: u32,
}

/// The devices at the start of the program.
#[derive(Debug)]
pub struct Startup {
    pub devices: Vec<AudioDevice>,
    /// The position of the current device.
    pub current: usize,
    pub tooltip: String,
}

impl NotifyIconData {
    /// The data shows an icon of a window with a tooltip, and reports to the window.
    pub open spec fn shows(self, window: isize, icon: isize, tooltip: Seq<char>) -> bool {
        &&& self.window == window
        &&& self.icon == icon
        &&& self.guid == NOTIFY_ICON_GUID
        &&& self.flags == NOTIFY_FLAGS
        &&& self.callback_message == TASKBAR_CB_ID
        &&& self.tip@ == utf16(tooltip) + Seq::new(
            (TIP_LEN - utf16(tooltip).len()) as nat,
            |i: int| 0u16,
        )
        &&& self.version == NOTIFYICON_VERSION_4
    }

    /// The data says which icon of a window is meant, and nothing else.
    pub open spec fn only_names(self, window: isize) -> bool {
        &&& self.window == window
        &&& self.icon == 0
        &&& self.guid == NOTIFY_ICON_GUID
        &&& self.flags == NIF_GUID
        &&& self.callback_message == 0
        &&& self.tip@ == Seq::new(TIP_LEN as nat, |i: int| 0u16)
        &&& self.version == 0
    }
}

/// The current device's item gets its name before the menu appears.
pub open spec fn popup_effects(label: Seq<char>, x: i32, y: i32) -> Seq<EffectModel> {
    seq![
        EffectModel::RelabelItem { id: POPUP_CURRENT_DEVICE_ID, label },
        EffectModel::SetForeground,
        EffectModel::TrackPopup { x, y, flags: POPUP_FLAGS },
    ]
}

/// A device's item shows its new state before the states are saved.
pub open spec fn selection_effects(selected: MenuSelection, id: u32) -> Seq<EffectModel> {
    match selected {
        MenuSelection::Exit => seq![
            EffectModel::PostMessage { message: WM_CLOSE, wparam: 0, lparam: 0 },
        ],
        MenuSelection::Unknown => Seq::empty(),
        MenuSelection::Toggled { index, selectable } => seq![
            EffectModel::CheckItem { id, selectable },
            EffectModel::SaveStates,
        ],
    }
}

/// The tray shows a device once it is the default one.
pub open spec fn switch_effects(device_id: Seq<char>, device: int) -> Seq<EffectModel> {
    seq![
        EffectModel::SetDefaultEndpoint { device_id: utf16(device_id).push(0), role: E_CONSOLE },
        EffectModel::ModifyIcon { device },
    ]
}

/// What the system is asked to do about the choice of the menu item with an id.
pub fn effects_of_selection(selected: MenuSelection, id: u32) -> (effects: Vec<Effect>)
    ensures
        effect_models(effects@) == selection_effects(selected, id),
        selected is Exit ==> effects@.len() == 1 && effects@[0] is PostMessage
            && effects@[0]->message == 0x10 && effects@[0]->wparam == 0 && effects@[0]->lparam == 0,
        selected is Unknown ==> effects@.len() == 0,
        selected is Toggled ==> effects@.len() == 2 && effects@[0] is CheckItem
            && effects@[0]->CheckItem_id == id && effects@[0]->selectable == selected->selectable
            && effects@[1] is SaveStates,
{
    let effects: Vec<Effect> = match selected {
        MenuSelection::Exit => vec![
            Effect::PostMessage { message: WM_CLOSE, wparam: 0, lparam: 0 },
        ],
        MenuSelection::Unknown => Vec::new(),
        MenuSelection::Toggled { index: _, selectable } => vec![
            Effect::CheckItem { id, selectable },
            Effect::SaveStates,
        ],
    };
    assert(effect_models(effects@) =~= selection_effects(selected, id));
    effects
}

/// The devices with the user's choices of an earlier run, and which of them is current.
pub fn startup(
    devices: Vec<AudioDevice>,
    saved_states: &DeviceStates,
    current_device_id: &str,
) -> (r: Result<Startup, AudioSwitchError>)
    ensures
        ({
            let restored = restored_all(models(devices@), saved_states@);
            match device_index(restored, current_device_id@) {
                Some(i) => {
                    &&& r is Ok
                    &&& models(r->Ok_0.devices@) == restored
                    &&& r->Ok_0.current == i
                    &&& r->Ok_0.tooltip@ == restored[i].friendly_name
                },
                None => r == Err::<Startup, _>(AudioSwitchError::CurrentDeviceNotFound),
            }
        }),
        match r {
            Ok(started) => {
                &&& started.devices@.len() == devices@.len()
                &&& started.current < devices@.len()
                &&& devices@[started.current as int].id@ == current_device_id@
                &&& forall|j: int|
                    0 <= j < started.current ==> (#[trigger] devices@[j]).id@
                        != current_device_id@
                &&& started.tooltip@ == devices@[started.current as int].friendly_name@
                &&& forall|i: int|
                    0 <= i < devices@.len() ==> {
                        let device = #[trigger] started.devices@[i];
                        &&& device.id@ == devices@[i].id@
                        &&& device.friendly_name@ == devices@[i].friendly_name@
                        &&& device.form_factor == devices@[i].form_factor
                        &&& device.selectable == if saved_states@.contains_key(devices@[i].id@) {
                            saved_states@[devices@[i].id@]
                        } else {
                            devices@[i].selectable
                        }
                    }
            },
            Err(e) => e is CurrentDeviceNotFound && forall|j: int|
                0 <= j < devices@.len() ==> (#[trigger] devices@[j]).id@ != current_device_id@,
        },
{
    let ghost given = devices@;
    let mut devices: Vec<AudioDevice> = devices;
    apply_device_selectable_state(devices.as_mut_slice(), saved_states);
    assert forall|j: int| 0 <= j < given.len() implies (#[trigger] given[j]).id@
        == devices@[j].id@ by {}
    match find_device(devices.as_slice(), current_device_id) {
        Some(current) => {
            let tooltip: String = devices[current].friendly_name.clone();
            Ok(Startup { devices, current, tooltip })
        },
        None => Err(AudioSwitchError::CurrentDeviceNotFound),
    }
}

/// Whether the system shows applications in dark colours, from its setting for light ones.
pub fn is_dark_mode(apps_use_light_theme: u32) -> (dark: bool)
    ensures
        dark <==> apps_use_light_theme != 1,
{
    let light_theme: bool = apps_use_light_theme == 1;
    !light_theme
}

/// Checks the handle that the system gave for an icon: 0 and -1 stand for no icon.
pub fn load_icon(icon_name: &str, handle: isize) -> (r: Result<isize, AudioSwitchError>)
    ensures
        match r {
            Ok(icon) => handle != 0 && handle != -1 && icon == handle,
            Err(e) => (handle == 0 || handle == -1) && e is IconNotLoaded && e->name@
                == icon_name@,
        },
{
    if handle == -1 || handle == 0 {
        return Err(AudioSwitchError::IconNotLoaded { name: icon_name.to_owned() });
    }
    Ok(handle)
}

/// A tray icon of a window, with a tooltip.
pub fn notify_icon_data(window: isize, icon: isize, tooltip: &str) -> (data: NotifyIconData)
    requires
        utf16(tooltip@).len() < TIP_LEN,
    ensures
        data.shows(window, icon, tooltip@),
        data.window == window && data.icon == icon,
        data.guid == 0x8fc84650_4bca_4125_b778_10313f9623df,
        data.flags == 0xA7 && data.callback_message == 0x8042 && data.version == 4,
        data.tip@.len() == 128,
        forall|i: int|
            0 <= i < 128 ==> (#[trigger] data.tip@[i]) == if i < utf16(tooltip@).len() {
                utf16(tooltip@)[i]
            } else {
                0u16
            },
{
    proof {
        lemma_flags();
    }
    NotifyIconData {
        window,
        icon,
        guid: NOTIFY_ICON_GUID,
        flags: NOTIFY_FLAGS,
        callback_message: TASKBAR_CB_ID,
        tip: string_to_tip(tooltip),
        version: NOTIFYICON_VERSION_4,
    }
}

/// The tray icon of a window, for its removal.
pub fn removed_icon_data(window: isize) -> (data: NotifyIconData)
    ensures
        data.only_names(window),
        data.window == window && data.icon == 0,
        data.guid == 0x8fc84650_4bca_4125_b778_10313f9623df,
        data.flags == 0x20 && data.callback_message == 0 && data.version == 0,
        data.tip@.len() == 128,
        forall|i: int| 0 <= i < 128 ==> (#[trigger] data.tip@[i]) == 0,
{
    let tip: [u16; 128] = [0u16; 128];
    assert(tip@ =~= Seq::new(TIP_LEN as nat, |i: int| 0u16));
    NotifyIconData {
        window,
        icon: 0,
        guid: NOTIFY_ICON_GUID,
        flags: NIF_GUID,
        callback_message: 0,
        tip,
        version: 0,
    }
}

impl AudioSwitch {
    /// The icon for a kind of device.
    pub open spec fn icon_for(self, form_factor: EndpointFormFactor) -> isize {
        if form_factor.0 == HEADPHONES {
            self.headphones_icon
        } else if form_factor.0 == HEADSET {
            self.headset_icon
        } else if form_factor.0 == SPEAKERS {
            self.speaker_icon
        } else {
            self.icon
        }
    }

    /// The devices as contracts speak of them.
    pub open spec fn devices(self) -> Seq<DeviceModel> {
        models(self.available_devices@)
    }

    /// The icon for a kind of device.
    pub fn icon_for_form_factor(&self, form_factor: EndpointFormFactor) -> (icon: isize)
        ensures
            icon == self.icon_for(form_factor),
            form_factor.0 == 3 ==> icon == self.headphones_icon,
            form_factor.0 == 5 ==> icon == self.headset_icon,
            form_factor.0 == 1 ==> icon == self.speaker_icon,
            form_factor.0 != 3 && form_factor.0 != 5 && form_factor.0 != 1 ==> icon == self.icon,
    {
        match form_factor.0 {
            HEADPHONES => self.headphones_icon,
            HEADSET => self.headset_icon,
            SPEAKERS => self.speaker_icon,
            _ => self.icon,  // Default icon for other form factors
        }
    }

    /// The icon of the current device.
    pub fn current_icon(&self, current_device_id: &str) -> (r: Result<isize, AudioSwitchError>)
        ensures
            match device_index(self.devices(), current_device_id@) {
                Some(i) => r == Ok::<isize, AudioSwitchError>(
                    self.icon_for(self.devices()[i].form_factor),
                ),
                None => r == Err::<isize, _>(AudioSwitchError::CurrentDeviceNotFound),
            },
            r is Err <==> forall|j: int|
                0 <= j < self.available_devices@.len() ==> (
                #[trigger] self.available_devices@[j]).id@ != current_device_id@,
            r is Err ==> r->Err_0 is CurrentDeviceNotFound,
            forall|i: int|
                0 <= i < self.available_devices@.len() && (
                #[trigger] self.available_devices@[i]).id@ == current_device_id@ && (forall|j: int|
                    0 <= j < i ==> (#[trigger] self.available_devices@[j]).id@
                        != current_device_id@) ==> r is Ok && {
                    let kind = self.available_devices@[i].form_factor.0;
                    &&& kind == 3 ==> r->Ok_0 == self.headphones_icon
                    &&& kind == 5 ==> r->Ok_0 == self.headset_icon
                    &&& kind == 1 ==> r->Ok_0 == self.speaker_icon
                    &&& kind != 3 && kind != 5 && kind != 1 ==> r->Ok_0 == self.icon
                },
    {
        match find_device(self.available_devices.as_slice(), current_device_id) {
            Some(i) => Ok(self.icon_for_form_factor(self.available_devices[i].form_factor)),
            None => Err(AudioSwitchError::CurrentDeviceNotFound),
        }
    }

    /// Shows the popup menu at a point, with the name of the current device in it.
    pub fn show_popup_menu(&self, current_device_id: &str, x: i32, y: i32) -> (r: Result<
        Vec<Effect>,
        AudioSwitchError,
    >)
        ensures
            match device_index(self.devices(), current_device_id@) {
                Some(i) => r is Ok && effect_models(r->Ok_0@) == popup_effects(
                    self.devices()[i].friendly_name,
                    x,
                    y,
                ),
                None => r == Err::<Vec<Effect>, _>(AudioSwitchError::CurrentDeviceNotFound),
            },
            r is Err <==> forall|j: int|
                0 <= j < self.available_devices@.len() ==> (
                #[trigger] self.available_devices@[j]).id@ != current_device_id@,
            r is Err ==> r->Err_0 is CurrentDeviceNotFound,
            r matches Ok(effects) ==> {
                &&& effects@.len() == 3
                &&& effects@[0] is RelabelItem && effects@[0]->RelabelItem_id == 2
                &&& effects@[1] is SetForeground
                &&& effects@[2] is TrackPopup && effects@[2]->x == x && effects@[2]->y == y
                    && effects@[2]->flags == 0x22
            },
            forall|i: int|
                0 <= i < self.available_devices@.len() && (
                #[trigger] self.available_devices@[i]).id@ == current_device_id@ && (forall|j: int|
                    0 <= j < i ==> (#[trigger] self.available_devices@[j]).id@
                        != current_device_id@) ==> r is Ok && r->Ok_0@[0]->label@
                    == self.available_devices@[i].friendly_name@,
    {
        proof {
            lemma_flags();
        }
        match find_device(self.available_devices.as_slice(), current_device_id) {
            Some(i) => {
                let label: String = self.available_devices[i].friendly_name.clone();
                let effects: Vec<Effect> = vec![
                    Effect::RelabelItem { id: POPUP_CURRENT_DEVICE_ID, label },
                    Effect::SetForeground,
                    Effect::TrackPopup { x, y, flags: POPUP_FLAGS },
                ];
                assert(effect_models(effects@) =~= popup_effects(
                    self.devices()[i as int].friendly_name,
                    x,
                    y,
                ));
                Ok(effects)
            },
            None => Err(AudioSwitchError::CurrentDeviceNotFound),
        }
    }

    /// Carries out the choice of a menu item: a device is toggled at once, whatever becomes of
    /// the effects.
    pub fn menu_selection(&mut self, id: u32) -> (effects: Vec<Effect>)
        ensures
            ({
                let selected = selection(old(self).devices(), menu_ids(old(self).devices()), id);
                &&& final(self).devices() == after_selection(old(self).devices(), selected)
                &&& effect_models(effects@) == selection_effects(selected, id)
            }),
            *final(self) == (AudioSwitch {
                available_devices: final(self).available_devices,
                ..*old(self)
            }),
            id == 1 ==> effects@.len() == 1 && effects@[0] is PostMessage && effects@[0]->message
                == 0x10 && effects@[0]->wparam == 0 && effects@[0]->lparam == 0,
            id != 1 && (forall|j: int|
                0 <= j < old(self).available_devices@.len() ==> crc16_arc(
                    encode_utf8((#[trigger] old(self).available_devices@[j]).id@),
                ) as int != id) ==> effects@.len() == 0,
            id != 1 && (exists|j: int|
                0 <= j < old(self).available_devices@.len() && crc16_arc(
                    encode_utf8((#[trigger] old(self).available_devices@[j]).id@),
                ) as int == id) ==> effects@.len() == 2 && effects@[0] is CheckItem
                && effects@[0]->CheckItem_id == id && effects@[1] is SaveStates,
            final(self).available_devices@.len() == old(self).available_devices@.len(),
            forall|k: int|
                0 <= k < old(self).available_devices@.len() ==> {
                    let before = old(self).available_devices@[k];
                    let after = #[trigger] final(self).available_devices@[k];
                    &&& after.id@ == before.id@
                    &&& after.friendly_name@ == before.friendly_name@
                    &&& after.form_factor == before.form_factor
                    &&& after.selectable != before.selectable <==> id != 1 && crc16_arc(
                        encode_utf8(before.id@),
                    ) as int == id && forall|j: int|
                        0 <= j < k ==> crc16_arc(
                            encode_utf8((#[trigger] old(self).available_devices@[j]).id@),
                        ) as int != id
                    &&& after.selectable != before.selectable ==> effects@[0] is CheckItem
                        && effects@[0]->selectable == after.selectable
                },
    {
        let selected: MenuSelection = select_menu_item(self.available_devices.as_mut_slice(), id);
        effects_of_selection(selected, id)
    }

    /// Switches to the next device of the rotation: nothing is asked of the system where no
    /// device is selectable.
    pub fn next_device(&self, current_device: &str) -> (effects: Vec<Effect>)
        ensures
            effect_models(effects@) == match next_index(self.devices(), current_device@) {
                Some(i) => switch_effects(self.devices()[i].id, i),
                None => Seq::empty(),
            },
            (exists|j: int|
                0 <= j < self.available_devices@.len() && (
                #[trigger] self.available_devices@[j]).selectable) ==> {
                &&& effects@.len() == 2
                &&& effects@[0] is SetDefaultEndpoint && effects@[0]->role == 0
                &&& effects@[1] is ModifyIcon
                &&& effects@[1]->device < self.available_devices@.len()
                &&& self.available_devices@[effects@[1]->device as int].selectable
                &&& effects@[0]->device_id@ == utf16(
                    self.available_devices@[effects@[1]->device as int].id@,
                ).push(0)
            },
            (forall|j: int|
                0 <= j < self.available_devices@.len() ==> !(
                #[trigger] self.available_devices@[j]).selectable) ==> effects@.len() == 0,
    {
        match next_device(self.available_devices.as_slice(), current_device) {
            Some(i) => {
                let device_id: Vec<u16> = wide_null(self.available_devices[i].id.as_str());
                let effects: Vec<Effect> = vec![
                    Effect::SetDefaultEndpoint { device_id, role: E_CONSOLE },
                    Effect::ModifyIcon { device: i },
                ];
                assert(effect_models(effects@) =~= switch_effects(
                    self.devices()[i as int].id,
                    i as int,
                ));
                effects
            },
            None => {
                let effects: Vec<Effect> = Vec::new();
                assert(effect_models(effects@) =~= Seq::empty());
                effects
            },
        }
    }

    /// Saves the states of the devices and ends the message loop.
    pub fn shutdown(&self) -> (effects: Vec<Effect>)
        ensures
            effect_models(effects@) == seq![
                EffectModel::SaveStates,
                EffectModel::PostQuit { exit_code: 0 },
            ],
            effects@.len() == 2,
            effects@[0] is SaveStates,
            effects@[1] is PostQuit && effects@[1]->exit_code == 0,
    {
        let effects: Vec<Effect> = vec![Effect::SaveStates, Effect::PostQuit { exit_code: 0 }];
        assert(effect_models(effects@) =~= seq![
            EffectModel::SaveStates,
            EffectModel::PostQuit { exit_code: 0 },
        ]);
        effects
    }

    /// The tray icon after a switch to a device: the icon for its kind, with its name as the
    /// tooltip.
    pub fn switched_icon_data(&self, device: usize) -> (data: NotifyIconData)
        requires
            device < self.available_devices@.len(),
            utf16(self.devices()[device as int].friendly_name).len() < TIP_LEN,
        ensures
            data.shows(
                self.window,
                self.icon_for(self.devices()[device as int].form_factor),
                self.devices()[device as int].friendly_name,
            ),
            data.icon == ({
                let kind = self.available_devices@[device as int].form_factor.0;
                if kind == 3 {
                    self.headphones_icon
                } else if kind == 5 {
                    self.headset_icon
                } else if kind == 1 {
                    self.speaker_icon
                } else {
                    self.icon
                }
            }),
            data.window == self.window,
            data.guid == 0x8fc84650_4bca_4125_b778_10313f9623df,
            data.flags == 0xA7 && data.callback_message == 0x8042 && data.version == 4,
            data.tip@.len() == 128,
            forall|i: int|
                0 <= i < 128 ==> {
                    let units = utf16(self.available_devices@[device as int].friendly_name@);
                    (#[trigger] data.tip@[i]) == if i < units.len() {
                        units[i]
                    } else {
                        0u16
                    }
                },
    {
        let cand: &AudioDevice = &self.available_devices[device];
        notify_icon_data(
            self.window,
            self.icon_for_form_factor(cand.form_factor),
            cand.friendly_name.as_str(),
        )
    }
}

proof fn lemma_flags()
    ensures
        NOTIFY_FLAGS == 0xA7,
        POPUP_FLAGS == 0x22,
{
    assert(0x02u32 | 0x01u32 | 0x20u32 | 0x04u32 | 0x80u32 == 0xA7u32 && 0x00u32 | 0x20u32 | 0x02u32
        == 0x22u32) by (bit_vector);
}

/// The id of the default device once effects were carried out, from what it was before: the
/// system reads the id up to its NUL.
pub open spec fn default_after(effects: Seq<EffectModel>, current: Seq<char>) -> Seq<char>
    decreases effects.len(),
{
    if effects.len() == 0 {
        current
    } else {
        match effects.last() {
            EffectModel::SetDefaultEndpoint { device_id, role } if role == 0 => decode_lossy(
                until_nul(device_id),
            ),
            _ => default_after(effects.drop_last(), current),
        }
    }
}

/// The position of the device that the tray shows once effects were carried out, from what it
/// was before.
pub open spec fn shown_after(effects: Seq<EffectModel>, shown: int) -> int
    decreases effects.len(),
{
    if effects.len() == 0 {
        shown
    } else {
        match effects.last() {
            EffectModel::ModifyIcon { device } => device,
            _ => shown_after(effects.drop_last(), shown),
        }
    }
}

/// Whether the menu item with an id has a check mark once effects were carried out, from
/// whether it had one before.
pub open spec fn checked_after(effects: Seq<EffectModel>, id: u32, checked: bool) -> bool
    decreases effects.len(),
{
    if effects.len() == 0 {
        checked
    } else {
        match effects.last() {
            EffectModel::CheckItem { id: item, selectable } if item == id => selectable,
            _ => checked_after(effects.drop_last(), id, checked),
        }
    }
}

/// A switch to a device, whichever and wherever it is, makes it the default one in role 0, and
/// then shows it in the tray; nothing else is asked.
pub proof fn law_switch_effects(device_id: Seq<char>, device: int)
    ensures
        ({
            let effects = switch_effects(device_id, device);
            &&& effects.len() == 2
            &&& effects[0] is SetDefaultEndpoint
            &&& effects[0]->role == 0
            &&& effects[0]->device_id.len() > 0 && effects[0]->device_id.last() == 0
            &&& decode_lossy(effects[0]->device_id.drop_last()) == device_id
            &&& !device_id.contains('\0') ==> decode_lossy(until_nul(effects[0]->device_id))
                == device_id
            &&& effects[1] is ModifyIcon
            &&& effects[1]->device == device
        }),
{
    law_decode_undoes_encode(device_id);
    assert(utf16(device_id).push(0).drop_last() =~= utf16(device_id));
    if !device_id.contains('\0') {
        law_wide_null_holds_text(device_id);
    }
}

/// Whenever some device is selectable, carrying out what [`AudioSwitch::next_device`] returns
/// makes one step of the rotation: the device that it leads to is then the default one, and the
/// tray shows it. Where no device is selectable, everything stays.
pub proof fn law_next_device_makes_one_step(
    audio: AudioSwitch,
    effects: Seq<Effect>,
    current: Seq<char>,
    shown: int,
)
    requires
        forall|i: int|
            0 <= i < audio.available_devices@.len() ==> !(
            #[trigger] audio.available_devices@[i]).id@.contains('\0'),
        effect_models(effects) == (match next_index(audio.devices(), current) {
            Some(i) => switch_effects(audio.devices()[i].id, i),
            None => Seq::empty(),
        }),
    ensures
        default_after(effect_models(effects), current) == stepped(audio.devices(), current, 1),
        (exists|j: int|
            0 <= j < audio.available_devices@.len() && (
            #[trigger] audio.available_devices@[j]).selectable) ==> {
            let n = shown_after(effect_models(effects), shown);
            &&& effects.len() == 2
            &&& effects[0] is SetDefaultEndpoint && effects[0]->role == 0
            &&& effects[1] is ModifyIcon && effects[1]->device == n
            &&& 0 <= n < audio.available_devices@.len()
            &&& audio.available_devices@[n].selectable
            &&& decode_lossy(until_nul(effects[0]->device_id@)) == audio.available_devices@[n].id@
            &&& stepped(audio.devices(), current, 1) == audio.available_devices@[n].id@
        },
        (forall|j: int|
            0 <= j < audio.available_devices@.len() ==> !(
            #[trigger] audio.available_devices@[j]).selectable) ==> effects.len() == 0
            && shown_after(effect_models(effects), shown) == shown,
{
    let devices = audio.devices();
    let all = effect_models(effects);
    law_next_is_nearest(devices, current);
    law_step_goes_to_next(devices, current, 0);
    assert forall|j: int| 0 <= j < devices.len() implies (
    #[trigger] audio.available_devices@[j]).selectable == devices[j].selectable by {}
    assert(all.len() == effects.len());
    match next_index(devices, current) {
        Some(n) => {
            law_switch_effects(devices[n].id, n);
            assert(!audio.available_devices@[n].id@.contains('\0'));
            assert(all[0] == effects[0]@ && all[1] == effects[1]@);
            assert(all.last() == all[1]);
            assert(all.drop_last().last() == all[0]);
            reveal_with_fuel(default_after, 3);
            reveal_with_fuel(shown_after, 3);
        },
        None => {},
    }
}

/// Whatever the label and the point, the popup menu's item with id 2 gets the label, the window
/// comes to the front, and at last the menu appears at the point.
pub proof fn law_popup_effects(label: Seq<char>, x: i32, y: i32)
    ensures
        ({
            let effects = popup_effects(label, x, y);
            &&& effects.len() == 3
            &&& effects[0] is RelabelItem && effects[0]->RelabelItem_id == 2 && effects[0]->label
                == label
            &&& effects[1] is SetForeground
            &&& effects[2] is TrackPopup && effects[2]->x == x && effects[2]->y == y
                && effects[2]->flags == 0x22
        }),
{
    lemma_flags();
}

/// Where a menu item is chosen whose id is 1, the window is asked to close. Where the choice
/// changes a device, in whichever direction, the item shows the device's state and the states
/// are saved. Otherwise nothing is asked.
pub proof fn law_selection_effects(devices: Seq<DeviceModel>, ids: Seq<u32>, id: u32, k: int)
    requires
        ids.len() == devices.len(),
        devices.len() <= usize::MAX,
        0 <= k < devices.len(),
    ensures
        ({
            let selected = selection(devices, ids, id);
            let after = after_selection(devices, selected);
            let effects = selection_effects(selected, id);
            &&& id == 1 ==> effects.len() == 1 && effects[0] is PostMessage && effects[0]->message
                == 0x10 && effects[0]->wparam == 0 && effects[0]->lparam == 0
            &&& id != 1 && (exists|j: int| 0 <= j < devices.len() && (#[trigger] ids[j]) == id)
                ==> effects.len() == 2 && effects[0] is CheckItem && effects[0]->CheckItem_id == id
                && effects[1] is SaveStates
            &&& id != 1 && (forall|j: int| 0 <= j < devices.len() ==> (#[trigger] ids[j]) != id)
                ==> effects.len() == 0
            &&& after[k].selectable != devices[k].selectable ==> effects.len() == 2
                && effects[0] is CheckItem && effects[0]->CheckItem_id == ids[k]
                && effects[0]->selectable == after[k].selectable && effects[1] is SaveStates
        }),
{
    law_selection(devices, ids, id, k);
}

/// Check marks follow the states: where the menu items of all devices show their states and no
/// two devices share an item, they do so again once the effects of a choice were carried out.
pub proof fn law_check_marks_follow_states(
    devices: Seq<DeviceModel>,
    ids: Seq<u32>,
    id: u32,
    checked: bool,
    k: int,
)
    requires
        ids.len() == devices.len(),
        devices.len() <= usize::MAX,
        0 <= k < devices.len(),
        ids[k] != 1,
        forall|j: int| 0 <= j < devices.len() && j != k ==> (#[trigger] ids[j]) != ids[k],
        checked == devices[k].selectable,
    ensures
        ({
            let selected = selection(devices, ids, id);
            checked_after(selection_effects(selected, id), ids[k], checked) == after_selection(
                devices,
                selected,
            )[k].selectable
        }),
        checked_after(selection_effects(selection(devices, ids, id), id), ids[k], checked) == if id
            == ids[k] {
            !checked
        } else {
            checked
        },
{
    let selected = selection(devices, ids, id);
    let effects = selection_effects(selected, id);
    law_selection(devices, ids, id, k);
    reveal_with_fuel(checked_after, 3);
    if effects.len() == 2 {
        assert(effects.last() == effects[1]);
        assert(effects.drop_last().last() == effects[0]);
    } else if effects.len() == 1 {
        assert(effects.last() == effects[0]);
    }
}

/// Each kind of device has its icon: 3 that of headphones, 5 that of a headset, 1 that of
/// speakers, and every other number the default one.
pub proof fn law_icon_for(audio: AudioSwitch, form_factor: EndpointFormFactor)
    ensures
        form_factor.0 == 3 ==> audio.icon_for(form_factor) == audio.headphones_icon,
        form_factor.0 == 5 ==> audio.icon_for(form_factor) == audio.headset_icon,
        form_factor.0 == 1 ==> audio.icon_for(form_factor) == audio.speaker_icon,
        form_factor.0 != 3 && form_factor.0 != 5 && form_factor.0 != 1 ==> audio.icon_for(
            form_factor,
        ) == audio.icon,
{
}

/// The data of a tray icon carries the window, the icon and the program's id for it, and its
/// tooltip is the text, read up to the first NUL.
pub proof fn law_icon_data(data: NotifyIconData, window: isize, icon: isize, tooltip: Seq<char>)
    requires
        utf16(tooltip).len() < 128,
        data.shows(window, icon, tooltip),
    ensures
        data.window == window && data.icon == icon,
        data.guid == 0x8fc84650_4bca_4125_b778_10313f9623df,
        data.flags == 0xA7 && data.callback_message == 0x8042 && data.version == 4,
        data.tip@.len() == 128,
        forall|i: int| 0 <= i < utf16(tooltip).len() ==> data.tip@[i] == utf16(tooltip)[i],
        forall|i: int| utf16(tooltip).len() <= i < 128 ==> data.tip@[i] == 0,
        !tooltip.contains('\0') ==> decode_lossy(until_nul(data.tip@)) == tooltip,
{
    lemma_flags();
    if !tooltip.contains('\0') {
        law_tip_shows_text(tooltip, data.tip@);
    }
}

/// The data for the removal of a tray icon carries the window and the program's id for the
/// icon, and says that nothing else counts.
pub proof fn law_removed_icon_data(data: NotifyIconData, window: isize)
    requires
        data.only_names(window),
    ensures
        data.window == window && data.icon == 0,
        data.guid == 0x8fc84650_4bca_4125_b778_10313f9623df,
        data.flags == 0x20 && data.callback_message == 0 && data.version == 0,
        data.tip@.len() == 128,
        forall|i: int| 0 <= i < 128 ==> data.tip@[i] == 0,
{
}

/// The user's choice outlives the program: a device that is there again at the next start,
/// after the states were saved and loaded, has the state that the choice of a menu item left
/// it with.
pub proof fn law_choice_outlives_program(
    devices: Seq<DeviceModel>,
    ids: Seq<u32>,
    id: u32,
    later: Seq<DeviceModel>,
    i: int,
    j: int,
)
    requires
        ids_unique(devices),
        ids.len() == devices.len(),
        devices.len() <= usize::MAX,
        0 <= i < devices.len(),
        0 <= j < later.len(),
        later[j].id == devices[i].id,
    ensures
        ({
            let chosen = after_selection(devices, selection(devices, ids, id));
            restored_all(later, states_of(chosen))[j] == later[j].with_selectable(
                chosen[i].selectable,
            )
        }),
{
    let after = after_selection(devices, selection(devices, ids, id));
    law_first_true(chosen(ids, id));
    assert forall|k: int| 0 <= k < devices.len() implies (#[trigger] after[k]).id
        == devices[k].id by {}
    assert(states_agree(after)) by {
        assert forall|k: int, l: int|
            0 <= k < after.len() && 0 <= l < after.len() && (#[trigger] after[k]).id == (
            #[trigger] after[l]).id implies after[k].selectable == after[l].selectable by {
            assert(devices[k].id == devices[l].id);
        }
    }
    law_earlier_states_applied(after, later, j);
    assert(after[i].id == later[j].id);
}

} // verus!
