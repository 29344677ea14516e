//! The popup menu: what stands in it, and what choosing an item does to the devices.

use crate::device::{models, AudioDevice, DeviceModel};
use crate::message::{low_word, window_action, WindowAction, WM_COMMAND};
use crate::search::{first_true, law_first_true, lemma_first_true_at, lemma_first_true_none};
use crate::utf16::{
    decode_lossy, law_decode_undoes_encode, law_units_of_plain_text, law_utf16_len,
    law_wide_null_holds_text, until_nul, utf16, wide_null,
};
use vstd::prelude::*;
use vstd::utf8::encode_utf8;

verus! {

// Technically, the id of a device could collide with these but it's unlikely.
/// The id of the item that ends the program.
pub const POPUP_EXIT_ID: u32 = 1;

/// The id of the item that shows the current device.
pub const POPUP_CURRENT_DEVICE_ID: u32 = 2;

pub const MIIM_STATE: u32 = 0x0001;

pub const MIIM_ID: u32 = 0x0002;

pub const MIIM_STRING: u32 = 0x0040;

pub const MIIM_FTYPE: u32 = 0x0100;

pub const MFT_STRING: u32 = 0x0000;

pub const MFT_SEPARATOR: u32 = 0x0800;

pub const MFS_UNCHECKED: u32 = 0x0000;

pub const MFS_DISABLED: u32 = 0x0003;

pub const MFS_CHECKED: u32 = 0x0008;

/// A menu item as the system is told of it.
#[derive(Debug)]
pub struct MenuItemInfo {
    /// Which of the other fields count.
    pub mask: u32,
    pub item_type: u32,
    pub state: u32,
    pub id: u32,
    /// The label with its terminating NUL; empty where there is none.
    pub text: Vec<u16>,
    /// The length given for the label.
    pub cch: u32,
    pub item_data: usize,
}

/// A [`MenuItemInfo`] as contracts speak of it.
#[verifier::ext_equal]
pub struct MenuItemModel {
    pub mask: u32,
    pub item_type: u32,
    pub state: u32,
    pub id: u32,
    pub text: Seq<u16>,
    pub cch: u32,
    pub item_data: usize,
}

impl View for MenuItemInfo {
    type V = MenuItemModel;

    open spec fn view(&self) -> MenuItemModel {
        MenuItemModel {
            mask: self.mask,
            item_type: self.item_type,
            state: self.state,
            id: self.id,
            text: self.text@,
            cch: self.cch,
            item_data: self.item_data,
        }
    }
}

/// What choosing a menu item came to.
#[derive(Clone, Copy, Debug, PartialEq, Eq, Structural)]
pub enum MenuSelection {
    /// The window is to be closed.
    Exit,
    /// The item belongs to no device.
    Unknown,
    /// The device at this position changed its selectable state to this one.
    Toggled { index: usize, selectable: bool },
}

/// A checksum register after so many bits were shifted out of it: a set bit that leaves takes
/// the polynomial 0x8005, lowest bit first, with it.
pub open spec fn crc16_shifted(crc: u16, bits: nat) -> u16
    decreases bits,
{
    if bits == 0 {
        crc
    } else if crc & 1 == 1 {
        crc16_shifted((crc >> 1) ^ 0xA001, (bits - 1) as nat)
    } else {
        crc16_shifted(crc >> 1, (bits - 1) as nat)
    }
}

/// The CRC-16/ARC checksum of bytes: the register starts at 0, and takes in each byte in its
/// low bits.
pub open spec fn crc16_arc(bytes: Seq<u8>) -> u16
    decreases bytes.len(),
{
    if bytes.len() == 0 {
        0
    } else {
        crc16_shifted(crc16_arc(bytes.drop_last()) ^ (bytes.last() as u16), 8)
    }
}

/// Computes a CRC-16/ARC checksum.
///
/// Outside function: `crc16::State::<crc16::ARC>::calculate`. Claimed: it is the checksum with
/// the polynomial 0x8005, the start value 0, bytes and result with their lowest bit first, and
/// no final xor, as [`crc16_arc`] states it bit by bit.
#[verifier::external_body]
fn crc16_of(bytes: &[u8]) -> (crc: u16)
    ensures
        crc == crc16_arc(bytes@),
{
    crc16::State::<crc16::ARC>::calculate(bytes)
}

/// The menu id of a device: the checksum of its id in UTF-8.
pub open spec fn menu_id(device_id: Seq<char>) -> u32 {
    crc16_arc(encode_utf8(device_id)) as u32
}

/// The menu ids of devices.
pub open spec fn menu_ids(devices: Seq<DeviceModel>) -> Seq<u32> {
    devices.map_values(|d: DeviceModel| menu_id(d.id))
}

/// The length that the system is given for a label of so many units: a 32-bit count of the
/// units with the NUL, less one.
pub open spec fn label_len(units: nat) -> int {
    (units + 1) % 0x1_0000_0000 - 1
}

/// The length of a label can be given at all: a count of units that wraps around to 0 cannot
/// be lessened by one.
pub open spec fn label_fits(text: Seq<char>) -> bool {
    label_len(utf16(text).len()) >= 0
}

pub open spec fn separator_item() -> MenuItemModel {
    MenuItemModel {
        mask: MIIM_FTYPE,
        item_type: MFT_SEPARATOR,
        state: 0,
        id: 0,
        text: Seq::empty(),
        cch: 0,
        item_data: 0,
    }
}

/// The item that ends the program.
pub open spec fn exit_item() -> MenuItemModel {
    MenuItemModel {
        mask: MIIM_FTYPE | MIIM_ID | MIIM_STRING,
        item_type: MFT_STRING,
        state: 0,
        id: POPUP_EXIT_ID,
        text: utf16("Exit"@).push(0),
        cch: label_len(utf16("Exit"@).len()) as u32,
        item_data: 0,
    }
}

/// The item of a device, checked where the device is selectable.
pub open spec fn device_item(device: DeviceModel, id: u32) -> MenuItemModel {
    MenuItemModel {
        mask: MIIM_FTYPE | MIIM_ID | MIIM_STRING | MIIM_STATE,
        item_type: MFT_STRING,
        state: if device.selectable {
            MFS_CHECKED
        } else {
            MFS_UNCHECKED
        },
        id,
        text: utf16(device.friendly_name).push(0),
        cch: label_len(utf16(device.friendly_name).len()) as u32,
        item_data: 0,
    }
}

/// The item that names the current device. Its length is given in characters.
pub open spec fn current_item(device: DeviceModel) -> MenuItemModel {
    MenuItemModel {
        mask: MIIM_FTYPE | MIIM_STATE | MIIM_STRING | MIIM_ID,
        item_type: MFT_STRING,
        state: MFS_DISABLED,
        id: POPUP_CURRENT_DEVICE_ID,
        text: utf16(device.friendly_name).push(0),
        cch: (device.friendly_name.len() % 0x1_0000_0000) as u32,
        item_data: 0,
    }
}

/// The heading of the menu.
pub open spec fn title_item() -> MenuItemModel {
    MenuItemModel {
        mask: MIIM_FTYPE | MIIM_STATE | MIIM_STRING,
        item_type: MFT_STRING,
        state: MFS_DISABLED,
        id: 0,
        text: utf16("AudioSwitch"@).push(0),
        cch: label_len(utf16("AudioSwitch"@).len()) as u32,
        item_data: 0,
    }
}

/// An item with only its state to be filled in.
pub open spec fn state_query_item() -> MenuItemModel {
    MenuItemModel {
        mask: MIIM_STATE,
        item_type: 0,
        state: 0,
        id: 0,
        text: Seq::empty(),
        cch: 0,
        item_data: 0,
    }
}

/// The menu from top to bottom.
pub open spec fn menu_layout(
    devices: Seq<DeviceModel>,
    ids: Seq<u32>,
    current: DeviceModel,
) -> Seq<MenuItemModel> {
    seq![title_item(), current_item(current), separator_item()] + Seq::new(
        devices.len(),
        |i: int| device_item(devices[i], ids[i]),
    ) + seq![separator_item(), exit_item()]
}

/// The menu that comes of inserting items one after the other, each at the top.
pub open spec fn inserted_at_top(items: Seq<MenuItemModel>) -> Seq<MenuItemModel>
    decreases items.len(),
{
    if items.len() == 0 {
        Seq::empty()
    } else {
        seq![items.last()] + inserted_at_top(items.drop_last())
    }
}

/// Which of the menu ids is the chosen one.
pub open spec fn chosen(ids: Seq<u32>, id: u32) -> Seq<bool> {
    ids.map_values(|x: u32| x == id)
}

/// What choosing the item with an id comes to, for devices with given menu ids.
pub open spec fn selection(devices: Seq<DeviceModel>, ids: Seq<u32>, id: u32) -> MenuSelection {
    if id == POPUP_EXIT_ID {
        MenuSelection::Exit
    } else {
        match first_true(chosen(ids, id)) {
            Some(i) => MenuSelection::Toggled {
                index: i as usize,
                selectable: !devices[i].selectable,
            },
            None => MenuSelection::Unknown,
        }
    }
}

/// The devices after a choice: the device that the choice toggled has its new state, and
/// everything else is as it was.
pub open spec fn after_selection(devices: Seq<DeviceModel>, selection: MenuSelection) -> Seq<
    DeviceModel,
> {
    match selection {
        MenuSelection::Toggled { index, selectable } => devices.update(
            index as int,
            devices[index as int].with_selectable(selectable),
        ),
        _ => devices,
    }
}

/// An item state with the check mark set or cleared, and everything else as it was.
pub open spec fn with_check(state: u32, checked: bool) -> u32 {
    if checked {
        state | MFS_CHECKED
    } else {
        state & !MFS_CHECKED
    }
}

/// The items as contracts speak of them.
pub open spec fn item_models(items: Seq<MenuItemInfo>) -> Seq<MenuItemModel> {
    items.map_values(|item: MenuItemInfo| item@)
}

/// Converts a device ID to a deterministic 16-bit ID for use in the popup menu.
///
/// It must only use the low 16 bits, as it comes back in the low word of a menu command.
pub fn device_id_to_menu_id(device_id: &str) -> (id: u32)
    ensures
        id == menu_id(device_id@),
        id as int == crc16_arc(encode_utf8(device_id@)) as int,
{
    crc16_of(device_id.as_bytes()) as u32
}

/// The menu ids of devices.
pub fn device_menu_ids(devices: &[AudioDevice]) -> (ids: Vec<u32>)
    ensures
        ids@ == menu_ids(models(devices@)),
        ids@.len() == devices@.len(),
        forall|i: int|
            0 <= i < devices@.len() ==> (#[trigger] ids@[i]) as int == crc16_arc(
                encode_utf8(devices@[i].id@),
            ) as int,
{
    let mut ids: Vec<u32> = Vec::new();
    let mut i: usize = 0;
    while i < devices.len()
        invariant
            i <= devices@.len(),
            ids@ == menu_ids(models(devices@)).take(i as int),
        decreases devices@.len() - i,
    {
        ids.push(device_id_to_menu_id(devices[i].id.as_str()));
        i = i + 1;
    }
    ids
}

/// The low 32 bits of a length.
fn len_as_u32(len: usize) -> (low: u32)
    ensures
        low == len as int % 0x1_0000_0000,
{
    let wide: u64 = len as u64;
    assert(wide as u32 == wide % 0x1_0000_0000) by (bit_vector);
    wide as u32
}

fn separator() -> (item: MenuItemInfo)
    ensures
        item@ == separator_item(),
{
    MenuItemInfo {
        mask: MIIM_FTYPE,
        item_type: MFT_SEPARATOR,
        state: 0,
        id: 0,
        text: Vec::new(),
        cch: 0,
        item_data: 0,
    }
}

/// An item with a label whose length is given in units.
fn labelled_item(mask: u32, state: u32, id: u32, label: &str) -> (item: MenuItemInfo)
    requires
        label_fits(label@),
    ensures
        item@ == (MenuItemModel {
            mask,
            item_type: MFT_STRING,
            state,
            id,
            text: utf16(label@).push(0),
            cch: label_len(utf16(label@).len()) as u32,
            item_data: 0,
        }),
{
    let text: Vec<u16> = wide_null(label);
    let cch: u32 = len_as_u32(text.len()) - 1;
    MenuItemInfo { mask, item_type: MFT_STRING, state, id, text, cch, item_data: 0 }
}

/// The item that names the current device.
fn current_device_item(device: &AudioDevice) -> (item: MenuItemInfo)
    ensures
        item@ == current_item(device@),
{
    MenuItemInfo {
        mask: MIIM_FTYPE | MIIM_STATE | MIIM_STRING | MIIM_ID,
        item_type: MFT_STRING,
        state: MFS_DISABLED,
        id: POPUP_CURRENT_DEVICE_ID,
        text: wide_null(device.friendly_name.as_str()),
        cch: len_as_u32(device.friendly_name.as_str().unicode_len()),
        item_data: 0,
    }
}

/// The items of the popup menu for devices with given menu ids, in the order in which they are
/// to be inserted at the top.
pub fn popup_menu_items(
    devices: &[AudioDevice],
    menu_ids: &[u32],
    current_device: &AudioDevice,
) -> (items: Vec<MenuItemInfo>)
    requires
        menu_ids@.len() == devices@.len(),
        forall|i: int|
            0 <= i < devices@.len() ==> label_fits((#[trigger] devices@[i])@.friendly_name),
    ensures
        inserted_at_top(item_models(items@)) == menu_layout(
            models(devices@),
            menu_ids@,
            current_device@,
        ),
        items@.len() == devices@.len() + 5,
        forall|k: int|
            2 <= k < devices@.len() + 2 ==> {
                let item = #[trigger] items@[k];
                let device = devices@[devices@.len() + 1 - k];
                &&& item.mask == 0x143
                &&& item.item_type == 0
                &&& item.state == (if device.selectable {
                    8u32
                } else {
                    0u32
                })
                &&& item.id == menu_ids@[devices@.len() + 1 - k]
                &&& item.text@ == utf16(device.friendly_name@).push(0)
                &&& (item.cch + 1 - item.text@.len()) % 0x1_0000_0000 == 0
                &&& item.item_data == 0
            },
        items@[0].id == 1 && items@[0].mask == 0x142 && items@[0].item_type == 0,
        items@[0].state == 0 && items@[0].item_data == 0,
        items@[0].text@ == utf16("Exit"@).push(0) && items@[0].cch == 4,
        forall|k: int|
            k == 1 || k == devices@.len() + 2 ==> {
                let item = #[trigger] items@[k];
                &&& item.mask == 0x100 && item.item_type == 0x800
                &&& item.state == 0 && item.id == 0
                &&& item.text@.len() == 0 && item.cch == 0 && item.item_data == 0
            },
        ({
            let item = items@[devices@.len() + 3int];
            &&& item.mask == 0x143 && item.item_type == 0 && item.state == 3 && item.id == 2
            &&& item.text@ == utf16(current_device.friendly_name@).push(0)
            &&& item.cch == current_device.friendly_name@.len() % 0x1_0000_0000
            &&& item.item_data == 0
        }),
        ({
            let item = items@[devices@.len() + 4int];
            &&& item.mask == 0x141 && item.item_type == 0 && item.state == 3
            &&& item.id == 0 && item.item_data == 0
            &&& item.text@ == utf16("AudioSwitch"@).push(0) && item.cch == 11
        }),
{
    let ghost all = models(devices@);
    let mut items: Vec<MenuItemInfo> = Vec::new();
    proof {
        reveal_strlit("Exit");
        reveal_strlit("AudioSwitch");
        law_utf16_len("Exit"@);
        law_utf16_len("AudioSwitch"@);
    }
    items.push(labelled_item(MIIM_FTYPE | MIIM_ID | MIIM_STRING, 0, POPUP_EXIT_ID, "Exit"));
    proof {
        lemma_pushed(Seq::empty(), items@, exit_item());
    }
    let ghost before = items@;
    items.push(separator());
    proof {
        lemma_pushed(before, items@, separator_item());
    }
    let mut i: usize = devices.len();
    while i > 0
        invariant
            i <= devices@.len(),
            all == models(devices@),
            menu_ids@.len() == devices@.len(),
            forall|i: int|
                0 <= i < devices@.len() ==> label_fits((#[trigger] devices@[i])@.friendly_name),
            inserted_at_top(item_models(items@)) == Seq::new(
                (devices@.len() - i) as nat,
                |k: int| device_item(all[i + k], menu_ids@[i + k]),
            ) + seq![separator_item(), exit_item()],
        decreases i,
    {
        let ghost before = items@;
        let device: &AudioDevice = &devices[i - 1];
        let state: u32 = if device.selectable {
            MFS_CHECKED
        } else {
            MFS_UNCHECKED
        };
        items.push(
            labelled_item(
                MIIM_FTYPE | MIIM_ID | MIIM_STRING | MIIM_STATE,
                state,
                menu_ids[i - 1],
                device.friendly_name.as_str(),
            ),
        );
        proof {
            lemma_pushed(before, items@, device_item(all[i - 1], menu_ids@[i - 1]));
        }
        i = i - 1;
    }
    let ghost before = items@;
    items.push(separator());
    proof {
        lemma_pushed(before, items@, separator_item());
    }
    let ghost before = items@;
    items.push(current_device_item(current_device));
    proof {
        lemma_pushed(before, items@, current_item(current_device@));
    }
    let ghost before = items@;
    items.push(
        labelled_item(MIIM_FTYPE | MIIM_STATE | MIIM_STRING, MFS_DISABLED, 0, "AudioSwitch"),
    );
    proof {
        lemma_pushed(before, items@, title_item());
    }
    assert(inserted_at_top(item_models(items@)) == menu_layout(all, menu_ids@, current_device@));
    proof {
        law_popup_menu_shows_devices(items@, devices@, menu_ids@, *current_device);
        law_popup_menu_frame(items@, devices@, menu_ids@, *current_device);
    }
    items
}

proof fn lemma_pushed(before: Seq<MenuItemInfo>, items: Seq<MenuItemInfo>, item: MenuItemModel)
    requires
        items.len() == before.len() + 1,
        items.drop_last() =~= before,
        items.last()@ == item,
    ensures
        inserted_at_top(item_models(items)) == seq![item] + inserted_at_top(item_models(before)),
{
    assert(item_models(items).drop_last() == item_models(before));
    assert(item_models(items).last() == item);
}

/// The items of the popup menu, in the order in which they are to be inserted at the top.
pub fn create_popup_menu(devices: &[AudioDevice], current_device: &AudioDevice) -> (items: Vec<
    MenuItemInfo,
>)
    requires
        forall|i: int|
            0 <= i < devices@.len() ==> label_fits((#[trigger] devices@[i])@.friendly_name),
    ensures
        inserted_at_top(item_models(items@)) == menu_layout(
            models(devices@),
            menu_ids(models(devices@)),
            current_device@,
        ),
        items@.len() == devices@.len() + 5,
        forall|k: int|
            2 <= k < devices@.len() + 2 ==> {
                let item = #[trigger] items@[k];
                let device = devices@[devices@.len() + 1 - k];
                &&& item.mask == 0x143
                &&& item.item_type == 0
                &&& item.state == (if device.selectable {
                    8u32
                } else {
                    0u32
                })
                &&& item.id == crc16_arc(encode_utf8(device.id@)) as u32
                &&& item.text@ == utf16(device.friendly_name@).push(0)
                &&& (item.cch + 1 - item.text@.len()) % 0x1_0000_0000 == 0
                &&& item.item_data == 0
            },
        items@[0].id == 1 && items@[0].mask == 0x142 && items@[0].item_type == 0,
        items@[0].state == 0 && items@[0].item_data == 0,
        items@[0].text@ == utf16("Exit"@).push(0) && items@[0].cch == 4,
        forall|k: int|
            k == 1 || k == devices@.len() + 2 ==> {
                let item = #[trigger] items@[k];
                &&& item.mask == 0x100 && item.item_type == 0x800
                &&& item.state == 0 && item.id == 0
                &&& item.text@.len() == 0 && item.cch == 0 && item.item_data == 0
            },
        ({
            let item = items@[devices@.len() + 3int];
            &&& item.mask == 0x143 && item.item_type == 0 && item.state == 3 && item.id == 2
            &&& item.text@ == utf16(current_device.friendly_name@).push(0)
            &&& item.cch == current_device.friendly_name@.len() % 0x1_0000_0000
            &&& item.item_data == 0
        }),
        ({
            let item = items@[devices@.len() + 4int];
            &&& item.mask == 0x141 && item.item_type == 0 && item.state == 3
            &&& item.id == 0 && item.item_data == 0
            &&& item.text@ == utf16("AudioSwitch"@).push(0) && item.cch == 11
        }),
{
    let menu_ids: Vec<u32> = device_menu_ids(devices);
    popup_menu_items(devices, menu_ids.as_slice(), current_device)
}

/// Carries out the choice of a menu item, for devices with given menu ids.
pub fn select_by_menu_ids(devices: &mut [AudioDevice], menu_ids: &[u32], id: u32) -> (selected:
    MenuSelection)
    requires
        menu_ids@.len() == old(devices)@.len(),
    ensures
        selected == selection(models(old(devices)@), menu_ids@, id),
        models(final(devices)@) == after_selection(models(old(devices)@), selected),
        selected is Exit <==> id == 1,
        selected is Unknown <==> id != 1 && forall|j: int|
            0 <= j < old(devices)@.len() ==> (#[trigger] menu_ids@[j]) != id,
        selected matches MenuSelection::Toggled { index, selectable } ==> {
            &&& index < old(devices)@.len()
            &&& menu_ids@[index as int] == id
            &&& forall|j: int| 0 <= j < index ==> (#[trigger] menu_ids@[j]) != id
            &&& selectable == !old(devices)@[index as int].selectable
        },
        final(devices)@.len() == old(devices)@.len(),
        forall|k: int|
            0 <= k < old(devices)@.len() ==> {
                let device = #[trigger] final(devices)@[k];
                &&& device.id@ == old(devices)@[k].id@
                &&& device.friendly_name@ == old(devices)@[k].friendly_name@
                &&& device.form_factor == old(devices)@[k].form_factor
                &&& device.selectable == if selected is Toggled && selected->index == k {
                    !old(devices)@[k].selectable
                } else {
                    old(devices)@[k].selectable
                }
            },
{
    if id == POPUP_EXIT_ID {
        return MenuSelection::Exit;
    }
    let ghost flags = chosen(menu_ids@, id);
    let mut i: usize = 0;
    while i < devices.len()
        invariant
            i <= devices@.len(),
            devices@ == old(devices)@,
            id != POPUP_EXIT_ID,
            menu_ids@.len() == devices@.len(),
            flags == chosen(menu_ids@, id),
            forall|j: int| 0 <= j < i ==> !flags[j],
            forall|j: int| 0 <= j < i ==> (#[trigger] menu_ids@[j]) != id,
        decreases devices@.len() - i,
    {
        if menu_ids[i] == id {
            proof {
                lemma_first_true_at(flags, i as int);
            }
            let selectable: bool = !devices[i].selectable;
            devices[i].selectable = selectable;
            let selected: MenuSelection = MenuSelection::Toggled { index: i, selectable };
            assert(models(devices@) == after_selection(models(old(devices)@), selected));
            return selected;
        }
        i = i + 1;
    }
    proof {
        lemma_first_true_none(flags);
    }
    MenuSelection::Unknown
}

/// Carries out the choice of a menu item.
pub fn select_menu_item(devices: &mut [AudioDevice], id: u32) -> (selected: MenuSelection)
    ensures
        selected == selection(models(old(devices)@), menu_ids(models(old(devices)@)), id),
        models(final(devices)@) == after_selection(models(old(devices)@), selected),
        selected is Exit <==> id == 1,
        selected is Unknown <==> id != 1 && forall|j: int|
            0 <= j < old(devices)@.len() ==> crc16_arc(
                encode_utf8((#[trigger] old(devices)@[j]).id@),
            ) as int != id,
        selected matches MenuSelection::Toggled { index, selectable } ==> {
            &&& index < old(devices)@.len()
            &&& crc16_arc(encode_utf8(old(devices)@[index as int].id@)) as int == id
            &&& forall|j: int|
                0 <= j < index ==> crc16_arc(
                    encode_utf8((#[trigger] old(devices)@[j]).id@),
                ) as int != id
            &&& selectable == !old(devices)@[index as int].selectable
        },
        final(devices)@.len() == old(devices)@.len(),
        forall|k: int|
            0 <= k < old(devices)@.len() ==> {
                let device = #[trigger] final(devices)@[k];
                &&& device.id@ == old(devices)@[k].id@
                &&& device.friendly_name@ == old(devices)@[k].friendly_name@
                &&& device.form_factor == old(devices)@[k].form_factor
                &&& device.selectable == if selected is Toggled && selected->index == k {
                    !old(devices)@[k].selectable
                } else {
                    old(devices)@[k].selectable
                }
            },
{
    let menu_ids: Vec<u32> = device_menu_ids(devices);
    assert forall|j: int| 0 <= j < devices@.len() implies menu_ids@[j] as int == crc16_arc(
        encode_utf8((#[trigger] devices@[j]).id@),
    ) as int by {}
    let selected: MenuSelection = select_by_menu_ids(devices, menu_ids.as_slice(), id);
    assert(forall|j: int|
        0 <= j < menu_ids@.len() ==> crc16_arc(
            encode_utf8(old(devices)@[j].id@),
        ) as int == (#[trigger] menu_ids@[j]) as int);
    selected
}

/// What the system is asked about an item: its state.
pub fn state_query() -> (item: MenuItemInfo)
    ensures
        item@ == state_query_item(),
        item.mask == 1 && item.state == 0 && item.item_type == 0 && item.id == 0,
        item.text@.len() == 0 && item.cch == 0 && item.item_data == 0,
{
    MenuItemInfo {
        mask: MIIM_STATE,
        item_type: 0,
        state: 0,
        id: 0,
        text: Vec::new(),
        cch: 0,
        item_data: 0,
    }
}

/// What the system is told of a device's item after the device was toggled, from what it said
/// of the item.
pub fn checked_item(queried: MenuItemInfo, selectable: bool) -> (item: MenuItemInfo)
    ensures
        item@ == (MenuItemModel {
            mask: MIIM_STATE,
            state: with_check(queried.state, selectable),
            ..queried@
        }),
        item.mask == 1,
        item.state & 8 == 8 <==> selectable,
        item.state & !8u32 == queried.state & !8u32,
        item.item_type == queried.item_type && item.id == queried.id && item.text@ == queried.text@
            && item.cch == queried.cch && item.item_data == queried.item_data,
{
    proof {
        law_check_mark(queried.state, selectable);
    }

    let mut item: MenuItemInfo = queried;
    item.mask = MIIM_STATE;
    item.state = if selectable {
        item.state | MFS_CHECKED
    } else {
        item.state & !MFS_CHECKED
    };
    item
}

/// What the system is told of the current device's item before the menu is shown, from what it
/// said of the item: the label, and its length in characters.
pub fn relabelled_item(queried: MenuItemInfo, label: &str) -> (item: MenuItemInfo)
    ensures
        item@ == (MenuItemModel {
            mask: MIIM_STRING,
            text: utf16(label@).push(0),
            item_data: label@.len() as usize,
            ..queried@
        }),
        item.item_data == label@.len(),
        item.mask == 0x40,
        item.text@ == utf16(label@).push(0),
        item.state == queried.state && item.item_type == queried.item_type && item.id == queried.id
            && item.cch == queried.cch,
{
    let mut item: MenuItemInfo = queried;
    item.mask = MIIM_STRING;
    item.text = wide_null(label);
    item.item_data = label.unicode_len();
    item
}

/// A menu id fits the low word in which a menu command brings it back: whatever else a menu
/// command carries, the id of a device's item arrives as it is.
pub proof fn law_menu_id_survives_command(device_id: Seq<char>, wparam: usize, lparam: isize)
    ensures
        low_word(menu_id(device_id) as int) == menu_id(device_id),
        low_word(wparam as int) == menu_id(device_id) ==> window_action(WM_COMMAND, wparam, lparam)
            == (WindowAction::MenuSelection { id: menu_id(device_id) }),
{
}

/// Choosing a device's item toggles that device, unless its menu id collides with that of the
/// item that ends the program or of an earlier device.
pub proof fn law_item_toggles_its_device(devices: Seq<DeviceModel>, ids: Seq<u32>, i: int)
    requires
        ids.len() == devices.len(),
        devices.len() <= usize::MAX,
        0 <= i < devices.len(),
        ids[i] != POPUP_EXIT_ID,
        forall|j: int| 0 <= j < i ==> ids[j] != ids[i],
    ensures
        after_selection(devices, selection(devices, ids, ids[i])) == devices.update(
            i,
            devices[i].with_selectable(!devices[i].selectable),
        ),
{
    lemma_first_true_at(chosen(ids, ids[i]), i);
}

/// A choice never changes which devices there are, nor their names, nor more than one of them.
pub proof fn law_selection_changes_one_state(
    devices: Seq<DeviceModel>,
    ids: Seq<u32>,
    id: u32,
    i: int,
    j: int,
)
    requires
        ids.len() == devices.len(),
        devices.len() <= usize::MAX,
        0 <= i < devices.len(),
        0 <= j < devices.len(),
        i != j,
    ensures
        ({
            let after = after_selection(devices, selection(devices, ids, id));
            &&& after.len() == devices.len()
            &&& after[i] == devices[i].with_selectable(after[i].selectable)
            &&& after[i] == devices[i] || after[j] == devices[j]
        }),
{
    law_first_true(chosen(ids, id));
}

/// Choosing the same item twice leaves the devices as they were.
pub proof fn law_choosing_twice_undoes(devices: Seq<DeviceModel>, ids: Seq<u32>, id: u32)
    requires
        ids.len() == devices.len(),
        devices.len() <= usize::MAX,
    ensures
        ({
            let once = after_selection(devices, selection(devices, ids, id));
            after_selection(once, selection(once, ids, id)) == devices
        }),
{
    law_first_true(chosen(ids, id));
    let once = after_selection(devices, selection(devices, ids, id));
    assert(after_selection(once, selection(once, ids, id)) =~= devices);
}

/// Updating an item's state sets its check mark to what it should be and touches no other bit,
/// and a second update undoes the first where the check mark was right before.
pub proof fn law_check_mark(state: u32, checked: bool)
    ensures
        with_check(state, checked) & MFS_CHECKED == MFS_CHECKED <==> checked,
        with_check(state, checked) & !MFS_CHECKED == state & !MFS_CHECKED,
        with_check(state, checked) & 8 == 8 <==> checked,
        with_check(state, checked) & !8u32 == state & !8u32,
        (state & MFS_CHECKED == MFS_CHECKED <==> checked) ==> with_check(
            with_check(state, !checked),
            checked,
        ) == state,
{
    assert(((state | 8) & 8 == 8) && (state & !8) & 8 != 8 && (state | 8) & !8 == state & !8 && (
    state & !8) & !8 == state & !8) by (bit_vector);
    assert(state & 8 == 8 ==> (state & !8) | 8 == state) by (bit_vector);
    assert(state & 8 != 8 ==> (state | 8) & !8 == state) by (bit_vector);
}

/// The item of a device is created with the check mark that an update would give it.
pub proof fn law_items_start_in_step(device: DeviceModel, id: u32)
    ensures
        device_item(device, id).state == with_check(0, device.selectable),
{
    assert(0u32 | 8 == 8 && 0u32 & !8 == 0) by (bit_vector);
}

/// From top to bottom the menu shows the title, the current device, the devices in their order
/// and the item that ends the program, with separators around the devices.
pub proof fn law_menu_order(devices: Seq<DeviceModel>, ids: Seq<u32>, current: DeviceModel)
    ensures
        ({
            let menu = menu_layout(devices, ids, current);
            let n = devices.len() as int;
            &&& menu.len() == n + 5
            &&& menu[0] == title_item()
            &&& menu[1] == current_item(current)
            &&& menu[2] == separator_item()
            &&& menu.subrange(3, 3 + n) == Seq::new(
                devices.len(),
                |i: int| device_item(devices[i], ids[i]),
            )
            &&& menu[3 + n] == separator_item()
            &&& menu[4 + n] == exit_item()
        }),
{
    let menu = menu_layout(devices, ids, current);
    assert(menu.subrange(3, 3 + devices.len() as int) =~= Seq::new(
        devices.len(),
        |i: int| device_item(devices[i], ids[i]),
    ));
}

/// Inserting items at the top leaves the last one inserted on top: the menu is the items in
/// reverse.
pub proof fn law_inserted_at_top_reverses(items: Seq<MenuItemModel>)
    ensures
        inserted_at_top(items) == items.reverse(),
    decreases items.len(),
{
    if items.len() > 0 {
        law_inserted_at_top_reverses(items.drop_last());
        assert(inserted_at_top(items) =~= items.reverse());
    }
}

/// What contracts say of an item is said of its fields.
pub proof fn law_item_view(item: MenuItemInfo)
    ensures
        item@.mask == item.mask,
        item@.item_type == item.item_type,
        item@.state == item.state,
        item@.id == item.id,
        item@.text == item.text@,
        item@.cch == item.cch,
        item@.item_data == item.item_data,
{
}

/// A menu id is the checksum of the device's id in UTF-8, and nothing else about the device
/// enters into it.
pub proof fn law_menu_ids_are_checksums(devices: Seq<DeviceModel>, i: int)
    requires
        0 <= i < devices.len(),
    ensures
        menu_ids(devices).len() == devices.len(),
        menu_ids(devices)[i] == menu_id(devices[i].id),
        menu_ids(devices)[i] as int == crc16_arc(encode_utf8(devices[i].id)) as int,
{
}

proof fn lemma_masks()
    ensures
        MIIM_FTYPE | MIIM_ID | MIIM_STRING == 0x142,
        MIIM_FTYPE | MIIM_ID | MIIM_STRING | MIIM_STATE == 0x143,
        MIIM_FTYPE | MIIM_STATE | MIIM_STRING | MIIM_ID == 0x143,
        MIIM_FTYPE | MIIM_STATE | MIIM_STRING == 0x141,
{
    assert(0x100u32 | 2u32 | 0x40u32 == 0x142u32 && 0x100u32 | 2u32 | 0x40u32 | 1u32 == 0x143u32
        && 0x100u32 | 1u32 | 0x40u32 | 2u32 == 0x143u32 && 0x100u32 | 1u32 | 0x40u32 == 0x141u32)
        by (bit_vector);
}

/// Each device has one item in the menu, in the order of the list: with the device's menu id,
/// its name as the label, and a check mark exactly where the device is selectable. The item
/// says that its type, id, label and state count.
pub proof fn law_device_items(
    devices: Seq<DeviceModel>,
    ids: Seq<u32>,
    current: DeviceModel,
    i: int,
)
    requires
        0 <= i < devices.len(),
        label_fits(devices[i].friendly_name),
    ensures
        ({
            let item = menu_layout(devices, ids, current)[3 + i];
            &&& item.id == ids[i]
            &&& item.mask & 0x143 == 0x143 && item.mask & !0x143u32 == 0
            &&& item.item_type == 0
            &&& item.state & 8 == 8 <==> devices[i].selectable
            &&& item.state & !8u32 == 0
            &&& item.text.len() > 0 && item.text.last() == 0
            &&& item.text.drop_last() == utf16(devices[i].friendly_name)
            &&& decode_lossy(item.text.drop_last()) == devices[i].friendly_name
            &&& !devices[i].friendly_name.contains('\0') ==> decode_lossy(until_nul(item.text))
                == devices[i].friendly_name
            &&& (item.cch + 1 - item.text.len()) % 0x1_0000_0000 == 0
            &&& item.item_data == 0
        }),
{
    let name = devices[i].friendly_name;
    lemma_masks();
    law_decode_undoes_encode(name);
    assert(utf16(name).push(0).drop_last() =~= utf16(name));
    if !name.contains('\0') {
        law_wide_null_holds_text(name);
    }
    assert(0x143u32 & 0x143 == 0x143 && 0x143u32 & !0x143u32 == 0 && 8u32 & 8 == 8 && 8u32 & !8u32
        == 0 && 0u32 & 8 == 0 && 0u32 & !8u32 == 0) by (bit_vector);
}

/// Choosing the item of a device toggles that device and no other, unless its menu id is that
/// of the item that ends the program or of an earlier device.
pub proof fn law_device_item_toggles_device(
    devices: Seq<DeviceModel>,
    ids: Seq<u32>,
    current: DeviceModel,
    i: int,
    k: int,
)
    requires
        ids.len() == devices.len(),
        devices.len() <= usize::MAX,
        0 <= i < devices.len(),
        0 <= k < devices.len(),
        label_fits(devices[i].friendly_name),
        ids[i] != 1,
        forall|j: int| 0 <= j < i ==> ids[j] != ids[i],
    ensures
        ({
            let id = menu_layout(devices, ids, current)[3 + i].id;
            let after = after_selection(devices, selection(devices, ids, id));
            &&& after.len() == devices.len()
            &&& after[k].selectable == if k == i {
                !devices[k].selectable
            } else {
                devices[k].selectable
            }
            &&& after[k].id == devices[k].id
            &&& after[k].friendly_name == devices[k].friendly_name
            &&& after[k].form_factor == devices[k].form_factor
        }),
{
    law_device_items(devices, ids, current, i);
    law_item_toggles_its_device(devices, ids, i);
}

/// The items handed out for insertion are one for each device, the last device first, between
/// the two below them and the three above them.
pub proof fn law_popup_menu_shows_devices(
    items: Seq<MenuItemInfo>,
    devices: Seq<AudioDevice>,
    ids: Seq<u32>,
    current: AudioDevice,
)
    requires
        ids.len() == devices.len(),
        forall|i: int|
            0 <= i < devices.len() ==> label_fits((#[trigger] devices[i])@.friendly_name),
        inserted_at_top(item_models(items)) == menu_layout(models(devices), ids, current@),
    ensures
        items.len() == devices.len() + 5,
        forall|k: int|
            2 <= k < devices.len() + 2 ==> {
                let item = #[trigger] items[k];
                let device = devices[devices.len() + 1 - k];
                &&& item.mask == 0x143
                &&& item.item_type == 0
                &&& item.state == (if device.selectable {
                    8u32
                } else {
                    0u32
                })
                &&& item.id == ids[devices.len() + 1 - k]
                &&& item.text@ == utf16(device.friendly_name@).push(0)
                &&& (item.cch + 1 - item.text@.len()) % 0x1_0000_0000 == 0
                &&& item.item_data == 0
            },
{
    let menu = menu_layout(models(devices), ids, current@);
    let n = devices.len() as int;
    law_inserted_at_top_reverses(item_models(items));
    assert(item_models(items).reverse().len() == items.len());
    assert(menu.len() == n + 5);
    lemma_masks();
    assert forall|k: int| 2 <= k < n + 2 implies (#[trigger] items[k])@ == device_item(
        devices[n + 1 - k]@,
        ids[n + 1 - k],
    ) && label_fits(devices[n + 1 - k]@.friendly_name) by {
        assert(menu[n + 4 - k] == device_item(models(devices)[n + 1 - k], ids[n + 1 - k]));
        assert(item_models(items).reverse()[n + 4 - k] == item_models(items)[k]);
    }
}

/// Around the devices stand the item that ends the program at the bottom, a separator on either
/// side, the item that names the current device, and the title at the top.
pub proof fn law_popup_menu_frame(
    items: Seq<MenuItemInfo>,
    devices: Seq<AudioDevice>,
    ids: Seq<u32>,
    current: AudioDevice,
)
    requires
        inserted_at_top(item_models(items)) == menu_layout(models(devices), ids, current@),
    ensures
        items.len() == devices.len() + 5,
        items[0].id == 1 && items[0].mask == 0x142 && items[0].item_type == 0,
        items[0].state == 0 && items[0].item_data == 0,
        items[0].text@ == utf16("Exit"@).push(0) && items[0].cch == 4,
        forall|k: int|
            k == 1 || k == devices.len() + 2 ==> {
                let item = #[trigger] items[k];
                &&& item.mask == 0x100 && item.item_type == 0x800
                &&& item.state == 0 && item.id == 0
                &&& item.text@.len() == 0 && item.cch == 0 && item.item_data == 0
            },
        ({
            let item = items[devices.len() + 3int];
            &&& item.mask == 0x143 && item.item_type == 0 && item.state == 3 && item.id == 2
            &&& item.text@ == utf16(current.friendly_name@).push(0)
            &&& item.cch == current.friendly_name@.len() % 0x1_0000_0000
            &&& item.item_data == 0
        }),
        ({
            let item = items[devices.len() + 4int];
            &&& item.mask == 0x141 && item.item_type == 0 && item.state == 3
            &&& item.id == 0 && item.item_data == 0
            &&& item.text@ == utf16("AudioSwitch"@).push(0) && item.cch == 11
        }),
{
    let menu = menu_layout(models(devices), ids, current@);
    let n = devices.len() as int;
    let all = item_models(items);
    law_inserted_at_top_reverses(all);
    assert(all.reverse().len() == items.len());
    assert(menu.len() == n + 5);
    assert(all.reverse()[n + 4] == all[0] && menu[n + 4] == exit_item());
    assert(all.reverse()[n + 3] == all[1] && menu[n + 3] == separator_item());
    assert(all.reverse()[2] == all[n + 2] && menu[2] == separator_item());
    assert(all.reverse()[1] == all[n + 3] && menu[1] == current_item(current@));
    assert(all.reverse()[0] == all[n + 4] && menu[0] == title_item());
    lemma_masks();
    reveal_strlit("Exit");
    reveal_strlit("AudioSwitch");
    law_units_of_plain_text("Exit"@);
    law_units_of_plain_text("AudioSwitch"@);
}

/// What choosing an item comes to: it is the exit exactly where its id is 1; it is unknown
/// where no device has its id; otherwise it is the first device with that id that gets the
/// opposite state, and nothing else about any device changes.
pub proof fn law_selection(devices: Seq<DeviceModel>, ids: Seq<u32>, id: u32, k: int)
    requires
        ids.len() == devices.len(),
        devices.len() <= usize::MAX,
        0 <= k < devices.len(),
    ensures
        selection(devices, ids, id) is Exit <==> id == 1,
        selection(devices, ids, id) is Unknown <==> id != 1 && forall|j: int|
            0 <= j < devices.len() ==> (#[trigger] ids[j]) != id,
        selection(devices, ids, id) matches MenuSelection::Toggled { index, selectable } ==> {
            &&& index < devices.len()
            &&& ids[index as int] == id
            &&& forall|j: int| 0 <= j < index ==> (#[trigger] ids[j]) != id
            &&& selectable == !devices[index as int].selectable
        },
        ({
            let selected = selection(devices, ids, id);
            let after = after_selection(devices, selected);
            &&& after.len() == devices.len()
            &&& after[k].id == devices[k].id
            &&& after[k].friendly_name == devices[k].friendly_name
            &&& after[k].form_factor == devices[k].form_factor
            &&& after[k].selectable == if selected is Toggled && selected->index == k {
                !devices[k].selectable
            } else {
                devices[k].selectable
            }
        }),
{
    let flags = chosen(ids, id);
    law_first_true(flags);
    assert forall|j: int| 0 <= j < ids.len() implies flags[j] == ((#[trigger] ids[j]) == id) by {}
}

/// A label fits unless its units and the NUL together are a multiple of 2 to the 32.
pub proof fn law_label_fits(text: Seq<char>)
    ensures
        label_fits(text) <==> (utf16(text).len() + 1) % 0x1_0000_0000 != 0,
        text.len() < 0x7FFF_FFFF ==> label_fits(text),
{
    law_utf16_len(text);
}

} // verus!
