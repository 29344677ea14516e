//! Audio output devices: what the system says of them, and how one is found again by its id.

use crate::error::AudioSwitchError;
use crate::search::{first_true, law_first_true, lemma_first_true_at, lemma_first_true_none};
use crate::utf16::{decode_lossy, from_utf16_lossy};
use vstd::prelude::*;

verus! {

/// Type tag of a property that holds a NUL-terminated wide string.
pub const VT_LPWSTR: u16 = 31;

/// Type tag of a property that holds an unsigned 32-bit integer.
pub const VT_UI4: u16 = 19;

pub const SPEAKERS: i32 = 1;

pub const HEADPHONES: i32 = 3;

pub const HEADSET: i32 = 5;

/// The kind of a device, by the system's number for it.
#[derive(Clone, Copy, Debug, PartialEq, Eq, Structural)]
pub struct EndpointFormFactor(pub i32);

/// One audio output device.
#[derive(Debug)]
pub struct AudioDevice {
    pub id: String,
    pub friendly_name: String,
    /// Whether this device is part of the rotation.
    pub selectable: bool,
    pub form_factor: EndpointFormFactor,
}

/// An [`AudioDevice`] as contracts speak of it.
pub struct DeviceModel {
    pub id: Seq<char>,
    pub friendly_name: Seq<char>,
    pub selectable: bool,
    pub form_factor: EndpointFormFactor,
}

impl View for AudioDevice {
    type V = DeviceModel;

    open spec fn view(&self) -> DeviceModel {
        DeviceModel {
            id: self.id@,
            friendly_name: self.friendly_name@,
            selectable: self.selectable,
            form_factor: self.form_factor,
        }
    }
}

impl DeviceModel {
    /// The same device with another selectable state.
    pub open spec fn with_selectable(self, selectable: bool) -> DeviceModel {
        DeviceModel { selectable, ..self }
    }
}

/// The devices of a list as contracts speak of them.
pub open spec fn models(devices: Seq<AudioDevice>) -> Seq<DeviceModel> {
    devices.map_values(|d: AudioDevice| d@)
}

/// No two devices share an id.
pub open spec fn ids_unique(devices: Seq<DeviceModel>) -> bool {
    forall|i: int, j: int|
        0 <= i < devices.len() && 0 <= j < devices.len() && (#[trigger] devices[i]).id == (
        #[trigger] devices[j]).id ==> i == j
}

/// Which devices have an id.
pub open spec fn has_id(devices: Seq<DeviceModel>, id: Seq<char>) -> Seq<bool> {
    devices.map_values(|d: DeviceModel| d.id == id)
}

/// The first device with an id, if there is one.
pub open spec fn device_index(devices: Seq<DeviceModel>, id: Seq<char>) -> Option<int> {
    first_true(has_id(devices, id))
}

/// A typed property of an audio endpoint, as plain values.
#[derive(Debug)]
pub struct PropVariant {
    /// The type tag.
    pub vt: u16,
    /// The units before the NUL, where the tag is [`VT_LPWSTR`].
    pub wide: Vec<u16>,
    /// The number, where the tag is [`VT_UI4`].
    pub ul_val: u32,
    /// The property in the system's own notation.
    pub debug: String,
}

/// A 32-bit number read as a signed one in two's complement.
pub open spec fn as_signed(v: u32) -> int {
    if v < 0x8000_0000 {
        v as int
    } else {
        v - 0x1_0000_0000
    }
}

/// The device that an endpoint's id and properties describe, or why they describe none. The
/// form factor is looked at first.
pub open spec fn endpoint_device(
    id: Seq<char>,
    friendly_name: PropVariant,
    form_factor: PropVariant,
) -> Result<DeviceModel, AudioSwitchError> {
    if form_factor.vt != VT_UI4 {
        Err(AudioSwitchError::UnsupportedFormFactor { property: form_factor.debug })
    } else if friendly_name.vt != VT_LPWSTR {
        Err(AudioSwitchError::UnsupportedPropertyType { vt: friendly_name.vt })
    } else {
        Ok(
            DeviceModel {
                id,
                friendly_name: decode_lossy(friendly_name.wide@),
                selectable: true,
                form_factor: EndpointFormFactor(as_signed(form_factor.ul_val) as i32),
            },
        )
    }
}

/// The text of a string property.
pub fn propvariant_to_string(propvar: &PropVariant) -> (r: Result<String, AudioSwitchError>)
    ensures
        match r {
            Ok(s) => propvar.vt == VT_LPWSTR && s@ == decode_lossy(propvar.wide@),
            Err(e) => propvar.vt != VT_LPWSTR && e == (AudioSwitchError::UnsupportedPropertyType {
                vt: propvar.vt,
            }),
        },
        r is Ok <==> propvar.vt == 31,
{
    match propvar.vt {
        VT_LPWSTR => Ok(from_utf16_lossy(propvar.wide.as_slice())),
        _ => Err(AudioSwitchError::UnsupportedPropertyType { vt: propvar.vt }),
    }
}

/// The device that an endpoint's id and properties describe. A device is selectable until the
/// user says otherwise.
pub fn device_from_endpoint(
    id: String,
    friendly_name: &PropVariant,
    form_factor: &PropVariant,
) -> (r: Result<AudioDevice, AudioSwitchError>)
    ensures
        match r {
            Ok(device) => endpoint_device(id@, *friendly_name, *form_factor) == Ok::<
                DeviceModel,
                AudioSwitchError,
            >(device@),
            Err(e) => endpoint_device(id@, *friendly_name, *form_factor) == Err::<
                DeviceModel,
                AudioSwitchError,
            >(e),
        },
        r is Ok <==> form_factor.vt == 19 && friendly_name.vt == 31,
        r matches Ok(device) ==> {
            &&& device.id@ == id@
            &&& device.friendly_name@ == decode_lossy(friendly_name.wide@)
            &&& device.selectable
            &&& (device.form_factor.0 - form_factor.ul_val) % 0x1_0000_0000 == 0
        },
        r matches Err(e) ==> if form_factor.vt != 19 {
            e is UnsupportedFormFactor && e->property@ == form_factor.debug@
        } else {
            e is UnsupportedPropertyType && e->vt == friendly_name.vt
        },
{
    let form_factor: EndpointFormFactor = match form_factor.vt {
        VT_UI4 => {
            let v: u32 = form_factor.ul_val;
            assert(v as i32 == (if v < 0x8000_0000 {
                v as int
            } else {
                v - 0x1_0000_0000
            })) by (bit_vector);
            EndpointFormFactor(v as i32)
        },
        _ => {
            return Err(
                AudioSwitchError::UnsupportedFormFactor { property: form_factor.debug.clone() },
            );
        },
    };
    match propvariant_to_string(friendly_name) {
        Ok(friendly_name) => Ok(AudioDevice { id, friendly_name, selectable: true, form_factor }),
        Err(e) => Err(e),
    }
}

/// Takes the next enumerated endpoint into the list of devices. An endpoint that describes no
/// device leaves the list as it was.
pub fn add_endpoint(
    devices: &mut Vec<AudioDevice>,
    id: String,
    friendly_name: &PropVariant,
    form_factor: &PropVariant,
) -> (r: Result<(), AudioSwitchError>)
    ensures
        match endpoint_device(id@, *friendly_name, *form_factor) {
            Ok(device) => r is Ok && models(final(devices)@) == models(old(devices)@).push(device),
            Err(e) => r == Err::<(), AudioSwitchError>(e) && final(devices)@ == old(devices)@,
        },
        r is Ok <==> form_factor.vt == 19 && friendly_name.vt == 31,
        r is Ok ==> {
            let device = final(devices)@.last();
            &&& final(devices)@.len() == old(devices)@.len() + 1
            &&& final(devices)@.drop_last() == old(devices)@
            &&& device.id@ == id@
            &&& device.friendly_name@ == decode_lossy(friendly_name.wide@)
            &&& device.selectable
            &&& (device.form_factor.0 - form_factor.ul_val) % 0x1_0000_0000 == 0
        },
{
    match device_from_endpoint(id, friendly_name, form_factor) {
        Ok(device) => {
            devices.push(device);
            assert(models(devices@) == models(old(devices)@).push(device@));
            Ok(())
        },
        Err(e) => Err(e),
    }
}

/// Finds the first device with an id.
pub fn find_device(devices: &[AudioDevice], id: &str) -> (found: Option<usize>)
    ensures
        match found {
            Some(i) => device_index(models(devices@), id@) == Some(i as int) && i < devices@.len(),
            None => device_index(models(devices@), id@) == None::<int>,
        },
        match found {
            Some(i) => i < devices@.len() && devices@[i as int].id@ == id@ && forall|j: int|
                0 <= j < i ==> (#[trigger] devices@[j]).id@ != id@,
            None => forall|j: int| 0 <= j < devices@.len() ==> (#[trigger] devices@[j]).id@ != id@,
        },
{
    let wanted: String = id.to_owned();
    let ghost flags = has_id(models(devices@), id@);
    let mut i: usize = 0;
    while i < devices.len()
        invariant
            i <= devices@.len(),
            wanted@ == id@,
            flags == has_id(models(devices@), id@),
            forall|j: int| 0 <= j < i ==> !flags[j],
            forall|j: int| 0 <= j < i ==> (#[trigger] devices@[j]).id@ != id@,
        decreases devices@.len() - i,
    {
        if devices[i].id == wanted {
            proof {
                lemma_first_true_at(flags, i as int);
            }
            return Some(i);
        }
        i = i + 1;
    }
    proof {
        lemma_first_true_none(flags);
    }
    None
}

/// Where no two devices share an id, looking for a device's id finds that device.
pub proof fn law_unique_id_finds_device(devices: Seq<DeviceModel>, i: int)
    requires
        ids_unique(devices),
        0 <= i < devices.len(),
    ensures
        device_index(devices, devices[i].id) == Some(i),
{
    let flags = has_id(devices, devices[i].id);
    law_first_true(flags);
    assert(flags[i]);
}

/// What contracts say of a device is said of its fields.
pub proof fn law_device_view(device: AudioDevice)
    ensures
        device@.id == device.id@,
        device@.friendly_name == device.friendly_name@,
        device@.selectable == device.selectable,
        device@.form_factor.0 == device.form_factor.0,
{
}

/// What contracts say of a list is said of its devices, one by one and in order.
pub proof fn law_list_view(devices: Seq<AudioDevice>, i: int)
    requires
        0 <= i < devices.len(),
    ensures
        models(devices).len() == devices.len(),
        models(devices)[i].id == devices[i].id@,
        models(devices)[i].friendly_name == devices[i].friendly_name@,
        models(devices)[i].selectable == devices[i].selectable,
        models(devices)[i].form_factor.0 == devices[i].form_factor.0,
{
}

/// Another selectable state is all that changes.
pub proof fn law_with_selectable(device: DeviceModel, selectable: bool)
    ensures
        device.with_selectable(selectable).selectable == selectable,
        device.with_selectable(selectable).id == device.id,
        device.with_selectable(selectable).friendly_name == device.friendly_name,
        device.with_selectable(selectable).form_factor.0 == device.form_factor.0,
{
}

/// Looking for an id finds a device that has it, with none before it, and finds nothing only
/// where no device has it.
pub proof fn law_device_index_is_first(devices: Seq<DeviceModel>, id: Seq<char>)
    ensures
        match device_index(devices, id) {
            Some(i) => 0 <= i < devices.len() && devices[i].id == id && forall|j: int|
                0 <= j < i ==> (#[trigger] devices[j]).id != id,
            None => forall|j: int| 0 <= j < devices.len() ==> (#[trigger] devices[j]).id != id,
        },
{
    let flags = has_id(devices, id);
    law_first_true(flags);
    assert forall|j: int| 0 <= j < devices.len() implies flags[j] == ((#[trigger] devices[j]).id
        == id) by {}
}

/// An endpoint describes a device exactly where its form factor is a number and its name a
/// string. The device has the endpoint's id, the name as decoded, the number as its form factor
/// (modulo the range of 32 bits), and is selectable. Otherwise the error tells of the form
/// factor, or, where that is a number, of the name.
pub proof fn law_endpoint_describes_device(
    id: Seq<char>,
    friendly_name: PropVariant,
    form_factor: PropVariant,
)
    ensures
        endpoint_device(id, friendly_name, form_factor) is Ok <==> form_factor.vt == 19
            && friendly_name.vt == 31,
        endpoint_device(id, friendly_name, form_factor) matches Ok(device) ==> {
            &&& device.id == id
            &&& device.friendly_name == decode_lossy(friendly_name.wide@)
            &&& device.selectable
            &&& (device.form_factor.0 - form_factor.ul_val) % 0x1_0000_0000 == 0
            &&& form_factor.ul_val < 0x8000_0000 ==> device.form_factor.0 == form_factor.ul_val
        },
        endpoint_device(id, friendly_name, form_factor) matches Err(e) ==> if form_factor.vt
            != 19 {
            e == (AudioSwitchError::UnsupportedFormFactor { property: form_factor.debug })
        } else {
            e == (AudioSwitchError::UnsupportedPropertyType { vt: friendly_name.vt })
        },
{
}

/// Endpoints with different numbers for their form factor become devices with different form
/// factors.
pub proof fn law_form_factors_kept_apart(
    id: Seq<char>,
    friendly_name: PropVariant,
    one: PropVariant,
    other: PropVariant,
)
    requires
        friendly_name.vt == 31,
        one.vt == 19,
        other.vt == 19,
        one.ul_val != other.ul_val,
    ensures
        endpoint_device(id, friendly_name, one)->Ok_0.form_factor.0 != endpoint_device(
            id,
            friendly_name,
            other,
        )->Ok_0.form_factor.0,
{
}

/// An endpoint: its id, its name property and its form factor property.
pub type EndpointModel = (Seq<char>, PropVariant, PropVariant);

/// Why an endpoint describes no device; `None` where it describes one.
pub open spec fn endpoint_error(endpoint: EndpointModel) -> Option<AudioSwitchError> {
    match endpoint_device(endpoint.0, endpoint.1, endpoint.2) {
        Ok(_) => None,
        Err(e) => Some(e),
    }
}

/// Which endpoints describe no device.
pub open spec fn endpoint_failures(endpoints: Seq<EndpointModel>) -> Seq<bool> {
    endpoints.map_values(|e: EndpointModel| endpoint_error(e) is Some)
}

/// What comes of taking enumerated endpoints into an empty list one after the other, up to the
/// first that describes no device.
pub open spec fn enumerated(endpoints: Seq<EndpointModel>) -> Result<
    Seq<DeviceModel>,
    AudioSwitchError,
>
    decreases endpoints.len(),
{
    if endpoints.len() == 0 {
        Ok(Seq::empty())
    } else {
        match enumerated(endpoints.drop_last()) {
            Ok(devices) => {
                let last = endpoints.last();
                match endpoint_device(last.0, last.1, last.2) {
                    Ok(device) => Ok(devices.push(device)),
                    Err(e) => Err(e),
                }
            },
            Err(e) => Err(e),
        }
    }
}

/// Enumeration fails with the first endpoint that describes no device, for that endpoint's
/// reason. Otherwise it lists one device for each endpoint, in order and all of them
/// selectable.
pub proof fn law_enumeration(endpoints: Seq<EndpointModel>)
    ensures
        match first_true(endpoint_failures(endpoints)) {
            Some(i) => {
                let e = endpoints[i];
                &&& 0 <= i < endpoints.len()
                &&& enumerated(endpoints) == Err::<Seq<DeviceModel>, _>(endpoint_error(e).unwrap())
                &&& e.1.vt != 31 || e.2.vt != 19
                &&& forall|j: int|
                    0 <= j < i ==> (#[trigger] endpoints[j]).1.vt == 31 && endpoints[j].2.vt == 19
                &&& if e.2.vt != 19 {
                    enumerated(endpoints)->Err_0 == (AudioSwitchError::UnsupportedFormFactor {
                        property: e.2.debug,
                    })
                } else {
                    enumerated(endpoints)->Err_0 == (AudioSwitchError::UnsupportedPropertyType {
                        vt: e.1.vt,
                    })
                }
            },
            None => {
                &&& enumerated(endpoints) is Ok
                &&& enumerated(endpoints)->Ok_0.len() == endpoints.len()
                &&& forall|i: int|
                    0 <= i < endpoints.len() ==> {
                        let e = #[trigger] endpoints[i];
                        let device = enumerated(endpoints)->Ok_0[i];
                        &&& endpoint_device(e.0, e.1, e.2) == Ok::<_, AudioSwitchError>(device)
                        &&& e.1.vt == 31 && e.2.vt == 19
                        &&& device.id == e.0
                        &&& device.friendly_name == decode_lossy(e.1.wide@)
                        &&& device.selectable
                        &&& (device.form_factor.0 - e.2.ul_val) % 0x1_0000_0000 == 0
                        &&& e.2.ul_val < 0x8000_0000 ==> device.form_factor.0 == e.2.ul_val
                    }
            },
        },
    decreases endpoints.len(),
{
    if endpoints.len() > 0 {
        let front = endpoints.drop_last();
        let last = endpoints.last();
        law_enumeration(front);
        law_endpoint_describes_device(last.0, last.1, last.2);
        law_first_true(endpoint_failures(front));
        law_first_true(endpoint_failures(endpoints));
        assert(endpoint_failures(endpoints).drop_last() =~= endpoint_failures(front));
        assert forall|i: int| 0 <= i < front.len() implies front[i] == #[trigger] endpoints[i] by {}
    }
}

} // verus!
