//! Which devices the user left in the rotation, kept from one run to the next.

use crate::device::{has_id, models, AudioDevice, DeviceModel};
use std::collections::HashMap;
use vstd::prelude::*;

verus! {

/// The directory below the user's application data that holds the program's own.
pub const CONFIG_VENDOR_DIR: &'static str = "PurpleHatstands";

/// The program's own directory in that.
pub const CONFIG_APP_DIR: &'static str = "AudioSwitch";

/// The file that holds the states.
pub const CONFIG_FILE: &'static str = "device_config.json";

/// What `serde_json` reports about a text that it cannot read.
///
/// Outside type: `serde_json::Error`. Claimed: nothing; the value is only carried.
#[verifier::external_type_specification]
#[verifier::external_body]
pub struct ExJsonError(serde_json::Error);

/// What `serde_json::from_str` reads from a text as a `HashMap<String, bool>`: `None` where it
/// reports an error.
pub uninterp spec fn json_states(text: Seq<char>) -> Option<Map<Seq<char>, bool>>;

/// Why device states could not be written or read.
#[derive(Debug)]
pub struct StateError {
    pub source: serde_json::Error,
}

/// The selectable state of devices, by device id.
#[derive(Debug)]
pub struct DeviceStates {
    entries: Vec<(String, bool)>,
}

/// What entries say of each id; of two entries for one id the later counts.
pub open spec fn entries_map(entries: Seq<(String, bool)>) -> Map<Seq<char>, bool>
    decreases entries.len(),
{
    if entries.len() == 0 {
        Map::empty()
    } else {
        entries_map(entries.drop_last()).insert(entries.last().0@, entries.last().1)
    }
}

/// No id occurs twice.
pub open spec fn keys_unique(entries: Seq<(String, bool)>) -> bool {
    forall|i: int, j: int|
        0 <= i < j < entries.len() ==> (#[trigger] entries[i]).0@ != (#[trigger] entries[j]).0@
}

impl View for DeviceStates {
    type V = Map<Seq<char>, bool>;

    closed spec fn view(&self) -> Map<Seq<char>, bool> {
        entries_map(self.entries@)
    }
}

/// The state of each device by its id; of two devices with one id the later counts.
pub open spec fn states_of(devices: Seq<DeviceModel>) -> Map<Seq<char>, bool>
    decreases devices.len(),
{
    if devices.len() == 0 {
        Map::empty()
    } else {
        states_of(devices.drop_last()).insert(devices.last().id, devices.last().selectable)
    }
}

/// A device with the saved state for its id, or as it is where none was saved.
pub open spec fn restored(device: DeviceModel, saved: Map<Seq<char>, bool>) -> DeviceModel {
    if saved.contains_key(device.id) {
        device.with_selectable(saved[device.id])
    } else {
        device
    }
}

/// The devices with their saved states.
pub open spec fn restored_all(devices: Seq<DeviceModel>, saved: Map<Seq<char>, bool>) -> Seq<
    DeviceModel,
> {
    devices.map_values(|d: DeviceModel| restored(d, saved))
}

/// Reads a JSON object of booleans.
///
/// Outside function: `serde_json::from_str`, into a `HashMap<String, bool>`. Claimed: it
/// succeeds on exactly the texts for which [`json_states`] is something, and then the entries
/// of the map are those, each id once, in no particular order. Which texts these are is left
/// to `serde_json`.
#[verifier::external_body]
fn entries_from_json(text: &str) -> (r: Result<Vec<(String, bool)>, serde_json::Error>)
    ensures
        match r {
            Ok(entries) => keys_unique(entries@) && json_states(text@) == Some(
                entries_map(entries@),
            ),
            Err(_) => json_states(text@) is None,
        },
{
    let states: HashMap<String, bool> = serde_json::from_str(text)?;
    Ok(states.into_iter().collect())
}

/// Writes entries as a JSON object.
///
/// Outside function: `serde_json::to_string_pretty`, of a `HashMap<String, bool>`. Claimed: it
/// succeeds, since the keys are strings, and reading the text back gives the map. The order of
/// the members in the text differs from call to call and is left open.
#[verifier::external_body]
fn entries_to_json(entries: &Vec<(String, bool)>) -> (r: Result<String, serde_json::Error>)
    requires
        keys_unique(entries@),
    ensures
        r is Ok,
        json_states(r->Ok_0@) == Some(entries_map(entries@)),
{
    let states: HashMap<String, bool> = entries.iter().cloned().collect();
    serde_json::to_string_pretty(&states)
}

/// Replaces the entry for an id, or adds one.
fn put_entry(entries: &mut Vec<(String, bool)>, id: String, selectable: bool)
    requires
        keys_unique(old(entries)@),
    ensures
        keys_unique(final(entries)@),
        entries_map(final(entries)@) == entries_map(old(entries)@).insert(id@, selectable),
{
    let mut i: usize = 0;
    while i < entries.len()
        invariant
            i <= entries@.len(),
            entries@ == old(entries)@,
            keys_unique(entries@),
            forall|j: int| 0 <= j < i ==> (#[trigger] entries@[j]).0@ != id@,
        decreases entries@.len() - i,
    {
        if entries[i].0 == id {
            proof {
                lemma_entries_map_update(entries@, i as int, (id, selectable));
            }
            entries[i] = (id, selectable);
            return ;
        }
        i = i + 1;
    }
    entries.push((id, selectable));
    assert(entries@.drop_last() == old(entries)@);
}

/// What entries say of an id.
proof fn lemma_entries_map(entries: Seq<(String, bool)>)
    requires
        keys_unique(entries),
    ensures
        forall|i: int|
            0 <= i < entries.len() ==> entries_map(entries).contains_key(
                (#[trigger] entries[i]).0@,
            ) && entries_map(entries)[entries[i].0@] == entries[i].1,
        forall|id: Seq<char>| #[trigger]
            entries_map(entries).contains_key(id) ==> exists|i: int|
                0 <= i < entries.len() && (#[trigger] entries[i]).0@ == id,
    decreases entries.len(),
{
    if entries.len() > 0 {
        let front = entries.drop_last();
        lemma_entries_map(front);
        assert forall|i: int| 0 <= i < entries.len() implies entries_map(entries).contains_key(
            (#[trigger] entries[i]).0@,
        ) && entries_map(entries)[entries[i].0@] == entries[i].1 by {
            if i < entries.len() - 1 {
                assert(front[i] == entries[i]);
            }
        }
        assert forall|id: Seq<char>| #[trigger]
            entries_map(entries).contains_key(id) implies exists|i: int|
            0 <= i < entries.len() && (#[trigger] entries[i]).0@ == id by {
            if id == entries.last().0@ {
                assert(entries[entries.len() - 1].0@ == id);
            } else {
                assert(entries_map(front).contains_key(id));
                let i = choose|i: int| 0 <= i < front.len() && (#[trigger] front[i]).0@ == id;
                assert(entries[i].0@ == id);
            }
        }
    }
}

proof fn lemma_entries_map_update(entries: Seq<(String, bool)>, i: int, entry: (String, bool))
    requires
        keys_unique(entries),
        0 <= i < entries.len(),
        entries[i].0@ == entry.0@,
    ensures
        keys_unique(entries.update(i, entry)),
        entries_map(entries.update(i, entry)) == entries_map(entries).insert(entry.0@, entry.1),
    decreases entries.len(),
{
    let front = entries.drop_last();
    let new = entries.update(i, entry);
    if i == entries.len() - 1 {
        assert(new.drop_last() == front);
    } else {
        lemma_entries_map_update(front, i, entry);
        assert(new.drop_last() == front.update(i, entry));
        assert(entries.last().0@ != entry.0@);
        assert(entries_map(new) == entries_map(entries).insert(entry.0@, entry.1));
    }
}

impl DeviceStates {
    #[verifier::type_invariant]
    spec fn wf(self) -> bool {
        keys_unique(self.entries@)
    }

    /// No states at all.
    pub fn new() -> (states: DeviceStates)
        ensures
            states@ == Map::<Seq<char>, bool>::empty(),
    {
        DeviceStates { entries: Vec::new() }
    }

    /// The states of a list of devices.
    pub fn of_devices(devices: &[AudioDevice]) -> (states: DeviceStates)
        ensures
            states@ == states_of(models(devices@)),
    {
        let mut entries: Vec<(String, bool)> = Vec::new();
        let ghost all = models(devices@);
        let mut i: usize = 0;
        assert(all.take(0) == Seq::<DeviceModel>::empty());
        while i < devices.len()
            invariant
                i <= devices@.len(),
                all == models(devices@),
                keys_unique(entries@),
                entries_map(entries@) == states_of(all.take(i as int)),
            decreases devices@.len() - i,
        {
            put_entry(&mut entries, devices[i].id.clone(), devices[i].selectable);
            assert(all.take(i + 1).drop_last() == all.take(i as int));
            i = i + 1;
        }
        assert(all.take(all.len() as int) == all);
        DeviceStates { entries }
    }

    /// The state for an id, if there is one.
    pub fn get(&self, id: &String) -> (state: Option<bool>)
        ensures
            state == (if self@.contains_key(id@) {
                Some(self@[id@])
            } else {
                None::<bool>
            }),
    {
        proof {
            use_type_invariant(self);
            lemma_entries_map(self.entries@);
        }
        let mut i: usize = 0;
        while i < self.entries.len()
            invariant
                i <= self.entries@.len(),
                forall|j: int| 0 <= j < i ==> (#[trigger] self.entries@[j]).0@ != id@,
                forall|j: int|
                    0 <= j < self.entries@.len() ==> self@.contains_key(
                        (#[trigger] self.entries@[j]).0@,
                    ) && self@[self.entries@[j].0@] == self.entries@[j].1,
            decreases self.entries@.len() - i,
        {
            if self.entries[i].0 == *id {
                return Some(self.entries[i].1);
            }
            i = i + 1;
        }
        None
    }
}

/// The text to save for a list of devices.
pub fn save_device_selectable_state(devices: &[AudioDevice]) -> (r: Result<String, StateError>)
    ensures
        r is Ok,
        json_states(r->Ok_0@) == Some(states_of(models(devices@))),
{
    let states: DeviceStates = DeviceStates::of_devices(devices);
    proof {
        use_type_invariant(&states);
    }
    match entries_to_json(&states.entries) {
        Ok(text) => Ok(text),
        Err(source) => Err(StateError { source }),
    }
}

/// The states that were saved: none at all where there is no file yet.
pub fn load_device_selectable_state(contents: Option<&str>) -> (r: Result<DeviceStates, StateError>)
    ensures
        match contents {
            None => r is Ok && r->Ok_0@ == Map::<Seq<char>, bool>::empty(),
            Some(text) => match json_states(text@) {
                Some(saved) => r is Ok && r->Ok_0@ == saved,
                None => r is Err,
            },
        },
{
    match contents {
        None => Ok(DeviceStates::new()),
        Some(text) => match entries_from_json(text) {
            Ok(entries) => Ok(DeviceStates { entries }),
            Err(source) => Err(StateError { source }),
        },
    }
}

/// Applies saved states to the devices that are there now.
pub fn apply_device_selectable_state(devices: &mut [AudioDevice], saved_states: &DeviceStates)
    ensures
        models(final(devices)@) == restored_all(models(old(devices)@), saved_states@),
        final(devices)@.len() == old(devices)@.len(),
        forall|i: int|
            0 <= i < old(devices)@.len() ==> {
                let device = #[trigger] final(devices)@[i];
                &&& device.id@ == old(devices)@[i].id@
                &&& device.friendly_name@ == old(devices)@[i].friendly_name@
                &&& device.form_factor == old(devices)@[i].form_factor
                &&& device.selectable == if saved_states@.contains_key(old(devices)@[i].id@) {
                    saved_states@[old(devices)@[i].id@]
                } else {
                    old(devices)@[i].selectable
                }
            },
{
    let mut i: usize = 0;
    let ghost before = models(devices@);
    while i < devices.len()
        invariant
            i <= devices@.len(),
            before == models(old(devices)@),
            devices@.len() == before.len(),
            forall|j: int|
                0 <= j < i ==> (#[trigger] devices@[j])@ == restored(before[j], saved_states@),
            forall|j: int| i <= j < before.len() ==> (#[trigger] devices@[j])@ == before[j],
        decreases devices@.len() - i,
    {
        if let Some(selectable) = saved_states.get(&devices[i].id) {
            devices[i].selectable = selectable;
        }
        i = i + 1;
    }
    assert(models(devices@) == restored_all(before, saved_states@));
    assert forall|j: int| 0 <= j < before.len() implies (#[trigger] devices@[j])@ == restored(
        old(devices)@[j]@,
        saved_states@,
    ) by {
        assert(before[j] == old(devices)@[j]@);
    }
}

/// Devices that share an id have the same state.
pub open spec fn states_agree(devices: Seq<DeviceModel>) -> bool {
    forall|i: int, j: int|
        0 <= i < devices.len() && 0 <= j < devices.len() && (#[trigger] devices[i]).id == (
        #[trigger] devices[j]).id ==> devices[i].selectable == devices[j].selectable
}

/// A list of devices says something of exactly the ids in it.
pub proof fn law_states_of_ids(devices: Seq<DeviceModel>, id: Seq<char>)
    ensures
        states_of(devices).contains_key(id) <==> has_id(devices, id).contains(true),
    decreases devices.len(),
{
    let flags = has_id(devices, id);
    if devices.len() > 0 {
        let front = devices.drop_last();
        let front_flags = has_id(front, id);
        law_states_of_ids(front, id);
        assert(flags == front_flags.push(devices.last().id == id));
        if front_flags.contains(true) {
            let i = choose|i: int| 0 <= i < front_flags.len() && front_flags[i] == true;
            assert(flags[i] == true);
        }
        if devices.last().id == id {
            assert(flags[devices.len() - 1] == true);
        } else if flags.contains(true) {
            let i = choose|i: int| 0 <= i < flags.len() && flags[i] == true;
            assert(front_flags[i] == true);
        }
    }
}

/// Of several devices with one id, the last says what is saved.
pub proof fn law_last_state_counts(devices: Seq<DeviceModel>, i: int)
    requires
        0 <= i < devices.len(),
        forall|j: int| i < j < devices.len() ==> (#[trigger] devices[j]).id != devices[i].id,
    ensures
        states_of(devices).contains_key(devices[i].id),
        states_of(devices)[devices[i].id] == devices[i].selectable,
    decreases devices.len(),
{
    if i < devices.len() - 1 {
        let front = devices.drop_last();
        assert(devices[devices.len() - 1].id != devices[i].id);
        assert forall|j: int| i < j < front.len() implies (#[trigger] front[j]).id
            != front[i].id by {
            assert(front[j] == devices[j]);
        }
        law_last_state_counts(front, i);
    }
}

/// Where devices that share an id agree, the saved state of each is its own.
proof fn lemma_states_of_agreeing(devices: Seq<DeviceModel>, i: int)
    requires
        states_agree(devices),
        0 <= i < devices.len(),
    ensures
        states_of(devices).contains_key(devices[i].id),
        states_of(devices)[devices[i].id] == devices[i].selectable,
    decreases devices.len(),
{
    let front = devices.drop_last();
    assert forall|k: int| 0 <= k < front.len() implies front[k] == devices[k] by {}
    if devices.last().id == devices[i].id {
        assert(devices[devices.len() - 1].selectable == devices[i].selectable);
    } else {
        assert(front[i] == devices[i]);
        lemma_states_of_agreeing(front, i);
    }
}

/// What was saved comes back: the states of a list of devices, written, read and applied to
/// the same list, leave it as it is.
pub proof fn law_saved_states_come_back(
    devices: Seq<DeviceModel>,
    text: Seq<char>,
    loaded: Map<Seq<char>, bool>,
)
    requires
        states_agree(devices),
    ensures
        json_states(text) == Some(states_of(devices)) && json_states(text) == Some(loaded)
            ==> restored_all(devices, loaded) == devices,
{
    assert forall|i: int| 0 <= i < devices.len() implies restored(
        #[trigger] devices[i],
        states_of(devices),
    ) == devices[i] by {
        lemma_states_of_agreeing(devices, i);
    }
    assert(restored_all(devices, states_of(devices)) == devices);
}

/// Applying the states of an earlier list gives a device the state that it had there, and
/// leaves a device that was not there as it is. Nothing but the state changes.
pub proof fn law_earlier_states_applied(
    earlier: Seq<DeviceModel>,
    devices: Seq<DeviceModel>,
    i: int,
)
    requires
        states_agree(earlier),
        0 <= i < devices.len(),
    ensures
        ({
            let after = restored_all(devices, states_of(earlier));
            &&& after.len() == devices.len()
            &&& after[i] == devices[i].with_selectable(after[i].selectable)
            &&& forall|j: int|
                0 <= j < earlier.len() && (#[trigger] earlier[j]).id == devices[i].id
                    ==> after[i].selectable == earlier[j].selectable
            &&& (forall|j: int|
                0 <= j < earlier.len() ==> (#[trigger] earlier[j]).id != devices[i].id)
                ==> after[i] == devices[i]
        }),
{
    law_states_of_ids(earlier, devices[i].id);
    assert forall|j: int|
        0 <= j < earlier.len() && (#[trigger] earlier[j]).id == devices[i].id implies restored(
        devices[i],
        states_of(earlier),
    ).selectable == earlier[j].selectable by {
        lemma_states_of_agreeing(earlier, j);
    }
}

/// Applying saved states a second time changes nothing.
pub proof fn law_apply_is_idempotent(devices: Seq<DeviceModel>, saved: Map<Seq<char>, bool>)
    ensures
        restored_all(restored_all(devices, saved), saved) == restored_all(devices, saved),
{
    assert(restored_all(restored_all(devices, saved), saved) =~= restored_all(devices, saved));
}

/// A device gets the state that was saved for its id, whichever that is, and keeps its own
/// where none was saved. Its id, name and form factor stay, and so does the order of devices.
pub proof fn law_saved_state_applied(
    devices: Seq<DeviceModel>,
    saved: Map<Seq<char>, bool>,
    i: int,
)
    requires
        0 <= i < devices.len(),
    ensures
        ({
            let after = restored_all(devices, saved);
            &&& after.len() == devices.len()
            &&& after[i].id == devices[i].id
            &&& after[i].friendly_name == devices[i].friendly_name
            &&& after[i].form_factor == devices[i].form_factor
            &&& saved.contains_key(devices[i].id) ==> after[i].selectable == saved[devices[i].id]
            &&& !saved.contains_key(devices[i].id) ==> after[i].selectable
                == devices[i].selectable
        }),
{
}

/// Entries say something of exactly the ids in them.
pub proof fn law_entries_ids(entries: Seq<(String, bool)>, id: Seq<char>)
    ensures
        entries_map(entries).contains_key(id) <==> exists|i: int|
            0 <= i < entries.len() && (#[trigger] entries[i]).0@ == id,
    decreases entries.len(),
{
    if entries.len() > 0 {
        let front = entries.drop_last();
        law_entries_ids(front, id);
        if entries.last().0@ == id {
            assert(entries[entries.len() - 1].0@ == id);
        } else if entries_map(front).contains_key(id) {
            let i = choose|i: int| 0 <= i < front.len() && (#[trigger] front[i]).0@ == id;
            assert(entries[i].0@ == id);
        } else if exists|i: int| 0 <= i < entries.len() && (#[trigger] entries[i]).0@ == id {
            let i = choose|i: int| 0 <= i < entries.len() && (#[trigger] entries[i]).0@ == id;
            assert(front[i].0@ == id);
        }
    }
}

/// Of several entries for one id, the last counts.
pub proof fn law_last_entry_counts(entries: Seq<(String, bool)>, i: int)
    requires
        0 <= i < entries.len(),
        forall|j: int| i < j < entries.len() ==> (#[trigger] entries[j]).0@ != entries[i].0@,
    ensures
        entries_map(entries).contains_key(entries[i].0@),
        entries_map(entries)[entries[i].0@] == entries[i].1,
    decreases entries.len(),
{
    if i < entries.len() - 1 {
        let front = entries.drop_last();
        assert(entries[entries.len() - 1].0@ != entries[i].0@);
        assert forall|j: int| i < j < front.len() implies (#[trigger] front[j]).0@
            != front[i].0@ by {
            assert(front[j] == entries[j]);
        }
        law_last_entry_counts(front, i);
    }
}

/// What a list of devices says of an id is the state of one of its devices with that id.
pub proof fn law_states_come_from_devices(devices: Seq<DeviceModel>, id: Seq<char>)
    ensures
        states_of(devices).contains_key(id) <==> exists|i: int|
            0 <= i < devices.len() && (#[trigger] devices[i]).id == id,
        states_of(devices).contains_key(id) ==> exists|i: int|
            0 <= i < devices.len() && (#[trigger] devices[i]).id == id && devices[i].selectable
                == states_of(devices)[id],
    decreases devices.len(),
{
    if devices.len() > 0 {
        let front = devices.drop_last();
        law_states_come_from_devices(front, id);
        if devices.last().id == id {
            assert(devices[devices.len() - 1].id == id);
        } else if states_of(front).contains_key(id) {
            let i = choose|i: int|
                0 <= i < front.len() && (#[trigger] front[i]).id == id && front[i].selectable
                    == states_of(front)[id];
            assert(devices[i].id == id);
        } else if exists|i: int| 0 <= i < devices.len() && (#[trigger] devices[i]).id == id {
            let i = choose|i: int| 0 <= i < devices.len() && (#[trigger] devices[i]).id == id;
            assert(front[i].id == id);
        }
    }
}

} // verus!
