//! What the system is asked to do, step by step.

use crate::search::{first_true, law_first_true, lemma_first_true_at, lemma_first_true_none};
use vstd::prelude::*;

verus! {

/// One thing to ask of the system.
///
/// The effects of a request are carried out in the order that [`first_effect`] and
/// [`after_effect`] say.
#[derive(Debug)]
pub enum Effect {
    /// Post a message to the window.
    PostMessage { message: u32, wparam: usize, lparam: isize },
    /// End the message loop.
    PostQuit { exit_code: i32 },
    /// Query the state of the menu item with this id and update its check mark.
    CheckItem { id: u32, selectable: bool },
    /// Query the state of the menu item with this id and give it this label.
    RelabelItem { id: u32, label: String },
    /// Bring the window to the front, so that the menu disappears again when the user clicks
    /// elsewhere.
    SetForeground,
    /// Show the popup menu at a point.
    TrackPopup { x: i32, y: i32, flags: u32 },
    /// Make the device with this id (in UTF-16, with its NUL) the default one for a role.
    SetDefaultEndpoint { device_id: Vec<u16>, role: i32 },
    /// Show the icon and the name of the device at this position in the tray.
    ModifyIcon { device: usize },
    /// Write the selectable states of the devices to disk.
    SaveStates,
}

/// An [`Effect`] as contracts speak of it.
pub enum EffectModel {
    PostMessage { message: u32, wparam: usize, lparam: isize },
    PostQuit { exit_code: i32 },
    CheckItem { id: u32, selectable: bool },
    RelabelItem { id: u32, label: Seq<char> },
    SetForeground,
    TrackPopup { x: i32, y: i32, flags: u32 },
    SetDefaultEndpoint { device_id: Seq<u16>, role: i32 },
    ModifyIcon { device: int },
    SaveStates,
}

impl View for Effect {
    type V = EffectModel;

    open spec fn view(&self) -> EffectModel {
        match *self {
            Effect::PostMessage { message, wparam, lparam } => EffectModel::PostMessage {
                message,
                wparam,
                lparam,
            },
            Effect::PostQuit { exit_code } => EffectModel::PostQuit { exit_code },
            Effect::CheckItem { id, selectable } => EffectModel::CheckItem { id, selectable },
            Effect::RelabelItem { id, label } => EffectModel::RelabelItem { id, label: label@ },
            Effect::SetForeground => EffectModel::SetForeground,
            Effect::TrackPopup { x, y, flags } => EffectModel::TrackPopup { x, y, flags },
            Effect::SetDefaultEndpoint { device_id, role } => EffectModel::SetDefaultEndpoint {
                device_id: device_id@,
                role,
            },
            Effect::ModifyIcon { device } => EffectModel::ModifyIcon { device: device as int },
            Effect::SaveStates => EffectModel::SaveStates,
        }
    }
}

/// Effects as contracts speak of them.
pub open spec fn effect_models(effects: Seq<Effect>) -> Seq<EffectModel> {
    effects.map_values(|e: Effect| e@)
}

impl Effect {
    /// Whether the request goes on where this effect fails: only where states could not be
    /// saved.
    pub fn tolerates_failure(&self) -> (tolerates: bool)
        ensures
            tolerates <==> self@ is SaveStates,
            tolerates <==> *self is SaveStates,
    {
        match self {
            Effect::SaveStates => true,
            _ => false,
        }
    }
}

/// What to do next about a request.
#[derive(Clone, Copy, Debug, PartialEq, Eq, Structural)]
pub enum Next {
    /// Perform the effect at this position.
    Perform { index: usize },
    /// Nothing is left to do.
    Done,
    /// Give the request up.
    Failed,
}

/// The effect at a position comes next, if there is one.
pub open spec fn perform_at(effects: Seq<EffectModel>, index: int) -> Next {
    if index < effects.len() {
        Next::Perform { index: index as usize }
    } else {
        Next::Done
    }
}

/// A failure of an effect counts, unless only states could not be saved.
pub open spec fn failure_counts(effect: EffectModel) -> bool {
    !(effect is SaveStates)
}

/// What follows the effect at a position: the request is given up where the effect failed and
/// its failure counts, and otherwise goes on.
pub open spec fn next_after(effects: Seq<EffectModel>, index: int, succeeded: bool) -> Next {
    if !succeeded && failure_counts(effects[index]) {
        Next::Failed
    } else {
        perform_at(effects, index + 1)
    }
}

/// What a request does first.
pub fn first_effect(effects: &[Effect]) -> (next: Next)
    ensures
        next == perform_at(effect_models(effects@), 0),
        effects@.len() > 0 ==> next is Perform && next->index == 0,
        effects@.len() == 0 ==> next is Done,
{
    if effects.len() > 0 {
        Next::Perform { index: 0 }
    } else {
        Next::Done
    }
}

/// What a request does after the effect at a position was tried.
pub fn after_effect(effects: &[Effect], index: usize, succeeded: bool) -> (next: Next)
    requires
        index < effects@.len(),
    ensures
        next == next_after(effect_models(effects@), index as int, succeeded),
        next is Failed <==> !succeeded && !(effects@[index as int] is SaveStates),
        next is Done <==> index + 1 == effects@.len() && (succeeded
            || effects@[index as int] is SaveStates),
        next is Perform ==> next->index == index + 1 && next->index < effects@.len(),
{
    if !succeeded && !effects[index].tolerates_failure() {
        Next::Failed
    } else if index < effects.len() - 1 {
        Next::Perform { index: index + 1 }
    } else {
        Next::Done
    }
}

/// How a request ends that goes on from a step, and how many more effects are tried until
/// then, where the effects succeed as given.
pub open spec fn run_from(effects: Seq<EffectModel>, succeeded: Seq<bool>, next: Next) -> (
    Next,
    nat,
)
    decreases
            effects.len() - (match next {
                Next::Perform { index } => index as int,
                _ => effects.len() as int,
            }),
    when effects.len() <= usize::MAX
{
    match next {
        Next::Perform { index } if index < effects.len() => {
            let (end, tried) = run_from(
                effects,
                succeeded,
                next_after(effects, index as int, succeeded[index as int]),
            );
            (end, tried + 1)
        },
        _ => (next, 0),
    }
}

/// Which effects fail in a way that counts.
pub open spec fn counting_failures(effects: Seq<EffectModel>, succeeded: Seq<bool>) -> Seq<bool> {
    Seq::new(effects.len(), |i: int| !succeeded[i] && failure_counts(effects[i]))
}

proof fn lemma_run_from(effects: Seq<EffectModel>, succeeded: Seq<bool>, index: int)
    requires
        effects.len() <= usize::MAX,
        0 <= index <= effects.len(),
        forall|i: int| 0 <= i < index ==> !counting_failures(effects, succeeded)[i],
    ensures
        run_from(effects, succeeded, perform_at(effects, index)) == match first_true(
            counting_failures(effects, succeeded),
        ) {
            Some(i) => (Next::Failed, (i + 1 - index) as nat),
            None => (Next::Done, (effects.len() - index) as nat),
        },
    decreases effects.len() - index,
{
    let failures = counting_failures(effects, succeeded);
    if index == effects.len() {
        lemma_first_true_none(failures);
    } else if failures[index] {
        lemma_first_true_at(failures, index);
        assert(run_from(effects, succeeded, Next::Failed) == (Next::Failed, 0nat));
    } else {
        lemma_run_from(effects, succeeded, index + 1);
        law_first_true(failures);
    }
}

/// The effects of a request are tried in order, up to and with the first whose failure counts;
/// the request fails with it. Where no failure counts, all are tried and the request is done.
pub proof fn law_first_counting_failure_ends_request(
    effects: Seq<EffectModel>,
    succeeded: Seq<bool>,
)
    requires
        effects.len() <= usize::MAX,
    ensures
        run_from(effects, succeeded, perform_at(effects, 0)) == match first_true(
            counting_failures(effects, succeeded),
        ) {
            Some(i) => (Next::Failed, (i + 1) as nat),
            None => (Next::Done, effects.len()),
        },
{
    lemma_run_from(effects, succeeded, 0);
}

/// What contracts say of an effect is said of its fields.
pub proof fn law_effect_view(effect: Effect)
    ensures
        effect matches Effect::PostMessage { message, wparam, lparam } ==> effect@ is PostMessage
            && effect@->message == message && effect@->wparam == wparam && effect@->lparam
            == lparam,
        effect matches Effect::PostQuit { exit_code } ==> effect@ is PostQuit && effect@->exit_code
            == exit_code,
        effect matches Effect::CheckItem { id, selectable } ==> effect@ is CheckItem
            && effect@->CheckItem_id == id && effect@->selectable == selectable,
        effect matches Effect::RelabelItem { id, label } ==> effect@ is RelabelItem
            && effect@->RelabelItem_id == id && effect@->label == label@,
        effect is SetForeground <==> effect@ is SetForeground,
        effect matches Effect::TrackPopup { x, y, flags } ==> effect@ is TrackPopup && effect@->x
            == x && effect@->y == y && effect@->flags == flags,
        effect matches Effect::SetDefaultEndpoint { device_id, role }
            ==> effect@ is SetDefaultEndpoint && effect@->device_id == device_id@ && effect@->role
            == role,
        effect matches Effect::ModifyIcon { device } ==> effect@ is ModifyIcon && effect@->device
            == device,
        effect is SaveStates <==> effect@ is SaveStates,
{
}

/// Effects are spoken of one by one and in their order.
pub proof fn law_effects_view(effects: Seq<Effect>, i: int)
    requires
        0 <= i < effects.len(),
    ensures
        effect_models(effects).len() == effects.len(),
        effect_models(effects)[i] == effects[i]@,
{
}

/// A request begins with its first effect, and ends at once where it has none.
pub proof fn law_request_begins(effects: Seq<EffectModel>)
    requires
        effects.len() <= usize::MAX,
    ensures
        effects.len() > 0 ==> perform_at(effects, 0) is Perform && perform_at(effects, 0)->index
            == 0,
        effects.len() == 0 ==> perform_at(effects, 0) is Done,
{
}

/// A request is given up exactly after an effect that failed and that is not the saving of
/// states. Otherwise it goes on with the next effect, and is done after the last.
pub proof fn law_request_goes_on(effects: Seq<EffectModel>, index: int, succeeded: bool)
    requires
        effects.len() <= usize::MAX,
        0 <= index < effects.len(),
    ensures
        ({
            let next = next_after(effects, index, succeeded);
            &&& next is Failed <==> !succeeded && !(effects[index] is SaveStates)
            &&& next is Done <==> index == effects.len() - 1 && (succeeded
                || effects[index] is SaveStates)
            &&& next is Perform ==> next->index == index + 1
        }),
{
}

/// Where every effect succeeds, all of them are tried; so are they where only states cannot be
/// saved.
pub proof fn law_unsaved_states_stop_nothing(effects: Seq<EffectModel>, succeeded: Seq<bool>)
    requires
        effects.len() <= usize::MAX,
        succeeded.len() == effects.len(),
        forall|i: int|
            0 <= i < effects.len() && !(#[trigger] succeeded[i]) ==> effects[i] is SaveStates,
    ensures
        run_from(effects, succeeded, perform_at(effects, 0)).0 is Done,
        run_from(effects, succeeded, perform_at(effects, 0)).1 == effects.len(),
{
    law_first_counting_failure_ends_request(effects, succeeded);
    assert forall|i: int| 0 <= i < effects.len() implies !counting_failures(
        effects,
        succeeded,
    )[i] by {
        assert(succeeded[i] || effects[i] is SaveStates);
    }
    lemma_first_true_none(counting_failures(effects, succeeded));
}

/// Where an effect other than the saving of states is the first to fail, the request fails
/// with it, and nothing after it is tried.
pub proof fn law_failure_stops_request(
    effects: Seq<EffectModel>,
    succeeded: Seq<bool>,
    failed: int,
)
    requires
        effects.len() <= usize::MAX,
        succeeded.len() == effects.len(),
        0 <= failed < effects.len(),
        !succeeded[failed],
        !(effects[failed] is SaveStates),
        forall|i: int|
            0 <= i < failed && !(#[trigger] succeeded[i]) ==> effects[i] is SaveStates,
    ensures
        run_from(effects, succeeded, perform_at(effects, 0)).0 is Failed,
        run_from(effects, succeeded, perform_at(effects, 0)).1 == failed + 1,
{
    law_first_counting_failure_ends_request(effects, succeeded);
    assert forall|i: int| 0 <= i < failed implies !counting_failures(effects, succeeded)[i] by {
        assert(succeeded[i] || effects[i] is SaveStates);
    }
    lemma_first_true_at(counting_failures(effects, succeeded), failed);
}

} // verus!
