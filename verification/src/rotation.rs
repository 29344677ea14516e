//! The order in which the tray icon steps through the selectable devices.

use crate::device::{
    device_index, find_device, has_id, ids_unique, law_device_index_is_first,
    law_unique_id_finds_device, models, AudioDevice, DeviceModel,
};
use crate::search::{first_true, law_first_true, lemma_first_true_at, lemma_first_true_none};
use vstd::prelude::*;

verus! {

/// Which devices are part of the rotation.
pub open spec fn selectable(devices: Seq<DeviceModel>) -> Seq<bool> {
    devices.map_values(|d: DeviceModel| d.selectable)
}

/// The flags after a position; those up to it are cleared.
pub open spec fn after(flags: Seq<bool>, current: int) -> Seq<bool> {
    Seq::new(flags.len(), |i: int| i > current && flags[i])
}

/// The first set flag after a position, or else the first of all.
pub open spec fn next_set(flags: Seq<bool>, current: int) -> Option<int> {
    match first_true(after(flags, current)) {
        Some(i) => Some(i),
        None => first_true(flags),
    }
}

/// Where the rotation stands: at the current device, or at the first one where the current
/// device is not known.
pub open spec fn current_index(devices: Seq<DeviceModel>, current: Seq<char>) -> int {
    match device_index(devices, current) {
        Some(i) => i,
        None => 0,
    }
}

/// The device that the rotation goes to from the current one, if any device is selectable.
pub open spec fn next_index(devices: Seq<DeviceModel>, current: Seq<char>) -> Option<int> {
    next_set(selectable(devices), current_index(devices, current))
}

/// The number of set flags before a position.
pub open spec fn rank(flags: Seq<bool>, i: int) -> nat
    decreases i,
{
    if i <= 0 {
        0
    } else {
        rank(flags, i - 1) + if flags[i - 1] {
            1nat
        } else {
            0nat
        }
    }
}

/// The number of selectable devices.
pub open spec fn selectable_count(devices: Seq<DeviceModel>) -> nat {
    rank(selectable(devices), devices.len() as int)
}

/// The id of the current device after a number of steps of the rotation, each of which makes
/// the device that it goes to the current one.
pub open spec fn stepped(devices: Seq<DeviceModel>, current: Seq<char>, steps: nat) -> Seq<char>
    decreases steps,
{
    if steps == 0 {
        current
    } else {
        let before = stepped(devices, current, (steps - 1) as nat);
        match next_index(devices, before) {
            Some(i) => devices[i].id,
            None => before,
        }
    }
}

/// Finds the device that the rotation goes to.
pub fn next_device(devices: &[AudioDevice], current_device: &str) -> (next: Option<usize>)
    ensures
        match next {
            Some(i) => next_index(models(devices@), current_device@) == Some(i as int) && i
                < devices@.len(),
            None => next_index(models(devices@), current_device@) == None::<int>,
        },
        match next {
            Some(i) => i < devices@.len() && devices@[i as int].selectable,
            None => forall|j: int| 0 <= j < devices@.len() ==> !(#[trigger] devices@[j]).selectable,
        },
{
    proof {
        law_next_is_nearest(models(devices@), current_device@);
        assert forall|j: int| 0 <= j < devices@.len() implies (#[trigger] devices@[j]).selectable
            == models(devices@)[j].selectable by {}
    }
    let current_index: usize = match find_device(devices, current_device) {
        Some(i) => i,
        None => 0,
    };
    let ghost flags = selectable(models(devices@));
    let ghost later = after(flags, current_index as int);
    let mut first: Option<usize> = None;
    let mut i: usize = 0;
    while i < devices.len()
        invariant
            i <= devices@.len(),
            flags == selectable(models(devices@)),
            later == after(flags, current_index as int),
            forall|j: int| 0 <= j < i ==> !later[j],
            match first {
                Some(f) => f < i && flags[f as int] && forall|j: int| 0 <= j < f ==> !flags[j],
                None => forall|j: int| 0 <= j < i ==> !flags[j],
            },
            current_index == self::current_index(models(devices@), current_device@),
        decreases devices@.len() - i,
    {
        if devices[i].selectable {
            if i > current_index {
                proof {
                    lemma_first_true_at(later, i as int);
                }
                return Some(i);
            }
            if first.is_none() {
                first = Some(i);
            }
        }
        i = i + 1;
    }
    proof {
        lemma_first_true_none(later);
        match first {
            Some(f) => lemma_first_true_at(flags, f as int),
            None => lemma_first_true_none(flags),
        }
    }
    first
}

/// The rotation goes to a selectable device whenever there is one: to the nearest after the
/// current device, or, where none comes after it, to the first of all.
pub proof fn law_next_is_nearest(devices: Seq<DeviceModel>, current: Seq<char>)
    ensures
        match next_index(devices, current) {
            Some(n) => {
                let at = current_index(devices, current);
                &&& 0 <= n < devices.len()
                &&& devices[n].selectable
                &&& n > at ==> forall|j: int| at < j < n ==> !(#[trigger] devices[j]).selectable
                &&& n <= at ==> forall|j: int|
                    0 <= j < n || at < j < devices.len() ==> !(#[trigger] devices[j]).selectable
            },
            None => forall|j: int| 0 <= j < devices.len() ==> !(#[trigger] devices[j]).selectable,
        },
{
    let flags = selectable(devices);
    let at = current_index(devices, current);
    law_first_true(has_id(devices, current));
    law_first_true(flags);
    law_first_true(after(flags, at));
    assert forall|j: int| 0 <= j < devices.len() implies flags[j] == (
    #[trigger] devices[j]).selectable by {}
    assert forall|j: int| at < j < devices.len() implies after(flags, at)[j] == (
    #[trigger] devices[j]).selectable by {}
}

/// With a single selectable device the rotation always goes to it.
pub proof fn law_single_selectable(devices: Seq<DeviceModel>, current: Seq<char>, i: int)
    requires
        0 <= i < devices.len(),
        devices[i].selectable,
        forall|j: int| 0 <= j < devices.len() && j != i ==> !(#[trigger] devices[j]).selectable,
    ensures
        next_index(devices, current) == Some(i),
{
    law_next_is_nearest(devices, current);
}

proof fn lemma_rank_constant(flags: Seq<bool>, i: int, j: int)
    requires
        0 <= i <= j <= flags.len(),
        forall|k: int| i <= k < j ==> !flags[k],
    ensures
        rank(flags, i) == rank(flags, j),
    decreases j - i,
{
    if i < j {
        lemma_rank_constant(flags, i, j - 1);
    }
}

proof fn lemma_rank_monotone(flags: Seq<bool>, i: int, j: int)
    requires
        0 <= i <= j <= flags.len(),
    ensures
        rank(flags, i) <= rank(flags, j),
    decreases j - i,
{
    if i < j {
        lemma_rank_monotone(flags, i, j - 1);
    }
}

proof fn lemma_rank_injective(flags: Seq<bool>, i: int, j: int)
    requires
        0 <= i < flags.len(),
        0 <= j < flags.len(),
        flags[i],
        flags[j],
        rank(flags, i) == rank(flags, j),
    ensures
        i == j,
{
    if i < j {
        lemma_rank_monotone(flags, i + 1, j);
    } else if j < i {
        lemma_rank_monotone(flags, j + 1, i);
    }
}

/// From a set flag, [`next_set`] goes to the next rank, and from the last rank to the first.
proof fn lemma_next_rank(flags: Seq<bool>, i: int) -> (n: int)
    requires
        0 <= i < flags.len(),
        flags[i],
    ensures
        next_set(flags, i) == Some(n),
        0 <= n < flags.len(),
        flags[n],
        rank(flags, i) < rank(flags, flags.len() as int),
        rank(flags, n) == (rank(flags, i) + 1) % rank(flags, flags.len() as int),
{
    let total = rank(flags, flags.len() as int);
    let later = after(flags, i);
    law_first_true(flags);
    law_first_true(later);
    assert(rank(flags, i + 1) == rank(flags, i) + 1);
    lemma_rank_monotone(flags, i + 1, flags.len() as int);
    match first_true(later) {
        Some(n) => {
            assert forall|k: int| i + 1 <= k < n implies !flags[k] by {
                assert(!later[k]);
            }
            lemma_rank_constant(flags, i + 1, n);
            assert(rank(flags, n + 1) == rank(flags, n) + 1);
            lemma_rank_monotone(flags, n + 1, flags.len() as int);
            assert((rank(flags, i) + 1) % total == rank(flags, i) + 1) by (nonlinear_arith)
                requires
                    rank(flags, i) + 1 < total,
            ;
            n
        },
        None => {
            assert forall|k: int| i + 1 <= k < flags.len() implies !flags[k] by {
                assert(!later[k]);
            }
            lemma_rank_constant(flags, i + 1, flags.len() as int);
            let n = first_true(flags).unwrap();
            lemma_rank_constant(flags, 0, n);
            assert(total % total == 0) by (nonlinear_arith)
                requires
                    total > 0,
            ;
            n
        },
    }
}

/// Where a number of steps from a selectable device lead.
proof fn lemma_stepped(devices: Seq<DeviceModel>, i: int, steps: nat) -> (m: int)
    requires
        ids_unique(devices),
        0 <= i < devices.len(),
        devices[i].selectable,
    ensures
        0 <= m < devices.len(),
        devices[m].selectable,
        stepped(devices, devices[i].id, steps) == devices[m].id,
        selectable_count(devices) > 0,
        rank(selectable(devices), m) == (rank(selectable(devices), i) + steps) % selectable_count(
            devices,
        ),
    decreases steps,
{
    let flags = selectable(devices);
    let total = selectable_count(devices);
    lemma_rank_monotone(flags, i + 1, devices.len() as int);
    if steps == 0 {
        assert(rank(flags, i) % total == rank(flags, i)) by (nonlinear_arith)
            requires
                rank(flags, i) < total,
        ;
        i
    } else {
        let before = lemma_stepped(devices, i, (steps - 1) as nat);
        law_unique_id_finds_device(devices, before);
        let m = lemma_next_rank(flags, before);
        let r: int = rank(flags, i) as int;
        vstd::arithmetic::div_mod::lemma_add_mod_noop_right(1, r + steps - 1, total as int);
        m
    }
}

/// Stepping through the rotation reaches every selectable device, from any of them, in fewer
/// steps than there are selectable devices.
pub proof fn law_rotation_reaches_all(devices: Seq<DeviceModel>, i: int, j: int) -> (steps: nat)
    requires
        ids_unique(devices),
        0 <= i < devices.len(),
        0 <= j < devices.len(),
        devices[i].selectable,
        devices[j].selectable,
    ensures
        steps < selectable_count(devices),
        stepped(devices, devices[i].id, steps) == devices[j].id,
{
    let flags = selectable(devices);
    let total = selectable_count(devices);
    lemma_rank_monotone(flags, i + 1, devices.len() as int);
    lemma_rank_monotone(flags, j + 1, devices.len() as int);
    let steps = if rank(flags, i) <= rank(flags, j) {
        (rank(flags, j) - rank(flags, i)) as nat
    } else {
        (rank(flags, j) + total - rank(flags, i)) as nat
    };
    let m = lemma_stepped(devices, i, steps);
    assert((rank(flags, i) + steps) % total == rank(flags, j)) by {
        if rank(flags, i) <= rank(flags, j) {
            vstd::arithmetic::div_mod::lemma_small_mod(rank(flags, j), total);
        } else {
            vstd::arithmetic::div_mod::lemma_small_mod(rank(flags, j), total);
            vstd::arithmetic::div_mod::lemma_mod_add_multiples_vanish(
                rank(flags, j) as int,
                total as int,
            );
        }
    }
    lemma_rank_injective(flags, m, j);
    steps
}

/// As many steps as there are selectable devices lead back to where they began, and fewer (but
/// at least one) do not: on the way each other selectable device is current exactly once.
pub proof fn law_rotation_returns(devices: Seq<DeviceModel>, i: int, steps: nat)
    requires
        ids_unique(devices),
        0 <= i < devices.len(),
        devices[i].selectable,
    ensures
        stepped(devices, devices[i].id, selectable_count(devices)) == devices[i].id,
        0 < steps < selectable_count(devices) ==> stepped(devices, devices[i].id, steps)
            != devices[i].id,
{
    let flags = selectable(devices);
    let total = selectable_count(devices);
    let r = rank(flags, i);
    lemma_rank_monotone(flags, i + 1, devices.len() as int);
    let m = lemma_stepped(devices, i, total);
    vstd::arithmetic::div_mod::lemma_small_mod(r, total);
    vstd::arithmetic::div_mod::lemma_mod_add_multiples_vanish(r as int, total as int);
    lemma_rank_injective(flags, m, i);
    if 0 < steps < total {
        let k = lemma_stepped(devices, i, steps);
        if r + steps < total {
            vstd::arithmetic::div_mod::lemma_small_mod((r + steps) as nat, total);
        } else {
            let rest = (r + steps - total) as nat;
            vstd::arithmetic::div_mod::lemma_small_mod(rest, total);
            vstd::arithmetic::div_mod::lemma_mod_add_multiples_vanish(rest as int, total as int);
        }
        assert(rank(flags, k) != r);
        assert(k != i);
    }
}

/// Whatever device is current, the rotation's first step makes a selectable one current, if
/// there is one at all.
pub proof fn law_first_step_is_selectable(devices: Seq<DeviceModel>, current: Seq<char>)
    requires
        exists|i: int| 0 <= i < devices.len() && (#[trigger] devices[i]).selectable,
    ensures
        exists|n: int|
            0 <= n < devices.len() && (#[trigger] devices[n]).selectable && stepped(
                devices,
                current,
                1,
            ) == devices[n].id,
{
    law_next_is_nearest(devices, current);
    assert(stepped(devices, current, 0) == current);
    let n = next_index(devices, current).unwrap();
    assert(stepped(devices, current, 1) == devices[n].id);
}

/// Steps can be taken in two goes.
pub proof fn law_steps_compose(devices: Seq<DeviceModel>, current: Seq<char>, a: nat, b: nat)
    ensures
        stepped(devices, current, a + b) == stepped(devices, stepped(devices, current, a), b),
    decreases b,
{
    if b > 0 {
        law_steps_compose(devices, current, a, (b - 1) as nat);
        assert((a + b - 1) as nat == a + (b - 1) as nat);
    }
}

/// Where at least one step from any device leads.
proof fn lemma_stepped_from_anywhere(devices: Seq<DeviceModel>, current: Seq<char>, steps: nat) -> (
    m: int)
    requires
        ids_unique(devices),
        exists|i: int| 0 <= i < devices.len() && (#[trigger] devices[i]).selectable,
        steps > 0,
    ensures
        0 <= m < devices.len(),
        devices[m].selectable,
        stepped(devices, current, steps) == devices[m].id,
{
    law_first_step_is_selectable(devices, current);
    let n = choose|n: int|
        0 <= n < devices.len() && (#[trigger] devices[n]).selectable && stepped(
            devices,
            current,
            1,
        ) == devices[n].id;
    law_steps_compose(devices, current, 1, (steps - 1) as nat);
    lemma_stepped(devices, n, (steps - 1) as nat)
}

/// Whatever device is current, known or not, each step of the rotation leads to a selectable
/// device, and as many steps as there are selectable devices lead to each of them exactly once.
pub proof fn law_rotation_from_anywhere(devices: Seq<DeviceModel>, current: Seq<char>)
    requires
        ids_unique(devices),
        exists|i: int| 0 <= i < devices.len() && (#[trigger] devices[i]).selectable,
    ensures
        forall|k: nat|
            k > 0 ==> exists|m: int|
                0 <= m < devices.len() && (#[trigger] devices[m]).selectable && #[trigger] stepped(
                    devices,
                    current,
                    k,
                ) == devices[m].id,
        forall|j: int|
            0 <= j < devices.len() && (#[trigger] devices[j]).selectable ==> exists|k: nat|
                1 <= k <= selectable_count(devices) && #[trigger] stepped(devices, current, k)
                    == devices[j].id,
        forall|k: nat, l: nat|
            1 <= k < l <= selectable_count(devices) ==> #[trigger] stepped(devices, current, k)
                != #[trigger] stepped(devices, current, l),
{
    assert forall|k: nat| k > 0 implies exists|m: int|
        0 <= m < devices.len() && (#[trigger] devices[m]).selectable && #[trigger] stepped(
            devices,
            current,
            k,
        ) == devices[m].id by {
        let m = lemma_stepped_from_anywhere(devices, current, k);
        assert(devices[m].selectable);
    }
    let first = lemma_stepped_from_anywhere(devices, current, 1);
    assert forall|j: int|
        0 <= j < devices.len() && (#[trigger] devices[j]).selectable implies exists|k: nat|
        1 <= k <= selectable_count(devices) && #[trigger] stepped(devices, current, k)
            == devices[j].id by {
        let steps = law_rotation_reaches_all(devices, first, j);
        law_steps_compose(devices, current, 1, steps);
        assert(stepped(devices, current, 1 + steps) == devices[j].id);
    }
    assert forall|k: nat, l: nat| 1 <= k < l <= selectable_count(devices) implies
        #[trigger] stepped(devices, current, k) != #[trigger] stepped(devices, current, l) by {
        let m = lemma_stepped_from_anywhere(devices, current, k);
        law_steps_compose(devices, current, k, (l - k) as nat);
        law_rotation_returns(devices, m, (l - k) as nat);
    }
}

/// Where the rotation goes, from where the current device stands in the list, or from the first
/// device where the current one is not in it: to a selectable device with no selectable one
/// between, going forward and from the end back to the start.
pub proof fn law_next_from_position(devices: Seq<DeviceModel>, current: Seq<char>, at: int)
    requires
        ({
            ||| 0 <= at < devices.len() && devices[at].id == current && forall|j: int|
                0 <= j < at ==> (#[trigger] devices[j]).id != current
            ||| at == 0 && forall|j: int|
                0 <= j < devices.len() ==> (#[trigger] devices[j]).id != current
        }),
    ensures
        next_index(devices, current) is Some <==> exists|j: int|
            0 <= j < devices.len() && (#[trigger] devices[j]).selectable,
        next_index(devices, current) matches Some(n) ==> {
            &&& 0 <= n < devices.len()
            &&& devices[n].selectable
            &&& n > at ==> forall|j: int| at < j < n ==> !(#[trigger] devices[j]).selectable
            &&& n <= at ==> forall|j: int|
                0 <= j < n || at < j < devices.len() ==> !(#[trigger] devices[j]).selectable
        },
{
    law_device_index_is_first(devices, current);
    law_next_is_nearest(devices, current);
    if at < devices.len() && devices[at].id == current {
        assert(current_index(devices, current) == at);
    }
}

/// The rotation goes by the ids and states of the devices alone: lists that agree in these lead
/// to the same position.
pub proof fn law_next_depends_on_ids_and_states(
    devices: Seq<DeviceModel>,
    others: Seq<DeviceModel>,
    current: Seq<char>,
)
    requires
        devices.len() == others.len(),
        forall|i: int|
            0 <= i < devices.len() ==> (#[trigger] devices[i]).id == (#[trigger] others[i]).id
                && devices[i].selectable == others[i].selectable,
    ensures
        next_index(devices, current) == next_index(others, current),
{
    assert(has_id(devices, current) =~= has_id(others, current));
    assert(selectable(devices) =~= selectable(others));
}

/// One step makes the device that the rotation goes to the current one; where it goes to none,
/// the current device stays.
pub proof fn law_step_goes_to_next(devices: Seq<DeviceModel>, current: Seq<char>, steps: nat)
    ensures
        stepped(devices, current, 0) == current,
        ({
            let before = stepped(devices, current, steps);
            let after = stepped(devices, current, steps + 1);
            match next_index(devices, before) {
                Some(n) => after == devices[n].id,
                None => after == before,
            }
        }),
{
}

/// The number of selectable devices is that of the devices left when all others are taken out.
pub proof fn law_selectable_count(devices: Seq<DeviceModel>)
    ensures
        selectable_count(devices) == devices.filter(|d: DeviceModel| d.selectable).len(),
    decreases devices.len(),
{
    reveal(Seq::filter);
    if devices.len() > 0 {
        let front = devices.drop_last();
        law_selectable_count(front);
        lemma_rank_prefix(selectable(front), selectable(devices), front.len() as int);
    }
}

proof fn lemma_rank_prefix(front: Seq<bool>, flags: Seq<bool>, i: int)
    requires
        0 <= i <= front.len() <= flags.len(),
        forall|k: int| 0 <= k < front.len() ==> front[k] == flags[k],
    ensures
        rank(front, i) == rank(flags, i),
    decreases i,
{
    if i > 0 {
        lemma_rank_prefix(front, flags, i - 1);
    }
}

} // verus!
