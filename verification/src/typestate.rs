//! Type states: one marker for each required field, and for each generated
//! method the markers that it asks of the builder it is called on and the
//! markers of the builder that it returns.

use vstd::prelude::*;

verus! {

/// Whether a required field has been given its value.
#[derive(Clone, Copy, Debug, PartialEq, Eq, Structural)]
pub enum Marker {
    /// Not yet: the slot of the field holds nothing that may be looked at.
    Unset,
    /// The field has been given: it is set, once and for all.
    Given,
}

/// What the type of a method says of one marker.
#[derive(Clone, Copy, Debug, PartialEq, Eq, Structural)]
pub enum MarkerArg {
    /// The field must not have been given, or is not given.
    Unset,
    /// The field must have been given, or is given now.
    Given,
    /// A parameter of the method's own: the method takes the marker as it
    /// finds it and leaves it as it is.
    Free,
}

impl MarkerArg {
    /// Whether a builder with this marker can be the receiver.
    pub open spec fn admits(self, marker: Marker) -> bool {
        match self {
            MarkerArg::Unset => marker == Marker::Unset,
            MarkerArg::Given => marker == Marker::Given,
            MarkerArg::Free => true,
        }
    }

    /// The marker of the result, where the receiver had `marker`.
    pub open spec fn applied(self, marker: Marker) -> Marker {
        match self {
            MarkerArg::Unset => Marker::Unset,
            MarkerArg::Given => Marker::Given,
            MarkerArg::Free => marker,
        }
    }
}

/// Whether a method defined on the builder type with the arguments `pattern`
/// exists on a builder in the state `state`.
pub open spec fn admits(pattern: Seq<MarkerArg>, state: Seq<Marker>) -> bool {
    &&& pattern.len() == state.len()
    &&& forall|k: int| 0 <= k < pattern.len() ==> (#[trigger] pattern[k]).admits(state[k])
}

/// The state of the builder that a method returns whose result type has the
/// arguments `pattern`, called on a builder in the state `state`.
pub open spec fn applied(pattern: Seq<MarkerArg>, state: Seq<Marker>) -> Seq<Marker> {
    Seq::new(state.len(), |k: int| pattern[k].applied(state[k]))
}

/// `len` markers that are all `arg`.
pub open spec fn uniform(len: nat, arg: MarkerArg) -> Seq<MarkerArg> {
    Seq::new(len, |k: int| arg)
}

/// The state in which nothing has been given.
pub open spec fn initial(required: nat) -> Seq<Marker> {
    Seq::new(required, |k: int| Marker::Unset)
}

/// Whether every required field has been given.
pub open spec fn complete(state: Seq<Marker>) -> bool {
    forall|k: int| 0 <= k < state.len() ==> #[trigger] state[k] == Marker::Given
}

fn uniform_markers(required: usize, arg: MarkerArg) -> (markers: Vec<MarkerArg>)
    ensures
        markers@ == uniform(required as nat, arg),
{
    let mut markers: Vec<MarkerArg> = Vec::new();
    let mut i: usize = 0;
    while i < required
        invariant
            i <= required,
            markers@ == uniform(i as nat, arg),
        decreases required - i,
    {
        markers.push(arg);
        proof {
            assert(markers@ =~= uniform((i + 1) as nat, arg));
        }
        i += 1;
    }
    markers
}

/// The markers of the builder that the constructor returns: nothing has been
/// given yet.
pub fn start_markers(required: usize) -> (markers: Vec<MarkerArg>)
    ensures
        markers@ == uniform(required as nat, MarkerArg::Unset),
        applied(markers@, initial(required as nat)) == initial(required as nat),
{
    let markers = uniform_markers(required, MarkerArg::Unset);
    proof {
        assert(applied(markers@, initial(required as nat)) =~= initial(required as nat));
    }
    markers
}

/// The markers of the only builder type that has the finalizer: everything
/// has been given.
pub fn end_markers(required: usize) -> (markers: Vec<MarkerArg>)
    ensures
        markers@ == uniform(required as nat, MarkerArg::Given),
        forall|state: Seq<Marker>|
            state.len() == required ==> (#[trigger] admits(markers@, state) <==> complete(state)),
{
    let markers = uniform_markers(required, MarkerArg::Given);
    proof {
        assert forall|state: Seq<Marker>| state.len() == required implies (#[trigger] admits(
            markers@,
            state,
        ) <==> complete(state)) by {
            if complete(state) {
                assert forall|k: int| 0 <= k < markers@.len() implies (#[trigger] markers@[k]).admits(
                    state[k],
                ) by {
                    assert(state[k] == Marker::Given);
                }
            }
            if admits(markers@, state) {
                assert forall|k: int| 0 <= k < state.len() implies #[trigger] state[k]
                    == Marker::Given by {
                    assert(markers@[k].admits(state[k]));
                }
            }
        }
    }
    markers
}

/// The markers of a method that every builder has, whatever has been given:
/// the setter of an optional field, the copy, the inspection.
pub fn open_markers(required: usize) -> (markers: Vec<MarkerArg>)
    ensures
        markers@ == uniform(required as nat, MarkerArg::Free),
        forall|state: Seq<Marker>|
            state.len() == required ==> #[trigger] admits(markers@, state) && applied(
                markers@,
                state,
            ) == state,
{
    let markers = uniform_markers(required, MarkerArg::Free);
    proof {
        assert forall|state: Seq<Marker>| state.len() == required implies #[trigger] admits(
            markers@,
            state,
        ) && applied(markers@, state) == state by {
            assert(applied(markers@, state) =~= state);
        }
    }
    markers
}

/// The markers of the setter of the required field in `slot`: those of the
/// builder it is called on, and those of the builder it returns. It asks
/// that its own field has not been given, says that it is given afterwards,
/// and leaves every other marker open.
pub fn setter_markers(required: usize, slot: usize) -> (markers: (Vec<MarkerArg>, Vec<MarkerArg>))
    requires
        slot < required,
    ensures
        markers.0@ == uniform(required as nat, MarkerArg::Free).update(
            slot as int,
            MarkerArg::Unset,
        ),
        markers.1@ == uniform(required as nat, MarkerArg::Free).update(slot as int, MarkerArg::Given),
        markers.0@ == Call::Required(slot as nat).receiver(required as nat),
        markers.1@ == Call::Required(slot as nat).result(required as nat),
{
    let mut before = uniform_markers(required, MarkerArg::Free);
    let mut after = uniform_markers(required, MarkerArg::Free);
    before.set(slot, MarkerArg::Unset);
    after.set(slot, MarkerArg::Given);
    (before, after)
}

/// The markers that the setter of the required field in `slot` leaves open,
/// by their places: all but its own.
pub fn other_markers(required: usize, slot: usize) -> (others: Vec<usize>)
    requires
        slot < required,
    ensures
        others@.len() == required - 1,
        forall|k: int| 0 <= k < slot ==> others@[k] == k,
        forall|k: int| slot <= k < required - 1 ==> others@[k] == k + 1,
{
    let mut others: Vec<usize> = Vec::new();
    let mut i: usize = 0;
    while i < required
        invariant
            i <= required,
            slot < required,
            others@.len() == if i <= slot {
                i as int
            } else {
                i - 1
            },
            forall|k: int| 0 <= k < slot && k < i ==> others@[k] == k,
            forall|k: int| slot <= k < i - 1 ==> others@[k] == k + 1,
        decreases required - i,
    {
        if i != slot {
            others.push(i);
        }
        i += 1;
    }
    others
}

/// Whether the builder in the state `state` has the method whose receiver
/// has the markers `pattern`.
pub fn has_method(pattern: &Vec<MarkerArg>, state: &Vec<Marker>) -> (admitted: bool)
    ensures
        admitted == admits(pattern@, state@),
{
    if pattern.len() != state.len() {
        return false;
    }
    let mut i: usize = 0;
    while i < pattern.len()
        invariant
            i <= pattern.len(),
            pattern.len() == state.len(),
            forall|k: int| 0 <= k < i ==> (#[trigger] pattern@[k]).admits(state@[k]),
        decreases pattern.len() - i,
    {
        let fits = match pattern[i] {
            MarkerArg::Unset => state[i] == Marker::Unset,
            MarkerArg::Given => state[i] == Marker::Given,
            MarkerArg::Free => true,
        };
        if !fits {
            assert(!pattern@[i as int].admits(state@[i as int]));
            return false;
        }
        i += 1;
    }
    true
}

/// The state of the builder that a method returns whose result has the
/// markers `pattern`.
pub fn result_state(pattern: &Vec<MarkerArg>, state: &Vec<Marker>) -> (next: Vec<Marker>)
    requires
        pattern@.len() == state@.len(),
    ensures
        next@ == applied(pattern@, state@),
{
    let mut next: Vec<Marker> = Vec::new();
    let mut i: usize = 0;
    while i < state.len()
        invariant
            i <= state.len(),
            pattern@.len() == state@.len(),
            next@.len() == i,
            forall|k: int| 0 <= k < i ==> next@[k] == (#[trigger] pattern@[k]).applied(state@[k]),
        decreases state.len() - i,
    {
        let marker = match pattern[i] {
            MarkerArg::Unset => Marker::Unset,
            MarkerArg::Given => Marker::Given,
            MarkerArg::Free => state[i],
        };
        next.push(marker);
        i += 1;
    }
    proof {
        assert(next@ =~= applied(pattern@, state@));
    }
    next
}

/// A call of a setter.
pub enum Call {
    /// The setter of the required field in the given slot.
    Required(nat),
    /// The setter of an optional field.
    Optional(nat),
}

impl Call {
    /// The markers that the setter asks of the builder it is called on.
    pub open spec fn receiver(self, required: nat) -> Seq<MarkerArg> {
        match self {
            Call::Required(slot) => uniform(required, MarkerArg::Free).update(
                slot as int,
                MarkerArg::Unset,
            ),
            Call::Optional(_) => uniform(required, MarkerArg::Free),
        }
    }

    /// The markers of the builder that the setter returns.
    pub open spec fn result(self, required: nat) -> Seq<MarkerArg> {
        match self {
            Call::Required(slot) => uniform(required, MarkerArg::Free).update(
                slot as int,
                MarkerArg::Given,
            ),
            Call::Optional(_) => uniform(required, MarkerArg::Free),
        }
    }

    /// Whether the builder has such a setter at all.
    pub open spec fn exists_for(self, required: nat) -> bool {
        match self {
            Call::Required(slot) => slot < required,
            Call::Optional(_) => true,
        }
    }
}

/// The state after one call, or nothing where the builder in `state` has
/// no such method.
pub open spec fn after(required: nat, state: Seq<Marker>, call: Call) -> Option<Seq<Marker>> {
    if call.exists_for(required) && admits(call.receiver(required), state) {
        Some(applied(call.result(required), state))
    } else {
        None
    }
}

/// The state after a chain of calls on a new builder, or nothing where one
/// of the calls is not possible.
pub open spec fn run(required: nat, calls: Seq<Call>) -> Option<Seq<Marker>>
    decreases calls.len(),
{
    if calls.len() == 0 {
        Some(initial(required))
    } else {
        match run(required, calls.drop_last()) {
            Some(state) => after(required, state, calls.last()),
            None => None,
        }
    }
}

/// The setter of a required field exists exactly on the builders that have
/// not been given the field, and what it returns differs from its receiver
/// in that one marker only.
pub proof fn law_setter_flips_one_marker(required: nat, state: Seq<Marker>, slot: nat)
    requires
        state.len() == required,
        slot < required,
    ensures
        after(required, state, Call::Required(slot)) == if state[slot as int] == Marker::Unset {
            Some(state.update(slot as int, Marker::Given))
        } else {
            None
        },
{
    let call = Call::Required(slot);
    let pattern = call.receiver(required);
    if state[slot as int] == Marker::Unset {
        assert(admits(pattern, state));
        assert(applied(call.result(required), state) =~= state.update(slot as int, Marker::Given));
    } else {
        assert(!pattern[slot as int].admits(state[slot as int]));
    }
}

/// The setter of an optional field exists on every builder and changes no
/// marker.
pub proof fn law_optional_setter_is_always_there(required: nat, state: Seq<Marker>, slot: nat)
    requires
        state.len() == required,
    ensures
        after(required, state, Call::Optional(slot)) == Some(state),
{
    let call = Call::Optional(slot);
    assert(admits(call.receiver(required), state));
    assert(applied(call.result(required), state) =~= state);
}

/// After any chain of calls that is possible, the markers say which required
/// fields have been given: a marker is set exactly if the setter of its field
/// is among the calls.
pub proof fn law_markers_record_calls(required: nat, calls: Seq<Call>)
    requires
        run(required, calls) is Some,
    ensures
        run(required, calls).unwrap().len() == required,
        forall|slot: nat|
            slot < required ==> (run(required, calls).unwrap()[slot as int] == Marker::Given
                <==> #[trigger] calls.contains(Call::Required(slot))),
    decreases calls.len(),
{
    let state = run(required, calls).unwrap();
    if calls.len() == 0 {
        assert forall|slot: nat| slot < required implies (state[slot as int] == Marker::Given
            <==> #[trigger] calls.contains(Call::Required(slot))) by {}
    } else {
        let before = calls.drop_last();
        let last = calls.last();
        law_markers_record_calls(required, before);
        let earlier = run(required, before).unwrap();
        assert forall|slot: nat| slot < required implies (state[slot as int] == Marker::Given
            <==> #[trigger] calls.contains(Call::Required(slot))) by {
            let wanted = Call::Required(slot);
            assert(before.contains(wanted) ==> calls.contains(wanted)) by {
                if before.contains(wanted) {
                    let k = choose|k: int| 0 <= k < before.len() && before[k] == wanted;
                    assert(calls[k] == wanted);
                }
            }
            assert(calls.contains(wanted) ==> before.contains(wanted) || last == wanted) by {
                if calls.contains(wanted) {
                    let k = choose|k: int| 0 <= k < calls.len() && calls[k] == wanted;
                    if k < before.len() {
                        assert(before[k] == wanted);
                    }
                }
            }
            if last == wanted {
                assert(calls[calls.len() - 1] == wanted);
            }
            match last {
                Call::Required(set) => {
                    law_setter_flips_one_marker(required, earlier, set);
                },
                Call::Optional(set) => {
                    law_optional_setter_is_always_there(required, earlier, set);
                },
            }
        }
        match last {
            Call::Required(set) => {
                law_setter_flips_one_marker(required, earlier, set);
            },
            Call::Optional(set) => {
                law_optional_setter_is_always_there(required, earlier, set);
            },
        }
    }
}

/// The finalizer is reached exactly when every required field has been
/// given: after a chain of calls the builder has it if and only if the
/// setter of each required field is among the calls, in whatever order they
/// were made.
pub proof fn law_finalizer_needs_every_required_field(required: nat, calls: Seq<Call>)
    requires
        run(required, calls) is Some,
    ensures
        admits(uniform(required, MarkerArg::Given), run(required, calls).unwrap()) <==> forall|
            slot: nat,
        |
            slot < required ==> #[trigger] calls.contains(Call::Required(slot)),
{
    law_markers_record_calls(required, calls);
    let state = run(required, calls).unwrap();
    let pattern = uniform(required, MarkerArg::Given);
    if admits(pattern, state) {
        assert forall|slot: nat| slot < required implies #[trigger] calls.contains(
            Call::Required(slot),
        ) by {
            assert(pattern[slot as int].admits(state[slot as int]));
        }
    }
    if forall|slot: nat| slot < required ==> #[trigger] calls.contains(Call::Required(slot)) {
        assert forall|k: int| 0 <= k < pattern.len() implies (#[trigger] pattern[k]).admits(
            state[k],
        ) by {
            assert(calls.contains(Call::Required(k as nat)));
        }
    }
}

/// No required field can be given twice: once the setter of a field is among
/// the calls, the builder has that setter no more.
pub proof fn law_no_second_value(required: nat, calls: Seq<Call>, slot: nat)
    requires
        run(required, calls) is Some,
        calls.contains(Call::Required(slot)),
    ensures
        run(required, calls.push(Call::Required(slot))) is None,
{
    let longer = calls.push(Call::Required(slot));
    assert(longer.drop_last() =~= calls);
    law_markers_record_calls(required, calls);
    if slot < required {
        law_setter_flips_one_marker(required, run(required, calls).unwrap(), slot);
    }
}

/// The setters of two different required fields can be called in either
/// order, with the same outcome.
pub proof fn law_setters_commute(required: nat, state: Seq<Marker>, first: nat, second: nat)
    requires
        state.len() == required,
        first < required,
        second < required,
        first != second,
    ensures
        ({
            let one = after(required, state, Call::Required(first));
            let other = after(required, state, Call::Required(second));
            &&& one is Some && other is Some <==> state[first as int] == Marker::Unset
                && state[second as int] == Marker::Unset
            &&& one is Some && other is Some ==> after(
                required,
                one.unwrap(),
                Call::Required(second),
            ) == after(required, other.unwrap(), Call::Required(first)) && after(
                required,
                one.unwrap(),
                Call::Required(second),
            ) == Some(
                state.update(first as int, Marker::Given).update(second as int, Marker::Given),
            )
        }),
{
    law_setter_flips_one_marker(required, state, first);
    law_setter_flips_one_marker(required, state, second);
    if state[first as int] == Marker::Unset && state[second as int] == Marker::Unset {
        let one = state.update(first as int, Marker::Given);
        let other = state.update(second as int, Marker::Given);
        law_setter_flips_one_marker(required, one, second);
        law_setter_flips_one_marker(required, other, first);
        assert(one.update(second as int, Marker::Given) =~= other.update(first as int, Marker::Given));
    }
}

/// Whether a chain of calls keeps to the rules: every setter in it is one
/// that the builder has, and no setter of a required field occurs twice.
pub open spec fn well_chained(required: nat, calls: Seq<Call>) -> bool {
    &&& forall|k: int| 0 <= k < calls.len() ==> (#[trigger] calls[k]).exists_for(required)
    &&& forall|j: int, k: int|
        0 <= j < k < calls.len() && (#[trigger] calls[k]) is Required ==> (#[trigger] calls[j])
            != calls[k]
}

/// The chains of calls that are possible are exactly those that keep to the
/// rules: the types rule out a second value for a required field, and
/// nothing else.
pub proof fn law_possible_chains(required: nat, calls: Seq<Call>)
    ensures
        run(required, calls) is Some <==> well_chained(required, calls),
    decreases calls.len(),
{
    if calls.len() > 0 {
        let before = calls.drop_last();
        let last = calls.last();
        law_possible_chains(required, before);
        if run(required, calls) is Some {
            let state = run(required, before).unwrap();
            law_markers_record_calls(required, before);
            assert forall|k: int| 0 <= k < calls.len() implies (#[trigger] calls[k]).exists_for(
                required,
            ) by {
                if k < before.len() {
                    assert(before[k].exists_for(required));
                }
            }
            assert forall|j: int, k: int|
                0 <= j < k < calls.len() && (#[trigger] calls[k]) is Required implies (
            #[trigger] calls[j]) != calls[k] by {
                if k < before.len() {
                    assert(before[j] != before[k]);
                } else {
                    let slot = last->Required_0;
                    law_setter_flips_one_marker(required, state, slot);
                    if calls[j] == last {
                        assert(before[j] == last);
                        assert(before.contains(Call::Required(slot)));
                    }
                }
            }
        }
        if well_chained(required, calls) {
            assert forall|k: int| 0 <= k < before.len() implies (#[trigger] before[k]).exists_for(
                required,
            ) by {
                assert(calls[k].exists_for(required));
            }
            assert forall|j: int, k: int|
                0 <= j < k < before.len() && (#[trigger] before[k]) is Required implies (
            #[trigger] before[j]) != before[k] by {
                assert(calls[j] != calls[k]);
            }
            assert(well_chained(required, before));
            let state = run(required, before).unwrap();
            law_markers_record_calls(required, before);
            assert(last.exists_for(required));
            match last {
                Call::Required(slot) => {
                    law_setter_flips_one_marker(required, state, slot);
                    if before.contains(last) {
                        let j = choose|j: int| 0 <= j < before.len() && before[j] == last;
                        assert(calls[j] != calls[calls.len() - 1]);
                    }
                },
                Call::Optional(slot) => {
                    law_optional_setter_is_always_there(required, state, slot);
                },
            }
        }
    }
}

/// The order of the calls does not matter: two chains that are possible and
/// give the same required fields end in the same state.
pub proof fn law_order_does_not_matter(required: nat, one: Seq<Call>, other: Seq<Call>)
    requires
        run(required, one) is Some,
        run(required, other) is Some,
        forall|slot: nat|
            slot < required ==> (#[trigger] one.contains(Call::Required(slot))
                <==> other.contains(Call::Required(slot))),
    ensures
        run(required, one) == run(required, other),
{
    law_markers_record_calls(required, one);
    law_markers_record_calls(required, other);
    let left = run(required, one).unwrap();
    let right = run(required, other).unwrap();
    assert forall|k: int| 0 <= k < required implies left[k] == right[k] by {
        let slot = k as nat;
        assert(one.contains(Call::Required(slot)) <==> other.contains(Call::Required(slot)));
        assert(left[slot as int] == Marker::Given <==> one.contains(Call::Required(slot)));
        assert(right[slot as int] == Marker::Given <==> other.contains(Call::Required(slot)));
    }
    assert(left =~= right);
}

/// Without required fields the finalizer is there from the start.
pub proof fn law_nothing_required()
    ensures
        admits(uniform(0, MarkerArg::Given), initial(0)),
        complete(initial(0)),
{
}

} // verus!
