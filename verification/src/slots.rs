//! What a builder holds, as a mathematical value, and the record that comes
//! out of it. Both ways of storing the fields are described by it.

use vstd::prelude::*;
use crate::typestate::{
    admits, after, complete, initial, law_optional_setter_is_always_there,
    law_setter_flips_one_marker, uniform, Call, Marker, MarkerArg,
};

verus! {

/// The content of a builder: for each required field and for each optional
/// field, in the order of their slots, the value it has been given, if any.
pub struct Slots<V> {
    pub required: Seq<Option<V>>,
    pub optional: Seq<Option<V>>,
}

/// The values that a list of slots holds, in order.
pub open spec fn present<V>(slots: Seq<Option<V>>) -> Seq<V>
    decreases slots.len(),
{
    if slots.len() == 0 {
        Seq::empty()
    } else {
        match slots.last() {
            Some(value) => present(slots.drop_last()).push(value),
            None => present(slots.drop_last()),
        }
    }
}

/// Whether `copy` is what copying `source` gives: empty where it is empty,
/// and a clone of its value where it holds one.
pub open spec fn copy_of<V: Clone>(source: Seq<Option<V>>, copy: Seq<Option<V>>) -> bool {
    &&& copy.len() == source.len()
    &&& forall|k: int|
        0 <= k < source.len() ==> match (#[trigger] source[k], copy[k]) {
            (Some(a), Some(b)) => cloned(a, b),
            (None, None) => true,
            _ => false,
        }
}

impl<V> Slots<V> {
    /// The content of a new builder: nothing has been given.
    pub open spec fn fresh(required: nat, optional: nat) -> Slots<V> {
        Slots {
            required: Seq::new(required, |k: int| None::<V>),
            optional: Seq::new(optional, |k: int| None::<V>),
        }
    }

    /// The type state: for each required field, whether it has been given.
    pub open spec fn markers(self) -> Seq<Marker> {
        Seq::new(
            self.required.len(),
            |k: int|
                if self.required[k] is Some {
                    Marker::Given
                } else {
                    Marker::Unset
                },
        )
    }

    /// Whether every required field has been given.
    pub open spec fn complete(self) -> bool {
        forall|k: int| 0 <= k < self.required.len() ==> #[trigger] self.required[k] is Some
    }

    /// The content after the required field in `slot` has been given.
    pub open spec fn with_required(self, slot: int, value: V) -> Slots<V> {
        Slots { required: self.required.update(slot, Some(value)), optional: self.optional }
    }

    /// The content after the optional field in `slot` has been given.
    pub open spec fn with_optional(self, slot: int, value: V) -> Slots<V> {
        Slots { required: self.required, optional: self.optional.update(slot, Some(value)) }
    }

    /// All the values that have been given: those of the required fields,
    /// then those of the optional ones.
    pub open spec fn held(self) -> Seq<V> {
        present(self.required) + present(self.optional)
    }

    /// The values of the required fields of a complete builder.
    pub open spec fn required_values(self) -> Seq<V> {
        Seq::new(self.required.len(), |k: int| self.required[k]->0)
    }
}

/// The record that a builder is made for, by slots: the values of its
/// required fields, and those of its optional fields, empty where none was
/// given.
#[derive(Debug, PartialEq, Eq)]
pub struct Record<V> {
    pub required: Vec<V>,
    pub optional: Vec<Option<V>>,
}

impl<V> Record<V> {
    /// Whether this is the record that a builder with the given content
    /// comes to.
    pub open spec fn made_of(self, slots: Slots<V>) -> bool {
        &&& self.required@ == slots.required_values()
        &&& self.optional@ == slots.optional
    }
}

/// What an inspection shows of a required field.
#[derive(Debug)]
pub enum Shown<'a, V> {
    /// The value that the field has been given.
    Present(&'a V),
    /// The fixed mark of a field that has not been given: nothing of its
    /// storage is looked at.
    NotYetSet,
}

/// What an inspection shows of a builder.
#[derive(Debug)]
pub struct Inspection<'a, V> {
    pub required: Vec<Shown<'a, V>>,
    pub optional: Vec<Option<&'a V>>,
}

impl<'a, V> Shown<'a, V> {
    /// Whether this is what a slot with the given content shows.
    pub open spec fn shows(self, slot: Option<V>) -> bool {
        match self {
            Shown::Present(value) => slot == Some(*value),
            Shown::NotYetSet => slot is None,
        }
    }
}

impl<'a, V> Inspection<'a, V> {
    /// Whether this is what a builder with the given content shows.
    pub open spec fn shows(self, slots: Slots<V>) -> bool {
        &&& self.required@.len() == slots.required.len()
        &&& forall|k: int|
            0 <= k < slots.required.len() ==> (#[trigger] self.required@[k]).shows(
                slots.required[k],
            )
        &&& self.optional@.len() == slots.optional.len()
        &&& forall|k: int|
            0 <= k < slots.optional.len() ==> match (#[trigger] self.optional@[k]) {
                Some(value) => slots.optional[k] == Some(*value),
                None => slots.optional[k] is None,
            }
    }
}

/// Before anything has been given, an inspection shows the fixed mark for
/// every required field and nothing for every optional field.
pub proof fn law_new_builder_shows_nothing<V>(
    required: nat,
    optional: nat,
    inspection: Inspection<V>,
)
    requires
        inspection.shows(Slots::<V>::fresh(required, optional)),
    ensures
        inspection.required@.len() == required,
        inspection.optional@.len() == optional,
        forall|k: int| 0 <= k < required ==> #[trigger] inspection.required@[k] is NotYetSet,
        forall|k: int| 0 <= k < optional ==> #[trigger] inspection.optional@[k] is None,
{
    let slots = Slots::<V>::fresh(required, optional);
    assert forall|k: int| 0 <= k < required implies #[trigger] inspection.required@[k] is NotYetSet by {
        assert(inspection.required@[k].shows(slots.required[k]));
    }
    assert forall|k: int| 0 <= k < optional implies #[trigger] inspection.optional@[k] is None by {
        assert(slots.optional[k] is None);
    }
}

/// The markers of a builder follow its content: they start all unset, the
/// setter of a required field sets its own marker and no other, and the
/// setter of an optional field changes none.
pub proof fn law_markers_follow_content<V>(slots: Slots<V>, slot: int, value: V)
    ensures
        Slots::<V>::fresh(slots.required.len(), slots.optional.len()).markers()
            == initial(slots.required.len()),
        0 <= slot < slots.required.len() ==> slots.with_required(slot, value).markers()
            == slots.markers().update(slot, Marker::Given),
        slots.with_optional(slot, value).markers() == slots.markers(),
        slots.complete() <==> complete(slots.markers()),
{
    assert(Slots::<V>::fresh(slots.required.len(), slots.optional.len()).markers()
        =~= initial(slots.required.len()));
    if 0 <= slot < slots.required.len() {
        assert(slots.with_required(slot, value).markers() =~= slots.markers().update(
            slot,
            Marker::Given,
        ));
    }
    assert(slots.with_optional(slot, value).markers() =~= slots.markers());
    if slots.complete() {
        assert forall|k: int| 0 <= k < slots.markers().len() implies #[trigger] slots.markers()[k]
            == Marker::Given by {
            assert(slots.required[k] is Some);
        }
    }
    if complete(slots.markers()) {
        assert forall|k: int| 0 <= k < slots.required.len() implies #[trigger] slots.required[k] is Some by {
            assert(slots.markers()[k] == Marker::Given);
        }
    }
}

/// A copy has a value exactly where its source has one.
pub proof fn lemma_copy_keeps_markers<V: Clone>(source: Seq<Option<V>>, copy: Seq<Option<V>>)
    requires
        copy_of(source, copy),
    ensures
        copy.len() == source.len(),
        forall|k: int| 0 <= k < source.len() ==> (#[trigger] copy[k] is Some) == (source[k] is Some),
{
    assert forall|k: int| 0 <= k < source.len() implies (#[trigger] copy[k] is Some) == (
    source[k] is Some) by {
        let pair = (source[k], copy[k]);
    }
}

/// What the setters do to the content of a builder is what the type states
/// allow: the setter of a required field can be called exactly where the
/// type state has it, which is where its slot is empty, and the type state
/// of the result is the one that the setter's type promises; the finalizer
/// is there exactly where no slot of a required field is empty.
pub proof fn law_builders_follow_the_type_states<V>(slots: Slots<V>, slot: nat, value: V)
    requires
        slot < slots.required.len(),
    ensures
        after(slots.required.len(), slots.markers(), Call::Required(slot)) is Some
            <==> slots.required[slot as int] is None,
        slots.required[slot as int] is None ==> after(
            slots.required.len(),
            slots.markers(),
            Call::Required(slot),
        ) == Some(slots.with_required(slot as int, value).markers()),
        after(slots.required.len(), slots.markers(), Call::Optional(slot)) == Some(
            slots.with_optional(slot as int, value).markers(),
        ),
        admits(uniform(slots.required.len(), MarkerArg::Given), slots.markers())
            <==> slots.complete(),
{
    let required = slots.required.len();
    law_setter_flips_one_marker(required, slots.markers(), slot);
    law_optional_setter_is_always_there(required, slots.markers(), slot);
    law_markers_follow_content(slots, slot as int, value);
    let pattern = uniform(required, MarkerArg::Given);
    if admits(pattern, slots.markers()) {
        assert forall|k: int| 0 <= k < slots.required.len() implies #[trigger] slots.required[k] is Some by {
            assert(pattern[k].admits(slots.markers()[k]));
        }
    }
    if slots.complete() {
        assert forall|k: int| 0 <= k < pattern.len() implies (#[trigger] pattern[k]).admits(
            slots.markers()[k],
        ) by {
            assert(slots.required[k] is Some);
        }
    }
}

/// A builder and its copy go their own ways: giving a required field to
/// each of them, with different values, leaves each with its own value in
/// that slot, while every other slot of the first is as it was and every
/// other slot of the copy is still a copy of it.
pub proof fn law_copies_are_independent<V: Clone>(
    source: Slots<V>,
    copy: Slots<V>,
    slot: int,
    mine: V,
    yours: V,
)
    requires
        copy_of(source.required, copy.required),
        copy_of(source.optional, copy.optional),
        0 <= slot < source.required.len(),
        source.required[slot] is None,
    ensures
        copy.required[slot] is None,
        copy.markers() == source.markers(),
        source.with_required(slot, mine).required[slot] == Some(mine),
        copy.with_required(slot, yours).required[slot] == Some(yours),
        forall|k: int|
            0 <= k < source.required.len() && k != slot ==> #[trigger] source.with_required(
                slot,
                mine,
            ).required[k] == source.required[k],
        copy_of(
            source.required.remove(slot),
            copy.with_required(slot, yours).required.remove(slot),
        ),
        source.with_required(slot, mine).optional == source.optional,
        copy_of(source.optional, copy.with_required(slot, yours).optional),
{
    assert(copy.markers() =~= source.markers()) by {
        assert forall|k: int| 0 <= k < source.required.len() implies copy.markers()[k]
            == source.markers()[k] by {
            let pair = (source.required[k], copy.required[k]);
        }
    }
    let pair = (source.required[slot], copy.required[slot]);
    let left = source.required.remove(slot);
    let right = copy.with_required(slot, yours).required.remove(slot);
    assert forall|k: int| 0 <= k < left.len() implies match (#[trigger] left[k], right[k]) {
        (Some(a), Some(b)) => cloned(a, b),
        (None, None) => true,
        _ => false,
    } by {
        if k < slot {
            let pair = (source.required[k], copy.required[k]);
        } else {
            let pair = (source.required[k + 1], copy.required[k + 1]);
        }
    }
}

/// How many of the slots hold a value.
pub open spec fn filled<V>(slots: Seq<Option<V>>) -> nat
    decreases slots.len(),
{
    if slots.len() == 0 {
        0
    } else {
        filled(slots.drop_last()) + if slots.last() is Some {
            1nat
        } else {
            0nat
        }
    }
}

/// The values that a list of slots holds are as many as its filled slots,
/// and each of them is the value of one such slot.
pub proof fn lemma_present<V>(slots: Seq<Option<V>>)
    ensures
        present(slots).len() == filled(slots),
        forall|value: V|
            #[trigger] present(slots).contains(value) <==> slots.contains(Some(value)),
    decreases slots.len(),
{
    if slots.len() > 0 {
        let before = slots.drop_last();
        lemma_present(before);
        assert forall|value: V| #[trigger]
            present(slots).contains(value) <==> slots.contains(Some(value)) by {
            let wanted = Some(value);
            assert(present(before).contains(value) <==> before.contains(wanted));
            if slots.contains(wanted) {
                let k = choose|k: int| 0 <= k < slots.len() && slots[k] == wanted;
                if k < before.len() {
                    assert(before[k] == wanted);
                    assert(before.contains(wanted));
                    let j = choose|j: int|
                        0 <= j < present(before).len() && present(before)[j] == value;
                    assert(present(slots)[j] == value);
                } else {
                    assert(present(slots)[present(before).len() as int] == value);
                }
            }
            if present(slots).contains(value) {
                let j = choose|j: int| 0 <= j < present(slots).len() && present(slots)[j] == value;
                if j < present(before).len() {
                    assert(present(before)[j] == value);
                    assert(present(before).contains(value));
                    let k = choose|k: int| 0 <= k < before.len() && before[k] == wanted;
                    assert(slots[k] == wanted);
                } else {
                    assert(slots[slots.len() - 1] == wanted);
                }
            }
        }
    }
}

/// A builder that is given up releases exactly what it was given: as many
/// values as slots were filled, each of them the value of a filled slot, and
/// nothing for a slot that was never written. A new builder releases
/// nothing.
pub proof fn law_release_is_exact<V>(slots: Slots<V>)
    ensures
        slots.held().len() == filled(slots.required) + filled(slots.optional),
        forall|value: V|
            #[trigger] slots.held().contains(value) <==> slots.required.contains(Some(value))
                || slots.optional.contains(Some(value)),
        Slots::<V>::fresh(slots.required.len(), slots.optional.len()).held().len() == 0,
{
    lemma_present(slots.required);
    lemma_present(slots.optional);
    let first = present(slots.required);
    let second = present(slots.optional);
    assert forall|value: V| #[trigger]
        slots.held().contains(value) <==> slots.required.contains(Some(value))
            || slots.optional.contains(Some(value)) by {
        if first.contains(value) {
            let j = choose|j: int| 0 <= j < first.len() && first[j] == value;
            assert(slots.held()[j] == value);
        }
        if second.contains(value) {
            let j = choose|j: int| 0 <= j < second.len() && second[j] == value;
            assert(slots.held()[first.len() + j] == value);
        }
        if slots.held().contains(value) {
            let j = choose|j: int| 0 <= j < slots.held().len() && slots.held()[j] == value;
            if j < first.len() {
                assert(first[j] == value);
            } else {
                assert(second[j - first.len()] == value);
            }
        }
    }
    let fresh = Slots::<V>::fresh(slots.required.len(), slots.optional.len());
    lemma_nothing_present(fresh.required);
    lemma_nothing_present(fresh.optional);
}

/// Slots that are all empty hold no value.
pub proof fn lemma_nothing_present<V>(slots: Seq<Option<V>>)
    requires
        forall|k: int| 0 <= k < slots.len() ==> slots[k] is None,
    ensures
        present(slots).len() == 0,
    decreases slots.len(),
{
    if slots.len() > 0 {
        lemma_nothing_present(slots.drop_last());
    }
}

} // verus!
