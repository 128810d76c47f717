//! Builders that keep required fields in raw slots: storage that is written
//! once and that nothing looks at before. What is done with a slot is chosen
//! by the marker of its field, so that a slot that was never written is
//! never read, copied or released. The slots sit in a payload that is either
//! occupied or emptied, and are only ever taken out by emptying it first.

use vstd::prelude::*;
use crate::slots::{
    copy_of, lemma_copy_keeps_markers, present, Inspection, Record, Shown, Slots,
};
use crate::typestate::Marker;

verus! {

/// The storage of one required field.
pub struct RawSlot<V> {
    cell: Option<V>,
}

impl<V> RawSlot<V> {
    /// What the slot holds.
    pub closed spec fn content(self) -> Option<V> {
        self.cell
    }

    /// A slot that has not been written.
    pub fn vacant() -> (slot: Self)
        ensures
            slot.content() is None,
    {
        RawSlot { cell: None }
    }

    /// A slot that has been written.
    pub fn written(value: V) -> (slot: Self)
        ensures
            slot.content() == Some(value),
    {
        RawSlot { cell: Some(value) }
    }
}

impl Marker {
    /// A copy of a slot: a real copy of its value where the field has been
    /// given, and a slot that stands for nothing where it has not, made
    /// without a look at the storage.
    pub fn duplicate_or_fabricate<V: Clone>(self, slot: &RawSlot<V>) -> (copy: RawSlot<V>)
        requires
            self == Marker::Given ==> slot.content() is Some,
        ensures
            match self {
                Marker::Given => copy.content() is Some && cloned(
                    slot.content()->0,
                    copy.content()->0,
                ),
                Marker::Unset => copy.content() is None,
            },
    {
        match self {
            Marker::Given => RawSlot { cell: Some(slot.cell.as_ref().unwrap().clone()) },
            Marker::Unset => RawSlot { cell: None },
        }
    }

    /// Releases a slot: hands out its value where the field has been given,
    /// and does nothing at all where it has not.
    pub fn release_or_suppress<V>(self, slot: RawSlot<V>) -> (released: Option<V>)
        requires
            (self == Marker::Given) == (slot.content() is Some),
        ensures
            released == slot.content(),
            released is Some <==> self == Marker::Given,
    {
        match self {
            Marker::Given => Some(slot.cell.unwrap()),
            Marker::Unset => None,
        }
    }

    /// What a slot shows: its value where the field has been given, and the
    /// fixed mark where it has not, made without a look at the storage.
    pub fn present_or_placeholder<'a, V>(self, slot: &'a RawSlot<V>) -> (shown: Shown<'a, V>)
        requires
            self == Marker::Given ==> slot.content() is Some,
        ensures
            match self {
                Marker::Given => shown == Shown::Present(&slot.content()->0),
                Marker::Unset => shown is NotYetSet,
            },
    {
        match self {
            Marker::Given => Shown::Present(slot.cell.as_ref().unwrap()),
            Marker::Unset => Shown::NotYetSet,
        }
    }
}

/// What a builder holds of its fields.
enum Payload<V> {
    /// The slots.
    Occupied { required: Vec<RawSlot<V>>, optional: Vec<Option<V>> },
    /// Nothing: the slots have been taken out.
    Emptied,
}

/// The content of a list of raw slots.
spec fn contents<V>(slots: Seq<RawSlot<V>>) -> Seq<Option<V>> {
    Seq::new(slots.len(), |k: int| slots[k].content())
}

/// A builder whose required fields live in raw slots.
pub struct RawBuilder<V> {
    markers: Vec<Marker>,
    payload: Payload<V>,
}

impl<V> View for RawBuilder<V> {
    type V = Slots<V>;

    /// What the builder holds; a builder whose payload is emptied holds
    /// nothing.
    closed spec fn view(&self) -> Slots<V> {
        match self.payload {
            Payload::Occupied { required, optional } => Slots {
                required: contents(required@),
                optional: optional@,
            },
            Payload::Emptied => Slots { required: Seq::empty(), optional: Seq::empty() },
        }
    }
}

impl<V> RawBuilder<V> {
    /// The markers say of each slot whether it has been written.
    #[verifier::type_invariant]
    spec fn markers_tell_the_truth(self) -> bool {
        match self.payload {
            Payload::Occupied { required, optional } => {
                &&& required@.len() == self.markers@.len()
                &&& forall|k: int|
                    0 <= k < required@.len() ==> ((#[trigger] self.markers@[k]) == Marker::Given)
                        == (required@[k].content() is Some)
            },
            Payload::Emptied => true,
        }
    }

    /// Whether the payload is still there.
    pub closed spec fn occupied(self) -> bool {
        self.payload is Occupied
    }

    /// The markers that the builder was given: its type state.
    pub closed spec fn type_state(self) -> Seq<Marker> {
        self.markers@
    }

    /// A builder for a record with the given numbers of required and of
    /// optional fields. The slots of the required fields are there, and none
    /// of them has been written.
    pub fn new(required: usize, optional: usize) -> (builder: Self)
        ensures
            builder.occupied(),
            builder@ == Slots::<V>::fresh(required as nat, optional as nat),
    {
        let mut markers: Vec<Marker> = Vec::new();
        let mut slots: Vec<RawSlot<V>> = Vec::new();
        let mut i: usize = 0;
        while i < required
            invariant
                i <= required,
                markers@.len() == i,
                slots@.len() == i,
                forall|k: int| 0 <= k < i ==> markers@[k] == Marker::Unset,
                forall|k: int| 0 <= k < i ==> (#[trigger] slots@[k]).content() is None,
            decreases required - i,
        {
            markers.push(Marker::Unset);
            slots.push(RawSlot::vacant());
            i += 1;
        }
        let mut others: Vec<Option<V>> = Vec::new();
        let mut j: usize = 0;
        while j < optional
            invariant
                j <= optional,
                others@.len() == j,
                forall|k: int| 0 <= k < j ==> others@[k] is None,
            decreases optional - j,
        {
            others.push(None);
            j += 1;
        }
        let builder = RawBuilder {
            markers,
            payload: Payload::Occupied { required: slots, optional: others },
        };
        proof {
            assert(builder@.required =~= Slots::<V>::fresh(
                required as nat,
                optional as nat,
            ).required);
            assert(builder@.optional =~= Slots::<V>::fresh(
                required as nat,
                optional as nat,
            ).optional);
        }
        builder
    }

    /// Whether the payload is still there.
    pub fn is_occupied(&self) -> (occupied: bool)
        ensures
            occupied == self.occupied(),
    {
        match &self.payload {
            Payload::Occupied { .. } => true,
            Payload::Emptied => false,
        }
    }

    /// The type state of the builder. As long as the payload is there, it
    /// is the type state of the content.
    pub fn markers(&self) -> (markers: Vec<Marker>)
        ensures
            markers@ == self.type_state(),
            self.occupied() ==> markers@ == self@.markers(),
    {
        proof {
            use_type_invariant(self);
            if self.occupied() {
                assert(self.type_state() =~= self@.markers());
            }
        }
        let mut markers: Vec<Marker> = Vec::new();
        let mut i: usize = 0;
        while i < self.markers.len()
            invariant
                i <= self.markers.len(),
                markers@.len() == i,
                forall|k: int| 0 <= k < i ==> markers@[k] == self.markers@[k],
            decreases self.markers.len() - i,
        {
            markers.push(self.markers[i]);
            i += 1;
        }
        proof {
            assert(markers@ =~= self.markers@);
        }
        markers
    }

    /// Whether the setter of the required field in `slot` can be called:
    /// whether the payload is there, there is such a field and it has not
    /// been given.
    pub fn can_set(&self, slot: usize) -> (possible: bool)
        ensures
            possible == (self.occupied() && slot < self@.required.len()
                && self@.required[slot as int] is None),
    {
        proof {
            use_type_invariant(self);
        }
        match &self.payload {
            Payload::Occupied { required, .. } => slot < self.markers.len() && self.markers[slot]
                == Marker::Unset,
            Payload::Emptied => false,
        }
    }

    /// Whether the finalizer can be called: whether the payload is there
    /// and every required field has been given.
    pub fn is_complete(&self) -> (complete: bool)
        ensures
            complete == (self.occupied() && self@.complete()),
    {
        proof {
            use_type_invariant(self);
        }
        match &self.payload {
            Payload::Occupied { required, .. } => {
                let mut i: usize = 0;
                while i < self.markers.len()
                    invariant
                        i <= self.markers.len(),
                        self.payload is Occupied,
                        self.payload->required == required,
                        required@.len() == self.markers@.len(),
                        forall|k: int|
                            0 <= k < required@.len() ==> ((#[trigger] self.markers@[k])
                                == Marker::Given) == (required@[k].content() is Some),
                        forall|k: int| 0 <= k < i ==> #[trigger] self@.required[k] is Some,
                    decreases self.markers.len() - i,
                {
                    if self.markers[i] == Marker::Unset {
                        assert(self@.required[i as int] is None);
                        return false;
                    }
                    i += 1;
                }
                true
            },
            Payload::Emptied => false,
        }
    }

    /// Gives the required field in `slot` its value: writes its slot, which
    /// has not been written before, and moves everything else over as it is.
    pub fn set_required(self, slot: usize, value: V) -> (builder: Self)
        requires
            self.occupied(),
            slot < self@.required.len(),
            self@.required[slot as int] is None,
        ensures
            builder.occupied(),
            builder@ == self@.with_required(slot as int, value),
    {
        proof {
            use_type_invariant(&self);
        }
        let RawBuilder { markers, payload } = self;
        let mut markers = markers;
        match payload {
            Payload::Occupied { required, optional } => {
                let mut required = required;
                let ghost before = required@;
                required.set(slot, RawSlot::written(value));
                markers.set(slot, Marker::Given);
                let builder = RawBuilder {
                    markers,
                    payload: Payload::Occupied { required, optional },
                };
                proof {
                    assert(builder@.required =~= contents(before).update(
                        slot as int,
                        Some(value),
                    ));
                }
                builder
            },
            Payload::Emptied => unreached(),
        }
    }

    /// Gives the optional field in `slot` a value, in place of the one it
    /// may have had.
    pub fn set_optional(self, slot: usize, value: V) -> (builder: Self)
        requires
            self.occupied(),
            slot < self@.optional.len(),
        ensures
            builder.occupied(),
            builder@ == self@.with_optional(slot as int, value),
    {
        proof {
            use_type_invariant(&self);
        }
        let RawBuilder { markers, payload } = self;
        match payload {
            Payload::Occupied { required, optional } => {
                let mut optional = optional;
                optional.set(slot, Some(value));
                RawBuilder { markers, payload: Payload::Occupied { required, optional } }
            },
            Payload::Emptied => unreached(),
        }
    }

    /// Shows what has been given, and the fixed mark for each required field
    /// that has not: the marker of a field decides whether its slot is
    /// looked at.
    pub fn inspect(&self) -> (inspection: Inspection<'_, V>)
        requires
            self.occupied(),
        ensures
            inspection.shows(self@),
    {
        proof {
            use_type_invariant(self);
        }
        match &self.payload {
            Payload::Occupied { required, optional } => {
                let mut shown: Vec<Shown<'_, V>> = Vec::new();
                let mut i: usize = 0;
                while i < required.len()
                    invariant
                        i <= required.len(),
                        required@.len() == self.markers@.len(),
                        forall|k: int|
                            0 <= k < required@.len() ==> ((#[trigger] self.markers@[k])
                                == Marker::Given) == (required@[k].content() is Some),
                        shown@.len() == i,
                        forall|k: int|
                            0 <= k < i ==> (#[trigger] shown@[k]).shows(required@[k].content()),
                    decreases required.len() - i,
                {
                    shown.push(self.markers[i].present_or_placeholder(&required[i]));
                    i += 1;
                }
                let mut others: Vec<Option<&V>> = Vec::new();
                let mut j: usize = 0;
                while j < optional.len()
                    invariant
                        j <= optional.len(),
                        others@.len() == j,
                        forall|k: int|
                            0 <= k < j ==> match (#[trigger] others@[k]) {
                                Some(value) => optional@[k] == Some(*value),
                                None => optional@[k] is None,
                            },
                    decreases optional.len() - j,
                {
                    others.push(optional[j].as_ref());
                    j += 1;
                }
                Inspection { required: shown, optional: others }
            },
            Payload::Emptied => unreached(),
        }
    }

    /// Takes the payload out and leaves the builder emptied.
    fn take_payload(&mut self) -> (payload: Payload<V>)
        ensures
            payload == old(self).payload,
            final(self).payload is Emptied,
            final(self).markers == old(self).markers,
    {
        let mut payload = Payload::Emptied;
        std::mem::swap(&mut payload, &mut self.payload);
        payload
    }

    /// Releases what the builder holds and leaves it emptied. The payload is
    /// emptied first; then, if it was there, each slot is released by its
    /// marker: the values that were given are handed out and the slots that
    /// were never written are left alone. A builder that is emptied already
    /// releases nothing.
    pub fn discard(&mut self) -> (released: Vec<V>)
        ensures
            released@ == old(self)@.held(),
            !final(self).occupied(),
            final(self)@ == (Slots::<V> { required: Seq::empty(), optional: Seq::empty() }),
            final(self).type_state() == old(self).type_state(),
    {
        proof {
            use_type_invariant(&*self);
        }
        let ghost markers = self.markers@;
        let payload = self.take_payload();
        let mut released: Vec<V> = Vec::new();
        match payload {
            Payload::Occupied { required, optional } => {
                let ghost slots = required@;
                let mut i: usize = 0;
                proof {
                    assert(contents(slots).take(0) =~= Seq::<Option<V>>::empty());
                }
                for slot in it: required
                    invariant
                        it.seq() == slots,
                        i == it.index(),
                        self.markers@ == markers,
                        slots.len() == markers.len(),
                        forall|k: int|
                            0 <= k < slots.len() ==> ((#[trigger] markers[k]) == Marker::Given) == (
                            slots[k].content() is Some),
                        released@ == present(contents(slots).take(i as int)),
                {
                    proof {
                        assert(contents(slots).take(i + 1).drop_last() =~= contents(slots).take(
                            i as int,
                        ));
                    }
                    match self.markers[i].release_or_suppress(slot) {
                        Some(value) => {
                            released.push(value);
                        },
                        None => {},
                    }
                    assert(i < self.markers.len());
                    i += 1;
                }
                proof {
                    assert(contents(slots).take(i as int) =~= contents(slots));
                }
                let ghost first = released@;
                let ghost given = optional@;
                proof {
                    assert(given.take(0) =~= Seq::<Option<V>>::empty());
                    assert(first + present(given.take(0)) =~= first);
                }
                for slot in it: optional
                    invariant
                        it.seq() == given,
                        released@ == first + present(given.take(it.index() as int)),
                {
                    proof {
                        let i = it.index() as int;
                        assert(given.take(i + 1).drop_last() =~= given.take(i));
                    }
                    match slot {
                        Some(value) => {
                            released.push(value);
                            proof {
                                let i = it.index() as int;
                                assert(released@ =~= first + present(given.take(i + 1)));
                            }
                        },
                        None => {},
                    }
                }
                proof {
                    assert(given.take(given.len() as int) =~= given);
                }
            },
            Payload::Emptied => {
                proof {
                    assert(old(self)@.held() =~= Seq::<V>::empty());
                }
            },
        }
        released
    }

    /// Makes the record. Every required field must have been given. The
    /// payload is emptied first and the values are taken out of what it was;
    /// what is left of the builder has nothing more to release.
    pub fn build(self) -> (record: Record<V>)
        requires
            self.occupied(),
            self@.complete(),
        ensures
            record.made_of(self@),
    {
        proof {
            use_type_invariant(&self);
        }
        let mut husk = self;
        let payload = husk.take_payload();
        match payload {
            Payload::Occupied { required, optional } => {
                let ghost slots = required@;
                let mut values: Vec<V> = Vec::new();
                let mut i: usize = 0;
                for slot in it: required
                    invariant
                        it.seq() == slots,
                        i == it.index(),
                        husk.markers@ == self.markers@,
                        slots.len() == husk.markers@.len(),
                        forall|k: int|
                            0 <= k < slots.len() ==> ((#[trigger] husk.markers@[k])
                                == Marker::Given) == (slots[k].content() is Some),
                        forall|k: int| 0 <= k < slots.len() ==> #[trigger] self@.required[k] is Some,
                        self@.required == contents(slots),
                        values@.len() == i,
                        forall|k: int| 0 <= k < i ==> slots[k].content() == Some(values@[k]),
                {
                    assert(self@.required[i as int] is Some);
                    let value = husk.markers[i].release_or_suppress(slot);
                    values.push(value.unwrap());
                    assert(i < husk.markers.len());
                    i += 1;
                }
                let rest = husk.discard();
                assert(rest@.len() == 0);
                proof {
                    assert(values@ =~= self@.required_values());
                }
                Record { required: values, optional }
            },
            Payload::Emptied => unreached(),
        }
    }

    /// Makes the record and hands it to the validator, once, and returns
    /// what the validator returns.
    pub fn build_with<R, F: FnOnce(Record<V>) -> R>(self, validator: F) -> (result: R)
        requires
            self.occupied(),
            self@.complete(),
            forall|record: Record<V>|
                record.made_of(self@) ==> call_requires(validator, (record,)),
        ensures
            exists|record: Record<V>|
                record.made_of(self@) && call_ensures(validator, (record,), result),
    {
        let record = self.build();
        validator(record)
    }
}

impl<V: Clone> RawBuilder<V> {
    /// A second builder that holds a copy of everything that this one has
    /// been given: the marker of a field decides whether its slot is copied
    /// or a slot that stands for nothing is made in its place.
    pub fn duplicate(&self) -> (copy: Self)
        requires
            self.occupied(),
        ensures
            copy.occupied(),
            copy_of(self@.required, copy@.required),
            copy_of(self@.optional, copy@.optional),
            copy@.markers() == self@.markers(),
    {
        proof {
            use_type_invariant(self);
        }
        match &self.payload {
            Payload::Occupied { required, optional } => {
                let mut markers: Vec<Marker> = Vec::new();
                let mut slots: Vec<RawSlot<V>> = Vec::new();
                let mut i: usize = 0;
                while i < required.len()
                    invariant
                        i <= required.len(),
                        required@.len() == self.markers@.len(),
                        forall|k: int|
                            0 <= k < required@.len() ==> ((#[trigger] self.markers@[k])
                                == Marker::Given) == (required@[k].content() is Some),
                        markers@.len() == i,
                        slots@.len() == i,
                        forall|k: int| 0 <= k < i ==> markers@[k] == self.markers@[k],
                        forall|k: int|
                            0 <= k < i ==> match (
                                (#[trigger] required@[k]).content(),
                                slots@[k].content(),
                            ) {
                                (Some(a), Some(b)) => cloned(a, b),
                                (None, None) => true,
                                _ => false,
                            },
                    decreases required.len() - i,
                {
                    let marker = self.markers[i];
                    slots.push(marker.duplicate_or_fabricate(&required[i]));
                    markers.push(marker);
                    i += 1;
                }
                let mut others: Vec<Option<V>> = Vec::new();
                let mut j: usize = 0;
                while j < optional.len()
                    invariant
                        j <= optional.len(),
                        others@.len() == j,
                        forall|k: int|
                            0 <= k < j ==> match (#[trigger] optional@[k], others@[k]) {
                                (Some(a), Some(b)) => cloned(a, b),
                                (None, None) => true,
                                _ => false,
                            },
                    decreases optional.len() - j,
                {
                    let slot = match &optional[j] {
                        Some(value) => Some(value.clone()),
                        None => None,
                    };
                    others.push(slot);
                    j += 1;
                }
                let copy = RawBuilder {
                    markers,
                    payload: Payload::Occupied { required: slots, optional: others },
                };
                proof {
                    assert forall|k: int| 0 <= k < self@.required.len() implies match (
                        #[trigger] self@.required[k],
                        copy@.required[k],
                    ) {
                        (Some(a), Some(b)) => cloned(a, b),
                        (None, None) => true,
                        _ => false,
                    } by {
                        let pair = (required@[k].content(), slots@[k].content());
                    }
                    lemma_copy_keeps_markers(self@.required, copy@.required);
                    assert(copy@.markers() =~= self@.markers());
                }
                copy
            },
            Payload::Emptied => unreached(),
        }
    }
}

} // verus!
