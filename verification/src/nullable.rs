//! Builders that keep every field in a slot that may be empty. The slot of a
//! required field is emptied at the end, where the type state guarantees that
//! it is filled.

use vstd::prelude::*;
use crate::slots::{
    copy_of, lemma_copy_keeps_markers, present, Inspection, Record, Shown, Slots,
};
use crate::typestate::Marker;

verus! {

/// A builder whose required fields live in slots that may be empty.
pub struct NullableBuilder<V> {
    required: Vec<Option<V>>,
    optional: Vec<Option<V>>,
}

impl<V> View for NullableBuilder<V> {
    type V = Slots<V>;

    closed spec fn view(&self) -> Slots<V> {
        Slots { required: self.required@, optional: self.optional@ }
    }
}

/// `len` empty slots.
fn empty_slots<V>(len: usize) -> (slots: Vec<Option<V>>)
    ensures
        slots@ == Seq::new(len as nat, |k: int| None::<V>),
{
    let mut slots: Vec<Option<V>> = Vec::new();
    let mut i: usize = 0;
    while i < len
        invariant
            i <= len,
            slots@ == Seq::new(i as nat, |k: int| None::<V>),
        decreases len - i,
    {
        slots.push(None);
        proof {
            assert(slots@ =~= Seq::new((i + 1) as nat, |k: int| None::<V>));
        }
        i += 1;
    }
    slots
}

/// A copy of each slot.
fn copy_slots<V: Clone>(slots: &Vec<Option<V>>) -> (copy: Vec<Option<V>>)
    ensures
        copy_of(slots@, copy@),
{
    let mut copy: Vec<Option<V>> = Vec::new();
    let mut i: usize = 0;
    while i < slots.len()
        invariant
            i <= slots.len(),
            copy@.len() == i,
            forall|k: int|
                0 <= k < i ==> match (#[trigger] slots@[k], copy@[k]) {
                    (Some(a), Some(b)) => cloned(a, b),
                    (None, None) => true,
                    _ => false,
                },
        decreases slots.len() - i,
    {
        let slot = match &slots[i] {
            Some(value) => Some(value.clone()),
            None => None,
        };
        copy.push(slot);
        i += 1;
    }
    copy
}

/// A view of each slot.
fn show_slots<'a, V>(slots: &'a Vec<Option<V>>) -> (shown: Vec<Option<&'a V>>)
    ensures
        shown@.len() == slots@.len(),
        forall|k: int|
            0 <= k < slots@.len() ==> match (#[trigger] shown@[k]) {
                Some(value) => slots@[k] == Some(*value),
                None => slots@[k] is None,
            },
{
    let mut shown: Vec<Option<&'a V>> = Vec::new();
    let mut i: usize = 0;
    while i < slots.len()
        invariant
            i <= slots.len(),
            shown@.len() == i,
            forall|k: int|
                0 <= k < i ==> match (#[trigger] shown@[k]) {
                    Some(value) => slots@[k] == Some(*value),
                    None => slots@[k] is None,
                },
        decreases slots.len() - i,
    {
        shown.push(slots[i].as_ref());
        i += 1;
    }
    shown
}

/// Moves the values that the slots hold to the end of `out`.
fn release_slots<V>(slots: Vec<Option<V>>, out: &mut Vec<V>)
    ensures
        final(out)@ == old(out)@ + present(slots@),
{
    let ghost before = out@;
    let ghost all = slots@;
    proof {
        assert(all.take(0) =~= Seq::<Option<V>>::empty());
        assert(before + present(all.take(0)) =~= before);
    }
    for slot in it: slots
        invariant
            it.seq() == all,
            out@ == before + present(all.take(it.index() as int)),
    {
        proof {
            let i = it.index() as int;
            assert(all.take(i + 1).drop_last() =~= all.take(i));
            assert(all.take(i + 1).last() == slot);
        }
        match slot {
            Some(value) => {
                out.push(value);
                proof {
                    let i = it.index() as int;
                    assert(out@ =~= before + present(all.take(i + 1)));
                }
            },
            None => {},
        }
    }
    proof {
        assert(all.take(all.len() as int) =~= all);
    }
}

impl<V> NullableBuilder<V> {
    /// A builder for a record with the given numbers of required and of
    /// optional fields; nothing has been given yet.
    pub fn new(required: usize, optional: usize) -> (builder: Self)
        ensures
            builder@ == Slots::<V>::fresh(required as nat, optional as nat),
    {
        NullableBuilder { required: empty_slots(required), optional: empty_slots(optional) }
    }

    /// The type state of the builder.
    pub fn markers(&self) -> (markers: Vec<Marker>)
        ensures
            markers@ == self@.markers(),
    {
        let mut markers: Vec<Marker> = Vec::new();
        let mut i: usize = 0;
        while i < self.required.len()
            invariant
                i <= self.required.len(),
                markers@.len() == i,
                forall|k: int| 0 <= k < i ==> markers@[k] == self@.markers()[k],
            decreases self.required.len() - i,
        {
            markers.push(
                if self.required[i].is_some() {
                    Marker::Given
                } else {
                    Marker::Unset
                },
            );
            i += 1;
        }
        proof {
            assert(markers@ =~= self@.markers());
        }
        markers
    }

    /// Whether the setter of the required field in `slot` can be called:
    /// whether there is such a field and it has not been given.
    pub fn can_set(&self, slot: usize) -> (possible: bool)
        ensures
            possible == (slot < self@.required.len() && self@.required[slot as int] is None),
    {
        slot < self.required.len() && self.required[slot].is_none()
    }

    /// Whether the finalizer can be called: whether every required field has
    /// been given.
    pub fn is_complete(&self) -> (complete: bool)
        ensures
            complete == self@.complete(),
    {
        let mut i: usize = 0;
        while i < self.required.len()
            invariant
                i <= self.required.len(),
                forall|k: int| 0 <= k < i ==> #[trigger] self@.required[k] is Some,
            decreases self.required.len() - i,
        {
            if self.required[i].is_none() {
                return false;
            }
            i += 1;
        }
        true
    }

    /// Gives the required field in `slot` its value. The field must not have
    /// been given before: no field is set twice.
    pub fn set_required(self, slot: usize, value: V) -> (builder: Self)
        requires
            slot < self@.required.len(),
            self@.required[slot as int] is None,
        ensures
            builder@ == self@.with_required(slot as int, value),
    {
        let mut builder = self;
        builder.required.set(slot, Some(value));
        builder
    }

    /// Gives the optional field in `slot` a value, in place of the one it
    /// may have had.
    pub fn set_optional(self, slot: usize, value: V) -> (builder: Self)
        requires
            slot < self@.optional.len(),
        ensures
            builder@ == self@.with_optional(slot as int, value),
    {
        let mut builder = self;
        builder.optional.set(slot, Some(value));
        builder
    }

    /// Shows what has been given, and the fixed mark for each required field
    /// that has not.
    pub fn inspect(&self) -> (inspection: Inspection<'_, V>)
        ensures
            inspection.shows(self@),
    {
        let mut required: Vec<Shown<'_, V>> = Vec::new();
        let mut i: usize = 0;
        while i < self.required.len()
            invariant
                i <= self.required.len(),
                required@.len() == i,
                forall|k: int| 0 <= k < i ==> (#[trigger] required@[k]).shows(self@.required[k]),
            decreases self.required.len() - i,
        {
            let shown = match &self.required[i] {
                Some(value) => Shown::Present(value),
                None => Shown::NotYetSet,
            };
            required.push(shown);
            i += 1;
        }
        Inspection { required, optional: show_slots(&self.optional) }
    }

    /// Gives the builder up and hands out what it held: exactly the values
    /// that were given, those of the required fields first.
    pub fn discard(self) -> (released: Vec<V>)
        ensures
            released@ == self@.held(),
    {
        let mut released: Vec<V> = Vec::new();
        release_slots(self.required, &mut released);
        release_slots(self.optional, &mut released);
        released
    }

    /// Makes the record. Every required field must have been given; where
    /// an optional field was not, the record holds nothing for it.
    pub fn build(self) -> (record: Record<V>)
        requires
            self@.complete(),
        ensures
            record.made_of(self@),
    {
        let mut required: Vec<V> = Vec::new();
        let ghost slots = self.required@;
        for slot in it: self.required
            invariant
                it.seq() == slots,
                forall|k: int| 0 <= k < slots.len() ==> #[trigger] slots[k] is Some,
                required@.len() == it.index(),
                forall|k: int| 0 <= k < it.index() ==> slots[k] == Some(required@[k]),
        {
            assert(slots[it.index() as int] is Some);
            required.push(slot.unwrap());
        }
        proof {
            assert(required@ =~= self@.required_values());
        }
        Record { required, optional: self.optional }
    }

    /// Makes the record and hands it to the validator, once, and returns
    /// what the validator returns.
    pub fn build_with<R, F: FnOnce(Record<V>) -> R>(self, validator: F) -> (result: R)
        requires
            self@.complete(),
            forall|record: Record<V>|
                record.made_of(self@) ==> call_requires(validator, (record,)),
        ensures
            exists|record: Record<V>|
                record.made_of(self@) && call_ensures(validator, (record,), result),
    {
        let record = self.build();
        validator(record)
    }
}

impl<V: Clone> NullableBuilder<V> {
    /// A second builder that holds a copy of everything that this one has
    /// been given; the two have nothing in common afterwards.
    pub fn duplicate(&self) -> (copy: Self)
        ensures
            copy_of(self@.required, copy@.required),
            copy_of(self@.optional, copy@.optional),
            copy@.markers() == self@.markers(),
    {
        let copy = NullableBuilder {
            required: copy_slots(&self.required),
            optional: copy_slots(&self.optional),
        };
        proof {
            lemma_copy_keeps_markers(self@.required, copy@.required);
            assert(copy@.markers() =~= self@.markers());
        }
        copy
    }
}

} // verus!
