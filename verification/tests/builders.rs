use std::rc::Rc;

use bob::nullable::NullableBuilder;
use bob::raw::{RawBuilder, RawSlot};
use bob::slots::{Record, Shown};
use bob::typestate::Marker;

#[derive(Debug, PartialEq)]
enum BuildError {
    CatastrophicFailure,
}

fn check_secret(record: Record<String>) -> Result<Record<String>, BuildError> {
    if record.required[0] == "00000000" {
        Ok(record)
    } else {
        Err(BuildError::CatastrophicFailure)
    }
}

fn shown<'a, V>(inspection: &'a [Shown<'a, V>]) -> Vec<Option<&'a V>> {
    inspection
        .iter()
        .map(|slot| match slot {
            Shown::Present(value) => Some(*value),
            Shown::NotYetSet => None,
        })
        .collect()
}

#[test]
fn nullable_two_required_values_and_no_optional_one() {
    let builder = NullableBuilder::<i64>::new(2, 1);
    let builder = builder.set_required(0, 777).set_required(1, -666);
    assert!(builder.is_complete());
    let record = builder.build();
    assert_eq!(record.required, vec![777, -666]);
    assert_eq!(record.optional, vec![None]);
}

#[test]
fn raw_two_required_values_and_no_optional_one() {
    let builder = RawBuilder::<i64>::new(2, 1);
    let builder = builder.set_required(0, 777).set_required(1, -666);
    assert!(builder.is_complete());
    let record = builder.build();
    assert_eq!(record.required, vec![777, -666]);
    assert_eq!(record.optional, vec![None]);
}

#[test]
fn nullable_fields_can_be_given_in_any_order() {
    let builder = NullableBuilder::<&str>::new(2, 2);
    assert!(!builder.is_complete());
    let builder = builder.set_optional(1, "d").set_required(1, "b");
    assert!(!builder.is_complete());
    let builder = builder.set_required(0, "a");
    assert!(builder.is_complete());
    let builder = builder.set_optional(1, "e");
    let record = builder.build();
    assert_eq!(record.required, vec!["a", "b"]);
    assert_eq!(record.optional, vec![None, Some("e")]);
}

#[test]
fn raw_fields_can_be_given_in_any_order() {
    let builder = RawBuilder::<&str>::new(2, 2);
    assert!(!builder.is_complete());
    let builder = builder.set_optional(1, "d").set_required(1, "b");
    assert!(!builder.is_complete());
    let builder = builder.set_required(0, "a");
    assert!(builder.is_complete());
    let builder = builder.set_optional(1, "e");
    let record = builder.build();
    assert_eq!(record.required, vec!["a", "b"]);
    assert_eq!(record.optional, vec![None, Some("e")]);
}

#[test]
fn nullable_markers_follow_the_setters() {
    let builder = NullableBuilder::<u8>::new(3, 0);
    assert_eq!(builder.markers(), vec![Marker::Unset; 3]);
    let builder = builder.set_required(2, 1);
    assert_eq!(builder.markers(), vec![Marker::Unset, Marker::Unset, Marker::Given]);
    assert!(builder.can_set(0));
    assert!(builder.can_set(1));
    assert!(!builder.can_set(2));
    assert!(!builder.can_set(3));
}

#[test]
fn raw_markers_follow_the_setters() {
    let builder = RawBuilder::<u8>::new(3, 0);
    assert!(builder.is_occupied());
    assert_eq!(builder.markers(), vec![Marker::Unset; 3]);
    let builder = builder.set_required(2, 1);
    assert_eq!(builder.markers(), vec![Marker::Unset, Marker::Unset, Marker::Given]);
    assert!(builder.can_set(0));
    assert!(builder.can_set(1));
    assert!(!builder.can_set(2));
    assert!(!builder.can_set(3));
}

#[test]
fn a_record_without_required_fields_can_be_made_at_once() {
    assert!(NullableBuilder::<u8>::new(0, 1).is_complete());
    assert!(RawBuilder::<u8>::new(0, 1).is_complete());
    let record = RawBuilder::<u8>::new(0, 1).build();
    assert_eq!(record.required, Vec::<u8>::new());
    assert_eq!(record.optional, vec![None]);
    let record = NullableBuilder::<u8>::new(0, 0).build();
    assert_eq!(record.required, Vec::<u8>::new());
    assert_eq!(record.optional, Vec::<Option<u8>>::new());
}

#[test]
fn nullable_copies_go_their_own_ways() {
    let builder = NullableBuilder::<String>::new(2, 1).set_required(0, "a".to_owned());
    let copy = builder.duplicate();
    assert_eq!(copy.markers(), builder.markers());
    let builder = builder.set_required(1, "mine".to_owned());
    let copy = copy.set_required(1, "yours".to_owned()).set_optional(0, "more".to_owned());
    let record = builder.build();
    let other = copy.build();
    assert_eq!(record.required, vec!["a", "mine"]);
    assert_eq!(record.optional, vec![None]);
    assert_eq!(other.required, vec!["a", "yours"]);
    assert_eq!(other.optional, vec![Some("more".to_owned())]);
}

#[test]
fn raw_copies_go_their_own_ways() {
    let builder = RawBuilder::<String>::new(2, 1).set_required(0, "a".to_owned());
    let copy = builder.duplicate();
    assert_eq!(copy.markers(), builder.markers());
    let builder = builder.set_required(1, "mine".to_owned());
    let copy = copy.set_required(1, "yours".to_owned()).set_optional(0, "more".to_owned());
    let record = builder.build();
    let other = copy.build();
    assert_eq!(record.required, vec!["a", "mine"]);
    assert_eq!(record.optional, vec![None]);
    assert_eq!(other.required, vec!["a", "yours"]);
    assert_eq!(other.optional, vec![Some("more".to_owned())]);
}

#[test]
fn nullable_a_new_builder_shows_nothing() {
    let builder = NullableBuilder::<String>::new(2, 2);
    let inspection = builder.inspect();
    assert_eq!(shown(&inspection.required), vec![None, None]);
    assert!(inspection.required.iter().all(|slot| matches!(slot, Shown::NotYetSet)));
    assert_eq!(inspection.optional, vec![None, None]);
}

#[test]
fn raw_a_new_builder_shows_nothing() {
    let builder = RawBuilder::<String>::new(2, 2);
    let inspection = builder.inspect();
    assert_eq!(shown(&inspection.required), vec![None, None]);
    assert!(inspection.required.iter().all(|slot| matches!(slot, Shown::NotYetSet)));
    assert_eq!(inspection.optional, vec![None, None]);
}

#[test]
fn an_inspection_shows_what_was_given() {
    let builder = RawBuilder::<u32>::new(2, 2).set_required(1, 5).set_optional(0, 6);
    let inspection = builder.inspect();
    assert_eq!(shown(&inspection.required), vec![None, Some(&5)]);
    assert_eq!(inspection.optional, vec![Some(&6), None]);
    let builder = NullableBuilder::<u32>::new(2, 2).set_required(1, 5).set_optional(0, 6);
    let inspection = builder.inspect();
    assert_eq!(shown(&inspection.required), vec![None, Some(&5)]);
    assert_eq!(inspection.optional, vec![Some(&6), None]);
}

#[test]
fn nullable_a_builder_that_is_given_up_releases_what_it_was_given() {
    let counted = Rc::new(());
    let builder = NullableBuilder::<Rc<()>>::new(3, 2)
        .set_required(1, counted.clone())
        .set_optional(0, counted.clone());
    assert_eq!(Rc::strong_count(&counted), 3);
    let released = builder.discard();
    assert_eq!(released.len(), 2);
    assert_eq!(Rc::strong_count(&counted), 3);
    drop(released);
    assert_eq!(Rc::strong_count(&counted), 1);
}

#[test]
fn raw_a_builder_that_is_given_up_releases_what_it_was_given() {
    let counted = Rc::new(());
    let mut builder = RawBuilder::<Rc<()>>::new(3, 2)
        .set_required(1, counted.clone())
        .set_optional(0, counted.clone());
    assert_eq!(Rc::strong_count(&counted), 3);
    let released = builder.discard();
    assert_eq!(released.len(), 2);
    assert!(!builder.is_occupied());
    assert_eq!(builder.markers(), vec![Marker::Unset, Marker::Given, Marker::Unset]);
    drop(released);
    assert_eq!(Rc::strong_count(&counted), 1);
    assert_eq!(builder.discard().len(), 0);
    assert!(!builder.can_set(0));
    assert!(!builder.is_complete());
    drop(builder);
    assert_eq!(Rc::strong_count(&counted), 1);
}

#[test]
fn what_is_released_comes_in_the_order_of_the_slots() {
    let mut builder = RawBuilder::<u8>::new(3, 2)
        .set_optional(1, 5)
        .set_required(2, 3)
        .set_required(0, 1)
        .set_optional(0, 4);
    assert_eq!(builder.discard(), vec![1, 3, 4, 5]);
    let builder = NullableBuilder::<u8>::new(3, 2)
        .set_optional(1, 5)
        .set_required(2, 3)
        .set_required(0, 1)
        .set_optional(0, 4);
    assert_eq!(builder.discard(), vec![1, 3, 4, 5]);
}

#[test]
fn a_new_builder_releases_nothing() {
    assert_eq!(RawBuilder::<u8>::new(4, 4).discard(), Vec::<u8>::new());
    assert_eq!(NullableBuilder::<u8>::new(4, 4).discard(), Vec::<u8>::new());
}

#[test]
fn making_the_record_releases_nothing() {
    let counted = Rc::new(());
    let record = RawBuilder::<Rc<()>>::new(1, 1).set_required(0, counted.clone()).build();
    assert_eq!(Rc::strong_count(&counted), 2);
    drop(record);
    assert_eq!(Rc::strong_count(&counted), 1);
}

#[test]
fn nullable_the_validator_decides() {
    let builder = NullableBuilder::<String>::new(1, 0).set_required(0, "password".to_owned());
    assert_eq!(builder.build_with(check_secret).err(), Some(BuildError::CatastrophicFailure));
    let builder = NullableBuilder::<String>::new(1, 0).set_required(0, "00000000".to_owned());
    let record = builder.build_with(check_secret).unwrap();
    assert_eq!(record.required, vec!["00000000"]);
}

#[test]
fn raw_the_validator_decides() {
    let builder = RawBuilder::<String>::new(1, 0).set_required(0, "password".to_owned());
    assert_eq!(builder.build_with(check_secret).err(), Some(BuildError::CatastrophicFailure));
    let builder = RawBuilder::<String>::new(1, 0).set_required(0, "00000000".to_owned());
    let record = builder.build_with(check_secret).unwrap();
    assert_eq!(record.required, vec!["00000000"]);
}

#[test]
fn the_validator_is_called_once() {
    let mut calls = 0;
    let record = RawBuilder::<u8>::new(1, 0).set_required(0, 9).build_with(|record| {
        calls += 1;
        record
    });
    assert_eq!(record.required, vec![9]);
    assert_eq!(calls, 1);
    let mut calls = 0;
    let record = NullableBuilder::<u8>::new(1, 0).set_required(0, 9).build_with(|record| {
        calls += 1;
        record
    });
    assert_eq!(record.required, vec![9]);
    assert_eq!(calls, 1);
}

#[test]
fn a_marker_decides_what_is_done_with_a_slot() {
    let written = RawSlot::written(7u8);
    let vacant = RawSlot::<u8>::vacant();
    assert!(matches!(Marker::Given.present_or_placeholder(&written), Shown::Present(&7)));
    assert!(matches!(Marker::Unset.present_or_placeholder(&vacant), Shown::NotYetSet));
    assert!(matches!(Marker::Unset.present_or_placeholder(&written), Shown::NotYetSet));
    let copy = Marker::Given.duplicate_or_fabricate(&written);
    assert_eq!(Marker::Given.release_or_suppress(copy), Some(7));
    let made = Marker::Unset.duplicate_or_fabricate(&vacant);
    assert_eq!(Marker::Unset.release_or_suppress(made), None);
    assert_eq!(Marker::Given.release_or_suppress(written), Some(7));
    assert_eq!(Marker::Unset.release_or_suppress(vacant), None);
}
