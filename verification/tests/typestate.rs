use bob::typestate::{
    end_markers, has_method, open_markers, other_markers, result_state, setter_markers,
    start_markers, Marker, MarkerArg,
};

fn state_after(calls: &[usize], required: usize) -> Option<Vec<Marker>> {
    let mut state = result_state(&start_markers(required), &vec![Marker::Unset; required]);
    for &slot in calls {
        let (receiver, result) = setter_markers(required, slot);
        if !has_method(&receiver, &state) {
            return None;
        }
        state = result_state(&result, &state);
    }
    Some(state)
}

fn finalizable(state: &Vec<Marker>) -> bool {
    has_method(&end_markers(state.len()), state)
}

#[test]
fn the_constructor_returns_the_builder_with_nothing_given() {
    assert_eq!(start_markers(0), Vec::<MarkerArg>::new());
    assert_eq!(start_markers(3), vec![MarkerArg::Unset; 3]);
    assert_eq!(state_after(&[], 2), Some(vec![Marker::Unset, Marker::Unset]));
}

#[test]
fn the_finalizer_asks_for_everything() {
    assert_eq!(end_markers(2), vec![MarkerArg::Given, MarkerArg::Given]);
    assert!(finalizable(&vec![Marker::Given, Marker::Given]));
    assert!(!finalizable(&vec![Marker::Given, Marker::Unset]));
    assert!(!finalizable(&vec![Marker::Unset, Marker::Given]));
    assert!(!finalizable(&vec![Marker::Unset, Marker::Unset]));
}

#[test]
fn a_setter_flips_its_own_marker() {
    let (receiver, result) = setter_markers(3, 1);
    assert_eq!(receiver, vec![MarkerArg::Free, MarkerArg::Unset, MarkerArg::Free]);
    assert_eq!(result, vec![MarkerArg::Free, MarkerArg::Given, MarkerArg::Free]);
    let state = vec![Marker::Given, Marker::Unset, Marker::Unset];
    assert!(has_method(&receiver, &state));
    assert_eq!(result_state(&result, &state), vec![Marker::Given, Marker::Given, Marker::Unset]);
}

#[test]
fn a_setter_leaves_the_other_markers_open() {
    assert_eq!(other_markers(1, 0), Vec::<usize>::new());
    assert_eq!(other_markers(3, 0), vec![1, 2]);
    assert_eq!(other_markers(3, 1), vec![0, 2]);
    assert_eq!(other_markers(3, 2), vec![0, 1]);
}

#[test]
fn the_finalizer_is_reached_after_both_setters_in_either_order() {
    for calls in [[0, 1], [1, 0]] {
        assert!(!finalizable(&state_after(&[], 2).unwrap()));
        assert!(!finalizable(&state_after(&calls[..1], 2).unwrap()));
        assert!(finalizable(&state_after(&calls, 2).unwrap()));
    }
    assert_eq!(state_after(&[0, 1], 2), state_after(&[1, 0], 2));
}

#[test]
fn no_field_is_set_twice() {
    assert_eq!(state_after(&[0, 0], 2), None);
    assert_eq!(state_after(&[0, 1, 0], 2), None);
    assert_eq!(state_after(&[1, 0, 1], 2), None);
    let (receiver, _) = setter_markers(2, 0);
    assert!(!has_method(&receiver, &vec![Marker::Given, Marker::Unset]));
    assert!(!has_method(&receiver, &vec![Marker::Given, Marker::Given]));
}

#[test]
fn an_optional_setter_is_always_there() {
    let open = open_markers(2);
    assert_eq!(open, vec![MarkerArg::Free, MarkerArg::Free]);
    for state in [
        vec![Marker::Unset, Marker::Unset],
        vec![Marker::Given, Marker::Unset],
        vec![Marker::Unset, Marker::Given],
        vec![Marker::Given, Marker::Given],
    ] {
        assert!(has_method(&open, &state));
        assert_eq!(result_state(&open, &state), state);
    }
}

#[test]
fn without_required_fields_the_finalizer_is_there_at_once() {
    let state = state_after(&[], 0).unwrap();
    assert_eq!(state, Vec::<Marker>::new());
    assert!(finalizable(&state));
}

#[test]
fn a_method_of_another_builder_is_not_there() {
    assert!(!has_method(&end_markers(2), &vec![Marker::Given]));
    assert!(!has_method(&open_markers(1), &vec![]));
}
