use trusty_ipc::dice::{
    constraint_on_dice_node, constraints_on_dice_node, expand_wildcard_entry, is_target_node,
    node_pos_from_end, replace_key, size_of_array_in_nested_container, wildcard_position,
    CertIndex, ConstraintSpec, ConstraintType, Error, Found, MissingAction,
    WILDCARD_FULL_ARRAY,
};

fn spec(path: &[i64]) -> ConstraintSpec {
    ConstraintSpec::new(ConstraintType::ExactMatch, path.to_vec(), MissingAction::Fail, CertIndex::All)
}

#[test]
fn wildcard_is_found_at_its_first_position() {
    assert!(matches!(wildcard_position(&[1, 2, 3]), Err(Error::NoWildcard)));
    assert!(matches!(wildcard_position(&[]), Err(Error::NoWildcard)));
    assert!(matches!(wildcard_position(&[WILDCARD_FULL_ARRAY]), Ok(0)));
    assert!(matches!(wildcard_position(&[5, -1, 7, -1]), Ok(1)));
    assert!(spec(&[5, -1]).has_wildcard_entry());
    assert!(!spec(&[5, -2]).has_wildcard_entry());
}

#[test]
fn wildcard_stands_for_every_position_of_the_array() {
    let s = spec(&[10, -1, 20]);
    assert_eq!(s.array_path().unwrap(), vec![10]);
    let list = expand_wildcard_entry(&s, Found::Array(3)).unwrap();
    let paths: Vec<Vec<i64>> = list.iter().map(|c| c.path().clone()).collect();
    assert_eq!(paths, vec![vec![10, 0, 20], vec![10, 1, 20], vec![10, 2, 20]]);
    assert!(expand_wildcard_entry(&s, Found::Array(0)).unwrap().is_empty());
    assert!(matches!(expand_wildcard_entry(&s, Found::Value), Err(Error::ArrayNotFound)));
    assert!(matches!(expand_wildcard_entry(&s, Found::Nothing), Err(Error::ArrayNotFound)));
    assert!(matches!(expand_wildcard_entry(&spec(&[1]), Found::Array(3)), Err(Error::NoWildcard)));
}

#[test]
fn constraint_without_wildcard_stands_for_itself() {
    let s = spec(&[1, 2]);
    let list = s.expand(Found::Nothing).unwrap();
    assert_eq!(list.len(), 1);
    assert_eq!(list[0].path(), &vec![1, 2]);
    let with = spec(&[-1]);
    assert_eq!(with.expand(Found::Array(2)).unwrap().len(), 2);
    assert!(matches!(with.expand(Found::Nothing), Err(Error::ArrayNotFound)));
}

#[test]
fn replace_key_changes_one_key() {
    let s = spec(&[1, 2, 3]);
    assert_eq!(replace_key(&s, 1, 9).path(), &vec![1, 9, 3]);
    assert_eq!(s.path(), &vec![1, 2, 3]);
}

#[test]
fn array_size_is_the_length_of_a_found_array() {
    assert!(matches!(size_of_array_in_nested_container(Found::Array(4)), Ok(4)));
    assert!(matches!(size_of_array_in_nested_container(Found::Value), Err(Error::ArrayNotFound)));
    assert!(matches!(size_of_array_in_nested_container(Found::Nothing), Err(Error::ArrayNotFound)));
}

#[test]
fn constraints_apply_to_their_entries() {
    let all = ConstraintSpec::new(
        ConstraintType::ExactMatch,
        vec![1],
        MissingAction::Fail,
        CertIndex::All,
    );
    let last = ConstraintSpec::new(
        ConstraintType::GreaterOrEqual,
        vec![2],
        MissingAction::Ignore,
        CertIndex::FromEnd(0),
    );
    let second_to_last = ConstraintSpec::new(
        ConstraintType::GreaterOrEqual,
        vec![3],
        MissingAction::Ignore,
        CertIndex::FromEnd(1),
    );
    assert!(is_target_node(0, &all));
    assert!(is_target_node(5, &all));
    assert!(is_target_node(0, &last));
    assert!(!is_target_node(1, &last));
    let specs = [all, last, second_to_last];
    let paths = |pos: usize| -> Vec<Vec<i64>> {
        constraints_on_dice_node(&specs, pos).iter().map(|c| c.path().clone()).collect()
    };
    assert_eq!(paths(0), vec![vec![1], vec![2]]);
    assert_eq!(paths(1), vec![vec![1], vec![3]]);
    assert_eq!(paths(2), vec![vec![1]]);
}

#[test]
fn missing_values_fail_or_are_left_out() {
    let fail = ConstraintSpec::new(
        ConstraintType::GreaterOrEqual,
        vec![4, 5],
        MissingAction::Fail,
        CertIndex::All,
    );
    let ignore = ConstraintSpec::new(
        ConstraintType::ExactMatch,
        vec![6],
        MissingAction::Ignore,
        CertIndex::All,
    );
    match constraint_on_dice_node(true, &fail) {
        Ok(Some(shape)) => {
            assert_eq!(shape.constraint_type, 2);
            assert_eq!(shape.path, vec![4, 5]);
        }
        _ => panic!("no constraint for a value that was found"),
    }
    match constraint_on_dice_node(true, &ignore) {
        Ok(Some(shape)) => {
            assert_eq!(shape.constraint_type, 1);
            assert_eq!(shape.path, vec![6]);
        }
        _ => panic!("no constraint for a value that was found"),
    }
    assert!(matches!(constraint_on_dice_node(false, &ignore), Ok(None)));
    assert!(matches!(constraint_on_dice_node(false, &fail), Err(Error::ValueNotFound(p)) if p == vec![4, 5]));
    assert!(matches!(constraint_on_dice_node(true, &spec(&[])), Err(Error::EmptyPath)));
    assert!(matches!(constraint_on_dice_node(false, &spec(&[])), Err(Error::EmptyPath)));
}

#[test]
fn constraint_types_have_numbers() {
    assert_eq!(ConstraintType::ExactMatch.code(), 1);
    assert_eq!(ConstraintType::GreaterOrEqual.code(), 2);
    assert_eq!(ConstraintType::n(1), Some(ConstraintType::ExactMatch));
    assert_eq!(ConstraintType::n(2), Some(ConstraintType::GreaterOrEqual));
    assert_eq!(ConstraintType::n(0), None);
    assert_eq!(ConstraintType::n(3), None);
}

#[test]
fn entries_are_counted_from_the_end() {
    assert_eq!(node_pos_from_end(3, 0), 2);
    assert_eq!(node_pos_from_end(3, 2), 0);
    assert_eq!(node_pos_from_end(1, 0), 0);
}
