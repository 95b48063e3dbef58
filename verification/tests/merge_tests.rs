use trusty_ipc::merge::{
    gen_assignment, gen_assignments, impl_merge, Assignment, Error, Field, FieldAttr, FieldAttrs,
    Member,
};

fn named(name: &str, attrs: Vec<FieldAttr>) -> Field {
    Field::try_from(0, Some(name.to_string()), attrs).unwrap()
}

#[test]
fn attributes_are_parsed_by_name() {
    assert_eq!(FieldAttr::parse("skip", None), Ok(FieldAttr::Skip));
    assert_eq!(FieldAttr::parse("skip", Some("ignored")), Ok(FieldAttr::Skip));
    assert_eq!(
        FieldAttr::parse("strategy", Some("merge::num::saturating_add")),
        Ok(FieldAttr::Strategy("merge::num::saturating_add".to_string()))
    );
    assert_eq!(FieldAttr::parse("strategy", None), Err(Error::MissingStrategy));
    assert_eq!(
        FieldAttr::parse("skipp", None),
        Err(Error::UnexpectedAttribute("skipp".to_string()))
    );
    assert_eq!(FieldAttr::parse("", None), Err(Error::UnexpectedAttribute("".to_string())));
}

#[test]
fn later_attributes_come_on_top_of_earlier_ones() {
    let attrs = FieldAttrs::new(vec![]);
    assert_eq!(attrs, FieldAttrs { skip: false, strategy: None });
    let attrs = FieldAttrs::new(vec![
        FieldAttr::Strategy("a".to_string()),
        FieldAttr::Skip,
        FieldAttr::Strategy("b".to_string()),
    ]);
    assert_eq!(attrs, FieldAttrs { skip: true, strategy: Some("b".to_string()) });
    let mut attrs = FieldAttrs { skip: false, strategy: Some("a".to_string()) };
    attrs.apply(FieldAttr::Skip);
    assert_eq!(attrs, FieldAttrs { skip: true, strategy: Some("a".to_string()) });
}

#[test]
fn fields_are_known_by_name_or_position() {
    assert_eq!(named("x", vec![]).name, Member::Named("x".to_string()));
    assert_eq!(Field::try_from(3, None, vec![]).unwrap().name, Member::Unnamed(3));
}

#[test]
fn fields_are_merged_by_their_strategy_or_their_type() {
    assert_eq!(
        gen_assignment(&named("x", vec![])),
        Assignment::WithMerge { member: Member::Named("x".to_string()) }
    );
    assert_eq!(
        gen_assignment(&named("y", vec![FieldAttr::Strategy("pick".to_string())])),
        Assignment::WithStrategy {
            strategy: "pick".to_string(),
            member: Member::Named("y".to_string())
        }
    );
}

#[test]
fn skipped_fields_take_no_part() {
    let fields = vec![
        named("a", vec![]),
        named("b", vec![FieldAttr::Skip]),
        Field::try_from(2, None, vec![FieldAttr::Strategy("s".to_string())]).unwrap(),
        named("d", vec![FieldAttr::Strategy("t".to_string()), FieldAttr::Skip]),
    ];
    let expected = vec![
        Assignment::WithMerge { member: Member::Named("a".to_string()) },
        Assignment::WithStrategy { strategy: "s".to_string(), member: Member::Unnamed(2) },
    ];
    assert_eq!(gen_assignments(&fields), expected);
    assert_eq!(impl_merge(Some(&fields)), Ok(expected));
    assert_eq!(impl_merge(None), Err(Error::NotAStruct));
    assert_eq!(gen_assignments(&vec![]), vec![]);
}
