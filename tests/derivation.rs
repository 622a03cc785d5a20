use propagate::declaration::{
    ensure_unit_or_tuple_struct, get_any_field_input_and_output, has_attribute,
    has_bad_attribute, has_good_attribute, same_flat_types, same_shape, Binding, FieldType,
    Shape, VariantDecl,
};
use propagate::derivation::{
    derive_propagate, Access, Accessor, Constructor, DeriveError, Outcome,
};
use propagate::grouping::{group_variant_ref_by_type, validate_grouped_variants};
use propagate::bool_packing::get_bit_at;

fn ty(text: &str) -> FieldType {
    FieldType { text: text.to_string(), tuple: None }
}

fn tuple_ty(elems: &[&str]) -> FieldType {
    FieldType {
        text: format!("({})", elems.join(", ")),
        tuple: Some(elems.iter().map(|e| e.to_string()).collect()),
    }
}

fn attrs(marks: &[&str]) -> Vec<String> {
    marks.iter().map(|m| m.to_string()).collect()
}

fn unit(marks: &[&str]) -> VariantDecl {
    VariantDecl { attrs: attrs(marks), shape: Shape::Unit }
}

fn fields(marks: &[&str], types: Vec<FieldType>) -> VariantDecl {
    VariantDecl { attrs: attrs(marks), shape: Shape::Unnamed(types) }
}

fn named(marks: &[&str]) -> VariantDecl {
    VariantDecl { attrs: attrs(marks), shape: Shape::Named }
}

#[test]
fn attribute_is_found_by_path() {
    let v = unit(&["doc", "good"]);
    assert!(has_attribute(&v, "good"));
    assert!(!has_attribute(&v, "bad"));
    assert!(has_good_attribute(&v));
    assert!(!has_bad_attribute(&v));
    assert!(has_bad_attribute(&unit(&["bad"])));
    assert!(!has_good_attribute(&unit(&["goods"])));
}

#[test]
fn named_fields_cannot_carry_a_marker() {
    assert!(ensure_unit_or_tuple_struct(&unit(&["good"])));
    assert!(ensure_unit_or_tuple_struct(&fields(&["good"], vec![ty("i32")])));
    assert!(!ensure_unit_or_tuple_struct(&named(&["good"])));
}

#[test]
fn binding_follows_the_shape() {
    assert_eq!(get_any_field_input_and_output(&Shape::Unit), Binding::Unit);
    assert_eq!(get_any_field_input_and_output(&Shape::Unnamed(vec![ty("u8")])), Binding::Single);
    assert_eq!(
        get_any_field_input_and_output(&Shape::Unnamed(vec![ty("u8"), ty("u16"), ty("u32")])),
        Binding::Tuple(3)
    );
    assert_eq!(get_any_field_input_and_output(&Shape::Named), Binding::Named);
}

#[test]
fn shapes_compare_by_field_types() {
    let a = Shape::Unnamed(vec![ty("i32"), ty("i32")]);
    let b = Shape::Unnamed(vec![ty("i32"), ty("i32")]);
    let c = Shape::Unnamed(vec![tuple_ty(&["i32", "i32"])]);
    assert!(same_shape(&a, &b));
    assert!(!same_shape(&a, &c));
    assert!(same_shape(&Shape::Unit, &Shape::Unit));
    assert!(!same_shape(&Shape::Unit, &Shape::Unnamed(vec![])));
    assert!(same_flat_types(&a, &c));
    assert!(same_flat_types(&c, &a));
    assert!(!same_flat_types(&Shape::Unit, &Shape::Unit));
    assert!(!same_flat_types(&Shape::Unnamed(vec![ty("i32")]), &Shape::Unnamed(vec![ty("i32")])));
}

#[test]
fn groups_keep_first_seen_and_declaration_order() {
    let variants = vec![
        fields(&["good"], vec![ty("String")]),
        unit(&["good"]),
        fields(&[], vec![ty("String")]),
        fields(&["good"], vec![ty("u32")]),
        fields(&["good"], vec![ty("String")]),
        unit(&["good"]),
    ];
    let marks: Vec<bool> = variants.iter().map(has_good_attribute).collect();
    let groups = group_variant_ref_by_type(&variants, &marks);
    assert_eq!(groups, vec![vec![0, 4], vec![1, 5], vec![3]]);
}

#[test]
fn grouping_twice_gives_the_same_groups() {
    let variants = vec![
        fields(&["bad"], vec![ty("u8"), ty("u8")]),
        fields(&["bad"], vec![ty("u8")]),
        fields(&["bad"], vec![ty("u8"), ty("u8")]),
        unit(&["bad"]),
        fields(&["bad"], vec![ty("u8")]),
    ];
    let first = derive_propagate(&variants).unwrap();
    let second = derive_propagate(&variants).unwrap();
    assert_eq!(first.bad_groups, second.bad_groups);
    assert_eq!(first.bad_groups, vec![vec![0, 2], vec![1, 4], vec![3]]);
    assert_eq!(first.accessors, second.accessors);
    assert_eq!(first.constructors, second.constructors);
}

#[test]
fn validate_reports_first_conflicting_group() {
    let variants = vec![
        fields(&["good"], vec![ty("u8")]),
        fields(&["good"], vec![ty("i32"), ty("i32")]),
        fields(&["good"], vec![tuple_ty(&["i32", "i32"])]),
    ];
    let groups = vec![vec![0], vec![1], vec![2]];
    assert_eq!(validate_grouped_variants(&variants, &groups), Err((2, 1)));
    assert_eq!(validate_grouped_variants(&variants, &vec![vec![0], vec![1]]), Ok(()));
}

#[test]
fn tuple_field_and_two_fields_are_ambiguous() {
    let both = vec![
        fields(&["good"], vec![ty("i32"), ty("i32")]),
        fields(&["good"], vec![tuple_ty(&["i32", "i32"])]),
    ];
    assert_eq!(
        derive_propagate(&both).unwrap_err(),
        DeriveError::Ambiguous { outcome: Outcome::Good, later: 1, earlier: 0 }
    );
    let fields_only = vec![fields(&["good"], vec![ty("i32"), ty("i32")])];
    assert!(derive_propagate(&fields_only).is_ok());
    let tuple_only = vec![fields(&["good"], vec![tuple_ty(&["i32", "i32"])])];
    assert!(derive_propagate(&tuple_only).is_ok());
}

#[test]
fn ambiguity_in_one_outcome_only_is_allowed_across_outcomes() {
    let variants = vec![
        fields(&["good"], vec![ty("i32"), ty("i32")]),
        fields(&["bad"], vec![tuple_ty(&["i32", "i32"])]),
    ];
    assert!(derive_propagate(&variants).is_ok());
}

#[test]
fn bad_ambiguity_is_reported_before_good() {
    let variants = vec![
        fields(&["good"], vec![ty("u8"), ty("u8")]),
        fields(&["good"], vec![tuple_ty(&["u8", "u8"])]),
        fields(&["bad"], vec![ty("u8"), ty("u8")]),
        fields(&["bad"], vec![tuple_ty(&["u8", "u8"])]),
    ];
    assert_eq!(
        derive_propagate(&variants).unwrap_err(),
        DeriveError::Ambiguous { outcome: Outcome::Bad, later: 3, earlier: 2 }
    );
}

#[test]
fn enum_without_variants_is_refused() {
    assert_eq!(derive_propagate(&[]).unwrap_err(), DeriveError::NoVariants);
}

#[test]
fn marked_named_variant_is_refused() {
    let variants = vec![unit(&["good"]), named(&["bad"]), named(&["good"]), named(&[])];
    assert_eq!(derive_propagate(&variants).unwrap_err(), DeriveError::NamedWithMarker(2));
    let variants = vec![unit(&["good"]), named(&[]), named(&["bad"])];
    assert_eq!(derive_propagate(&variants).unwrap_err(), DeriveError::NamedWithMarker(2));
}

#[test]
fn enum_without_markers_is_refused() {
    let variants = vec![unit(&[]), named(&[]), fields(&["doc"], vec![ty("u8")])];
    assert_eq!(derive_propagate(&variants).unwrap_err(), DeriveError::NoMarkedVariants);
}

#[test]
fn unmarked_variant_falls_back_in_every_good_accessor() {
    // Zero (good), One(i32) (good), Two(i32, i32) (neither).
    let variants = vec![
        unit(&["good"]),
        fields(&["good"], vec![ty("i32")]),
        fields(&[], vec![ty("i32"), ty("i32")]),
    ];
    let d = derive_propagate(&variants).unwrap();
    assert_eq!(d.good_groups, vec![vec![0], vec![1]]);
    assert!(d.good_groups.iter().all(|g| !g.contains(&2)));
    assert!(d.bad_groups.is_empty());
    let accesses: Vec<Access> = d.accessors.iter().map(|a| a.access).collect();
    assert_eq!(
        accesses,
        vec![
            Access::Owned,
            Access::Shared,
            Access::Unique,
            Access::Owned,
            Access::Shared,
            Access::Unique
        ]
    );
    assert_eq!(
        d.accessors[4],
        Accessor { outcome: Outcome::Good, access: Access::Shared, group: 1 }
    );
    assert!(!d.two_states);
}

#[test]
fn good_table_marks_good_variants() {
    let variants = vec![
        unit(&["good"]),
        unit(&[]),
        fields(&["good"], vec![ty("u8")]),
        unit(&["bad"]),
        unit(&[]),
    ];
    let d = derive_propagate(&variants).unwrap();
    assert_eq!(d.good_table, vec![0b00101]);
    assert_eq!(d.bad_table, vec![0b01000]);
    let good: Vec<bool> = (0..5).map(|i| get_bit_at(&d.good_table, i)).collect();
    assert_eq!(good, vec![true, false, true, false, false]);
}

#[test]
fn tables_grow_a_byte_per_eight_variants() {
    let mut variants: Vec<VariantDecl> = (0..9).map(|_| unit(&[])).collect();
    variants[8] = unit(&["bad"]);
    let d = derive_propagate(&variants).unwrap();
    assert_eq!(d.good_table, vec![0, 0]);
    assert_eq!(d.bad_table, vec![0, 1]);
}

#[test]
fn one_good_one_bad_is_two_states() {
    let variants = vec![fields(&["good"], vec![ty("u8")]), fields(&["bad"], vec![ty("u8")])];
    let d = derive_propagate(&variants).unwrap();
    assert!(d.two_states);
    let variants = vec![unit(&["bad"]), unit(&["good"])];
    assert!(derive_propagate(&variants).unwrap().two_states);
}

#[test]
fn neutral_variant_is_not_two_states() {
    let variants = vec![
        fields(&["good"], vec![ty("u8")]),
        fields(&["bad"], vec![ty("u8")]),
        fields(&[], vec![ty("u8")]),
    ];
    assert!(!derive_propagate(&variants).unwrap().two_states);
    let variants = vec![unit(&["good", "bad"]), unit(&[])];
    assert!(!derive_propagate(&variants).unwrap().two_states);
    let variants = vec![unit(&["good"]), unit(&["good"]), unit(&["bad"])];
    assert!(!derive_propagate(&variants).unwrap().two_states);
}

#[test]
fn constructors_only_for_single_variant_groups() {
    let variants = vec![
        fields(&["good"], vec![ty("i32"), ty("i32")]),
        fields(&["bad"], vec![ty("u32")]),
        fields(&["bad"], vec![ty("u32")]),
        unit(&["bad"]),
    ];
    let d = derive_propagate(&variants).unwrap();
    assert_eq!(
        d.constructors,
        vec![
            Constructor { outcome: Outcome::Good, variant: 0 },
            Constructor { outcome: Outcome::Bad, variant: 3 },
        ]
    );
    assert_eq!(d.good_groups, vec![vec![0]]);
    assert_eq!(d.bad_groups, vec![vec![1, 2], vec![3]]);
    assert_eq!(d.accessors.len(), 9);
    assert_eq!(
        d.accessors[6],
        Accessor { outcome: Outcome::Bad, access: Access::Owned, group: 1 }
    );
}
