//! Generation and plan-driven rendering: shapes, directives, tagged
//! unions, and the generation-time failures.

use hazy::directive::Directive;
use hazy::directive::GenError;
use hazy::directive::resolve_tokens;
use hazy::plan::FormatPlan;
use hazy::plan::generate;
use hazy::render::render_opaque;
use hazy::render::render_transparent;
use hazy::render::try_render_opaque;
use hazy::shape::FieldDesc;
use hazy::shape::ShapeKind;
use hazy::shape::TypeShape;
use hazy::shape::Variant;
use hazy::value::Value;
use hazy::value::is_well_formed;

fn field(name: &str, tokens: &[&str]) -> FieldDesc {
    FieldDesc {
        name: name.to_string(),
        tokens: tokens.iter().map(|t| t.to_string()).collect(),
    }
}

fn variant(name: &str, kind: ShapeKind, fields: Vec<FieldDesc>) -> Variant {
    Variant {
        name: name.to_string(),
        kind,
        fields,
    }
}

fn plan_for(shape: TypeShape) -> FormatPlan {
    match generate(&shape) {
        Ok(p) => p,
        Err(_) => panic!("generation failed"),
    }
}

fn composite(plan: FormatPlan, tag: usize, fields: Vec<Value>) -> Value {
    Value::Composite {
        plan: Box::new(plan),
        tag,
        fields,
    }
}

#[test]
fn hidden_positional_field_renders_placeholder() {
    let shape = TypeShape::Single(variant(
        "Foo",
        ShapeKind::Positional,
        vec![field("", &["Hidden"])],
    ));
    let v = composite(plan_for(shape), 0, vec![Value::Unsigned(3)]);
    assert_eq!(render_opaque(&v), "Foo(_)");
}

#[test]
fn clear_positional_field_renders_ordinary_detail() {
    let shape = TypeShape::Single(variant(
        "Foo",
        ShapeKind::Positional,
        vec![field("", &["Clear"])],
    ));
    let v = composite(plan_for(shape), 0, vec![Value::Unsigned(3)]);
    assert_eq!(render_opaque(&v), "Foo(3)");
}

#[test]
fn transparent_of_generated_type_forwards_to_opaque() {
    let shape = TypeShape::Single(variant(
        "Foo",
        ShapeKind::Positional,
        vec![field("", &["Hidden"])],
    ));
    let v = composite(plan_for(shape), 0, vec![Value::Unsigned(3)]);
    assert_eq!(render_transparent(&v), "Foo(_)");
}

#[test]
fn union_alternative_renders_under_its_own_name() {
    let shape = TypeShape::Tagged(vec![
        variant("Stack", ShapeKind::Unit, vec![]),
        variant("HeapSize", ShapeKind::Record, vec![field("e", &[])]),
    ]);
    let v = composite(
        plan_for(shape),
        1,
        vec![Value::Text("an enum".to_string())],
    );
    assert_eq!(render_opaque(&v), "HeapSize { e: \"...\" }");
}

#[test]
fn union_alternative_with_clear_field_shows_the_text() {
    let shape = TypeShape::Tagged(vec![
        variant("Stack", ShapeKind::Unit, vec![]),
        variant("HeapSize", ShapeKind::Record, vec![field("e", &["Clear"])]),
    ]);
    let v = composite(
        plan_for(shape),
        1,
        vec![Value::Text("an enum".to_string())],
    );
    assert_eq!(render_opaque(&v), "HeapSize { e: \"an enum\" }");
}

#[test]
fn union_selects_the_alternative_by_tag() {
    let shape = TypeShape::Tagged(vec![
        variant("Stack", ShapeKind::Unit, vec![]),
        variant("HeapSize", ShapeKind::Record, vec![field("e", &[])]),
    ]);
    let v = composite(plan_for(shape), 0, vec![]);
    assert_eq!(render_opaque(&v), "Stack");
}

#[test]
fn visible_field_shows_detail_while_hidden_record_collapses() {
    let inner_shape = |name: &str| {
        TypeShape::Single(variant(
            name,
            ShapeKind::Record,
            vec![field("x", &["Clear"])],
        ))
    };
    let a = composite(plan_for(inner_shape("Inner")), 0, vec![Value::Unsigned(3)]);
    let b = composite(plan_for(inner_shape("Inner")), 0, vec![Value::Unsigned(4)]);
    let outer_shape = TypeShape::Single(variant(
        "Outer",
        ShapeKind::Record,
        vec![field("a", &["Clear"]), field("b", &["Hidden"])],
    ));
    let v = composite(plan_for(outer_shape), 0, vec![a, b]);
    assert_eq!(render_opaque(&v), "Outer { a: Inner { x: 3 }, b: _ }");
}

#[test]
fn skipped_field_in_the_middle_leaves_no_separator() {
    let shape = TypeShape::Single(variant(
        "R",
        ShapeKind::Record,
        vec![field("a", &[]), field("b", &["Skip"]), field("c", &[])],
    ));
    let v = composite(
        plan_for(shape),
        0,
        vec![
            Value::Unsigned(1),
            Value::Text("dropped".to_string()),
            Value::Unsigned(2),
        ],
    );
    assert_eq!(render_opaque(&v), "R { a: _, c: _ }");
}

#[test]
fn skipped_last_field_leaves_no_trailing_separator() {
    let shape = TypeShape::Single(variant(
        "R",
        ShapeKind::Record,
        vec![field("a", &[]), field("b", &["Skip"])],
    ));
    let v = composite(
        plan_for(shape),
        0,
        vec![Value::Unsigned(1), Value::Unsigned(2)],
    );
    assert_eq!(render_opaque(&v), "R { a: _ }");
}

#[test]
fn all_fields_skipped_renders_bare_delimiters() {
    let shape = TypeShape::Single(variant(
        "R",
        ShapeKind::Record,
        vec![field("a", &["Skip"])],
    ));
    let v = composite(plan_for(shape), 0, vec![Value::Unsigned(1)]);
    assert_eq!(render_opaque(&v), "R {  }");
}

#[test]
fn empty_record_renders_bare_delimiters() {
    let shape = TypeShape::Single(variant("Empty", ShapeKind::Record, vec![]));
    let v = composite(plan_for(shape), 0, vec![]);
    assert_eq!(render_opaque(&v), "Empty {  }");
}

#[test]
fn unit_shape_renders_only_the_name() {
    let shape = TypeShape::Single(variant("Marker", ShapeKind::Unit, vec![]));
    let v = composite(plan_for(shape), 0, vec![]);
    assert_eq!(render_opaque(&v), "Marker");
}

#[test]
fn positional_fields_join_without_trailing_separator() {
    let shape = TypeShape::Single(variant(
        "Pair",
        ShapeKind::Positional,
        vec![field("", &[]), field("", &["Clear"])],
    ));
    let v = composite(
        plan_for(shape),
        0,
        vec![Value::Unsigned(1), Value::Unsigned(2)],
    );
    assert_eq!(render_opaque(&v), "Pair(_, 2)");
}

#[test]
fn default_field_recurses_into_nested_generated_type() {
    let inner_shape = TypeShape::Single(variant(
        "Inner",
        ShapeKind::Record,
        vec![field("secret", &[])],
    ));
    let inner = composite(
        plan_for(inner_shape),
        0,
        vec![Value::Text("key".to_string())],
    );
    let outer_shape = TypeShape::Single(variant(
        "Outer",
        ShapeKind::Record,
        vec![field("inner", &[])],
    ));
    let v = composite(plan_for(outer_shape), 0, vec![inner]);
    assert_eq!(
        render_opaque(&v),
        "Outer { inner: Inner { secret: \"...\" } }"
    );
}

#[test]
fn hidden_wins_over_clear_and_skip() {
    let shape = TypeShape::Single(variant(
        "P",
        ShapeKind::Positional,
        vec![field("", &["Skip", "Clear", "Hidden"])],
    ));
    let v = composite(plan_for(shape), 0, vec![Value::Unsigned(9)]);
    assert_eq!(render_opaque(&v), "P(_)");
}

#[test]
fn clear_wins_over_skip() {
    let shape = TypeShape::Single(variant(
        "P",
        ShapeKind::Positional,
        vec![field("", &["Clear", "Skip"])],
    ));
    let v = composite(plan_for(shape), 0, vec![Value::Unsigned(9)]);
    assert_eq!(render_opaque(&v), "P(9)");
}

#[test]
fn resolver_priority_and_default() {
    assert_eq!(
        resolve_tokens(&vec!["Skip".to_string(), "Hidden".to_string()]),
        Ok(Directive::Hidden)
    );
    assert_eq!(
        resolve_tokens(&vec!["Clear".to_string(), "Skip".to_string()]),
        Ok(Directive::Visible)
    );
    assert_eq!(resolve_tokens(&vec!["Skip".to_string()]), Ok(Directive::Skip));
    assert_eq!(resolve_tokens(&vec![]), Ok(Directive::Default));
}

#[test]
fn unrecognized_token_fails_generation() {
    assert_eq!(
        resolve_tokens(&vec!["Blurry".to_string()]),
        Err(GenError::InvalidDirective)
    );
    let shape = TypeShape::Single(variant(
        "R",
        ShapeKind::Record,
        vec![field("a", &["Blurry"])],
    ));
    assert!(matches!(generate(&shape), Err(GenError::InvalidDirective)));
}

#[test]
fn raw_shape_fails_generation() {
    assert!(matches!(
        generate(&TypeShape::Raw),
        Err(GenError::UnsupportedShape)
    ));
}

#[test]
fn out_of_range_tag_is_refused() {
    let shape = TypeShape::Single(variant("Marker", ShapeKind::Unit, vec![]));
    let v = composite(plan_for(shape), 3, vec![]);
    assert!(!is_well_formed(&v));
    assert_eq!(try_render_opaque(&v), None);
}

#[test]
fn generated_plan_fits_matching_values() {
    let shape = TypeShape::Single(variant(
        "R",
        ShapeKind::Record,
        vec![field("a", &[]), field("b", &["Hidden"])],
    ));
    let v = composite(
        plan_for(shape),
        0,
        vec![Value::Unsigned(1), Value::Unsigned(2)],
    );
    assert!(is_well_formed(&v));
}

#[test]
fn removing_a_skipped_field_changes_nothing() {
    let with_skip = TypeShape::Single(variant(
        "R",
        ShapeKind::Record,
        vec![field("a", &[]), field("b", &["Skip"]), field("c", &["Hidden"])],
    ));
    let without = TypeShape::Single(variant(
        "R",
        ShapeKind::Record,
        vec![field("a", &[]), field("c", &["Hidden"])],
    ));
    let v1 = composite(
        plan_for(with_skip),
        0,
        vec![
            Value::Unsigned(1),
            Value::Text("dropped".to_string()),
            Value::Unsigned(2),
        ],
    );
    let v2 = composite(
        plan_for(without),
        0,
        vec![Value::Unsigned(1), Value::Unsigned(2)],
    );
    assert_eq!(render_opaque(&v1), render_opaque(&v2));
}

#[test]
fn hidden_field_output_ignores_the_value() {
    let shape = |_: ()| {
        TypeShape::Single(variant(
            "R",
            ShapeKind::Record,
            vec![field("a", &["Hidden"]), field("b", &[])],
        ))
    };
    let v1 = composite(
        plan_for(shape(())),
        0,
        vec![Value::Text("first secret".to_string()), Value::Unsigned(2)],
    );
    let v2 = composite(
        plan_for(shape(())),
        0,
        vec![Value::Sequence(vec![Value::Bool(true)]), Value::Unsigned(2)],
    );
    assert_eq!(render_opaque(&v1), render_opaque(&v2));
    assert_eq!(render_opaque(&v1), "R { a: _, b: _ }");
}
