//! The default opacity library's rules, exercised through the public
//! rendering entry points.

use hazy::render::render_opaque;
use hazy::render::render_transparent;
use hazy::render::try_render_opaque;
use hazy::value::Value;
use hazy::OpaqueDebug;

fn boxed(v: Value) -> Box<Value> {
    Box::new(v)
}

#[test]
fn unsigned_opaque_is_placeholder() {
    assert_eq!(render_opaque(&Value::Unsigned(0)), "_");
    assert_eq!(render_opaque(&Value::Unsigned(7)), "_");
    assert_eq!(render_opaque(&Value::Unsigned(u64::MAX)), "_");
}

#[test]
fn signed_and_bool_opaque_are_placeholders() {
    assert_eq!(render_opaque(&Value::Signed(-42)), "_");
    assert_eq!(render_opaque(&Value::Signed(i64::MIN)), "_");
    assert_eq!(render_opaque(&Value::Bool(true)), "_");
    assert_eq!(render_opaque(&Value::Bool(false)), "_");
}

#[test]
fn text_opaque_discloses_only_emptiness() {
    assert_eq!(render_opaque(&Value::Text(String::new())), "\"\"");
    assert_eq!(render_opaque(&Value::Text("x".to_string())), "\"...\"");
    assert_eq!(
        render_opaque(&Value::Text("a much longer secret".to_string())),
        "\"...\""
    );
}

#[test]
fn optional_opaque_discloses_presence() {
    assert_eq!(
        render_opaque(&Value::Optional(Some(boxed(Value::Unsigned(5))))),
        "Some(_)"
    );
    assert_eq!(render_opaque(&Value::Optional(None)), "None");
}

#[test]
fn fallible_opaque_redacts_success_and_shows_error() {
    assert_eq!(
        render_opaque(&Value::Fallible(Ok(boxed(Value::Text("key".to_string()))))),
        "Ok(\"...\")"
    );
    assert_eq!(
        render_opaque(&Value::Fallible(Err(boxed(Value::Text("boom".to_string()))))),
        "Err(\"boom\")"
    );
}

#[test]
fn boxed_opaque_keeps_the_indirection_visible() {
    assert_eq!(
        render_opaque(&Value::Boxed(boxed(Value::Signed(-1)))),
        "Box { _ }"
    );
}

#[test]
fn sequence_opaque_enumerates_in_order_below_cutoff() {
    let v = Value::Sequence(vec![
        Value::Text(String::new()),
        Value::Text("x".to_string()),
        Value::Unsigned(3),
    ]);
    assert_eq!(render_opaque(&v), "[\"\", \"...\", _]");
}

#[test]
fn sequence_opaque_twelve_elements_still_enumerated() {
    let v = Value::Sequence((0..12).map(Value::Unsigned).collect());
    assert_eq!(render_opaque(&v), "[_, _, _, _, _, _, _, _, _, _, _, _]");
}

#[test]
fn sequence_opaque_exactly_thirteen_collapses() {
    let v = Value::Sequence((0..13).map(Value::Unsigned).collect());
    assert_eq!(render_opaque(&v), "[...]");
}

#[test]
fn sequence_opaque_above_cutoff_collapses() {
    let v = Value::Sequence((0..40).map(Value::Unsigned).collect());
    assert_eq!(render_opaque(&v), "[...]");
}

#[test]
fn empty_sequence_opaque() {
    assert_eq!(render_opaque(&Value::Sequence(vec![])), "[]");
}

#[test]
fn tuple_opaque_all_placeholders_with_trailing_separator() {
    let v = Value::Tuple(vec![Value::Unsigned(1), Value::Bool(true)]);
    assert_eq!(render_opaque(&v), "(_, _, )");
    assert_eq!(render_opaque(&Value::Tuple(vec![])), "()");
}

#[test]
fn transparent_numbers_and_bools() {
    assert_eq!(render_transparent(&Value::Unsigned(0)), "0");
    assert_eq!(render_transparent(&Value::Unsigned(1234)), "1234");
    assert_eq!(render_transparent(&Value::Signed(-5)), "-5");
    assert_eq!(
        render_transparent(&Value::Signed(i64::MIN)),
        "-9223372036854775808"
    );
    assert_eq!(render_transparent(&Value::Bool(true)), "true");
    assert_eq!(render_transparent(&Value::Bool(false)), "false");
}

#[test]
fn transparent_composites_of_builtin_types() {
    assert_eq!(
        render_transparent(&Value::Text("an enum".to_string())),
        "\"an enum\""
    );
    assert_eq!(
        render_transparent(&Value::Optional(Some(boxed(Value::Unsigned(9))))),
        "Some(9)"
    );
    assert_eq!(
        render_transparent(&Value::Sequence(vec![
            Value::Unsigned(1),
            Value::Unsigned(2)
        ])),
        "[1, 2]"
    );
    assert_eq!(
        render_transparent(&Value::Tuple(vec![Value::Unsigned(1)])),
        "(1,)"
    );
    assert_eq!(
        render_transparent(&Value::Tuple(vec![
            Value::Unsigned(1),
            Value::Bool(false)
        ])),
        "(1, false)"
    );
    assert_eq!(
        render_transparent(&Value::Boxed(boxed(Value::Unsigned(8)))),
        "8"
    );
}

#[test]
fn rendering_is_idempotent() {
    let v = Value::Sequence(vec![
        Value::Text("secret".to_string()),
        Value::Optional(Some(boxed(Value::Unsigned(1)))),
    ]);
    let first = render_opaque(&v);
    let second = render_opaque(&v);
    assert_eq!(first, second);
    let t1 = render_transparent(&v);
    let t2 = render_transparent(&v);
    assert_eq!(t1, t2);
}

#[test]
fn fmt_appends_to_the_sink() {
    let mut out = String::from("note: ");
    Value::Unsigned(3).fmt(&mut out);
    assert_eq!(out, "note: _");
}

#[test]
fn try_render_accepts_plain_values() {
    let v = Value::Text("x".to_string());
    assert_eq!(try_render_opaque(&v).as_deref(), Some("\"...\""));
}
