//! The laws the library guarantees, stated over the specification
//! functions that the executable contracts use: what the default rules
//! disclose, what the per-field directives force, and that rendering is a
//! pure function of plan and value.

use vstd::prelude::*;
use crate::directive::Directive;
use crate::plan::Action;
use crate::plan::StepModel;
use crate::plan::directive_action;
use crate::plan::field_steps;
use crate::plan::steps_wf;
use crate::plan::variant_steps;
use crate::shape::FieldDesc;
use crate::shape::ShapeKind;
use crate::shape::TypeShape;
use crate::shape::Variant;
use crate::shape::field_directive;
use crate::text::SEQUENCE_CUTOFF;
use crate::text::action_text;
use crate::text::opaque_items_from;
use crate::text::opaque_text;
use crate::text::step_text;
use crate::text::steps_text_from;
use crate::text::transparent_text;
use crate::value::Value;

verus! {

/// Law: a numeric or boolean leaf under the default rule renders the fixed
/// placeholder `_`, independent of the value it holds.
pub proof fn lemma_primitive_opaque(n: u64, m: i64, b: bool)
    ensures
        opaque_text(Value::Unsigned(n)) == "_"@,
        opaque_text(Value::Signed(m)) == "_"@,
        opaque_text(Value::Bool(b)) == "_"@,
{
}

/// Law: a text value under the default rule renders `""` if and only if it
/// is empty, and the fixed `"..."` otherwise; nothing beyond emptiness is
/// disclosed.
pub proof fn lemma_text_opaque(s: String)
    ensures
        s@.len() == 0 ==> opaque_text(Value::Text(s)) == "\"\""@,
        s@.len() != 0 ==> opaque_text(Value::Text(s)) == "\"...\""@,
        (opaque_text(Value::Text(s)) == "\"\""@) <==> s@.len() == 0,
{
    reveal_strlit("\"\"");
    reveal_strlit("\"...\"");
    assert("\"\""@.len() == 2);
    assert("\"...\""@.len() == 5);
}

/// Law: a growable sequence under the default rule enumerates its elements'
/// opaque texts in order, `, `-joined, while it has fewer elements than the
/// cutoff; at the cutoff and beyond it renders `[...]`, the cutoff itself
/// included.
pub proof fn lemma_sequence_opaque(vs: Vec<Value>)
    ensures
        vs@.len() < SEQUENCE_CUTOFF as nat ==> opaque_text(Value::Sequence(vs)) == "["@
            + opaque_items_from(vs@, 0) + "]"@,
        vs@.len() >= SEQUENCE_CUTOFF as nat ==> opaque_text(Value::Sequence(vs)) == "[...]"@,
        vs@.len() == SEQUENCE_CUTOFF as nat ==> opaque_text(Value::Sequence(vs)) == "[...]"@,
{
}

/// Law: the `Hidden` directive's action emits exactly the placeholder `_`,
/// independent of the field's type and value.
pub proof fn lemma_hidden_placeholder(u: Value, w: Value)
    ensures
        directive_action(Directive::Hidden) == Action::Placeholder,
        action_text(Action::Placeholder, u) == "_"@,
        action_text(Action::Placeholder, u) == action_text(Action::Placeholder, w),
{
}

/// Law: the `Visible` directive's action emits exactly the field value's
/// full transparent rendering.
pub proof fn lemma_visible_transparent(u: Value)
    ensures
        directive_action(Directive::Visible) == Action::Transparent,
        action_text(Action::Transparent, u) == transparent_text(u),
{
}

/// Law: for a value of a generated type, the transparent rendering is
/// exactly the opaque one; no call-site switch can disable redaction.
pub proof fn lemma_transparent_forwards_to_opaque(v: Value)
    requires
        v is Composite,
    ensures
        transparent_text(v) == opaque_text(v),
{
}

/// Law: rendering is a pure function of plan and value: any two opaque
/// renderings of the same value are identical text.
pub proof fn lemma_rendering_deterministic(v: Value, a: String, b: String)
    requires
        a@ == opaque_text(v),
        b@ == opaque_text(v),
    ensures
        a@ == b@,
{
}

/// Every field step generated for the fields from `p` on points at a field
/// at or after `p` that is not skipped, and carries that field's action.
pub proof fn lemma_field_steps_indices(fs: Seq<FieldDesc>, p: int, labeled: bool)
    ensures
        forall|j: int|
            0 <= j < field_steps(fs, p, labeled).len() ==> (#[trigger] field_steps(
                fs,
                p,
                labeled,
            )[j] matches StepModel::Field(k, a) ==> p <= k < fs.len() && field_directive(fs[k])
                != Directive::Skip && a == directive_action(field_directive(fs[k]))),
    decreases fs.len() - p,
{
    if p < 0 || p >= fs.len() {
    } else {
        lemma_field_steps_indices(fs, p + 1, labeled);
        let s = field_steps(fs, p, labeled);
        let rest = field_steps(fs, p + 1, labeled);
        if field_directive(fs[p]) == Directive::Skip {
        } else {
            let label: Seq<StepModel> = if labeled {
                seq![StepModel::Lit(fs[p].name@ + ": "@)]
            } else {
                Seq::empty()
            };
            let sep: Seq<StepModel> = if crate::plan::later_nonskip(fs, p) {
                seq![StepModel::Lit(", "@)]
            } else {
                Seq::empty()
            };
            let head = label + seq![StepModel::Field(p, directive_action(field_directive(fs[p])))]
                + sep;
            assert(s == head + rest);
            assert forall|j: int|
                0 <= j < s.len() implies (#[trigger] s[j] matches StepModel::Field(k, a) ==> p <= k
                < fs.len() && field_directive(fs[k]) != Directive::Skip && a == directive_action(
                field_directive(fs[k]),
            )) by {
                if j < head.len() {
                    assert(s[j] == head[j]);
                    if j < label.len() {
                        assert(head[j] == label[j]);
                    } else if j == label.len() {
                        assert(head[j] == StepModel::Field(
                            p,
                            directive_action(field_directive(fs[p])),
                        ));
                    } else {
                        assert(head[j] == sep[j - label.len() - 1]);
                    }
                } else {
                    assert(s[j] == rest[j - head.len()]);
                }
            }
        }
    }
}

/// Every field step of a generated alternative points below the field
/// count: the generated plan fits every value with as many fields.
pub proof fn lemma_variant_steps_wf(v: Variant)
    ensures
        steps_wf(variant_steps(v), v.fields@.len() as int),
{
    match v.kind {
        ShapeKind::Record => {
            lemma_field_steps_indices(v.fields@, 0, true);
            let mid = field_steps(v.fields@, 0, true);
            let s = variant_steps(v);
            assert forall|j: int| 0 <= j < s.len() implies match #[trigger] s[j] {
                StepModel::Lit(_) => true,
                StepModel::Field(i, _) => 0 <= i < v.fields@.len(),
            } by {
                if 1 <= j < 1 + mid.len() {
                    assert(s[j] == mid[j - 1]);
                }
            }
        },
        ShapeKind::Positional => {
            lemma_field_steps_indices(v.fields@, 0, false);
            let mid = field_steps(v.fields@, 0, false);
            let s = variant_steps(v);
            assert forall|j: int| 0 <= j < s.len() implies match #[trigger] s[j] {
                StepModel::Lit(_) => true,
                StepModel::Field(i, _) => 0 <= i < v.fields@.len(),
            } by {
                if 1 <= j < 1 + mid.len() {
                    assert(s[j] == mid[j - 1]);
                }
            }
        },
        ShapeKind::Unit => {},
    }
}

/// The text of steps that touch position `i` at most through the fixed
/// placeholder does not change when the value at `i` changes.
pub proof fn lemma_steps_text_unreferenced(
    steps: Seq<StepModel>,
    vals: Seq<Value>,
    j: int,
    i: int,
    w: Value,
)
    requires
        0 <= i < vals.len(),
        forall|t: int|
            0 <= t < steps.len() ==> (#[trigger] steps[t] matches StepModel::Field(k, a) ==> k != i
                || a == Action::Placeholder),
    ensures
        steps_text_from(steps, vals.update(i, w), j) == steps_text_from(steps, vals, j),
    decreases steps.len() - j,
{
    if j < 0 || j >= steps.len() {
    } else {
        lemma_steps_text_unreferenced(steps, vals, j + 1, i, w);
        assert(vals.update(i, w).len() == vals.len());
        match steps[j] {
            StepModel::Lit(_) => {},
            StepModel::Field(k, a) => {
                assert(k != i || a == Action::Placeholder);
                if 0 <= k < vals.len() && k != i {
                    assert(vals.update(i, w)[k] == vals[k]);
                }
            },
        }
        assert(step_text(steps[j], vals.update(i, w)) == step_text(steps[j], vals));
    }
}

/// Law: a field marked `Hidden` renders as the placeholder alone, so the
/// rendered text of its alternative is unchanged by whatever value the
/// hidden field holds, its type and structure included.
pub proof fn lemma_hidden_field_value_irrelevant(v: Variant, i: int, vals: Seq<Value>, w: Value)
    requires
        0 <= i < v.fields@.len(),
        field_directive(v.fields@[i]) == Directive::Hidden,
        0 <= i < vals.len(),
    ensures
        steps_text_from(variant_steps(v), vals.update(i, w), 0) == steps_text_from(
            variant_steps(v),
            vals,
            0,
        ),
{
    let s = variant_steps(v);
    match v.kind {
        ShapeKind::Record => {
            lemma_field_steps_indices(v.fields@, 0, true);
            let mid = field_steps(v.fields@, 0, true);
            assert forall|j: int|
                0 <= j < s.len() implies (#[trigger] s[j] matches StepModel::Field(k, a) ==> k != i
                || a == Action::Placeholder) by {
                if 1 <= j < 1 + mid.len() {
                    assert(s[j] == mid[j - 1]);
                }
            }
        },
        ShapeKind::Positional => {
            lemma_field_steps_indices(v.fields@, 0, false);
            let mid = field_steps(v.fields@, 0, false);
            assert forall|j: int|
                0 <= j < s.len() implies (#[trigger] s[j] matches StepModel::Field(k, a) ==> k != i
                || a == Action::Placeholder) by {
                if 1 <= j < 1 + mid.len() {
                    assert(s[j] == mid[j - 1]);
                }
            }
        },
        ShapeKind::Unit => {},
    }
    lemma_steps_text_unreferenced(s, vals, 0, i, w);
}

/// What a generated plan emits is exactly what the matching alternative's
/// own steps emit: a struct's single shape at tag zero, a tagged union's
/// alternative at its tag. Together with the generator's contract this
/// carries every law about `variant_steps` over to rendered composites.
pub proof fn lemma_plan_text_of_generated(s: TypeShape, tag: int, vals: Seq<Value>)
    ensures
        s matches TypeShape::Single(w) ==> (tag == 0 ==> crate::text::plan_text(
            crate::plan::plan_model_of(s),
            0,
            vals,
        ) == steps_text_from(variant_steps(w), vals, 0)),
        s matches TypeShape::Tagged(ws) ==> (0 <= tag < ws@.len() ==> crate::text::plan_text(
            crate::plan::plan_model_of(s),
            tag,
            vals,
        ) == steps_text_from(variant_steps(ws@[tag]), vals, 0)),
{
    match s {
        TypeShape::Single(w) => {
            assert(crate::plan::plan_model_of(s).variants[0] == crate::plan::variant_model(w));
        },
        TypeShape::Tagged(ws) => {
            if 0 <= tag < ws@.len() {
                assert(crate::plan::plan_model_of(s).variants[tag] == crate::plan::variant_model(
                    ws@[tag],
                ));
            }
        },
        TypeShape::Raw => {},
    }
}

/// Law: pairing a generated struct plan with as many field values as the
/// shape declares, all of them well formed, yields a well-formed value:
/// the generator never emits a step that asks for a missing field.
pub proof fn lemma_generated_value_wf(v: Value, w: Variant)
    requires
        v matches Value::Composite { plan, tag, fields } && plan@ == crate::plan::plan_model_of(
            TypeShape::Single(w),
        ) && tag == 0 && fields@.len() == w.fields@.len() && (forall|i: int|
            0 <= i < fields@.len() ==> crate::value::value_wf(#[trigger] fields@[i])),
    ensures
        crate::value::value_wf(v),
{
    lemma_variant_steps_wf(w);
}

/// The steps of `b` emit the same text inside `a + b`, after `a`.
proof fn lemma_steps_text_offset(a: Seq<StepModel>, b: Seq<StepModel>, vals: Seq<Value>, j: int)
    requires
        0 <= j <= b.len(),
    ensures
        steps_text_from(a + b, vals, a.len() + j) == steps_text_from(b, vals, j),
    decreases b.len() - j,
{
    if j == b.len() {
    } else {
        assert((a + b)[a.len() + j] == b[j]);
        lemma_steps_text_offset(a, b, vals, j + 1);
    }
}

/// What concatenated steps emit from `j` on: the tail of `a`, then `b`.
proof fn lemma_steps_text_concat_from(a: Seq<StepModel>, b: Seq<StepModel>, vals: Seq<Value>, j: int)
    requires
        0 <= j <= a.len(),
    ensures
        steps_text_from(a + b, vals, j) == steps_text_from(a, vals, j) + steps_text_from(
            b,
            vals,
            0,
        ),
    decreases a.len() - j,
{
    if j == a.len() {
        lemma_steps_text_offset(a, b, vals, 0);
        assert(steps_text_from(a, vals, j) + steps_text_from(b, vals, 0) =~= steps_text_from(
            b,
            vals,
            0,
        ));
    } else {
        assert((a + b)[j] == a[j]);
        lemma_steps_text_concat_from(a, b, vals, j + 1);
        assert(step_text(a[j], vals) + (steps_text_from(a, vals, j + 1) + steps_text_from(
            b,
            vals,
            0,
        )) =~= (step_text(a[j], vals) + steps_text_from(a, vals, j + 1)) + steps_text_from(
            b,
            vals,
            0,
        ));
    }
}

/// What concatenated steps emit: what `a` emits, then what `b` emits.
pub proof fn lemma_steps_text_concat(a: Seq<StepModel>, b: Seq<StepModel>, vals: Seq<Value>)
    ensures
        steps_text_from(a + b, vals, 0) == steps_text_from(a, vals, 0) + steps_text_from(
            b,
            vals,
            0,
        ),
{
    lemma_steps_text_concat_from(a, b, vals, 0);
}

/// What one surviving field's fragment emits: its label in a record, its
/// action's text, and the separator exactly when a later field survives.
proof fn lemma_field_fragment_text(fs: Seq<FieldDesc>, p: int, labeled: bool, vals: Seq<Value>)
    requires
        0 <= p < fs.len(),
        field_directive(fs[p]) != Directive::Skip,
        vals.len() == fs.len(),
    ensures
        steps_text_from(field_steps(fs, p, labeled), vals, 0) == (if labeled {
            fs[p].name@ + ": "@
        } else {
            Seq::<char>::empty()
        }) + action_text(directive_action(field_directive(fs[p])), vals[p]) + (if
        crate::plan::later_nonskip(fs, p) {
            ", "@
        } else {
            Seq::<char>::empty()
        }) + steps_text_from(field_steps(fs, p + 1, labeled), vals, 0),
{
    let label: Seq<StepModel> = if labeled {
        seq![StepModel::Lit(fs[p].name@ + ": "@)]
    } else {
        Seq::empty()
    };
    let act = directive_action(field_directive(fs[p]));
    let fld: Seq<StepModel> = seq![StepModel::Field(p, act)];
    let sep: Seq<StepModel> = if crate::plan::later_nonskip(fs, p) {
        seq![StepModel::Lit(", "@)]
    } else {
        Seq::empty()
    };
    let rest = field_steps(fs, p + 1, labeled);
    reveal_with_fuel(steps_text_from, 2);
    assert(field_steps(fs, p, labeled) == ((label + fld) + sep) + rest);
    lemma_steps_text_concat((label + fld) + sep, rest, vals);
    lemma_steps_text_concat(label + fld, sep, vals);
    lemma_steps_text_concat(label, fld, vals);
    if labeled {
        assert(steps_text_from(label, vals, 0) =~= fs[p].name@ + ": "@);
    } else {
        assert(steps_text_from(label, vals, 0) =~= Seq::<char>::empty());
    }
    assert(steps_text_from(fld, vals, 0) =~= action_text(act, vals[p]));
    if crate::plan::later_nonskip(fs, p) {
        assert(steps_text_from(sep, vals, 0) =~= ", "@);
    } else {
        assert(steps_text_from(sep, vals, 0) =~= Seq::<char>::empty());
    }
}

/// Removing a skipped field does not change which positions still have a
/// surviving field after them.
proof fn lemma_later_nonskip_remove(fs: Seq<FieldDesc>, i: int, p: int)
    requires
        0 <= i < fs.len(),
        0 <= p,
        field_directive(fs[i]) == Directive::Skip,
    ensures
        p < i ==> crate::plan::later_nonskip(fs, p) == crate::plan::later_nonskip(
            fs.remove(i),
            p,
        ),
        p >= i ==> crate::plan::later_nonskip(fs, p) == crate::plan::later_nonskip(
            fs.remove(i),
            p - 1,
        ),
{
    let fs2 = fs.remove(i);
    fs.remove_ensures(i);
    assert(fs2.len() == fs.len() - 1);
    if crate::plan::later_nonskip(fs, p) {
        let j = choose|j: int|
            p < j < fs.len() && field_directive(#[trigger] fs[j]) != Directive::Skip;
        assert(j != i);
        if j < i {
            assert(field_directive(fs2[j]) != Directive::Skip);
        } else {
            assert(fs2[j - 1] == fs[j]);
            assert(field_directive(fs2[j - 1]) != Directive::Skip);
        }
    }
    if p < i && crate::plan::later_nonskip(fs2, p) {
        let k = choose|k: int|
            p < k < fs2.len() && field_directive(#[trigger] fs2[k]) != Directive::Skip;
        if k < i {
            assert(field_directive(fs[k]) != Directive::Skip);
        } else {
            assert(fs2[k] == fs[k + 1]);
            assert(field_directive(fs[k + 1]) != Directive::Skip);
        }
    }
    if p >= i && crate::plan::later_nonskip(fs2, p - 1) {
        let k = choose|k: int|
            p - 1 < k < fs2.len() && field_directive(#[trigger] fs2[k]) != Directive::Skip;
        assert(k >= p >= i);
        assert(fs2[k] == fs[k + 1]);
        assert(field_directive(fs[k + 1]) != Directive::Skip);
    }
}

/// Removing a skipped field, and its value, leaves the emitted field text
/// unchanged, from any starting position.
proof fn lemma_field_steps_remove(fs: Seq<FieldDesc>, i: int, vals: Seq<Value>, labeled: bool, p: int)
    requires
        0 <= i < fs.len(),
        field_directive(fs[i]) == Directive::Skip,
        vals.len() == fs.len(),
        0 <= p <= fs.len(),
    ensures
        p <= i ==> steps_text_from(field_steps(fs, p, labeled), vals, 0) == steps_text_from(
            field_steps(fs.remove(i), p, labeled),
            vals.remove(i),
            0,
        ),
        p > i ==> steps_text_from(field_steps(fs, p, labeled), vals, 0) == steps_text_from(
            field_steps(fs.remove(i), p - 1, labeled),
            vals.remove(i),
            0,
        ),
    decreases fs.len() - p,
{
    let fs2 = fs.remove(i);
    let vals2 = vals.remove(i);
    fs.remove_ensures(i);
    vals.remove_ensures(i);
    assert(fs2.len() == fs.len() - 1);
    assert(vals2.len() == vals.len() - 1);
    if p == fs.len() {
        assert(field_steps(fs, p, labeled) == Seq::<StepModel>::empty());
        assert(field_steps(fs2, p - 1, labeled) == Seq::<StepModel>::empty());
    } else if p == i {
        assert(field_steps(fs, p, labeled) == field_steps(fs, p + 1, labeled));
        lemma_field_steps_remove(fs, i, vals, labeled, p + 1);
    } else if p < i {
        assert(fs2[p] == fs[p]);
        lemma_field_steps_remove(fs, i, vals, labeled, p + 1);
        lemma_later_nonskip_remove(fs, i, p);
        if field_directive(fs[p]) == Directive::Skip {
            assert(field_steps(fs, p, labeled) == field_steps(fs, p + 1, labeled));
            assert(field_steps(fs2, p, labeled) == field_steps(fs2, p + 1, labeled));
        } else {
            lemma_field_fragment_text(fs, p, labeled, vals);
            lemma_field_fragment_text(fs2, p, labeled, vals2);
            assert(vals2[p] == vals[p]);
        }
    } else {
        assert(fs2[p - 1] == fs[p]);
        lemma_field_steps_remove(fs, i, vals, labeled, p + 1);
        lemma_later_nonskip_remove(fs, i, p);
        if field_directive(fs[p]) == Directive::Skip {
            assert(field_steps(fs, p, labeled) == field_steps(fs, p + 1, labeled));
            assert(field_steps(fs2, p - 1, labeled) == field_steps(fs2, p, labeled));
        } else {
            lemma_field_fragment_text(fs, p, labeled, vals);
            lemma_field_fragment_text(fs2, p - 1, labeled, vals2);
            assert(vals2[p - 1] == vals[p]);
        }
    }
}

/// Law: a skipped field can be removed outright. A shape without it, and
/// the value list without its value, render exactly the same text.
pub proof fn lemma_skip_field_removal(v: Variant, w: Variant, i: int, vals: Seq<Value>)
    requires
        w.name@ == v.name@,
        w.kind == v.kind,
        w.fields@ == v.fields@.remove(i),
        0 <= i < v.fields@.len(),
        field_directive(v.fields@[i]) == Directive::Skip,
        vals.len() == v.fields@.len(),
    ensures
        steps_text_from(variant_steps(v), vals, 0) == steps_text_from(
            variant_steps(w),
            vals.remove(i),
            0,
        ),
{
    let vals2 = vals.remove(i);
    reveal_with_fuel(steps_text_from, 2);
    v.fields@.remove_ensures(i);
    vals.remove_ensures(i);
    lemma_field_steps_remove(v.fields@, i, vals, true, 0);
    lemma_field_steps_remove(v.fields@, i, vals, false, 0);
    match v.kind {
        ShapeKind::Record => {
            let hdr_v: Seq<StepModel> = seq![StepModel::Lit(v.name@ + " { "@)];
            let ftr: Seq<StepModel> = seq![StepModel::Lit(" }"@)];
            let body_v = field_steps(v.fields@, 0, true);
            let body_w = field_steps(w.fields@, 0, true);
            assert(variant_steps(v) == (hdr_v + body_v) + ftr);
            assert(variant_steps(w) == (hdr_v + body_w) + ftr);
            lemma_steps_text_concat(hdr_v + body_v, ftr, vals);
            lemma_steps_text_concat(hdr_v, body_v, vals);
            lemma_steps_text_concat(hdr_v + body_w, ftr, vals2);
            lemma_steps_text_concat(hdr_v, body_w, vals2);
            assert(steps_text_from(hdr_v, vals, 0) =~= v.name@ + " { "@);
            assert(steps_text_from(hdr_v, vals2, 0) =~= v.name@ + " { "@);
            assert(steps_text_from(ftr, vals, 0) =~= " }"@);
            assert(steps_text_from(ftr, vals2, 0) =~= " }"@);
        },
        ShapeKind::Positional => {
            let hdr_v: Seq<StepModel> = seq![StepModel::Lit(v.name@ + "("@)];
            let ftr: Seq<StepModel> = seq![StepModel::Lit(")"@)];
            let body_v = field_steps(v.fields@, 0, false);
            let body_w = field_steps(w.fields@, 0, false);
            assert(variant_steps(v) == (hdr_v + body_v) + ftr);
            assert(variant_steps(w) == (hdr_v + body_w) + ftr);
            lemma_steps_text_concat(hdr_v + body_v, ftr, vals);
            lemma_steps_text_concat(hdr_v, body_v, vals);
            lemma_steps_text_concat(hdr_v + body_w, ftr, vals2);
            lemma_steps_text_concat(hdr_v, body_w, vals2);
            assert(steps_text_from(hdr_v, vals, 0) =~= v.name@ + "("@);
            assert(steps_text_from(hdr_v, vals2, 0) =~= v.name@ + "("@);
            assert(steps_text_from(ftr, vals, 0) =~= ")"@);
            assert(steps_text_from(ftr, vals2, 0) =~= ")"@);
        },
        ShapeKind::Unit => {
            assert(variant_steps(v) == seq![StepModel::Lit(v.name@)]);
            assert(variant_steps(w) == seq![StepModel::Lit(v.name@)]);
            assert(steps_text_from(variant_steps(v), vals, 0) =~= v.name@);
            assert(steps_text_from(variant_steps(w), vals2, 0) =~= v.name@);
        },
    }
}

/// Law: a field marked `Skip` contributes nothing at all. No generated step
/// mentions it, and the rendered text of its alternative is unchanged by
/// whatever value the skipped field holds.
pub proof fn lemma_skip_field_contributes_nothing(v: Variant, i: int, vals: Seq<Value>, w: Value)
    requires
        0 <= i < v.fields@.len(),
        field_directive(v.fields@[i]) == Directive::Skip,
        0 <= i < vals.len(),
    ensures
        forall|j: int|
            0 <= j < variant_steps(v).len() ==> (#[trigger] variant_steps(v)[j] matches
            StepModel::Field(k, _) ==> k != i),
        steps_text_from(variant_steps(v), vals.update(i, w), 0) == steps_text_from(
            variant_steps(v),
            vals,
            0,
        ),
{
    let s = variant_steps(v);
    match v.kind {
        ShapeKind::Record => {
            lemma_field_steps_indices(v.fields@, 0, true);
            let mid = field_steps(v.fields@, 0, true);
            assert forall|j: int|
                0 <= j < s.len() implies (#[trigger] s[j] matches StepModel::Field(k, _) ==> k
                != i) by {
                if 1 <= j < 1 + mid.len() {
                    assert(s[j] == mid[j - 1]);
                }
            }
        },
        ShapeKind::Positional => {
            lemma_field_steps_indices(v.fields@, 0, false);
            let mid = field_steps(v.fields@, 0, false);
            assert forall|j: int|
                0 <= j < s.len() implies (#[trigger] s[j] matches StepModel::Field(k, _) ==> k
                != i) by {
                if 1 <= j < 1 + mid.len() {
                    assert(s[j] == mid[j - 1]);
                }
            }
        },
        ShapeKind::Unit => {},
    }
    lemma_steps_text_unreferenced(s, vals, 0, i, w);
}

} // verus!
