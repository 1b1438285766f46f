//! The mathematical meaning of rendering: for every value, the exact text
//! its opaque (redacting) and its transparent (full-detail) rendering
//! produce. The executable renderer is proved to emit exactly these
//! sequences of characters.

use vstd::prelude::*;
use crate::plan::Action;
use crate::plan::PlanModel;
use crate::plan::StepModel;
use crate::value::Value;

verus! {

/// The truncation cutoff for opaque sequence rendering: a sequence with
/// this many elements or more is rendered as `[...]`, so that even its
/// exact length is not disclosed. Deliberate bounding, not adaptive sizing.
pub const SEQUENCE_CUTOFF: usize = 13;

/// The decimal digit character for `d` (meaningful for `d < 10`).
pub open spec fn digit_char(d: nat) -> char {
    if d == 0 {
        '0'
    } else if d == 1 {
        '1'
    } else if d == 2 {
        '2'
    } else if d == 3 {
        '3'
    } else if d == 4 {
        '4'
    } else if d == 5 {
        '5'
    } else if d == 6 {
        '6'
    } else if d == 7 {
        '7'
    } else if d == 8 {
        '8'
    } else {
        '9'
    }
}

/// The decimal digits of `n`, most significant first.
pub open spec fn dec_rep(n: nat) -> Seq<char>
    decreases n,
{
    if n < 10 {
        seq![digit_char(n)]
    } else {
        dec_rep(n / 10) + seq![digit_char(n % 10)]
    }
}

/// The decimal text of a signed number: a leading `-` for a negative one.
pub open spec fn int_rep(i: int) -> Seq<char> {
    if i < 0 {
        seq!['-'] + dec_rep((-i) as nat)
    } else {
        dec_rep(i as nat)
    }
}

/// The text of a boolean in full detail.
pub open spec fn bool_text(b: bool) -> Seq<char> {
    if b {
        "true"@
    } else {
        "false"@
    }
}

/// `n` repetitions of the tuple member placeholder `_, ` (a trailing
/// separator stands after every member, the last included).
pub open spec fn underscores(n: nat) -> Seq<char>
    decreases n,
{
    if n == 0 {
        Seq::empty()
    } else {
        "_, "@ + underscores((n - 1) as nat)
    }
}

/// The opaque (redacting-by-default) text of a value.
///
/// Leaf numbers and booleans are never inspected; text discloses only
/// whether it is empty; optional and fallible values disclose presence and
/// outcome; errors are rendered in full; sequences of fewer than
/// `SEQUENCE_CUTOFF` elements enumerate their elements opaquely, longer
/// ones collapse to `[...]`; tuple members are all placeholders; a
/// composite follows its generated plan's alternative for the value's tag.
pub open spec fn opaque_text(v: Value) -> Seq<char>
    decreases v, 0nat, 0nat,
{
    match v {
        Value::Unsigned(_) => "_"@,
        Value::Signed(_) => "_"@,
        Value::Bool(_) => "_"@,
        Value::Text(s) => if s@.len() == 0 {
            "\"\""@
        } else {
            "\"...\""@
        },
        Value::Optional(o) => match o {
            Option::Some(b) => "Some("@ + opaque_text(*b) + ")"@,
            Option::None => "None"@,
        },
        Value::Fallible(r) => match r {
            Result::Ok(b) => "Ok("@ + opaque_text(*b) + ")"@,
            Result::Err(e) => "Err("@ + transparent_text(*e) + ")"@,
        },
        Value::Boxed(b) => "Box { "@ + opaque_text(*b) + " }"@,
        Value::Sequence(vs) => if vs@.len() < SEQUENCE_CUTOFF as nat {
            "["@ + opaque_items_from(vs@, 0) + "]"@
        } else {
            "[...]"@
        },
        Value::Tuple(vs) => "("@ + underscores(vs@.len()) + ")"@,
        Value::Composite { plan, tag, fields } => plan_text(plan@, tag as int, fields@),
    }
}

/// The transparent (full-detail) text of a value: the ordinary diagnostic
/// convention for leaves and builtin composites. For a composite of a
/// generated type it forwards to the opaque text: a generated type's only
/// full-detail rendering is its own redacting plan.
pub open spec fn transparent_text(v: Value) -> Seq<char>
    decreases v, 1nat, 0nat,
{
    match v {
        Value::Unsigned(n) => dec_rep(n as nat),
        Value::Signed(n) => int_rep(n as int),
        Value::Bool(b) => bool_text(b),
        Value::Text(s) => "\""@ + s@ + "\""@,
        Value::Optional(o) => match o {
            Option::Some(b) => "Some("@ + transparent_text(*b) + ")"@,
            Option::None => "None"@,
        },
        Value::Fallible(r) => match r {
            Result::Ok(b) => "Ok("@ + transparent_text(*b) + ")"@,
            Result::Err(e) => "Err("@ + transparent_text(*e) + ")"@,
        },
        Value::Boxed(b) => transparent_text(*b),
        Value::Sequence(vs) => "["@ + transparent_items_from(vs@, 0) + "]"@,
        Value::Tuple(vs) => if vs@.len() == 1 {
            "("@ + transparent_text(vs@[0]) + ",)"@
        } else {
            "("@ + transparent_items_from(vs@, 0) + ")"@
        },
        Value::Composite { .. } => opaque_text(v),
    }
}

/// The opaque texts of the values from position `i` on, joined by `, `.
pub open spec fn opaque_items_from(vals: Seq<Value>, i: int) -> Seq<char>
    decreases vals, 0nat, vals.len() - i,
{
    if i < 0 || i >= vals.len() {
        Seq::empty()
    } else {
        opaque_text(vals[i]) + (if i + 1 < vals.len() {
            ", "@
        } else {
            Seq::empty()
        }) + opaque_items_from(vals, i + 1)
    }
}

/// The transparent texts of the values from position `i` on, joined by `, `.
pub open spec fn transparent_items_from(vals: Seq<Value>, i: int) -> Seq<char>
    decreases vals, 1nat, vals.len() - i,
{
    if i < 0 || i >= vals.len() {
        Seq::empty()
    } else {
        transparent_text(vals[i]) + (if i + 1 < vals.len() {
            ", "@
        } else {
            Seq::empty()
        }) + transparent_items_from(vals, i + 1)
    }
}

/// What one field action emits for the field's value.
pub open spec fn action_text(a: Action, v: Value) -> Seq<char>
    decreases v, 2nat, 0nat,
{
    match a {
        Action::Placeholder => "_"@,
        Action::Opaque => opaque_text(v),
        Action::Transparent => transparent_text(v),
    }
}

/// What one plan step emits, given the alternative's field values.
pub open spec fn step_text(s: StepModel, vals: Seq<Value>) -> Seq<char>
    decreases vals, 1nat, 0nat,
{
    match s {
        StepModel::Lit(t) => t,
        StepModel::Field(i, a) => if 0 <= i < vals.len() {
            action_text(a, vals[i])
        } else {
            Seq::empty()
        },
    }
}

/// What the steps from position `j` on emit, in order.
pub open spec fn steps_text_from(steps: Seq<StepModel>, vals: Seq<Value>, j: int) -> Seq<char>
    decreases vals, 2nat, steps.len() - j,
{
    if j < 0 || j >= steps.len() {
        Seq::empty()
    } else {
        step_text(steps[j], vals) + steps_text_from(steps, vals, j + 1)
    }
}

/// What a whole plan emits for the alternative `tag` with field values
/// `vals`: exactly the matched alternative's own steps, nothing else.
pub open spec fn plan_text(p: PlanModel, tag: int, vals: Seq<Value>) -> Seq<char>
    decreases vals, 3nat, 0nat,
{
    if 0 <= tag < p.variants.len() {
        steps_text_from(p.variants[tag].steps, vals, 0)
    } else {
        Seq::empty()
    }
}

} // verus!
