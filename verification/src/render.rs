//! The executable renderer: a single-threaded, read-only traversal of a
//! value, guided by the plans the value carries, appending text to a
//! caller-supplied buffer. Each entry point is proved to emit exactly the
//! text that the specification functions in `text` describe.

use vstd::prelude::*;
use vstd::string::StringExecFns;
use crate::OpaqueDebug;
use crate::plan::Action;
use crate::plan::Step;
use crate::plan::StepModel;
use crate::plan::VariantPlan;
use crate::plan::steps_wf;
use crate::text::SEQUENCE_CUTOFF;
use crate::text::action_text;
use crate::text::dec_rep;
use crate::text::digit_char;
use crate::text::int_rep;
use crate::text::opaque_items_from;
use crate::text::opaque_text;
use crate::text::plan_text;
use crate::text::step_text;
use crate::text::steps_text_from;
use crate::text::transparent_items_from;
use crate::text::transparent_text;
use crate::text::underscores;
use crate::value::Value;
use crate::value::is_well_formed;
use crate::value::value_wf;

verus! {

/// The one-character text of a decimal digit.
fn digit_str(d: u64) -> (s: &'static str)
    requires
        d < 10,
    ensures
        s@ == seq![digit_char(d as nat)],
{
    if d == 0 {
        proof {
            reveal_strlit("0");
            assert("0"@ =~= seq![digit_char(d as nat)]);
        }
        "0"
    } else if d == 1 {
        proof {
            reveal_strlit("1");
            assert("1"@ =~= seq![digit_char(d as nat)]);
        }
        "1"
    } else if d == 2 {
        proof {
            reveal_strlit("2");
            assert("2"@ =~= seq![digit_char(d as nat)]);
        }
        "2"
    } else if d == 3 {
        proof {
            reveal_strlit("3");
            assert("3"@ =~= seq![digit_char(d as nat)]);
        }
        "3"
    } else if d == 4 {
        proof {
            reveal_strlit("4");
            assert("4"@ =~= seq![digit_char(d as nat)]);
        }
        "4"
    } else if d == 5 {
        proof {
            reveal_strlit("5");
            assert("5"@ =~= seq![digit_char(d as nat)]);
        }
        "5"
    } else if d == 6 {
        proof {
            reveal_strlit("6");
            assert("6"@ =~= seq![digit_char(d as nat)]);
        }
        "6"
    } else if d == 7 {
        proof {
            reveal_strlit("7");
            assert("7"@ =~= seq![digit_char(d as nat)]);
        }
        "7"
    } else if d == 8 {
        proof {
            reveal_strlit("8");
            assert("8"@ =~= seq![digit_char(d as nat)]);
        }
        "8"
    } else {
        proof {
            reveal_strlit("9");
            assert("9"@ =~= seq![digit_char(d as nat)]);
        }
        "9"
    }
}

/// Append the decimal digits of `n`, most significant first.
fn write_decimal(n: u64, out: &mut String)
    ensures
        final(out)@ == old(out)@ + dec_rep(n as nat),
    decreases n,
{
    if n < 10 {
        out.append(digit_str(n));
    } else {
        write_decimal(n / 10, out);
        out.append(digit_str(n % 10));
        proof {
            assert(dec_rep(n as nat) == dec_rep((n as nat) / 10) + seq![
                digit_char((n as nat) % 10),
            ]);
        }
    }
}

/// Append the decimal text of a signed number.
fn write_signed_decimal(n: i64, out: &mut String)
    ensures
        final(out)@ == old(out)@ + int_rep(n as int),
{
    if n < 0 {
        out.append("-");
        let wide: i128 = n as i128;
        let mag: u64 = (-wide) as u64;
        proof {
            reveal_strlit("-");
            assert("-"@ =~= seq!['-']);
            assert(mag as int == -(n as int));
        }
        write_decimal(mag, out);
    } else {
        write_decimal(n as u64, out);
    }
}

/// Append the opaque (redacting-by-default) text of the value.
pub fn write_opaque(v: &Value, out: &mut String)
    requires
        value_wf(*v),
    ensures
        final(out)@ == old(out)@ + opaque_text(*v),
    decreases *v, 0nat, 0nat,
{
    match v {
        Value::Unsigned(_) => {
            out.append("_");
        },
        Value::Signed(_) => out.append("_"),
        Value::Bool(_) => out.append("_"),
        Value::Text(s) => {
            if s.as_str().is_empty() {
                out.append("\"\"");
            } else {
                out.append("\"...\"");
            }
        },
        Value::Optional(o) => match o {
            Option::Some(b) => {
                out.append("Some(");
                write_opaque(b, out);
                out.append(")");
            },
            Option::None => out.append("None"),
        },
        Value::Fallible(r) => match r {
            Result::Ok(b) => {
                out.append("Ok(");
                write_opaque(b, out);
                out.append(")");
            },
            Result::Err(e) => {
                out.append("Err(");
                write_transparent(e, out);
                out.append(")");
            },
        },
        Value::Boxed(b) => {
            out.append("Box { ");
            write_opaque(b, out);
            out.append(" }");
        },
        Value::Sequence(vs) => {
            if vs.len() < SEQUENCE_CUTOFF {
                out.append("[");
                write_opaque_items(vs, 0, out);
                out.append("]");
            } else {
                out.append("[...]");
            }
        },
        Value::Tuple(vs) => {
            out.append("(");
            write_placeholders(vs.len(), out);
            out.append(")");
        },
        Value::Composite { plan, tag, fields } => {
            proof {
                assert(((*tag) as int) < plan.variants@.len());
            }
            let vp = &plan.variants[*tag];
            proof {
                assert(plan@.variants[(*tag) as int] == vp@);
            }
            write_steps(vp, 0, fields, out);
            proof {
                assert(out@ == old(out)@ + steps_text_from(vp@.steps, fields@, 0));
                assert(plan_text(plan@, (*tag) as int, fields@) == steps_text_from(
                    plan@.variants[(*tag) as int].steps,
                    fields@,
                    0,
                ));
                assert(opaque_text(*v) == plan_text(plan@, (*tag) as int, fields@));
                assert(out@ == old(out)@ + opaque_text(*v));
            }
        },
    }
}

/// Append the transparent (full-detail) text of the value. For a composite
/// of a generated type this forwards to the opaque rendering: the generated
/// plan is the only rendering such a type has.
pub fn write_transparent(v: &Value, out: &mut String)
    requires
        value_wf(*v),
    ensures
        final(out)@ == old(out)@ + transparent_text(*v),
    decreases *v, 1nat, 0nat,
{
    match v {
        Value::Unsigned(n) => write_decimal(*n, out),
        Value::Signed(n) => write_signed_decimal(*n, out),
        Value::Bool(b) => {
            if *b {
                out.append("true");
            } else {
                out.append("false");
            }
        },
        Value::Text(s) => {
            out.append("\"");
            out.append(s.as_str());
            out.append("\"");
        },
        Value::Optional(o) => match o {
            Option::Some(b) => {
                out.append("Some(");
                write_transparent(b, out);
                out.append(")");
            },
            Option::None => out.append("None"),
        },
        Value::Fallible(r) => match r {
            Result::Ok(b) => {
                out.append("Ok(");
                write_transparent(b, out);
                out.append(")");
            },
            Result::Err(e) => {
                out.append("Err(");
                write_transparent(e, out);
                out.append(")");
            },
        },
        Value::Boxed(b) => write_transparent(b, out),
        Value::Sequence(vs) => {
            out.append("[");
            write_transparent_items(vs, 0, out);
            out.append("]");
        },
        Value::Tuple(vs) => {
            if vs.len() == 1 {
                out.append("(");
                write_transparent(&vs[0], out);
                out.append(",)");
            } else {
                out.append("(");
                write_transparent_items(vs, 0, out);
                out.append(")");
            }
        },
        Value::Composite { .. } => {
            write_opaque(v, out);
        },
    }
}

/// Append `n` copies of the tuple member placeholder `_, `.
fn write_placeholders(n: usize, out: &mut String)
    ensures
        final(out)@ == old(out)@ + underscores(n as nat),
    decreases n,
{
    if n > 0 {
        out.append("_, ");
        write_placeholders(n - 1, out);
    }
}

/// Append the opaque texts of the values from position `i` on, `, `-joined.
fn write_opaque_items(vals: &Vec<Value>, i: usize, out: &mut String)
    requires
        i <= vals@.len(),
        forall|k: int| 0 <= k < vals@.len() ==> value_wf(#[trigger] vals@[k]),
    ensures
        final(out)@ == old(out)@ + opaque_items_from(vals@, i as int),
    decreases vals@, 2nat, vals@.len() - i,
{
    if i < vals.len() {
        write_opaque(&vals[i], out);
        if i + 1 < vals.len() {
            out.append(", ");
        }
        write_opaque_items(vals, i + 1, out);
    }
}

/// Append the transparent texts of the values from position `i` on.
fn write_transparent_items(vals: &Vec<Value>, i: usize, out: &mut String)
    requires
        i <= vals@.len(),
        forall|k: int| 0 <= k < vals@.len() ==> value_wf(#[trigger] vals@[k]),
    ensures
        final(out)@ == old(out)@ + transparent_items_from(vals@, i as int),
    decreases vals@, 2nat, vals@.len() - i,
{
    if i < vals.len() {
        write_transparent(&vals[i], out);
        if i + 1 < vals.len() {
            out.append(", ");
        }
        write_transparent_items(vals, i + 1, out);
    }
}

/// Append what the alternative's steps from position `j` on emit for the
/// given field values.
fn write_steps(vp: &VariantPlan, j: usize, fields: &Vec<Value>, out: &mut String)
    requires
        steps_wf(vp@.steps, fields@.len() as int),
        forall|k: int| 0 <= k < fields@.len() ==> value_wf(#[trigger] fields@[k]),
    ensures
        final(out)@ == old(out)@ + steps_text_from(vp@.steps, fields@, j as int),
    decreases fields@, 4nat, vp@.steps.len() - j,
{
    if j < vp.steps.len() {
        proof {
            assert(vp@.steps[j as int] == vp.steps@[j as int]@);
        }
        match &vp.steps[j] {
            Step::Lit(t) => {
                out.append(t.as_str());
                proof {
                    assert(step_text(vp@.steps[j as int], fields@) == t@);
                }
            },
            Step::Field(i, a) => {
                proof {
                    assert(vp@.steps[j as int] == StepModel::Field(*i as int, *a));
                    assert(0 <= *i < fields@.len());
                }
                match a {
                    Action::Placeholder => out.append("_"),
                    Action::Opaque => write_opaque(&fields[*i], out),
                    Action::Transparent => write_transparent(&fields[*i], out),
                }
                proof {
                    assert(step_text(vp@.steps[j as int], fields@) == action_text(
                        *a,
                        fields@[*i as int],
                    ));
                }
            },
        }
        write_steps(vp, j + 1, fields, out);
    }
}

/// Render the value's opaque (redacting-by-default) text.
pub fn render_opaque(v: &Value) -> (r: String)
    requires
        value_wf(*v),
    ensures
        r@ == opaque_text(*v),
{
    let mut out = String::new();
    write_opaque(v, &mut out);
    out
}

/// Render the value's transparent (full-detail) text.
pub fn render_transparent(v: &Value) -> (r: String)
    requires
        value_wf(*v),
    ensures
        r@ == transparent_text(*v),
{
    let mut out = String::new();
    write_transparent(v, &mut out);
    out
}

/// Render the opaque text after checking that the value fits its plans;
/// a value that does not is refused instead of rendered.
pub fn try_render_opaque(v: &Value) -> (r: Option<String>)
    ensures
        match r {
            Option::Some(s) => value_wf(*v) && s@ == opaque_text(*v),
            Option::None => !value_wf(*v),
        },
{
    if is_well_formed(v) {
        Option::Some(render_opaque(v))
    } else {
        Option::None
    }
}

/// Render the transparent text after checking that the value fits its
/// plans; a value that does not is refused instead of rendered.
pub fn try_render_transparent(v: &Value) -> (r: Option<String>)
    ensures
        match r {
            Option::Some(s) => value_wf(*v) && s@ == transparent_text(*v),
            Option::None => !value_wf(*v),
        },
{
    if is_well_formed(v) {
        Option::Some(render_transparent(v))
    } else {
        Option::None
    }
}

impl OpaqueDebug for Value {
    open spec fn opaque_view(&self) -> Seq<char> {
        opaque_text(*self)
    }

    open spec fn opaque_ready(&self) -> bool {
        value_wf(*self)
    }

    fn fmt(&self, out: &mut String) {
        write_opaque(self, out)
    }
}

} // verus!
