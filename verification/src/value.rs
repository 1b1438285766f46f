//! The runtime value model. A `Value` mirrors what the rendered data can
//! hold: leaf values, the common composite leaf types of the default opacity
//! library, and composites of generated types, which carry the plan that was
//! generated for their type together with the active alternative's tag and
//! field values.

use vstd::prelude::*;
use crate::plan::FormatPlan;
use crate::plan::Step;
use crate::plan::steps_wf;

verus! {

/// A value to be rendered. A borrowed value is modeled by its referent:
/// borrow wrappers forward to the referent's rules and introduce no opacity
/// boundary of their own, so they need no variant here.
pub enum Value {
    /// An unsigned numeric leaf.
    Unsigned(u64),
    /// A signed numeric leaf.
    Signed(i64),
    /// A boolean leaf.
    Bool(bool),
    /// A text value.
    Text(String),
    /// An optional value: present or absent.
    Optional(Option<Box<Value>>),
    /// A fallible outcome: a success value, or an error value. Errors are
    /// assumed non-secret and always rendered in full.
    Fallible(Result<Box<Value>, Box<Value>>),
    /// An owning indirection around a value.
    Boxed(Box<Value>),
    /// A growable ordered sequence (or a contiguous view of one).
    Sequence(Vec<Value>),
    /// A fixed-arity heterogeneous sequence, arity at most twelve.
    Tuple(Vec<Value>),
    /// A value of a generated type: the plan generated for its type, the
    /// active alternative's tag, and that alternative's field values in
    /// declared order.
    Composite { plan: Box<FormatPlan>, tag: usize, fields: Vec<Value> },
}

/// A value fits its own plans: every composite's tag selects an existing
/// alternative, every field step of that alternative points at an existing
/// field, tuples stay within arity twelve, and the same holds below.
pub open spec fn value_wf(v: Value) -> bool
    decreases v,
{
    match v {
        Value::Unsigned(_) => true,
        Value::Signed(_) => true,
        Value::Bool(_) => true,
        Value::Text(_) => true,
        Value::Optional(o) => match o {
            Option::Some(b) => value_wf(*b),
            Option::None => true,
        },
        Value::Fallible(r) => match r {
            Result::Ok(b) => value_wf(*b),
            Result::Err(b) => value_wf(*b),
        },
        Value::Boxed(b) => value_wf(*b),
        Value::Sequence(vs) => forall|i: int| 0 <= i < vs@.len() ==> value_wf(#[trigger] vs@[i]),
        Value::Tuple(vs) => vs@.len() <= 12 && forall|i: int|
            0 <= i < vs@.len() ==> value_wf(#[trigger] vs@[i]),
        Value::Composite { plan, tag, fields } => (tag as int) < plan@.variants.len() && steps_wf(
            plan@.variants[tag as int].steps,
            fields@.len() as int,
        ) && forall|i: int| 0 <= i < fields@.len() ==> value_wf(#[trigger] fields@[i]),
    }
}

/// Check that a value fits its own plans, so that rendering it cannot ask
/// for an alternative or a field that does not exist.
pub fn is_well_formed(v: &Value) -> (b: bool)
    ensures
        b == value_wf(*v),
    decreases *v, 0nat, 0nat,
{
    match v {
        Value::Unsigned(_) => true,
        Value::Signed(_) => true,
        Value::Bool(_) => true,
        Value::Text(_) => true,
        Value::Optional(o) => match o {
            Option::Some(b) => is_well_formed(b),
            Option::None => true,
        },
        Value::Fallible(r) => match r {
            Result::Ok(b) => is_well_formed(b),
            Result::Err(b) => is_well_formed(b),
        },
        Value::Boxed(b) => is_well_formed(b),
        Value::Sequence(vs) => all_well_formed(vs, 0),
        Value::Tuple(vs) => vs.len() <= 12 && all_well_formed(vs, 0),
        Value::Composite { plan, tag, fields } => {
            if *tag >= plan.variants.len() {
                false
            } else {
                let vp = &plan.variants[*tag];
                steps_in_bounds(vp, fields.len()) && all_well_formed(fields, 0)
            }
        },
    }
}

/// Check every value from position `i` on.
fn all_well_formed(vals: &Vec<Value>, i: usize) -> (b: bool)
    requires
        i <= vals@.len(),
    ensures
        b == forall|k: int| i <= k < vals@.len() ==> value_wf(#[trigger] vals@[k]),
    decreases vals@, 1nat, vals@.len() - i,
{
    if i == vals.len() {
        true
    } else {
        if !is_well_formed(&vals[i]) {
            assert(!value_wf(vals@[i as int]));
            false
        } else {
            all_well_formed(vals, i + 1)
        }
    }
}

/// Check that every field step of the alternative's plan points below `n`.
fn steps_in_bounds(vp: &crate::plan::VariantPlan, n: usize) -> (b: bool)
    ensures
        b == steps_wf(vp@.steps, n as int),
{
    let mut j: usize = 0;
    let mut ok: bool = true;
    while j < vp.steps.len()
        invariant
            j <= vp.steps@.len(),
            vp@.steps.len() == vp.steps@.len(),
            ok == forall|k: int|
                0 <= k < j ==> match #[trigger] vp@.steps[k] {
                    crate::plan::StepModel::Lit(_) => true,
                    crate::plan::StepModel::Field(i, _) => 0 <= i < n,
                },
        decreases vp.steps@.len() - j,
    {
        match &vp.steps[j] {
            Step::Lit(_) => {},
            Step::Field(i, _) => {
                if *i >= n {
                    ok = false;
                }
            },
        }
        proof {
            assert(vp@.steps[j as int] == vp.steps@[j as int]@);
        }
        j = j + 1;
    }
    ok
}

} // verus!
