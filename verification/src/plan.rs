//! The structural format generator. It walks a `TypeShape` plus the resolved
//! per-field directives and produces a `FormatPlan`: one ordered sequence of
//! literal-text segments and per-field actions for every alternative. A plan
//! is built once, before any value exists, and never changes afterwards.

use vstd::prelude::*;
use vstd::string::StringExecFns;
use crate::directive::Directive;
use crate::directive::GenError;
use crate::directive::resolve_tokens;
use crate::shape::FieldDesc;
use crate::shape::ShapeKind;
use crate::shape::TypeShape;
use crate::shape::Variant;
use crate::shape::field_directive;
use crate::shape::shape_supported;
use crate::shape::shape_tokens_ok;
use crate::shape::variant_tokens_ok;

verus! {

/// What a rendered field contributes.
#[derive(Clone, Copy, PartialEq, Eq, Structural)]
pub enum Action {
    /// Delegate to the field value's own opaque rule.
    Opaque,
    /// Delegate to the field value's transparent (full-detail) rendering.
    Transparent,
    /// Emit the fixed placeholder `_`, whatever the field holds.
    Placeholder,
}

/// One step of a plan: a literal text segment, or one field's action. The
/// field index refers to the field's declared position.
pub enum Step {
    /// Emit this text as it stands.
    Lit(String),
    /// Render the field at the given declared position with the action.
    Field(usize, Action),
}

/// The plan for one alternative: its steps, in emission order.
pub struct VariantPlan {
    pub steps: Vec<Step>,
}

/// The generation-time artifact for a whole type: one sub-plan per
/// alternative, selected at render time by the value's active tag. A struct
/// has exactly one alternative.
pub struct FormatPlan {
    pub variants: Vec<VariantPlan>,
}

/// Mathematical model of a step.
#[verifier::ext_equal]
pub enum StepModel {
    Lit(Seq<char>),
    Field(int, Action),
}

/// Mathematical model of one alternative's plan.
#[verifier::ext_equal]
pub struct VariantPlanModel {
    pub steps: Seq<StepModel>,
}

/// Mathematical model of a whole plan.
#[verifier::ext_equal]
pub struct PlanModel {
    pub variants: Seq<VariantPlanModel>,
}

impl View for Step {
    type V = StepModel;

    open spec fn view(&self) -> StepModel {
        match self {
            Step::Lit(s) => StepModel::Lit(s@),
            Step::Field(i, a) => StepModel::Field(*i as int, *a),
        }
    }
}

/// The models of a sequence of steps, elementwise.
pub open spec fn steps_view(s: Seq<Step>) -> Seq<StepModel> {
    s.map_values(|st: Step| st@)
}

impl View for VariantPlan {
    type V = VariantPlanModel;

    open spec fn view(&self) -> VariantPlanModel {
        VariantPlanModel { steps: steps_view(self.steps@) }
    }
}

impl View for FormatPlan {
    type V = PlanModel;

    open spec fn view(&self) -> PlanModel {
        PlanModel { variants: self.variants@.map_values(|vp: VariantPlan| vp@) }
    }
}

/// The action a resolved directive asks for. `Skip` never reaches an action:
/// a skipped field gets no step at all.
pub open spec fn directive_action(d: Directive) -> Action {
    match d {
        Directive::Default => Action::Opaque,
        Directive::Visible => Action::Transparent,
        Directive::Hidden => Action::Placeholder,
        Directive::Skip => Action::Placeholder,
    }
}

/// Does some field after position `p` survive (not `Skip`)? Decides whether
/// the field at `p` is followed by a `, ` separator.
pub open spec fn later_nonskip(fs: Seq<FieldDesc>, p: int) -> bool {
    exists|j: int| p < j < fs.len() && field_directive(#[trigger] fs[j]) != Directive::Skip
}

/// The steps for the fields from position `p` on: a skipped field
/// contributes nothing; every other field contributes its label (in a
/// record), its action, and a `, ` separator unless it is the last
/// surviving field.
pub open spec fn field_steps(fs: Seq<FieldDesc>, p: int, labeled: bool) -> Seq<StepModel>
    decreases fs.len() - p,
{
    if p < 0 || p >= fs.len() {
        Seq::empty()
    } else {
        let rest = field_steps(fs, p + 1, labeled);
        if field_directive(fs[p]) == Directive::Skip {
            rest
        } else {
            let label: Seq<StepModel> = if labeled {
                seq![StepModel::Lit(fs[p].name@ + ": "@)]
            } else {
                Seq::empty()
            };
            let sep: Seq<StepModel> = if later_nonskip(fs, p) {
                seq![StepModel::Lit(", "@)]
            } else {
                Seq::empty()
            };
            label + seq![StepModel::Field(p, directive_action(field_directive(fs[p])))] + sep
                + rest
        }
    }
}

/// The steps for one whole alternative: name, opening delimiter, the
/// surviving fields, closing delimiter.
pub open spec fn variant_steps(v: Variant) -> Seq<StepModel> {
    match v.kind {
        ShapeKind::Record => seq![StepModel::Lit(v.name@ + " { "@)] + field_steps(
            v.fields@,
            0,
            true,
        ) + seq![StepModel::Lit(" }"@)],
        ShapeKind::Positional => seq![StepModel::Lit(v.name@ + "("@)] + field_steps(
            v.fields@,
            0,
            false,
        ) + seq![StepModel::Lit(")"@)],
        ShapeKind::Unit => seq![StepModel::Lit(v.name@)],
    }
}

/// The model of one alternative's generated plan.
pub open spec fn variant_model(v: Variant) -> VariantPlanModel {
    VariantPlanModel { steps: variant_steps(v) }
}

/// The model of the whole generated plan, one sub-plan per alternative.
pub open spec fn plan_model_of(s: TypeShape) -> PlanModel {
    match s {
        TypeShape::Single(v) => PlanModel { variants: seq![variant_model(v)] },
        TypeShape::Tagged(vs) => PlanModel {
            variants: vs@.map_values(|v: Variant| variant_model(v)),
        },
        TypeShape::Raw => PlanModel { variants: Seq::empty() },
    }
}

/// Every field step points below `n`: a plan generated for a shape of `n`
/// fields only ever asks for fields that exist.
pub open spec fn steps_wf(steps: Seq<StepModel>, n: int) -> bool {
    forall|j: int|
        0 <= j < steps.len() ==> match #[trigger] steps[j] {
            StepModel::Lit(_) => true,
            StepModel::Field(i, _) => 0 <= i < n,
        }
}

/// Resolve the directive of every field of the variant, in order.
fn resolve_variant(v: &Variant) -> (r: Result<Vec<Directive>, GenError>)
    ensures
        match r {
            Ok(ds) => variant_tokens_ok(*v) && ds@.len() == v.fields@.len() && forall|j: int|
                0 <= j < ds@.len() ==> ds@[j] == field_directive(#[trigger] v.fields@[j]),
            Err(e) => !variant_tokens_ok(*v) && e == GenError::InvalidDirective,
        },
{
    let mut dirs: Vec<Directive> = Vec::new();
    let n: usize = v.fields.len();
    let mut i: usize = 0;
    while i < n
        invariant
            n == v.fields@.len(),
            i <= n,
            dirs@.len() == i,
            forall|j: int|
                0 <= j < i ==> crate::directive::tokens_ok(#[trigger] v.fields@[j].tokens@),
            forall|j: int| 0 <= j < i ==> dirs@[j] == field_directive(#[trigger] v.fields@[j]),
        decreases n - i,
    {
        match resolve_tokens(&v.fields[i].tokens) {
            Ok(d) => dirs.push(d),
            Err(e) => {
                return Err(e);
            },
        }
        i = i + 1;
    }
    Ok(dirs)
}

/// Is some field after position `i` kept (not skipped)?
fn later_nonskip_exec(fields: &Vec<FieldDesc>, dirs: &Vec<Directive>, i: usize) -> (b: bool)
    requires
        dirs@.len() == fields@.len(),
        forall|j: int| 0 <= j < dirs@.len() ==> dirs@[j] == field_directive(#[trigger] fields@[j]),
        i < fields@.len(),
    ensures
        b == later_nonskip(fields@, i as int),
{
    let n: usize = dirs.len();
    assert(i < n);
    let mut j: usize = i + 1;
    let mut found: bool = false;
    while j < dirs.len()
        invariant
            dirs@.len() == fields@.len(),
            forall|k: int|
                0 <= k < dirs@.len() ==> dirs@[k] == field_directive(#[trigger] fields@[k]),
            i < j <= dirs@.len(),
            found == exists|k: int|
                i < k < j && field_directive(#[trigger] fields@[k]) != Directive::Skip,
        decreases dirs@.len() - j,
    {
        match dirs[j] {
            Directive::Skip => {
                proof {
                    assert(field_directive(fields@[j as int]) == Directive::Skip);
                }
            },
            _ => {
                proof {
                    assert(field_directive(fields@[j as int]) != Directive::Skip);
                }
                found = true;
            },
        }
        j = j + 1;
    }
    found
}

/// Build one alternative's sub-plan from its shape and raw tokens.
fn build_variant(v: &Variant) -> (r: Result<VariantPlan, GenError>)
    ensures
        match r {
            Ok(vp) => variant_tokens_ok(*v) && vp@ == variant_model(*v),
            Err(e) => !variant_tokens_ok(*v) && e == GenError::InvalidDirective,
        },
{
    let dirs = match resolve_variant(v) {
        Ok(ds) => ds,
        Err(e) => {
            return Err(e);
        },
    };
    let mut steps: Vec<Step> = Vec::new();
    match v.kind {
        ShapeKind::Unit => {
            steps.push(Step::Lit(v.name.clone()));
            proof {
                assert(steps_view(steps@) =~= seq![StepModel::Lit(v.name@)]);
            }
        },
        ShapeKind::Record => {
            let mut header = v.name.clone();
            header.append(" { ");
            steps.push(Step::Lit(header));
            let ghost s0 = steps@;
            proof {
                assert(steps_view(s0) =~= seq![StepModel::Lit(v.name@ + " { "@)]);
            }
            push_field_steps(&mut steps, v, &dirs, true);
            let ghost s1 = steps@;
            let footer: String = " }".to_owned();
            steps.push(Step::Lit(footer));
            proof {
                assert(steps_view(steps@) =~= steps_view(s1).push(StepModel::Lit(" }"@)));
                assert(steps_view(steps@) =~= seq![StepModel::Lit(v.name@ + " { "@)]
                    + field_steps(v.fields@, 0, true) + seq![StepModel::Lit(" }"@)]);
            }
        },
        ShapeKind::Positional => {
            let mut header = v.name.clone();
            header.append("(");
            steps.push(Step::Lit(header));
            let ghost s0 = steps@;
            proof {
                assert(steps_view(s0) =~= seq![StepModel::Lit(v.name@ + "("@)]);
            }
            push_field_steps(&mut steps, v, &dirs, false);
            let ghost s1 = steps@;
            let footer: String = ")".to_owned();
            steps.push(Step::Lit(footer));
            proof {
                assert(steps_view(steps@) =~= steps_view(s1).push(StepModel::Lit(")"@)));
                assert(steps_view(steps@) =~= seq![StepModel::Lit(v.name@ + "("@)]
                    + field_steps(v.fields@, 0, false) + seq![StepModel::Lit(")"@)]);
            }
        },
    }
    let vp = VariantPlan { steps };
    proof {
        assert(vp@ =~~= variant_model(*v));
    }
    Ok(vp)
}

/// Append the steps of all surviving fields to the plan under construction.
fn push_field_steps(steps: &mut Vec<Step>, v: &Variant, dirs: &Vec<Directive>, labeled: bool)
    requires
        dirs@.len() == v.fields@.len(),
        forall|j: int|
            0 <= j < dirs@.len() ==> dirs@[j] == field_directive(#[trigger] v.fields@[j]),
    ensures
        steps_view(final(steps)@) == steps_view(old(steps)@) + field_steps(v.fields@, 0, labeled),
{
    let n: usize = v.fields.len();
    let mut i: usize = 0;
    while i < n
        invariant
            n == v.fields@.len(),
            i <= n,
            dirs@.len() == n,
            forall|j: int|
                0 <= j < dirs@.len() ==> dirs@[j] == field_directive(#[trigger] v.fields@[j]),
            steps_view(steps@) + field_steps(v.fields@, i as int, labeled) == steps_view(
                old(steps)@,
            ) + field_steps(v.fields@, 0, labeled),
        decreases n - i,
    {
        let d = dirs[i];
        let ghost pre = steps_view(steps@);
        match d {
            Directive::Skip => {
                proof {
                    assert(field_steps(v.fields@, i as int, labeled) == field_steps(
                        v.fields@,
                        i as int + 1,
                        labeled,
                    ));
                }
            },
            _ => {
                if labeled {
                    let mut label = v.fields[i].name.clone();
                    label.append(": ");
                    steps.push(Step::Lit(label));
                }
                let act = match d {
                    Directive::Hidden => Action::Placeholder,
                    Directive::Visible => Action::Transparent,
                    _ => Action::Opaque,
                };
                steps.push(Step::Field(i, act));
                if later_nonskip_exec(&v.fields, dirs, i) {
                    steps.push(Step::Lit(", ".to_owned()));
                }
                proof {
                    let fs = v.fields@;
                    let p = i as int;
                    let label_part: Seq<StepModel> = if labeled {
                        seq![StepModel::Lit(fs[p].name@ + ": "@)]
                    } else {
                        Seq::empty()
                    };
                    let sep_part: Seq<StepModel> = if later_nonskip(fs, p) {
                        seq![StepModel::Lit(", "@)]
                    } else {
                        Seq::empty()
                    };
                    assert(field_steps(fs, p, labeled) == label_part + seq![
                        StepModel::Field(p, directive_action(field_directive(fs[p]))),
                    ] + sep_part + field_steps(fs, p + 1, labeled));
                    assert(steps_view(steps@) =~= pre + label_part + seq![
                        StepModel::Field(p, directive_action(field_directive(fs[p]))),
                    ] + sep_part);
                }
            },
        }
        i = i + 1;
        proof {
            assert(steps_view(steps@) + field_steps(v.fields@, i as int, labeled) =~= steps_view(
                old(steps)@,
            ) + field_steps(v.fields@, 0, labeled));
        }
    }
    proof {
        assert(field_steps(v.fields@, n as int, labeled) == Seq::<StepModel>::empty());
        assert(steps_view(steps@) =~= steps_view(old(steps)@) + field_steps(
            v.fields@,
            0,
            labeled,
        ));
    }
}

/// Generate the format plan for a whole type. Generation fails, before any
/// value exists, on a shape the generator cannot classify and on any
/// unrecognized directive token; such a failure is permanent for the type.
pub fn generate(shape: &TypeShape) -> (r: Result<FormatPlan, GenError>)
    ensures
        match r {
            Ok(p) => shape_supported(*shape) && shape_tokens_ok(*shape) && p@ == plan_model_of(
                *shape,
            ),
            Err(e) => (e == GenError::UnsupportedShape && !shape_supported(*shape)) || (e
                == GenError::InvalidDirective && shape_supported(*shape) && !shape_tokens_ok(
                *shape,
            )),
        },
{
    match shape {
        TypeShape::Raw => Err(GenError::UnsupportedShape),
        TypeShape::Single(v) => {
            match build_variant(v) {
                Ok(vp) => {
                    let p = FormatPlan { variants: vec![vp] };
                    proof {
                        assert(p@ =~~= plan_model_of(*shape));
                    }
                    Ok(p)
                },
                Err(e) => Err(e),
            }
        },
        TypeShape::Tagged(vs) => {
            match build_variants(vs) {
                Ok(vps) => {
                    let p = FormatPlan { variants: vps };
                    proof {
                        assert(p@.variants =~~= plan_model_of(*shape).variants);
                        assert(p@ =~~= plan_model_of(*shape));
                    }
                    Ok(p)
                },
                Err(e) => Err(e),
            }
        },
    }
}

/// Build one sub-plan for each alternative of a tagged union, in order.
fn build_variants(vs: &Vec<Variant>) -> (r: Result<Vec<VariantPlan>, GenError>)
    ensures
        match r {
            Ok(vps) => vps@.len() == vs@.len() && (forall|j: int|
                0 <= j < vs@.len() ==> variant_tokens_ok(#[trigger] vs@[j])) && forall|j: int|
                0 <= j < vs@.len() ==> (#[trigger] vps@[j])@ == variant_model(vs@[j]),
            Err(e) => e == GenError::InvalidDirective && exists|j: int|
                0 <= j < vs@.len() && !variant_tokens_ok(#[trigger] vs@[j]),
        },
{
    let mut vps: Vec<VariantPlan> = Vec::new();
    let n: usize = vs.len();
    let mut i: usize = 0;
    while i < n
        invariant
            n == vs@.len(),
            i <= n,
            vps@.len() == i,
            forall|j: int| 0 <= j < i ==> variant_tokens_ok(#[trigger] vs@[j]),
            forall|j: int| 0 <= j < i ==> (#[trigger] vps@[j])@ == variant_model(vs@[j]),
        decreases n - i,
    {
        match build_variant(&vs[i]) {
            Ok(vp) => vps.push(vp),
            Err(e) => {
                assert(!variant_tokens_ok(vs@[i as int]));
                return Err(e);
            },
        }
        i = i + 1;
    }
    Ok(vps)
}

} // verus!
