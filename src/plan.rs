use vstd::prelude::*;

use crate::classify::{classify, kind_of, tags_view, ActionKind};
use crate::diff::{diff, diff_of, records_view, DiffRecord, RecordView};
use crate::model::{opt_snapshot, ResourceChange, TerraformPlan};

verus! {

/// The normalized view of one resource change that every renderer reads.
#[derive(Debug)]
pub struct ResourceChangeModel {
    pub address: String,
    pub kind: ActionKind,
    pub records: Vec<DiffRecord>,
}

/// The mathematical form of a resource change model.
pub struct ModelView {
    pub address: Seq<char>,
    pub kind: ActionKind,
    pub records: Seq<RecordView>,
}

impl View for ResourceChangeModel {
    type V = ModelView;

    open spec fn view(&self) -> ModelView {
        ModelView { address: self.address@, kind: self.kind, records: records_view(self.records@) }
    }
}

/// The model of a resource change: its kind comes from its action tags
/// alone, its records from the snapshots that the kind compares.
pub open spec fn model_of(c: ResourceChange) -> ModelView {
    let kind = kind_of(tags_view(c.change.actions@));
    ModelView {
        address: c.address@,
        kind,
        records: diff_of(opt_snapshot(c.change.before), opt_snapshot(c.change.after), kind),
    }
}

pub open spec fn models_view(ms: Seq<ResourceChangeModel>) -> Seq<ModelView> {
    ms.map_values(|m: ResourceChangeModel| m@)
}

/// The models of a plan, in plan order.
pub open spec fn plan_models(plan: TerraformPlan) -> Seq<ModelView> {
    plan.resource_changes@.map_values(|c: ResourceChange| model_of(c))
}

/// The kinds of a sequence of models.
pub open spec fn kinds_of(ms: Seq<ModelView>) -> Seq<ActionKind> {
    ms.map_values(|m: ModelView| m.kind)
}

/// Builds the model of one resource change.
pub fn build_model(c: &ResourceChange) -> (r: ResourceChangeModel)
    ensures
        r@ == model_of(*c),
{
    let kind = classify(c.change.actions.as_slice());
    let records = diff(&c.change.before, &c.change.after, kind);
    ResourceChangeModel { address: c.address.clone(), kind, records }
}

/// Builds the models of every resource change of a plan.
pub fn build_models(plan: &TerraformPlan) -> (r: Vec<ResourceChangeModel>)
    ensures
        models_view(r@) == plan_models(*plan),
{
    let mut out: Vec<ResourceChangeModel> = Vec::new();
    let mut i: usize = 0;
    while i < plan.resource_changes.len()
        invariant
            i <= plan.resource_changes.len(),
            models_view(out@) == plan_models(*plan).subrange(0, i as int),
        decreases plan.resource_changes.len() - i,
    {
        let m = build_model(&plan.resource_changes[i]);
        let ghost o = out@;
        out.push(m);
        assert(models_view(out@) =~= models_view(o).push(m@));
        assert(plan_models(*plan).subrange(0, i + 1) =~= plan_models(*plan).subrange(
            0,
            i as int,
        ).push(model_of(plan.resource_changes@[i as int])));
        i = i + 1;
    }
    assert(plan_models(*plan).subrange(0, i as int) =~= plan_models(*plan));
    out
}

/// The kinds of the models, in order.
pub fn model_kinds(ms: &Vec<ResourceChangeModel>) -> (r: Vec<ActionKind>)
    ensures
        r@ == kinds_of(models_view(ms@)),
{
    let mut out: Vec<ActionKind> = Vec::new();
    let mut i: usize = 0;
    while i < ms.len()
        invariant
            i <= ms.len(),
            out@ == kinds_of(models_view(ms@)).subrange(0, i as int),
        decreases ms.len() - i,
    {
        out.push(ms[i].kind);
        assert(out@ =~= kinds_of(models_view(ms@)).subrange(0, i + 1));
        i = i + 1;
    }
    assert(kinds_of(models_view(ms@)).subrange(0, i as int) =~= kinds_of(models_view(ms@)));
    out
}

} // verus!
