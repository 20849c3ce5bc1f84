//! Decides the directives that bring an adaptor's project in line with the
//! canonical project.
//!
//! A pass lists the live models, deletes those the specification lacks and
//! sends every specified model; then does the same for requests. The caller
//! performs each directive in order and stops at the first failure.

use vstd::prelude::*;
use crate::extract::{contains_name, names_view};
use crate::model::{models_view, opt_view, requests_view, Model, ModelView, Project, ProjectView, Request, RequestView};
use crate::service::{subject_of, sync_error, AdaptorError, SyncError};

verus! {

/// One call to an adaptor.
#[derive(Debug)]
pub enum Instruction {
    ListModels,
    ListRequests,
    /// Insert the model, or update it where it exists.
    UpdateModel(Model),
    /// Insert the request, or update it where it exists.
    UpdateRequest(Request),
    DeleteModel(String),
    DeleteRequest(String),
}

pub enum InstructionView {
    ListModels,
    ListRequests,
    UpdateModel(ModelView),
    UpdateRequest(RequestView),
    DeleteModel(Seq<char>),
    DeleteRequest(Seq<char>),
}

impl View for Instruction {
    type V = InstructionView;

    open spec fn view(&self) -> InstructionView {
        match self {
            Instruction::ListModels => InstructionView::ListModels,
            Instruction::ListRequests => InstructionView::ListRequests,
            Instruction::UpdateModel(m) => InstructionView::UpdateModel(m@),
            Instruction::UpdateRequest(r) => InstructionView::UpdateRequest(r@),
            Instruction::DeleteModel(n) => InstructionView::DeleteModel(n@),
            Instruction::DeleteRequest(n) => InstructionView::DeleteRequest(n@),
        }
    }
}

pub open spec fn instructions_view(s: Seq<Instruction>) -> Seq<InstructionView> {
    s.map_values(|i: Instruction| i@)
}

/// The live names that the specification does not hold, in live order.
pub open spec fn stale_names(live: Seq<Seq<char>>, wanted: Seq<Seq<char>>) -> Seq<Seq<char>>
    decreases live.len(),
{
    if live.len() == 0 {
        Seq::empty()
    } else if wanted.contains(live.last()) {
        stale_names(live.drop_last(), wanted)
    } else {
        stale_names(live.drop_last(), wanted).push(live.last())
    }
}

pub open spec fn model_names_of(ms: Seq<ModelView>) -> Seq<Seq<char>> {
    ms.map_values(|m: ModelView| m.name)
}

pub open spec fn request_names_of(rs: Seq<RequestView>) -> Seq<Seq<char>> {
    rs.map_values(|r: RequestView| r.name)
}

/// The model directives of a pass: a deletion for each stale live model, then
/// one insert-or-update for each specified model, in specification order.
pub open spec fn model_plan(spec: Seq<ModelView>, live: Seq<Seq<char>>) -> Seq<InstructionView> {
    stale_names(live, model_names_of(spec)).map_values(|n: Seq<char>| InstructionView::DeleteModel(n))
        + spec.map_values(|m: ModelView| InstructionView::UpdateModel(m))
}

/// The request directives of a pass, shaped as those for models.
pub open spec fn request_plan(spec: Seq<RequestView>, live: Seq<Seq<char>>) -> Seq<InstructionView> {
    stale_names(live, request_names_of(spec)).map_values(
        |n: Seq<char>| InstructionView::DeleteRequest(n),
    ) + spec.map_values(|r: RequestView| InstructionView::UpdateRequest(r))
}

/// Every call of a whole pass, given what the adaptor lists.
pub open spec fn pass_calls(
    spec: ProjectView,
    live_models: Seq<Seq<char>>,
    live_requests: Seq<Seq<char>>,
) -> Seq<InstructionView> {
    seq![InstructionView::ListModels] + model_plan(spec.models, live_models) + seq![
        InstructionView::ListRequests,
    ] + request_plan(spec.requests, live_requests)
}

/// The names of the models, in order.
pub fn model_names(models: &Vec<Model>) -> (r: Vec<String>)
    ensures
        names_view(r@) == model_names_of(models_view(models@)),
{
    let mut out: Vec<String> = Vec::new();
    let mut i: usize = 0;
    while i < models.len()
        invariant
            i <= models.len(),
            out@.len() == i,
            forall|j: int| 0 <= j < i ==> #[trigger] out@[j]@ == models@[j].name@,
        decreases models.len() - i,
    {
        out.push(models[i].name.clone());
        i = i + 1;
    }
    assert(names_view(out@) =~= model_names_of(models_view(models@)));
    out
}

/// The names of the requests, in order.
pub fn request_names(requests: &Vec<Request>) -> (r: Vec<String>)
    ensures
        names_view(r@) == request_names_of(requests_view(requests@)),
{
    let mut out: Vec<String> = Vec::new();
    let mut i: usize = 0;
    while i < requests.len()
        invariant
            i <= requests.len(),
            out@.len() == i,
            forall|j: int| 0 <= j < i ==> #[trigger] out@[j]@ == requests@[j].name@,
        decreases requests.len() - i,
    {
        out.push(requests[i].name.clone());
        i = i + 1;
    }
    assert(names_view(out@) =~= request_names_of(requests_view(requests@)));
    out
}

/// The live names that `wanted` does not hold, in live order.
pub fn stale(live: &Vec<String>, wanted: &Vec<String>) -> (r: Vec<String>)
    ensures
        names_view(r@) == stale_names(names_view(live@), names_view(wanted@)),
{
    let ghost lv = names_view(live@);
    let ghost wv = names_view(wanted@);
    let mut out: Vec<String> = Vec::new();
    let mut i: usize = 0;
    assert(lv.take(0) =~= Seq::<Seq<char>>::empty());
    assert(names_view(out@) =~= Seq::<Seq<char>>::empty());
    while i < live.len()
        invariant
            i <= live.len(),
            lv == names_view(live@),
            wv == names_view(wanted@),
            names_view(out@) == stale_names(lv.take(i as int), wv),
        decreases live.len() - i,
    {
        assert(lv.take(i + 1).drop_last() =~= lv.take(i as int));
        assert(lv.take(i + 1).last() == live@[i as int]@);
        if !contains_name(wanted, &live[i]) {
            let ghost before = names_view(out@);
            out.push(live[i].clone());
            assert(names_view(out@) =~= before.push(live@[i as int]@));
        }
        i = i + 1;
    }
    assert(lv.take(live.len() as int) =~= lv);
    out
}

/// The model directives of a pass, given the names of the live models.
pub fn plan_models(spec: &Vec<Model>, live: &Vec<String>) -> (r: Vec<Instruction>)
    ensures
        instructions_view(r@) == model_plan(models_view(spec@), names_view(live@)),
{
    let wanted = model_names(spec);
    let gone = stale(live, &wanted);
    let mut out: Vec<Instruction> = Vec::new();
    let mut i: usize = 0;
    while i < gone.len()
        invariant
            i <= gone.len(),
            out@.len() == i,
            forall|j: int| 0 <= j < i ==> #[trigger] out@[j]@ == InstructionView::DeleteModel(gone@[j]@),
        decreases gone.len() - i,
    {
        out.push(Instruction::DeleteModel(gone[i].clone()));
        i = i + 1;
    }
    let mut k: usize = 0;
    while k < spec.len()
        invariant
            k <= spec.len(),
            out@.len() == gone@.len() + k,
            forall|j: int| 0 <= j < gone@.len() ==> #[trigger] out@[j]@ == InstructionView::DeleteModel(gone@[j]@),
            forall|j: int| 0 <= j < k ==> #[trigger] out@[gone@.len() + j]@ == InstructionView::UpdateModel(spec@[j]@),
        decreases spec.len() - k,
    {
        out.push(Instruction::UpdateModel(spec[k].clone()));
        proof {
            assert(out@[gone@.len() + k as int]@ == InstructionView::UpdateModel(spec@[k as int]@));
        }
        k = k + 1;
    }
    let ghost plan = model_plan(models_view(spec@), names_view(live@));
    assert forall|j: int| 0 <= j < out@.len() implies #[trigger] instructions_view(out@)[j] == plan[j] by {
        if j >= gone@.len() {
            assert(out@[gone@.len() + (j - gone@.len())]@ == InstructionView::UpdateModel(spec@[j - gone@.len()]@));
        } else {
            assert(names_view(gone@)[j] == gone@[j]@);
        }
    }
    assert(instructions_view(out@) =~= plan);
    out
}

/// The request directives of a pass, given the names of the live requests.
pub fn plan_requests(spec: &Vec<Request>, live: &Vec<String>) -> (r: Vec<Instruction>)
    ensures
        instructions_view(r@) == request_plan(requests_view(spec@), names_view(live@)),
{
    let wanted = request_names(spec);
    let gone = stale(live, &wanted);
    let mut out: Vec<Instruction> = Vec::new();
    let mut i: usize = 0;
    while i < gone.len()
        invariant
            i <= gone.len(),
            out@.len() == i,
            forall|j: int| 0 <= j < i ==> #[trigger] out@[j]@ == InstructionView::DeleteRequest(gone@[j]@),
        decreases gone.len() - i,
    {
        out.push(Instruction::DeleteRequest(gone[i].clone()));
        i = i + 1;
    }
    let mut k: usize = 0;
    while k < spec.len()
        invariant
            k <= spec.len(),
            out@.len() == gone@.len() + k,
            forall|j: int| 0 <= j < gone@.len() ==> #[trigger] out@[j]@ == InstructionView::DeleteRequest(gone@[j]@),
            forall|j: int| 0 <= j < k ==> #[trigger] out@[gone@.len() + j]@ == InstructionView::UpdateRequest(spec@[j]@),
        decreases spec.len() - k,
    {
        out.push(Instruction::UpdateRequest(spec[k].clone()));
        proof {
            assert(out@[gone@.len() + k as int]@ == InstructionView::UpdateRequest(spec@[k as int]@));
        }
        k = k + 1;
    }
    let ghost plan = request_plan(requests_view(spec@), names_view(live@));
    assert forall|j: int| 0 <= j < out@.len() implies #[trigger] instructions_view(out@)[j] == plan[j] by {
        if j >= gone@.len() {
            assert(out@[gone@.len() + (j - gone@.len())]@ == InstructionView::UpdateRequest(spec@[j - gone@.len()]@));
        } else {
            assert(names_view(gone@)[j] == gone@[j]@);
        }
    }
    assert(instructions_view(out@) =~= plan);
    out
}

proof fn lemma_stale_members(live: Seq<Seq<char>>, wanted: Seq<Seq<char>>)
    ensures
        forall|k: int|
            0 <= k < stale_names(live, wanted).len() ==> !wanted.contains(
                #[trigger] stale_names(live, wanted)[k],
            ) && live.contains(stale_names(live, wanted)[k]),
    decreases live.len(),
{
    if live.len() > 0 {
        lemma_stale_members(live.drop_last(), wanted);
        let prev = stale_names(live.drop_last(), wanted);
        assert forall|k: int| 0 <= k < prev.len() implies live.contains(#[trigger] prev[k]) by {
            let w = choose|w: int| 0 <= w < live.drop_last().len() && live.drop_last()[w] == prev[k];
            assert(live[w] == prev[k]);
        }
        if !wanted.contains(live.last()) {
            assert(live[live.len() - 1] == live.last());
        }
    }
}

proof fn lemma_stale_none(live: Seq<Seq<char>>, wanted: Seq<Seq<char>>)
    requires
        forall|k: int| 0 <= k < live.len() ==> wanted.contains(#[trigger] live[k]),
    ensures
        stale_names(live, wanted) == Seq::<Seq<char>>::empty(),
    decreases live.len(),
{
    if live.len() > 0 {
        assert(wanted.contains(live[live.len() - 1]));
        lemma_stale_none(live.drop_last(), wanted);
    }
}

/// Sync is idempotent: when the adaptor already lists exactly the specified
/// names, a pass (run by `SyncPass`, every call succeeding) deletes nothing
/// and sends each specified model and request exactly once, in order; the
/// calls depend on the specification alone, so a second pass makes the same
/// calls.
pub proof fn lemma_sync_idempotent(
    spec: ProjectView,
    live_models: Seq<Seq<char>>,
    live_requests: Seq<Seq<char>>,
)
    requires
        live_models == model_names_of(spec.models),
        live_requests == request_names_of(spec.requests),
    ensures
        seq![InstructionView::ListModels] + performed(
            spec,
            PassView::ListingModels,
            live_models,
            live_requests,
        ) == pass_calls(spec, live_models, live_requests),
        pass_calls(spec, live_models, live_requests) == seq![InstructionView::ListModels]
            + spec.models.map_values(|m: ModelView| InstructionView::UpdateModel(m)) + seq![
            InstructionView::ListRequests,
        ] + spec.requests.map_values(|r: RequestView| InstructionView::UpdateRequest(r)),
        forall|i: int|
            0 <= i < pass_calls(spec, live_models, live_requests).len() ==> !(
            #[trigger] pass_calls(spec, live_models, live_requests)[i] is DeleteModel) && !(
            pass_calls(spec, live_models, live_requests)[i] is DeleteRequest),
{
    lemma_pass_performs_calls(spec, live_models, live_requests);
    assert forall|k: int| 0 <= k < live_models.len() implies model_names_of(spec.models).contains(
        #[trigger] live_models[k],
    ) by {}
    assert forall|k: int| 0 <= k < live_requests.len() implies request_names_of(
        spec.requests,
    ).contains(#[trigger] live_requests[k]) by {}
    lemma_stale_none(live_models, model_names_of(spec.models));
    lemma_stale_none(live_requests, request_names_of(spec.requests));
    let ums = spec.models.map_values(|m: ModelView| InstructionView::UpdateModel(m));
    let urs = spec.requests.map_values(|r: RequestView| InstructionView::UpdateRequest(r));
    assert(model_plan(spec.models, live_models) =~= ums);
    assert(request_plan(spec.requests, live_requests) =~= urs);
    let calls = pass_calls(spec, live_models, live_requests);
    assert forall|i: int| 0 <= i < calls.len() implies !(#[trigger] calls[i] is DeleteModel) && !(
    calls[i] is DeleteRequest) by {
        let a = seq![InstructionView::ListModels] + ums;
        let b = a + seq![InstructionView::ListRequests];
        if i < a.len() {
            if i > 0 {
                assert(a[i] == ums[i - 1]);
            }
        } else if i >= b.len() {
            assert(calls[i] == urs[i - b.len()]);
        }
    }
}

/// Deletions come first and never meet an update: in the model directives of
/// a pass, every deletion precedes every update, each deleted name is listed
/// live and absent from the specification, and no update carries a deleted name.
pub proof fn lemma_deletions_first(spec: Seq<ModelView>, live: Seq<Seq<char>>)
    ensures
        forall|i: int, j: int|
            0 <= i < j < model_plan(spec, live).len() && (#[trigger] model_plan(spec, live)[j] is DeleteModel)
                ==> (#[trigger] model_plan(spec, live)[i] is DeleteModel),
        forall|i: int|
            0 <= i < model_plan(spec, live).len() && (#[trigger] model_plan(spec, live)[i] is DeleteModel)
                ==> live.contains(model_plan(spec, live)[i]->DeleteModel_0) && !model_names_of(
                spec,
            ).contains(model_plan(spec, live)[i]->DeleteModel_0),
        forall|i: int, j: int|
            0 <= i < model_plan(spec, live).len() && 0 <= j < model_plan(spec, live).len() && (
            #[trigger] model_plan(spec, live)[i] is DeleteModel) && (#[trigger] model_plan(
                spec,
                live,
            )[j] is UpdateModel) ==> model_plan(spec, live)[j]->UpdateModel_0.name != model_plan(
                spec,
                live,
            )[i]->DeleteModel_0,
{
    let gone = stale_names(live, model_names_of(spec));
    let dels = gone.map_values(|n: Seq<char>| InstructionView::DeleteModel(n));
    let ups = spec.map_values(|m: ModelView| InstructionView::UpdateModel(m));
    let plan = model_plan(spec, live);
    lemma_stale_members(live, model_names_of(spec));
    assert(plan == dels + ups);
    assert forall|i: int| 0 <= i < plan.len() implies (#[trigger] plan[i] is DeleteModel) <==> i
        < dels.len() by {
        if i >= dels.len() {
            assert(plan[i] == ups[i - dels.len()]);
        } else {
            assert(plan[i] == dels[i]);
        }
    }
    assert forall|i: int| 0 <= i < plan.len() && (#[trigger] plan[i] is DeleteModel) implies live.contains(
        plan[i]->DeleteModel_0,
    ) && !model_names_of(spec).contains(plan[i]->DeleteModel_0) by {
        assert(plan[i] == dels[i]);
        assert(gone[i] == plan[i]->DeleteModel_0);
    }
    assert forall|i: int, j: int|
        0 <= i < plan.len() && 0 <= j < plan.len() && (#[trigger] plan[i] is DeleteModel) && (
        #[trigger] plan[j] is UpdateModel) implies plan[j]->UpdateModel_0.name
        != plan[i]->DeleteModel_0 by {
        assert(plan[i] == dels[i]);
        assert(gone[i] == plan[i]->DeleteModel_0);
        assert(plan[j] == ups[j - dels.len()]);
        let k = j - dels.len();
        assert(model_names_of(spec)[k] == spec[k].name);
    }
}

/// Where a sync pass stands. In each state one directive is in flight: the
/// listing, or the directive of the queue before `sent`.
#[derive(Debug)]
pub enum SyncPass {
    ListingModels,
    Models { queue: Vec<Instruction>, sent: usize },
    ListingRequests,
    Requests { queue: Vec<Instruction>, sent: usize },
    Over,
}

pub enum PassView {
    ListingModels,
    Models { queue: Seq<InstructionView>, sent: nat },
    ListingRequests,
    Requests { queue: Seq<InstructionView>, sent: nat },
    Over,
}

impl View for SyncPass {
    type V = PassView;

    open spec fn view(&self) -> PassView {
        match self {
            SyncPass::ListingModels => PassView::ListingModels,
            SyncPass::Models { queue, sent } => PassView::Models {
                queue: instructions_view(queue@),
                sent: *sent as nat,
            },
            SyncPass::ListingRequests => PassView::ListingRequests,
            SyncPass::Requests { queue, sent } => PassView::Requests {
                queue: instructions_view(queue@),
                sent: *sent as nat,
            },
            SyncPass::Over => PassView::Over,
        }
    }
}

impl SyncPass {
    /// Whether each queue is non-empty and its in-flight directive exists.
    pub open spec fn wf(&self) -> bool {
        match self {
            SyncPass::Models { queue, sent } => 1 <= *sent <= queue@.len(),
            SyncPass::Requests { queue, sent } => 1 <= *sent <= queue@.len(),
            _ => true,
        }
    }
}

/// What the adaptor made of the directive in flight.
#[derive(Debug)]
pub enum Event {
    /// A listing came back with these names.
    Listed(Vec<String>),
    /// Any other directive succeeded.
    Performed,
    /// The directive failed.
    Failed(AdaptorError),
}

pub enum EventView {
    Listed(Seq<Seq<char>>),
    Performed,
    Failed,
}

pub open spec fn event_view(e: Event) -> EventView {
    match e {
        Event::Listed(names) => EventView::Listed(names_view(names@)),
        Event::Performed => EventView::Performed,
        Event::Failed(_) => EventView::Failed,
    }
}

/// What the caller does next.
#[derive(Debug)]
pub enum Step {
    Perform(Instruction),
    Finished,
    /// The pass stops at a failed directive.
    Aborted(SyncError),
}

pub enum StepView {
    Perform(InstructionView),
    Finished,
    Aborted(Option<Seq<char>>),
}

pub open spec fn step_view(s: Step) -> StepView {
    match s {
        Step::Perform(i) => StepView::Perform(i@),
        Step::Finished => StepView::Finished,
        Step::Aborted(e) => StepView::Aborted(opt_view(e.name)),
    }
}

/// The directive in flight in a state.
pub open spec fn in_flight(p: PassView) -> Option<InstructionView> {
    match p {
        PassView::ListingModels => Some(InstructionView::ListModels),
        PassView::Models { queue, sent } => Some(queue[sent - 1]),
        PassView::ListingRequests => Some(InstructionView::ListRequests),
        PassView::Requests { queue, sent } => Some(queue[sent - 1]),
        PassView::Over => None,
    }
}

/// Starting a queue of directives, or moving on when it is empty.
pub open spec fn begin_models(plan: Seq<InstructionView>) -> (PassView, StepView) {
    if plan.len() == 0 {
        (PassView::ListingRequests, StepView::Perform(InstructionView::ListRequests))
    } else {
        (PassView::Models { queue: plan, sent: 1 }, StepView::Perform(plan[0]))
    }
}

pub open spec fn begin_requests(plan: Seq<InstructionView>) -> (PassView, StepView) {
    if plan.len() == 0 {
        (PassView::Over, StepView::Finished)
    } else {
        (PassView::Requests { queue: plan, sent: 1 }, StepView::Perform(plan[0]))
    }
}

/// One transition of a pass: a failure ends it, naming the directive's
/// subject; a listing starts the half's plan; a success sends the next
/// directive, the request listing after the last model directive, and ends
/// the pass after the last request directive. A listing answer to another
/// directive counts as a success, and a success answering a listing as an
/// empty listing.
pub open spec fn transition(spec: ProjectView, p: PassView, e: EventView) -> (PassView, StepView) {
    match e {
        EventView::Failed => match in_flight(p) {
            Some(i) => (PassView::Over, StepView::Aborted(subject_of(i))),
            None => (PassView::Over, StepView::Finished),
        },
        _ => {
            let names = match e {
                EventView::Listed(n) => n,
                _ => Seq::empty(),
            };
            match p {
                PassView::ListingModels => begin_models(model_plan(spec.models, names)),
                PassView::Models { queue, sent } => if sent < queue.len() {
                    (PassView::Models { queue, sent: sent + 1 }, StepView::Perform(queue[sent as int]))
                } else {
                    (PassView::ListingRequests, StepView::Perform(InstructionView::ListRequests))
                },
                PassView::ListingRequests => begin_requests(request_plan(spec.requests, names)),
                PassView::Requests { queue, sent } => if sent < queue.len() {
                    (PassView::Requests { queue, sent: sent + 1 }, StepView::Perform(queue[sent as int]))
                } else {
                    (PassView::Over, StepView::Finished)
                },
                PassView::Over => (PassView::Over, StepView::Finished),
            }
        },
    }
}

fn clone_instruction(i: &Instruction) -> (r: Instruction)
    ensures
        r@ == i@,
{
    match i {
        Instruction::ListModels => Instruction::ListModels,
        Instruction::ListRequests => Instruction::ListRequests,
        Instruction::UpdateModel(m) => Instruction::UpdateModel(m.clone()),
        Instruction::UpdateRequest(r) => Instruction::UpdateRequest(r.clone()),
        Instruction::DeleteModel(n) => Instruction::DeleteModel(n.clone()),
        Instruction::DeleteRequest(n) => Instruction::DeleteRequest(n.clone()),
    }
}

impl SyncPass {
    /// A new pass, and its first directive: list the live models.
    pub fn start() -> (r: (SyncPass, Instruction))
        ensures
            r.0@ == PassView::ListingModels,
            r.1@ == InstructionView::ListModels,
    {
        (SyncPass::ListingModels, Instruction::ListModels)
    }

    /// Takes the outcome of the directive in flight; gives the next state
    /// and step.
    pub fn advance(self, spec: &Project, event: Event) -> (r: (SyncPass, Step))
        requires
            self.wf(),
        ensures
            r.0.wf(),
            (r.0@, step_view(r.1)) == transition(spec@, self@, event_view(event)),
            r.1 matches Step::Aborted(e) ==> (event matches Event::Failed(x) && e.error == x),
    {
        let names = match event {
            Event::Failed(error) => {
                let r = match &self {
                    SyncPass::ListingModels => Step::Aborted(sync_error(&Instruction::ListModels, error)),
                    SyncPass::Models { queue, sent } => Step::Aborted(sync_error(&queue[*sent - 1], error)),
                    SyncPass::ListingRequests => Step::Aborted(sync_error(&Instruction::ListRequests, error)),
                    SyncPass::Requests { queue, sent } => Step::Aborted(sync_error(&queue[*sent - 1], error)),
                    SyncPass::Over => Step::Finished,
                };
                return (SyncPass::Over, r);
            },
            Event::Listed(names) => names,
            Event::Performed => Vec::new(),
        };
        assert(names_view(names@) =~= match event_view(event) {
            EventView::Listed(n) => n,
            _ => Seq::<Seq<char>>::empty(),
        });
        match self {
            SyncPass::ListingModels => {
                let plan = plan_models(&spec.models, &names);
                if plan.len() == 0 {
                    (SyncPass::ListingRequests, Step::Perform(Instruction::ListRequests))
                } else {
                    let first = clone_instruction(&plan[0]);
                    (SyncPass::Models { queue: plan, sent: 1 }, Step::Perform(first))
                }
            },
            SyncPass::Models { queue, sent } => {
                if sent < queue.len() {
                    let next = clone_instruction(&queue[sent]);
                    (SyncPass::Models { queue, sent: sent + 1 }, Step::Perform(next))
                } else {
                    (SyncPass::ListingRequests, Step::Perform(Instruction::ListRequests))
                }
            },
            SyncPass::ListingRequests => {
                let plan = plan_requests(&spec.requests, &names);
                if plan.len() == 0 {
                    (SyncPass::Over, Step::Finished)
                } else {
                    let first = clone_instruction(&plan[0]);
                    (SyncPass::Requests { queue: plan, sent: 1 }, Step::Perform(first))
                }
            },
            SyncPass::Requests { queue, sent } => {
                if sent < queue.len() {
                    let next = clone_instruction(&queue[sent]);
                    (SyncPass::Requests { queue, sent: sent + 1 }, Step::Perform(next))
                } else {
                    (SyncPass::Over, Step::Finished)
                }
            },
            SyncPass::Over => (SyncPass::Over, Step::Finished),
        }
    }
}

pub open spec fn pass_wf(p: PassView) -> bool {
    match p {
        PassView::Models { queue, sent } => 1 <= sent <= queue.len(),
        PassView::Requests { queue, sent } => 1 <= sent <= queue.len(),
        _ => true,
    }
}

/// The answer of an adaptor whose calls all succeed and whose listings give
/// `live_models` and `live_requests`.
pub open spec fn answer(p: PassView, live_models: Seq<Seq<char>>, live_requests: Seq<Seq<char>>) -> EventView {
    match p {
        PassView::ListingModels => EventView::Listed(live_models),
        PassView::ListingRequests => EventView::Listed(live_requests),
        _ => EventView::Performed,
    }
}

pub open spec fn pass_measure(
    spec: ProjectView,
    p: PassView,
    live_models: Seq<Seq<char>>,
    live_requests: Seq<Seq<char>>,
) -> int {
    let rp = request_plan(spec.requests, live_requests).len() as int;
    match p {
        PassView::ListingModels => model_plan(spec.models, live_models).len() + rp + 3,
        PassView::Models { queue, sent } => queue.len() - sent + rp + 2,
        PassView::ListingRequests => rp + 1,
        PassView::Requests { queue, sent } => queue.len() - sent,
        PassView::Over => 0,
    }
}

/// The directives that a pass performs from state `p` on, when every call
/// succeeds.
pub open spec fn performed(
    spec: ProjectView,
    p: PassView,
    live_models: Seq<Seq<char>>,
    live_requests: Seq<Seq<char>>,
) -> Seq<InstructionView>
    decreases pass_measure(spec, p, live_models, live_requests),
{
    if !pass_wf(p) || pass_measure(spec, p, live_models, live_requests) <= 0 {
        Seq::empty()
    } else {
        match transition(spec, p, answer(p, live_models, live_requests)) {
            (next, StepView::Perform(i)) => if pass_measure(spec, next, live_models, live_requests)
                < pass_measure(spec, p, live_models, live_requests) {
                seq![i] + performed(spec, next, live_models, live_requests)
            } else {
                Seq::empty()
            },
            _ => Seq::empty(),
        }
    }
}

proof fn lemma_performed_requests(
    spec: ProjectView,
    queue: Seq<InstructionView>,
    sent: nat,
    lm: Seq<Seq<char>>,
    lr: Seq<Seq<char>>,
)
    requires
        1 <= sent <= queue.len(),
    ensures
        performed(spec, PassView::Requests { queue, sent }, lm, lr) == queue.skip(sent as int),
    decreases queue.len() - sent,
{
    let p = PassView::Requests { queue, sent };
    if sent < queue.len() {
        lemma_performed_requests(spec, queue, sent + 1, lm, lr);
        assert(queue.skip(sent as int) =~= seq![queue[sent as int]] + queue.skip(sent + 1 as int));
    } else {
        assert(queue.skip(sent as int) =~= Seq::<InstructionView>::empty());
    }
}

proof fn lemma_performed_models(
    spec: ProjectView,
    queue: Seq<InstructionView>,
    sent: nat,
    lm: Seq<Seq<char>>,
    lr: Seq<Seq<char>>,
)
    requires
        1 <= sent <= queue.len(),
    ensures
        performed(spec, PassView::Models { queue, sent }, lm, lr) == queue.skip(sent as int) + seq![
            InstructionView::ListRequests,
        ] + performed(spec, PassView::ListingRequests, lm, lr),
    decreases queue.len() - sent,
{
    if sent < queue.len() {
        lemma_performed_models(spec, queue, sent + 1, lm, lr);
        assert(queue.skip(sent as int) =~= seq![queue[sent as int]] + queue.skip(sent + 1 as int));
        assert(seq![queue[sent as int]] + (queue.skip(sent + 1 as int) + seq![InstructionView::ListRequests]
            + performed(spec, PassView::ListingRequests, lm, lr)) =~= queue.skip(sent as int)
            + seq![InstructionView::ListRequests] + performed(
            spec,
            PassView::ListingRequests,
            lm,
            lr,
        ));
    } else {
        assert(queue.skip(sent as int) =~= Seq::<InstructionView>::empty());
        assert(Seq::<InstructionView>::empty() + seq![InstructionView::ListRequests] + performed(
            spec,
            PassView::ListingRequests,
            lm,
            lr,
        ) =~= seq![InstructionView::ListRequests] + performed(
            spec,
            PassView::ListingRequests,
            lm,
            lr,
        ));
    }
}

/// A pass in which every call succeeds performs exactly the calls of
/// `pass_calls`: the model listing, the model directives, the request
/// listing, the request directives.
pub proof fn lemma_pass_performs_calls(spec: ProjectView, lm: Seq<Seq<char>>, lr: Seq<Seq<char>>)
    ensures
        seq![InstructionView::ListModels] + performed(spec, PassView::ListingModels, lm, lr)
            == pass_calls(spec, lm, lr),
{
    let mp = model_plan(spec.models, lm);
    let rp = request_plan(spec.requests, lr);
    let tail = performed(spec, PassView::ListingRequests, lm, lr);
    if rp.len() > 0 {
        lemma_performed_requests(spec, rp, 1, lm, lr);
        assert(seq![rp[0]] + rp.skip(1) =~= rp);
    }
    assert(tail == rp);
    if mp.len() > 0 {
        lemma_performed_models(spec, mp, 1, lm, lr);
        assert(seq![mp[0]] + (mp.skip(1) + seq![InstructionView::ListRequests] + rp) =~= mp + seq![
            InstructionView::ListRequests,
        ] + rp);
    } else {
        assert(mp =~= Seq::<InstructionView>::empty());
    }
    assert(seq![InstructionView::ListModels] + (mp + seq![InstructionView::ListRequests] + rp)
        =~= pass_calls(spec, lm, lr));
}

} // verus!
