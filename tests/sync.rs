use cdd::service::AdaptorError;
use cdd::sync::{model_names, plan_models, plan_requests, stale, Event, Instruction, Step, SyncPass};
use cdd::{Info, Project};
use cdd::{Method, Model, Request, Variable, VariableType};

fn model(name: &str) -> Model {
    Model {
        name: name.to_string(),
        vars: vec![Variable { name: "id".to_string(), variable_type: VariableType::IntType, optional: false, value: None }],
    }
}

fn request(name: &str) -> Request {
    Request {
        name: name.to_string(),
        path: "/x".to_string(),
        vars: vec![],
        method: Method::Get_,
        response_type: "ResponseEmpty".to_string(),
        error_type: "ResponseEmpty".to_string(),
    }
}

fn describe(plan: &[Instruction]) -> Vec<String> {
    plan.iter()
        .map(|i| match i {
            Instruction::ListModels => "list-models".to_string(),
            Instruction::ListRequests => "list-requests".to_string(),
            Instruction::UpdateModel(m) => format!("update-model {}", m.name),
            Instruction::UpdateRequest(r) => format!("update-request {}", r.name),
            Instruction::DeleteModel(n) => format!("delete-model {}", n),
            Instruction::DeleteRequest(n) => format!("delete-request {}", n),
        })
        .collect()
}

fn names(list: &[&str]) -> Vec<String> {
    list.iter().map(|s| s.to_string()).collect()
}

#[test]
fn deletion_scenario() {
    let spec = vec![model("C"), model("B")];
    let plan = plan_models(&spec, &names(&["A", "B"]));
    assert_eq!(describe(&plan), vec!["delete-model A", "update-model C", "update-model B"]);
}

#[test]
fn sync_is_idempotent() {
    let spec = vec![model("A"), model("B")];
    let live = model_names(&spec);
    let first = describe(&plan_models(&spec, &live));
    let second = describe(&plan_models(&spec, &live));
    assert_eq!(first, vec!["update-model A", "update-model B"]);
    assert_eq!(first, second);
    let reqs = vec![request("getrequest")];
    let plan = plan_requests(&reqs, &names(&["getrequest"]));
    assert_eq!(describe(&plan), vec!["update-request getrequest"]);
}

#[test]
fn stale_requests_are_deleted_first() {
    let reqs = vec![request("b")];
    let plan = plan_requests(&reqs, &names(&["a", "b", "c"]));
    assert_eq!(describe(&plan), vec!["delete-request a", "delete-request c", "update-request b"]);
}

#[test]
fn stale_names_keep_live_order() {
    assert_eq!(stale(&names(&["x", "y", "z"]), &names(&["y"])), names(&["x", "z"]));
    assert!(stale(&names(&[]), &names(&["y"])).is_empty());
}

#[test]
fn empty_live_project_gets_everything_inserted() {
    let spec = vec![model("A")];
    assert_eq!(describe(&plan_models(&spec, &vec![])), vec!["update-model A"]);
}

fn spec_project(models: Vec<Model>, requests: Vec<Request>) -> Project {
    Project { info: Info { host: String::new(), endpoint: String::new() }, models, requests }
}

/// Runs a whole pass against a fake adaptor that lists `live_models` and
/// `live_requests` and fails the directive described as `failing`.
fn run_pass(spec: &Project, live_models: &[&str], live_requests: &[&str], failing: Option<&str>) -> (Vec<String>, Result<(), Option<String>>) {
    let mut calls = Vec::new();
    let (mut pass, mut next) = SyncPass::start();
    loop {
        let call = describe(std::slice::from_ref(&next)).remove(0);
        calls.push(call.clone());
        let event = if failing == Some(call.as_str()) {
            Event::Failed(AdaptorError::ProcessFailed { stderr: "boom".to_string() })
        } else {
            match next {
                Instruction::ListModels => Event::Listed(names(live_models)),
                Instruction::ListRequests => Event::Listed(names(live_requests)),
                _ => Event::Performed,
            }
        };
        let (state, step) = pass.advance(spec, event);
        pass = state;
        match step {
            Step::Perform(i) => next = i,
            Step::Finished => return (calls, Ok(())),
            Step::Aborted(e) => return (calls, Err(e.name)),
        }
    }
}

#[test]
fn pass_runs_deletion_scenario() {
    let spec = spec_project(vec![model("C"), model("B")], vec![request("r")]);
    let (calls, result) = run_pass(&spec, &["A", "B"], &["r", "old"], None);
    assert_eq!(
        calls,
        vec![
            "list-models",
            "delete-model A",
            "update-model C",
            "update-model B",
            "list-requests",
            "delete-request old",
            "update-request r",
        ]
    );
    assert_eq!(result, Ok(()));
}

#[test]
fn pass_is_repeatable_when_in_sync() {
    let spec = spec_project(vec![model("A")], vec![request("r")]);
    let first = run_pass(&spec, &["A"], &["r"], None);
    let second = run_pass(&spec, &["A"], &["r"], None);
    assert_eq!(first.0, vec!["list-models", "update-model A", "list-requests", "update-request r"]);
    assert_eq!(first, second);
}

#[test]
fn pass_stops_at_first_failure() {
    let spec = spec_project(vec![model("A"), model("B")], vec![request("r")]);
    let (calls, result) = run_pass(&spec, &[], &[], Some("update-model A"));
    assert_eq!(calls, vec!["list-models", "update-model A"]);
    assert_eq!(result, Err(Some("A".to_string())));
    let (calls, result) = run_pass(&spec, &[], &[], Some("list-models"));
    assert_eq!(calls, vec!["list-models"]);
    assert_eq!(result, Err(None));
}

#[test]
fn pass_with_nothing_to_do() {
    let spec = spec_project(vec![], vec![]);
    let (calls, result) = run_pass(&spec, &[], &[], None);
    assert_eq!(calls, vec!["list-models", "list-requests"]);
    assert_eq!(result, Ok(()));
}
