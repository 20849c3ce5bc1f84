use cdd::config::Config;
use cdd::error::CliError;
use cdd::service::{call_outcome, expand_home, listed_models, sync_error, AdaptorError, CDDService, Payload};
use cdd::sync::Instruction;
use cdd::wire::Json;
use cdd::{Method, Model};

fn service() -> CDDService {
    CDDService {
        bin_path: "~/.cdd/bin/cdd-rust".to_string(),
        template_path: "~/.cdd/templates/rust".to_string(),
        project_path: "./rust".to_string(),
        component_file: "src/models.rs".to_string(),
        requests_file: "src/routes.rs".to_string(),
    }
}

#[test]
fn adaptor_not_found_before_arguments() {
    match service().invocation(false, &Instruction::ListModels) {
        Err(AdaptorError::AdaptorNotFound { path }) => assert_eq!(path, "~/.cdd/bin/cdd-rust"),
        other => panic!("unexpected {:?}", other),
    }
}

#[test]
fn invocations() {
    let s = service();
    let list = s.invocation(true, &Instruction::ListModels).unwrap();
    assert_eq!(list.subcommand, "list-models");
    assert_eq!(list.target, "./rust/src/models.rs");
    assert!(list.payload.is_none());
    let del = s.invocation(true, &Instruction::DeleteRequest("x".to_string())).unwrap();
    assert_eq!(del.subcommand, "delete-request");
    assert_eq!(del.target, "./rust/src/routes.rs");
    assert!(matches!(del.payload, Some(Payload::Name(ref n)) if n == "x"));
    let up = s.invocation(true, &Instruction::UpdateModel(Model { name: "A".to_string(), vars: vec![] })).unwrap();
    assert_eq!(up.subcommand, "update-model");
    assert!(matches!(up.payload, Some(Payload::Encoded(Json::Object(_)))));
}

#[test]
fn model_and_request_files() {
    assert_eq!(service().model_files(), "./rust/src/models.rs");
    assert_eq!(service().request_files(), "./rust/src/routes.rs");
}

#[test]
fn failed_directive_names_its_subject() {
    let e = sync_error(&Instruction::DeleteModel("A".to_string()), AdaptorError::ProcessFailed { stderr: "boom".to_string() });
    assert_eq!(e.name, Some("A".to_string()));
    let e = sync_error(&Instruction::ListRequests, AdaptorError::ProcessFailed { stderr: "boom".to_string() });
    assert_eq!(e.name, None);
}

#[test]
fn outcomes() {
    assert_eq!(call_outcome(true, "out".to_string(), "err".to_string()).unwrap(), "out");
    match call_outcome(false, "out".to_string(), "err".to_string()) {
        Err(AdaptorError::ProcessFailed { stderr }) => assert_eq!(stderr, "err"),
        other => panic!("unexpected {:?}", other),
    }
}

#[test]
fn malformed_listing() {
    match listed_models("oops".to_string(), Err("expected value".to_string())) {
        Err(AdaptorError::MalformedResponse { raw, cause }) => {
            assert_eq!(raw, "oops");
            assert_eq!(cause, "expected value");
        }
        other => panic!("unexpected {:?}", other),
    }
    assert!(matches!(
        listed_models("{}".to_string(), Ok(Json::Object(vec![]))),
        Err(AdaptorError::MalformedResponse { .. })
    ));
    assert!(listed_models("[]".to_string(), Ok(Json::Array(vec![]))).unwrap().is_empty());
}

#[test]
fn home_expansion() {
    assert_eq!(expand_home("~/.cdd/bin", "/home/me"), "/home/me/.cdd/bin");
    assert_eq!(expand_home("/abs", "/home/me"), "/abs");
}

#[test]
fn default_config() {
    let c = Config::new("demo");
    assert_eq!(c.name, "demo");
    assert_eq!(c.version, "0.0.1");
    assert_eq!(c.services.len(), 3);
    assert_eq!(c.services[0].0, "rust");
    assert_eq!(c.services[1].1.bin_path, "~/.cdd/bin/cdd-typescript");
    assert_eq!(c.services[2].1.requests_file, "API/Requests.kt");
    assert_eq!(c.rpc_services[0].server, "localhost:4444");
}

#[test]
fn method_verbs() {
    assert_eq!(Method::Get_.as_string(), "GET");
    assert_eq!(Method::Options_.as_string(), "OPTIONS");
    assert_eq!(Method::Trace_.as_string(), "TRACE");
}

#[test]
fn error_messages() {
    assert_eq!(CliError::InvalidArgument { arg: "x".to_string() }.message(), "invalid argument: x");
    assert_eq!(CliError::UnknownError.message(), "An unknown error has occurred.");
}
