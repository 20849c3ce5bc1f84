//! The adaptor protocol: which subcommand, target file and payload each
//! directive becomes, and what an adaptor's answers mean.

use vstd::prelude::*;
use crate::error::CliError;
use crate::model::{models_view, opt_view, requests_view, Model, Request};
use crate::sync::{Instruction, InstructionView};
use crate::wire::{decode_models, decode_requests, encode_model, encode_request, model_json, models_from, request_json, requests_from, Json, JsonView};

verus! {

/// Why a call to an adaptor failed.
#[derive(Debug)]
pub enum AdaptorError {
    /// No executable at the configured path; no call was made.
    AdaptorNotFound { path: String },
    /// The process exited with a failure status.
    ProcessFailed { stderr: String },
    /// The process succeeded but its output could not be read.
    MalformedResponse { raw: String, cause: String },
}

/// A failed directive of a sync pass: the model or request it concerned
/// (none for a listing) and the adaptor's error.
#[derive(Debug)]
pub struct SyncError {
    pub name: Option<String>,
    pub error: AdaptorError,
}

/// An adaptor, as configured.
#[derive(Debug)]
pub struct CDDService {
    pub bin_path: String,
    pub template_path: String,
    pub project_path: String,
    pub component_file: String,
    pub requests_file: String,
}

/// What follows the subcommand and target file on an adaptor's command line.
#[derive(Debug)]
pub enum Payload {
    /// A bare name.
    Name(String),
    /// A model or request in its wire form.
    Encoded(Json),
}

pub enum PayloadView {
    Name(Seq<char>),
    Encoded(JsonView),
}

/// One adaptor call: `<subcommand> <target> [payload]`.
#[derive(Debug)]
pub struct Invocation {
    pub subcommand: String,
    pub target: String,
    pub payload: Option<Payload>,
}

pub struct InvocationView {
    pub subcommand: Seq<char>,
    pub target: Seq<char>,
    pub payload: Option<PayloadView>,
}

impl View for Invocation {
    type V = InvocationView;

    open spec fn view(&self) -> InvocationView {
        InvocationView {
            subcommand: self.subcommand@,
            target: self.target@,
            payload: match self.payload {
                Some(Payload::Name(n)) => Some(PayloadView::Name(n@)),
                Some(Payload::Encoded(j)) => Some(PayloadView::Encoded(j@)),
                None => None,
            },
        }
    }
}

impl CDDService {
    pub open spec fn model_path(&self) -> Seq<char> {
        self.project_path@ + "/"@ + self.component_file@
    }

    pub open spec fn request_path(&self) -> Seq<char> {
        self.project_path@ + "/"@ + self.requests_file@
    }

    /// The file that holds the adaptor's models.
    pub fn model_files(&self) -> (r: String)
        ensures
            r@ == self.model_path(),
    {
        let mut out = self.project_path.clone();
        out.append("/");
        out.append(self.component_file.as_str());
        out
    }

    /// The file that holds the adaptor's requests.
    pub fn request_files(&self) -> (r: String)
        ensures
            r@ == self.request_path(),
    {
        let mut out = self.project_path.clone();
        out.append("/");
        out.append(self.requests_file.as_str());
        out
    }

    /// The call that performs a directive.
    pub open spec fn invocation_of(&self, i: InstructionView) -> InvocationView {
        match i {
            InstructionView::ListModels => InvocationView {
                subcommand: "list-models"@,
                target: self.model_path(),
                payload: None,
            },
            InstructionView::ListRequests => InvocationView {
                subcommand: "list-requests"@,
                target: self.request_path(),
                payload: None,
            },
            InstructionView::UpdateModel(m) => InvocationView {
                subcommand: "update-model"@,
                target: self.model_path(),
                payload: Some(PayloadView::Encoded(model_json(m))),
            },
            InstructionView::UpdateRequest(r) => InvocationView {
                subcommand: "update-request"@,
                target: self.request_path(),
                payload: Some(PayloadView::Encoded(request_json(r))),
            },
            InstructionView::DeleteModel(n) => InvocationView {
                subcommand: "delete-model"@,
                target: self.model_path(),
                payload: Some(PayloadView::Name(n)),
            },
            InstructionView::DeleteRequest(n) => InvocationView {
                subcommand: "delete-request"@,
                target: self.request_path(),
                payload: Some(PayloadView::Name(n)),
            },
        }
    }

    /// The call that performs `instruction`, given whether the adaptor's
    /// executable exists; when it does not, the call is refused with
    /// `AdaptorNotFound` before any part of it is built.
    pub fn invocation(&self, found: bool, instruction: &Instruction) -> (r: Result<
        Invocation,
        AdaptorError,
    >)
        ensures
            !found ==> (r matches Err(AdaptorError::AdaptorNotFound { path }) && path@
                == self.bin_path@),
            found ==> (r matches Ok(call) && call@ == self.invocation_of(instruction@)),
    {
        if !found {
            return Err(AdaptorError::AdaptorNotFound { path: self.bin_path.clone() });
        }
        let call = match instruction {
            Instruction::ListModels => Invocation {
                subcommand: "list-models".to_string(),
                target: self.model_files(),
                payload: None,
            },
            Instruction::ListRequests => Invocation {
                subcommand: "list-requests".to_string(),
                target: self.request_files(),
                payload: None,
            },
            Instruction::UpdateModel(m) => Invocation {
                subcommand: "update-model".to_string(),
                target: self.model_files(),
                payload: Some(Payload::Encoded(encode_model(m))),
            },
            Instruction::UpdateRequest(q) => Invocation {
                subcommand: "update-request".to_string(),
                target: self.request_files(),
                payload: Some(Payload::Encoded(encode_request(q))),
            },
            Instruction::DeleteModel(n) => Invocation {
                subcommand: "delete-model".to_string(),
                target: self.model_files(),
                payload: Some(Payload::Name(n.clone())),
            },
            Instruction::DeleteRequest(n) => Invocation {
                subcommand: "delete-request".to_string(),
                target: self.request_files(),
                payload: Some(Payload::Name(n.clone())),
            },
        };
        Ok(call)
    }
}

/// The name a directive concerns: the model or request it sends or deletes.
pub open spec fn subject_of(i: InstructionView) -> Option<Seq<char>> {
    match i {
        InstructionView::UpdateModel(m) => Some(m.name),
        InstructionView::UpdateRequest(r) => Some(r.name),
        InstructionView::DeleteModel(n) => Some(n),
        InstructionView::DeleteRequest(n) => Some(n),
        _ => None,
    }
}

/// The error of a sync pass whose directive `instruction` failed.
pub fn sync_error(instruction: &Instruction, error: AdaptorError) -> (r: SyncError)
    ensures
        opt_view(r.name) == subject_of(instruction@),
        r.error == error,
{
    let name = match instruction {
        Instruction::UpdateModel(m) => Some(m.name.clone()),
        Instruction::UpdateRequest(q) => Some(q.name.clone()),
        Instruction::DeleteModel(n) => Some(n.clone()),
        Instruction::DeleteRequest(n) => Some(n.clone()),
        _ => None,
    };
    SyncError { name, error }
}

/// The models in an adaptor's answer to a listing: `raw` is its output and
/// `parsed` that output read as JSON, or why it could not be read.
pub fn listed_models(raw: String, parsed: Result<Json, String>) -> (r: Result<
    Vec<Model>,
    AdaptorError,
>)
    ensures
        match parsed {
            Err(cause) => r matches Err(AdaptorError::MalformedResponse { raw: x, cause: c })
                && x == raw && c == cause,
            Ok(j) => match models_from(j@) {
                Some(ms) => r matches Ok(out) && models_view(out@) == ms,
                None => r matches Err(AdaptorError::MalformedResponse { raw: x, .. }) && x == raw,
            },
        },
{
    match parsed {
        Err(cause) => Err(AdaptorError::MalformedResponse { raw, cause }),
        Ok(j) => match decode_models(&j) {
            Some(ms) => Ok(ms),
            None => Err(
                AdaptorError::MalformedResponse { raw, cause: "not a list of models".to_string() },
            ),
        },
    }
}

/// The requests in an adaptor's answer to a listing.
pub fn listed_requests(raw: String, parsed: Result<Json, String>) -> (r: Result<
    Vec<Request>,
    AdaptorError,
>)
    ensures
        match parsed {
            Err(cause) => r matches Err(AdaptorError::MalformedResponse { raw: x, cause: c })
                && x == raw && c == cause,
            Ok(j) => match requests_from(j@) {
                Some(rs) => r matches Ok(out) && requests_view(out@) == rs,
                None => r matches Err(AdaptorError::MalformedResponse { raw: x, .. }) && x == raw,
            },
        },
{
    match parsed {
        Err(cause) => Err(AdaptorError::MalformedResponse { raw, cause }),
        Ok(j) => match decode_requests(&j) {
            Some(rs) => Ok(rs),
            None => Err(
                AdaptorError::MalformedResponse {
                    raw,
                    cause: "not a list of requests".to_string(),
                },
            ),
        },
    }
}

/// An adaptor's answer: its output on success, its error output otherwise.
pub fn call_outcome(success: bool, stdout: String, stderr: String) -> (r: Result<
    String,
    AdaptorError,
>)
    ensures
        success ==> r == Ok::<String, AdaptorError>(stdout),
        !success ==> (r matches Err(AdaptorError::ProcessFailed { stderr: e }) && e == stderr),
{
    if success {
        Ok(stdout)
    } else {
        Err(AdaptorError::ProcessFailed { stderr })
    }
}

/// `s` with each '~' replaced by `home`.
pub open spec fn tilde_expanded(s: Seq<char>, home: Seq<char>) -> Seq<char>
    decreases s.len(),
{
    if s.len() == 0 {
        s
    } else if s.last() == '~' {
        tilde_expanded(s.drop_last(), home) + home
    } else {
        tilde_expanded(s.drop_last(), home).push(s.last())
    }
}

/// `path` with each '~' replaced by `home`.
pub fn expand_home(path: &str, home: &str) -> (r: String)
    ensures
        r@ == tilde_expanded(path@, home@),
{
    let n = path.unicode_len();
    let mut out = String::new();
    let mut i: usize = 0;
    while i < n
        invariant
            n == path@.len(),
            i <= n,
            out@ == tilde_expanded(path@.take(i as int), home@),
        decreases n - i,
    {
        let c = path.get_char(i);
        assert(path@.take(i + 1).drop_last() =~= path@.take(i as int));
        if c == '~' {
            out.append(home);
        } else {
            out.append(path.substring_char(i, i + 1));
            assert(path@.subrange(i as int, i + 1) =~= seq![c]);
        }
        i = i + 1;
    }
    assert(path@.take(n as int) =~= path@);
    out
}

/// Relies on `dirs::home_dir`, with the path read as UTF-8 text; what it
/// finds depends on the user running the process.
#[verifier::external_body]
pub(crate) fn home_directory() -> (r: Option<String>) {
    dirs::home_dir().and_then(|p| p.into_os_string().into_string().ok())
}

/// `path` with each '~' replaced by the user's home directory.
pub fn expand_home_path(path: &str) -> (r: Result<String, CliError>)
    ensures
        match r {
            Ok(s) => exists|home: Seq<char>| s@ == tilde_expanded(path@, home),
            Err(e) => e is IoError,
        },
{
    match home_directory() {
        Some(home) => Ok(expand_home(path, home.as_str())),
        None => Err(
            CliError::IoError {
                error: "There was a problem locating your home directory.".to_string(),
            },
        ),
    }
}

} // verus!
