use vstd::prelude::*;

verus! {

/// Errors met by the command-line front end.
#[derive(Debug)]
pub enum CliError {
    InitError { arg: String },
    InvalidArgument { arg: String },
    InvalidConfig { msg: String },
    UnsupportedOpenApiFeature { msg: String },
    IoError { error: String },
    UnknownError,
}

impl CliError {
    /// The text shown to the user.
    pub fn message(&self) -> (r: String)
        ensures
            match self {
                CliError::InitError { arg } => r@ == "error initialising new project: "@ + arg@,
                CliError::InvalidArgument { arg } => r@ == "invalid argument: "@ + arg@,
                CliError::InvalidConfig { msg } => r@ == "reading config: "@ + msg@,
                CliError::UnsupportedOpenApiFeature { msg } => r@
                    == "unsupported feature in openapi spec: "@ + msg@,
                CliError::IoError { error } => r@ == "IO error: "@ + error@,
                CliError::UnknownError => r@ == "An unknown error has occurred."@,
            },
    {
        match self {
            CliError::InitError { arg } => "error initialising new project: ".to_string().concat(
                arg.as_str(),
            ),
            CliError::InvalidArgument { arg } => "invalid argument: ".to_string().concat(
                arg.as_str(),
            ),
            CliError::InvalidConfig { msg } => "reading config: ".to_string().concat(msg.as_str()),
            CliError::UnsupportedOpenApiFeature { msg } =>
                "unsupported feature in openapi spec: ".to_string().concat(msg.as_str()),
            CliError::IoError { error } => "IO error: ".to_string().concat(error.as_str()),
            CliError::UnknownError => "An unknown error has occurred.".to_string(),
        }
    }
}

} // verus!
