//! The project configuration and its defaults.

use vstd::prelude::*;
use crate::service::CDDService;

verus! {

/// Which parts of a project an adaptor generates.
#[derive(Debug, Clone, Copy, PartialEq, Eq, Structural)]
pub struct Component {
    pub tests: bool,
    pub routes: bool,
    pub validation: bool,
    pub models: bool,
}

/// A service reached over RPC.
#[derive(Debug)]
pub struct RPCService {
    pub server: String,
    pub command: String,
}

/// A project's configuration: its metadata and its adaptors, in declared
/// order.
#[derive(Debug)]
pub struct Config {
    pub name: String,
    pub version: String,
    pub description: String,
    pub author: String,
    pub openapi: String,
    pub auth: String,
    pub rpc_services: Vec<RPCService>,
    pub services: Vec<(String, CDDService)>,
}

/// Whether `s` is the adaptor with these paths.
pub open spec fn service_is(
    s: CDDService,
    bin: Seq<char>,
    template: Seq<char>,
    project: Seq<char>,
    models: Seq<char>,
    requests: Seq<char>,
) -> bool {
    &&& s.bin_path@ == bin
    &&& s.template_path@ == template
    &&& s.project_path@ == project
    &&& s.component_file@ == models
    &&& s.requests_file@ == requests
}

fn service(bin: &str, template: &str, project: &str, models: &str, requests: &str) -> (r: CDDService)
    ensures
        service_is(r, bin@, template@, project@, models@, requests@),
{
    CDDService {
        bin_path: bin.to_string(),
        template_path: template.to_string(),
        project_path: project.to_string(),
        component_file: models.to_string(),
        requests_file: requests.to_string(),
    }
}

impl Config {
    /// The default configuration of a new project called `name`, with the
    /// Rust, TypeScript and Kotlin adaptors.
    pub fn new(name: &str) -> (r: Self)
        ensures
            r.name@ == name@,
            r.version@ == "0.0.1"@,
            r.description@ == "description"@,
            r.author@ == "me@me.com"@,
            r.openapi@ == "openapi.yaml"@,
            r.auth@ == "rfc6749"@,
            r.rpc_services@.len() == 1,
            r.rpc_services@[0].server@ == "localhost:4444"@,
            r.rpc_services@[0].command@ == "~/.cdd/bin/cdd-rust --port 4444"@,
            r.services@.len() == 3,
            r.services@[0].0@ == "rust"@,
            service_is(
                r.services@[0].1,
                "~/.cdd/bin/cdd-rust"@,
                "~/.cdd/templates/rust"@,
                "./rust"@,
                "src/models.rs"@,
                "src/routes.rs"@,
            ),
            r.services@[1].0@ == "typescript"@,
            service_is(
                r.services@[1].1,
                "~/.cdd/bin/cdd-typescript"@,
                "~/.cdd/templates/typescript"@,
                "./typescript"@,
                "API/Models.ts"@,
                "API/Requests.ts"@,
            ),
            r.services@[2].0@ == "kotlin"@,
            service_is(
                r.services@[2].1,
                "~/.cdd/bin/cdd-kotlin"@,
                "~/.cdd/templates/kotlin"@,
                "./kotlin"@,
                "API/Models.kt"@,
                "API/Requests.kt"@,
            ),
    {
        let mut services: Vec<(String, CDDService)> = Vec::new();
        services.push(
            (
                "rust".to_string(),
                service(
                    "~/.cdd/bin/cdd-rust",
                    "~/.cdd/templates/rust",
                    "./rust",
                    "src/models.rs",
                    "src/routes.rs",
                ),
            ),
        );
        services.push(
            (
                "typescript".to_string(),
                service(
                    "~/.cdd/bin/cdd-typescript",
                    "~/.cdd/templates/typescript",
                    "./typescript",
                    "API/Models.ts",
                    "API/Requests.ts",
                ),
            ),
        );
        services.push(
            (
                "kotlin".to_string(),
                service(
                    "~/.cdd/bin/cdd-kotlin",
                    "~/.cdd/templates/kotlin",
                    "./kotlin",
                    "API/Models.kt",
                    "API/Requests.kt",
                ),
            ),
        );
        let mut rpc_services: Vec<RPCService> = Vec::new();
        rpc_services.push(
            RPCService {
                server: "localhost:4444".to_string(),
                command: "~/.cdd/bin/cdd-rust --port 4444".to_string(),
            },
        );
        Config {
            name: name.to_string(),
            version: "0.0.1".to_string(),
            description: "description".to_string(),
            author: "me@me.com".to_string(),
            openapi: "openapi.yaml".to_string(),
            auth: "rfc6749".to_string(),
            rpc_services,
            services,
        }
    }
}

} // verus!
