use cdd::document::{
    Document, Operation, Parameter, ParameterFormat, ParameterLocation, PathItem, RefOr,
    Response, Responses, Schema,
};
use cdd::extract::{extract, request_name, request_name_source, request_path, ExtractionError};
use cdd::text::last_segment_of;
use cdd::{Method, VariableType};

fn reference(target: &str) -> RefOr<Schema> {
    RefOr::Reference(format!("#/components/schemas/{}", target))
}

fn empty_item() -> PathItem {
    PathItem {
        get: None,
        post: None,
        put: None,
        delete: None,
        options: None,
        head: None,
        patch: None,
        trace: None,
    }
}

fn responding_with(target: &str) -> Responses {
    Responses {
        default: None,
        responses: vec![RefOr::Item(Response { content: vec![Some(reference(target))] })],
    }
}

fn user_schema() -> RefOr<Schema> {
    RefOr::Item(Schema::Object {
        properties: vec![
            ("id".to_string(), RefOr::Item(Schema::Integer)),
            ("name".to_string(), RefOr::Item(Schema::StringType)),
            ("tags".to_string(), RefOr::Item(Schema::Array(Some(Box::new(RefOr::Item(Schema::StringType)))))),
            ("friend".to_string(), reference("User")),
        ],
        required: vec!["id".to_string()],
    })
}

fn sample_document() -> Document {
    let mut users = empty_item();
    users.get = Some(Operation {
        parameters: vec![
            RefOr::Item(Parameter {
                location: ParameterLocation::Path,
                name: "id".to_string(),
                required: true,
                format: ParameterFormat::Schema(RefOr::Item(Schema::Integer)),
            }),
            RefOr::Item(Parameter {
                location: ParameterLocation::Header,
                name: "token".to_string(),
                required: true,
                format: ParameterFormat::Schema(RefOr::Item(Schema::StringType)),
            }),
        ],
        responses: responding_with("User"),
    });
    let mut list = empty_item();
    list.get = Some(Operation { parameters: vec![], responses: responding_with("UserList") });
    list.post = Some(Operation {
        parameters: vec![RefOr::Item(Parameter {
            location: ParameterLocation::Query,
            name: "dry".to_string(),
            required: false,
            format: ParameterFormat::Content,
        })],
        responses: Responses { default: Some(RefOr::Reference("#/components/responses/Error".to_string())), responses: vec![] },
    });
    Document {
        servers: vec!["https://api.example.com/v1".to_string()],
        schemas: vec![
            ("User".to_string(), user_schema()),
            (
                "UserList".to_string(),
                RefOr::Item(Schema::Array(Some(Box::new(reference("User"))))),
            ),
        ],
        paths: vec![
            ("/users/{id}".to_string(), RefOr::Item(users)),
            ("/users".to_string(), RefOr::Item(list)),
        ],
    }
}

#[test]
fn request_name_strips_and_lowercases() {
    assert_eq!(request_name("/users/{id}", Method::Get_), "usersidgetrequest");
}

#[test]
fn request_name_source_keeps_case() {
    assert_eq!(request_name_source("/users/{id}", Method::Get_), "usersidGETrequest");
    assert_eq!(request_name_source("/a/b", Method::Delete_), "abDELETErequest");
}

#[test]
fn request_path_drops_last_segment() {
    assert_eq!(request_path("/users/{id}"), "/users");
    assert_eq!(request_path("/users"), "");
    assert_eq!(request_path("users"), "");
}

#[test]
fn last_segment_of_reference() {
    assert_eq!(last_segment_of("#/components/schemas/User"), "User");
    assert_eq!(last_segment_of("User"), "User");
    assert_eq!(last_segment_of("#/components/schemas/"), "");
}

#[test]
fn extraction_is_deterministic() {
    let doc = sample_document();
    let first = format!("{:?}", extract(&doc));
    let second = format!("{:?}", extract(&doc));
    assert_eq!(first, second);
}

#[test]
fn extraction_builds_models_and_requests() {
    let project = extract(&sample_document()).unwrap();
    assert_eq!(project.info.host, "https://api.example.com");
    assert_eq!(project.info.endpoint, "/v1");
    assert_eq!(project.models.len(), 1);
    let user = &project.models[0];
    assert_eq!(user.name, "User");
    let names: Vec<&str> = user.vars.iter().map(|v| v.name.as_str()).collect();
    assert_eq!(names, vec!["id", "name", "tags", "friend"]);
    assert!(!user.vars[0].optional);
    assert!(user.vars[1].optional);
    assert!(matches!(user.vars[0].variable_type, VariableType::IntType));
    match &user.vars[2].variable_type {
        VariableType::ArrayType(inner) => assert!(matches!(**inner, VariableType::StringType)),
        other => panic!("unexpected type {:?}", other),
    }
    match &user.vars[3].variable_type {
        VariableType::ComplexType(name) => assert_eq!(name, "User"),
        other => panic!("unexpected type {:?}", other),
    }

    assert_eq!(project.requests.len(), 3);
    let get_one = &project.requests[0];
    assert_eq!(get_one.name, "usersidgetrequest");
    assert_eq!(get_one.path, "/users");
    assert_eq!(get_one.method, Method::Get_);
    assert_eq!(get_one.vars.len(), 1);
    assert_eq!(get_one.vars[0].name, "id");
    assert_eq!(get_one.response_type, "User");
    assert_eq!(get_one.error_type, "ResponseEmpty");

    let post = &project.requests[2];
    assert_eq!(post.name, "userspostrequest");
    assert_eq!(post.response_type, "ResponseEmpty");
    assert_eq!(post.error_type, "Error");
    assert!(matches!(post.vars[0].variable_type, VariableType::StringType));
    assert!(!post.vars[0].optional);
}

#[test]
fn array_alias_rewrites_response() {
    let project = extract(&sample_document()).unwrap();
    let list = &project.requests[1];
    assert_eq!(list.name, "usersgetrequest");
    assert_eq!(list.response_type, "[User]");
}

#[test]
fn missing_server_gives_empty_info() {
    let mut doc = sample_document();
    doc.servers = vec![];
    let project = extract(&doc).unwrap();
    assert_eq!(project.info.host, "");
    assert_eq!(project.info.endpoint, "");
}

#[test]
fn unparsable_server_gives_empty_info() {
    let mut doc = sample_document();
    doc.servers = vec!["not a url".to_string()];
    let project = extract(&doc).unwrap();
    assert_eq!(project.info.host, "");
    assert_eq!(project.info.endpoint, "");
}

#[test]
fn composite_model_is_unsupported() {
    let mut doc = sample_document();
    doc.schemas.push(("Pet".to_string(), RefOr::Item(Schema::Composite)));
    match extract(&doc) {
        Err(ExtractionError::UnsupportedSchemaShape { record, field }) => {
            assert_eq!(record, "Pet");
            assert_eq!(field, None);
        }
        other => panic!("unexpected outcome {:?}", other),
    }
}

#[test]
fn composite_field_is_unsupported() {
    let mut doc = sample_document();
    doc.schemas.push((
        "Pet".to_string(),
        RefOr::Item(Schema::Object {
            properties: vec![("kind".to_string(), RefOr::Item(Schema::Composite))],
            required: vec![],
        }),
    ));
    match extract(&doc) {
        Err(ExtractionError::UnsupportedSchemaShape { record, field }) => {
            assert_eq!(record, "Pet");
            assert_eq!(field, Some("kind".to_string()));
        }
        other => panic!("unexpected outcome {:?}", other),
    }
}

#[test]
fn empty_reference_is_unresolved() {
    let mut doc = sample_document();
    doc.schemas.push((
        "Pet".to_string(),
        RefOr::Item(Schema::Object {
            properties: vec![("owner".to_string(), RefOr::Reference("#/components/schemas/".to_string()))],
            required: vec![],
        }),
    ));
    match extract(&doc) {
        Err(ExtractionError::UnresolvedReference { record, field }) => {
            assert_eq!(record, "Pet");
            assert_eq!(field, Some("owner".to_string()));
        }
        other => panic!("unexpected outcome {:?}", other),
    }
}

#[test]
fn bare_scalar_model_is_unsupported() {
    let mut doc = sample_document();
    doc.schemas.insert(0, ("Count".to_string(), RefOr::Item(Schema::Integer)));
    assert!(matches!(extract(&doc), Err(ExtractionError::UnsupportedSchemaShape { .. })));
}

#[test]
fn composite_parameter_is_unsupported() {
    let mut doc = sample_document();
    let mut item = empty_item();
    item.put = Some(Operation {
        parameters: vec![RefOr::Item(Parameter {
            location: ParameterLocation::Query,
            name: "filter".to_string(),
            required: false,
            format: ParameterFormat::Schema(RefOr::Item(Schema::Composite)),
        })],
        responses: Responses { default: None, responses: vec![] },
    });
    doc.paths.push(("/pets".to_string(), RefOr::Item(item)));
    match extract(&doc) {
        Err(ExtractionError::UnsupportedSchemaShape { record, field }) => {
            assert_eq!(record, "petsputrequest");
            assert_eq!(field, Some("filter".to_string()));
        }
        other => panic!("unexpected outcome {:?}", other),
    }
}

#[test]
fn inline_object_field_is_flagged() {
    let mut doc = sample_document();
    doc.schemas = vec![(
        "Box".to_string(),
        RefOr::Item(Schema::Object {
            properties: vec![(
                "inner".to_string(),
                RefOr::Item(Schema::Object { properties: vec![], required: vec![] }),
            )],
            required: vec![],
        }),
    )];
    let project = extract(&doc).unwrap();
    match &project.models[0].vars[0].variable_type {
        VariableType::ComplexType(name) => assert_eq!(name, "unresolved-inline-object"),
        other => panic!("unexpected type {:?}", other),
    }
}

#[test]
fn reference_component_is_unsupported() {
    let doc = Document {
        servers: vec![],
        schemas: vec![("Alias".to_string(), reference("User"))],
        paths: vec![],
    };
    match extract(&doc) {
        Err(ExtractionError::UnsupportedSchemaShape { record, field }) => {
            assert_eq!(record, "Alias");
            assert_eq!(field, None);
        }
        other => panic!("unexpected outcome {:?}", other),
    }
}

#[test]
fn reference_parameter_is_unresolved() {
    let mut doc = sample_document();
    let mut item = empty_item();
    item.get = Some(Operation {
        parameters: vec![RefOr::Reference("#/components/parameters/Limit".to_string())],
        responses: Responses { default: None, responses: vec![] },
    });
    doc.paths.push(("/pets".to_string(), RefOr::Item(item)));
    match extract(&doc) {
        Err(ExtractionError::UnresolvedReference { record, field }) => {
            assert_eq!(record, "petsgetrequest");
            assert_eq!(field, None);
        }
        other => panic!("unexpected outcome {:?}", other),
    }
}

#[test]
fn reference_path_item_is_unresolved() {
    let mut doc = sample_document();
    doc.paths.push(("/pets".to_string(), RefOr::Reference("#/paths/other".to_string())));
    match extract(&doc) {
        Err(ExtractionError::UnresolvedReference { record, field }) => {
            assert_eq!(record, "/pets");
            assert_eq!(field, None);
        }
        other => panic!("unexpected outcome {:?}", other),
    }
}

#[test]
fn sentinel_is_not_rewritten_as_alias() {
    let mut doc = sample_document();
    doc.schemas.push((
        "ResponseEmpty".to_string(),
        RefOr::Item(Schema::Array(Some(Box::new(reference("User"))))),
    ));
    let mut item = empty_item();
    item.get = Some(Operation { parameters: vec![], responses: Responses { default: None, responses: vec![] } });
    doc.paths.push(("/ping".to_string(), RefOr::Item(item)));
    let project = extract(&doc).unwrap();
    let ping = project.requests.iter().find(|r| r.name == "pinggetrequest").unwrap();
    assert_eq!(ping.response_type, "ResponseEmpty");
}

#[test]
fn alias_of_empty_reference_is_unresolved() {
    let mut doc = sample_document();
    doc.schemas.push((
        "Broken".to_string(),
        RefOr::Item(Schema::Array(Some(Box::new(RefOr::Reference("#/components/schemas/".to_string()))))),
    ));
    match extract(&doc) {
        Err(ExtractionError::UnresolvedReference { record, field }) => {
            assert_eq!(record, "Broken");
            assert_eq!(field, None);
        }
        other => panic!("unexpected outcome {:?}", other),
    }
}
