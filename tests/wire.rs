use cdd::wire::{decode_model, decode_models, decode_request, decode_type, encode_model, encode_request, encode_type, Json};
use cdd::{Method, Model, Request, Variable, VariableType};

fn sample_model() -> Model {
    Model {
        name: "User".to_string(),
        vars: vec![
            Variable { name: "id".to_string(), variable_type: VariableType::IntType, optional: false, value: Some("1".to_string()) },
            Variable {
                name: "friends".to_string(),
                variable_type: VariableType::ArrayType(Box::new(VariableType::ComplexType("User".to_string()))),
                optional: true,
                value: None,
            },
        ],
    }
}

#[test]
fn model_round_trip() {
    let m = sample_model();
    let back = decode_model(&encode_model(&m)).unwrap();
    assert_eq!(format!("{:?}", back), format!("{:?}", m));
}

#[test]
fn request_round_trip() {
    let r = Request {
        name: "usersgetrequest".to_string(),
        path: "".to_string(),
        vars: sample_model().vars,
        method: Method::Patch_,
        response_type: "[User]".to_string(),
        error_type: "Error".to_string(),
    };
    let back = decode_request(&encode_request(&r)).unwrap();
    assert_eq!(format!("{:?}", back), format!("{:?}", r));
}

#[test]
fn type_tags() {
    match encode_type(&VariableType::StringType) {
        Json::Str(s) => assert_eq!(s, "String"),
        other => panic!("unexpected {:?}", other),
    }
    match encode_type(&VariableType::ArrayType(Box::new(VariableType::StringType))) {
        Json::Object(ms) => {
            assert_eq!(ms.len(), 1);
            assert_eq!(ms[0].0, "Array");
            assert!(matches!(&ms[0].1, Json::Str(s) if s == "String"));
        }
        other => panic!("unexpected {:?}", other),
    }
}

#[test]
fn unknown_type_tag_is_rejected() {
    assert!(decode_type(&Json::Str("Decimal".to_string())).is_none());
    assert!(decode_type(&Json::Number("1".to_string())).is_none());
}

#[test]
fn model_without_value_member_decodes() {
    let var = Json::Object(vec![
        ("name".to_string(), Json::Str("id".to_string())),
        ("type".to_string(), Json::Str("Int".to_string())),
        ("optional".to_string(), Json::Bool(false)),
    ]);
    let m = Json::Object(vec![
        ("vars".to_string(), Json::Array(vec![var])),
        ("name".to_string(), Json::Str("User".to_string())),
    ]);
    let decoded = decode_models(&Json::Array(vec![m])).unwrap();
    assert_eq!(decoded.len(), 1);
    assert_eq!(decoded[0].name, "User");
    assert_eq!(decoded[0].vars[0].value, None);
}

#[test]
fn list_with_a_bad_entry_is_rejected() {
    let good = encode_model(&sample_model());
    assert!(decode_models(&Json::Array(vec![good, Json::Null])).is_none());
    assert!(decode_models(&Json::Null).is_none());
}

#[test]
fn test_json() {
    match encode_type(&VariableType::StringType) {
        Json::Str(s) => assert_eq!(format!("\"{}\"", s), "\"String\""),
        other => panic!("unexpected {:?}", other),
    }
    // An array type is externally tagged, `{"Array":"String"}`: that is the
    // form adaptors exchange (serde's derived form for this enum), not the
    // bare list `["String"]`.
    match encode_type(&VariableType::ArrayType(Box::new(VariableType::StringType))) {
        Json::Object(ms) => {
            assert_eq!(ms.len(), 1);
            assert_eq!(ms[0].0, "Array");
            assert!(matches!(&ms[0].1, Json::Str(s) if s == "String"));
        }
        other => panic!("unexpected {:?}", other),
    }
}
