//! The JSON shape of models and requests on the adaptor protocol.
//!
//! A model is `{"name": .., "vars": [..]}`; a field is `{"name": ..,
//! "type": .., "optional": .., "value": ..}`; a type is "String", "Int",
//! "Bool", "Float", `{"Array": type}` or `{"Complex": name}`; a request adds
//! "path", "method", "response_type" and "error_type" to name and vars.

use vstd::prelude::*;
use crate::collect::{collect_all, lemma_collect_prefix_err, lemma_collect_step, lemma_take_all};
use crate::model::{
    method_text, models_view, opt_view, requests_view, vars_view, Method, Model,
    ModelView, Request, RequestView, TypeView, Variable, VariableType, VariableView,
};

verus! {

/// A JSON value.
#[derive(Debug)]
pub enum Json {
    Null,
    Bool(bool),
    /// A number, as written.
    Number(String),
    Str(String),
    Array(Vec<Json>),
    /// An object's members, in order.
    Object(Vec<(String, Json)>),
}

pub enum JsonView {
    Null,
    Bool(bool),
    Number(Seq<char>),
    Str(Seq<char>),
    Array(Seq<JsonView>),
    Object(Seq<(Seq<char>, JsonView)>),
}

pub open spec fn json_view(j: Json) -> JsonView
    decreases j,
{
    match j {
        Json::Null => JsonView::Null,
        Json::Bool(b) => JsonView::Bool(b),
        Json::Number(n) => JsonView::Number(n@),
        Json::Str(s) => JsonView::Str(s@),
        Json::Array(v) => JsonView::Array(items_view(v@)),
        Json::Object(v) => JsonView::Object(members_view(v@)),
    }
}

pub open spec fn items_view(s: Seq<Json>) -> Seq<JsonView>
    decreases s,
{
    if s.len() == 0 {
        Seq::empty()
    } else {
        seq![json_view(s[0])] + items_view(s.subrange(1, s.len() as int))
    }
}

pub open spec fn members_view(s: Seq<(String, Json)>) -> Seq<(Seq<char>, JsonView)>
    decreases s,
{
    if s.len() == 0 {
        Seq::empty()
    } else {
        seq![(s[0].0@, json_view(s[0].1))] + members_view(s.subrange(1, s.len() as int))
    }
}

impl View for Json {
    type V = JsonView;

    open spec fn view(&self) -> JsonView {
        json_view(*self)
    }
}

proof fn lemma_items_view(s: Seq<Json>)
    ensures
        items_view(s).len() == s.len(),
        forall|i: int| 0 <= i < s.len() ==> #[trigger] items_view(s)[i] == json_view(s[i]),
    decreases s.len(),
{
    if s.len() > 0 {
        let rest = s.subrange(1, s.len() as int);
        lemma_items_view(rest);
        assert forall|i: int| 0 <= i < s.len() implies #[trigger] items_view(s)[i] == json_view(
            s[i],
        ) by {
            if i > 0 {
                assert(rest[i - 1] == s[i]);
            }
        }
    }
}

proof fn lemma_members_view(s: Seq<(String, Json)>)
    ensures
        members_view(s).len() == s.len(),
        forall|i: int|
            0 <= i < s.len() ==> #[trigger] members_view(s)[i] == (s[i].0@, json_view(s[i].1)),
    decreases s.len(),
{
    if s.len() > 0 {
        let rest = s.subrange(1, s.len() as int);
        lemma_members_view(rest);
        assert forall|i: int| 0 <= i < s.len() implies #[trigger] members_view(s)[i] == (
        s[i].0@,
        json_view(s[i].1),
        ) by {
            if i > 0 {
                assert(rest[i - 1] == s[i]);
            }
        }
    }
}

// Encoding.

pub open spec fn type_json(t: TypeView) -> JsonView
    decreases t,
{
    match t {
        TypeView::Str => JsonView::Str("String"@),
        TypeView::Int => JsonView::Str("Int"@),
        TypeView::Bool => JsonView::Str("Bool"@),
        TypeView::Float => JsonView::Str("Float"@),
        TypeView::Array(inner) => JsonView::Object(seq![("Array"@, type_json(*inner))]),
        TypeView::Complex(name) => JsonView::Object(seq![("Complex"@, JsonView::Str(name))]),
    }
}

pub open spec fn text_or_null(o: Option<Seq<char>>) -> JsonView {
    match o {
        Some(s) => JsonView::Str(s),
        None => JsonView::Null,
    }
}

pub open spec fn var_json(v: VariableView) -> JsonView {
    JsonView::Object(
        seq![
            ("name"@, JsonView::Str(v.name)),
            ("type"@, type_json(v.ty)),
            ("optional"@, JsonView::Bool(v.optional)),
            ("value"@, text_or_null(v.value)),
        ],
    )
}

pub open spec fn vars_json(vs: Seq<VariableView>) -> Seq<JsonView> {
    vs.map_values(|v: VariableView| var_json(v))
}

/// The wire form of a model.
pub open spec fn model_json(m: ModelView) -> JsonView {
    JsonView::Object(
        seq![("name"@, JsonView::Str(m.name)), ("vars"@, JsonView::Array(vars_json(m.vars)))],
    )
}

/// The wire form of a request.
pub open spec fn request_json(r: RequestView) -> JsonView {
    JsonView::Object(
        seq![
            ("name"@, JsonView::Str(r.name)),
            ("path"@, JsonView::Str(r.path)),
            ("vars"@, JsonView::Array(vars_json(r.vars))),
            ("method"@, JsonView::Str(method_text(r.method))),
            ("response_type"@, JsonView::Str(r.response_type)),
            ("error_type"@, JsonView::Str(r.error_type)),
        ],
    )
}

// Decoding.

/// The value of the first member called `key`.
pub open spec fn member(ms: Seq<(Seq<char>, JsonView)>, key: Seq<char>) -> Option<JsonView>
    decreases ms.len(),
{
    if ms.len() == 0 {
        None
    } else if ms[0].0 == key {
        Some(ms[0].1)
    } else {
        member(ms.drop_first(), key)
    }
}

pub open spec fn type_from(j: JsonView) -> Option<TypeView>
    decreases j,
{
    match j {
        JsonView::Str(s) => if s == "String"@ {
            Some(TypeView::Str)
        } else if s == "Int"@ {
            Some(TypeView::Int)
        } else if s == "Bool"@ {
            Some(TypeView::Bool)
        } else if s == "Float"@ {
            Some(TypeView::Float)
        } else {
            None
        },
        JsonView::Object(ms) => if ms.len() == 1 && ms[0].0 == "Array"@ {
            match type_from(ms[0].1) {
                Some(t) => Some(TypeView::Array(Box::new(t))),
                None => None,
            }
        } else if ms.len() == 1 && ms[0].0 == "Complex"@ {
            match ms[0].1 {
                JsonView::Str(n) => Some(TypeView::Complex(n)),
                _ => None,
            }
        } else {
            None
        },
        _ => None,
    }
}

/// An optional text: absent or null is `None`.
pub open spec fn optional_text(o: Option<JsonView>) -> Option<Option<Seq<char>>> {
    match o {
        None => Some(None),
        Some(JsonView::Null) => Some(None),
        Some(JsonView::Str(s)) => Some(Some(s)),
        _ => None,
    }
}

pub open spec fn text_of(o: Option<JsonView>) -> Option<Seq<char>> {
    match o {
        Some(JsonView::Str(s)) => Some(s),
        _ => None,
    }
}

pub open spec fn var_from(j: JsonView) -> Option<VariableView> {
    match j {
        JsonView::Object(ms) => match (
            text_of(member(ms, "name"@)),
            member(ms, "type"@),
            member(ms, "optional"@),
            optional_text(member(ms, "value"@)),
        ) {
            (Some(name), Some(t), Some(JsonView::Bool(optional)), Some(value)) => match type_from(
                t,
            ) {
                Some(ty) => Some(VariableView { name, ty, optional, value }),
                None => None,
            },
            _ => None,
        },
        _ => None,
    }
}

pub open spec fn var_fn() -> spec_fn(JsonView) -> Result<Seq<VariableView>, ()> {
    |j: JsonView|
        match var_from(j) {
            Some(v) => Ok(seq![v]),
            None => Err(()),
        }
}

pub open spec fn vars_from(items: Seq<JsonView>) -> Result<Seq<VariableView>, ()> {
    collect_all(items, var_fn())
}

pub open spec fn vars_member(ms: Seq<(Seq<char>, JsonView)>) -> Option<Seq<VariableView>> {
    match member(ms, "vars"@) {
        Some(JsonView::Array(items)) => match vars_from(items) {
            Ok(vs) => Some(vs),
            Err(_) => None,
        },
        _ => None,
    }
}

/// The model that a wire value stands for, if it is one.
pub open spec fn model_from(j: JsonView) -> Option<ModelView> {
    match j {
        JsonView::Object(ms) => match (text_of(member(ms, "name"@)), vars_member(ms)) {
            (Some(name), Some(vars)) => Some(ModelView { name, vars }),
            _ => None,
        },
        _ => None,
    }
}

pub open spec fn method_from(o: Option<JsonView>) -> Option<Method> {
    match text_of(o) {
        Some(s) => if s == "GET"@ {
            Some(Method::Get_)
        } else if s == "POST"@ {
            Some(Method::Post_)
        } else if s == "PUT"@ {
            Some(Method::Put_)
        } else if s == "DELETE"@ {
            Some(Method::Delete_)
        } else if s == "OPTIONS"@ {
            Some(Method::Options_)
        } else if s == "HEAD"@ {
            Some(Method::Head_)
        } else if s == "PATCH"@ {
            Some(Method::Patch_)
        } else if s == "TRACE"@ {
            Some(Method::Trace_)
        } else {
            None
        },
        None => None,
    }
}

/// The request that a wire value stands for, if it is one.
pub open spec fn request_from(j: JsonView) -> Option<RequestView> {
    match j {
        JsonView::Object(ms) => match (
            text_of(member(ms, "name"@)),
            text_of(member(ms, "path"@)),
            vars_member(ms),
            method_from(member(ms, "method"@)),
            text_of(member(ms, "response_type"@)),
            text_of(member(ms, "error_type"@)),
        ) {
            (
                Some(name),
                Some(path),
                Some(vars),
                Some(method),
                Some(response_type),
                Some(error_type),
            ) => Some(RequestView { name, path, vars, method, response_type, error_type }),
            _ => None,
        },
        _ => None,
    }
}

// Round trip.

proof fn lemma_member_at(ms: Seq<(Seq<char>, JsonView)>, key: Seq<char>, k: int)
    requires
        0 <= k < ms.len(),
        ms[k].0 == key,
        forall|j: int| 0 <= j < k ==> ms[j].0 != key,
    ensures
        member(ms, key) == Some(ms[k].1),
    decreases k,
{
    if k > 0 {
        assert forall|j: int| 0 <= j < k - 1 implies ms.drop_first()[j].0 != key by {
            assert(ms.drop_first()[j] == ms[j + 1]);
        }
        lemma_member_at(ms.drop_first(), key, k - 1);
    }
}

proof fn lemma_type_round_trip(t: TypeView)
    ensures
        type_from(type_json(t)) == Some(t),
    decreases t,
{
    reveal_strlit("String");
    reveal_strlit("Int");
    reveal_strlit("Bool");
    reveal_strlit("Float");
    reveal_strlit("Array");
    reveal_strlit("Complex");
    match t {
        TypeView::Array(inner) => {
            lemma_type_round_trip(*inner);
            let ms = seq![("Array"@, type_json(*inner))];
            assert(type_json(t) == JsonView::Object(ms));
            assert(ms.len() == 1 && ms[0].0 == "Array"@);
            assert(type_from(ms[0].1) == Some(*inner));
            assert(type_from(type_json(t)) == Some(TypeView::Array(Box::new(*inner))));
        },
        TypeView::Complex(n) => {
            assert("Complex"@.len() != "Array"@.len());
        },
        TypeView::Int => {
            assert("Int"@.len() != "String"@.len());
        },
        TypeView::Bool => {
            assert("Bool"@.len() != "String"@.len());
            assert("Bool"@[0] != "Int"@[0]);
        },
        TypeView::Float => {
            assert("Float"@.len() != "String"@.len());
            assert("Float"@[0] != "Int"@[0]);
            assert("Float"@[0] != "Bool"@[0]);
        },
        _ => {},
    }
}

proof fn lemma_keys_differ()
    ensures
        "name"@ != "type"@,
        "name"@ != "optional"@,
        "name"@ != "value"@,
        "type"@ != "optional"@,
        "type"@ != "value"@,
        "optional"@ != "value"@,
        "name"@ != "vars"@,
        "name"@ != "path"@,
        "path"@ != "vars"@,
        "name"@ != "method"@,
        "path"@ != "method"@,
        "vars"@ != "method"@,
        "name"@ != "response_type"@,
        "path"@ != "response_type"@,
        "vars"@ != "response_type"@,
        "method"@ != "response_type"@,
        "name"@ != "error_type"@,
        "path"@ != "error_type"@,
        "vars"@ != "error_type"@,
        "method"@ != "error_type"@,
        "response_type"@ != "error_type"@,
{
    reveal_strlit("name");
    reveal_strlit("type");
    reveal_strlit("optional");
    reveal_strlit("value");
    reveal_strlit("vars");
    reveal_strlit("path");
    reveal_strlit("method");
    reveal_strlit("response_type");
    reveal_strlit("error_type");
    assert("name"@.len() != "optional"@.len());
    assert("name"@[0] != "type"@[0]);
    assert("name"@[0] != "value"@[0]);
    assert("type"@.len() != "optional"@.len());
    assert("type"@[0] != "value"@[0]);
    assert("optional"@.len() != "value"@.len());
    assert("name"@[0] != "vars"@[0]);
    assert("name"@[0] != "path"@[0]);
    assert("path"@[0] != "vars"@[0]);
    assert("name"@.len() != "method"@.len());
    assert("path"@.len() != "method"@.len());
    assert("vars"@.len() != "method"@.len());
    assert("name"@.len() != "response_type"@.len());
    assert("path"@.len() != "response_type"@.len());
    assert("vars"@.len() != "response_type"@.len());
    assert("method"@.len() != "response_type"@.len());
    assert("name"@.len() != "error_type"@.len());
    assert("path"@.len() != "error_type"@.len());
    assert("vars"@.len() != "error_type"@.len());
    assert("method"@.len() != "error_type"@.len());
    assert("response_type"@.len() != "error_type"@.len());
}

proof fn lemma_var_round_trip(v: VariableView)
    ensures
        var_from(var_json(v)) == Some(v),
{
    lemma_keys_differ();
    lemma_type_round_trip(v.ty);
    let ms = seq![
        ("name"@, JsonView::Str(v.name)),
        ("type"@, type_json(v.ty)),
        ("optional"@, JsonView::Bool(v.optional)),
        ("value"@, text_or_null(v.value)),
    ];
    assert(ms.drop_first().drop_first().drop_first().drop_first().len() == 0);
    lemma_member_at(ms, "name"@, 0);
    lemma_member_at(ms, "type"@, 1);
    lemma_member_at(ms, "optional"@, 2);
    lemma_member_at(ms, "value"@, 3);
}

proof fn lemma_vars_round_trip(vs: Seq<VariableView>)
    ensures
        vars_from(vars_json(vs)) == Ok::<Seq<VariableView>, ()>(vs),
    decreases vs.len(),
{
    if vs.len() > 0 {
        lemma_vars_round_trip(vs.drop_last());
        lemma_var_round_trip(vs.last());
        assert(vars_json(vs).drop_last() =~= vars_json(vs.drop_last()));
        assert(vs.drop_last() + seq![vs.last()] =~= vs);
    } else {
        assert(vars_json(vs).len() == 0);
        assert(vs =~= Seq::<VariableView>::empty());
    }
}

/// Encoding a model to its wire form and decoding it back gives the same
/// model: name, fields, field order, optional flags, values and type tags.
pub proof fn lemma_model_round_trip(m: ModelView)
    ensures
        model_from(model_json(m)) == Some(m),
{
    lemma_keys_differ();
    lemma_vars_round_trip(m.vars);
    let ms = seq![("name"@, JsonView::Str(m.name)), ("vars"@, JsonView::Array(vars_json(m.vars)))];
    lemma_member_at(ms, "name"@, 0);
    lemma_member_at(ms, "vars"@, 1);
}

proof fn lemma_method_round_trip(m: Method)
    ensures
        method_from(Some(JsonView::Str(method_text(m)))) == Some(m),
{
    reveal_strlit("GET");
    reveal_strlit("POST");
    reveal_strlit("PUT");
    reveal_strlit("DELETE");
    reveal_strlit("OPTIONS");
    reveal_strlit("HEAD");
    reveal_strlit("PATCH");
    reveal_strlit("TRACE");
    let t = method_text(m);
    assert(t.len() != "GET"@.len() || t[0] != "GET"@[0] || m == Method::Get_);
    assert(t.len() != "POST"@.len() || t[0] != "POST"@[0] || m == Method::Post_);
    assert(t.len() != "PUT"@.len() || t[0] != "PUT"@[0] || m == Method::Put_);
    assert(t.len() != "DELETE"@.len() || t[0] != "DELETE"@[0] || m == Method::Delete_);
    assert(t.len() != "OPTIONS"@.len() || t[0] != "OPTIONS"@[0] || m == Method::Options_);
    assert(t.len() != "HEAD"@.len() || t[0] != "HEAD"@[0] || m == Method::Head_);
    assert(t.len() != "PATCH"@.len() || t[0] != "PATCH"@[0] || m == Method::Patch_);
}

/// Encoding a request to its wire form and decoding it back gives the same
/// request.
pub proof fn lemma_request_round_trip(r: RequestView)
    ensures
        request_from(request_json(r)) == Some(r),
{
    lemma_keys_differ();
    lemma_vars_round_trip(r.vars);
    lemma_method_round_trip(r.method);
    let ms = seq![
        ("name"@, JsonView::Str(r.name)),
        ("path"@, JsonView::Str(r.path)),
        ("vars"@, JsonView::Array(vars_json(r.vars))),
        ("method"@, JsonView::Str(method_text(r.method))),
        ("response_type"@, JsonView::Str(r.response_type)),
        ("error_type"@, JsonView::Str(r.error_type)),
    ];
    lemma_member_at(ms, "name"@, 0);
    lemma_member_at(ms, "path"@, 1);
    lemma_member_at(ms, "vars"@, 2);
    lemma_member_at(ms, "method"@, 3);
    lemma_member_at(ms, "response_type"@, 4);
    lemma_member_at(ms, "error_type"@, 5);
}

pub open spec fn model_item_fn() -> spec_fn(JsonView) -> Result<Seq<ModelView>, ()> {
    |j: JsonView|
        match model_from(j) {
            Some(m) => Ok(seq![m]),
            None => Err(()),
        }
}

/// The models that a wire list stands for, if it is a list of models.
pub open spec fn models_from(j: JsonView) -> Option<Seq<ModelView>> {
    match j {
        JsonView::Array(items) => match collect_all(items, model_item_fn()) {
            Ok(ms) => Some(ms),
            Err(_) => None,
        },
        _ => None,
    }
}

pub open spec fn request_item_fn() -> spec_fn(JsonView) -> Result<Seq<RequestView>, ()> {
    |j: JsonView|
        match request_from(j) {
            Some(r) => Ok(seq![r]),
            None => Err(()),
        }
}

/// The requests that a wire list stands for, if it is a list of requests.
pub open spec fn requests_from(j: JsonView) -> Option<Seq<RequestView>> {
    match j {
        JsonView::Array(items) => match collect_all(items, request_item_fn()) {
            Ok(rs) => Some(rs),
            Err(_) => None,
        },
        _ => None,
    }
}

// Executable encoding.

fn object(members: Vec<(String, Json)>) -> (r: Json)
    ensures
        r@ == JsonView::Object(members_view(members@)),
{
    Json::Object(members)
}

fn push_member(members: &mut Vec<(String, Json)>, key: &str, value: Json)
    ensures
        members_view(final(members)@) == members_view(old(members)@).push((key@, value@)),
{
    let ghost before = old(members)@;
    members.push((key.to_string(), value));
    proof {
        lemma_members_view(before);
        lemma_members_view(members@);
        assert(members_view(members@) =~= members_view(before).push((key@, value@)));
    }
}

/// The wire form of a field type.
pub fn encode_type(t: &VariableType) -> (r: Json)
    ensures
        r@ == type_json(t@),
    decreases t,
{
    match t {
        VariableType::StringType => Json::Str("String".to_string()),
        VariableType::IntType => Json::Str("Int".to_string()),
        VariableType::BoolType => Json::Str("Bool".to_string()),
        VariableType::FloatType => Json::Str("Float".to_string()),
        VariableType::ArrayType(inner) => {
            let mut ms: Vec<(String, Json)> = Vec::new();
            proof {
                lemma_members_view(ms@);
            }
            let item = encode_type(&**inner);
            push_member(&mut ms, "Array", item);
            assert(members_view(ms@) =~= seq![("Array"@, type_json((**inner)@))]);
            object(ms)
        },
        VariableType::ComplexType(name) => {
            let mut ms: Vec<(String, Json)> = Vec::new();
            proof {
                lemma_members_view(ms@);
            }
            push_member(&mut ms, "Complex", Json::Str(name.clone()));
            assert(members_view(ms@) =~= seq![("Complex"@, JsonView::Str(name@))]);
            object(ms)
        },
    }
}

fn text_or_null_json(o: &Option<String>) -> (r: Json)
    ensures
        r@ == text_or_null(opt_view(*o)),
{
    match o {
        Some(s) => Json::Str(s.clone()),
        None => Json::Null,
    }
}

/// The wire form of a field.
pub fn encode_variable(v: &Variable) -> (r: Json)
    ensures
        r@ == var_json(v@),
{
    let mut ms: Vec<(String, Json)> = Vec::new();
    proof {
        lemma_members_view(ms@);
    }
    push_member(&mut ms, "name", Json::Str(v.name.clone()));
    push_member(&mut ms, "type", encode_type(&v.variable_type));
    push_member(&mut ms, "optional", Json::Bool(v.optional));
    push_member(&mut ms, "value", text_or_null_json(&v.value));
    assert(members_view(ms@) =~= seq![
        ("name"@, JsonView::Str(v.name@)),
        ("type"@, type_json(v.variable_type@)),
        ("optional"@, JsonView::Bool(v.optional)),
        ("value"@, text_or_null(opt_view(v.value))),
    ]);
    object(ms)
}

fn encode_vars(vars: &Vec<Variable>) -> (r: Json)
    ensures
        r@ == JsonView::Array(vars_json(vars_view(vars@))),
{
    let mut items: Vec<Json> = Vec::new();
    let mut i: usize = 0;
    while i < vars.len()
        invariant
            i <= vars.len(),
            items@.len() == i,
            forall|j: int| 0 <= j < i ==> #[trigger] items@[j]@ == var_json(vars@[j]@),
        decreases vars.len() - i,
    {
        items.push(encode_variable(&vars[i]));
        i = i + 1;
    }
    proof {
        lemma_items_view(items@);
        assert forall|j: int| 0 <= j < items@.len() implies #[trigger] items_view(items@)[j]
            == vars_json(vars_view(vars@))[j] by {
            assert(items@[j]@ == var_json(vars@[j]@));
            assert(items_view(items@)[j] == json_view(items@[j]));
            assert(vars_view(vars@)[j] == vars@[j]@);
        }
        assert(items_view(items@) =~= vars_json(vars_view(vars@)));
    }
    Json::Array(items)
}

/// The wire form of a model.
pub fn encode_model(m: &Model) -> (r: Json)
    ensures
        r@ == model_json(m@),
{
    let mut ms: Vec<(String, Json)> = Vec::new();
    proof {
        lemma_members_view(ms@);
    }
    push_member(&mut ms, "name", Json::Str(m.name.clone()));
    push_member(&mut ms, "vars", encode_vars(&m.vars));
    assert(members_view(ms@) =~= seq![
        ("name"@, JsonView::Str(m.name@)),
        ("vars"@, JsonView::Array(vars_json(vars_view(m.vars@)))),
    ]);
    object(ms)
}

/// The wire form of a request.
pub fn encode_request(r: &Request) -> (out: Json)
    ensures
        out@ == request_json(r@),
{
    let mut ms: Vec<(String, Json)> = Vec::new();
    proof {
        lemma_members_view(ms@);
    }
    push_member(&mut ms, "name", Json::Str(r.name.clone()));
    push_member(&mut ms, "path", Json::Str(r.path.clone()));
    push_member(&mut ms, "vars", encode_vars(&r.vars));
    push_member(&mut ms, "method", Json::Str(r.method.as_string()));
    push_member(&mut ms, "response_type", Json::Str(r.response_type.clone()));
    push_member(&mut ms, "error_type", Json::Str(r.error_type.clone()));
    assert(members_view(ms@) =~= seq![
        ("name"@, JsonView::Str(r.name@)),
        ("path"@, JsonView::Str(r.path@)),
        ("vars"@, JsonView::Array(vars_json(vars_view(r.vars@)))),
        ("method"@, JsonView::Str(method_text(r.method))),
        ("response_type"@, JsonView::Str(r.response_type@)),
        ("error_type"@, JsonView::Str(r.error_type@)),
    ]);
    object(ms)
}

// Executable decoding.

fn same_text(s: &String, lit: &str) -> (r: bool)
    ensures
        r == (s@ == lit@),
{
    *s == lit.to_string()
}

/// The value of the first member called `key`.
pub fn find_member<'a>(ms: &'a Vec<(String, Json)>, key: &str) -> (r: Option<&'a Json>)
    ensures
        match r {
            Some(x) => member(members_view(ms@), key@) == Some(x@),
            None => member(members_view(ms@), key@) is None,
        },
{
    let ghost mv = members_view(ms@);
    proof {
        lemma_members_view(ms@);
    }
    let mut i: usize = 0;
    assert(mv.skip(0) =~= mv);
    while i < ms.len()
        invariant
            i <= ms.len(),
            mv == members_view(ms@),
            mv.len() == ms@.len(),
            forall|j: int| 0 <= j < ms@.len() ==> #[trigger] mv[j] == (ms@[j].0@, json_view(ms@[j].1)),
            member(mv, key@) == member(mv.skip(i as int), key@),
        decreases ms.len() - i,
    {
        assert(mv.skip(i as int).drop_first() =~= mv.skip(i + 1));
        assert(mv.skip(i as int)[0] == mv[i as int]);
        if same_text(&ms[i].0, key) {
            return Some(&ms[i].1);
        }
        i = i + 1;
    }
    None
}

/// The field type that a wire value stands for, if any.
pub fn decode_type(j: &Json) -> (r: Option<VariableType>)
    ensures
        match r {
            Some(t) => type_from(j@) == Some(t@),
            None => type_from(j@) is None,
        },
    decreases j,
{
    match j {
        Json::Str(s) => {
            if same_text(s, "String") {
                Some(VariableType::StringType)
            } else if same_text(s, "Int") {
                Some(VariableType::IntType)
            } else if same_text(s, "Bool") {
                Some(VariableType::BoolType)
            } else if same_text(s, "Float") {
                Some(VariableType::FloatType)
            } else {
                None
            }
        },
        Json::Object(ms) => {
            proof {
                lemma_members_view(ms@);
            }
            if ms.len() != 1 {
                return None;
            }
            let entry = &ms[0];
            if same_text(&entry.0, "Array") {
                assert(decreases_to!(ms => ms[0]));
                match decode_type(&entry.1) {
                    Some(t) => Some(VariableType::ArrayType(Box::new(t))),
                    None => None,
                }
            } else if same_text(&entry.0, "Complex") {
                match &entry.1 {
                    Json::Str(n) => Some(VariableType::ComplexType(n.clone())),
                    _ => None,
                }
            } else {
                None
            }
        },
        _ => None,
    }
}

fn member_text(ms: &Vec<(String, Json)>, key: &str) -> (r: Option<String>)
    ensures
        opt_view(r) == text_of(member(members_view(ms@), key@)),
{
    match find_member(ms, key) {
        Some(Json::Str(s)) => Some(s.clone()),
        _ => None,
    }
}

/// The field that a wire value stands for, if any.
pub fn decode_variable(j: &Json) -> (r: Option<Variable>)
    ensures
        match r {
            Some(v) => var_from(j@) == Some(v@),
            None => var_from(j@) is None,
        },
{
    let ms = match j {
        Json::Object(ms) => ms,
        _ => return None,
    };
    let name = match member_text(ms, "name") {
        Some(n) => n,
        None => return None,
    };
    let t = match find_member(ms, "type") {
        Some(t) => t,
        None => return None,
    };
    let optional = match find_member(ms, "optional") {
        Some(Json::Bool(b)) => *b,
        _ => return None,
    };
    let value = match find_member(ms, "value") {
        None => None,
        Some(Json::Null) => None,
        Some(Json::Str(s)) => Some(s.clone()),
        _ => return None,
    };
    let variable_type = match decode_type(t) {
        Some(ty) => ty,
        None => return None,
    };
    Some(Variable { name, variable_type, optional, value })
}

fn decode_vars(items: &Vec<Json>) -> (r: Option<Vec<Variable>>)
    ensures
        match r {
            Some(vs) => vars_from(items_view(items@)) == Ok::<Seq<VariableView>, ()>(vars_view(vs@)),
            None => vars_from(items_view(items@)) is Err,
        },
{
    let ghost s = items_view(items@);
    let ghost f = var_fn();
    proof {
        lemma_items_view(items@);
    }
    let mut out: Vec<Variable> = Vec::new();
    let mut i: usize = 0;
    assert(vars_view(out@) =~= Seq::<VariableView>::empty());
    assert(s.take(0) =~= Seq::<JsonView>::empty());
    while i < items.len()
        invariant
            i <= items.len(),
            s == items_view(items@),
            s.len() == items@.len(),
            forall|j: int| 0 <= j < items@.len() ==> #[trigger] s[j] == json_view(items@[j]),
            f == var_fn(),
            collect_all(s.take(i as int), f) == Ok::<Seq<VariableView>, ()>(vars_view(out@)),
        decreases items.len() - i,
    {
        proof {
            lemma_collect_step(s, f, i as int);
        }
        assert(s[i as int] == items@[i as int]@);
        match decode_variable(&items[i]) {
            Some(v) => {
                let ghost before = vars_view(out@);
                out.push(v);
                assert(vars_view(out@) =~= before + seq![v@]);
            },
            None => {
                proof {
                    lemma_collect_prefix_err(s, f, i + 1);
                }
                return None;
            },
        }
        i = i + 1;
    }
    proof {
        lemma_take_all(s);
    }
    Some(out)
}

fn member_vars(ms: &Vec<(String, Json)>) -> (r: Option<Vec<Variable>>)
    ensures
        match r {
            Some(vs) => vars_member(members_view(ms@)) == Some(vars_view(vs@)),
            None => vars_member(members_view(ms@)) is None,
        },
{
    match find_member(ms, "vars") {
        Some(Json::Array(items)) => decode_vars(items),
        _ => None,
    }
}

/// The model that a wire value stands for, if any.
pub fn decode_model(j: &Json) -> (r: Option<Model>)
    ensures
        match r {
            Some(m) => model_from(j@) == Some(m@),
            None => model_from(j@) is None,
        },
{
    let ms = match j {
        Json::Object(ms) => ms,
        _ => return None,
    };
    let name = match member_text(ms, "name") {
        Some(n) => n,
        None => return None,
    };
    let vars = match member_vars(ms) {
        Some(v) => v,
        None => return None,
    };
    Some(Model { name, vars })
}

fn decode_method(o: Option<&Json>) -> (r: Option<Method>)
    ensures
        r == method_from(
            match o {
                Some(x) => Some(x@),
                None => None,
            },
        ),
{
    let s = match o {
        Some(Json::Str(s)) => s,
        _ => return None,
    };
    if same_text(s, "GET") {
        Some(Method::Get_)
    } else if same_text(s, "POST") {
        Some(Method::Post_)
    } else if same_text(s, "PUT") {
        Some(Method::Put_)
    } else if same_text(s, "DELETE") {
        Some(Method::Delete_)
    } else if same_text(s, "OPTIONS") {
        Some(Method::Options_)
    } else if same_text(s, "HEAD") {
        Some(Method::Head_)
    } else if same_text(s, "PATCH") {
        Some(Method::Patch_)
    } else if same_text(s, "TRACE") {
        Some(Method::Trace_)
    } else {
        None
    }
}

/// The request that a wire value stands for, if any.
pub fn decode_request(j: &Json) -> (r: Option<Request>)
    ensures
        match r {
            Some(q) => request_from(j@) == Some(q@),
            None => request_from(j@) is None,
        },
{
    let ms = match j {
        Json::Object(ms) => ms,
        _ => return None,
    };
    let name = match member_text(ms, "name") {
        Some(n) => n,
        None => return None,
    };
    let path = match member_text(ms, "path") {
        Some(n) => n,
        None => return None,
    };
    let vars = match member_vars(ms) {
        Some(v) => v,
        None => return None,
    };
    let method = match decode_method(find_member(ms, "method")) {
        Some(m) => m,
        None => return None,
    };
    let response_type = match member_text(ms, "response_type") {
        Some(n) => n,
        None => return None,
    };
    let error_type = match member_text(ms, "error_type") {
        Some(n) => n,
        None => return None,
    };
    Some(Request { name, path, vars, method, response_type, error_type })
}

/// The models that a wire list stands for, if it is a list of models.
pub fn decode_models(j: &Json) -> (r: Option<Vec<Model>>)
    ensures
        match r {
            Some(ms) => models_from(j@) == Some(models_view(ms@)),
            None => models_from(j@) is None,
        },
{
    match j {
        Json::Array(items) => decode_models_items(items),
        _ => None,
    }
}

fn decode_models_items(items: &Vec<Json>) -> (r: Option<Vec<Model>>)
    ensures
        match r {
            Some(ms) => collect_all(items_view(items@), model_item_fn()) == Ok::<Seq<ModelView>, ()>(models_view(ms@)),
            None => collect_all(items_view(items@), model_item_fn()) is Err,
        },
{
    let ghost s = items_view(items@);
    let ghost f = model_item_fn();
    proof {
        lemma_items_view(items@);
    }
    let mut out: Vec<Model> = Vec::new();
    let mut i: usize = 0;
    assert(models_view(out@) =~= Seq::<ModelView>::empty());
    assert(s.take(0) =~= Seq::<JsonView>::empty());
    while i < items.len()
        invariant
            i <= items.len(),
            s == items_view(items@),
            s.len() == items@.len(),
            forall|k: int| 0 <= k < items@.len() ==> #[trigger] s[k] == json_view(items@[k]),
            f == model_item_fn(),
            collect_all(s.take(i as int), f) == Ok::<Seq<ModelView>, ()>(models_view(out@)),
        decreases items.len() - i,
    {
        proof {
            lemma_collect_step(s, f, i as int);
        }
        assert(s[i as int] == items@[i as int]@);
        match decode_model(&items[i]) {
            Some(m) => {
                let ghost before = models_view(out@);
                out.push(m);
                assert(models_view(out@) =~= before + seq![m@]);
            },
            None => {
                proof {
                    lemma_collect_prefix_err(s, f, i + 1);
                }
                return None;
            },
        }
        i = i + 1;
    }
    proof {
        lemma_take_all(s);
    }
    Some(out)
}

/// The requests that a wire list stands for, if it is a list of requests.
pub fn decode_requests(j: &Json) -> (r: Option<Vec<Request>>)
    ensures
        match r {
            Some(rs) => requests_from(j@) == Some(requests_view(rs@)),
            None => requests_from(j@) is None,
        },
{
    match j {
        Json::Array(items) => decode_requests_items(items),
        _ => None,
    }
}

fn decode_requests_items(items: &Vec<Json>) -> (r: Option<Vec<Request>>)
    ensures
        match r {
            Some(rs) => collect_all(items_view(items@), request_item_fn()) == Ok::<Seq<RequestView>, ()>(requests_view(rs@)),
            None => collect_all(items_view(items@), request_item_fn()) is Err,
        },
{
    let ghost s = items_view(items@);
    let ghost f = request_item_fn();
    proof {
        lemma_items_view(items@);
    }
    let mut out: Vec<Request> = Vec::new();
    let mut i: usize = 0;
    assert(requests_view(out@) =~= Seq::<RequestView>::empty());
    assert(s.take(0) =~= Seq::<JsonView>::empty());
    while i < items.len()
        invariant
            i <= items.len(),
            s == items_view(items@),
            s.len() == items@.len(),
            forall|k: int| 0 <= k < items@.len() ==> #[trigger] s[k] == json_view(items@[k]),
            f == request_item_fn(),
            collect_all(s.take(i as int), f) == Ok::<Seq<RequestView>, ()>(requests_view(out@)),
        decreases items.len() - i,
    {
        proof {
            lemma_collect_step(s, f, i as int);
        }
        assert(s[i as int] == items@[i as int]@);
        match decode_request(&items[i]) {
            Some(q) => {
                let ghost before = requests_view(out@);
                out.push(q);
                assert(requests_view(out@) =~= before + seq![q@]);
            },
            None => {
                proof {
                    lemma_collect_prefix_err(s, f, i + 1);
                }
                return None;
            },
        }
        i = i + 1;
    }
    proof {
        lemma_take_all(s);
    }
    Some(out)
}

} // verus!
