//! Reduces a specification document to the canonical `Project`.

use vstd::prelude::*;
use crate::collect::{collect_all, lemma_collect_prefix_err, lemma_collect_step, lemma_take_all};
use crate::document::{Document, Operation, Parameter, ParameterFormat, ParameterLocation, PathItem, RefOr, Response, Responses, Schema};
use crate::model::{
    method_text, models_view, opt_view, requests_view, vars_view, Info, InfoView,
    Method, Model, ModelView, Project, ProjectView, Request, RequestView, TypeView, Variable,
    VariableType, VariableView,
};
use crate::text::{last_segment, last_segment_of, lower_of, lowercase, push_stripped, strip_punct};

verus! {

/// Why a schema could not be turned into a type.
#[derive(Debug, Clone, Copy, PartialEq, Eq, Structural)]
pub enum Fault {
    /// A shape outside the supported set (a union, an array without items,
    /// a bare scalar where an object is required).
    Shape,
    /// A reference that cannot be followed: one whose last path segment is
    /// empty, or a parameter or path item given as a reference.
    Reference,
}

/// Why extraction failed, with the record (model or request) and field.
#[derive(Debug)]
pub enum ExtractionError {
    UnsupportedSchemaShape { record: String, field: Option<String> },
    UnresolvedReference { record: String, field: Option<String> },
}

pub struct ErrorView {
    pub fault: Fault,
    pub record: Seq<char>,
    pub field: Option<Seq<char>>,
}

impl View for ExtractionError {
    type V = ErrorView;

    open spec fn view(&self) -> ErrorView {
        match self {
            ExtractionError::UnsupportedSchemaShape { record, field } => ErrorView {
                fault: Fault::Shape,
                record: record@,
                field: opt_view(*field),
            },
            ExtractionError::UnresolvedReference { record, field } => ErrorView {
                fault: Fault::Reference,
                record: record@,
                field: opt_view(*field),
            },
        }
    }
}

fn make_error(fault: Fault, record: String, field: Option<String>) -> (r: ExtractionError)
    ensures
        r@ == (ErrorView { fault, record: record@, field: opt_view(field) }),
{
    match fault {
        Fault::Shape => ExtractionError::UnsupportedSchemaShape { record, field },
        Fault::Reference => ExtractionError::UnresolvedReference { record, field },
    }
}

/// The name given to an object schema written inline.
pub open spec fn inline_object_name() -> Seq<char> {
    "unresolved-inline-object"@
}

/// The type that a schema node stands for.
pub open spec fn type_of(node: RefOr<Schema>) -> Result<TypeView, Fault>
    decreases node,
{
    match node {
        RefOr::Reference(r) => if last_segment(r@).len() == 0 {
            Err(Fault::Reference)
        } else {
            Ok(TypeView::Complex(last_segment(r@)))
        },
        RefOr::Item(schema) => match schema {
            Schema::StringType => Ok(TypeView::Str),
            Schema::Number => Ok(TypeView::Float),
            Schema::Integer => Ok(TypeView::Int),
            Schema::Boolean => Ok(TypeView::Bool),
            Schema::Array(items) => match items {
                Some(b) => match type_of(*b) {
                    Ok(t) => Ok(TypeView::Array(Box::new(t))),
                    Err(f) => Err(f),
                },
                None => Err(Fault::Shape),
            },
            Schema::Object { .. } => Ok(TypeView::Complex(inline_object_name())),
            Schema::Composite => Err(Fault::Shape),
        },
    }
}

/// The type that a schema node stands for.
pub fn resolve_type(node: &RefOr<Schema>) -> (r: Result<VariableType, Fault>)
    ensures
        match r {
            Ok(t) => type_of(*node) == Ok::<TypeView, Fault>(t@),
            Err(f) => type_of(*node) == Err::<TypeView, Fault>(f),
        },
    decreases node,
{
    match node {
        RefOr::Reference(r) => {
            let name = last_segment_of(r.as_str());
            if name.unicode_len() == 0 {
                Err(Fault::Reference)
            } else {
                Ok(VariableType::ComplexType(name))
            }
        },
        RefOr::Item(schema) => match schema {
            Schema::StringType => Ok(VariableType::StringType),
            Schema::Number => Ok(VariableType::FloatType),
            Schema::Integer => Ok(VariableType::IntType),
            Schema::Boolean => Ok(VariableType::BoolType),
            Schema::Array(items) => match items {
                Some(b) => match resolve_type(&**b) {
                    Ok(t) => Ok(VariableType::ArrayType(Box::new(t))),
                    Err(f) => Err(f),
                },
                None => Err(Fault::Shape),
            },
            Schema::Object { .. } => Ok(
                VariableType::ComplexType("unresolved-inline-object".to_string()),
            ),
            Schema::Composite => Err(Fault::Shape),
        },
    }
}

pub open spec fn names_view(names: Seq<String>) -> Seq<Seq<char>> {
    names.map_values(|s: String| s@)
}

/// Whether `name` is among `names`.
pub fn contains_name(names: &Vec<String>, name: &String) -> (r: bool)
    ensures
        r == names_view(names@).contains(name@),
{
    let mut i: usize = 0;
    while i < names.len()
        invariant
            i <= names.len(),
            forall|j: int| 0 <= j < i ==> names@[j]@ != name@,
        decreases names.len() - i,
    {
        if names[i] == *name {
            assert(names_view(names@)[i as int] == name@);
            return true;
        }
        i = i + 1;
    }
    assert forall|j: int| 0 <= j < names_view(names@).len() implies names_view(names@)[j]
        != name@ by {
        assert(names_view(names@)[j] == names@[j]@);
    }
    false
}

/// The field for one property of an object schema.
pub open spec fn field_of(record: Seq<char>, required: Seq<Seq<char>>, prop: (String, RefOr<Schema>)) -> Result<
    Seq<VariableView>,
    ErrorView,
> {
    match type_of(prop.1) {
        Ok(t) => Ok(
            seq![VariableView { name: prop.0@, ty: t, optional: !required.contains(prop.0@), value: None }],
        ),
        Err(f) => Err(ErrorView { fault: f, record, field: Some(prop.0@) }),
    }
}

pub open spec fn field_fn(record: Seq<char>, required: Seq<Seq<char>>) -> spec_fn(
    (String, RefOr<Schema>),
) -> Result<Seq<VariableView>, ErrorView> {
    |prop: (String, RefOr<Schema>)| field_of(record, required, prop)
}

/// The fields of an object schema, in property order.
pub open spec fn fields_of(
    record: Seq<char>,
    props: Seq<(String, RefOr<Schema>)>,
    required: Seq<String>,
) -> Result<Seq<VariableView>, ErrorView> {
    collect_all(props, field_fn(record, names_view(required)))
}

fn extract_fields(
    record: &String,
    props: &Vec<(String, RefOr<Schema>)>,
    required: &Vec<String>,
) -> (r: Result<Vec<Variable>, ExtractionError>)
    ensures
        match r {
            Ok(vars) => fields_of(record@, props@, required@) == Ok::<Seq<VariableView>, ErrorView>(
                vars_view(vars@),
            ),
            Err(e) => fields_of(record@, props@, required@) == Err::<Seq<VariableView>, ErrorView>(
                e@,
            ),
        },
{
    let ghost f = field_fn(record@, names_view(required@));
    let mut vars: Vec<Variable> = Vec::new();
    let mut i: usize = 0;
    assert(vars_view(vars@) =~= Seq::<VariableView>::empty());
    assert(props@.take(0) =~= Seq::<(String, RefOr<Schema>)>::empty());
    while i < props.len()
        invariant
            i <= props.len(),
            f == field_fn(record@, names_view(required@)),
            collect_all(props@.take(i as int), f) == Ok::<Seq<VariableView>, ErrorView>(
                vars_view(vars@),
            ),
        decreases props.len() - i,
    {
        let prop = &props[i];
        proof {
            lemma_collect_step(props@, f, i as int);
        }
        match resolve_type(&prop.1) {
            Ok(t) => {
                let optional = !contains_name(required, &prop.0);
                let ghost before = vars_view(vars@);
                let v = Variable { name: prop.0.clone(), variable_type: t, optional, value: None };
                assert(f(props@[i as int]) == Ok::<Seq<VariableView>, ErrorView>(seq![v@]));
                vars.push(v);
                assert(vars_view(vars@) =~= before + seq![v@]);
            },
            Err(fault) => {
                let e = make_error(fault, record.clone(), Some(prop.0.clone()));
                proof {
                    lemma_collect_prefix_err(props@, f, i + 1);
                }
                return Err(e);
            },
        }
        i = i + 1;
    }
    proof {
        lemma_take_all(props@);
    }
    Ok(vars)
}

/// The model name that an array schema aliases, when its items are a reference.
pub open spec fn alias_target(items: Option<Box<RefOr<Schema>>>) -> Option<Seq<char>> {
    match items {
        Some(b) => match *b {
            RefOr::Reference(r) => if last_segment(r@).len() > 0 {
                Some(last_segment(r@))
            } else {
                None
            },
            RefOr::Item(_) => None,
        },
        None => None,
    }
}

/// Whether an array's items are a reference that names nothing (its last
/// path segment is empty).
pub open spec fn dangling_items(items: Option<Box<RefOr<Schema>>>) -> bool {
    match items {
        Some(b) => match *b {
            RefOr::Reference(r) => last_segment(r@).len() == 0,
            RefOr::Item(_) => false,
        },
        None => false,
    }
}

/// What one named schema contributes to the models: nothing for an array
/// alias, one model for an object, an unresolved reference for an array whose
/// item reference names nothing, an error for any other shape (a reference
/// included).
pub open spec fn model_of(entry: (String, RefOr<Schema>)) -> Result<Seq<ModelView>, ErrorView> {
    match entry.1 {
        RefOr::Reference(_) => Err(ErrorView { fault: Fault::Shape, record: entry.0@, field: None }),
        RefOr::Item(schema) => match schema {
            Schema::Array(items) => if alias_target(items) is Some {
                Ok(Seq::empty())
            } else if dangling_items(items) {
                Err(ErrorView { fault: Fault::Reference, record: entry.0@, field: None })
            } else {
                Err(ErrorView { fault: Fault::Shape, record: entry.0@, field: None })
            },
            Schema::Object { properties, required } => match fields_of(
                entry.0@,
                properties@,
                required@,
            ) {
                Ok(vars) => Ok(seq![ModelView { name: entry.0@, vars }]),
                Err(e) => Err(e),
            },
            _ => Err(ErrorView { fault: Fault::Shape, record: entry.0@, field: None }),
        },
    }
}

pub open spec fn model_fn() -> spec_fn((String, RefOr<Schema>)) -> Result<Seq<ModelView>, ErrorView> {
    |entry: (String, RefOr<Schema>)| model_of(entry)
}

/// The models of the named schemas, in declared order.
pub open spec fn models_of(schemas: Seq<(String, RefOr<Schema>)>) -> Result<Seq<ModelView>, ErrorView> {
    collect_all(schemas, model_fn())
}

/// The alias that one named schema contributes: its name and the model that
/// its items refer to, for an array of a reference.
pub open spec fn alias_of(entry: (String, RefOr<Schema>)) -> Result<Seq<(Seq<char>, Seq<char>)>, ()> {
    match entry.1 {
        RefOr::Item(Schema::Array(items)) => match alias_target(items) {
            Some(t) => Ok(seq![(entry.0@, t)]),
            None => Ok(Seq::empty()),
        },
        _ => Ok(Seq::empty()),
    }
}

pub open spec fn alias_fn() -> spec_fn((String, RefOr<Schema>)) -> Result<Seq<(Seq<char>, Seq<char>)>, ()> {
    |entry: (String, RefOr<Schema>)| alias_of(entry)
}

/// The array aliases among the named schemas, in declared order.
pub open spec fn aliases_of(schemas: Seq<(String, RefOr<Schema>)>) -> Seq<(Seq<char>, Seq<char>)> {
    collect_all(schemas, alias_fn())->Ok_0
}

pub open spec fn pairs_view(pairs: Seq<(String, String)>) -> Seq<(Seq<char>, Seq<char>)> {
    pairs.map_values(|p: (String, String)| (p.0@, p.1@))
}

proof fn lemma_aliases_ok(s: Seq<(String, RefOr<Schema>)>)
    ensures
        collect_all(s, alias_fn()) is Ok,
    decreases s.len(),
{
    if s.len() > 0 {
        lemma_aliases_ok(s.drop_last());
    }
}

/// The models and array aliases of the named schemas.
fn collect_models(schemas: &Vec<(String, RefOr<Schema>)>) -> (r: (
    Result<Vec<Model>, ExtractionError>,
    Vec<(String, String)>,
))
    ensures
        match r.0 {
            Ok(ms) => models_of(schemas@) == Ok::<Seq<ModelView>, ErrorView>(models_view(ms@)),
            Err(e) => models_of(schemas@) == Err::<Seq<ModelView>, ErrorView>(e@),
        },
        r.0 is Ok ==> pairs_view(r.1@) == aliases_of(schemas@),
{
    let ghost f = model_fn();
    let ghost g = alias_fn();
    let mut models: Vec<Model> = Vec::new();
    let mut aliases: Vec<(String, String)> = Vec::new();
    let mut i: usize = 0;
    assert(models_view(models@) =~= Seq::<ModelView>::empty());
    assert(pairs_view(aliases@) =~= Seq::<(Seq<char>, Seq<char>)>::empty());
    assert(schemas@.take(0) =~= Seq::<(String, RefOr<Schema>)>::empty());
    while i < schemas.len()
        invariant
            i <= schemas.len(),
            f == model_fn(),
            g == alias_fn(),
            collect_all(schemas@.take(i as int), f) == Ok::<Seq<ModelView>, ErrorView>(
                models_view(models@),
            ),
            collect_all(schemas@.take(i as int), g) == Ok::<Seq<(Seq<char>, Seq<char>)>, ()>(
                pairs_view(aliases@),
            ),
        decreases schemas.len() - i,
    {
        let entry = &schemas[i];
        proof {
            lemma_collect_step(schemas@, f, i as int);
            lemma_collect_step(schemas@, g, i as int);
        }
        match &entry.1 {
            RefOr::Reference(_) => {
                let e = make_error(Fault::Shape, entry.0.clone(), None);
                proof {
                    lemma_collect_prefix_err(schemas@, f, i + 1);
                }
                return (Err(e), aliases);
            },
            RefOr::Item(schema) => {
                let mut target: Option<String> = None;
                if let Schema::Array(items) = schema {
                    if let Some(b) = items {
                        if let RefOr::Reference(reference) = &**b {
                            let t = last_segment_of(reference.as_str());
                            if t.unicode_len() == 0 {
                                let e = make_error(Fault::Reference, entry.0.clone(), None);
                                proof {
                                    lemma_collect_prefix_err(schemas@, f, i + 1);
                                }
                                return (Err(e), aliases);
                            }
                            target = Some(t);
                        }
                    }
                }
                match target {
                    Some(t) => {
                        let ghost before = pairs_view(aliases@);
                        let pair = (entry.0.clone(), t);
                        assert(g(schemas@[i as int]) == Ok::<Seq<(Seq<char>, Seq<char>)>, ()>(
                            seq![(pair.0@, pair.1@)],
                        ));
                        assert(f(schemas@[i as int]) == Ok::<Seq<ModelView>, ErrorView>(
                            Seq::empty(),
                        ));
                        aliases.push(pair);
                        assert(models_view(models@) + Seq::<ModelView>::empty() =~= models_view(
                            models@,
                        ));
                        assert(pairs_view(aliases@) =~= before + seq![(pair.0@, pair.1@)]);
                    },
                    None => {
                        assert(pairs_view(aliases@) + Seq::<(Seq<char>, Seq<char>)>::empty()
                            =~= pairs_view(aliases@));
                        if let Schema::Object { properties, required } = schema {
                            match extract_fields(&entry.0, properties, required) {
                                Ok(vars) => {
                                    let ghost before = models_view(models@);
                                    let m = Model { name: entry.0.clone(), vars };
                                    assert(f(schemas@[i as int]) == Ok::<Seq<ModelView>, ErrorView>(
                                        seq![m@],
                                    ));
                                    models.push(m);
                                    assert(models_view(models@) =~= before + seq![m@]);
                                },
                                Err(e) => {
                                    proof {
                                        lemma_collect_prefix_err(schemas@, f, i + 1);
                                    }
                                    return (Err(e), aliases);
                                },
                            }
                        } else {
                            let e = make_error(Fault::Shape, entry.0.clone(), None);
                            proof {
                                lemma_collect_prefix_err(schemas@, f, i + 1);
                            }
                            return (Err(e), aliases);
                        }
                    },
                }
            },
        }
        i = i + 1;
    }
    proof {
        lemma_take_all(schemas@);
    }
    (Ok(models), aliases)
}

/// The field that one parameter contributes: query and path parameters
/// only; a parameter given as a reference is an error naming the request.
pub open spec fn param_of(record: Seq<char>, p: RefOr<Parameter>) -> Result<Seq<VariableView>, ErrorView> {
    match p {
        RefOr::Reference(_) => Err(ErrorView { fault: Fault::Reference, record, field: None }),
        RefOr::Item(param) => if param.location == ParameterLocation::Query || param.location
            == ParameterLocation::Path {
            match param.format {
                ParameterFormat::Schema(node) => match type_of(node) {
                    Ok(t) => Ok(
                        seq![VariableView { name: param.name@, ty: t, optional: !param.required, value: None }],
                    ),
                    Err(f) => Err(ErrorView { fault: f, record, field: Some(param.name@) }),
                },
                ParameterFormat::Content => Ok(
                    seq![VariableView { name: param.name@, ty: TypeView::Str, optional: false, value: None }],
                ),
            }
        } else {
            Ok(Seq::empty())
        },
    }
}

pub open spec fn param_fn(record: Seq<char>) -> spec_fn(RefOr<Parameter>) -> Result<Seq<VariableView>, ErrorView> {
    |p: RefOr<Parameter>| param_of(record, p)
}

/// The fields of a request, from its parameters in declared order.
pub open spec fn params_of(record: Seq<char>, params: Seq<RefOr<Parameter>>) -> Result<Seq<VariableView>, ErrorView> {
    collect_all(params, param_fn(record))
}

fn extract_params(record: &String, params: &Vec<RefOr<Parameter>>) -> (r: Result<
    Vec<Variable>,
    ExtractionError,
>)
    ensures
        match r {
            Ok(vars) => params_of(record@, params@) == Ok::<Seq<VariableView>, ErrorView>(
                vars_view(vars@),
            ),
            Err(e) => params_of(record@, params@) == Err::<Seq<VariableView>, ErrorView>(e@),
        },
{
    let ghost f = param_fn(record@);
    let mut vars: Vec<Variable> = Vec::new();
    let mut i: usize = 0;
    assert(vars_view(vars@) =~= Seq::<VariableView>::empty());
    assert(params@.take(0) =~= Seq::<RefOr<Parameter>>::empty());
    while i < params.len()
        invariant
            i <= params.len(),
            f == param_fn(record@),
            collect_all(params@.take(i as int), f) == Ok::<Seq<VariableView>, ErrorView>(
                vars_view(vars@),
            ),
        decreases params.len() - i,
    {
        proof {
            lemma_collect_step(params@, f, i as int);
        }
        let ghost before = vars_view(vars@);
        match &params[i] {
            RefOr::Item(param) => {
                if param.location == ParameterLocation::Query || param.location
                    == ParameterLocation::Path {
                    let v = match &param.format {
                        ParameterFormat::Schema(node) => match resolve_type(node) {
                            Ok(t) => Variable {
                                name: param.name.clone(),
                                variable_type: t,
                                optional: !param.required,
                                value: None,
                            },
                            Err(fault) => {
                                let e = make_error(fault, record.clone(), Some(param.name.clone()));
                                proof {
                                    lemma_collect_prefix_err(params@, f, i + 1);
                                }
                                return Err(e);
                            },
                        },
                        ParameterFormat::Content => Variable {
                            name: param.name.clone(),
                            variable_type: VariableType::StringType,
                            optional: false,
                            value: None,
                        },
                    };
                    assert(f(params@[i as int]) == Ok::<Seq<VariableView>, ErrorView>(seq![v@]));
                    vars.push(v);
                    assert(vars_view(vars@) =~= before + seq![v@]);
                } else {
                    assert(before + Seq::<VariableView>::empty() =~= before);
                }
            },
            RefOr::Reference(_) => {
                let e = make_error(Fault::Reference, record.clone(), None);
                proof {
                    lemma_collect_prefix_err(params@, f, i + 1);
                }
                return Err(e);
            },
        }
        i = i + 1;
    }
    proof {
        lemma_take_all(params@);
    }
    Ok(vars)
}

/// The sentinel name of an absent response.
pub open spec fn empty_response() -> Seq<char> {
    "ResponseEmpty"@
}

/// The model named by a media type's schema reference (empty for an inline schema).
pub open spec fn media_name(m: Option<RefOr<Schema>>) -> Seq<char> {
    match m {
        Some(RefOr::Reference(r)) => last_segment(r@),
        _ => Seq::empty(),
    }
}

/// The model named by a response: its reference, or its first media type's.
pub open spec fn response_name(resp: RefOr<Response>) -> Seq<char> {
    match resp {
        RefOr::Reference(r) => last_segment(r@),
        RefOr::Item(resp) => if resp.content@.len() > 0 {
            media_name(resp.content@[0])
        } else {
            Seq::empty()
        },
    }
}

fn response_name_of(resp: &RefOr<Response>) -> (r: String)
    ensures
        r@ == response_name(*resp),
{
    match resp {
        RefOr::Reference(r) => last_segment_of(r.as_str()),
        RefOr::Item(item) => {
            if item.content.len() > 0 {
                match &item.content[0] {
                    Some(RefOr::Reference(r)) => last_segment_of(r.as_str()),
                    _ => String::new(),
                }
            } else {
                String::new()
            }
        },
    }
}

/// A request's error type: what its default response names.
pub open spec fn error_type_of(rs: Responses) -> Seq<char> {
    match rs.default {
        Some(d) => response_name(d),
        None => empty_response(),
    }
}

/// What the first non-default response names (empty when there is none).
pub open spec fn first_response_name(rs: Responses) -> Seq<char> {
    if rs.responses@.len() == 0 {
        Seq::empty()
    } else {
        response_name(rs.responses@[0])
    }
}

/// The model that the first alias called `name` stands for.
pub open spec fn alias_lookup(aliases: Seq<(Seq<char>, Seq<char>)>, name: Seq<char>) -> Option<Seq<char>>
    decreases aliases.len(),
{
    if aliases.len() == 0 {
        None
    } else if aliases[0].0 == name {
        Some(aliases[0].1)
    } else {
        alias_lookup(aliases.drop_first(), name)
    }
}

/// A request's response type: the sentinel when the first response names
/// nothing; otherwise the name, written `[Model]` when it is an array alias.
pub open spec fn response_type_of(rs: Responses, aliases: Seq<(Seq<char>, Seq<char>)>) -> Seq<char> {
    let name = first_response_name(rs);
    if name.len() == 0 {
        empty_response()
    } else {
        match alias_lookup(aliases, name) {
            Some(t) => "["@ + t + "]"@,
            None => name,
        }
    }
}

fn find_alias(aliases: &Vec<(String, String)>, name: &String) -> (r: Option<String>)
    ensures
        opt_view(r) == alias_lookup(pairs_view(aliases@), name@),
{
    let ghost all = pairs_view(aliases@);
    let mut i: usize = 0;
    assert(all.skip(0) =~= all);
    while i < aliases.len()
        invariant
            i <= aliases.len(),
            all == pairs_view(aliases@),
            alias_lookup(all, name@) == alias_lookup(all.skip(i as int), name@),
        decreases aliases.len() - i,
    {
        assert(all.skip(i as int).drop_first() =~= all.skip(i + 1));
        if aliases[i].0 == *name {
            return Some(aliases[i].1.clone());
        }
        i = i + 1;
    }
    None
}

fn response_type(rs: &Responses, aliases: &Vec<(String, String)>) -> (r: String)
    ensures
        r@ == response_type_of(*rs, pairs_view(aliases@)),
{
    let mut base = String::new();
    if rs.responses.len() > 0 {
        base = response_name_of(&rs.responses[0]);
    }
    if base.unicode_len() == 0 {
        return "ResponseEmpty".to_string();
    }
    match find_alias(aliases, &base) {
        Some(t) => {
            let mut out = "[".to_string();
            out.append(t.as_str());
            out.append("]");
            out
        },
        None => base,
    }
}

fn error_type(rs: &Responses) -> (r: String)
    ensures
        r@ == error_type_of(*rs),
{
    match &rs.default {
        Some(d) => response_name_of(d),
        None => "ResponseEmpty".to_string(),
    }
}

/// A request's name before lowercasing: path, method and "request", without
/// '/', '{' and '}'.
pub open spec fn stripped_name(path: Seq<char>, m: Method) -> Seq<char> {
    strip_punct(path + method_text(m) + "request"@)
}

/// A request's name.
pub open spec fn name_of(path: Seq<char>, m: Method) -> Seq<char> {
    lower_of(stripped_name(path, m))
}

/// The name of the request at `path` with `method`, before lowercasing.
pub fn request_name_source(path: &str, method: Method) -> (r: String)
    ensures
        r@ == stripped_name(path@, method),
{
    let mut out = String::new();
    let verb = method.as_string();
    push_stripped(&mut out, path);
    push_stripped(&mut out, verb.as_str());
    push_stripped(&mut out, "request");
    proof {
        crate::text::lemma_strip_punct_append(path@, method_text(method));
        crate::text::lemma_strip_punct_append(path@ + method_text(method), "request"@);
        assert(Seq::<char>::empty() + strip_punct(path@) + strip_punct(method_text(method))
            + strip_punct("request"@) =~= strip_punct(path@) + strip_punct(method_text(method))
            + strip_punct("request"@));
    }
    out
}

/// The name of the request at `path` with `method`: lowercase, without
/// '/', '{' and '}'.
pub fn request_name(path: &str, method: Method) -> (r: String)
    ensures
        r@ == name_of(path@, method),
{
    let source = request_name_source(path, method);
    lowercase(source.as_str())
}

/// A request's path: its declared path up to the last '/'.
pub open spec fn path_prefix(p: Seq<char>) -> Seq<char> {
    if crate::text::after_last_slash(p) == 0 {
        Seq::empty()
    } else {
        p.subrange(0, crate::text::after_last_slash(p) - 1)
    }
}

/// A request's path: its declared path up to the last '/'.
pub fn request_path(p: &str) -> (r: String)
    ensures
        r@ == path_prefix(p@),
{
    let n = p.unicode_len();
    let mut i: usize = n;
    assert(p@.take(n as int) =~= p@);
    while i > 0 && p.get_char(i - 1) != '/'
        invariant
            n == p@.len(),
            i <= n,
            crate::text::after_last_slash(p@) == crate::text::after_last_slash(p@.take(i as int)),
        decreases i,
    {
        assert(p@.take(i as int).drop_last() =~= p@.take(i - 1));
        i = i - 1;
    }
    if i == 0 {
        String::new()
    } else {
        assert(p@.take(i as int).last() == '/');
        p.substring_char(0, i - 1).to_string()
    }
}

/// What one operation contributes: its request, or the error in its parameters.
pub open spec fn request_of(
    path: Seq<char>,
    m: Method,
    op: Operation,
    aliases: Seq<(Seq<char>, Seq<char>)>,
) -> Result<Seq<RequestView>, ErrorView> {
    match params_of(name_of(path, m), op.parameters@) {
        Ok(vars) => Ok(
            seq![
                RequestView {
                    name: name_of(path, m),
                    path: path_prefix(path),
                    vars,
                    method: m,
                    response_type: response_type_of(op.responses, aliases),
                    error_type: error_type_of(op.responses),
                },
            ],
        ),
        Err(e) => Err(e),
    }
}

fn build_request(path: &String, m: Method, op: &Operation, aliases: &Vec<(String, String)>) -> (r:
    Result<Request, ExtractionError>)
    ensures
        match r {
            Ok(req) => request_of(path@, m, *op, pairs_view(aliases@)) == Ok::<
                Seq<RequestView>,
                ErrorView,
            >(seq![req@]),
            Err(e) => request_of(path@, m, *op, pairs_view(aliases@)) == Err::<
                Seq<RequestView>,
                ErrorView,
            >(e@),
        },
{
    let name = request_name(path.as_str(), m);
    let vars = match extract_params(&name, &op.parameters) {
        Ok(v) => v,
        Err(e) => return Err(e),
    };
    Ok(
        Request {
            name,
            path: request_path(path.as_str()),
            vars,
            method: m,
            response_type: response_type(&op.responses, aliases),
            error_type: error_type(&op.responses),
        },
    )
}

/// The operations of a path item, each with its method, in a fixed order.
pub open spec fn op_slots(pi: PathItem) -> Seq<(Option<Operation>, Method)> {
    seq![
        (pi.get, Method::Get_),
        (pi.post, Method::Post_),
        (pi.put, Method::Put_),
        (pi.delete, Method::Delete_),
        (pi.options, Method::Options_),
        (pi.head, Method::Head_),
        (pi.patch, Method::Patch_),
        (pi.trace, Method::Trace_),
    ]
}

fn op_slot(pi: &PathItem, k: usize) -> (r: (Option<&Operation>, Method))
    requires
        k < 8,
    ensures
        r.1 == op_slots(*pi)[k as int].1,
        match r.0 {
            Some(o) => op_slots(*pi)[k as int].0 == Some(*o),
            None => op_slots(*pi)[k as int].0 is None,
        },
{
    let slot = if k == 0 {
        (&pi.get, Method::Get_)
    } else if k == 1 {
        (&pi.post, Method::Post_)
    } else if k == 2 {
        (&pi.put, Method::Put_)
    } else if k == 3 {
        (&pi.delete, Method::Delete_)
    } else if k == 4 {
        (&pi.options, Method::Options_)
    } else if k == 5 {
        (&pi.head, Method::Head_)
    } else if k == 6 {
        (&pi.patch, Method::Patch_)
    } else {
        (&pi.trace, Method::Trace_)
    };
    match slot.0 {
        Some(o) => (Some(o), slot.1),
        None => (None, slot.1),
    }
}

pub open spec fn slot_fn(path: Seq<char>, aliases: Seq<(Seq<char>, Seq<char>)>) -> spec_fn(
    (Option<Operation>, Method),
) -> Result<Seq<RequestView>, ErrorView> {
    |slot: (Option<Operation>, Method)|
        match slot.0 {
            Some(op) => request_of(path, slot.1, op, aliases),
            None => Ok(Seq::empty()),
        }
}

/// The requests of one path item, in method order.
pub open spec fn item_requests(path: Seq<char>, pi: PathItem, aliases: Seq<(Seq<char>, Seq<char>)>) -> Result<
    Seq<RequestView>,
    ErrorView,
> {
    collect_all(op_slots(pi), slot_fn(path, aliases))
}

fn extract_item(path: &String, pi: &PathItem, aliases: &Vec<(String, String)>) -> (r: Result<
    Vec<Request>,
    ExtractionError,
>)
    ensures
        match r {
            Ok(rs) => item_requests(path@, *pi, pairs_view(aliases@)) == Ok::<
                Seq<RequestView>,
                ErrorView,
            >(requests_view(rs@)),
            Err(e) => item_requests(path@, *pi, pairs_view(aliases@)) == Err::<
                Seq<RequestView>,
                ErrorView,
            >(e@),
        },
{
    let ghost slots = op_slots(*pi);
    let ghost f = slot_fn(path@, pairs_view(aliases@));
    let mut out: Vec<Request> = Vec::new();
    let mut k: usize = 0;
    assert(requests_view(out@) =~= Seq::<RequestView>::empty());
    assert(slots.take(0) =~= Seq::<(Option<Operation>, Method)>::empty());
    while k < 8
        invariant
            k <= 8,
            slots == op_slots(*pi),
            slots.len() == 8,
            f == slot_fn(path@, pairs_view(aliases@)),
            collect_all(slots.take(k as int), f) == Ok::<Seq<RequestView>, ErrorView>(
                requests_view(out@),
            ),
        decreases 8 - k,
    {
        proof {
            lemma_collect_step(slots, f, k as int);
        }
        let ghost before = requests_view(out@);
        let (op, m) = op_slot(pi, k);
        match op {
            Some(o) => match build_request(path, m, o, aliases) {
                Ok(req) => {
                    out.push(req);
                    assert(requests_view(out@) =~= before + seq![req@]);
                },
                Err(e) => {
                    proof {
                        lemma_collect_prefix_err(slots, f, k + 1);
                    }
                    return Err(e);
                },
            },
            None => {
                assert(before + Seq::<RequestView>::empty() =~= before);
            },
        }
        k = k + 1;
    }
    proof {
        lemma_take_all(slots);
    }
    Ok(out)
}

pub open spec fn path_fn(aliases: Seq<(Seq<char>, Seq<char>)>) -> spec_fn(
    (String, RefOr<PathItem>),
) -> Result<Seq<RequestView>, ErrorView> {
    |entry: (String, RefOr<PathItem>)|
        match entry.1 {
            RefOr::Reference(_) => Err(ErrorView { fault: Fault::Reference, record: entry.0@, field: None }),
            RefOr::Item(pi) => item_requests(entry.0@, pi, aliases),
        }
}

/// The requests of all paths, in path order and then method order.
pub open spec fn requests_of(paths: Seq<(String, RefOr<PathItem>)>, aliases: Seq<(Seq<char>, Seq<char>)>) -> Result<
    Seq<RequestView>,
    ErrorView,
> {
    collect_all(paths, path_fn(aliases))
}

fn collect_requests(paths: &Vec<(String, RefOr<PathItem>)>, aliases: &Vec<(String, String)>) -> (r:
    Result<Vec<Request>, ExtractionError>)
    ensures
        match r {
            Ok(rs) => requests_of(paths@, pairs_view(aliases@)) == Ok::<
                Seq<RequestView>,
                ErrorView,
            >(requests_view(rs@)),
            Err(e) => requests_of(paths@, pairs_view(aliases@)) == Err::<
                Seq<RequestView>,
                ErrorView,
            >(e@),
        },
{
    let ghost f = path_fn(pairs_view(aliases@));
    let mut out: Vec<Request> = Vec::new();
    let mut i: usize = 0;
    assert(requests_view(out@) =~= Seq::<RequestView>::empty());
    assert(paths@.take(0) =~= Seq::<(String, RefOr<PathItem>)>::empty());
    while i < paths.len()
        invariant
            i <= paths.len(),
            f == path_fn(pairs_view(aliases@)),
            collect_all(paths@.take(i as int), f) == Ok::<Seq<RequestView>, ErrorView>(
                requests_view(out@),
            ),
        decreases paths.len() - i,
    {
        proof {
            lemma_collect_step(paths@, f, i as int);
        }
        let ghost before = requests_view(out@);
        let entry = &paths[i];
        match &entry.1 {
            RefOr::Item(pi) => match extract_item(&entry.0, pi, aliases) {
                Ok(mut more) => {
                    let ghost added = requests_view(more@);
                    out.append(&mut more);
                    assert(requests_view(out@) =~= before + added);
                },
                Err(e) => {
                    proof {
                        lemma_collect_prefix_err(paths@, f, i + 1);
                    }
                    return Err(e);
                },
            },
            RefOr::Reference(_) => {
                let e = make_error(Fault::Reference, entry.0.clone(), None);
                proof {
                    lemma_collect_prefix_err(paths@, f, i + 1);
                }
                return Err(e);
            },
        }
        i = i + 1;
    }
    proof {
        lemma_take_all(paths@);
    }
    Ok(out)
}

/// The parts of a parsed server URL that the project info keeps.
#[derive(Debug)]
pub struct UrlParts {
    pub scheme: String,
    pub host: Option<String>,
    pub path: String,
}

pub open spec fn parts_view(p: UrlParts) -> (Seq<char>, Option<Seq<char>>, Seq<char>) {
    (p.scheme@, opt_view(p.host), p.path@)
}

/// What `url::Url::parse` makes of a string: `None` when it fails, else the
/// scheme, host and path of the parsed URL.
pub uninterp spec fn parsed_url(s: Seq<char>) -> Option<(Seq<char>, Option<Seq<char>>, Seq<char>)>;

/// Relies on `url::Url::parse` and on `Url::scheme`, `Url::host_str` and
/// `Url::path` of its result: the outcome depends on the text alone.
#[verifier::external_body]
fn parse_url(s: &str) -> (r: Option<UrlParts>)
    ensures
        match r {
            Some(p) => parsed_url(s@) == Some(parts_view(p)),
            None => parsed_url(s@) is None,
        },
{
    match url::Url::parse(s) {
        Ok(u) => Some(
            UrlParts {
                scheme: u.scheme().to_string(),
                host: u.host_str().map(|h| h.to_string()),
                path: u.path().to_string(),
            },
        ),
        Err(_) => None,
    }
}

/// The project info for a parsed server URL: "scheme://host" and the path;
/// empty strings when the URL did not parse.
pub open spec fn info_from(parts: Option<(Seq<char>, Option<Seq<char>>, Seq<char>)>) -> InfoView {
    match parts {
        Some((scheme, host, path)) => InfoView {
            host: scheme + "://"@ + match host {
                Some(h) => h,
                None => Seq::empty(),
            },
            endpoint: path,
        },
        None => InfoView { host: Seq::empty(), endpoint: Seq::empty() },
    }
}

/// The project info of a document: from its first server, if any.
pub open spec fn info_of(servers: Seq<String>) -> InfoView {
    if servers.len() == 0 {
        InfoView { host: Seq::empty(), endpoint: Seq::empty() }
    } else {
        info_from(parsed_url(servers[0]@))
    }
}

/// The project info for a parsed server URL.
pub fn server_info(parts: &Option<UrlParts>) -> (r: Info)
    ensures
        r@ == info_from(
            match parts {
                Some(p) => Some(parts_view(*p)),
                None => None,
            },
        ),
{
    match parts {
        Some(p) => {
            let mut host = p.scheme.clone();
            host.append("://");
            match &p.host {
                Some(h) => host.append(h.as_str()),
                None => {},
            }
            proof {
                assert(p.scheme@ + "://"@ + Seq::<char>::empty() =~= p.scheme@ + "://"@);
            }
            Info { host, endpoint: p.path.clone() }
        },
        None => Info { host: String::new(), endpoint: String::new() },
    }
}

/// The project info of a document's servers.
pub fn project_info(servers: &Vec<String>) -> (r: Info)
    ensures
        r@ == info_of(servers@),
{
    if servers.len() == 0 {
        Info { host: String::new(), endpoint: String::new() }
    } else {
        let parts = parse_url(servers[0].as_str());
        server_info(&parts)
    }
}

/// The canonical project of a document, or the first error met: the models
/// in schema order, then the requests in path and method order.
pub open spec fn extraction(doc: Document) -> Result<ProjectView, ErrorView> {
    match models_of(doc.schemas@) {
        Err(e) => Err(e),
        Ok(models) => match requests_of(doc.paths@, aliases_of(doc.schemas@)) {
            Err(e) => Err(e),
            Ok(requests) => Ok(ProjectView { info: info_of(doc.servers@), models, requests }),
        },
    }
}

pub open spec fn outcome_view(r: Result<Project, ExtractionError>) -> Result<ProjectView, ErrorView> {
    match r {
        Ok(p) => Ok(p@),
        Err(e) => Err(e@),
    }
}

/// Extracts the canonical project from a document.
pub fn extract(doc: &Document) -> (r: Result<Project, ExtractionError>)
    ensures
        outcome_view(r) == extraction(*doc),
{
    let (models, aliases) = collect_models(&doc.schemas);
    let models = match models {
        Ok(ms) => ms,
        Err(e) => return Err(e),
    };
    let requests = match collect_requests(&doc.paths, &aliases) {
        Ok(rs) => rs,
        Err(e) => return Err(e),
    };
    let info = project_info(&doc.servers);
    Ok(Project { info, models, requests })
}

/// Extraction is deterministic: two extractions of one document give the
/// same project (same models, fields, field order and request names) or the
/// same error.
pub proof fn lemma_extract_deterministic(
    doc: Document,
    r1: Result<Project, ExtractionError>,
    r2: Result<Project, ExtractionError>,
)
    requires
        outcome_view(r1) == extraction(doc),
        outcome_view(r2) == extraction(doc),
    ensures
        outcome_view(r1) == outcome_view(r2),
{
}

proof fn lemma_lookup_append(a: Seq<(Seq<char>, Seq<char>)>, b: Seq<(Seq<char>, Seq<char>)>, n: Seq<char>)
    ensures
        alias_lookup(a + b, n) == match alias_lookup(a, n) {
            Some(x) => Some(x),
            None => alias_lookup(b, n),
        },
    decreases a.len(),
{
    if a.len() == 0 {
        assert(a + b =~= b);
    } else {
        assert((a + b).drop_first() =~= a.drop_first() + b);
        assert((a + b)[0] == a[0]);
        lemma_lookup_append(a.drop_first(), b, n);
    }
}

proof fn lemma_aliases_step(s: Seq<(String, RefOr<Schema>)>)
    requires
        s.len() > 0,
    ensures
        aliases_of(s) == aliases_of(s.drop_last()) + alias_of(s.last())->Ok_0,
{
    lemma_aliases_ok(s.drop_last());
}

proof fn lemma_no_alias(s: Seq<(String, RefOr<Schema>)>, n: Seq<char>)
    requires
        forall|j: int| 0 <= j < s.len() ==> (#[trigger] s[j]).0@ != n,
    ensures
        alias_lookup(aliases_of(s), n) is None,
    decreases s.len(),
{
    if s.len() > 0 {
        assert forall|j: int| 0 <= j < s.drop_last().len() implies (#[trigger] s.drop_last()[j]).0@
            != n by {
            assert(s.drop_last()[j] == s[j]);
        }
        lemma_no_alias(s.drop_last(), n);
        lemma_aliases_step(s);
        let x = alias_of(s.last())->Ok_0;
        assert(x.len() <= 1);
        lemma_lookup_append(aliases_of(s.drop_last()), x, n);
        assert(s[s.len() - 1].0@ != n);
        if x.len() > 0 {
            assert(x[0].0 == s.last().0@);
            assert(x.drop_first().len() == 0);
            assert(alias_lookup(x.drop_first(), n) is None);
        }
        assert(alias_lookup(x, n) is None);
    }
}

proof fn lemma_alias_found(schemas: Seq<(String, RefOr<Schema>)>, k: int, reference: String)
    requires
        0 <= k < schemas.len(),
        schemas[k].1 == RefOr::Item(
            Schema::Array(Some(Box::new(RefOr::<Schema>::Reference(reference)))),
        ),
        forall|j: int| 0 <= j < schemas.len() && j != k ==> (#[trigger] schemas[j]).0@ != schemas[k].0@,
        last_segment(reference@).len() > 0,
    ensures
        alias_lookup(aliases_of(schemas), schemas[k].0@) == Some(last_segment(reference@)),
    decreases schemas.len(),
{
    let n = schemas[k].0@;
    let t = last_segment(reference@);
    let init = schemas.drop_last();
    let x = alias_of(schemas.last())->Ok_0;
    lemma_aliases_step(schemas);
    lemma_lookup_append(aliases_of(init), x, n);
    if k == schemas.len() - 1 {
        assert forall|j: int| 0 <= j < init.len() implies (#[trigger] init[j]).0@ != n by {
            assert(init[j] == schemas[j]);
        }
        lemma_no_alias(init, n);
        assert(x == seq![(n, t)]);
        assert(x[0].0 == n);
    } else {
        assert(init[k] == schemas[k]);
        assert forall|j: int| 0 <= j < init.len() && j != k implies (#[trigger] init[j]).0@
            != init[k].0@ by {
            assert(init[j] == schemas[j]);
        }
        lemma_alias_found(init, k, reference);
    }
}

/// Array aliases are rewritten: when the named schema at `k` is an array
/// whose items refer to a model by a non-empty name, no other schema has its
/// (non-empty) name, and a request's first response names it, the request's
/// response type is that model's name in brackets.
pub proof fn lemma_array_alias_response(
    schemas: Seq<(String, RefOr<Schema>)>,
    k: int,
    reference: String,
    rs: Responses,
)
    requires
        0 <= k < schemas.len(),
        schemas[k].1 == RefOr::Item(
            Schema::Array(Some(Box::new(RefOr::<Schema>::Reference(reference)))),
        ),
        forall|j: int| 0 <= j < schemas.len() && j != k ==> (#[trigger] schemas[j]).0@ != schemas[k].0@,
        schemas[k].0@.len() > 0,
        last_segment(reference@).len() > 0,
        first_response_name(rs) == schemas[k].0@,
    ensures
        response_type_of(rs, aliases_of(schemas)) == "["@ + last_segment(reference@) + "]"@,
{
    lemma_alias_found(schemas, k, reference);
}

} // verus!
