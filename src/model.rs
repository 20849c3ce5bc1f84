use vstd::prelude::*;

verus! {

/// The type of a field.
#[derive(Debug)]
pub enum VariableType {
    StringType,
    IntType,
    BoolType,
    FloatType,
    ArrayType(Box<VariableType>),
    /// A reference, by name, to another model.
    ComplexType(String),
}

/// Mathematical value of a `VariableType`.
pub enum TypeView {
    Str,
    Int,
    Bool,
    Float,
    Array(Box<TypeView>),
    Complex(Seq<char>),
}

pub open spec fn type_view(t: VariableType) -> TypeView
    decreases t,
{
    match t {
        VariableType::StringType => TypeView::Str,
        VariableType::IntType => TypeView::Int,
        VariableType::BoolType => TypeView::Bool,
        VariableType::FloatType => TypeView::Float,
        VariableType::ArrayType(inner) => TypeView::Array(Box::new(type_view(*inner))),
        VariableType::ComplexType(name) => TypeView::Complex(name@),
    }
}

impl View for VariableType {
    type V = TypeView;

    open spec fn view(&self) -> TypeView {
        type_view(*self)
    }
}

impl Clone for VariableType {
    fn clone(&self) -> (r: Self)
        ensures
            r@ == self@,
        decreases self,
    {
        match self {
            VariableType::StringType => VariableType::StringType,
            VariableType::IntType => VariableType::IntType,
            VariableType::BoolType => VariableType::BoolType,
            VariableType::FloatType => VariableType::FloatType,
            VariableType::ArrayType(inner) => {
                let c = (**inner).clone();
                VariableType::ArrayType(Box::new(c))
            },
            VariableType::ComplexType(name) => VariableType::ComplexType(name.clone()),
        }
    }
}

/// A named, typed field of a model or a request.
#[derive(Debug)]
pub struct Variable {
    pub name: String,
    pub variable_type: VariableType,
    pub optional: bool,
    /// A default or example value, where one is known.
    pub value: Option<String>,
}

pub struct VariableView {
    pub name: Seq<char>,
    pub ty: TypeView,
    pub optional: bool,
    pub value: Option<Seq<char>>,
}

pub open spec fn opt_view(o: Option<String>) -> Option<Seq<char>> {
    match o {
        Some(s) => Some(s@),
        None => None,
    }
}

impl View for Variable {
    type V = VariableView;

    open spec fn view(&self) -> VariableView {
        VariableView {
            name: self.name@,
            ty: self.variable_type@,
            optional: self.optional,
            value: opt_view(self.value),
        }
    }
}

pub fn clone_opt_string(o: &Option<String>) -> (r: Option<String>)
    ensures
        opt_view(r) == opt_view(*o),
{
    match o {
        Some(s) => Some(s.clone()),
        None => None,
    }
}

impl Clone for Variable {
    fn clone(&self) -> (r: Self)
        ensures
            r@ == self@,
    {
        Variable {
            name: self.name.clone(),
            variable_type: self.variable_type.clone(),
            optional: self.optional,
            value: clone_opt_string(&self.value),
        }
    }
}

pub open spec fn vars_view(vars: Seq<Variable>) -> Seq<VariableView> {
    vars.map_values(|v: Variable| v@)
}

pub fn clone_vars(vars: &Vec<Variable>) -> (r: Vec<Variable>)
    ensures
        vars_view(r@) == vars_view(vars@),
{
    let mut out: Vec<Variable> = Vec::new();
    let mut i: usize = 0;
    while i < vars.len()
        invariant
            i <= vars.len(),
            out@.len() == i,
            forall|j: int| 0 <= j < i ==> #[trigger] out@[j]@ == vars@[j]@,
        decreases vars.len() - i,
    {
        out.push(vars[i].clone());
        i = i + 1;
    }
    assert(vars_view(out@) =~= vars_view(vars@));
    out
}

/// A named data shape: the counterpart of a schema object.
#[derive(Debug)]
pub struct Model {
    pub name: String,
    pub vars: Vec<Variable>,
}

pub struct ModelView {
    pub name: Seq<char>,
    pub vars: Seq<VariableView>,
}

impl View for Model {
    type V = ModelView;

    open spec fn view(&self) -> ModelView {
        ModelView { name: self.name@, vars: vars_view(self.vars@) }
    }
}

impl Clone for Model {
    fn clone(&self) -> (r: Self)
        ensures
            r@ == self@,
    {
        Model { name: self.name.clone(), vars: clone_vars(&self.vars) }
    }
}

/// An HTTP method.
#[allow(non_camel_case_types)]
#[derive(Debug, Clone, Copy, PartialEq, Eq, Structural)]
pub enum Method {
    Get_,
    Post_,
    Put_,
    Delete_,
    Options_,
    Head_,
    Patch_,
    Trace_,
}

/// The method as its uppercase HTTP verb.
pub open spec fn method_text(m: Method) -> Seq<char> {
    match m {
        Method::Get_ => "GET"@,
        Method::Post_ => "POST"@,
        Method::Put_ => "PUT"@,
        Method::Delete_ => "DELETE"@,
        Method::Options_ => "OPTIONS"@,
        Method::Head_ => "HEAD"@,
        Method::Patch_ => "PATCH"@,
        Method::Trace_ => "TRACE"@,
    }
}

impl Method {
    /// The uppercase HTTP verb.
    pub fn as_string(self) -> (r: String)
        ensures
            r@ == method_text(self),
    {
        let s = match self {
            Method::Get_ => "GET",
            Method::Post_ => "POST",
            Method::Put_ => "PUT",
            Method::Delete_ => "DELETE",
            Method::Options_ => "OPTIONS",
            Method::Head_ => "HEAD",
            Method::Patch_ => "PATCH",
            Method::Trace_ => "TRACE",
        };
        s.to_string()
    }
}

/// A named HTTP operation.
#[derive(Debug)]
pub struct Request {
    pub name: String,
    pub path: String,
    pub vars: Vec<Variable>,
    pub method: Method,
    pub response_type: String,
    pub error_type: String,
}

pub struct RequestView {
    pub name: Seq<char>,
    pub path: Seq<char>,
    pub vars: Seq<VariableView>,
    pub method: Method,
    pub response_type: Seq<char>,
    pub error_type: Seq<char>,
}

impl View for Request {
    type V = RequestView;

    open spec fn view(&self) -> RequestView {
        RequestView {
            name: self.name@,
            path: self.path@,
            vars: vars_view(self.vars@),
            method: self.method,
            response_type: self.response_type@,
            error_type: self.error_type@,
        }
    }
}

impl Clone for Request {
    fn clone(&self) -> (r: Self)
        ensures
            r@ == self@,
    {
        Request {
            name: self.name.clone(),
            path: self.path.clone(),
            vars: clone_vars(&self.vars),
            method: self.method,
            response_type: self.response_type.clone(),
            error_type: self.error_type.clone(),
        }
    }
}

/// Where the API is served.
#[derive(Debug)]
pub struct Info {
    pub host: String,
    pub endpoint: String,
}

pub struct InfoView {
    pub host: Seq<char>,
    pub endpoint: Seq<char>,
}

impl View for Info {
    type V = InfoView;

    open spec fn view(&self) -> InfoView {
        InfoView { host: self.host@, endpoint: self.endpoint@ }
    }
}

/// Models and requests, either extracted from a specification or reported
/// by an adaptor.
#[derive(Debug)]
pub struct Project {
    pub info: Info,
    pub models: Vec<Model>,
    pub requests: Vec<Request>,
}

pub struct ProjectView {
    pub info: InfoView,
    pub models: Seq<ModelView>,
    pub requests: Seq<RequestView>,
}

pub open spec fn models_view(ms: Seq<Model>) -> Seq<ModelView> {
    ms.map_values(|m: Model| m@)
}

pub open spec fn requests_view(rs: Seq<Request>) -> Seq<RequestView> {
    rs.map_values(|r: Request| r@)
}

impl View for Project {
    type V = ProjectView;

    open spec fn view(&self) -> ProjectView {
        ProjectView {
            info: self.info@,
            models: models_view(self.models@),
            requests: requests_view(self.requests@),
        }
    }
}

} // verus!
