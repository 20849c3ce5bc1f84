//! Generates a relational schema from the models.

use vstd::prelude::*;
use crate::model::{models_view, vars_view, Model, ModelView, Project, TypeView, Variable, VariableType, VariableView};
use crate::text::{lower_of, lowercase};

verus! {

/// The column type of a field type.
pub open spec fn sql_type(t: TypeView) -> Seq<char> {
    match t {
        TypeView::Int => "INTEGER"@,
        TypeView::Bool => "TINYINT"@,
        TypeView::Float => "REAL"@,
        _ => "TEXT"@,
    }
}

impl VariableType {
    /// The column type of this field type.
    pub fn to_mysql(&self) -> (r: String)
        ensures
            r@ == sql_type(self@),
    {
        let s = match self {
            VariableType::IntType => "INTEGER",
            VariableType::BoolType => "TINYINT",
            VariableType::FloatType => "REAL",
            _ => "TEXT",
        };
        s.to_string()
    }
}

/// One column definition: a field named "id" is the primary key, and a field
/// that is not optional is NOT NULL.
pub open spec fn column_text(v: VariableView) -> Seq<char> {
    "\t"@ + v.name + " "@ + sql_type(v.ty) + (if v.name == "id"@ {
        " PRIMARY KEY"@
    } else {
        Seq::empty()
    }) + (if v.optional {
        Seq::empty()
    } else {
        " NOT NULL"@
    })
}

/// The column definitions, separated by ",\n".
pub open spec fn columns_text(vs: Seq<VariableView>) -> Seq<char>
    decreases vs.len(),
{
    if vs.len() == 0 {
        Seq::empty()
    } else if vs.len() == 1 {
        column_text(vs[0])
    } else {
        columns_text(vs.drop_last()) + ",\n"@ + column_text(vs.last())
    }
}

/// The parenthesised column list; nothing for a model without fields.
pub open spec fn vars_text(vs: Seq<VariableView>) -> Seq<char> {
    if vs.len() == 0 {
        Seq::empty()
    } else {
        "(\n"@ + columns_text(vs) + "\n)"@
    }
}

/// The table statement for a model whose lowercased name is `table`.
pub open spec fn table_text(table: Seq<char>, vs: Seq<VariableView>) -> Seq<char> {
    "CREATE TABLE "@ + table + (if vs.len() == 0 {
        Seq::empty()
    } else {
        " "@ + vars_text(vs)
    }) + ";"@
}

/// The table statements of the models, one after another, separated by "\n".
pub open spec fn schema_text(ms: Seq<ModelView>) -> Seq<char>
    decreases ms.len(),
{
    if ms.len() == 0 {
        Seq::empty()
    } else if ms.len() == 1 {
        table_text(lower_of(ms[0].name), ms[0].vars)
    } else {
        schema_text(ms.drop_last()) + "\n"@ + table_text(lower_of(ms.last().name), ms.last().vars)
    }
}

/// One column definition.
pub fn var_to_sql(var: &Variable) -> (r: String)
    ensures
        r@ == column_text(var@),
{
    let mut out = "\t".to_string();
    out.append(var.name.as_str());
    out.append(" ");
    let ty = var.variable_type.to_mysql();
    out.append(ty.as_str());
    if var.name == "id".to_string() {
        out.append(" PRIMARY KEY");
    }
    if !var.optional {
        out.append(" NOT NULL");
    }
    proof {
        assert(out@ =~= column_text(var@));
    }
    out
}

/// The parenthesised column list of the fields.
pub fn vars_to_sql(vars: &Vec<Variable>) -> (r: String)
    ensures
        r@ == vars_text(vars_view(vars@)),
{
    let ghost vs = vars_view(vars@);
    if vars.len() == 0 {
        return String::new();
    }
    let mut cols = String::new();
    let mut i: usize = 0;
    while i < vars.len()
        invariant
            i <= vars.len(),
            vs == vars_view(vars@),
            cols@ == columns_text(vs.take(i as int)),
        decreases vars.len() - i,
    {
        assert(vs.take(i + 1).drop_last() =~= vs.take(i as int));
        if i > 0 {
            cols.append(",\n");
        }
        let col = var_to_sql(&vars[i]);
        cols.append(col.as_str());
        i = i + 1;
    }
    assert(vs.take(vars.len() as int) =~= vs);
    let mut out = "(\n".to_string();
    out.append(cols.as_str());
    out.append("\n)");
    out
}

/// The table statement for `vars` under the table name `table`.
pub fn create_table(table: &str, vars: &Vec<Variable>) -> (r: String)
    ensures
        r@ == table_text(table@, vars_view(vars@)),
{
    let mut out = "CREATE TABLE ".to_string();
    out.append(table);
    if vars.len() > 0 {
        out.append(" ");
        let cols = vars_to_sql(vars);
        out.append(cols.as_str());
    }
    out.append(";");
    out
}

/// The table statement of a model, named by its lowercased name.
pub fn model_to_sql(model: &Model) -> (r: String)
    ensures
        r@ == table_text(lower_of(model.name@), vars_view(model.vars@)),
{
    let table = lowercase(model.name.as_str());
    create_table(table.as_str(), &model.vars)
}

/// The schema of a project's models.
pub fn generate(project: &Project) -> (r: String)
    ensures
        r@ == schema_text(models_view(project.models@)),
{
    let ghost ms = models_view(project.models@);
    let mut out = String::new();
    let mut i: usize = 0;
    while i < project.models.len()
        invariant
            i <= project.models.len(),
            ms == models_view(project.models@),
            out@ == schema_text(ms.take(i as int)),
        decreases project.models.len() - i,
    {
        assert(ms.take(i + 1).drop_last() =~= ms.take(i as int));
        if i > 0 {
            out.append("\n");
        }
        let table = model_to_sql(&project.models[i]);
        out.append(table.as_str());
        i = i + 1;
    }
    assert(ms.take(project.models.len() as int) =~= ms);
    out
}

} // verus!
