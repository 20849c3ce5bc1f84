use cdd::schema::{create_table, generate, model_to_sql, var_to_sql, vars_to_sql};
use cdd::{Info, Model, Project, Variable, VariableType};

fn field(name: &str, variable_type: VariableType, optional: bool) -> Variable {
    Variable { name: name.to_string(), variable_type, optional, value: None }
}

fn project(models: Vec<Model>) -> Project {
    Project { info: Info { host: String::new(), endpoint: String::new() }, models, requests: vec![] }
}

#[test]
fn user_table_statement() {
    let user = Model {
        name: "User".to_string(),
        vars: vec![field("id", VariableType::IntType, false), field("name", VariableType::StringType, true)],
    };
    assert_eq!(
        generate(&project(vec![user])),
        "CREATE TABLE user (\n\tid INTEGER PRIMARY KEY NOT NULL,\n\tname TEXT\n);"
    );
}

#[test]
fn table_without_fields_has_no_parentheses() {
    let empty = Model { name: "Empty".to_string(), vars: vec![] };
    assert_eq!(model_to_sql(&empty), "CREATE TABLE empty;");
}

#[test]
fn tables_are_separated_by_newline() {
    let a = Model { name: "A".to_string(), vars: vec![] };
    let b = Model { name: "B".to_string(), vars: vec![field("flag", VariableType::BoolType, false)] };
    assert_eq!(
        generate(&project(vec![a, b])),
        "CREATE TABLE a;\nCREATE TABLE b (\n\tflag TINYINT NOT NULL\n);"
    );
    assert_eq!(generate(&project(vec![])), "");
}

#[test]
fn column_types() {
    assert_eq!(VariableType::StringType.to_mysql(), "TEXT");
    assert_eq!(VariableType::IntType.to_mysql(), "INTEGER");
    assert_eq!(VariableType::BoolType.to_mysql(), "TINYINT");
    assert_eq!(VariableType::FloatType.to_mysql(), "REAL");
    assert_eq!(VariableType::ArrayType(Box::new(VariableType::IntType)).to_mysql(), "TEXT");
    assert_eq!(VariableType::ComplexType("User".to_string()).to_mysql(), "TEXT");
}

#[test]
fn column_definition() {
    assert_eq!(var_to_sql(&field("score", VariableType::FloatType, false)), "\tscore REAL NOT NULL");
    assert_eq!(var_to_sql(&field("id", VariableType::StringType, true)), "\tid TEXT PRIMARY KEY");
}

#[test]
fn table_name_is_taken_as_given() {
    assert_eq!(create_table("MiXed", &vec![]), "CREATE TABLE MiXed;");
}

#[test]
fn column_list_has_no_leading_space() {
    assert_eq!(vars_to_sql(&vec![field("id", VariableType::IntType, true)]), "(\n\tid INTEGER PRIMARY KEY\n)");
    assert_eq!(vars_to_sql(&vec![]), "");
}
