//! The statements generated from a schema alone: table creation, insert, and
//! the unconditional select and delete.
use crate::schema::{FieldView, RecordSchema, SchemaView};
use crate::text::{decimal, decimal_text, join, join_text, texts};
use crate::value::{BoundValue, Statement};
use vstd::prelude::*;
use vstd::string::*;

verus! {

/// The column definitions of a table: each field's name, a space and its SQL
/// type, in field order.
pub open spec fn column_defs(fields: Seq<FieldView>) -> Seq<Seq<char>> {
    Seq::new(fields.len(), |i: int| fields[i].name + " "@ + fields[i].ty.sql_token())
}

/// The names of the fields, in field order.
pub open spec fn field_names(fields: Seq<FieldView>) -> Seq<Seq<char>> {
    Seq::new(fields.len(), |i: int| fields[i].name)
}

/// The placeholder for the parameter at position `k`, counted from one.
pub open spec fn placeholder(k: nat) -> Seq<char> {
    "$"@ + decimal(k)
}

/// The first `n` placeholders: `$1`, `$2`, up to `$n`.
pub open spec fn placeholders(n: nat) -> Seq<Seq<char>> {
    Seq::new(n, |i: int| placeholder((i + 1) as nat))
}

/// The text of the statement that creates a record's table unless it exists.
pub open spec fn create_table_text(schema: SchemaView) -> Seq<char> {
    "CREATE TABLE IF NOT EXISTS "@ + schema.table + " ( "@ + join(
        column_defs(schema.fields),
        ", "@,
    ) + " )"@
}

/// The text of the statement that inserts one record, with one placeholder
/// per field.
pub open spec fn insert_text(schema: SchemaView) -> Seq<char> {
    "INSERT INTO "@ + schema.table + " ("@ + join(field_names(schema.fields), ", "@)
        + ") VALUES ("@ + join(placeholders(schema.fields.len()), ", "@) + ")"@
}

/// The text of the statement that reads every record of a table.
pub open spec fn select_all_text(table: Seq<char>) -> Seq<char> {
    "SELECT * FROM "@ + table
}

/// The text of the statement that deletes every record of a table.
pub open spec fn delete_all_text(table: Seq<char>) -> Seq<char> {
    "DELETE FROM "@ + table
}

/// Writes the placeholder for position `k`.
pub fn placeholder_text(k: usize) -> (s: String)
    ensures
        s@ == placeholder(k as nat),
{
    let mut s = String::from_str("$");
    s.append(decimal_text(k).as_str());
    s
}

/// Renders `CREATE TABLE IF NOT EXISTS <table> ( <field> <type>, ... )` with
/// the fields in schema order. The statement takes no parameters.
pub fn create_table_statement(schema: &RecordSchema) -> (text: String)
    ensures
        text@ == create_table_text(schema@),
{
    let mut defs: Vec<String> = Vec::new();
    let mut i: usize = 0;
    while i < schema.fields.len()
        invariant
            i <= schema.fields.len(),
            defs@.len() == i,
            forall|j: int| 0 <= j < i ==> (#[trigger] defs@[j])@ == column_defs(schema@.fields)[j],
        decreases schema.fields.len() - i,
    {
        let mut def = schema.fields[i].name.clone();
        def.append(" ");
        def.append(schema.fields[i].ty.sql_type());
        defs.push(def);
        i += 1;
    }
    assert(texts(defs@) =~= column_defs(schema@.fields));
    let mut text = String::from_str("CREATE TABLE IF NOT EXISTS ");
    text.append(schema.table.as_str());
    text.append(" ( ");
    text.append(join_text(&defs, ", ").as_str());
    text.append(" )");
    text
}

/// Renders `INSERT INTO <table> (<field>, ...) VALUES ($1, ...)` with one
/// placeholder per field, and returns beside it the field names in the order
/// of their placeholders: the value of the i-th name is bound to the i-th
/// placeholder.
pub fn insert_statement(schema: &RecordSchema) -> (r: (String, Vec<String>))
    ensures
        r.0@ == insert_text(schema@),
        texts(r.1@) == field_names(schema@.fields),
{
    let mut names: Vec<String> = Vec::new();
    let mut marks: Vec<String> = Vec::new();
    let mut i: usize = 0;
    while i < schema.fields.len()
        invariant
            i <= schema.fields.len(),
            names@.len() == i,
            marks@.len() == i,
            forall|j: int| 0 <= j < i ==> (#[trigger] names@[j])@ == schema@.fields[j].name,
            forall|j: int| 0 <= j < i ==> (#[trigger] marks@[j])@ == placeholder((j + 1) as nat),
        decreases schema.fields.len() - i,
    {
        names.push(schema.fields[i].name.clone());
        marks.push(placeholder_text(i + 1));
        i += 1;
    }
    assert(texts(names@) =~= field_names(schema@.fields));
    assert(texts(marks@) =~= placeholders(schema@.fields.len()));
    let mut text = String::from_str("INSERT INTO ");
    text.append(schema.table.as_str());
    text.append(" (");
    text.append(join_text(&names, ", ").as_str());
    text.append(") VALUES (");
    text.append(join_text(&marks, ", ").as_str());
    text.append(")");
    (text, names)
}

/// Renders `SELECT * FROM <table>`: no condition and no parameter.
pub fn select_all(schema: &RecordSchema) -> (r: Statement)
    ensures
        r@.text == select_all_text(schema@.table),
        r@.params.len() == 0,
{
    let mut text = String::from_str("SELECT * FROM ");
    text.append(schema.table.as_str());
    let params: Vec<BoundValue> = Vec::new();
    Statement { text, params }
}

/// Renders `DELETE FROM <table>`: no condition and no parameter.
pub fn delete_all(schema: &RecordSchema) -> (r: Statement)
    ensures
        r@.text == delete_all_text(schema@.table),
        r@.params.len() == 0,
{
    let mut text = String::from_str("DELETE FROM ");
    text.append(schema.table.as_str());
    let params: Vec<BoundValue> = Vec::new();
    Statement { text, params }
}

} // verus!
