//! What each derive embeds in the code it generates for a struct, computed
//! from the struct's declaration: its name and its fields with their declared
//! types.
use crate::schema::{all_supported, reports_first_unsupported, resolved_schema};
use crate::schema::{FieldDecl, RecordSchema};
use crate::statement::{create_table_statement, create_table_text, field_names};
use crate::statement::{insert_statement, insert_text};
use crate::text::texts;
use crate::types::SchemaError;
use vstd::prelude::*;
use vstd::string::*;

verus! {

/// What the filter derive generates code from: the name of the builder type
/// and the schema its methods work on.
#[derive(Debug, PartialEq, Eq)]
pub struct FilterPlan {
    pub builder: String,
    pub schema: RecordSchema,
}

/// The name of the builder type of a record type.
pub open spec fn builder_name(table: Seq<char>) -> Seq<char> {
    table + "QueryBuilder"@
}

/// The statement that creates the table of the declared struct. Fails, with
/// no text, at the first field whose type is unsupported.
pub fn create_table_macro(table: &str, decls: &Vec<FieldDecl>) -> (r: Result<String, SchemaError>)
    ensures
        match r {
            Ok(text) => all_supported(decls@) && text@ == create_table_text(
                resolved_schema(table@, decls@),
            ),
            Err(e) => reports_first_unsupported(e, decls@),
        },
{
    match RecordSchema::from_declared(table, decls) {
        Ok(schema) => Ok(create_table_statement(&schema)),
        Err(e) => Err(e),
    }
}

/// The statement that inserts one value of the declared struct, and the
/// names of its fields in the order of their placeholders. Fails, with no
/// text, at the first field whose type is unsupported.
pub fn insert_macro(table: &str, decls: &Vec<FieldDecl>) -> (r: Result<
    (String, Vec<String>),
    SchemaError,
>)
    ensures
        match r {
            Ok((text, order)) => all_supported(decls@) && text@ == insert_text(
                resolved_schema(table@, decls@),
            ) && texts(order@) == field_names(resolved_schema(table@, decls@).fields),
            Err(e) => reports_first_unsupported(e, decls@),
        },
{
    match RecordSchema::from_declared(table, decls) {
        Ok(schema) => Ok(insert_statement(&schema)),
        Err(e) => Err(e),
    }
}

/// The builder type's name and the schema for the filter methods of the
/// declared struct. Fails at the first field whose type is unsupported.
pub fn filter_macro(table: &str, decls: &Vec<FieldDecl>) -> (r: Result<FilterPlan, SchemaError>)
    ensures
        match r {
            Ok(plan) => all_supported(decls@) && plan.builder@ == builder_name(table@)
                && plan.schema@ == resolved_schema(table@, decls@),
            Err(e) => reports_first_unsupported(e, decls@),
        },
{
    match RecordSchema::from_declared(table, decls) {
        Ok(schema) => {
            let mut builder = String::from_str(table);
            builder.append("QueryBuilder");
            Ok(FilterPlan { builder, schema })
        },
        Err(e) => Err(e),
    }
}

} // verus!
