use record_sql::expand::{create_table_macro, filter_macro, insert_macro, FilterPlan};
use record_sql::schema::{FieldDecl, FieldSpec, RecordSchema};
use record_sql::types::{DeclaredType, SchemaError, SemanticType};

fn declared(name: &str, segments: &[&str]) -> FieldDecl {
    FieldDecl {
        name: name.to_string(),
        declared: DeclaredType::Path(segments.iter().map(|s| s.to_string()).collect()),
    }
}

fn user() -> Vec<FieldDecl> {
    vec![declared("id", &["i32"]), declared("name", &["String"])]
}

fn with_a_flag() -> Vec<FieldDecl> {
    vec![declared("id", &["i32"]), declared("active", &["bool"]), declared("size", &["u8"])]
}

#[test]
fn create_table_of_a_declared_struct() {
    assert_eq!(
        create_table_macro("User", &user()),
        Ok("CREATE TABLE IF NOT EXISTS User ( id INTEGER, name TEXT )".to_string())
    );
}

#[test]
fn create_table_reads_qualified_types() {
    let decls = vec![
        declared("id", &["core", "primitive", "i64"]),
        declared("ratio", &["f64"]),
        declared("weight", &["f32"]),
        declared("label", &["std", "string", "String"]),
    ];
    assert_eq!(
        create_table_macro("Item", &decls),
        Ok("CREATE TABLE IF NOT EXISTS Item ( id BIGINT, ratio DOUBLE PRECISION, weight REAL, label TEXT )"
            .to_string())
    );
}

#[test]
fn create_table_names_the_unsupported_field() {
    assert_eq!(
        create_table_macro("Account", &with_a_flag()),
        Err(SchemaError::UnsupportedField("active".to_string()))
    );
}

#[test]
fn insert_of_a_declared_struct() {
    assert_eq!(
        insert_macro("User", &user()),
        Ok((
            "INSERT INTO User (id, name) VALUES ($1, $2)".to_string(),
            vec!["id".to_string(), "name".to_string()]
        ))
    );
}

#[test]
fn insert_names_the_unsupported_field() {
    assert_eq!(
        insert_macro("Account", &with_a_flag()),
        Err(SchemaError::UnsupportedField("active".to_string()))
    );
}

#[test]
fn filter_plan_of_a_declared_struct() {
    assert_eq!(
        filter_macro("User", &user()),
        Ok(FilterPlan {
            builder: "UserQueryBuilder".to_string(),
            schema: RecordSchema {
                table: "User".to_string(),
                fields: vec![
                    FieldSpec { name: "id".to_string(), ty: SemanticType::Int32 },
                    FieldSpec { name: "name".to_string(), ty: SemanticType::Text },
                ],
            },
        })
    );
}

#[test]
fn filter_plan_names_the_unsupported_field() {
    let decls = vec![
        declared("id", &["i32"]),
        FieldDecl { name: "owner".to_string(), declared: DeclaredType::Other },
    ];
    assert_eq!(
        filter_macro("Pet", &decls),
        Err(SchemaError::UnsupportedField("owner".to_string()))
    );
}
