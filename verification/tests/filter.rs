use record_sql::filter::{filter, BuilderContractError, FilterBuilderState};
use record_sql::schema::{FieldSpec, RecordSchema};
use record_sql::types::SemanticType;
use record_sql::value::{BoundValue, Statement};

fn field(name: &str, ty: SemanticType) -> FieldSpec {
    FieldSpec { name: name.to_string(), ty }
}

fn user_schema() -> RecordSchema {
    RecordSchema {
        table: "User".to_string(),
        fields: vec![field("id", SemanticType::Int32), field("name", SemanticType::Text)],
    }
}

fn sample_schema() -> RecordSchema {
    RecordSchema {
        table: "Sample".to_string(),
        fields: vec![
            field("a", SemanticType::Int32),
            field("b", SemanticType::Int64),
            field("c", SemanticType::Float32),
            field("d", SemanticType::Float64),
            field("e", SemanticType::Text),
        ],
    }
}

fn text(s: &str) -> BoundValue {
    BoundValue::Text(s.to_string())
}

#[test]
fn a_fresh_builder_is_empty() {
    let schema = user_schema();
    let builder = filter(&schema);
    assert!(builder.conditions().is_empty());
    assert!(builder.bind_params().is_empty());
    assert_eq!(builder.param_count(), 1);
    let again = FilterBuilderState::new(&schema);
    assert!(again.conditions().is_empty());
    assert_eq!(again.param_count(), 1);
}

#[test]
fn select_for_user_by_id_and_name() {
    let schema = user_schema();
    let builder = filter(&schema)
        .add_equals("id", BoundValue::Int32(5))
        .unwrap()
        .add_equals("name", text("bob"))
        .unwrap();
    assert_eq!(
        builder.select(),
        Ok(Statement {
            text: "SELECT * FROM User WHERE id = $1 AND name = $2".to_string(),
            params: vec![BoundValue::Int32(5), text("bob")],
        })
    );
}

#[test]
fn delete_for_user_by_id_and_name() {
    let schema = user_schema();
    let builder = filter(&schema)
        .add_equals("id", BoundValue::Int32(5))
        .unwrap()
        .add_equals("name", text("bob"))
        .unwrap();
    assert_eq!(
        builder.delete(),
        Ok(Statement {
            text: "DELETE FROM User WHERE id = $1 AND name = $2".to_string(),
            params: vec![BoundValue::Int32(5), text("bob")],
        })
    );
}

#[test]
fn one_condition_has_no_and() {
    let schema = user_schema();
    let builder = filter(&schema).add_equals("name", text("eve")).unwrap();
    let st = builder.select().unwrap();
    assert_eq!(st.text, "SELECT * FROM User WHERE name = $1");
    assert_eq!(st.params, vec![text("eve")]);
}

#[test]
fn placeholders_follow_the_order_of_calls() {
    let schema = user_schema();
    let builder = filter(&schema)
        .add_equals("name", text("bob"))
        .unwrap()
        .add_equals("id", BoundValue::Int32(-7))
        .unwrap()
        .add_equals("name", text("al"))
        .unwrap();
    assert_eq!(
        builder.conditions(),
        &vec!["name = $1".to_string(), "id = $2".to_string(), "name = $3".to_string()]
    );
    assert_eq!(builder.bind_params(), &vec![text("bob"), BoundValue::Int32(-7), text("al")]);
    assert_eq!(builder.param_count(), 4);
}

#[test]
fn a_long_chain_stays_in_lock_step() {
    let schema = user_schema();
    let mut builder = filter(&schema);
    for k in 1..=25 {
        builder = builder.add_equals("id", BoundValue::Int32(k * 10)).unwrap();
        assert_eq!(builder.conditions().len(), k as usize);
        assert_eq!(builder.bind_params().len(), k as usize);
        assert_eq!(builder.param_count(), k as usize + 1);
    }
    for i in 0..25 {
        assert_eq!(builder.conditions()[i], format!("id = ${}", i + 1));
        assert_eq!(builder.bind_params()[i], BoundValue::Int32((i as i32 + 1) * 10));
    }
    let st = builder.select().unwrap();
    assert_eq!(st.params.len(), 25);
    assert!(st.text.ends_with("id = $24 AND id = $25"));
}

#[test]
fn every_scalar_is_kept_for_binding() {
    let schema = sample_schema();
    let builder = filter(&schema)
        .add_equals("a", BoundValue::Int32(1))
        .unwrap()
        .add_equals("b", BoundValue::Int64(1 << 40))
        .unwrap()
        .add_equals("c", BoundValue::Float32(1.5f32.to_bits()))
        .unwrap()
        .add_equals("d", BoundValue::Float64((-2.25f64).to_bits()))
        .unwrap()
        .add_equals("e", text("x"))
        .unwrap();
    let st = builder.select().unwrap();
    assert_eq!(
        st.text,
        "SELECT * FROM Sample WHERE a = $1 AND b = $2 AND c = $3 AND d = $4 AND e = $5"
    );
    assert_eq!(st.params.len(), 5);
    assert_eq!(st.params[0], BoundValue::Int32(1));
    assert_eq!(st.params[1], BoundValue::Int64(1 << 40));
    match st.params[2] {
        BoundValue::Float32(bits) => assert_eq!(f32::from_bits(bits), 1.5f32),
        _ => panic!("the third value is a 32-bit float"),
    }
    match st.params[3] {
        BoundValue::Float64(bits) => assert_eq!(f64::from_bits(bits), -2.25f64),
        _ => panic!("the fourth value is a 64-bit float"),
    }
    assert_eq!(st.params[4], text("x"));
}

#[test]
fn values_carry_their_tag() {
    assert_eq!(BoundValue::Int32(0).tag(), SemanticType::Int32);
    assert_eq!(BoundValue::Int64(0).tag(), SemanticType::Int64);
    assert_eq!(BoundValue::Float32(0).tag(), SemanticType::Float32);
    assert_eq!(BoundValue::Float64(0).tag(), SemanticType::Float64);
    assert_eq!(text("").tag(), SemanticType::Text);
}

#[test]
fn a_copied_value_equals_the_first() {
    let values =
        vec![BoundValue::Int32(3), BoundValue::Int64(-4), BoundValue::Float32(7), text("copy")];
    for v in values.iter() {
        assert_eq!(&v.clone(), v);
    }
}

#[test]
fn a_text_for_an_integer_field_is_a_type_mismatch() {
    let schema = user_schema();
    let r = filter(&schema).add_equals("id", text("not-an-int"));
    assert_eq!(r.err(), Some(BuilderContractError::TypeMismatch));
}

#[test]
fn an_integer_of_the_wrong_width_is_a_type_mismatch() {
    let schema = user_schema();
    let r = filter(&schema).add_equals("id", BoundValue::Int64(5));
    assert_eq!(r.err(), Some(BuilderContractError::TypeMismatch));
    let r = filter(&schema).add_equals("name", BoundValue::Int32(5));
    assert_eq!(r.err(), Some(BuilderContractError::TypeMismatch));
}

#[test]
fn a_field_that_the_record_lacks_is_unknown() {
    let schema = user_schema();
    let r = filter(&schema).add_equals("age", BoundValue::Int32(30));
    assert_eq!(r.err(), Some(BuilderContractError::UnknownField));
    let r = filter(&schema)
        .add_equals("id", BoundValue::Int32(1))
        .unwrap()
        .add_equals("Id", BoundValue::Int32(1));
    assert_eq!(r.err(), Some(BuilderContractError::UnknownField));
}

#[test]
fn select_without_conditions_is_turned_down() {
    let schema = user_schema();
    assert_eq!(filter(&schema).select(), Err(BuilderContractError::NoConditions));
}

#[test]
fn delete_without_conditions_is_turned_down() {
    let schema = user_schema();
    assert_eq!(filter(&schema).delete(), Err(BuilderContractError::NoConditions));
}

#[test]
fn filtered_statements_have_a_where_clause() {
    let schema = user_schema();
    let builder = filter(&schema).add_equals("id", BoundValue::Int32(1)).unwrap();
    assert!(builder.select().unwrap().text.contains(" WHERE "));
    assert!(builder.delete().unwrap().text.contains(" WHERE "));
}

#[test]
fn a_builder_renders_both_statements() {
    let schema = user_schema();
    let builder = filter(&schema).add_equals("id", BoundValue::Int32(9)).unwrap();
    let select = builder.select().unwrap();
    let delete = builder.delete().unwrap();
    assert_eq!(select.text, "SELECT * FROM User WHERE id = $1");
    assert_eq!(delete.text, "DELETE FROM User WHERE id = $1");
    assert_eq!(select.params, delete.params);
}
