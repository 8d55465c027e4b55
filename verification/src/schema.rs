//! Record schemas: a table name with its ordered, typed fields, and the
//! registry that keeps one schema per record type.
use crate::types::{DeclaredType, SchemaError, SemanticType};
use vstd::prelude::*;
use vstd::string::*;

verus! {

/// One field of a record: its name and its scalar type.
#[derive(Debug, PartialEq, Eq)]
pub struct FieldSpec {
    pub name: String,
    pub ty: SemanticType,
}

/// One field as it is handed in for registration: its name and its type as
/// declared, not yet resolved.
#[derive(Debug, PartialEq, Eq)]
pub struct FieldDecl {
    pub name: String,
    pub declared: DeclaredType,
}

/// The description of a record type. The order of `fields` is the order of
/// declaration and every generated statement follows it.
#[derive(Debug, PartialEq, Eq)]
pub struct RecordSchema {
    pub table: String,
    pub fields: Vec<FieldSpec>,
}

/// A field as contracts see it.
pub struct FieldView {
    pub name: Seq<char>,
    pub ty: SemanticType,
}

/// A schema as contracts see it.
pub struct SchemaView {
    pub table: Seq<char>,
    pub fields: Seq<FieldView>,
}

impl View for FieldSpec {
    type V = FieldView;

    open spec fn view(&self) -> FieldView {
        FieldView { name: self.name@, ty: self.ty }
    }
}

impl View for RecordSchema {
    type V = SchemaView;

    open spec fn view(&self) -> SchemaView {
        SchemaView { table: self.table@, fields: field_views(self.fields@) }
    }
}

/// The views of a list of fields, in order.
pub open spec fn field_views(fields: Seq<FieldSpec>) -> Seq<FieldView> {
    Seq::new(fields.len(), |i: int| fields[i]@)
}

/// Every declared type in the list denotes a supported scalar.
pub open spec fn all_supported(decls: Seq<FieldDecl>) -> bool {
    forall|i: int| 0 <= i < decls.len() ==> (#[trigger] decls[i]).declared.semantic() is Some
}

/// `k` is the position of the first field whose declared type is unsupported.
pub open spec fn first_unsupported(decls: Seq<FieldDecl>, k: int) -> bool {
    &&& 0 <= k < decls.len()
    &&& decls[k].declared.semantic() is None
    &&& forall|j: int| 0 <= j < k ==> (#[trigger] decls[j]).declared.semantic() is Some
}

/// `e` reports the first field of `decls` whose declared type is unsupported,
/// by that field's name.
pub open spec fn reports_first_unsupported(e: SchemaError, decls: Seq<FieldDecl>) -> bool {
    e matches SchemaError::UnsupportedField(f) && exists|k: int|
        first_unsupported(decls, k) && f@ == decls[k].name@
}

/// The fields that a list of supported declarations resolves to.
pub open spec fn resolved_fields(decls: Seq<FieldDecl>) -> Seq<FieldView>
    recommends
        all_supported(decls),
{
    Seq::new(
        decls.len(),
        |i: int| FieldView { name: decls[i].name@, ty: decls[i].declared.semantic().unwrap() },
    )
}

/// The schema that a table name and a list of supported declarations make.
pub open spec fn resolved_schema(table: Seq<char>, decls: Seq<FieldDecl>) -> SchemaView
    recommends
        all_supported(decls),
{
    SchemaView { table, fields: resolved_fields(decls) }
}

/// The type of the first field called `name`, if there is one.
pub open spec fn field_type(fields: Seq<FieldView>, name: Seq<char>) -> Option<SemanticType>
    decreases fields.len(),
{
    if fields.len() == 0 {
        None
    } else if fields[0].name == name {
        Some(fields[0].ty)
    } else {
        field_type(fields.drop_first(), name)
    }
}

impl RecordSchema {
    /// Builds the schema of a record from its declaration, resolving each
    /// field's type in order. Fails at the first field whose type is
    /// unsupported, naming that field, and then builds nothing.
    pub fn from_declared(table: &str, decls: &Vec<FieldDecl>) -> (r: Result<
        RecordSchema,
        SchemaError,
    >)
        ensures
            match r {
                Ok(schema) => all_supported(decls@) && schema@ == resolved_schema(
                    table@,
                    decls@,
                ),
                Err(e) => reports_first_unsupported(e, decls@),
            },
    {
        let mut fields: Vec<FieldSpec> = Vec::new();
        let mut i: usize = 0;
        while i < decls.len()
            invariant
                i <= decls.len(),
                fields@.len() == i,
                forall|j: int|
                    0 <= j < i ==> (#[trigger] decls@[j]).declared.semantic() is Some,
                forall|j: int|
                    0 <= j < i ==> (#[trigger] fields@[j])@ == (FieldView {
                        name: decls@[j].name@,
                        ty: decls@[j].declared.semantic().unwrap(),
                    }),
            decreases decls.len() - i,
        {
            match decls[i].declared.resolve() {
                Ok(ty) => {
                    fields.push(FieldSpec { name: decls[i].name.clone(), ty });
                },
                Err(_) => {
                    assert(first_unsupported(decls@, i as int));
                    return Err(SchemaError::UnsupportedField(decls[i].name.clone()));
                },
            }
            i += 1;
        }
        let schema = RecordSchema { table: String::from_str(table), fields };
        assert(schema@.fields =~= resolved_fields(decls@));
        Ok(schema)
    }

    /// The scalar type of the first field called `name`.
    pub fn type_of(&self, name: &str) -> (r: Option<SemanticType>)
        ensures
            r == field_type(self@.fields, name@),
    {
        let mut i: usize = 0;
        assert(self@.fields.skip(0) =~= self@.fields);
        while i < self.fields.len()
            invariant
                i <= self.fields.len(),
                field_type(self@.fields, name@) == field_type(
                    self@.fields.skip(i as int),
                    name@,
                ),
            decreases self.fields.len() - i,
        {
            let ghost rest = self@.fields.skip(i as int);
            assert(rest[0] == self.fields@[i as int]@);
            assert(rest.drop_first() =~= self@.fields.skip(i as int + 1));
            if crate::text::same_text(self.fields[i].name.as_str(), name) {
                return Some(self.fields[i].ty);
            }
            i += 1;
        }
        None
    }
}

} // verus!
