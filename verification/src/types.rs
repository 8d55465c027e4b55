//! The closed set of scalar types a field may have, and the mapping from a
//! field's declared type to its SQL column type.
use crate::text::same_text;
use vstd::prelude::*;

verus! {

/// The scalar types a field can hold.
#[derive(Clone, Copy, Debug, PartialEq, Eq, Structural)]
pub enum SemanticType {
    Int32,
    Int64,
    Float32,
    Float64,
    Text,
}

/// What can go wrong while a schema is set up or looked up.
#[derive(Debug, PartialEq, Eq)]
pub enum SchemaError {
    /// A declared type is none of the supported scalars.
    UnsupportedType,
    /// A field of a record has an unsupported type; holds the field's name.
    UnsupportedField(String),
    /// No schema is registered under the requested name.
    NotRegistered,
}

/// A field's type as it was declared, reduced to what the mapping reads.
#[derive(Debug, PartialEq, Eq)]
pub enum DeclaredType {
    /// A path such as `i32` or `std::string::String`: the identifiers of its
    /// segments, in order.
    Path(Vec<String>),
    /// Any other form of type: a reference, a tuple, an array and so on.
    Other,
}

impl SemanticType {
    /// The scalar that a type identifier stands for, if any.
    pub open spec fn named(name: Seq<char>) -> Option<SemanticType> {
        if name == "i32"@ {
            Some(SemanticType::Int32)
        } else if name == "i64"@ {
            Some(SemanticType::Int64)
        } else if name == "f32"@ {
            Some(SemanticType::Float32)
        } else if name == "f64"@ {
            Some(SemanticType::Float64)
        } else if name == "String"@ {
            Some(SemanticType::Text)
        } else {
            None
        }
    }

    /// The SQL column type of a scalar.
    pub open spec fn sql_token(self) -> Seq<char> {
        match self {
            SemanticType::Int32 => "INTEGER"@,
            SemanticType::Int64 => "BIGINT"@,
            SemanticType::Float32 => "REAL"@,
            SemanticType::Float64 => "DOUBLE PRECISION"@,
            SemanticType::Text => "TEXT"@,
        }
    }

    /// Looks a type identifier up among the supported scalars.
    pub fn from_name(name: &str) -> (r: Option<SemanticType>)
        ensures
            r == Self::named(name@),
    {
        if same_text(name, "i32") {
            Some(SemanticType::Int32)
        } else if same_text(name, "i64") {
            Some(SemanticType::Int64)
        } else if same_text(name, "f32") {
            Some(SemanticType::Float32)
        } else if same_text(name, "f64") {
            Some(SemanticType::Float64)
        } else if same_text(name, "String") {
            Some(SemanticType::Text)
        } else {
            None
        }
    }

    /// The SQL column type of this scalar. Total: every scalar has one.
    pub fn sql_type(self) -> (r: &'static str)
        ensures
            r@ == self.sql_token(),
    {
        match self {
            SemanticType::Int32 => "INTEGER",
            SemanticType::Int64 => "BIGINT",
            SemanticType::Float32 => "REAL",
            SemanticType::Float64 => "DOUBLE PRECISION",
            SemanticType::Text => "TEXT",
        }
    }
}

impl DeclaredType {
    /// The scalar this declaration denotes: the one named by the last segment
    /// of a path. Anything else denotes none.
    pub open spec fn semantic(self) -> Option<SemanticType> {
        match self {
            DeclaredType::Path(segments) => if segments@.len() > 0 {
                SemanticType::named(segments@.last()@)
            } else {
                None
            },
            DeclaredType::Other => None,
        }
    }

    /// Resolves the declaration to a scalar, or reports it as unsupported.
    pub fn resolve(&self) -> (r: Result<SemanticType, SchemaError>)
        ensures
            match r {
                Ok(t) => self.semantic() == Some(t),
                Err(e) => self.semantic() is None && e == SchemaError::UnsupportedType,
            },
    {
        match self {
            DeclaredType::Path(segments) => {
                if segments.len() == 0 {
                    Err(SchemaError::UnsupportedType)
                } else {
                    match SemanticType::from_name(segments[segments.len() - 1].as_str()) {
                        Some(t) => Ok(t),
                        None => Err(SchemaError::UnsupportedType),
                    }
                }
            },
            DeclaredType::Other => Err(SchemaError::UnsupportedType),
        }
    }
}

/// Maps a declared field type to its SQL column type.
pub fn rust_type_to_sql(ty: &DeclaredType) -> (r: Result<&'static str, SchemaError>)
    ensures
        match r {
            Ok(token) => ty.semantic() matches Some(t) && token@ == t.sql_token(),
            Err(e) => ty.semantic() is None && e == SchemaError::UnsupportedType,
        },
{
    match ty.resolve() {
        Ok(t) => Ok(t.sql_type()),
        Err(e) => Err(e),
    }
}

} // verus!
