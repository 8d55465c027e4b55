//! Bound parameters and the statements that carry them.
use crate::types::SemanticType;
use vstd::prelude::*;

verus! {

/// One runtime value tagged with its scalar type, ready to be bound to a
/// placeholder. The two floating-point variants hold the IEEE 754 bit pattern
/// of the number, so that the value passes through unchanged.
#[derive(Debug, PartialEq, Eq)]
pub enum BoundValue {
    Int32(i32),
    Int64(i64),
    Float32(u32),
    Float64(u64),
    Text(String),
}

/// A bound value as contracts see it.
pub enum BoundValueView {
    Int32(i32),
    Int64(i64),
    Float32(u32),
    Float64(u64),
    Text(Seq<char>),
}

impl View for BoundValue {
    type V = BoundValueView;

    open spec fn view(&self) -> BoundValueView {
        match self {
            BoundValue::Int32(v) => BoundValueView::Int32(*v),
            BoundValue::Int64(v) => BoundValueView::Int64(*v),
            BoundValue::Float32(v) => BoundValueView::Float32(*v),
            BoundValue::Float64(v) => BoundValueView::Float64(*v),
            BoundValue::Text(v) => BoundValueView::Text(v@),
        }
    }
}

impl BoundValueView {
    /// The scalar type that the value is tagged with.
    pub open spec fn tag(self) -> SemanticType {
        match self {
            BoundValueView::Int32(_) => SemanticType::Int32,
            BoundValueView::Int64(_) => SemanticType::Int64,
            BoundValueView::Float32(_) => SemanticType::Float32,
            BoundValueView::Float64(_) => SemanticType::Float64,
            BoundValueView::Text(_) => SemanticType::Text,
        }
    }
}

impl BoundValue {
    /// The scalar type that the value is tagged with.
    pub fn tag(&self) -> (t: SemanticType)
        ensures
            t == self@.tag(),
    {
        match self {
            BoundValue::Int32(_) => SemanticType::Int32,
            BoundValue::Int64(_) => SemanticType::Int64,
            BoundValue::Float32(_) => SemanticType::Float32,
            BoundValue::Float64(_) => SemanticType::Float64,
            BoundValue::Text(_) => SemanticType::Text,
        }
    }
}

impl Clone for BoundValue {
    fn clone(&self) -> (r: BoundValue)
        ensures
            r@ == self@,
    {
        match self {
            BoundValue::Int32(v) => BoundValue::Int32(*v),
            BoundValue::Int64(v) => BoundValue::Int64(*v),
            BoundValue::Float32(v) => BoundValue::Float32(*v),
            BoundValue::Float64(v) => BoundValue::Float64(*v),
            BoundValue::Text(v) => BoundValue::Text(v.clone()),
        }
    }
}

/// The views of a list of bound values, in order.
pub open spec fn value_views(values: Seq<BoundValue>) -> Seq<BoundValueView> {
    Seq::new(values.len(), |i: int| values[i]@)
}

/// A statement ready for execution: its text and the values for its
/// placeholders, the value at index `i` for placeholder `$i+1`.
#[derive(Debug, PartialEq, Eq)]
pub struct Statement {
    pub text: String,
    pub params: Vec<BoundValue>,
}

/// A statement as contracts see it.
pub struct StatementView {
    pub text: Seq<char>,
    pub params: Seq<BoundValueView>,
}

impl View for Statement {
    type V = StatementView;

    open spec fn view(&self) -> StatementView {
        StatementView { text: self.text@, params: value_views(self.params@) }
    }
}

} // verus!
