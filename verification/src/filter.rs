//! The filter builder: a chain of equality conditions on the fields of one
//! record type, rendered as a SELECT or DELETE with a WHERE clause whose
//! placeholders line up with the values bound to them.
use crate::schema::{field_type, RecordSchema, SchemaView};
use crate::statement::{delete_all_text, placeholder, placeholder_text, select_all_text};
use crate::text::{join, join_text, texts};
use crate::value::{value_views, BoundValue, BoundValueView, Statement, StatementView};
use vstd::prelude::*;
use vstd::string::*;

verus! {

/// A call that the builder turns down.
#[derive(Clone, Copy, Debug, PartialEq, Eq, Structural)]
pub enum BuilderContractError {
    /// The record type has no field of the given name.
    UnknownField,
    /// The value's type is not the type of the field it is compared with.
    TypeMismatch,
    /// A filtered statement was asked for before any condition was added.
    NoConditions,
}

/// The state of one chain of conditions.
#[derive(Debug)]
pub struct FilterBuilderState<'a> {
    schema: &'a RecordSchema,
    conditions: Vec<String>,
    bind_params: Vec<BoundValue>,
    param_count: usize,
}

/// A builder as contracts see it.
pub struct BuilderView {
    pub schema: SchemaView,
    pub conditions: Seq<Seq<char>>,
    pub params: Seq<BoundValueView>,
    pub next: nat,
}

/// The condition that compares `field` with the parameter at position `k`.
pub open spec fn condition(field: Seq<char>, k: nat) -> Seq<char> {
    field + " = "@ + placeholder(k)
}

/// The text of a filtered select: the conditions joined by `AND`.
pub open spec fn select_where_text(table: Seq<char>, conditions: Seq<Seq<char>>) -> Seq<char> {
    select_all_text(table) + " WHERE "@ + join(conditions, " AND "@)
}

/// The text of a filtered delete: the conditions joined by `AND`.
pub open spec fn delete_where_text(table: Seq<char>, conditions: Seq<Seq<char>>) -> Seq<char> {
    delete_all_text(table) + " WHERE "@ + join(conditions, " AND "@)
}

impl BuilderView {
    /// The builder at the start of a chain.
    pub open spec fn fresh(schema: SchemaView) -> BuilderView {
        BuilderView { schema, conditions: Seq::empty(), params: Seq::empty(), next: 1 }
    }

    /// The record type has a field `field` and `value` is of its type.
    pub open spec fn accepts(self, field: Seq<char>, value: BoundValueView) -> bool {
        field_type(self.schema.fields, field) == Some(value.tag())
    }

    /// The builder after one more condition: `field` equals `value`.
    pub open spec fn with_condition(self, field: Seq<char>, value: BoundValueView) -> BuilderView {
        BuilderView {
            schema: self.schema,
            conditions: self.conditions.push(condition(field, self.next)),
            params: self.params.push(value),
            next: self.next + 1,
        }
    }

    /// The condition at index `i` compares `field`, a field of the record
    /// type, with placeholder `$i+1`, and the value at index `i` has that
    /// field's type.
    pub open spec fn compares(self, i: int, field: Seq<char>) -> bool {
        &&& self.conditions[i] == condition(field, (i + 1) as nat)
        &&& self.accepts(field, self.params[i])
    }

    /// The condition at index `i` compares some field with placeholder `$i+1`.
    pub open spec fn slot_aligned(self, i: int) -> bool {
        exists|field: Seq<char>| #[trigger] self.compares(i, field)
    }

    /// Conditions and values stand in lock-step: there are as many of one as
    /// of the other, the next placeholder is the one after the last used, and
    /// the condition at index `i` uses placeholder `$i+1`, whose value stands
    /// at index `i`.
    pub open spec fn aligned(self) -> bool {
        &&& self.conditions.len() == self.params.len()
        &&& self.next == self.conditions.len() + 1
        &&& forall|i: int| 0 <= i < self.conditions.len() ==> #[trigger] self.slot_aligned(i)
    }
}

impl<'a> View for FilterBuilderState<'a> {
    type V = BuilderView;

    closed spec fn view(&self) -> BuilderView {
        BuilderView {
            schema: self.schema@,
            conditions: texts(self.conditions@),
            params: value_views(self.bind_params@),
            next: self.param_count as nat,
        }
    }
}

impl<'a> FilterBuilderState<'a> {
    #[verifier::type_invariant]
    spec fn lock_step(&self) -> bool {
        self@.aligned()
    }

    /// Starts a chain on `schema`: no condition, no value, next placeholder `$1`.
    pub fn new(schema: &'a RecordSchema) -> (r: FilterBuilderState<'a>)
        ensures
            r@ == BuilderView::fresh(schema@),
    {
        let r = FilterBuilderState {
            schema,
            conditions: Vec::new(),
            bind_params: Vec::new(),
            param_count: 1,
        };
        assert(r@.conditions =~= Seq::<Seq<char>>::empty());
        assert(r@.params =~= Seq::<BoundValueView>::empty());
        r
    }

    /// Adds the condition `<field> = $<next>` and keeps `value` for that
    /// placeholder. The call is turned down, and the chain ends, where the
    /// record type has no field `field` or `value` is not of the field's type.
    pub fn add_equals(self, field: &str, value: BoundValue) -> (r: Result<
        FilterBuilderState<'a>,
        BuilderContractError,
    >)
        requires
            self@.next < usize::MAX,
        ensures
            self@.aligned(),
            match r {
                Ok(b) => self@.accepts(field@, value@) && b@ == self@.with_condition(
                    field@,
                    value@,
                ) && b@.aligned(),
                Err(e) => match field_type(self@.schema.fields, field@) {
                    None => e == BuilderContractError::UnknownField,
                    Some(ty) => ty != value@.tag() && e == BuilderContractError::TypeMismatch,
                },
            },
    {
        proof {
            use_type_invariant(&self);
        }
        match self.schema.type_of(field) {
            None => Err(BuilderContractError::UnknownField),
            Some(ty) => {
                if ty != value.tag() {
                    Err(BuilderContractError::TypeMismatch)
                } else {
                    let ghost before = self@;
                    let ghost bound = value@;
                    let FilterBuilderState { schema, mut conditions, mut bind_params, param_count } =
                        self;
                    let mut cond = String::from_str(field);
                    cond.append(" = ");
                    cond.append(placeholder_text(param_count).as_str());
                    conditions.push(cond);
                    bind_params.push(value);
                    proof {
                        let after = before.with_condition(field@, bound);
                        assert(texts(conditions@) =~= after.conditions);
                        assert(value_views(bind_params@) =~= after.params);
                        lemma_step_keeps_aligned(before, field@, bound);
                    }
                    Ok(
                        FilterBuilderState {
                            schema,
                            conditions,
                            bind_params,
                            param_count: param_count + 1,
                        },
                    )
                }
            },
        }
    }

    /// The conditions added so far, in order.
    pub fn conditions(&self) -> (r: &Vec<String>)
        ensures
            texts(r@) == self@.conditions,
    {
        &self.conditions
    }

    /// The values kept so far, in order.
    pub fn bind_params(&self) -> (r: &Vec<BoundValue>)
        ensures
            value_views(r@) == self@.params,
    {
        &self.bind_params
    }

    /// The position of the next placeholder.
    pub fn param_count(&self) -> (r: usize)
        ensures
            r == self@.next,
    {
        self.param_count
    }

    fn params_copy(&self) -> (r: Vec<BoundValue>)
        ensures
            value_views(r@) == self@.params,
    {
        let mut out: Vec<BoundValue> = Vec::new();
        let mut i: usize = 0;
        while i < self.bind_params.len()
            invariant
                i <= self.bind_params.len(),
                out@.len() == i,
                forall|j: int| 0 <= j < i ==> (#[trigger] out@[j])@ == self.bind_params@[j]@,
            decreases self.bind_params.len() - i,
        {
            out.push(self.bind_params[i].clone());
            i += 1;
        }
        assert(value_views(out@) =~= self@.params);
        out
    }

    /// Renders `SELECT * FROM <table> WHERE <c1> AND <c2> ...` over the
    /// conditions of the chain, with its values in the order of their
    /// placeholders. A chain without a condition has no such statement.
    pub fn select(&self) -> (r: Result<Statement, BuilderContractError>)
        ensures
            self@.aligned(),
            match r {
                Ok(st) => self@.conditions.len() > 0 && st@ == (StatementView {
                    text: select_where_text(self@.schema.table, self@.conditions),
                    params: self@.params,
                }),
                Err(e) => self@.conditions.len() == 0 && e == BuilderContractError::NoConditions,
            },
    {
        proof {
            use_type_invariant(self);
        }
        if self.conditions.len() == 0 {
            return Err(BuilderContractError::NoConditions);
        }
        let mut text = String::from_str("SELECT * FROM ");
        text.append(self.schema.table.as_str());
        text.append(" WHERE ");
        text.append(join_text(&self.conditions, " AND ").as_str());
        Ok(Statement { text, params: self.params_copy() })
    }

    /// Renders `DELETE FROM <table> WHERE <c1> AND <c2> ...` over the
    /// conditions of the chain, with its values in the order of their
    /// placeholders. A chain without a condition has no such statement.
    pub fn delete(&self) -> (r: Result<Statement, BuilderContractError>)
        ensures
            self@.aligned(),
            match r {
                Ok(st) => self@.conditions.len() > 0 && st@ == (StatementView {
                    text: delete_where_text(self@.schema.table, self@.conditions),
                    params: self@.params,
                }),
                Err(e) => self@.conditions.len() == 0 && e == BuilderContractError::NoConditions,
            },
    {
        proof {
            use_type_invariant(self);
        }
        if self.conditions.len() == 0 {
            return Err(BuilderContractError::NoConditions);
        }
        let mut text = String::from_str("DELETE FROM ");
        text.append(self.schema.table.as_str());
        text.append(" WHERE ");
        text.append(join_text(&self.conditions, " AND ").as_str());
        Ok(Statement { text, params: self.params_copy() })
    }
}

/// Starts a filter chain on the record type that `schema` describes.
pub fn filter<'a>(schema: &'a RecordSchema) -> (r: FilterBuilderState<'a>)
    ensures
        r@ == BuilderView::fresh(schema@),
{
    FilterBuilderState::new(schema)
}

/// One accepted condition keeps conditions and values in lock-step.
pub proof fn lemma_step_keeps_aligned(b: BuilderView, field: Seq<char>, value: BoundValueView)
    requires
        b.aligned(),
        b.accepts(field, value),
    ensures
        b.with_condition(field, value).aligned(),
{
    let after = b.with_condition(field, value);
    assert forall|i: int| 0 <= i < after.conditions.len() implies #[trigger] after.slot_aligned(
        i,
    ) by {
        if i < b.conditions.len() {
            assert(b.slot_aligned(i));
            let f = choose|f: Seq<char>| #[trigger] b.compares(i, f);
            assert(after.compares(i, f));
        } else {
            assert(after.compares(i, field));
        }
    }
}

} // verus!
