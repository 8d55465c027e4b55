//! What holds of the generated statements for every schema and every chain
//! of conditions.
use crate::filter::{condition, delete_where_text, select_where_text, BuilderView};
use crate::schema::{RecordSchema, SchemaView};
use crate::statement::{create_table_text, delete_all_text, field_names, select_all_text};
use crate::statement::{insert_text, placeholder, placeholders};
use crate::text::{contains, count, decimal, join, occurs_at};
use crate::text::{lemma_count_concat, lemma_count_in_decimal, lemma_decimal_injective};
use crate::value::BoundValueView;
use vstd::prelude::*;

verus! {

/// One condition-adding call: the field and the value compared with it.
pub struct Call {
    pub field: Seq<char>,
    pub value: BoundValueView,
}

/// The builder that a chain of calls on a fresh builder ends in, if every
/// call of the chain is accepted.
pub open spec fn chain(schema: SchemaView, calls: Seq<Call>) -> Option<BuilderView>
    decreases calls.len(),
{
    if calls.len() == 0 {
        Some(BuilderView::fresh(schema))
    } else {
        match chain(schema, calls.drop_last()) {
            Some(b) => if b.accepts(calls.last().field, calls.last().value) {
                Some(b.with_condition(calls.last().field, calls.last().value))
            } else {
                None
            },
            None => None,
        }
    }
}

/// An insert statement for a record of `n` fields lists `n` field names and
/// `n` placeholders, `$1` to `$n`, and the placeholder at position `i` stands
/// for the field at position `i` of the schema.
pub proof fn lemma_insert_placeholders(schema: SchemaView)
    ensures
        insert_text(schema) == "INSERT INTO "@ + schema.table + " ("@ + join(
            field_names(schema.fields),
            ", "@,
        ) + ") VALUES ("@ + join(placeholders(schema.fields.len()), ", "@) + ")"@,
        placeholders(schema.fields.len()).len() == schema.fields.len(),
        field_names(schema.fields).len() == schema.fields.len(),
        forall|i: int|
            0 <= i < schema.fields.len() ==> #[trigger] placeholders(schema.fields.len())[i]
                == "$"@ + decimal((i + 1) as nat),
        forall|i: int|
            0 <= i < schema.fields.len() ==> #[trigger] field_names(schema.fields)[i]
                == schema.fields[i].name,
{
}

/// Different positions have different placeholders: `$i` is `$j` only where
/// `i` is `j`.
pub proof fn lemma_placeholders_distinct(i: nat, j: nat)
    requires
        placeholder(i) == placeholder(j),
    ensures
        i == j,
{
    assert(placeholder(i).subrange("$"@.len() as int, placeholder(i).len() as int) =~= decimal(i));
    assert(placeholder(j).subrange("$"@.len() as int, placeholder(j).len() as int) =~= decimal(j));
    lemma_decimal_injective(i, j);
}

/// The value list of an insert statement for `n` fields holds the placeholder
/// mark `$` exactly `n` times.
pub proof fn lemma_one_mark_per_field(n: nat)
    ensures
        count(join(placeholders(n), ", "@), '$') == n,
    decreases n,
{
    reveal_strlit("$");
    reveal_strlit(", ");
    let marks = placeholders(n);
    assert(count("$"@, '$') == 1) by {
        assert("$"@.drop_last() =~= Seq::<char>::empty());
        assert("$"@.last() == '$');
        reveal_with_fuel(count, 2);
    }
    assert(count(", "@, '$') == 0) by {
        assert(", "@.drop_last().drop_last() =~= Seq::<char>::empty());
        assert(", "@.last() == ' ');
        assert(", "@.drop_last().last() == ',');
        reveal_with_fuel(count, 3);
    }
    if n >= 1 {
        assert(marks.last() == "$"@ + decimal(n));
        lemma_count_in_decimal(n, '$');
        lemma_count_concat("$"@, decimal(n), '$');
        if n >= 2 {
            let front = placeholders((n - 1) as nat);
            assert(marks.drop_last() =~= front);
            lemma_one_mark_per_field((n - 1) as nat);
            lemma_count_concat(join(front, ", "@), ", "@, '$');
            lemma_count_concat(join(front, ", "@) + ", "@, marks.last(), '$');
        }
    }
}

/// After `k` accepted calls on a fresh builder there are `k` conditions and
/// `k` values, the condition of call `i` (counted from one) uses placeholder
/// `$i`, and the value at index `i - 1` is the one that call `i` passed. The
/// chain goes through exactly where each call names a field of the record
/// type and passes a value of that field's type.
pub proof fn lemma_chain_lock_step(schema: SchemaView, calls: Seq<Call>)
    ensures
        chain(schema, calls) is Some <==> (forall|i: int|
            0 <= i < calls.len() ==> BuilderView::fresh(schema).accepts(
                (#[trigger] calls[i]).field,
                calls[i].value,
            )),
        chain(schema, calls) matches Some(b) ==> {
            &&& b.schema == schema
            &&& b.aligned()
            &&& b.conditions.len() == calls.len()
            &&& b.params.len() == calls.len()
            &&& b.next == calls.len() + 1
            &&& forall|i: int|
                0 <= i < calls.len() ==> #[trigger] b.conditions[i] == condition(
                    calls[i].field,
                    (i + 1) as nat,
                )
            &&& forall|i: int| 0 <= i < calls.len() ==> #[trigger] b.params[i] == calls[i].value
        },
    decreases calls.len(),
{
    if calls.len() > 0 {
        let front = calls.drop_last();
        lemma_chain_lock_step(schema, front);
        assert forall|i: int| 0 <= i < front.len() implies front[i] == calls[i] by {}
        match chain(schema, front) {
            Some(b) => {
                if b.accepts(calls.last().field, calls.last().value) {
                    crate::filter::lemma_step_keeps_aligned(
                        b,
                        calls.last().field,
                        calls.last().value,
                    );
                    assert forall|i: int| 0 <= i < calls.len() implies BuilderView::fresh(
                        schema,
                    ).accepts((#[trigger] calls[i]).field, calls[i].value) by {
                        if i < front.len() {
                            assert(front[i] == calls[i]);
                        }
                    }
                } else {
                    assert(!BuilderView::fresh(schema).accepts(
                        calls[calls.len() - 1].field,
                        calls[calls.len() - 1].value,
                    ));
                }
            },
            None => {
                let i = choose|i: int|
                    0 <= i < front.len() && !BuilderView::fresh(schema).accepts(
                        (#[trigger] front[i]).field,
                        front[i].value,
                    );
                assert(front[i] == calls[i]);
            },
        }
    }
}

/// The text that creates a table depends on nothing but what the schema
/// holds: rendering the same schema again gives the same text, character for
/// character.
pub proof fn lemma_create_table_repeatable(first: RecordSchema, second: RecordSchema)
    requires
        first@ == second@,
    ensures
        create_table_text(first@) == create_table_text(second@),
{
}

/// Where no character of `head` is `mark`, and `mark` is the second character
/// of `pat`, an occurrence of `pat` in `head + tail` begins no earlier than at
/// the last character of `head`.
proof fn lemma_occurs_behind_head(head: Seq<char>, tail: Seq<char>, pat: Seq<char>, mark: char)
    requires
        head.len() >= 1,
        pat.len() >= 2,
        pat[1] == mark,
        forall|i: int| 0 <= i < head.len() ==> head[i] != mark,
    ensures
        contains(head + tail, pat) <==> contains(seq![head.last()] + tail, pat),
{
    let text = head + tail;
    let short = seq![head.last()] + tail;
    let shift = head.len() - 1;
    if contains(text, pat) {
        let at = choose|at: int| occurs_at(text, pat, at);
        assert(text.subrange(at, at + pat.len())[1] == pat[1]);
        assert(text[at + 1] == mark);
        if at + 1 < head.len() {
            assert(text[at + 1] == head[at + 1]);
        }
        assert(short.subrange(at - shift, at - shift + pat.len()) =~= text.subrange(
            at,
            at + pat.len(),
        ));
        assert(occurs_at(short, pat, at - shift));
    }
    if contains(short, pat) {
        let at = choose|at: int| occurs_at(short, pat, at);
        assert(text.subrange(at + shift, at + shift + pat.len()) =~= short.subrange(
            at,
            at + pat.len(),
        ));
        assert(occurs_at(text, pat, at + shift));
    }
}

/// `SELECT * FROM <table>` holds a WHERE clause only where the table's name
/// itself brings the keyword: the statement adds none.
pub proof fn lemma_select_all_adds_no_where(table: Seq<char>)
    ensures
        contains(select_all_text(table), " WHERE "@) <==> contains(" "@ + table, " WHERE "@),
{
    reveal_strlit("SELECT * FROM ");
    reveal_strlit(" WHERE ");
    reveal_strlit(" ");
    assert(" "@ =~= seq!["SELECT * FROM "@.last()]);
    lemma_occurs_behind_head("SELECT * FROM "@, table, " WHERE "@, 'W');
}

/// `DELETE FROM <table>` holds a WHERE clause only where the table's name
/// itself brings the keyword: the statement adds none.
pub proof fn lemma_delete_all_adds_no_where(table: Seq<char>)
    ensures
        contains(delete_all_text(table), " WHERE "@) <==> contains(" "@ + table, " WHERE "@),
{
    reveal_strlit("DELETE FROM ");
    reveal_strlit(" WHERE ");
    reveal_strlit(" ");
    assert(" "@ =~= seq!["DELETE FROM "@.last()]);
    lemma_occurs_behind_head("DELETE FROM "@, table, " WHERE "@, 'W');
}

/// A filtered select always holds a WHERE clause, right behind the table's
/// name.
pub proof fn lemma_select_has_where(table: Seq<char>, conditions: Seq<Seq<char>>)
    ensures
        occurs_at(
            select_where_text(table, conditions),
            " WHERE "@,
            select_all_text(table).len() as int,
        ),
        contains(select_where_text(table, conditions), " WHERE "@),
{
    let text = select_where_text(table, conditions);
    let at = select_all_text(table).len() as int;
    assert(text.subrange(at, at + " WHERE "@.len()) =~= " WHERE "@);
    assert(occurs_at(text, " WHERE "@, at));
}

/// A filtered delete always holds a WHERE clause, right behind the table's
/// name.
pub proof fn lemma_delete_has_where(table: Seq<char>, conditions: Seq<Seq<char>>)
    ensures
        occurs_at(
            delete_where_text(table, conditions),
            " WHERE "@,
            delete_all_text(table).len() as int,
        ),
        contains(delete_where_text(table, conditions), " WHERE "@),
{
    let text = delete_where_text(table, conditions);
    let at = delete_all_text(table).len() as int;
    assert(text.subrange(at, at + " WHERE "@.len()) =~= " WHERE "@);
    assert(occurs_at(text, " WHERE "@, at));
}

} // verus!
