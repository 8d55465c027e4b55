//! The schema registry: one schema per record type, keyed by table name.
use crate::schema::{all_supported, reports_first_unsupported, resolved_schema};
use crate::schema::{FieldDecl, RecordSchema, SchemaView};
use crate::text::same_text;
use crate::types::SchemaError;
use vstd::prelude::*;

verus! {

/// Keeps the schema of every registered record type. As a map it takes a
/// table name to the schema registered under it.
#[derive(Debug)]
pub struct SchemaRegistry {
    entries: Vec<RecordSchema>,
}

/// No two schemas of the list share a table name.
spec fn distinct_tables(entries: Seq<RecordSchema>) -> bool {
    forall|i: int, j: int|
        0 <= i < j < entries.len() ==> entries[i].table@ != entries[j].table@
}

impl View for SchemaRegistry {
    type V = Map<Seq<char>, SchemaView>;

    closed spec fn view(&self) -> Map<Seq<char>, SchemaView> {
        Map::new(
            |name: Seq<char>| exists|i: int| self.stored_at(name, i),
            |name: Seq<char>| self.entries@[self.slot_of(name)]@,
        )
    }
}

impl SchemaRegistry {
    /// The entry at position `i` is the one for `name`.
    closed spec fn stored_at(&self, name: Seq<char>, i: int) -> bool {
        0 <= i < self.entries@.len() && self.entries@[i].table@ == name
    }

    /// A position that holds the entry for `name`, where there is one.
    closed spec fn slot_of(&self, name: Seq<char>) -> int {
        choose|i: int| self.stored_at(name, i)
    }

    /// No two entries share a table name.
    #[verifier::type_invariant]
    spec fn wf(&self) -> bool {
        distinct_tables(self.entries@)
    }

    proof fn lemma_slot(&self, name: Seq<char>, i: int)
        requires
            self.wf(),
            self.stored_at(name, i),
        ensures
            self.slot_of(name) == i,
            self@.contains_key(name),
            self@[name] == self.entries@[i]@,
    {
        let k = self.slot_of(name);
        assert(self.stored_at(name, k));
        if k < i {
            assert(self.entries@[k].table@ != self.entries@[i].table@);
        } else if i < k {
            assert(self.entries@[i].table@ != self.entries@[k].table@);
        }
    }

    /// Where `after` differs from `self` in one slot alone, which holds a
    /// schema for `table` and in `self` held one for `table` or nothing, it
    /// maps `table` to that schema and every other name as `self` does.
    proof fn lemma_stored(&self, after: SchemaRegistry, table: Seq<char>, slot: int)
        requires
            self.wf(),
            after.wf(),
            after.stored_at(table, slot),
            slot < self.entries@.len() ==> self.stored_at(table, slot),
            after.entries@.len() == if slot < self.entries@.len() {
                self.entries@.len()
            } else {
                self.entries@.len() + 1
            },
            forall|k: int|
                0 <= k < self.entries@.len() && k != slot ==> #[trigger] after.entries@[k]
                    == self.entries@[k],
        ensures
            after@ == self@.insert(table, after.entries@[slot]@),
    {
        let expected = self@.insert(table, after.entries@[slot]@);
        assert forall|name: Seq<char>| after@.contains_key(name) <==> #[trigger] expected.contains_key(
            name,
        ) by {
            if after@.contains_key(name) && name != table {
                let k = after.slot_of(name);
                assert(after.stored_at(name, k));
                assert(self.stored_at(name, k));
            }
            if self@.contains_key(name) && name != table {
                let k = self.slot_of(name);
                assert(self.stored_at(name, k));
                assert(after.stored_at(name, k));
            }
        }
        assert forall|name: Seq<char>| after@.contains_key(name) implies after@[name]
            == expected[name] by {
            let k = after.slot_of(name);
            assert(after.stored_at(name, k));
            after.lemma_slot(name, k);
            if name != table {
                assert(self.stored_at(name, k));
                self.lemma_slot(name, k);
            } else {
                after.lemma_slot(name, slot);
            }
        }
        assert(after@ =~= expected);
    }

    /// Every schema is stored under its own table name.
    pub proof fn lemma_keyed_by_table(&self, name: Seq<char>)
        requires
            self@.contains_key(name),
        ensures
            self@[name].table == name,
    {
        let k = self.slot_of(name);
        assert(self.stored_at(name, k));
    }

    /// A registry with nothing registered.
    pub fn new() -> (r: SchemaRegistry)
        ensures
            r@ == Map::<Seq<char>, SchemaView>::empty(),
    {
        let r = SchemaRegistry { entries: Vec::new() };
        assert(r@ =~= Map::<Seq<char>, SchemaView>::empty());
        r
    }

    fn position(&self, table: &str) -> (r: Option<usize>)
        ensures
            match r {
                Some(i) => self.stored_at(table@, i as int),
                None => forall|i: int| !self.stored_at(table@, i),
            },
    {
        let mut i: usize = 0;
        while i < self.entries.len()
            invariant
                i <= self.entries.len(),
                forall|j: int| 0 <= j < i ==> !self.stored_at(table@, j),
            decreases self.entries.len() - i,
        {
            if same_text(self.entries[i].table.as_str(), table) {
                return Some(i);
            }
            i += 1;
        }
        None
    }

    /// Registers the record type `table` with the declared fields, resolving
    /// each declared type. A schema already stored under that name is
    /// replaced. Where a field's type is unsupported nothing is registered
    /// and the error names the first such field.
    pub fn register(&mut self, table: &str, decls: &Vec<FieldDecl>) -> (r: Result<
        (),
        SchemaError,
    >)
        ensures
            match r {
                Ok(()) => all_supported(decls@) && final(self)@ == old(self)@.insert(
                    table@,
                    resolved_schema(table@, decls@),
                ),
                Err(e) => final(self)@ == old(self)@ && reports_first_unsupported(e, decls@),
            },
    {
        let schema = match RecordSchema::from_declared(table, decls) {
            Ok(schema) => schema,
            Err(e) => {
                return Err(e);
            },
        };
        proof {
            use_type_invariant(&*self);
        }
        let ghost before = *self;
        let found = self.position(table);
        let mut taken = SchemaRegistry { entries: Vec::new() };
        core::mem::swap(self, &mut taken);
        let SchemaRegistry { mut entries } = taken;
        let slot = match found {
            Some(i) => {
                entries.set(i, schema);
                i
            },
            None => {
                entries.push(schema);
                entries.len() - 1
            },
        };
        proof {
            assert forall|a: int, b: int| 0 <= a < b < entries@.len() implies entries@[a].table@
                != entries@[b].table@ by {
                if b < before.entries@.len() {
                    assert(before.entries@[a].table@ != before.entries@[b].table@);
                } else {
                    assert(!before.stored_at(table@, a));
                }
            }
        }
        *self = SchemaRegistry { entries };
        proof {
            before.lemma_stored(*self, table@, slot as int);
        }
        Ok(())
    }

    /// The schema registered under `table`.
    pub fn lookup(&self, table: &str) -> (r: Result<&RecordSchema, SchemaError>)
        ensures
            match r {
                Ok(schema) => self@.contains_key(table@) && schema@ == self@[table@],
                Err(e) => !self@.contains_key(table@) && e == SchemaError::NotRegistered,
            },
    {
        match self.position(table) {
            Some(i) => {
                proof {
                    use_type_invariant(self);
                    self.lemma_slot(table@, i as int);
                }
                Ok(&self.entries[i])
            },
            None => Err(SchemaError::NotRegistered),
        }
    }
}

} // verus!
