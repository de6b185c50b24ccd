//! The session's name-to-table bindings.
use vstd::prelude::*;
use crate::schema::{FieldSpec, schema_model};
use crate::table::{SourceItem, Table, ingestion_is_repeatable};

verus! {

/// Tables by name; names are unique and a later registration of a name
/// replaces the earlier table.
pub struct TableRegistry {
    names: Vec<String>,
    tables: Vec<Table>,
    bindings: Ghost<Map<Seq<char>, Table>>,
}

impl TableRegistry {
    /// The bindings, by name.
    pub closed spec fn view(&self) -> Map<Seq<char>, Table> {
        self.bindings@
    }

    pub closed spec fn wf(&self) -> bool {
        &&& self.names@.len() == self.tables@.len()
        &&& forall|i: int, j: int|
            0 <= i < j < self.names@.len() ==> (#[trigger] self.names@[i])@ != (#[trigger] self.names@[j])@
        &&& forall|i: int| 0 <= i < self.names@.len() ==>
            #[trigger] self.bindings@.contains_key(self.names@[i]@)
            && self.bindings@[self.names@[i]@] == self.tables@[i]
        &&& forall|k: Seq<char>| #[trigger] self.bindings@.contains_key(k) ==>
            exists|i: int| 0 <= i < self.names@.len() && (#[trigger] self.names@[i])@ == k
    }

    /// A registry with no tables.
    pub fn new() -> (r: TableRegistry)
        ensures
            r.wf(),
            r@ == Map::<Seq<char>, Table>::empty(),
    {
        TableRegistry { names: Vec::new(), tables: Vec::new(), bindings: Ghost(Map::empty()) }
    }

    fn position(&self, name: &String) -> (r: Option<usize>)
        requires
            self.wf(),
        ensures
            match r {
                Some(i) => i < self.names@.len() && self.names@[i as int]@ == name@,
                None => !self@.contains_key(name@),
            },
    {
        let mut i: usize = 0;
        while i < self.names.len()
            invariant
                self.wf(),
                0 <= i <= self.names@.len(),
                forall|k: int| 0 <= k < i ==> (#[trigger] self.names@[k])@ != name@,
            decreases self.names@.len() - i,
        {
            if self.names[i] == *name {
                return Some(i);
            }
            i = i + 1;
        }
        None
    }

    /// Binds `name` to `table`, replacing any table already bound to it.
    pub fn register(&mut self, name: String, table: Table)
        requires
            old(self).wf(),
        ensures
            final(self).wf(),
            final(self)@ == old(self)@.insert(name@, table),
    {
        match self.position(&name) {
            Some(i) => {
                self.tables.set(i, table);
                self.bindings = Ghost(self.bindings@.insert(name@, table));
                assert forall|k: Seq<char>| #[trigger] self.bindings@.contains_key(k) implies
                    exists|j: int| 0 <= j < self.names@.len() && (#[trigger] self.names@[j])@ == k by {
                    if k == name@ {
                        assert(self.names@[i as int]@ == k);
                    } else {
                        assert(old(self).bindings@.contains_key(k));
                        let j = choose|j: int| 0 <= j < old(self).names@.len() && (#[trigger] old(self).names@[j])@ == k;
                        assert(self.names@[j]@ == k);
                    }
                }
            },
            None => {
                let ghost old_names = self.names@;
                self.names.push(name);
                self.tables.push(table);
                self.bindings = Ghost(self.bindings@.insert(self.names@.last()@, table));
                assert forall|k: Seq<char>| #[trigger] self.bindings@.contains_key(k) implies
                    exists|j: int| 0 <= j < self.names@.len() && (#[trigger] self.names@[j])@ == k by {
                    if k == self.names@.last()@ {
                        assert(self.names@[self.names@.len() - 1]@ == k);
                    } else {
                        let j = choose|j: int| 0 <= j < old_names.len() && (#[trigger] old_names[j])@ == k;
                        assert(self.names@[j] == old_names[j]);
                    }
                }
                assert forall|a: int| 0 <= a < self.names@.len() implies
                    #[trigger] self.bindings@.contains_key(self.names@[a]@)
                    && self.bindings@[self.names@[a]@] == self.tables@[a] by {
                    if a < old_names.len() {
                        assert(self.names@[a] == old_names[a]);
                    }
                }
            },
        }
    }

    /// The table bound to `name`, if any.
    pub fn lookup(&self, name: &str) -> (r: Option<&Table>)
        requires
            self.wf(),
        ensures
            match r {
                Some(t) => self@.contains_key(name@) && self@[name@] == *t,
                None => !self@.contains_key(name@),
            },
    {
        let key = name.to_owned();
        match self.position(&key) {
            Some(i) => {
                proof {
                    assert(self.bindings@.contains_key(self.names@[i as int]@));
                }
                Some(&self.tables[i])
            },
            None => None,
        }
    }

    /// The registered names, each once.
    pub fn names(&self) -> (r: Vec<String>)
        requires
            self.wf(),
        ensures
            r@.map_values(|s: String| s@).to_set() == self@.dom(),
            r@.map_values(|s: String| s@).no_duplicates(),
    {
        let mut out: Vec<String> = Vec::new();
        let mut i: usize = 0;
        while i < self.names.len()
            invariant
                self.wf(),
                0 <= i <= self.names@.len(),
                out@.len() == i,
                forall|k: int| 0 <= k < i ==> (#[trigger] out@[k])@ == self.names@[k]@,
            decreases self.names@.len() - i,
        {
            out.push(self.names[i].clone());
            i = i + 1;
        }
        let ghost v = out@.map_values(|s: String| s@);
        assert forall|k: Seq<char>| v.to_set().contains(k) <==> self@.dom().contains(k) by {
            if self@.dom().contains(k) {
                let j = choose|j: int| 0 <= j < self.names@.len() && (#[trigger] self.names@[j])@ == k;
                assert(v[j] == k);
            }
            if v.to_set().contains(k) {
                let j = choose|j: int| 0 <= j < v.len() && v[j] == k;
                assert(self.names@[j]@ == k);
            }
        }
        assert(v.to_set() =~= self@.dom());
        proof { lemma_distinct_views(out@, self.names@); }
        out
    }

    /// The number of registered tables.
    pub fn len(&self) -> (r: usize)
        requires
            self.wf(),
        ensures
            r as nat == self@.dom().len(),
    {
        proof {
            let v = self.names@.map_values(|s: String| s@);
            assert forall|i: int, j: int| 0 <= i < v.len() && 0 <= j < v.len() && i != j implies v[i] != v[j] by {
                if i < j {
                    assert(self.names@[i]@ != self.names@[j]@);
                } else {
                    assert(self.names@[j]@ != self.names@[i]@);
                }
            }
            assert forall|k: Seq<char>| v.to_set().contains(k) <==> self@.dom().contains(k) by {
                if self@.dom().contains(k) {
                    let j = choose|j: int| 0 <= j < self.names@.len() && (#[trigger] self.names@[j])@ == k;
                    assert(v[j] == k);
                }
            }
            assert(v.to_set() =~= self@.dom());
            v.unique_seq_to_set();
        }
        self.names.len()
    }
}

proof fn lemma_distinct_views(out: Seq<String>, names: Seq<String>)
    requires
        out.len() == names.len(),
        forall|k: int| 0 <= k < out.len() ==> (#[trigger] out[k])@ == names[k]@,
        forall|i: int, j: int| 0 <= i < j < names.len() ==> (#[trigger] names[i])@ != (#[trigger] names[j])@,
    ensures
        out.map_values(|s: String| s@).no_duplicates(),
{
    let v = out.map_values(|s: String| s@);
    assert forall|i: int, j: int| 0 <= i < v.len() && 0 <= j < v.len() && i != j implies v[i] != v[j] by {
        if i < j {
            assert(names[i]@ != names[j]@);
        } else {
            assert(names[j]@ != names[i]@);
        }
    }
}

/// Loading one source twice under two different names, each time under a
/// schema of the same content, leaves two bindings whose tables have the same
/// schema content and the same cells, row for row.
pub proof fn same_source_under_two_names(
    bindings: Map<Seq<char>, Table>,
    n1: Seq<char>,
    n2: Seq<char>,
    t1: Table,
    t2: Table,
    s1: Seq<FieldSpec>,
    s2: Seq<FieldSpec>,
    items: Seq<SourceItem>,
)
    requires
        n1 != n2,
        t1.is_ingestion_of(s1, items),
        t2.is_ingestion_of(s2, items),
        schema_model(s1) == schema_model(s2),
    ensures
        ({
            let after = bindings.insert(n1, t1).insert(n2, t2);
            &&& after.contains_key(n1) && after.contains_key(n2)
            &&& schema_model(after[n1].schema_spec()) == schema_model(after[n2].schema_spec())
            &&& after[n1].rows() == after[n2].rows()
            &&& after[n1].cells() == after[n2].cells()
        }),
{
    ingestion_is_repeatable(t1, t2, s1, s2, items);
}

} // verus!
