//! Script tables: fields keyed by name, read by dotted paths through
//! table handles.
use vstd::prelude::*;
use crate::script::value::{ScriptValue, ValueV};
use crate::script::text::{same_text, str_chars};
use crate::script::lexer::chars_to_string;

verus! {

/// One field of a table.
pub struct TableField {
    pub key: String,
    pub value: ScriptValue,
}

/// Whether no two fields of `fs` share a key.
pub open spec fn keys_unique(fs: Seq<TableField>) -> bool {
    forall|i: int, j: int|
        0 <= i < fs.len() && 0 <= j < fs.len() && i != j ==> #[trigger] fs[i].key@ != #[trigger] fs[j].key@
}

/// Whether `fs` has a field with key `k`.
pub open spec fn has_key(fs: Seq<TableField>, k: Seq<char>) -> bool {
    exists|i: int| 0 <= i < fs.len() && #[trigger] fs[i].key@ == k
}

/// The fields of `fs` as a map from key to value.
pub open spec fn fields_map(fs: Seq<TableField>) -> Map<Seq<char>, ValueV> {
    Map::new(
        |k: Seq<char>| has_key(fs, k),
        |k: Seq<char>| fs[choose|i: int| 0 <= i < fs.len() && #[trigger] fs[i].key@ == k].value@,
    )
}

proof fn lemma_fields_map_at(fs: Seq<TableField>, i: int)
    requires
        keys_unique(fs),
        0 <= i < fs.len(),
    ensures
        fields_map(fs).contains_key(fs[i].key@),
        fields_map(fs)[fs[i].key@] == fs[i].value@,
{
    let k = fs[i].key@;
    assert(has_key(fs, k));
    let j = choose|j: int| 0 <= j < fs.len() && #[trigger] fs[j].key@ == k;
    assert(j == i);
}

proof fn lemma_dom_len(fs: Seq<TableField>)
    requires
        keys_unique(fs),
    ensures
        fields_map(fs).dom().len() == fs.len(),
        fields_map(fs).dom().finite(),
    decreases fs.len(),
{
    if fs.len() == 0 {
        assert(fields_map(fs).dom() =~= Set::<Seq<char>>::empty());
    } else {
        let init = fs.drop_last();
        assert forall|a: int, b: int|
            0 <= a < init.len() && 0 <= b < init.len() && a != b implies #[trigger] init[a].key@
            != #[trigger] init[b].key@ by {
            assert(init[a] == fs[a] && init[b] == fs[b]);
        }
        lemma_dom_len(init);
        let k = fs.last().key@;
        assert(!fields_map(init).dom().contains(k)) by {
            if has_key(init, k) {
                let j = choose|j: int| 0 <= j < init.len() && #[trigger] init[j].key@ == k;
                assert(fs[j].key@ == fs[fs.len() - 1].key@);
            }
        }
        assert(fields_map(fs).dom() =~= fields_map(init).dom().insert(k)) by {
            assert forall|kk: Seq<char>| #[trigger] fields_map(fs).dom().contains(kk) implies fields_map(
                init,
            ).dom().insert(k).contains(kk) by {
                let j = choose|j: int| 0 <= j < fs.len() && #[trigger] fs[j].key@ == kk;
                if j < fs.len() - 1 {
                    assert(init[j].key@ == kk);
                }
            }
            assert forall|kk: Seq<char>| fields_map(init).dom().insert(k).contains(kk) implies #[trigger] fields_map(
                fs,
            ).dom().contains(kk) by {
                if kk != k {
                    let j = choose|j: int| 0 <= j < init.len() && #[trigger] init[j].key@ == kk;
                    assert(fs[j].key@ == kk);
                } else {
                    assert(fs[fs.len() - 1].key@ == kk);
                }
            }
        }
    }
}

/// A table: a set of named fields, and the id by which handles refer to it.
pub struct Table {
    tuid: u64,
    fields: Vec<TableField>,
}

impl Table {
    #[verifier::type_invariant]
    closed spec fn inv(&self) -> bool {
        keys_unique(self.fields@)
    }

    /// The id by which handles refer to the table.
    pub closed spec fn id(&self) -> u64 {
        self.tuid
    }

    /// The id by which handles refer to the table.
    pub fn tuid(&self) -> (r: u64)
        ensures
            r == self.id(),
    {
        self.tuid
    }
}

impl View for Table {
    type V = Map<Seq<char>, ValueV>;

    closed spec fn view(&self) -> Map<Seq<char>, ValueV> {
        fields_map(self.fields@)
    }
}

impl Table {
    /// An empty table with the id `tuid`.
    pub fn with_tuid(tuid: u64) -> (r: Table)
        ensures
            r.id() == tuid,
            r@ == Map::<Seq<char>, ValueV>::empty(),
    {
        let r = Table { tuid, fields: Vec::new() };
        assert(r@ =~= Map::<Seq<char>, ValueV>::empty());
        r
    }

    fn find(&self, key: &str) -> (r: Option<usize>)
        ensures
            match r {
                Some(i) => i < self.fields@.len() && self.fields@[i as int].key@ == key@,
                None => !has_key(self.fields@, key@),
            },
    {
        let mut i: usize = 0;
        while i < self.fields.len()
            invariant
                i <= self.fields@.len(),
                forall|j: int| 0 <= j < i ==> #[trigger] self.fields@[j].key@ != key@,
            decreases self.fields@.len() - i,
        {
            if same_text(self.fields[i].key.as_str(), key) {
                return Some(i);
            }
            i = i + 1;
        }
        None
    }

    /// The value of the field `key`, if there is one.
    pub fn get_field(&self, key: &str) -> (r: Option<ScriptValue>)
        ensures
            match r {
                Some(v) => self@.contains_key(key@) && v@ == self@[key@],
                None => !self@.contains_key(key@),
            },
    {
        proof {
            use_type_invariant(self);
        }
        match self.find(key) {
            Some(i) => {
                proof {
                    lemma_fields_map_at(self.fields@, i as int);
                }
                Some(self.fields[i].value.clone())
            },
            None => None,
        }
    }

    /// The keys of the table's fields, each once.
    pub fn keys(&self) -> (r: Vec<String>)
        ensures
            r@.len() == self@.dom().len(),
            forall|i: int| 0 <= i < r@.len() ==> self@.contains_key(#[trigger] r@[i]@),
            forall|k: Seq<char>| self@.contains_key(k) ==> exists|i: int| 0 <= i < r@.len() && #[trigger] r@[i]@ == k,
            forall|i: int, j: int| 0 <= i < r@.len() && 0 <= j < r@.len() && i != j ==> #[trigger] r@[i]@ != #[trigger] r@[j]@,
    {
        proof {
            use_type_invariant(self);
        }
        let mut r: Vec<String> = Vec::new();
        let mut i: usize = 0;
        while i < self.fields.len()
            invariant
                i <= self.fields@.len(),
                keys_unique(self.fields@),
                r@.len() == i,
                forall|j: int| 0 <= j < i ==> #[trigger] r@[j]@ == self.fields@[j].key@,
            decreases self.fields@.len() - i,
        {
            r.push(self.fields[i].key.clone());
            i = i + 1;
        }
        proof {
            let fs = self.fields@;
            assert forall|j: int| 0 <= j < r@.len() implies self@.contains_key(#[trigger] r@[j]@) by {
                lemma_fields_map_at(fs, j);
            }
            assert forall|k: Seq<char>| self@.contains_key(k) implies exists|j: int|
                0 <= j < r@.len() && #[trigger] r@[j]@ == k by {
                let j = choose|j: int| 0 <= j < fs.len() && #[trigger] fs[j].key@ == k;
                assert(r@[j]@ == k);
            }
            lemma_dom_len(fs);
        }
        r
    }

    /// Sets the field `key` to `value`.
    pub fn set(&mut self, key: String, value: ScriptValue)
        ensures
            final(self).id() == old(self).id(),
            final(self)@ == old(self)@.insert(key@, value@),
    {
        proof {
            use_type_invariant(&*self);
        }
        let ghost old_fields = self.fields@;
        let ghost k = key@;
        let ghost v = value@;
        let found = self.find(key.as_str());
        let mut fields: Vec<TableField> = Vec::new();
        std::mem::swap(&mut fields, &mut self.fields);
        match found {
            Some(i) => {
                fields.set(i, TableField { key, value });
                proof {
                    let nf = fields@;
                    assert(nf == old_fields.update(i as int, nf[i as int]));
                    assert forall|a: int, b: int|
                        0 <= a < nf.len() && 0 <= b < nf.len() && a != b implies #[trigger] nf[a].key@
                        != #[trigger] nf[b].key@ by {
                        if a != i && b != i {
                            assert(nf[a] == old_fields[a] && nf[b] == old_fields[b]);
                        } else if a == i {
                            assert(nf[b] == old_fields[b]);
                        } else {
                            assert(nf[a] == old_fields[a]);
                        }
                    }
                    assert forall|kk: Seq<char>| #[trigger] fields_map(nf).contains_key(kk) <==> fields_map(
                        old_fields,
                    ).insert(k, v).contains_key(kk) by {
                        if has_key(nf, kk) {
                            let j = choose|j: int| 0 <= j < nf.len() && #[trigger] nf[j].key@ == kk;
                            if j != i {
                                assert(old_fields[j].key@ == kk);
                            }
                        }
                        if has_key(old_fields, kk) {
                            let j = choose|j: int| 0 <= j < old_fields.len() && #[trigger] old_fields[j].key@ == kk;
                            if j != i {
                                assert(nf[j].key@ == kk);
                            } else {
                                assert(nf[i as int].key@ == kk);
                            }
                        }
                        if kk == k {
                            assert(nf[i as int].key@ == kk);
                        }
                    }
                    assert forall|kk: Seq<char>| #[trigger] fields_map(nf).contains_key(kk) implies fields_map(
                        nf,
                    )[kk] == fields_map(old_fields).insert(k, v)[kk] by {
                        let j = choose|j: int| 0 <= j < nf.len() && #[trigger] nf[j].key@ == kk;
                        lemma_fields_map_at(nf, j);
                        if j != i {
                            assert(nf[j] == old_fields[j]);
                            lemma_fields_map_at(old_fields, j);
                        }
                    }
                    assert(fields_map(nf) =~= fields_map(old_fields).insert(k, v));
                }
            },
            None => {
                fields.push(TableField { key, value });
                proof {
                    let nf = fields@;
                    let n = old_fields.len() as int;
                    assert(nf == old_fields.push(nf[n]));
                    assert forall|a: int, b: int|
                        0 <= a < nf.len() && 0 <= b < nf.len() && a != b implies #[trigger] nf[a].key@
                        != #[trigger] nf[b].key@ by {
                        if a != n && b != n {
                            assert(nf[a] == old_fields[a] && nf[b] == old_fields[b]);
                        } else if a == n {
                            assert(nf[b] == old_fields[b]);
                        } else {
                            assert(nf[a] == old_fields[a]);
                        }
                    }
                    assert forall|kk: Seq<char>| #[trigger] fields_map(nf).contains_key(kk) <==> fields_map(
                        old_fields,
                    ).insert(k, v).contains_key(kk) by {
                        if has_key(nf, kk) {
                            let j = choose|j: int| 0 <= j < nf.len() && #[trigger] nf[j].key@ == kk;
                            if j != n {
                                assert(old_fields[j].key@ == kk);
                            }
                        }
                        if has_key(old_fields, kk) {
                            let j = choose|j: int| 0 <= j < old_fields.len() && #[trigger] old_fields[j].key@ == kk;
                            assert(nf[j].key@ == kk);
                        }
                        if kk == k {
                            assert(nf[n].key@ == kk);
                        }
                    }
                    assert forall|kk: Seq<char>| #[trigger] fields_map(nf).contains_key(kk) implies fields_map(
                        nf,
                    )[kk] == fields_map(old_fields).insert(k, v)[kk] by {
                        let j = choose|j: int| 0 <= j < nf.len() && #[trigger] nf[j].key@ == kk;
                        lemma_fields_map_at(nf, j);
                        if j != n {
                            assert(nf[j] == old_fields[j]);
                            lemma_fields_map_at(old_fields, j);
                        }
                    }
                    assert(fields_map(nf) =~= fields_map(old_fields).insert(k, v));
                }
            },
        }
        self.fields = fields;
    }

    /// Removes the field `key`; returns its value, if it had one.
    pub fn remove(&mut self, key: &str) -> (r: Option<ScriptValue>)
        ensures
            final(self).id() == old(self).id(),
            final(self)@ == old(self)@.remove(key@),
            match r {
                Some(v) => old(self)@.contains_key(key@) && v@ == old(self)@[key@],
                None => !old(self)@.contains_key(key@),
            },
    {
        proof {
            use_type_invariant(&*self);
        }
        let ghost old_fields = self.fields@;
        let ghost k = key@;
        match self.find(key) {
            Some(i) => {
                proof {
                    lemma_fields_map_at(old_fields, i as int);
                }
                let mut fields: Vec<TableField> = Vec::new();
                std::mem::swap(&mut fields, &mut self.fields);
                let f = fields.remove(i);
                proof {
                    let nf = fields@;
                    assert(nf == old_fields.remove(i as int));
                    assert forall|a: int| 0 <= a < nf.len() implies #[trigger] nf[a] == (if a < i {
                        old_fields[a]
                    } else {
                        old_fields[a + 1]
                    }) by {}
                    assert forall|a: int, b: int|
                        0 <= a < nf.len() && 0 <= b < nf.len() && a != b implies #[trigger] nf[a].key@
                        != #[trigger] nf[b].key@ by {
                        let a0 = if a < i { a } else { a + 1 };
                        let b0 = if b < i { b } else { b + 1 };
                        assert(nf[a] == old_fields[a0] && nf[b] == old_fields[b0]);
                    }
                    assert forall|kk: Seq<char>| #[trigger] fields_map(nf).contains_key(kk) <==> fields_map(
                        old_fields,
                    ).remove(k).contains_key(kk) by {
                        if has_key(nf, kk) {
                            let j = choose|j: int| 0 <= j < nf.len() && #[trigger] nf[j].key@ == kk;
                            let j0 = if j < i { j } else { j + 1 };
                            assert(nf[j] == old_fields[j0]);
                            assert(old_fields[j0].key@ == kk);
                        }
                        if has_key(old_fields, kk) && kk != k {
                            let j = choose|j: int| 0 <= j < old_fields.len() && #[trigger] old_fields[j].key@ == kk;
                            assert(j != i);
                            let j1 = if j < i { j } else { j - 1 };
                            assert(nf[j1] == old_fields[j]);
                            assert(nf[j1].key@ == kk);
                        }
                    }
                    assert forall|kk: Seq<char>| #[trigger] fields_map(nf).contains_key(kk) implies fields_map(
                        nf,
                    )[kk] == fields_map(old_fields).remove(k)[kk] by {
                        let j = choose|j: int| 0 <= j < nf.len() && #[trigger] nf[j].key@ == kk;
                        lemma_fields_map_at(nf, j);
                        let j0 = if j < i { j } else { j + 1 };
                        assert(nf[j] == old_fields[j0]);
                        lemma_fields_map_at(old_fields, j0);
                    }
                    assert(fields_map(nf) =~= fields_map(old_fields).remove(k));
                }
                self.fields = fields;
                Some(f.value)
            },
            None => {
                proof {
                    assert(fields_map(old_fields) =~= fields_map(old_fields).remove(k));
                }
                None
            },
        }
    }
}


// ---------------------------------------------------------------------------
// Tables by id, and dotted paths

/// The tables of a script context, by id.
pub struct TableStore {
    next_tuid: u64,
    tables: Vec<Table>,
}

/// Whether no two tables of `ts` share an id.
pub open spec fn ids_unique(ts: Seq<Table>) -> bool {
    forall|i: int, j: int|
        0 <= i < ts.len() && 0 <= j < ts.len() && i != j ==> #[trigger] ts[i].id() != #[trigger] ts[j].id()
}

/// Whether `ts` has a table with id `id`.
pub open spec fn has_id(ts: Seq<Table>, id: u64) -> bool {
    exists|i: int| 0 <= i < ts.len() && #[trigger] ts[i].id() == id
}

/// The tables of `ts` as a map from id to fields.
pub open spec fn tables_map(ts: Seq<Table>) -> Map<u64, Map<Seq<char>, ValueV>> {
    Map::new(
        |id: u64| has_id(ts, id),
        |id: u64| ts[choose|i: int| 0 <= i < ts.len() && #[trigger] ts[i].id() == id]@,
    )
}

proof fn lemma_tables_map_at(ts: Seq<Table>, i: int)
    requires
        ids_unique(ts),
        0 <= i < ts.len(),
    ensures
        tables_map(ts).contains_key(ts[i].id()),
        tables_map(ts)[ts[i].id()] == ts[i]@,
{
    let id = ts[i].id();
    assert(has_id(ts, id));
    let j = choose|j: int| 0 <= j < ts.len() && #[trigger] ts[j].id() == id;
    assert(j == i);
}

impl TableStore {
    #[verifier::type_invariant]
    closed spec fn inv(&self) -> bool {
        ids_unique(self.tables@)
    }

    /// The id the next allocation gives.
    pub closed spec fn next_id(&self) -> u64 {
        self.next_tuid
    }
}

impl View for TableStore {
    type V = Map<u64, Map<Seq<char>, ValueV>>;

    closed spec fn view(&self) -> Map<u64, Map<Seq<char>, ValueV>> {
        tables_map(self.tables@)
    }
}

impl TableStore {
    /// A store without tables, whose first allocated id is 0.
    pub fn new() -> (r: TableStore)
        ensures
            r@ == Map::<u64, Map<Seq<char>, ValueV>>::empty(),
            r.next_id() == 0,
    {
        let r = TableStore { next_tuid: 0, tables: Vec::new() };
        assert(r@ =~= Map::<u64, Map<Seq<char>, ValueV>>::empty());
        r
    }

    /// The id the next allocated table gets.
    pub fn next_table_id(&self) -> (r: u64)
        ensures
            r == self.next_id(),
    {
        self.next_tuid
    }

    /// A fresh table id.
    pub fn alloc_table_id(&mut self) -> (r: u64)
        requires
            old(self).next_id() < u64::MAX,
        ensures
            r == old(self).next_id(),
            final(self).next_id() == old(self).next_id() + 1,
            final(self)@ == old(self)@,
    {
        proof {
            use_type_invariant(&*self);
        }
        let r = self.next_tuid;
        self.next_tuid = self.next_tuid + 1;
        r
    }

    fn position(&self, tuid: u64) -> (r: Option<usize>)
        ensures
            match r {
                Some(i) => i < self.tables@.len() && self.tables@[i as int].id() == tuid,
                None => !has_id(self.tables@, tuid),
            },
    {
        let mut i: usize = 0;
        while i < self.tables.len()
            invariant
                i <= self.tables@.len(),
                forall|j: int| 0 <= j < i ==> #[trigger] self.tables@[j].id() != tuid,
            decreases self.tables@.len() - i,
        {
            if self.tables[i].tuid() == tuid {
                return Some(i);
            }
            i = i + 1;
        }
        None
    }

    /// The table with id `tuid`, if there is one.
    pub fn table(&self, tuid: u64) -> (r: Option<&Table>)
        ensures
            match r {
                Some(t) => self@.contains_key(tuid) && t@ == self@[tuid] && t.id() == tuid,
                None => !self@.contains_key(tuid),
            },
    {
        proof {
            use_type_invariant(self);
        }
        match self.position(tuid) {
            Some(i) => {
                proof {
                    lemma_tables_map_at(self.tables@, i as int);
                }
                Some(&self.tables[i])
            },
            None => None,
        }
    }

    /// Stores `table` under its id, in place of any table with that id.
    pub fn insert(&mut self, table: Table)
        ensures
            final(self)@ == old(self)@.insert(table.id(), table@),
            final(self).next_id() == old(self).next_id(),
    {
        proof {
            use_type_invariant(&*self);
        }
        let ghost old_tables = self.tables@;
        let ghost id = table.id();
        let ghost tv = table@;
        let found = self.position(table.tuid());
        let mut tables: Vec<Table> = Vec::new();
        std::mem::swap(&mut tables, &mut self.tables);
        let n = tables.len();
        match found {
            Some(i) => {
                tables.set(i, table);
            },
            None => {
                tables.push(table);
            },
        }
        proof {
            let nt = tables@;
            let at = match found {
                Some(i) => i as int,
                None => n as int,
            };
            assert(nt.len() == (if found is Some { old_tables.len() } else { old_tables.len() + 1 }));
            assert(nt[at].id() == id && nt[at]@ == tv);
            assert forall|a: int| 0 <= a < nt.len() && a != at implies #[trigger] nt[a] == old_tables[a] by {}
            assert forall|a: int, b: int|
                0 <= a < nt.len() && 0 <= b < nt.len() && a != b implies #[trigger] nt[a].id()
                != #[trigger] nt[b].id() by {
                if a != at {
                    assert(nt[a] == old_tables[a]);
                }
                if b != at {
                    assert(nt[b] == old_tables[b]);
                }
            }
            assert forall|kk: u64| #[trigger] tables_map(nt).contains_key(kk) <==> tables_map(
                old_tables,
            ).insert(id, tv).contains_key(kk) by {
                if has_id(nt, kk) {
                    let j = choose|j: int| 0 <= j < nt.len() && #[trigger] nt[j].id() == kk;
                    if j != at {
                        assert(nt[j] == old_tables[j]);
                    }
                }
                if has_id(old_tables, kk) {
                    let j = choose|j: int| 0 <= j < old_tables.len() && #[trigger] old_tables[j].id() == kk;
                    if j != at {
                        assert(nt[j] == old_tables[j]);
                    }
                }
            }
            assert forall|kk: u64| #[trigger] tables_map(nt).contains_key(kk) implies tables_map(nt)[kk]
                == tables_map(old_tables).insert(id, tv)[kk] by {
                let j = choose|j: int| 0 <= j < nt.len() && #[trigger] nt[j].id() == kk;
                lemma_tables_map_at(nt, j);
                if j != at {
                    assert(nt[j] == old_tables[j]);
                    lemma_tables_map_at(old_tables, j);
                }
            }
            assert(tables_map(nt) =~= tables_map(old_tables).insert(id, tv));
        }
        self.tables = tables;
    }
}

/// The index of the first `.` of `key` at or after `i`, or -1.
pub open spec fn dot_index(key: Seq<char>, i: int) -> int
    decreases key.len() - i,
{
    if i < 0 || i >= key.len() {
        -1
    } else if key[i] == '.' {
        i
    } else {
        dot_index(key, i + 1)
    }
}

/// Where [`dot_index`] points: at a `.`, with none before it from `i`.
pub proof fn lemma_dot_index_range_pub(key: Seq<char>, i: int)
    requires
        0 <= i,
    ensures
        dot_index(key, i) == -1 || (i <= dot_index(key, i) < key.len() && key[dot_index(key, i)] == '.'),
        forall|k: int| i <= k < key.len() && (dot_index(key, i) == -1 || k < dot_index(key, i)) ==> key[k] != '.',
{
    lemma_dot_index_range(key, i);
}

proof fn lemma_dot_index_range(key: Seq<char>, i: int)
    requires
        0 <= i,
    ensures
        dot_index(key, i) == -1 || (i <= dot_index(key, i) < key.len() && key[dot_index(key, i)] == '.'),
        forall|k: int| i <= k < key.len() && (dot_index(key, i) == -1 || k < dot_index(key, i)) ==> key[k] != '.',
    decreases key.len() - i,
{
    if i < key.len() && key[i] != '.' {
        lemma_dot_index_range(key, i + 1);
    }
}

/// The value at the dotted path `key` from the fields `fields`: a key
/// without a dot names a field; `head.rest` follows the field `head`, which
/// must be a handle of a table of `store`, and reads `rest` there.
pub open spec fn path_lookup(
    fields: Map<Seq<char>, ValueV>,
    store: Option<Map<u64, Map<Seq<char>, ValueV>>>,
    key: Seq<char>,
) -> Option<ValueV>
    decreases key.len(),
{
    let d = dot_index(key, 0);
    if d < 0 || d >= key.len() {
        if fields.contains_key(key) { Some(fields[key]) } else { None }
    } else {
        let head = key.take(d);
        if fields.contains_key(head) {
            match fields[head] {
                ValueV::TableHandle(id) => match store {
                    Some(st) => if st.contains_key(id) {
                        path_lookup(st[id], store, key.skip(d + 1))
                    } else {
                        None
                    },
                    None => None,
                },
                _ => None,
            }
        } else {
            None
        }
    }
}

/// The model of an optional store.
pub open spec fn store_view(ctx: Option<&TableStore>) -> Option<Map<u64, Map<Seq<char>, ValueV>>> {
    match ctx {
        Some(st) => Some(st@),
        None => None,
    }
}

impl Table {
    /// The value at the dotted path `key`, following table handles through
    /// `ctx`.
    pub fn get(&self, key: &str, ctx: Option<&TableStore>) -> (r: Option<ScriptValue>)
        ensures
            match r {
                Some(v) => path_lookup(self@, store_view(ctx), key@) == Some(v@),
                None => path_lookup(self@, store_view(ctx), key@) is None,
            },
    {
        let chars = str_chars(key);
        let mut cur: &Table = self;
        let mut pos: usize = 0;
        assert(key@.skip(0) =~= key@);
        loop
            invariant
                pos <= chars@.len(),
                chars@ == key@,
                path_lookup(self@, store_view(ctx), key@) == path_lookup(
                    cur@,
                    store_view(ctx),
                    key@.skip(pos as int),
                ),
            decreases chars@.len() - pos,
        {
            let ghost rest = key@.skip(pos as int);
            let mut d: usize = pos;
            while d < chars.len() && chars[d] != '.'
                invariant
                    pos <= d <= chars@.len(),
                    chars@ == key@,
                    forall|k: int| pos <= k < d ==> chars@[k] != '.',
                decreases chars@.len() - d,
            {
                d = d + 1;
            }
            proof {
                lemma_dot_index_range(rest, 0);
                if d < chars.len() {
                    assert(rest[d - pos] == '.');
                    if dot_index(rest, 0) != d - pos {
                        assert(rest[dot_index(rest, 0)] == '.');
                        assert(chars@[pos + dot_index(rest, 0)] == '.');
                    }
                    assert(dot_index(rest, 0) == d - pos);
                } else {
                    if dot_index(rest, 0) != -1 {
                        assert(chars@[pos + dot_index(rest, 0)] == '.');
                    }
                }
            }
            if d >= chars.len() {
                let k = chars_to_string(&chars, pos, chars.len());
                assert(k@ =~= rest);
                return cur.get_field(k.as_str());
            }
            let head = chars_to_string(&chars, pos, d);
            assert(head@ =~= rest.take((d - pos) as int));
            let next: &Table = match cur.get_field(head.as_str()) {
                Some(ScriptValue::TableHandle(id)) => match ctx {
                    Some(st) => match st.table(id) {
                        Some(t) => t,
                        None => {
                            return None;
                        },
                    },
                    None => {
                        return None;
                    },
                },
                _ => {
                    return None;
                },
            };
            assert(rest.skip((d - pos) + 1) =~= key@.skip(d + 1));
            cur = next;
            pos = d + 1;
        }
    }
}


impl TableStore {
    /// Sets the field `key` of the table `tuid`; returns whether there is
    /// such a table (nothing changes when there is not).
    pub fn set_field(&mut self, tuid: u64, key: String, value: ScriptValue) -> (r: bool)
        ensures
            r == old(self)@.contains_key(tuid),
            r ==> final(self)@ == old(self)@.insert(tuid, old(self)@[tuid].insert(key@, value@)),
            !r ==> final(self)@ == old(self)@,
            final(self).next_id() == old(self).next_id(),
    {
        proof {
            use_type_invariant(&*self);
        }
        let ghost old_tables = self.tables@;
        let ghost k = key@;
        let ghost v = value@;
        match self.position(tuid) {
            Some(i) => {
                let mut tables: Vec<Table> = Vec::new();
                std::mem::swap(&mut tables, &mut self.tables);
                proof {
                    lemma_tables_map_at(old_tables, i as int);
                }
                tables[i].set(key, value);
                proof {
                    let nt = tables@;
                    let tv = old_tables[i as int]@.insert(k, v);
                    assert(nt[i as int].id() == tuid && nt[i as int]@ == tv);
                    assert forall|a: int| 0 <= a < nt.len() && a != i implies #[trigger] nt[a] == old_tables[a] by {}
                    assert forall|a: int, b: int|
                        0 <= a < nt.len() && 0 <= b < nt.len() && a != b implies #[trigger] nt[a].id()
                        != #[trigger] nt[b].id() by {
                        if a != i {
                            assert(nt[a] == old_tables[a]);
                        }
                        if b != i {
                            assert(nt[b] == old_tables[b]);
                        }
                    }
                    assert forall|kk: u64| #[trigger] tables_map(nt).contains_key(kk) <==> tables_map(
                        old_tables,
                    ).insert(tuid, tv).contains_key(kk) by {
                        if has_id(nt, kk) {
                            let j = choose|j: int| 0 <= j < nt.len() && #[trigger] nt[j].id() == kk;
                            if j != i {
                                assert(nt[j] == old_tables[j]);
                            }
                        }
                        if has_id(old_tables, kk) {
                            let j = choose|j: int| 0 <= j < old_tables.len() && #[trigger] old_tables[j].id() == kk;
                            if j != i {
                                assert(nt[j] == old_tables[j]);
                            }
                        }
                    }
                    assert forall|kk: u64| #[trigger] tables_map(nt).contains_key(kk) implies tables_map(nt)[kk]
                        == tables_map(old_tables).insert(tuid, tv)[kk] by {
                        let j = choose|j: int| 0 <= j < nt.len() && #[trigger] nt[j].id() == kk;
                        lemma_tables_map_at(nt, j);
                        if j != i {
                            assert(nt[j] == old_tables[j]);
                            lemma_tables_map_at(old_tables, j);
                        }
                    }
                    assert(tables_map(nt) =~= tables_map(old_tables).insert(tuid, tv));
                }
                self.tables = tables;
                true
            },
            None => false,
        }
    }
}

/// The tables after setting the dotted path `path` of the table `id` to
/// `v`: a path without a dot names a field of that table; `head.rest`
/// follows the field `head`, which must be a handle, and sets `rest` in
/// the table it refers to. `None` when the table or a step of the path is
/// missing.
pub open spec fn store_set_path(
    st: Map<u64, Map<Seq<char>, ValueV>>,
    id: u64,
    path: Seq<char>,
    v: ValueV,
) -> Option<Map<u64, Map<Seq<char>, ValueV>>>
    decreases path.len(),
{
    if !st.contains_key(id) {
        None
    } else {
        let d = dot_index(path, 0);
        if d < 0 || d >= path.len() {
            Some(st.insert(id, st[id].insert(path, v)))
        } else {
            let head = path.take(d);
            if st[id].contains_key(head) && st[id][head] is TableHandle {
                store_set_path(st, st[id][head]->TableHandle_0, path.skip(d + 1), v)
            } else {
                None
            }
        }
    }
}

impl TableStore {
    /// Sets the dotted path `path` of the table `tuid` to `value`, following
    /// table handles; returns whether the path could be followed (nothing
    /// changes when it could not).
    pub fn set_path(&mut self, tuid: u64, path: &str, value: ScriptValue) -> (r: bool)
        ensures
            match store_set_path(old(self)@, tuid, path@, value@) {
                Some(st) => r && final(self)@ == st,
                None => !r && final(self)@ == old(self)@,
            },
            final(self).next_id() == old(self).next_id(),
    {
        let chars = str_chars(path);
        let mut cur: u64 = tuid;
        let mut pos: usize = 0;
        assert(path@.skip(0) =~= path@);
        loop
            invariant
                pos <= chars@.len(),
                chars@ == path@,
                store_set_path(self@, tuid, path@, value@) == store_set_path(
                    self@,
                    cur,
                    path@.skip(pos as int),
                    value@,
                ),
                self@ == old(self)@,
                self.next_id() == old(self).next_id(),
            decreases chars@.len() - pos,
        {
            let ghost rest = path@.skip(pos as int);
            let mut d: usize = pos;
            while d < chars.len() && chars[d] != '.'
                invariant
                    pos <= d <= chars@.len(),
                    chars@ == path@,
                    forall|k: int| pos <= k < d ==> chars@[k] != '.',
                decreases chars@.len() - d,
            {
                d = d + 1;
            }
            proof {
                lemma_dot_index_range(rest, 0);
                if d < chars.len() {
                    assert(rest[d - pos] == '.');
                    if dot_index(rest, 0) != d - pos {
                        assert(rest[dot_index(rest, 0)] == '.');
                        assert(chars@[pos + dot_index(rest, 0)] == '.');
                    }
                } else {
                    if dot_index(rest, 0) != -1 {
                        assert(chars@[pos + dot_index(rest, 0)] == '.');
                    }
                }
            }
            let next: u64 = match self.table(cur) {
                None => {
                    return false;
                },
                Some(t) => {
                    if d >= chars.len() {
                        let k = chars_to_string(&chars, pos, chars.len());
                        assert(k@ =~= rest);
                        let ok = self.set_field(cur, k, value);
                        return ok;
                    }
                    let head = chars_to_string(&chars, pos, d);
                    assert(head@ =~= rest.take((d - pos) as int));
                    match t.get_field(head.as_str()) {
                        Some(ScriptValue::TableHandle(id)) => id,
                        _ => {
                            return false;
                        },
                    }
                },
            };
            assert(rest.skip((d - pos) + 1) =~= path@.skip(d + 1));
            cur = next;
            pos = d + 1;
        }
    }
}


/// What a read gives back of a write: after a field is set, reading its
/// name gives the value written, and every other field reads as before.
pub proof fn get_after_set(
    fields: Map<Seq<char>, ValueV>,
    store: Option<Map<u64, Map<Seq<char>, ValueV>>>,
    key: Seq<char>,
    v: ValueV,
    other: Seq<char>,
)
    requires
        dot_index(key, 0) < 0,
        dot_index(other, 0) < 0,
        other != key,
    ensures
        path_lookup(fields.insert(key, v), store, key) == Some(v),
        path_lookup(fields.insert(key, v), store, other) == path_lookup(fields, store, other),
{
}


impl TableStore {
    /// Takes the table `tuid` out of the store, if there is one.
    pub fn take(&mut self, tuid: u64) -> (r: Option<Table>)
        ensures
            match r {
                Some(t) => old(self)@.contains_key(tuid) && t.id() == tuid && t@ == old(self)@[tuid]
                    && final(self)@ == old(self)@.remove(tuid),
                None => !old(self)@.contains_key(tuid) && final(self)@ == old(self)@,
            },
            final(self).next_id() == old(self).next_id(),
    {
        proof {
            use_type_invariant(&*self);
        }
        let ghost old_tables = self.tables@;
        match self.position(tuid) {
            Some(i) => {
                proof {
                    lemma_tables_map_at(old_tables, i as int);
                }
                let mut tables: Vec<Table> = Vec::new();
                std::mem::swap(&mut tables, &mut self.tables);
                let t = tables.remove(i);
                proof {
                    let nt = tables@;
                    assert(nt == old_tables.remove(i as int));
                    assert forall|a: int| 0 <= a < nt.len() implies #[trigger] nt[a] == (if a < i {
                        old_tables[a]
                    } else {
                        old_tables[a + 1]
                    }) by {}
                    assert forall|a: int, b: int|
                        0 <= a < nt.len() && 0 <= b < nt.len() && a != b implies #[trigger] nt[a].id()
                        != #[trigger] nt[b].id() by {
                        let a0 = if a < i { a } else { a + 1 };
                        let b0 = if b < i { b } else { b + 1 };
                        assert(nt[a] == old_tables[a0] && nt[b] == old_tables[b0]);
                    }
                    assert forall|kk: u64| #[trigger] tables_map(nt).contains_key(kk) <==> tables_map(
                        old_tables,
                    ).remove(tuid).contains_key(kk) by {
                        if has_id(nt, kk) {
                            let j = choose|j: int| 0 <= j < nt.len() && #[trigger] nt[j].id() == kk;
                            let j0 = if j < i { j } else { j + 1 };
                            assert(nt[j] == old_tables[j0]);
                        }
                        if has_id(old_tables, kk) && kk != tuid {
                            let j = choose|j: int| 0 <= j < old_tables.len() && #[trigger] old_tables[j].id() == kk;
                            let j1 = if j < i { j } else { j - 1 };
                            assert(nt[j1] == old_tables[j]);
                        }
                    }
                    assert forall|kk: u64| #[trigger] tables_map(nt).contains_key(kk) implies tables_map(nt)[kk]
                        == tables_map(old_tables).remove(tuid)[kk] by {
                        let j = choose|j: int| 0 <= j < nt.len() && #[trigger] nt[j].id() == kk;
                        lemma_tables_map_at(nt, j);
                        let j0 = if j < i { j } else { j + 1 };
                        assert(nt[j] == old_tables[j0]);
                        lemma_tables_map_at(old_tables, j0);
                    }
                    assert(tables_map(nt) =~= tables_map(old_tables).remove(tuid));
                }
                self.tables = tables;
                Some(t)
            },
            None => None,
        }
    }
}

} // verus!
