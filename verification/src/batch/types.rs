//! Batch data: named columns and rows of text values, as read from CSV or
//! JSON and fed to prompt templates.
use vstd::prelude::*;
use crate::text::str_equal;

verus! {

/// The map a list of (key, value) pairs stands for.
pub open spec fn pairs_map(s: Seq<(String, String)>) -> Map<Seq<char>, Seq<char>> {
    Map::new(
        |k: Seq<char>| exists|i: int| 0 <= i < s.len() && (#[trigger] s[i]).0@ == k,
        |k: Seq<char>| s[choose|i: int| 0 <= i < s.len() && (#[trigger] s[i]).0@ == k].1@,
    )
}

/// No key occurs twice in the list.
pub open spec fn keys_distinct(s: Seq<(String, String)>) -> bool {
    forall|i: int, j: int| 0 <= i < s.len() && 0 <= j < s.len() && i != j ==> (#[trigger] s[i]).0@
        != (#[trigger] s[j]).0@
}

proof fn lemma_pairs_map_at(s: Seq<(String, String)>, i: int)
    requires
        keys_distinct(s),
        0 <= i < s.len(),
    ensures
        pairs_map(s).contains_key(s[i].0@),
        pairs_map(s)[s[i].0@] == s[i].1@,
{
    let k = s[i].0@;
    assert(exists|j: int| 0 <= j < s.len() && (#[trigger] s[j]).0@ == k);
    let j = choose|j: int| 0 <= j < s.len() && (#[trigger] s[j]).0@ == k;
    assert(j == i);
}

/// One row of batch data: column name to value.
#[derive(Debug)]
pub struct BatchRow {
    pub(crate) entries: Vec<(String, String)>,
}

impl View for BatchRow {
    type V = Map<Seq<char>, Seq<char>>;

    closed spec fn view(&self) -> Map<Seq<char>, Seq<char>> {
        pairs_map(self.entries@)
    }
}

impl BatchRow {
    /// The row is well formed: each column appears once.
    pub closed spec fn wf(&self) -> bool {
        keys_distinct(self.entries@)
    }

    /// A row without values.
    pub fn new() -> (r: Self)
        ensures
            r.wf(),
            r@ == Map::<Seq<char>, Seq<char>>::empty(),
    {
        let r = BatchRow { entries: Vec::new() };
        assert(r@ =~= Map::<Seq<char>, Seq<char>>::empty());
        r
    }

    fn position(&self, key: &str) -> (r: Option<usize>)
        requires
            self.wf(),
        ensures
            r matches Some(i) ==> i < self.entries@.len() && self.entries@[i as int].0@ == key@,
            r is None ==> forall|i: int| 0 <= i < self.entries@.len() ==> (#[trigger] self.entries@[i]).0@
                != key@,
    {
        let mut i: usize = 0;
        while i < self.entries.len()
            invariant
                i <= self.entries@.len(),
                forall|j: int| 0 <= j < i ==> (#[trigger] self.entries@[j]).0@ != key@,
            decreases self.entries@.len() - i,
        {
            if str_equal(self.entries[i].0.as_str(), key) {
                return Some(i);
            }
            i = i + 1;
        }
        None
    }

    /// Sets the value of column `key`.
    pub fn insert(&mut self, key: String, value: String)
        requires
            old(self).wf(),
        ensures
            final(self).wf(),
            final(self)@ == old(self)@.insert(key@, value@),
    {
        let ghost old_entries = self.entries@;
        match self.position(key.as_str()) {
            Some(i) => {
                self.entries.set(i, (key, value));
                proof {
                    let s = self.entries@;
                    assert forall|a: int, b: int|
                        0 <= a < s.len() && 0 <= b < s.len() && a != b implies (#[trigger] s[a]).0@
                        != (#[trigger] s[b]).0@ by {
                        assert(old_entries[a].0@ != old_entries[b].0@);
                    }
                    assert forall|k: Seq<char>|
                        #![auto]
                        pairs_map(s).contains_key(k) == pairs_map(old_entries).insert(
                            key@,
                            value@,
                        ).contains_key(k) by {
                        if pairs_map(s).contains_key(k) {
                            let j = choose|j: int| 0 <= j < s.len() && (#[trigger] s[j]).0@ == k;
                            if j != i {
                                lemma_pairs_map_at(old_entries, j);
                            }
                        }
                        if pairs_map(old_entries).contains_key(k) {
                            let j = choose|j: int|
                                0 <= j < old_entries.len() && (#[trigger] old_entries[j]).0@ == k;
                            assert(s[j].0@ == k);
                        }
                    }
                    assert forall|k: Seq<char>| #[trigger] pairs_map(s).contains_key(k) implies pairs_map(
                        s,
                    )[k] == pairs_map(old_entries).insert(key@, value@)[k] by {
                        let j = choose|j: int| 0 <= j < s.len() && (#[trigger] s[j]).0@ == k;
                        lemma_pairs_map_at(s, j);
                        if j != i {
                            lemma_pairs_map_at(old_entries, j);
                        }
                    }
                    assert(pairs_map(s) =~= pairs_map(old_entries).insert(key@, value@));
                }
            },
            None => {
                self.entries.push((key, value));
                proof {
                    let s = self.entries@;
                    let n = old_entries.len() as int;
                    assert forall|a: int, b: int|
                        0 <= a < s.len() && 0 <= b < s.len() && a != b implies (#[trigger] s[a]).0@
                        != (#[trigger] s[b]).0@ by {
                        if a < n && b < n {
                            assert(old_entries[a].0@ != old_entries[b].0@);
                        }
                    }
                    assert forall|k: Seq<char>|
                        #![auto]
                        pairs_map(s).contains_key(k) == pairs_map(old_entries).insert(
                            key@,
                            value@,
                        ).contains_key(k) by {
                        if pairs_map(s).contains_key(k) {
                            let j = choose|j: int| 0 <= j < s.len() && (#[trigger] s[j]).0@ == k;
                            if j < n {
                                assert(old_entries[j].0@ == k);
                            }
                        }
                        if pairs_map(old_entries).contains_key(k) {
                            let j = choose|j: int|
                                0 <= j < old_entries.len() && (#[trigger] old_entries[j]).0@ == k;
                            assert(s[j].0@ == k);
                        }
                        if k == key@ {
                            assert(s[n].0@ == k);
                        }
                    }
                    assert forall|k: Seq<char>| #[trigger] pairs_map(s).contains_key(k) implies pairs_map(
                        s,
                    )[k] == pairs_map(old_entries).insert(key@, value@)[k] by {
                        let j = choose|j: int| 0 <= j < s.len() && (#[trigger] s[j]).0@ == k;
                        lemma_pairs_map_at(s, j);
                        if j < n {
                            lemma_pairs_map_at(old_entries, j);
                        }
                    }
                    assert(pairs_map(s) =~= pairs_map(old_entries).insert(key@, value@));
                }
            },
        }
    }

    /// The value of column `key`, if the row has one.
    pub fn get(&self, key: &str) -> (r: Option<&String>)
        requires
            self.wf(),
        ensures
            r is Some <==> self@.contains_key(key@),
            r matches Some(v) ==> self@[key@] == v@,
    {
        match self.position(key) {
            Some(i) => {
                proof {
                    lemma_pairs_map_at(self.entries@, i as int);
                }
                Some(&self.entries[i].1)
            },
            None => {
                assert(!self@.contains_key(key@));
                None
            },
        }
    }

    /// The number of columns the row has a value for.
    pub fn len(&self) -> (n: usize)
        requires
            self.wf(),
        ensures
            n == self@.len(),
    {
        proof {
            lemma_pairs_map_len(self.entries@);
        }
        self.entries.len()
    }

    /// A copy of the row.
    pub fn duplicate(&self) -> (r: BatchRow)
        requires
            self.wf(),
        ensures
            r.wf(),
            r@ == self@,
    {
        let mut entries: Vec<(String, String)> = Vec::new();
        let mut i: usize = 0;
        while i < self.entries.len()
            invariant
                i <= self.entries@.len(),
                entries@ == self.entries@.take(i as int),
            decreases self.entries@.len() - i,
        {
            let k = self.entries[i].0.clone();
            let v = self.entries[i].1.clone();
            entries.push((k, v));
            i = i + 1;
            assert(entries@ =~= self.entries@.take(i as int));
        }
        assert(self.entries@.take(i as int) =~= self.entries@);
        BatchRow { entries }
    }

    /// The row's entries (column name, value), each column once.
    pub fn pairs(&self) -> (r: Vec<(String, String)>)
        requires
            self.wf(),
        ensures
            keys_distinct(r@),
            pairs_map(r@) == self@,
    {
        let copy = self.duplicate();
        copy.entries
    }
}

proof fn lemma_pairs_map_len(s: Seq<(String, String)>)
    requires
        keys_distinct(s),
    ensures
        pairs_map(s).len() == s.len(),
    decreases s.len(),
{
    let keys = s.map_values(|p: (String, String)| p.0@);
    assert(pairs_map(s).dom() =~= keys.to_set()) by {
        assert forall|k: Seq<char>| pairs_map(s).dom().contains(k) <==> keys.to_set().contains(k) by {
            if pairs_map(s).dom().contains(k) {
                let j = choose|j: int| 0 <= j < s.len() && (#[trigger] s[j]).0@ == k;
                assert(keys[j] == k);
            }
            if keys.to_set().contains(k) {
                let j = choose|j: int| 0 <= j < keys.len() && keys[j] == k;
                assert(s[j].0@ == k);
            }
        }
    }
    assert(keys.no_duplicates()) by {
        assert forall|a: int, b: int| 0 <= a < keys.len() && 0 <= b < keys.len() && a != b implies keys[a]
            != keys[b] by {
            assert(s[a].0@ != s[b].0@);
        }
    }
    keys.unique_seq_to_set();
}

/// Parsed batch data: column names and rows of values.
#[derive(Debug)]
pub struct BatchData {
    /// Column names (CSV headers or JSON object keys).
    pub columns: Vec<String>,
    /// Rows: column name to value.
    pub rows: Vec<BatchRow>,
}

/// The maps the rows stand for.
pub open spec fn rows_view(rows: Seq<BatchRow>) -> Seq<Map<Seq<char>, Seq<char>>> {
    rows.map_values(|r: BatchRow| r@)
}

/// Every row is well formed.
pub open spec fn rows_wf(rows: Seq<BatchRow>) -> bool {
    forall|i: int| 0 <= i < rows.len() ==> (#[trigger] rows[i]).wf()
}

/// A rendering failure for one row.
#[derive(Debug, Clone)]
pub struct RenderError {
    /// Zero-based row index.
    pub row: usize,
    /// Error message.
    pub error: String,
}

/// The result of rendering a template for each row.
#[derive(Debug, Clone)]
pub struct RenderResult {
    /// One prompt per row (empty for rows that failed).
    pub rendered: Vec<String>,
    /// The rows that failed, with their messages.
    pub errors: Vec<RenderError>,
}

/// A template used before, as stored in the database.
#[derive(Debug, Clone)]
pub struct TemplateHistoryEntry {
    pub id: i64,
    pub template: String,
    /// ISO 8601 timestamp.
    pub used_at: String,
    pub image_count: i64,
}

} // verus!
