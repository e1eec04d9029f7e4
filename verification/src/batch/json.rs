//! Reading batch data from parsed JSON: either an array of objects (one row
//! per object, the columns being every key, sorted) or an object of arrays
//! (one column per key, row `i` taking item `i` of every array).
use vstd::prelude::*;
use super::combinatorial::BatchError;
use super::types::{BatchData, BatchRow, rows_view, rows_wf};
use crate::text::str_equal;

verus! {

/// A parsed JSON value.
#[derive(Debug)]
pub enum JsonValue {
    Null,
    Bool(bool),
    /// A number, written as the JSON text has it.
    Number(String),
    /// A string's contents.
    Text(String),
    /// An array's items and its compact JSON text.
    Array(Vec<JsonValue>, String),
    /// An object's entries (in key order) and its compact JSON text.
    Object(Vec<(String, JsonValue)>, String),
    /// An array or object nested below the levels that are read, as its
    /// compact JSON text.
    Nested(String),
}

/// A parsed JSON document.
#[derive(Debug)]
pub enum JsonDocument {
    /// A top-level array.
    Array(Vec<JsonValue>),
    /// A top-level object's entries, in key order.
    Object(Vec<(String, JsonValue)>),
    /// A top-level string, number, boolean or null.
    Scalar,
    /// Text that is not JSON.
    Invalid,
}

/// The text a JSON value contributes to a cell: a string's contents, a
/// number or boolean as written, nothing for null, and the compact JSON
/// text of an array or object.
pub open spec fn cell_text(v: JsonValue) -> Seq<char> {
    match v {
        JsonValue::Null => Seq::empty(),
        JsonValue::Bool(b) => if b {
            "true"@
        } else {
            "false"@
        },
        JsonValue::Number(t) => t@,
        JsonValue::Text(s) => s@,
        JsonValue::Array(_, t) => t@,
        JsonValue::Object(_, t) => t@,
        JsonValue::Nested(t) => t@,
    }
}

/// The text a JSON value contributes to a cell.
pub fn json_value_to_string(v: &JsonValue) -> (s: String)
    ensures
        s@ == cell_text(*v),
{
    match v {
        JsonValue::Null => String::new(),
        JsonValue::Bool(b) => if *b {
            "true".to_owned()
        } else {
            "false".to_owned()
        },
        JsonValue::Number(t) => t.clone(),
        JsonValue::Text(s) => s.clone(),
        JsonValue::Array(_, t) => t.clone(),
        JsonValue::Object(_, t) => t.clone(),
        JsonValue::Nested(t) => t.clone(),
    }
}

/// Whether `a` sorts strictly before `b` (character by character, as
/// `String`'s order does).
pub open spec fn lex_lt(a: Seq<char>, b: Seq<char>) -> bool
    decreases a.len(),
{
    if b.len() == 0 {
        false
    } else if a.len() == 0 {
        true
    } else if a[0] != b[0] {
        a[0] < b[0]
    } else {
        lex_lt(a.drop_first(), b.drop_first())
    }
}

proof fn lemma_lex_lt_irreflexive(a: Seq<char>)
    ensures
        !lex_lt(a, a),
    decreases a.len(),
{
    if a.len() > 0 {
        lemma_lex_lt_irreflexive(a.drop_first());
    }
}

proof fn lemma_lex_lt_transitive(a: Seq<char>, b: Seq<char>, c: Seq<char>)
    requires
        lex_lt(a, b),
        lex_lt(b, c),
    ensures
        lex_lt(a, c),
    decreases a.len(),
{
    if a.len() > 0 && b.len() > 0 && c.len() > 0 && a[0] == b[0] && b[0] == c[0] {
        lemma_lex_lt_transitive(a.drop_first(), b.drop_first(), c.drop_first());
    }
}

proof fn lemma_lex_lt_total(a: Seq<char>, b: Seq<char>)
    ensures
        a == b || lex_lt(a, b) || lex_lt(b, a),
    decreases a.len(),
{
    if a.len() > 0 && b.len() > 0 && a[0] == b[0] {
        lemma_lex_lt_total(a.drop_first(), b.drop_first());
        if a.drop_first() == b.drop_first() {
            assert(a =~= seq![a[0]] + a.drop_first());
            assert(b =~= seq![b[0]] + b.drop_first());
        }
    } else if a.len() == 0 && b.len() == 0 {
        assert(a =~= b);
    } else if a.len() > 0 && b.len() > 0 {

    }
}

/// Whether `a` sorts strictly before `b`.
fn less_than(a: &Vec<char>, b: &Vec<char>) -> (r: bool)
    ensures
        r == lex_lt(a@, b@),
{
    let mut i: usize = 0;
    proof {
        assert(a@.skip(0) =~= a@);
        assert(b@.skip(0) =~= b@);
    }
    while i < a.len() && i < b.len() && a[i] == b[i]
        invariant
            i <= a@.len(),
            i <= b@.len(),
            lex_lt(a@, b@) == lex_lt(a@.skip(i as int), b@.skip(i as int)),
        decreases a@.len() - i,
    {
        proof {
            assert(a@.skip(i as int).drop_first() =~= a@.skip(i + 1));
            assert(b@.skip(i as int).drop_first() =~= b@.skip(i + 1));
        }
        i = i + 1;
    }
    if i == b.len() {
        false
    } else if i == a.len() {
        true
    } else {
        a[i] < b[i]
    }
}

/// Strictly increasing.
pub open spec fn sorted_strictly(s: Seq<Seq<char>>) -> bool {
    forall|i: int, j: int| 0 <= i < j < s.len() ==> lex_lt(#[trigger] s[i], #[trigger] s[j])
}

/// The keys of an object's entries.
pub open spec fn entry_keys(entries: Seq<(String, JsonValue)>) -> Set<Seq<char>> {
    Set::new(|k: Seq<char>| exists|i: int| 0 <= i < entries.len() && (#[trigger] entries[i]).0@ == k)
}

/// The entries of an array's objects (nothing for other values).
pub open spec fn object_entries(v: JsonValue) -> Seq<(String, JsonValue)> {
    match v {
        JsonValue::Object(e, _) => e@,
        _ => Seq::empty(),
    }
}

/// Every key of every object of `items`.
pub open spec fn all_keys(items: Seq<JsonValue>) -> Set<Seq<char>> {
    Set::new(|k: Seq<char>| exists|i: int| 0 <= i < items.len() && entry_keys(object_entries(#[trigger] items[i])).contains(k))
}

/// The value stored under `key` in an object's entries (the last entry
/// with that key wins).
pub open spec fn lookup(entries: Seq<(String, JsonValue)>, key: Seq<char>) -> Option<JsonValue>
    decreases entries.len(),
{
    if entries.len() == 0 {
        None
    } else if entries.last().0@ == key {
        Some(entries.last().1)
    } else {
        lookup(entries.drop_last(), key)
    }
}

/// The row an object makes under the given columns: its value text per
/// column, empty where the object lacks the column.
pub open spec fn object_row(entries: Seq<(String, JsonValue)>, cols: Seq<Seq<char>>) -> Map<
    Seq<char>,
    Seq<char>,
>
    decreases cols.len(),
{
    if cols.len() == 0 {
        Map::empty()
    } else {
        object_row(entries, cols.drop_last()).insert(
            cols.last(),
            match lookup(entries, cols.last()) {
                Some(v) => cell_text(v),
                None => Seq::empty(),
            },
        )
    }
}

/// Whether every item is an object.
pub open spec fn all_objects(items: Seq<JsonValue>) -> bool {
    forall|i: int| 0 <= i < items.len() ==> (#[trigger] items[i]) is Object
}

fn lookup_entry<'a>(entries: &'a Vec<(String, JsonValue)>, key: &String) -> (r: Option<&'a JsonValue>)
    ensures
        match r {
            Some(v) => lookup(entries@, key@) == Some(*v),
            None => lookup(entries@, key@) is None,
        },
{
    let mut i: usize = entries.len();
    assert(entries@.take(i as int) =~= entries@);
    while i > 0
        invariant
            i <= entries@.len(),
            lookup(entries@, key@) == lookup(entries@.take(i as int), key@),
        decreases i,
    {
        proof {
            assert(entries@.take(i as int).drop_last() =~= entries@.take(i - 1));
        }
        if str_equal(entries[i - 1].0.as_str(), key.as_str()) {
            return Some(&entries[i - 1].1);
        }
        i = i - 1;
    }
    None
}

/// Inserts `key` into the strictly increasing `cols`, unless present.
fn insert_sorted(cols: &mut Vec<String>, key: &String)
    requires
        sorted_strictly(old(cols)@.map_values(|s: String| s@)),
    ensures
        sorted_strictly(final(cols)@.map_values(|s: String| s@)),
        final(cols)@.map_values(|s: String| s@).to_set() == old(cols)@.map_values(|s: String| s@).to_set().insert(
            key@,
        ),
{
    let ghost before = cols@.map_values(|s: String| s@);
    let kc = crate::text::chars_of(key.as_str());
    let mut i: usize = 0;
    while i < cols.len()
        invariant
            i <= cols@.len(),
            before == cols@.map_values(|s: String| s@),
            cols@ == old(cols)@,
            sorted_strictly(before),
            kc@ == key@,
            forall|j: int| 0 <= j < i ==> lex_lt(#[trigger] before[j], key@),
        decreases cols@.len() - i,
    {
        let c = crate::text::chars_of(cols[i].as_str());
        if !less_than(&c, &kc) {
            if str_equal(cols[i].as_str(), key.as_str()) {
                proof {
                    assert(before.to_set().insert(key@) =~= before.to_set()) by {
                        assert(before[i as int] == key@);
                    }
                }
                return;
            }
            proof {
                lemma_lex_lt_total(before[i as int], key@);
            }
            cols.insert(i, key.clone());
            proof {
                let after = cols@.map_values(|s: String| s@);
                assert(after =~= before.insert(i as int, key@));
                assert(lex_lt(key@, before[i as int]));
                assert forall|a: int, b: int| 0 <= a < b < after.len() implies lex_lt(
                    #[trigger] after[a],
                    #[trigger] after[b],
                ) by {
                    if b < i {
                        assert(after[a] == before[a] && after[b] == before[b]);
                    } else if b == i {
                        assert(after[a] == before[a] && after[b] == key@);
                    } else if a < i {
                        assert(after[a] == before[a] && after[b] == before[b - 1]);
                        lemma_lex_lt_transitive(before[a], key@, before[i as int]);
                        if b - 1 > i {
                            assert(lex_lt(before[i as int], before[b - 1]));
                            lemma_lex_lt_transitive(before[a], before[i as int], before[b - 1]);
                        }
                    } else if a == i {
                        assert(after[a] == key@ && after[b] == before[b - 1]);
                        if b - 1 > i {
                            assert(lex_lt(before[i as int], before[b - 1]));
                            lemma_lex_lt_transitive(key@, before[i as int], before[b - 1]);
                        }
                    } else {
                        assert(after[a] == before[a - 1] && after[b] == before[b - 1]);
                    }
                }
                assert forall|x: Seq<char>| after.to_set().contains(x) <==> before.to_set().insert(
                    key@,
                ).contains(x) by {
                    if after.contains(x) {
                        let t = choose|t: int| 0 <= t < after.len() && after[t] == x;
                        if t < i {
                            assert(before[t] == x);
                        } else if t > i {
                            assert(before[t - 1] == x);
                        }
                    }
                    if before.contains(x) {
                        let t = choose|t: int| 0 <= t < before.len() && before[t] == x;
                        if t < i {
                            assert(after[t] == x);
                        } else {
                            assert(after[t + 1] == x);
                        }
                    }
                    if x == key@ {
                        assert(after[i as int] == x);
                    }
                }
                assert(after.to_set() =~= before.to_set().insert(key@));
            }
            return;
        }
        i = i + 1;
    }
    cols.push(key.clone());
    proof {
        let after = cols@.map_values(|s: String| s@);
        assert(after =~= before.push(key@));
        assert forall|a: int, b: int| 0 <= a < b < after.len() implies lex_lt(
            #[trigger] after[a],
            #[trigger] after[b],
        ) by {
            if b < before.len() {
                assert(after[a] == before[a] && after[b] == before[b]);
            } else {
                assert(after[a] == before[a] && after[b] == key@);
            }
        }
        assert forall|x: Seq<char>| after.to_set().contains(x) <==> before.to_set().insert(key@).contains(x) by {
            if after.contains(x) {
                let t = choose|t: int| 0 <= t < after.len() && after[t] == x;
                if t < before.len() {
                    assert(before[t] == x);
                }
            }
            if before.contains(x) {
                let t = choose|t: int| 0 <= t < before.len() && before[t] == x;
                assert(after[t] == x);
            }
            if x == key@ {
                assert(after[before.len() as int] == x);
            }
        }
        assert(after.to_set() =~= before.to_set().insert(key@));
    }
}


/// The number of items of an array value (zero for other values).
pub open spec fn item_count(v: JsonValue) -> nat {
    match v {
        JsonValue::Array(items, _) => items@.len(),
        _ => 0,
    }
}

/// The items of an array value (none for other values).
pub open spec fn items_of(v: JsonValue) -> Seq<JsonValue> {
    match v {
        JsonValue::Array(items, _) => items@,
        _ => Seq::empty(),
    }
}

/// The first entry from `i` on whose value is not an array of `len` items.
pub open spec fn first_misfit(entries: Seq<(String, JsonValue)>, i: int, len: nat) -> Option<int>
    decreases entries.len() - i,
{
    if i < 0 || i >= entries.len() {
        None
    } else if !(entries[i].1 is Array) || item_count(entries[i].1) != len {
        Some(i)
    } else {
        first_misfit(entries, i + 1, len)
    }
}

/// Row `r` of an object of arrays: each key with the text of item `r` of its array.
pub open spec fn column_row(entries: Seq<(String, JsonValue)>, r: int) -> Map<Seq<char>, Seq<char>>
    decreases entries.len(),
{
    if entries.len() == 0 {
        Map::empty()
    } else {
        column_row(entries.drop_last(), r).insert(
            entries.last().0@,
            cell_text(items_of(entries.last().1)[r]),
        )
    }
}

/// The keys of an object's entries, in order.
pub open spec fn keys_in_order(entries: Seq<(String, JsonValue)>) -> Seq<Seq<char>> {
    entries.map_values(|e: (String, JsonValue)| e.0@)
}

/// What reading an array of objects gives: an error for an empty array or
/// for objects without keys; otherwise the sorted keys as columns and one
/// row per object.
pub open spec fn array_outcome(items: Seq<JsonValue>, r: Result<BatchData, BatchError>) -> bool {
    &&& (items.len() == 0 ==> (r matches Err(BatchError::JsonArrayEmpty)))
    &&& (items.len() > 0 && all_keys(items) == Set::<Seq<char>>::empty() ==> (r matches Err(
        BatchError::JsonNoKeys,
    )))
    &&& (items.len() > 0 && all_keys(items) != Set::<Seq<char>>::empty() ==> (r matches Ok(data) && {
        let cols = data.columns@.map_values(|s: String| s@);
        &&& sorted_strictly(cols)
        &&& cols.to_set() == all_keys(items)
        &&& rows_wf(data.rows@)
        &&& rows_view(data.rows@) == items.map_values(
            |v: JsonValue| object_row(object_entries(v), cols),
        )
    }))
}

/// What reading an object of arrays gives (see `parse_json_object_with_arrays`).
pub open spec fn object_outcome(entries: Seq<(String, JsonValue)>, r: Result<BatchData, BatchError>) -> bool {
    &&& (entries.len() == 0 ==> (r matches Err(BatchError::JsonObjectEmpty)))
    &&& (entries.len() > 0 && !(entries[0].1 is Array) ==> (r matches Err(BatchError::JsonValueNotArray)))
    &&& (entries.len() > 0 && entries[0].1 is Array ==> {
        let len = item_count(entries[0].1);
        match first_misfit(entries, 1, len) {
            Some(j) => if !(entries[j].1 is Array) {
                r matches Err(BatchError::JsonValueNotArray)
            } else {
                r matches Err(BatchError::JsonLengthMismatch(expected, found, key)) && expected
                    == len && found == item_count(entries[j].1) && key@ == entries[j].0@
            },
            None => if len == 0 {
                r matches Err(BatchError::JsonArraysEmpty)
            } else {
                r matches Ok(data) && data.columns@.map_values(|s: String| s@) == keys_in_order(
                    entries,
                ) && rows_wf(data.rows@) && rows_view(data.rows@) == Seq::new(
                    len,
                    |row: int| column_row(entries, row),
                )
            },
        }
    })
}

/// Reads an array of objects: the columns are every key of every object,
/// sorted, and each object makes one row (empty text where it lacks a
/// column). An empty array, and objects without keys, are errors.
pub fn parse_json_array_of_objects(items: &Vec<JsonValue>) -> (r: Result<BatchData, BatchError>)
    requires
        all_objects(items@),
    ensures
        array_outcome(items@, r),
{
    if items.len() == 0 {
        return Err(BatchError::JsonArrayEmpty);
    }
    let mut columns: Vec<String> = Vec::new();
    let mut i: usize = 0;
    while i < items.len()
        invariant
            i <= items@.len(),
            all_objects(items@),
            sorted_strictly(columns@.map_values(|s: String| s@)),
            columns@.map_values(|s: String| s@).to_set() == all_keys(items@.take(i as int)),
        decreases items@.len() - i,
    {
        let ghost before = columns@.map_values(|s: String| s@).to_set();
        match &items[i] {
            JsonValue::Object(entries, _) => {
                let mut j: usize = 0;
                while j < entries.len()
                    invariant
                        i < items@.len(),
                        items@[i as int] is Object,
                        object_entries(items@[i as int]) == entries@,
                        j <= entries@.len(),
                        sorted_strictly(columns@.map_values(|s: String| s@)),
                        columns@.map_values(|s: String| s@).to_set() == before.union(
                            Set::new(|k: Seq<char>| exists|t: int| 0 <= t < j && (#[trigger] entries@[t]).0@ == k),
                        ),
                    decreases entries@.len() - j,
                {
                    insert_sorted(&mut columns, &entries[j].0);
                    proof {
                        assert(Set::new(|k: Seq<char>| exists|t: int| 0 <= t < j + 1 && (#[trigger] entries@[t]).0@ == k)
                            =~= Set::new(|k: Seq<char>| exists|t: int| 0 <= t < j && (#[trigger] entries@[t]).0@ == k).insert(
                            entries@[j as int].0@,
                        ));
                    }
                    j = j + 1;
                }
                proof {
                    assert(all_keys(items@.take(i + 1)) =~= before.union(entry_keys(entries@))) by {
                        assert forall|k: Seq<char>| all_keys(items@.take(i + 1)).contains(k) <==> before.union(
                            entry_keys(entries@),
                        ).contains(k) by {
                            if all_keys(items@.take(i + 1)).contains(k) {
                                let t = choose|t: int|
                                    0 <= t < i + 1 && entry_keys(object_entries(#[trigger] items@.take(i + 1)[t])).contains(k);
                                if t < i {
                                    assert(items@.take(i as int)[t] == items@.take(i + 1)[t]);
                                }
                            }
                            if before.contains(k) {
                                let t = choose|t: int|
                                    0 <= t < i && entry_keys(object_entries(#[trigger] items@.take(i as int)[t])).contains(k);
                                assert(items@.take(i as int)[t] == items@.take(i + 1)[t]);
                            }
                            if entry_keys(entries@).contains(k) {
                                assert(items@.take(i + 1)[i as int] == items@[i as int]);
                            }
                        }
                    }
                    assert(Set::new(|k: Seq<char>| exists|t: int| 0 <= t < entries@.len() && (#[trigger] entries@[t]).0@ == k)
                        =~= entry_keys(entries@));
                }
            },
            _ => {
                assert(items@[i as int] is Object);
            },
        }
        i = i + 1;
    }
    proof {
        assert(items@.take(i as int) =~= items@);
    }
    if columns.len() == 0 {
        proof {
            assert(columns@.map_values(|s: String| s@) =~= Seq::<Seq<char>>::empty());
            assert(all_keys(items@) =~= Set::<Seq<char>>::empty());
        }
        return Err(BatchError::JsonNoKeys);
    }
    let ghost cols = columns@.map_values(|s: String| s@);
    proof {
        assert(cols.to_set().contains(cols[0]));
    }
    let mut rows: Vec<BatchRow> = Vec::new();
    let mut i: usize = 0;
    while i < items.len()
        invariant
            i <= items@.len(),
            cols == columns@.map_values(|s: String| s@),
            rows_wf(rows@),
            rows_view(rows@) == items@.take(i as int).map_values(
                |v: JsonValue| object_row(object_entries(v), cols),
            ),
        decreases items@.len() - i,
    {
        let mut row = BatchRow::new();
        let mut c: usize = 0;
        while c < columns.len()
            invariant
                i < items@.len(),
                c <= columns@.len(),
                cols == columns@.map_values(|s: String| s@),
                row.wf(),
                row@ == object_row(object_entries(items@[i as int]), cols.take(c as int)),
            decreases columns@.len() - c,
        {
            let value = match &items[i] {
                JsonValue::Object(entries, _) => match lookup_entry(entries, &columns[c]) {
                    Some(v) => json_value_to_string(v),
                    None => String::new(),
                },
                _ => String::new(),
            };
            proof {
                assert(cols.take(c + 1).drop_last() =~= cols.take(c as int));
                assert(cols.take(c + 1).last() == columns@[c as int]@);
            }
            row.insert(columns[c].clone(), value);
            c = c + 1;
        }
        proof {
            assert(cols.take(columns@.len() as int) =~= cols);
        }
        let ghost prev = rows@;
        rows.push(row);
        proof {
            assert forall|k: int| 0 <= k < rows@.len() implies (#[trigger] rows@[k]).wf() by {
                if k < prev.len() {
                    assert(rows@[k] == prev[k]);
                }
            }
            assert(rows_view(rows@) =~= rows_view(prev).push(rows@[prev.len() as int]@));
            assert(items@.take(i + 1) =~= items@.take(i as int).push(items@[i as int]));
            assert(rows_view(rows@) =~= items@.take(i + 1).map_values(
                |v: JsonValue| object_row(object_entries(v), cols),
            ));
        }
        i = i + 1;
    }
    proof {
        assert(items@.take(i as int) =~= items@);
    }
    Ok(BatchData { columns, rows })
}

/// Reads an object of arrays: one column per key (in entry order), row `r`
/// taking item `r` of every array. An empty object, a value that is not an
/// array, arrays of unequal length (reported for the first entry that
/// differs from the first array: expected and found lengths, key) and
/// empty arrays are errors.
pub fn parse_json_object_with_arrays(entries: &Vec<(String, JsonValue)>) -> (r: Result<BatchData, BatchError>)
    ensures
        object_outcome(entries@, r),
{
    if entries.len() == 0 {
        return Err(BatchError::JsonObjectEmpty);
    }
    let len = match &entries[0].1 {
        JsonValue::Array(items, _) => items.len(),
        _ => {
            return Err(BatchError::JsonValueNotArray);
        },
    };
    let mut k: usize = 1;
    while k < entries.len()
        invariant
            1 <= k <= entries@.len(),
            entries@[0].1 is Array,
            len == item_count(entries@[0].1),
            first_misfit(entries@, 1, len as nat) == first_misfit(entries@, k as int, len as nat),
        decreases entries@.len() - k,
    {
        match &entries[k].1 {
            JsonValue::Array(items, _) => {
                if items.len() != len {
                    return Err(BatchError::JsonLengthMismatch(len, items.len(), entries[k].0.clone()));
                }
            },
            _ => {
                return Err(BatchError::JsonValueNotArray);
            },
        }
        k = k + 1;
    }
    if len == 0 {
        return Err(BatchError::JsonArraysEmpty);
    }
    let mut rows: Vec<BatchRow> = Vec::new();
    let mut r: usize = 0;
    while r < len
        invariant
            r <= len,
            len == item_count(entries@[0].1),
            entries@.len() > 0,
            first_misfit(entries@, 1, len as nat) is None,
            rows_wf(rows@),
            rows_view(rows@) == Seq::new(r as nat, |row: int| column_row(entries@, row)),
        decreases len - r,
    {
        let mut row = BatchRow::new();
        let mut k: usize = 0;
        while k < entries.len()
            invariant
                r < len,
                len == item_count(entries@[0].1),
                entries@[0].1 is Array,
                first_misfit(entries@, 1, len as nat) is None,
                k <= entries@.len(),
                row.wf(),
                row@ == column_row(entries@.take(k as int), r as int),
            decreases entries@.len() - k,
        {
            proof {
                lemma_no_misfit(entries@, len as nat, k as int);
                assert(entries@.take(k + 1).drop_last() =~= entries@.take(k as int));
                assert(entries@.take(k + 1).last() == entries@[k as int]);
            }
            match &entries[k].1 {
                JsonValue::Array(items, _) => {
                    let value = json_value_to_string(&items[r]);
                    row.insert(entries[k].0.clone(), value);
                },
                _ => {},
            }
            k = k + 1;
        }
        proof {
            assert(entries@.take(entries@.len() as int) =~= entries@);
        }
        let ghost prev = rows@;
        rows.push(row);
        proof {
            assert forall|t: int| 0 <= t < rows@.len() implies (#[trigger] rows@[t]).wf() by {
                if t < prev.len() {
                    assert(rows@[t] == prev[t]);
                }
            }
            assert(rows_view(rows@) =~= rows_view(prev).push(rows@[prev.len() as int]@));
            assert(rows@[prev.len() as int]@ == column_row(entries@, r as int));
            assert(rows_view(rows@) =~= Seq::new((r + 1) as nat, |row: int| column_row(entries@, row)));
        }
        r = r + 1;
    }
    let mut columns: Vec<String> = Vec::new();
    let mut k: usize = 0;
    while k < entries.len()
        invariant
            k <= entries@.len(),
            columns@.map_values(|s: String| s@) == keys_in_order(entries@.take(k as int)),
        decreases entries@.len() - k,
    {
        columns.push(entries[k].0.clone());
        proof {
            assert(keys_in_order(entries@.take(k + 1)) =~= keys_in_order(entries@.take(k as int)).push(
                entries@[k as int].0@,
            ));
        }
        k = k + 1;
    }
    proof {
        assert(entries@.take(k as int) =~= entries@);
    }
    Ok(BatchData { columns, rows })
}

proof fn lemma_no_misfit(entries: Seq<(String, JsonValue)>, len: nat, k: int)
    requires
        entries.len() > 0,
        entries[0].1 is Array,
        item_count(entries[0].1) == len,
        first_misfit(entries, 1, len) is None,
        0 <= k < entries.len(),
    ensures
        entries[k].1 is Array,
        item_count(entries[k].1) == len,
{
    if k > 0 {
        lemma_misfit_from(entries, len, 1, k);
    }
}

proof fn lemma_misfit_from(entries: Seq<(String, JsonValue)>, len: nat, i: int, k: int)
    requires
        0 <= i <= k < entries.len(),
        first_misfit(entries, i, len) is None,
    ensures
        entries[k].1 is Array,
        item_count(entries[k].1) == len,
    decreases k - i,
{
    if i < k {
        lemma_misfit_from(entries, len, i + 1, k);
    }
}

/// What reading a parsed JSON document gives (see `parse_json_document`).
pub open spec fn document_outcome(doc: JsonDocument, r: Result<BatchData, BatchError>) -> bool {
    match doc {
        JsonDocument::Array(items) => if all_objects(items@) {
            array_outcome(items@, r)
        } else {
            r matches Err(BatchError::JsonShape)
        },
        JsonDocument::Object(entries) => object_outcome(entries@, r),
        _ => r matches Err(BatchError::JsonShape),
    }
}

/// Reads batch data from a parsed JSON document: an array of objects or an
/// object of arrays; anything else is an error.
#[verifier::loop_isolation(false)]
pub fn parse_json_document(doc: &JsonDocument) -> (r: Result<BatchData, BatchError>)
    ensures
        document_outcome(*doc, r),
{
    match doc {
        JsonDocument::Array(items) => {
            let mut i: usize = 0;
            while i < items.len()
                invariant
                    i <= items@.len(),
                    forall|j: int| 0 <= j < i ==> (#[trigger] items@[j]) is Object,
                decreases items@.len() - i,
            {
                match &items[i] {
                    JsonValue::Object(_, _) => {},
                    _ => {
                        assert(!(items@[i as int] is Object));
                        assert(!all_objects(items@));
                        return Err(BatchError::JsonShape);
                    },
                }
                i = i + 1;
            }
            parse_json_array_of_objects(items)
        },
        JsonDocument::Object(entries) => parse_json_object_with_arrays(entries),
        _ => Err(BatchError::JsonShape),
    }
}

} // verus!
