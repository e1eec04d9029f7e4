//! Expansion of batch data into every combination of its column values.
use vstd::prelude::*;
use super::types::{BatchData, BatchRow, rows_view, rows_wf};
use crate::text::str_equal;

verus! {

/// The values column `col` takes in `rows`, in row order (rows without the
/// column contribute nothing).
pub open spec fn column_values(rows: Seq<Map<Seq<char>, Seq<char>>>, col: Seq<char>) -> Seq<
    Seq<char>,
>
    decreases rows.len(),
{
    if rows.len() == 0 {
        Seq::empty()
    } else {
        let before = column_values(rows.drop_last(), col);
        if rows.last().contains_key(col) {
            before.push(rows.last()[col])
        } else {
            before
        }
    }
}

/// The first occurrence of each value, in order.
pub open spec fn distinct_in_order(s: Seq<Seq<char>>) -> Seq<Seq<char>>
    decreases s.len(),
{
    if s.len() == 0 {
        s
    } else {
        let d = distinct_in_order(s.drop_last());
        if d.contains(s.last()) {
            d
        } else {
            d.push(s.last())
        }
    }
}

/// The rows `rest`, repeated once for each of `values` (in order), with
/// column `col` set to that value.
pub open spec fn with_column(
    col: Seq<char>,
    values: Seq<Seq<char>>,
    rest: Seq<Map<Seq<char>, Seq<char>>>,
) -> Seq<Map<Seq<char>, Seq<char>>>
    decreases values.len(),
{
    if values.len() == 0 {
        Seq::empty()
    } else {
        with_column(col, values.drop_last(), rest) + rest.map_values(
            |r: Map<Seq<char>, Seq<char>>| r.insert(col, values.last()),
        )
    }
}

/// Every combination of one value per column: the first column varies
/// slowest. No columns give the single empty row.
pub open spec fn combinations(cols: Seq<Seq<char>>, values: Seq<Seq<Seq<char>>>) -> Seq<
    Map<Seq<char>, Seq<char>>,
>
    decreases cols.len(),
{
    if cols.len() == 0 {
        seq![Map::empty()]
    } else {
        with_column(cols[0], values[0], combinations(cols.drop_first(), values.drop_first()))
    }
}

/// The distinct values of each column, in first-seen order.
pub open spec fn unique_column_values(
    cols: Seq<Seq<char>>,
    rows: Seq<Map<Seq<char>, Seq<char>>>,
) -> Seq<Seq<Seq<char>>> {
    cols.map_values(|c: Seq<char>| distinct_in_order(column_values(rows, c)))
}

/// The expanded rows of batch data: empty data stays empty; otherwise every
/// combination of the distinct values of its columns.
pub open spec fn combined_rows(cols: Seq<Seq<char>>, rows: Seq<Map<Seq<char>, Seq<char>>>) -> Seq<
    Map<Seq<char>, Seq<char>>,
> {
    if rows.len() == 0 {
        rows
    } else {
        combinations(cols, unique_column_values(cols, rows))
    }
}

/// The product of the lengths of the value lists.
pub open spec fn product_of_lens(values: Seq<Seq<Seq<char>>>) -> nat
    decreases values.len(),
{
    if values.len() == 0 {
        1
    } else {
        values[0].len() * product_of_lens(values.drop_first())
    }
}

/// Why batch data could not be processed.
#[derive(Debug, Clone)]
pub enum BatchError {
    /// The CSV header line could not be read.
    CsvHeaders(String),
    /// The CSV header line names no column.
    CsvNoColumns,
    /// A CSV record (numbered from one) could not be read.
    CsvRow(usize, String),
    /// The CSV content has no record after the header line.
    CsvNoRows,
    /// The JSON array holds no object.
    JsonArrayEmpty,
    /// The JSON objects hold no key.
    JsonNoKeys,
    /// The JSON object holds no key.
    JsonObjectEmpty,
    /// A value of the JSON object is not an array.
    JsonValueNotArray,
    /// The JSON arrays differ in length: expected, found, and the key.
    JsonLengthMismatch(usize, usize, String),
    /// The JSON arrays are empty.
    JsonArraysEmpty,
    /// The JSON is neither an array of objects nor an object of arrays.
    JsonShape,
}

proof fn lemma_with_column_len(
    col: Seq<char>,
    values: Seq<Seq<char>>,
    rest: Seq<Map<Seq<char>, Seq<char>>>,
)
    ensures
        with_column(col, values, rest).len() == values.len() * rest.len(),
    decreases values.len(),
{
    if values.len() > 0 {
        lemma_with_column_len(col, values.drop_last(), rest);
        assert((values.len() - 1) * rest.len() + rest.len() == values.len() * rest.len())
            by (nonlinear_arith);
    }
}

/// The number of combinations is the product of the numbers of values of the columns.
pub proof fn lemma_combinations_count(cols: Seq<Seq<char>>, values: Seq<Seq<Seq<char>>>)
    requires
        values.len() == cols.len(),
    ensures
        combinations(cols, values).len() == product_of_lens(values),
    decreases cols.len(),
{
    if cols.len() > 0 {
        lemma_combinations_count(cols.drop_first(), values.drop_first());
        lemma_with_column_len(
            cols[0],
            values[0],
            combinations(cols.drop_first(), values.drop_first()),
        );
    }
}

proof fn with_column_source(
    col: Seq<char>,
    values: Seq<Seq<char>>,
    rest: Seq<Map<Seq<char>, Seq<char>>>,
    i: int,
) -> (ab: (int, int))
    requires
        0 <= i < with_column(col, values, rest).len(),
    ensures
        0 <= ab.0 < values.len(),
        0 <= ab.1 < rest.len(),
        with_column(col, values, rest)[i] == rest[ab.1].insert(col, values[ab.0]),
    decreases values.len(),
{
    lemma_with_column_len(col, values, rest);
    let front = values.drop_last();
    lemma_with_column_len(col, front, rest);
    let n = with_column(col, front, rest).len() as int;
    if i < n {
        let (a, b) = with_column_source(col, front, rest, i);
        assert(values[a] == front[a]);
        (a, b)
    } else {
        let b = i - n;
        assert(values.last() == values[values.len() - 1]);
        (values.len() - 1, b)
    }
}

/// With distinct column names, every combination sets each column, and only
/// the columns, to one of that column's values.
pub proof fn lemma_combinations_members(cols: Seq<Seq<char>>, values: Seq<Seq<Seq<char>>>)
    requires
        values.len() == cols.len(),
        cols.no_duplicates(),
    ensures
        forall|i: int| #![trigger combinations(cols, values)[i]]
            0 <= i < combinations(cols, values).len() ==> {
                &&& combinations(cols, values)[i].dom() == cols.to_set()
                &&& forall|j: int|
                    0 <= j < cols.len() ==> values[j].contains(
                        #[trigger] combinations(cols, values)[i][cols[j]],
                    )
            },
    decreases cols.len(),
{
    if cols.len() == 0 {
        assert(Map::<Seq<char>, Seq<char>>::empty().dom() =~= cols.to_set());
    } else {
        let tc = cols.drop_first();
        let tv = values.drop_first();
        assert(tc.no_duplicates()) by {
            assert forall|a: int, b: int| 0 <= a < tc.len() && 0 <= b < tc.len() && a != b implies tc[a]
                != tc[b] by {
                assert(cols[a + 1] != cols[b + 1]);
            }
        }
        lemma_combinations_members(tc, tv);
        let rest = combinations(tc, tv);
        let all = combinations(cols, values);
        assert forall|i: int| #![trigger all[i]] 0 <= i < all.len() implies {
            &&& all[i].dom() == cols.to_set()
            &&& forall|j: int| 0 <= j < cols.len() ==> values[j].contains(#[trigger] all[i][cols[j]])
        } by {
            let (a, b) = with_column_source(cols[0], values[0], rest, i);
            let r = rest[b];
            assert(r.dom() == tc.to_set());
            assert(all[i].dom() =~= cols.to_set()) by {
                assert forall|k: Seq<char>| all[i].dom().contains(k) <==> cols.to_set().contains(k) by {
                    if tc.contains(k) {
                        let t = choose|t: int| 0 <= t < tc.len() && tc[t] == k;
                        assert(cols[t + 1] == k);
                    }
                    if cols.contains(k) && k != cols[0] {
                        let t = choose|t: int| 0 <= t < cols.len() && cols[t] == k;
                        assert(tc[t - 1] == k);
                    }
                    if k == cols[0] {
                        assert(cols[0] == k);
                    }
                }
            }
            assert forall|j: int| 0 <= j < cols.len() implies values[j].contains(
                #[trigger] all[i][cols[j]],
            ) by {
                if j == 0 {
                    assert(values[0][a] == all[i][cols[0]]);
                } else {
                    assert(cols[j] != cols[0]);
                    assert(tc[j - 1] == cols[j]);
                    assert(tv[j - 1] == values[j]);
                    assert(values[j].contains(r[tc[j - 1]]));
                }
            }
        }
    }
}

/// The distinct values hold each value of the column once, and no other.
pub proof fn lemma_distinct_in_order(s: Seq<Seq<char>>)
    ensures
        distinct_in_order(s).no_duplicates(),
        forall|v: Seq<char>| #[trigger] distinct_in_order(s).contains(v) <==> s.contains(v),
    decreases s.len(),
{
    if s.len() > 0 {
        let init = s.drop_last();
        lemma_distinct_in_order(init);
        let d = distinct_in_order(init);
        assert forall|v: Seq<char>| #[trigger] distinct_in_order(s).contains(v) <==> s.contains(v) by {
            if s.contains(v) && v != s.last() {
                let k = choose|k: int| 0 <= k < s.len() && s[k] == v;
                assert(init[k] == v);
            }
            if init.contains(v) {
                let k = choose|k: int| 0 <= k < init.len() && init[k] == v;
                assert(s[k] == v);
            }
            if !d.contains(s.last()) {
                assert(d.push(s.last())[d.len() as int] == s.last());
                if d.push(s.last()).contains(v) && v != s.last() {
                    let k = choose|k: int| 0 <= k < d.push(s.last()).len() && d.push(s.last())[k] == v;
                    assert(d[k] == v);
                }
                if d.contains(v) {
                    let k = choose|k: int| 0 <= k < d.len() && d[k] == v;
                    assert(d.push(s.last())[k] == v);
                }
            }
            assert(s[s.len() - 1] == s.last());
        }
    }
}

/// The row that `with_column` makes from value `a` and row `b` of `rest`.
proof fn lemma_with_column_at(
    col: Seq<char>,
    values: Seq<Seq<char>>,
    rest: Seq<Map<Seq<char>, Seq<char>>>,
    a: int,
    b: int,
) -> (i: int)
    requires
        0 <= a < values.len(),
        0 <= b < rest.len(),
    ensures
        0 <= i < with_column(col, values, rest).len(),
        with_column(col, values, rest)[i] == rest[b].insert(col, values[a]),
    decreases values.len(),
{
    lemma_with_column_len(col, values, rest);
    let front = values.drop_last();
    lemma_with_column_len(col, front, rest);
    let n = with_column(col, front, rest).len() as int;
    if a < values.len() - 1 {
        let i = lemma_with_column_at(col, front, rest, a, b);
        assert(values[a] == front[a]);
        i
    } else {
        n + b
    }
}

/// With distinct column names, every choice of one value per column (each
/// among that column's values) is one of the combinations: the one at the
/// position returned.
pub proof fn lemma_combinations_complete(
    cols: Seq<Seq<char>>,
    values: Seq<Seq<Seq<char>>>,
    pick: Seq<Seq<char>>,
) -> (i: int)
    requires
        values.len() == cols.len(),
        cols.no_duplicates(),
        pick.len() == cols.len(),
        forall|j: int| 0 <= j < cols.len() ==> values[j].contains(#[trigger] pick[j]),
    ensures
        0 <= i < combinations(cols, values).len(),
        forall|j: int| 0 <= j < cols.len() ==> #[trigger] combinations(cols, values)[i][cols[j]] == pick[j],
    decreases cols.len(),
{
    if cols.len() == 0 {
        0
    } else {
        let tc = cols.drop_first();
        let tv = values.drop_first();
        let tp = pick.drop_first();
        assert(tc.no_duplicates()) by {
            assert forall|a: int, b: int| 0 <= a < tc.len() && 0 <= b < tc.len() && a != b implies tc[a]
                != tc[b] by {
                assert(cols[a + 1] != cols[b + 1]);
            }
        }
        assert forall|j: int| 0 <= j < tc.len() implies tv[j].contains(#[trigger] tp[j]) by {
            assert(values[j + 1].contains(pick[j + 1]));
        }
        let b = lemma_combinations_complete(tc, tv, tp);
        let rest = combinations(tc, tv);
        assert(values[0].contains(pick[0]));
        let a = choose|a: int| 0 <= a < values[0].len() && values[0][a] == pick[0];
        let i = lemma_with_column_at(cols[0], values[0], rest, a, b);
        let all = combinations(cols, values);
        assert(all[i] == rest[b].insert(cols[0], values[0][a]));
        assert forall|j: int| 0 <= j < cols.len() implies #[trigger] all[i][cols[j]] == pick[j] by {
            if j > 0 {
                assert(cols[j] != cols[0]);
                assert(tc[j - 1] == cols[j]);
                assert(rest[b][tc[j - 1]] == tp[j - 1]);
            }
        }
        i
    }
}

/// Adds `col` with each of `values` to every row of `rest` (see `with_column`).
fn rows_with_column(col: &String, values: &Vec<String>, rest: &Vec<BatchRow>) -> (r: Vec<BatchRow>)
    requires
        rows_wf(rest@),
    ensures
        rows_wf(r@),
        rows_view(r@) == with_column(col@, values@.map_values(|v: String| v@), rows_view(rest@)),
{
    let ghost vals = values@.map_values(|v: String| v@);
    let ghost rv = rows_view(rest@);
    let mut out: Vec<BatchRow> = Vec::new();
    let mut a: usize = 0;
    while a < values.len()
        invariant
            a <= values@.len(),
            vals == values@.map_values(|v: String| v@),
            rv == rows_view(rest@),
            rows_wf(rest@),
            rows_wf(out@),
            rows_view(out@) == with_column(col@, vals.take(a as int), rv),
        decreases values@.len() - a,
    {
        let ghost before = rows_view(out@);
        let mut b: usize = 0;
        while b < rest.len()
            invariant
                a < values@.len(),
                b <= rest@.len(),
                vals == values@.map_values(|v: String| v@),
                rv == rows_view(rest@),
                rows_wf(rest@),
                rows_wf(out@),
                rows_view(out@) == before + rv.take(b as int).map_values(
                    |r: Map<Seq<char>, Seq<char>>| r.insert(col@, vals[a as int]),
                ),
            decreases rest@.len() - b,
        {
            let mut row = rest[b].duplicate();
            row.insert(col.clone(), values[a].clone());
            let ghost prev = out@;
            out.push(row);
            proof {
                assert forall|i: int| 0 <= i < out@.len() implies (#[trigger] out@[i]).wf() by {
                    if i < prev.len() {
                        assert(out@[i] == prev[i]);
                    }
                }
                let f = |r: Map<Seq<char>, Seq<char>>| r.insert(col@, vals[a as int]);
                assert(rows_view(out@) =~= rows_view(prev).push(out@[b as int + before.len()]@)) by {
                    assert(out@ == prev.push(out@[prev.len() as int]));
                }
                assert(rv.take(b + 1).map_values(f) =~= rv.take(b as int).map_values(f).push(
                    f(rv[b as int]),
                ));
                assert(rv[b as int] == rest@[b as int]@);
                assert(vals[a as int] == values@[a as int]@);
                assert(rows_view(out@) =~= before + rv.take(b + 1).map_values(
                    |r: Map<Seq<char>, Seq<char>>| r.insert(col@, vals[a as int]),
                ));
            }
            b = b + 1;
        }
        proof {
            assert(rv.take(rest@.len() as int) =~= rv);
            assert(vals.take(a + 1).drop_last() =~= vals.take(a as int));
            assert(vals.take(a + 1).last() == vals[a as int]);
        }
        a = a + 1;
    }
    proof {
        assert(vals.take(values@.len() as int) =~= vals);
    }
    out
}

/// The distinct values of column `col` in `rows`, in first-seen order.
fn unique_values(rows: &Vec<BatchRow>, col: &String) -> (r: Vec<String>)
    requires
        rows_wf(rows@),
    ensures
        r@.map_values(|v: String| v@) == distinct_in_order(column_values(rows_view(rows@), col@)),
{
    let mut out: Vec<String> = Vec::new();
    let mut i: usize = 0;
    while i < rows.len()
        invariant
            i <= rows@.len(),
            rows_wf(rows@),
            out@.map_values(|v: String| v@) == distinct_in_order(
                column_values(rows_view(rows@.take(i as int)), col@),
            ),
        decreases rows@.len() - i,
    {
        proof {
            assert(rows_view(rows@.take(i + 1)).drop_last() =~= rows_view(rows@.take(i as int)));
            assert(rows_view(rows@.take(i + 1)).last() == rows@[i as int]@);
            assert(rows@[i as int].wf());
        }
        match rows[i].get(col.as_str()) {
            Some(v) => {
                let ghost d = out@.map_values(|v: String| v@);
                let mut seen = false;
                let mut j: usize = 0;
                while j < out.len()
                    invariant
                        j <= out@.len(),
                        d == out@.map_values(|v: String| v@),
                        seen ==> d.contains(v@),
                        !seen ==> forall|k: int| 0 <= k < j ==> d[k] != v@,
                    decreases out@.len() - j,
                {
                    if str_equal(out[j].as_str(), v.as_str()) {
                        assert(d[j as int] == v@);
                        seen = true;
                    }
                    j = j + 1;
                }
                proof {
                    let x = rows_view(rows@.take(i + 1));
                    assert(column_values(x, col@).drop_last() =~= column_values(
                        rows_view(rows@.take(i as int)),
                        col@,
                    ));
                    assert(column_values(x, col@).last() == v@);
                }
                if !seen {
                    out.push(v.clone());
                    assert(out@.map_values(|v: String| v@) =~= d.push(v@));
                } else {
                    assert(d.contains(v@));
                }
            },
            None => {},
        }
        i = i + 1;
    }
    assert(rows@.take(i as int) =~= rows@);
    out
}

/// `n` copies of `x`.
pub open spec fn repeat_value(x: Seq<char>, n: nat) -> Seq<Seq<char>>
    decreases n,
{
    if n == 0 {
        Seq::empty()
    } else {
        repeat_value(x, (n - 1) as nat).push(x)
    }
}

proof fn lemma_column_values_concat(a: Seq<Map<Seq<char>, Seq<char>>>, b: Seq<Map<Seq<char>, Seq<char>>>, c: Seq<char>)
    ensures
        column_values(a + b, c) == column_values(a, c) + column_values(b, c),
    decreases b.len(),
{
    if b.len() == 0 {
        assert(a + b =~= a);
        assert(column_values(a, c) + column_values(b, c) =~= column_values(a, c));
    } else {
        lemma_column_values_concat(a, b.drop_last(), c);
        assert((a + b).drop_last() =~= a + b.drop_last());
        assert((a + b).last() == b.last());
        if b.last().contains_key(c) {
            assert(column_values(a, c) + column_values(b.drop_last(), c).push(b.last()[c]) =~= (
            column_values(a, c) + column_values(b.drop_last(), c)).push(b.last()[c]));
        }
    }
}

proof fn lemma_column_values_set(rest: Seq<Map<Seq<char>, Seq<char>>>, col: Seq<char>, x: Seq<char>)
    ensures
        column_values(rest.map_values(|r: Map<Seq<char>, Seq<char>>| r.insert(col, x)), col) == repeat_value(
            x,
            rest.len(),
        ),
    decreases rest.len(),
{
    let m = rest.map_values(|r: Map<Seq<char>, Seq<char>>| r.insert(col, x));
    if rest.len() > 0 {
        lemma_column_values_set(rest.drop_last(), col, x);
        assert(m.drop_last() =~= rest.drop_last().map_values(
            |r: Map<Seq<char>, Seq<char>>| r.insert(col, x),
        ));
        assert(m.last() == rest.last().insert(col, x));
    } else {
        assert(m =~= Seq::<Map<Seq<char>, Seq<char>>>::empty());
    }
}

proof fn lemma_column_values_other(
    rest: Seq<Map<Seq<char>, Seq<char>>>,
    col: Seq<char>,
    x: Seq<char>,
    other: Seq<char>,
)
    requires
        other != col,
    ensures
        column_values(rest.map_values(|r: Map<Seq<char>, Seq<char>>| r.insert(col, x)), other)
            == column_values(rest, other),
    decreases rest.len(),
{
    let m = rest.map_values(|r: Map<Seq<char>, Seq<char>>| r.insert(col, x));
    if rest.len() > 0 {
        lemma_column_values_other(rest.drop_last(), col, x, other);
        assert(m.drop_last() =~= rest.drop_last().map_values(
            |r: Map<Seq<char>, Seq<char>>| r.insert(col, x),
        ));
        assert(m.last() == rest.last().insert(col, x));
    } else {
        assert(m =~= Seq::<Map<Seq<char>, Seq<char>>>::empty());
    }
}

/// Appending copies of a value adds it once, where it is new.
proof fn lemma_distinct_repeat(s: Seq<Seq<char>>, x: Seq<char>, n: nat)
    requires
        n > 0,
    ensures
        distinct_in_order(s + repeat_value(x, n)) == if s.contains(x) {
            distinct_in_order(s)
        } else {
            distinct_in_order(s).push(x)
        },
    decreases n,
{
    lemma_distinct_in_order(s);
    if n == 1 {
        assert(repeat_value(x, 0) =~= Seq::<Seq<char>>::empty());
        assert(s + repeat_value(x, 1) =~= s.push(x));
        assert((s + repeat_value(x, 1)).drop_last() =~= s);
    } else {
        lemma_distinct_repeat(s, x, (n - 1) as nat);
        let t = s + repeat_value(x, (n - 1) as nat);
        assert(s + repeat_value(x, n) =~= t.push(x));
        assert(t.push(x).drop_last() =~= t);
        lemma_distinct_in_order(t);
        assert(t[t.len() - 1] == x);
        assert(t.contains(x));
    }
}

/// Appending values already present adds nothing new.
proof fn lemma_distinct_known(s: Seq<Seq<char>>, t: Seq<Seq<char>>)
    requires
        forall|i: int| 0 <= i < t.len() ==> s.contains(#[trigger] t[i]),
    ensures
        distinct_in_order(s + t) == distinct_in_order(s),
    decreases t.len(),
{
    if t.len() == 0 {
        assert(s + t =~= s);
    } else {
        lemma_distinct_known(s, t.drop_last());
        let u = s + t.drop_last();
        assert(s + t =~= u.push(t.last()));
        assert(u.push(t.last()).drop_last() =~= u);
        lemma_distinct_in_order(u);
        assert(s.contains(t[t.len() - 1]));
        let k = choose|k: int| 0 <= k < s.len() && s[k] == t.last();
        assert(u[k] == t.last());
    }
}

/// The first column of the rows `with_column` makes takes each value, in
/// order, once its first row is met.
proof fn lemma_with_column_first(col: Seq<char>, values: Seq<Seq<char>>, rest: Seq<Map<Seq<char>, Seq<char>>>)
    requires
        values.no_duplicates(),
        rest.len() > 0,
    ensures
        distinct_in_order(column_values(with_column(col, values, rest), col)) == values,
    decreases values.len(),
{
    if values.len() == 0 {
        assert(distinct_in_order(Seq::<Seq<char>>::empty()) =~= values);
    } else {
        let front = values.drop_last();
        let x = values.last();
        assert(front.no_duplicates()) by {
            assert forall|a: int, b: int| 0 <= a < front.len() && 0 <= b < front.len() && a != b implies front[a]
                != front[b] by {
                assert(values[a] != values[b]);
            }
        }
        lemma_with_column_first(col, front, rest);
        let prev = column_values(with_column(col, front, rest), col);
        let block = rest.map_values(|r: Map<Seq<char>, Seq<char>>| r.insert(col, x));
        lemma_column_values_concat(with_column(col, front, rest), block, col);
        lemma_column_values_set(rest, col, x);
        lemma_distinct_in_order(prev);
        assert(!front.contains(x)) by {
            if front.contains(x) {
                let k = choose|k: int| 0 <= k < front.len() && front[k] == x;
                assert(values[k] == values[values.len() - 1]);
            }
        }
        lemma_distinct_repeat(prev, x, rest.len());
        assert(front.push(x) =~= values);
    }
}

/// Another column of the rows `with_column` makes takes the values it takes
/// in `rest`, in the same first-seen order.
proof fn lemma_with_column_other(
    col: Seq<char>,
    values: Seq<Seq<char>>,
    rest: Seq<Map<Seq<char>, Seq<char>>>,
    other: Seq<char>,
)
    requires
        other != col,
        values.len() > 0,
    ensures
        distinct_in_order(column_values(with_column(col, values, rest), other)) == distinct_in_order(
            column_values(rest, other),
        ),
    decreases values.len(),
{
    let x = values.last();
    let front = values.drop_last();
    let w = column_values(rest, other);
    let block = rest.map_values(|r: Map<Seq<char>, Seq<char>>| r.insert(col, x));
    lemma_column_values_concat(with_column(col, front, rest), block, other);
    lemma_column_values_other(rest, col, x, other);
    if values.len() == 1 {
        assert(with_column(col, front, rest) =~= Seq::<Map<Seq<char>, Seq<char>>>::empty());
        assert(column_values(Seq::<Map<Seq<char>, Seq<char>>>::empty(), other) + w =~= w);
    } else {
        lemma_with_column_other(col, front, rest, other);
        let prev = column_values(with_column(col, front, rest), other);
        lemma_distinct_in_order(prev);
        lemma_distinct_in_order(w);
        assert forall|i: int| 0 <= i < w.len() implies prev.contains(#[trigger] w[i]) by {
            assert(w.contains(w[i]));
            assert(distinct_in_order(w).contains(w[i]));
        }
        lemma_distinct_known(prev, w);
    }
}

/// Every combination has a row where each column list has a value.
proof fn lemma_combinations_nonempty(cols: Seq<Seq<char>>, values: Seq<Seq<Seq<char>>>)
    requires
        values.len() == cols.len(),
        forall|k: int| 0 <= k < values.len() ==> (#[trigger] values[k]).len() > 0,
    ensures
        combinations(cols, values).len() > 0,
    decreases cols.len(),
{
    if cols.len() > 0 {
        assert forall|k: int| 0 <= k < values.drop_first().len() implies (
        #[trigger] values.drop_first()[k]).len() > 0 by {
            assert(values[k + 1].len() > 0);
        }
        lemma_combinations_nonempty(cols.drop_first(), values.drop_first());
        lemma_with_column_len(cols[0], values[0], combinations(cols.drop_first(), values.drop_first()));
        assert(values[0].len() * combinations(cols.drop_first(), values.drop_first()).len() > 0)
            by (nonlinear_arith)
            requires
                values[0].len() > 0,
                combinations(cols.drop_first(), values.drop_first()).len() > 0,
        ;
    }
}

/// Each column of the combinations takes its values in the order given.
proof fn lemma_combinations_columns(cols: Seq<Seq<char>>, values: Seq<Seq<Seq<char>>>)
    requires
        values.len() == cols.len(),
        cols.no_duplicates(),
        forall|k: int| 0 <= k < values.len() ==> (#[trigger] values[k]).len() > 0 && values[k].no_duplicates(),
    ensures
        forall|j: int|
            0 <= j < cols.len() ==> distinct_in_order(column_values(combinations(cols, values), #[trigger] cols[j]))
                == values[j],
    decreases cols.len(),
{
    if cols.len() > 0 {
        let tc = cols.drop_first();
        let tv = values.drop_first();
        assert(tc.no_duplicates()) by {
            assert forall|a: int, b: int| 0 <= a < tc.len() && 0 <= b < tc.len() && a != b implies tc[a]
                != tc[b] by {
                assert(cols[a + 1] != cols[b + 1]);
            }
        }
        assert forall|k: int| 0 <= k < tv.len() implies (#[trigger] tv[k]).len() > 0 && tv[k].no_duplicates() by {
            assert(tv[k] == values[k + 1]);
        }
        lemma_combinations_columns(tc, tv);
        lemma_combinations_nonempty(tc, tv);
        let rest = combinations(tc, tv);
        assert(values[0].len() > 0 && values[0].no_duplicates());
        assert forall|j: int| 0 <= j < cols.len() implies distinct_in_order(
            column_values(combinations(cols, values), #[trigger] cols[j]),
        ) == values[j] by {
            if j == 0 {
                lemma_with_column_first(cols[0], values[0], rest);
            } else {
                assert(cols[j] != cols[0]);
                lemma_with_column_other(cols[0], values[0], rest, cols[j]);
                assert(tc[j - 1] == cols[j]);
                assert(tv[j - 1] == values[j]);
            }
        }
    }
}

/// Expanding expanded rows again gives the same rows: the combinations take
/// each column's distinct values in the order they were combined in.
pub proof fn lemma_combinations_idempotent(cols: Seq<Seq<char>>, rows: Seq<Map<Seq<char>, Seq<char>>>)
    requires
        cols.no_duplicates(),
    ensures
        combined_rows(cols, combined_rows(cols, rows)) == combined_rows(cols, rows),
{
    if rows.len() > 0 {
        let u = unique_column_values(cols, rows);
        let c = combinations(cols, u);
        if c.len() > 0 {
            lemma_combinations_members(cols, u);
            assert forall|k: int| 0 <= k < u.len() implies (#[trigger] u[k]).len() > 0 && u[k].no_duplicates() by {
                assert(u[k].contains(c[0][cols[k]]));
                lemma_distinct_in_order(column_values(rows, cols[k]));
            }
            lemma_combinations_columns(cols, u);
            assert(unique_column_values(cols, c) =~= u);
        }
    }
}

/// Expands batch data into every combination of the distinct values of its
/// columns (the first column varying slowest); data without rows is returned
/// as is.
pub fn generate_combinations(data: BatchData) -> (r: Result<BatchData, BatchError>)
    requires
        rows_wf(data.rows@),
    ensures
        r is Ok,
        r matches Ok(out) ==> out.columns@ == data.columns@ && rows_wf(out.rows@) && rows_view(
            out.rows@,
        ) == combined_rows(data.columns@.map_values(|c: String| c@), rows_view(data.rows@)),
{
    if data.rows.len() == 0 {
        return Ok(data);
    }
    let ghost cols = data.columns@.map_values(|c: String| c@);
    let ghost rv = rows_view(data.rows@);
    let ghost uv = unique_column_values(cols, rv);
    let mut values: Vec<Vec<String>> = Vec::new();
    let mut j: usize = 0;
    while j < data.columns.len()
        invariant
            j <= data.columns@.len(),
            rows_wf(data.rows@),
            cols == data.columns@.map_values(|c: String| c@),
            rv == rows_view(data.rows@),
            uv == unique_column_values(cols, rv),
            values@.len() == j,
            forall|k: int| 0 <= k < j ==> (#[trigger] values@[k])@.map_values(|v: String| v@) == uv[k],
        decreases data.columns@.len() - j,
    {
        let u = unique_values(&data.rows, &data.columns[j]);
        values.push(u);
        j = j + 1;
    }
    let mut acc: Vec<BatchRow> = Vec::new();
    acc.push(BatchRow::new());
    proof {
        assert(rows_view(acc@) =~= seq![Map::<Seq<char>, Seq<char>>::empty()]);
        assert(cols.skip(cols.len() as int) =~= Seq::<Seq<char>>::empty());
        assert forall|i: int| 0 <= i < acc@.len() implies (#[trigger] acc@[i]).wf() by {}
    }
    let mut k: usize = data.columns.len();
    while k > 0
        invariant
            k <= data.columns@.len(),
            values@.len() == data.columns@.len(),
            cols == data.columns@.map_values(|c: String| c@),
            uv == unique_column_values(cols, rv),
            forall|m: int| 0 <= m < values@.len() ==> (#[trigger] values@[m])@.map_values(|v: String| v@) == uv[m],
            rows_wf(acc@),
            rows_view(acc@) == combinations(cols.skip(k as int), uv.skip(k as int)),
        decreases k,
    {
        k = k - 1;
        let next = rows_with_column(&data.columns[k as usize], &values[k as usize], &acc);
        proof {
            assert(cols.skip(k as int).drop_first() =~= cols.skip(k + 1));
            assert(uv.skip(k as int).drop_first() =~= uv.skip(k + 1));
            assert(cols.skip(k as int)[0] == data.columns@[k as int]@);
            assert(uv.skip(k as int)[0] == uv[k as int]);
        }
        acc = next;
    }
    proof {
        assert(cols.skip(0) =~= cols);
        assert(uv.skip(0) =~= uv);
    }
    Ok(BatchData { columns: data.columns, rows: acc })
}

} // verus!
