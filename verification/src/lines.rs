//! Cutting text into pieces: at every occurrence of a character (as
//! `str::split` with a `char`), into lines (as `str::lines`), and at the
//! first occurrence of a character (as `str::split_once`); with the
//! prefix tests and trimming that go with them.
use vstd::prelude::*;
use crate::text::{chars_of, join, matches_at, occurs_at, string_of, trim, trim_bounds, views};

verus! {

/// The pieces of `s` between the occurrences of `sep` (as `str::split`):
/// one more piece than there are separators.
pub open spec fn split_on(s: Seq<char>, sep: char) -> Seq<Seq<char>>
    decreases s.len(),
{
    if s.len() == 0 {
        seq![Seq::<char>::empty()]
    } else {
        let init = split_on(s.drop_last(), sep);
        if s.last() == sep {
            init.push(Seq::<char>::empty())
        } else {
            init.update(init.len() - 1, init.last().push(s.last()))
        }
    }
}

/// There is always at least one piece.
pub proof fn lemma_split_nonempty(s: Seq<char>, sep: char)
    ensures
        split_on(s, sep).len() >= 1,
        split_on(s, sep).len() == 1 ==> split_on(s, sep)[0] == s || exists|i: int|
            0 <= i < s.len() && s[i] == sep,
    decreases s.len(),
{
    if s.len() > 0 {
        lemma_split_nonempty(s.drop_last(), sep);
        let init = split_on(s.drop_last(), sep);
        if s.last() != sep && init.len() == 1 {
            if init[0] == s.drop_last() {
                assert(s.drop_last().push(s.last()) =~= s);
            } else {
                let i = choose|i: int| 0 <= i < s.drop_last().len() && s.drop_last()[i] == sep;
                assert(s[i] == sep);
            }
        } else if s.last() == sep {
            assert(s[s.len() - 1] == sep);
        }
    }
}

/// Text without the separator is one piece.
pub proof fn lemma_split_single(s: Seq<char>, sep: char)
    requires
        forall|i: int| 0 <= i < s.len() ==> s[i] != sep,
    ensures
        split_on(s, sep) == seq![s],
    decreases s.len(),
{
    if s.len() > 0 {
        let d = s.drop_last();
        assert forall|i: int| 0 <= i < d.len() implies d[i] != sep by {
            assert(d[i] == s[i]);
        }
        lemma_split_single(d, sep);
        assert(s.last() != sep);
        assert(d.push(s.last()) =~= s);
        assert(seq![d].update(0, d.push(s.last())) =~= seq![s]);
    } else {
        assert(s =~= Seq::<char>::empty());
        assert(split_on(s, sep) =~= seq![s]);
    }
}

/// Splitting `a`, the separator, then `b` gives the pieces of `a` followed
/// by those of `b`.
pub proof fn lemma_split_append(a: Seq<char>, sep: char, b: Seq<char>)
    ensures
        split_on(a + seq![sep] + b, sep) == split_on(a, sep) + split_on(b, sep),
    decreases b.len(),
{
    lemma_split_nonempty(a, sep);
    if b.len() == 0 {
        assert(a + seq![sep] + b =~= a.push(sep));
        assert((a + seq![sep] + b).drop_last() =~= a);
        assert(split_on(a, sep) + split_on(b, sep) =~= split_on(a, sep).push(Seq::<char>::empty()));
    } else {
        let whole = a + seq![sep] + b;
        assert(whole.drop_last() =~= a + seq![sep] + b.drop_last());
        lemma_split_append(a, sep, b.drop_last());
        lemma_split_nonempty(b.drop_last(), sep);
        let left = split_on(a, sep);
        let right = split_on(b.drop_last(), sep);
        assert(whole.last() == b.last());
        if b.last() == sep {
            assert((left + right).push(Seq::<char>::empty()) =~= left + right.push(
                Seq::<char>::empty(),
            ));
        } else {
            let joined = left + right;
            assert(joined.update(joined.len() - 1, joined.last().push(b.last())) =~= left + right.update(
                right.len() - 1,
                right.last().push(b.last()),
            ));
        }
    }
}

/// Joining the pieces again with the separator gives back the text.
pub proof fn lemma_split_join(s: Seq<char>, sep: char)
    ensures
        join(split_on(s, sep), seq![sep]) == s,
    decreases s.len(),
{
    if s.len() > 0 {
        lemma_split_join(s.drop_last(), sep);
        lemma_split_nonempty(s.drop_last(), sep);
        let init = split_on(s.drop_last(), sep);
        if s.last() == sep {
            let list = init.push(Seq::<char>::empty());
            assert(list.drop_last() =~= init);
            assert(join(list, seq![sep]) =~= s.drop_last() + seq![sep] + Seq::<char>::empty());
            assert(s.drop_last() + seq![sep] + Seq::<char>::empty() =~= s);
        } else {
            let list = init.update(init.len() - 1, init.last().push(s.last()));
            if init.len() == 1 {
                assert(join(init, seq![sep]) == init[0]);
                assert(join(list, seq![sep]) == list[0]);
                assert(list[0] =~= s);
            } else {
                assert(list.drop_last() =~= init.drop_last());
                assert(join(init, seq![sep]) == join(init.drop_last(), seq![sep]) + seq![sep] + init.last());
                assert(join(list, seq![sep]) == join(init.drop_last(), seq![sep]) + seq![sep]
                    + init.last().push(s.last()));
                assert(join(init.drop_last(), seq![sep]) + seq![sep] + init.last().push(s.last())
                    =~= (join(init.drop_last(), seq![sep]) + seq![sep] + init.last()).push(s.last()));
                assert(s.drop_last().push(s.last()) =~= s);
            }
        }
    }
}

/// `s` with one trailing carriage return removed.
pub open spec fn strip_cr(s: Seq<char>) -> Seq<char> {
    if s.len() > 0 && s.last() == '\r' {
        s.drop_last()
    } else {
        s
    }
}

/// The lines of `s` (as `str::lines`): the pieces between newlines, a
/// carriage return before a newline dropped, and no empty piece after a
/// final newline.
pub open spec fn lines_of(s: Seq<char>) -> Seq<Seq<char>> {
    let pieces = split_on(s, '\n');
    let n = pieces.len() as int;
    let body = pieces.take(n - 1).map_values(|p: Seq<char>| strip_cr(p));
    if pieces[n - 1].len() == 0 {
        body
    } else {
        body.push(pieces[n - 1])
    }
}

/// `s` begins with `prefix`.
pub open spec fn starts_with(s: Seq<char>, prefix: Seq<char>) -> bool {
    s.len() >= prefix.len() && s.take(prefix.len() as int) == prefix
}

/// `s` with `prefix` removed from its front as often as it occurs there
/// (as `str::trim_start_matches`).
pub open spec fn strip_all_prefix(s: Seq<char>, prefix: Seq<char>) -> Seq<char>
    decreases s.len(),
{
    if prefix.len() > 0 && starts_with(s, prefix) {
        strip_all_prefix(s.skip(prefix.len() as int), prefix)
    } else {
        s
    }
}

/// The two sides of the first `c` in `s` (as `str::split_once`).
pub open spec fn split_once(s: Seq<char>, c: char) -> Option<(Seq<char>, Seq<char>)> {
    if exists|i: int| 0 <= i < s.len() && s[i] == c {
        let i = choose|i: int| 0 <= i < s.len() && s[i] == c && forall|k: int| 0 <= k < i ==> s[k] != c;
        Some((s.take(i), s.skip(i + 1)))
    } else {
        None
    }
}

pub proof fn lemma_split_once_at(s: Seq<char>, c: char, i: int)
    requires
        0 <= i < s.len(),
        s[i] == c,
        forall|k: int| 0 <= k < i ==> s[k] != c,
    ensures
        split_once(s, c) == Some((s.take(i), s.skip(i + 1))),
{
    assert(exists|j: int| 0 <= j < s.len() && s[j] == c);
    assert(s[i] == c && forall|k: int| 0 <= k < i ==> s[k] != c);
    let j = choose|j: int| 0 <= j < s.len() && s[j] == c && forall|k: int| 0 <= k < j ==> s[k] != c;
    if j < i {
        assert(s[j] != c);
    } else if j > i {
        assert(s[i] != c);
    }
}

/// Cuts `s` at every `sep`.
pub fn split_text(s: &str, sep: char) -> (r: Vec<String>)
    ensures
        views(r@) == split_on(s@, sep),
{
    let v = chars_of(s);
    let mut pieces: Vec<String> = Vec::new();
    let mut cur: Vec<char> = Vec::new();
    let mut i: usize = 0;
    while i < v.len()
        invariant
            i <= v@.len(),
            v@ == s@,
            views(pieces@).push(cur@) == split_on(v@.take(i as int), sep),
        decreases v@.len() - i,
    {
        let c = v[i];
        let ghost before = v@.take(i as int);
        assert(v@.take(i + 1).drop_last() =~= before);
        assert(v@.take(i + 1).last() == c);
        proof {
            lemma_split_nonempty(before, sep);
        }
        if c == sep {
            let piece = string_of(cur.as_slice());
            let ghost b = views(pieces@);
            pieces.push(piece);
            cur = Vec::new();
            assert(views(pieces@) =~= b.push(piece@));
            assert(views(pieces@).push(cur@) =~= split_on(before, sep).push(Seq::<char>::empty()));
        } else {
            let ghost old_cur = cur@;
            cur.push(c);
            assert(views(pieces@).push(cur@) =~= split_on(before, sep).update(
                split_on(before, sep).len() - 1,
                old_cur.push(c),
            ));
        }
        i = i + 1;
    }
    assert(v@.take(v@.len() as int) =~= v@);
    let last = string_of(cur.as_slice());
    let ghost b = views(pieces@);
    pieces.push(last);
    assert(views(pieces@) =~= b.push(last@));
    pieces
}

/// The lines of `s`, as `str::lines` gives them.
pub fn text_lines(s: &str) -> (r: Vec<String>)
    ensures
        views(r@) == lines_of(s@),
{
    let pieces = split_text(s, '\n');
    proof {
        lemma_split_nonempty(s@, '\n');
    }
    let ghost pv = views(pieces@);
    let n = pieces.len();
    let mut out: Vec<String> = Vec::new();
    let mut i: usize = 0;
    while i + 1 < n
        invariant
            n == pieces@.len(),
            n >= 1,
            pv == views(pieces@),
            pv == split_on(s@, '\n'),
            i + 1 <= n,
            views(out@) == pv.take(i as int).map_values(|p: Seq<char>| strip_cr(p)),
        decreases n - i,
    {
        let t = chars_of(pieces[i].as_str());
        let line = if t.len() > 0 && t[t.len() - 1] == '\r' {
            string_of_prefix(&t, t.len() - 1)
        } else {
            string_of(t.as_slice())
        };
        proof {
            assert(pv[i as int] == pieces@[i as int]@);
            if t@.len() > 0 && t@[t@.len() - 1] == '\r' {
                assert(t@.take(t@.len() - 1) =~= t@.drop_last());
            }
        }
        let ghost b = views(out@);
        out.push(line);
        assert(views(out@) =~= b.push(strip_cr(pv[i as int])));
        assert(pv.take(i + 1).map_values(|p: Seq<char>| strip_cr(p)) =~= pv.take(i as int).map_values(
            |p: Seq<char>| strip_cr(p),
        ).push(strip_cr(pv[i as int])));
        i = i + 1;
    }
    assert(i == n - 1);
    let last_chars = chars_of(pieces[n - 1].as_str());
    if last_chars.len() > 0 {
        proof {
            assert(pv[n - 1] == pieces@[n - 1]@);
            assert(pieces@[n - 1]@.len() > 0);
        }
        let ghost b = views(out@);
        out.push(pieces[n - 1].clone());
        assert(views(out@) =~= b.push(pv[n - 1]));
    } else {
        proof {
            assert(pv[n - 1] == pieces@[n - 1]@);
        }
    }
    out
}

/// The first `k` characters of `t` as a string.
fn string_of_prefix(t: &Vec<char>, k: usize) -> (r: String)
    requires
        k <= t@.len(),
    ensures
        r@ == t@.take(k as int),
{
    crate::text::string_of_range(t.as_slice(), 0, k)
}

/// `s` without leading and trailing white space (as `str::trim`).
pub fn trimmed(s: &str) -> (r: String)
    ensures
        r@ == trim(s@),
{
    let t = chars_of(s);
    let (a, b) = trim_bounds(&t, 0, t.len());
    proof {
        assert(t@.subrange(0, t@.len() as int) =~= t@);
    }
    crate::text::string_of_range(t.as_slice(), a, b)
}

/// Whether `s` begins with `prefix`.
pub fn text_starts_with(s: &str, prefix: &str) -> (r: bool)
    ensures
        r == starts_with(s@, prefix@),
{
    let t = chars_of(s);
    let p = chars_of(prefix);
    let r = matches_at(&t, &p, 0);
    proof {
        if r {
            assert(t@.subrange(0, p@.len() as int) =~= t@.take(p@.len() as int));
        } else if t@.len() >= p@.len() {
            assert(t@.subrange(0, p@.len() as int) =~= t@.take(p@.len() as int));
        }
    }
    r
}

/// `s` after the characters that `prefix` matches at its front.
fn rest_after(s: &str, k: usize) -> (r: String)
    requires
        k <= s@.len(),
    ensures
        r@ == s@.skip(k as int),
{
    let t = chars_of(s);
    let r = crate::text::string_of_range(t.as_slice(), k, t.len());
    assert(t@.subrange(k as int, t@.len() as int) =~= t@.skip(k as int));
    r
}

/// `s` with `prefix` removed from its front as often as it occurs there.
pub fn strip_prefix_all(s: &str, prefix: &str) -> (r: String)
    ensures
        r@ == strip_all_prefix(s@, prefix@),
{
    let mut cur = s.to_string();
    let n = chars_of(prefix).len();
    if n == 0 {
        return cur;
    }
    loop
        invariant
            n == prefix@.len(),
            n > 0,
            strip_all_prefix(cur@, prefix@) == strip_all_prefix(s@, prefix@),
        decreases cur@.len(),
    {
        if !text_starts_with(cur.as_str(), prefix) {
            return cur;
        }
        cur = rest_after(cur.as_str(), n);
    }
}

/// Cuts `s` at the first `c`.
pub fn split_once_text(s: &str, c: char) -> (r: Option<(String, String)>)
    ensures
        match r {
            Some((a, b)) => split_once(s@, c) == Some((a@, b@)),
            None => split_once(s@, c) is None,
        },
{
    let t = chars_of(s);
    let mut i: usize = 0;
    while i < t.len()
        invariant
            i <= t@.len(),
            t@ == s@,
            forall|k: int| 0 <= k < i ==> t@[k] != c,
        decreases t@.len() - i,
    {
        if t[i] == c {
            let a = crate::text::string_of_range(t.as_slice(), 0, i);
            let b = crate::text::string_of_range(t.as_slice(), i + 1, t.len());
            proof {
                lemma_split_once_at(s@, c, i as int);
                assert(t@.subrange(0, i as int) =~= s@.take(i as int));
                assert(t@.subrange(i + 1, t@.len() as int) =~= s@.skip(i + 1));
            }
            return Some((a, b));
        }
        i = i + 1;
    }
    None
}

} // verus!
