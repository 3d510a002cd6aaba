//! Trigram-based similarity scoring.
//!
//! A string is padded with two leading spaces and one trailing space, and
//! every overlapping window of three characters of the padded string is a
//! trigram.  A padded string of `n` characters yields exactly `n + 1`
//! trigrams.  The score of a query against a candidate counts how many of the
//! query's trigrams occur among the candidate's trigrams, normalised by the
//! number of the query's trigrams, so the score is a rational in `[0, 1]`.
//! The score is kept as the exact pair (matches, trigram count): callers that
//! want a float divide the two outside the library.

use vstd::prelude::*;
use vstd::string::StrSliceExecFns;

verus! {

/// Selects which field of a record takes part in a similarity query;
/// `Id` requests an exact lookup instead of scoring.
#[derive(Clone, Copy, PartialEq, Eq, Structural, Debug)]
pub enum SearchType {
    Uploader,
    Title,
    Default,
    User,
    Id,
}

/// An exact similarity score: `hits` matched trigrams out of `total`
/// query trigrams.  The rational value is `hits / total`.
#[derive(Clone, Copy, PartialEq, Eq, Structural, Debug)]
pub struct Score {
    pub hits: usize,
    pub total: usize,
}

/// The string as scored: two leading spaces and one trailing space added.
pub open spec fn padded(s: Seq<char>) -> Seq<char> {
    seq![' ', ' '] + s + seq![' ']
}

/// All overlapping three-character windows of the padded string.
/// There are exactly `s.len() + 1` of them.
pub open spec fn trigrams_of(s: Seq<char>) -> Seq<(char, char, char)> {
    Seq::new(s.len() + 1, |i: int| (padded(s)[i], padded(s)[i + 1], padded(s)[i + 2]))
}

/// How many elements of `qt` occur in `ct`, counting each position of `qt`
/// once however often its trigram occurs in `ct`.
pub open spec fn match_count(qt: Seq<(char, char, char)>, ct: Seq<(char, char, char)>) -> nat
    decreases qt.len(),
{
    if qt.len() == 0 {
        0
    } else {
        match_count(qt.drop_last(), ct) + (if ct.contains(qt.last()) {
            1nat
        } else {
            0nat
        })
    }
}

/// The number of trigrams of `q` that occur among the trigrams of `c`:
/// the numerator of the similarity score of `q` against `c`.
pub open spec fn hits_of(q: Seq<char>, c: Seq<char>) -> nat {
    match_count(trigrams_of(q), trigrams_of(c))
}

proof fn lemma_match_count_take_step(qt: Seq<(char, char, char)>, ct: Seq<(char, char, char)>, i: int)
    requires
        0 <= i < qt.len(),
    ensures
        match_count(qt.take(i + 1), ct) == match_count(qt.take(i), ct) + (if ct.contains(qt[i]) {
            1nat
        } else {
            0nat
        }),
{
    assert(qt.take(i + 1).drop_last() =~= qt.take(i));
    assert(qt.take(i + 1).last() == qt[i]);
}

proof fn lemma_match_count_le(qt: Seq<(char, char, char)>, ct: Seq<(char, char, char)>)
    ensures
        match_count(qt, ct) <= qt.len(),
    decreases qt.len(),
{
    if qt.len() > 0 {
        lemma_match_count_le(qt.drop_last(), ct);
    }
}

proof fn lemma_match_count_all(qt: Seq<(char, char, char)>, ct: Seq<(char, char, char)>)
    requires
        forall|i: int| 0 <= i < qt.len() ==> ct.contains(#[trigger] qt[i]),
    ensures
        match_count(qt, ct) == qt.len(),
    decreases qt.len(),
{
    if qt.len() > 0 {
        assert(ct.contains(qt.last()));
        assert(forall|i: int|
            0 <= i < qt.drop_last().len() ==> ct.contains(#[trigger] qt.drop_last()[i]));
        lemma_match_count_all(qt.drop_last(), ct);
    }
}

/// The score of any query against any candidate lies in `[0, 1]`:
/// the matched trigrams never outnumber the query's `q.len() + 1` trigrams
/// (and a count is never negative).
pub proof fn lemma_score_bounded(q: Seq<char>, c: Seq<char>)
    ensures
        hits_of(q, c) <= q.len() + 1,
{
    lemma_match_count_le(trigrams_of(q), trigrams_of(c));
}

/// A string scored against itself scores exactly 1: every one of its
/// `s.len() + 1` trigrams matches.
pub proof fn lemma_score_self(s: Seq<char>)
    ensures
        hits_of(s, s) == s.len() + 1,
{
    let t = trigrams_of(s);
    assert forall|i: int| 0 <= i < t.len() implies t.contains(#[trigger] t[i]) by {
        assert(0 <= i < t.len() && t[i] == t[i]);
    }
    lemma_match_count_all(t, t);
}

/// The trigram sequence of `s`: every window of three characters of the
/// padded string, in order.
pub fn trigrams(s: &str) -> (r: Vec<(char, char, char)>)
    ensures
        r@ == trigrams_of(s@),
{
    let n: usize = s.unicode_len();
    let mut pc: Vec<char> = Vec::new();
    pc.push(' ');
    pc.push(' ');
    let mut i: usize = 0;
    while i < n
        invariant
            i <= n,
            n == s@.len(),
            pc@ == seq![' ', ' '] + s@.take(i as int),
        decreases n - i,
    {
        pc.push(s.get_char(i));
        assert(seq![' ', ' '] + s@.take(i as int + 1) =~= (seq![' ', ' '] + s@.take(
            i as int,
        )).push(s@[i as int]));
        i = i + 1;
    }
    pc.push(' ');
    proof {
        assert(s@.take(n as int) =~= s@);
        assert(pc@ =~= padded(s@));
    }
    let m: usize = pc.len();
    let mut r: Vec<(char, char, char)> = Vec::new();
    let mut i: usize = 0;
    while i + 2 < m
        invariant
            m == pc@.len(),
            pc@ == padded(s@),
            i + 2 <= m,
            r@.len() == i,
            forall|k: int| 0 <= k < i ==> r@[k] == trigrams_of(s@)[k],
        decreases m - i,
    {
        r.push((pc[i], pc[i + 1], pc[i + 2]));
        i = i + 1;
    }
    proof {
        assert(r@ =~= trigrams_of(s@));
    }
    r
}

/// The similarity of `a` against `b`: for each trigram of `a`, the first
/// matching trigram of `b` counts once; the score is that count over the
/// `a.len() + 1` trigrams of `a`.  The result never exceeds 1, so no
/// clamping is needed.
pub fn fuzzy_compare(a: &str, b: &str) -> (r: Score)
    ensures
        r.hits == hits_of(a@, b@),
        r.total == a@.len() + 1,
        r.hits <= r.total,
{
    let ta = trigrams(a);
    let tb = trigrams(b);
    let total: usize = ta.len();
    let mut hits: usize = 0;
    let mut i: usize = 0;
    while i < total
        invariant
            total == ta@.len(),
            ta@ == trigrams_of(a@),
            tb@ == trigrams_of(b@),
            i <= total,
            hits <= i,
            hits == match_count(ta@.take(i as int), tb@),
        decreases total - i,
    {
        let t = ta[i];
        let mut j: usize = 0;
        let mut found = false;
        let nb: usize = tb.len();
        while j < nb
            invariant
                nb == tb@.len(),
                j <= nb,
                found == tb@.take(j as int).contains(t),
            decreases nb - j,
        {
            let u = tb[j];
            if t.0 == u.0 && t.1 == u.1 && t.2 == u.2 {
                found = true;
            }
            proof {
                assert(tb@.take(j as int + 1).drop_last() =~= tb@.take(j as int));
                assert(tb@.take(j as int + 1).last() == tb@[j as int]);
                if tb@.take(j as int).contains(t) || tb@[j as int] == t {
                    assert(tb@.take(j as int + 1).contains(t)) by {
                        if tb@[j as int] == t {
                            assert(tb@.take(j as int + 1)[j as int] == t);
                        } else {
                            let w = choose|w: int|
                                0 <= w < j && tb@.take(j as int)[w] == t;
                            assert(tb@.take(j as int + 1)[w] == t);
                        }
                    }
                } else {
                    assert(!tb@.take(j as int + 1).contains(t)) by {
                        if tb@.take(j as int + 1).contains(t) {
                            let w = choose|w: int|
                                0 <= w < j + 1 && #[trigger] tb@.take(j as int + 1)[w] == t;
                            if w < j {
                                assert(tb@.take(j as int)[w] == t);
                            }
                        }
                    }
                }
            }
            j = j + 1;
        }
        proof {
            assert(tb@.take(nb as int) =~= tb@);
            lemma_match_count_take_step(ta@, tb@, i as int);
        }
        if found {
            hits = hits + 1;
        }
        i = i + 1;
    }
    proof {
        assert(ta@.take(total as int) =~= ta@);
        lemma_match_count_le(ta@, tb@);
    }
    Score { hits, total }
}

/// A record that a similarity query can run over: `search_term` hands out the
/// field that the given search type compares, and `term_view` is its
/// mathematical image.
pub trait FuzzyComparable {
    spec fn term_view(&self, st: SearchType) -> Seq<char>;

    fn search_term(&self, st: &SearchType) -> (r: &str)
        ensures
            r@ == self.term_view(*st),
    ;
}

/// The hit count of the query `q` against each record of `list` in turn.
/// Every score of one query shares the denominator `q.len() + 1`, so records
/// are ranked by these counts alone.
pub open spec fn hits_list<T: FuzzyComparable>(q: Seq<char>, list: Seq<T>, st: SearchType) -> Seq<
    int,
> {
    Seq::new(list.len(), |i: int| hits_of(q, list[i].term_view(st)) as int)
}

/// Where the stable descending ranking places a newly considered record `i`:
/// behind every already ranked record whose hit count is not strictly below
/// its own, so records with equal counts keep their input order.
pub open spec fn ranked_insert(r: Seq<int>, hs: Seq<int>, i: int) -> Seq<int>
    decreases r.len(),
{
    if r.len() == 0 {
        seq![i]
    } else if hs[r[0]] < hs[i] {
        seq![i] + r
    } else {
        seq![r[0]] + ranked_insert(r.drop_first(), hs, i)
    }
}

/// The stable descending ranking of the first `n` records.
pub open spec fn rank_prefix(hs: Seq<int>, n: int) -> Seq<int>
    decreases n,
{
    if n <= 0 {
        Seq::empty()
    } else {
        ranked_insert(rank_prefix(hs, n - 1), hs, n - 1)
    }
}

/// The stable descending ranking of all records with hit counts `hs`:
/// a permutation of `0 .. hs.len()`, ordered by falling hit count, records
/// with equal counts in input order.
pub open spec fn rank_of(hs: Seq<int>) -> Seq<int> {
    rank_prefix(hs, hs.len() as int)
}

/// Every entry of the ranking `r` is an index below `n`.
pub open spec fn rank_indices_ok(r: Seq<int>, n: int) -> bool {
    forall|k: int| 0 <= k < r.len() ==> 0 <= #[trigger] r[k] < n
}

/// The ranking `r` lists records by non-increasing hit count.
pub open spec fn rank_sorted(r: Seq<int>, hs: Seq<int>) -> bool {
    forall|a: int, b: int| 0 <= a < b < r.len() ==> hs[#[trigger] r[a]] >= hs[#[trigger] r[b]]
}

/// Records with equal hit counts appear in the ranking in input order.
pub open spec fn rank_stable(r: Seq<int>, hs: Seq<int>) -> bool {
    forall|a: int, b: int|
        0 <= a < b < r.len() && hs[#[trigger] r[a]] == hs[#[trigger] r[b]] ==> r[a] < r[b]
}

proof fn lemma_cons_contains(h: int, t: Seq<int>, x: int)
    ensures
        (seq![h] + t).contains(x) <==> (x == h || t.contains(x)),
{
    let c = seq![h] + t;
    if c.contains(x) {
        let k = choose|k: int| 0 <= k < c.len() && #[trigger] c[k] == x;
        if k != 0 {
            assert(t[k - 1] == x);
        }
    }
    if x == h {
        assert(c[0] == x);
    }
    if t.contains(x) {
        let m = choose|m: int| 0 <= m < t.len() && #[trigger] t[m] == x;
        assert(c[m + 1] == x);
    }
}

proof fn lemma_ranked_insert_props(r: Seq<int>, hs: Seq<int>, i: int)
    requires
        0 <= i,
        rank_indices_ok(r, i),
        r.no_duplicates(),
        rank_sorted(r, hs),
        rank_stable(r, hs),
    ensures
        ranked_insert(r, hs, i).len() == r.len() + 1,
        rank_indices_ok(ranked_insert(r, hs, i), i + 1),
        ranked_insert(r, hs, i).no_duplicates(),
        rank_sorted(ranked_insert(r, hs, i), hs),
        rank_stable(ranked_insert(r, hs, i), hs),
        forall|x: int| #[trigger]
            ranked_insert(r, hs, i).contains(x) <==> (r.contains(x) || x == i),
    decreases r.len(),
{
    let r2 = ranked_insert(r, hs, i);
    if r.len() == 0 {
        assert forall|x: int| #[trigger] r2.contains(x) <==> (r.contains(x) || x == i) by {
            if r2.contains(x) {
                let k = choose|k: int| 0 <= k < r2.len() && #[trigger] r2[k] == x;
                assert(x == i);
            }
            if x == i {
                assert(r2[0] == x);
            }
        }
    } else if hs[r[0]] < hs[i] {
        // the new record outranks the head: it goes in front
        assert forall|x: int| #[trigger] r2.contains(x) <==> (r.contains(x) || x == i) by {
            lemma_cons_contains(i, r, x);
        }
        assert forall|a: int, b: int| 0 <= a < b < r2.len() implies hs[#[trigger] r2[a]]
            >= hs[#[trigger] r2[b]] by {
            if a == 0 {
                assert(r2[b] == r[b - 1]);
                if b - 1 > 0 {
                    assert(hs[r[0]] >= hs[r[b - 1]]);
                }
            } else {
                assert(r2[a] == r[a - 1] && r2[b] == r[b - 1]);
            }
        }
        assert forall|a: int, b: int|
            0 <= a < b < r2.len() && hs[#[trigger] r2[a]] == hs[#[trigger] r2[b]] implies r2[a]
            < r2[b] by {
            if a == 0 {
                assert(r2[b] == r[b - 1]);
                if b - 1 > 0 {
                    assert(hs[r[0]] >= hs[r[b - 1]]);
                }
                assert(false);  // the head it displaced scores strictly lower
            } else {
                assert(r2[a] == r[a - 1] && r2[b] == r[b - 1]);
            }
        }
        assert forall|a: int, b: int|
            0 <= a < r2.len() && 0 <= b < r2.len() && a != b implies r2[a] != r2[b] by {
            if a == 0 {
                assert(r2[b] == r[b - 1] && r[b - 1] < i);
            } else if b == 0 {
                assert(r2[a] == r[a - 1] && r[a - 1] < i);
            } else {
                assert(r2[a] == r[a - 1] && r2[b] == r[b - 1]);
            }
        }
    } else {
        let rd = r.drop_first();
        let t2 = ranked_insert(rd, hs, i);
        assert forall|a: int, b: int|
            0 <= a < b < rd.len() && hs[#[trigger] rd[a]] == hs[#[trigger] rd[b]] implies rd[a]
            < rd[b] by {
            assert(rd[a] == r[a + 1] && rd[b] == r[b + 1]);
        }
        assert forall|a: int, b: int| 0 <= a < b < rd.len() implies hs[#[trigger] rd[a]]
            >= hs[#[trigger] rd[b]] by {
            assert(rd[a] == r[a + 1] && rd[b] == r[b + 1]);
        }
        lemma_ranked_insert_props(rd, hs, i);
        assert(r2 == seq![r[0]] + t2);
        assert forall|x: int| #[trigger] r2.contains(x) <==> (r.contains(x) || x == i) by {
            lemma_cons_contains(r[0], t2, x);
            lemma_cons_contains(r[0], rd, x);
            assert(r =~= seq![r[0]] + rd);
        }
        assert forall|k: int| 0 <= k < r2.len() implies 0 <= #[trigger] r2[k] < i + 1 by {
            if k > 0 {
                assert(t2.contains(t2[k - 1]));
                assert(r2[k] == t2[k - 1]);
            }
        }
        // the head keeps its place before everything inserted behind it
        assert forall|a: int, b: int| 0 <= a < b < r2.len() implies hs[#[trigger] r2[a]]
            >= hs[#[trigger] r2[b]] by {
            if a == 0 {
                assert(r2[b] == t2[b - 1]);
                assert(t2.contains(t2[b - 1]));
                if t2[b - 1] == i {
                    assert(hs[r[0]] >= hs[i]);
                } else {
                    assert(rd.contains(t2[b - 1]));
                    let m = choose|m: int| 0 <= m < rd.len() && #[trigger] rd[m] == t2[b - 1];
                    assert(rd[m] == r[m + 1]);
                    assert(hs[r[0]] >= hs[r[m + 1]]);
                }
            } else {
                assert(r2[a] == t2[a - 1] && r2[b] == t2[b - 1]);
            }
        }
        assert forall|a: int, b: int|
            0 <= a < b < r2.len() && hs[#[trigger] r2[a]] == hs[#[trigger] r2[b]] implies r2[a]
            < r2[b] by {
            if a == 0 {
                assert(r2[b] == t2[b - 1]);
                assert(t2.contains(t2[b - 1]));
                if t2[b - 1] == i {
                    assert(r[0] < i);
                } else {
                    assert(rd.contains(t2[b - 1]));
                    let m = choose|m: int| 0 <= m < rd.len() && #[trigger] rd[m] == t2[b - 1];
                    assert(rd[m] == r[m + 1]);
                    assert(hs[r[0]] == hs[r[m + 1]] ==> r[0] < r[m + 1]);
                }
            } else {
                assert(r2[a] == t2[a - 1] && r2[b] == t2[b - 1]);
            }
        }
        assert forall|a: int, b: int|
            0 <= a < r2.len() && 0 <= b < r2.len() && a != b implies r2[a] != r2[b] by {
            if a == 0 || b == 0 {
                let c = if a == 0 { b } else { a };
                assert(r2[c] == t2[c - 1]);
                assert(t2.contains(t2[c - 1]));
                if t2[c - 1] == i {
                    assert(r[0] < i);
                } else {
                    assert(rd.contains(t2[c - 1]));
                    let m = choose|m: int| 0 <= m < rd.len() && #[trigger] rd[m] == t2[c - 1];
                    assert(rd[m] == r[m + 1]);
                }
            } else {
                assert(r2[a] == t2[a - 1] && r2[b] == t2[b - 1]);
            }
        }
    }
}

proof fn lemma_rank_prefix_props(hs: Seq<int>, n: int)
    requires
        0 <= n,
    ensures
        rank_prefix(hs, n).len() == n,
        rank_indices_ok(rank_prefix(hs, n), n),
        rank_prefix(hs, n).no_duplicates(),
        rank_sorted(rank_prefix(hs, n), hs),
        rank_stable(rank_prefix(hs, n), hs),
        forall|x: int| #[trigger] rank_prefix(hs, n).contains(x) <==> 0 <= x < n,
    decreases n,
{
    if n > 0 {
        lemma_rank_prefix_props(hs, n - 1);
        lemma_ranked_insert_props(rank_prefix(hs, n - 1), hs, n - 1);
    } else {
        assert forall|x: int| #[trigger] rank_prefix(hs, n).contains(x) <==> 0 <= x < n by {
            if rank_prefix(hs, n).contains(x) {
                let k = choose|k: int|
                    0 <= k < rank_prefix(hs, n).len() && #[trigger] rank_prefix(hs, n)[k] == x;
            }
        }
    }
}

/// The ranking of hit counts `hs` is a permutation of all the input
/// positions, lists them by non-increasing hit count, and is stable:
/// two records with equal hit counts appear in their input order.
pub proof fn lemma_rank_of_properties(hs: Seq<int>)
    ensures
        rank_of(hs).len() == hs.len(),
        rank_indices_ok(rank_of(hs), hs.len() as int),
        rank_of(hs).no_duplicates(),
        rank_sorted(rank_of(hs), hs),
        rank_stable(rank_of(hs), hs),
        forall|x: int| #[trigger] rank_of(hs).contains(x) <==> 0 <= x < hs.len(),
{
    lemma_rank_prefix_props(hs, hs.len() as int);
}

proof fn lemma_ranked_insert_at(r: Seq<int>, hs: Seq<int>, i: int, pos: int)
    requires
        0 <= pos <= r.len(),
        forall|k: int| 0 <= k < pos ==> !(hs[#[trigger] r[k]] < hs[i]),
        pos < r.len() ==> hs[r[pos]] < hs[i],
    ensures
        ranked_insert(r, hs, i) == r.insert(pos, i),
    decreases r.len(),
{
    if r.len() == 0 {
        assert(r.insert(0, i) =~= seq![i]);
    } else if pos == 0 {
        assert(hs[r[0]] < hs[i]);
        assert(r.insert(0, i) =~= seq![i] + r);
    } else {
        assert(!(hs[r[0]] < hs[i]));
        let rd = r.drop_first();
        assert(forall|k: int| 0 <= k < pos - 1 ==> !(hs[#[trigger] rd[k]] < hs[i]));
        lemma_ranked_insert_at(rd, hs, i, pos - 1);
        assert(seq![r[0]] + rd.insert(pos - 1, i) =~= r.insert(pos, i));
    }
}

/// Scores every record of `list` against `s`, in input order: entry `i`
/// carries the record's position and its exact score.
pub fn fuzzy_search<T: FuzzyComparable>(s: &str, list: &[T], st: &SearchType) -> (r: Vec<
    (usize, Score),
>)
    ensures
        r@.len() == list@.len(),
        forall|k: int|
            0 <= k < r@.len() ==> (#[trigger] r@[k]).0 == k && r@[k].1.hits == hits_list(
                s@,
                list@,
                *st,
            )[k] && r@[k].1.total == s@.len() + 1,
{
    let n: usize = list.len();
    let mut r: Vec<(usize, Score)> = Vec::new();
    let mut i: usize = 0;
    while i < n
        invariant
            n == list@.len(),
            i <= n,
            r@.len() == i,
            forall|k: int|
                0 <= k < i ==> (#[trigger] r@[k]).0 == k && r@[k].1.hits == hits_list(
                    s@,
                    list@,
                    *st,
                )[k] && r@[k].1.total == s@.len() + 1,
        decreases n - i,
    {
        let sc = fuzzy_compare(s, list[i].search_term(st));
        r.push((i, sc));
        i = i + 1;
    }
    r
}

/// Scores every record of `list` against `s` and ranks them stably by
/// falling score: the returned positions are exactly `rank_of` of the hit
/// counts, and each entry carries the exact score of the record it names.
pub fn fuzzy_search_sorted<T: FuzzyComparable>(s: &str, list: &[T], st: &SearchType) -> (r: Vec<
    (usize, Score),
>)
    ensures
        r@.len() == list@.len(),
        r@.map_values(|p: (usize, Score)| p.0 as int) == rank_of(hits_list(s@, list@, *st)),
        forall|k: int|
            0 <= k < r@.len() ==> (#[trigger] r@[k]).0 < list@.len() && r@[k].1.hits == hits_list(
                s@,
                list@,
                *st,
            )[r@[k].0 as int] && r@[k].1.total == s@.len() + 1,
{
    let scored = fuzzy_search(s, list, st);
    let ghost hs = hits_list(s@, list@, *st);
    let n: usize = scored.len();
    let mut res: Vec<(usize, Score)> = Vec::new();
    let mut i: usize = 0;
    while i < n
        invariant
            n == list@.len(),
            scored@.len() == n,
            hs == hits_list(s@, list@, *st),
            forall|k: int|
                0 <= k < n ==> (#[trigger] scored@[k]).0 == k && scored@[k].1.hits == hs[k]
                    && scored@[k].1.total == s@.len() + 1,
            i <= n,
            res@.len() == i,
            res@.map_values(|p: (usize, Score)| p.0 as int) == rank_prefix(hs, i as int),
            forall|k: int|
                0 <= k < i ==> (#[trigger] res@[k]).0 < n && res@[k].1.hits == hs[res@[k].0 as int]
                    && res@[k].1.total == s@.len() + 1,
        decreases n - i,
    {
        let item = scored[i];
        let len: usize = res.len();
        let mut pos: usize = 0;
        while pos < len && res[pos].1.hits >= item.1.hits
            invariant
                len == res@.len(),
                pos <= len,
                forall|k: int| 0 <= k < pos ==> (#[trigger] res@[k]).1.hits >= item.1.hits,
            decreases len - pos,
        {
            pos = pos + 1;
        }
        proof {
            let rp = rank_prefix(hs, i as int);
            assert(rp == res@.map_values(|p: (usize, Score)| p.0 as int));
            assert forall|k: int| 0 <= k < pos implies !(hs[#[trigger] rp[k]] < hs[i as int]) by {
                assert(rp[k] == res@[k].0 as int);
                assert(res@[k].1.hits == hs[res@[k].0 as int]);
                assert(scored@[i as int].1.hits == hs[i as int]);
            }
            if pos < len {
                assert(rp[pos as int] == res@[pos as int].0 as int);
                assert(hs[rp[pos as int]] < hs[i as int]);
            }
            lemma_ranked_insert_at(rp, hs, i as int, pos as int);
        }
        res.insert(pos, item);
        proof {
            assert(res@.map_values(|p: (usize, Score)| p.0 as int) =~= rank_prefix(
                hs,
                i as int,
            ).insert(pos as int, i as int));
            assert(res@.map_values(|p: (usize, Score)| p.0 as int) == rank_prefix(
                hs,
                i as int + 1,
            ));
        }
        i = i + 1;
    }
    proof {
        assert(rank_prefix(hs, n as int) == rank_of(hs));
    }
    res
}

/// The `n` best-ranked records: the ranking of `fuzzy_search_sorted` cut to
/// at most `n` entries.  The result holds exactly
/// `min(n, list.len())` entries: fewer than `n` only when fewer records
/// exist.
pub fn fuzzy_search_best_n<T: FuzzyComparable>(
    s: &str,
    list: &[T],
    n: usize,
    st: &SearchType,
) -> (r: Vec<(usize, Score)>)
    ensures
        r@.len() == if n <= list@.len() {
            n as int
        } else {
            list@.len() as int
        },
        r@.map_values(|p: (usize, Score)| p.0 as int) == rank_of(hits_list(s@, list@, *st)).take(
            r@.len() as int,
        ),
        forall|k: int|
            0 <= k < r@.len() ==> (#[trigger] r@[k]).0 < list@.len() && r@[k].1.hits == hits_list(
                s@,
                list@,
                *st,
            )[r@[k].0 as int] && r@[k].1.total == s@.len() + 1,
{
    let mut r = fuzzy_search_sorted(s, list, st);
    r.truncate(n);
    proof {
        assert(r@.map_values(|p: (usize, Score)| p.0 as int) =~= rank_of(
            hits_list(s@, list@, *st),
        ).take(r@.len() as int));
    }
    r
}

} // verus!
