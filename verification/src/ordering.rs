use vstd::prelude::*;

verus! {

/// Values ranked by score, highest first, ties broken by a second key, lowest
/// first (for proposals: their creation time, oldest first).
pub trait RankKeyed: Sized {
    spec fn spec_score(&self) -> int;

    spec fn spec_tiebreak(&self) -> int;

    fn score(&self) -> (r: i64)
        ensures
            r == self.spec_score(),
    ;

    fn tiebreak(&self) -> (r: i64)
        ensures
            r == self.spec_tiebreak(),
    ;
}

/// `a` may stand before `b`: a higher score, or the same score and a tiebreak
/// that is not larger.
pub open spec fn ranks_before<T: RankKeyed>(a: T, b: T) -> bool {
    a.spec_score() > b.spec_score() || (a.spec_score() == b.spec_score() && a.spec_tiebreak()
        <= b.spec_tiebreak())
}

/// Every element may stand before every later one.
pub open spec fn rank_sorted<T: RankKeyed>(s: Seq<T>) -> bool {
    forall|i: int, j: int| 0 <= i < j < s.len() ==> ranks_before(#[trigger] s[i], #[trigger] s[j])
}

/// The elements of `s` whose score is `sc` and tiebreak `tb`, in their order in `s`.
pub open spec fn key_class<T: RankKeyed>(s: Seq<T>, sc: int, tb: int) -> Seq<T>
    decreases s.len(),
{
    if s.len() == 0 {
        Seq::empty()
    } else {
        let rest = key_class(s.drop_last(), sc, tb);
        if s.last().spec_score() == sc && s.last().spec_tiebreak() == tb {
            rest.push(s.last())
        } else {
            rest
        }
    }
}

/// `out` is `input` sorted by rank, stably: elements with equal keys keep their
/// relative order.
pub open spec fn stable_rank_sort_of<T: RankKeyed>(input: Seq<T>, out: Seq<T>) -> bool {
    &&& out.len() == input.len()
    &&& rank_sorted(out)
    &&& forall|sc: int, tb: int| #[trigger] key_class(out, sc, tb) == key_class(input, sc, tb)
}

proof fn lemma_key_class_add<T: RankKeyed>(a: Seq<T>, b: Seq<T>, sc: int, tb: int)
    ensures
        key_class(a + b, sc, tb) == key_class(a, sc, tb) + key_class(b, sc, tb),
    decreases b.len(),
{
    if b.len() == 0 {
        assert(a + b =~= a);
        assert(key_class(a, sc, tb) + key_class(b, sc, tb) =~= key_class(a, sc, tb));
    } else {
        lemma_key_class_add(a, b.drop_last(), sc, tb);
        assert((a + b).drop_last() =~= a + b.drop_last());
        assert((a + b).last() == b.last());
        let ka = key_class(a, sc, tb);
        let kb = key_class(b.drop_last(), sc, tb);
        if b.last().spec_score() == sc && b.last().spec_tiebreak() == tb {
            assert(ka + kb.push(b.last()) =~= (ka + kb).push(b.last()));
        }
    }
}

proof fn lemma_key_class_none<T: RankKeyed>(s: Seq<T>, sc: int, tb: int)
    requires
        forall|t: int| 0 <= t < s.len() ==> !((#[trigger] s[t]).spec_score() == sc && s[t].spec_tiebreak() == tb),
    ensures
        key_class(s, sc, tb) == Seq::<T>::empty(),
    decreases s.len(),
{
    if s.len() > 0 {
        assert forall|t: int| 0 <= t < s.drop_last().len() implies !((#[trigger] s.drop_last()[t]).spec_score() == sc
            && s.drop_last()[t].spec_tiebreak() == tb) by {
            assert(s.drop_last()[t] == s[t]);
        }
        lemma_key_class_none(s.drop_last(), sc, tb);
    }
}

/// Inserting `x` after every element that may stand before it, into a sorted
/// sequence, keeps it sorted and appends `x` to its key class.
proof fn lemma_insert_sorted<T: RankKeyed>(out: Seq<T>, j: int, x: T)
    requires
        rank_sorted(out),
        0 <= j <= out.len(),
        forall|t: int| 0 <= t < j ==> ranks_before(#[trigger] out[t], x),
        forall|t: int| j <= t < out.len() ==> !ranks_before(#[trigger] out[t], x),
    ensures
        rank_sorted(out.insert(j, x)),
        forall|sc: int, tb: int|
            #[trigger] key_class(out.insert(j, x), sc, tb) == if x.spec_score() == sc && x.spec_tiebreak() == tb {
                key_class(out, sc, tb).push(x)
            } else {
                key_class(out, sc, tb)
            },
{
    let n = out.insert(j, x);
    assert forall|a: int, b: int| 0 <= a < b < n.len() implies ranks_before(#[trigger] n[a], #[trigger] n[b]) by {
        if b < j {
            assert(n[a] == out[a] && n[b] == out[b]);
        } else if b == j {
            assert(n[a] == out[a]);
        } else if a < j {
            assert(n[a] == out[a] && n[b] == out[b - 1]);
        } else if a == j {
            assert(n[b] == out[b - 1]);
            assert(!ranks_before(out[b - 1], x));
        } else {
            assert(n[a] == out[a - 1] && n[b] == out[b - 1]);
        }
    }
    assert forall|sc: int, tb: int|
        #[trigger] key_class(n, sc, tb) == if x.spec_score() == sc && x.spec_tiebreak() == tb {
            key_class(out, sc, tb).push(x)
        } else {
            key_class(out, sc, tb)
        } by {
        let pre = out.take(j);
        let post = out.skip(j);
        assert(out =~= pre + post);
        assert(n =~= pre.push(x) + post);
        lemma_key_class_add(pre.push(x), post, sc, tb);
        lemma_key_class_add(pre, post, sc, tb);
        assert(pre.push(x).drop_last() =~= pre);
        if x.spec_score() == sc && x.spec_tiebreak() == tb {
            assert forall|t: int| 0 <= t < post.len() implies !((#[trigger] post[t]).spec_score() == sc
                && post[t].spec_tiebreak() == tb) by {
                assert(post[t] == out[t + j]);
            }
            lemma_key_class_none(post, sc, tb);
            assert(key_class(pre, sc, tb) + key_class(post, sc, tb) =~= key_class(pre, sc, tb));
            assert(key_class(pre.push(x), sc, tb) + key_class(post, sc, tb) =~= key_class(pre, sc, tb).push(x));
        }
    }
}

/// Sorts by rank (score descending, then tiebreak ascending), keeping the
/// original order among equal keys.
pub fn stable_sort_by_rank<T: RankKeyed>(items: Vec<T>) -> (out: Vec<T>)
    ensures
        stable_rank_sort_of(items@, out@),
{
    let mut out: Vec<T> = Vec::new();
    for x in it: items.into_iter()
        invariant
            it.seq() == items@,
            out@.len() == it.index(),
            rank_sorted(out@),
            forall|sc: int, tb: int| #[trigger] key_class(out@, sc, tb) == key_class(items@.take(it.index() as int), sc, tb),
    {
        let ghost i = it.index() as int;
        let ghost before = out@;
        let xs = x.score();
        let xt = x.tiebreak();
        let mut j: usize = 0;
        while j < out.len() && (out[j].score() > xs || (out[j].score() == xs && out[j].tiebreak() <= xt))
            invariant
                out@ == before,
                j <= out@.len(),
                xs == x.spec_score(),
                xt == x.spec_tiebreak(),
                forall|t: int| 0 <= t < j ==> ranks_before(#[trigger] out@[t], x),
            decreases out@.len() - j,
        {
            j += 1;
        }
        proof {
            assert forall|t: int| j <= t < out@.len() implies !ranks_before(#[trigger] out@[t], x) by {
                if j < out@.len() {
                    assert(!ranks_before(out@[j as int], x));
                    if t > j {
                        assert(ranks_before(out@[j as int], out@[t]));
                    }
                }
            }
            lemma_insert_sorted(before, j as int, x);
            assert(items@.take(i + 1).drop_last() =~= items@.take(i));
            assert(items@.take(i + 1).last() == x);
        }
        out.insert(j, x);
    }
    proof {
        assert(items@.take(items@.len() as int) =~= items@);
    }
    out
}


/// In a ranked sequence the first element has the highest score, and an
/// element with a strictly higher score always comes earlier.
pub proof fn lemma_ranked_order<T: RankKeyed>(s: Seq<T>, i: int, j: int)
    requires
        rank_sorted(s),
        0 <= i < s.len(),
        0 <= j < s.len(),
    ensures
        s[0].spec_score() >= s[i].spec_score(),
        s[i].spec_score() > s[j].spec_score() ==> i < j,
{
    if i > 0 {
        assert(ranks_before(s[0], s[i]));
    }
    if s[i].spec_score() > s[j].spec_score() && j <= i {
        if j < i {
            assert(ranks_before(s[j], s[i]));
        }
    }
}

/// Ranked values that carry their own 1-based rank position.
pub trait RankPositioned: RankKeyed {
    spec fn spec_rank_position(&self) -> int;

    /// The value with its rank position cleared.
    spec fn spec_unranked(&self) -> Self;

    /// Clearing the rank position keeps the ranking keys.
    proof fn lemma_unranked_keys(&self)
        ensures
            self.spec_unranked().spec_score() == self.spec_score(),
            self.spec_unranked().spec_tiebreak() == self.spec_tiebreak(),
    ;

    fn set_rank_position(&mut self, r: i64)
        ensures
            final(self).spec_rank_position() == r,
            final(self).spec_unranked() == old(self).spec_unranked(),
    ;
}

/// The values of `s` with their rank positions cleared.
pub open spec fn unranked_seq<T: RankPositioned>(s: Seq<T>) -> Seq<T> {
    s.map_values(|x: T| x.spec_unranked())
}

proof fn lemma_key_class_unranked<T: RankPositioned>(s: Seq<T>, sc: int, tb: int)
    ensures
        key_class(unranked_seq(s), sc, tb) == unranked_seq(key_class(s, sc, tb)),
    decreases s.len(),
{
    if s.len() > 0 {
        lemma_key_class_unranked(s.drop_last(), sc, tb);
        assert(unranked_seq(s).drop_last() =~= unranked_seq(s.drop_last()));
        s.last().lemma_unranked_keys();
        assert(unranked_seq(s).last() == s.last().spec_unranked());
        let k = key_class(s.drop_last(), sc, tb);
        assert(unranked_seq(k.push(s.last())) =~= unranked_seq(k).push(s.last().spec_unranked()));
    } else {
        assert(unranked_seq(s) =~= Seq::<T>::empty());
        assert(unranked_seq(key_class(s, sc, tb)) =~= Seq::<T>::empty());
    }
}

/// Sorts by rank, stably, and numbers the result `1, 2, ...` in order.
pub fn sort_and_rank<T: RankPositioned>(items: Vec<T>) -> (out: Vec<T>)
    requires
        items@.len() < i64::MAX,
    ensures
        out@.len() == items@.len(),
        forall|i: int| 0 <= i < out@.len() ==> (#[trigger] out@[i]).spec_rank_position() == i + 1,
        stable_rank_sort_of(unranked_seq(items@), unranked_seq(out@)),
{
    let sorted = stable_sort_by_rank(items);
    let ghost sorted_v = sorted@;
    let mut out: Vec<T> = Vec::new();
    for x in it: sorted.into_iter()
        invariant
            it.seq() == sorted_v,
            sorted_v.len() == items@.len(),
            items@.len() < i64::MAX,
            out@.len() == it.index(),
            forall|i: int| 0 <= i < out@.len() ==> (#[trigger] out@[i]).spec_rank_position() == i + 1,
            forall|i: int| 0 <= i < out@.len() ==> (#[trigger] out@[i]).spec_unranked() == sorted_v[i].spec_unranked(),
    {
        let mut y = x;
        let pos = out.len() as i64 + 1;
        y.set_rank_position(pos);
        out.push(y);
    }
    proof {
        let us = unranked_seq(sorted_v);
        let uo = unranked_seq(out@);
        assert(uo =~= us);
        assert forall|a: int, b: int| 0 <= a < b < us.len() implies ranks_before(#[trigger] us[a], #[trigger] us[b]) by {
            sorted_v[a].lemma_unranked_keys();
            sorted_v[b].lemma_unranked_keys();
            assert(ranks_before(sorted_v[a], sorted_v[b]));
        }
        assert forall|sc: int, tb: int| #[trigger] key_class(uo, sc, tb) == key_class(unranked_seq(items@), sc, tb) by {
            lemma_key_class_unranked(sorted_v, sc, tb);
            lemma_key_class_unranked(items@, sc, tb);
            assert(key_class(sorted_v, sc, tb) == key_class(items@, sc, tb));
        }
    }
    out
}

} // verus!
