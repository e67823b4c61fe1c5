//! The order of search results.
use vstd::prelude::*;
use vstd::relations::{sorted_by, total_ordering};

use crate::score::Score;

verus! {

/// A found memory: its score, its identifier and its place in the store.
#[derive(Debug, Clone, Copy, PartialEq, Eq, Structural)]
pub struct Hit {
    pub score: Score,
    pub id: i64,
    pub index: usize,
}

/// Whether `a` goes before `b`, or is `b`: the higher score first and, of equal scores, the later
/// memory. Hits that agree in both are ordered by their bits and places.
pub open spec fn goes_first(a: Hit, b: Hit) -> bool {
    let (p, q) = (a.score.place(), b.score.place());
    ||| p > q
    ||| p == q && a.id > b.id
    ||| p == q && a.id == b.id && a.score.bits > b.score.bits
    ||| p == q && a.id == b.id && a.score.bits == b.score.bits && a.index >= b.index
}

/// The order of search results.
pub open spec fn hit_order() -> spec_fn(Hit, Hit) -> bool {
    |a: Hit, b: Hit| goes_first(a, b)
}

/// The hits in the order of search results.
pub open spec fn ranked(hits: Seq<Hit>) -> Seq<Hit> {
    hits.sort_by(hit_order())
}

/// What is left of a list after `offset` of its items, at most `limit`.
pub open spec fn page<T>(list: Seq<T>, offset: int, limit: int) -> Seq<T> {
    let from = if offset < list.len() {
        offset
    } else {
        list.len() as int
    };
    let to = if from + limit < list.len() {
        from + limit
    } else {
        list.len() as int
    };
    list.subrange(from, to)
}

/// The order of search results is total.
pub proof fn law_hit_order_is_total()
    ensures
        total_ordering(hit_order()),
{
    let order = hit_order();
    assert forall|a: Hit, b: Hit| #[trigger] order(a, b) && #[trigger] order(b, a) implies a
        == b by {
        assert(a.score == b.score);
    }
}

fn before(a: &Hit, b: &Hit) -> (r: bool)
    ensures
        r == goes_first(*a, *b),
{
    let p: i64 = a.score.rank();
    let q: i64 = b.score.rank();
    if p != q {
        p > q
    } else if a.id != b.id {
        a.id > b.id
    } else if a.score.bits != b.score.bits {
        a.score.bits > b.score.bits
    } else {
        a.index >= b.index
    }
}

/// Puts `hit` into a sorted list.
fn insert_hit(hits: &mut Vec<Hit>, hit: Hit)
    requires
        sorted_by(old(hits)@, hit_order()),
    ensures
        sorted_by(final(hits)@, hit_order()),
        final(hits)@.to_multiset() == old(hits)@.to_multiset().insert(hit),
        final(hits)@.len() == old(hits)@.len() + 1,
{
    let mut at: usize = 0;
    while at < hits.len() && before(&hits[at], &hit)
        invariant
            at <= hits@.len(),
            forall|i: int| 0 <= i < at ==> goes_first(#[trigger] hits@[i], hit),
        decreases hits@.len() - at,
    {
        at = at + 1;
    }
    let ghost s = hits@;
    hits.insert(at, hit);
    proof {
        let order = hit_order();
        assert forall|i: int, j: int| 0 <= i < j < hits@.len() implies #[trigger] order(
            hits@[i],
            hits@[j],
        ) by {
            if i < at && j < at {
                assert(order(s[i], s[j]));
            } else if i < at && j == at {
                assert(goes_first(s[i], hit));
            } else if i < at {
                assert(order(s[i], s[j - 1]));
            } else if i == at {
                if j - 1 > at {
                    assert(order(s[at as int], s[j - 1]));
                }
                assert(!goes_first(s[at as int], hit));
            } else {
                assert(order(s[i - 1], s[j - 1]));
            }
        }
        lemma_insert_multiset(s, at as int, hit);
    }
}

proof fn lemma_insert_multiset(s: Seq<Hit>, at: int, hit: Hit)
    requires
        0 <= at <= s.len(),
    ensures
        s.insert(at, hit).to_multiset() == s.to_multiset().insert(hit),
{
    broadcast use vstd::seq_lib::group_to_multiset_ensures;

    let left = s.take(at);
    let right = s.skip(at);
    assert(s =~= left + right);
    assert(s.insert(at, hit) =~= left + (seq![hit] + right));
    assert(seq![hit] + right =~= seq![hit].add(right));
    vstd::seq_lib::lemma_multiset_commutative(left, right);
    vstd::seq_lib::lemma_multiset_commutative(left, seq![hit] + right);
    vstd::seq_lib::lemma_multiset_commutative(seq![hit], right);
    assert(seq![hit].to_multiset() =~= vstd::multiset::Multiset::empty().insert(hit)) by {
        assert(seq![hit] =~= Seq::<Hit>::empty().push(hit));
    }
    assert(s.insert(at, hit).to_multiset() =~= s.to_multiset().insert(hit));
}

/// The hits in the order of search results.
pub fn rank_hits(hits: &Vec<Hit>) -> (r: Vec<Hit>)
    ensures
        r@ == ranked(hits@),
{
    broadcast use vstd::seq_lib::group_to_multiset_ensures;

    let mut out: Vec<Hit> = Vec::new();
    let mut i: usize = 0;
    proof {
        assert(hits@.take(0) =~= Seq::empty());
        assert(out@ =~= Seq::empty());
    }
    while i < hits.len()
        invariant
            i <= hits@.len(),
            sorted_by(out@, hit_order()),
            out@.to_multiset() == hits@.take(i as int).to_multiset(),
        decreases hits@.len() - i,
    {
        let hit = hits[i];
        insert_hit(&mut out, hit);
        i = i + 1;
        proof {
            broadcast use vstd::seq_lib::group_to_multiset_ensures;

            assert(hits@.take(i as int) =~= hits@.take(i - 1).push(hit));
        }
    }
    proof {
        assert(hits@.take(i as int) =~= hits@);
        law_hit_order_is_total();
        hits@.lemma_sort_by_ensures(hit_order());
        vstd::seq_lib::lemma_sorted_unique(out@, ranked(hits@), hit_order());
    }
    out
}

/// Ranking orders the hits and neither loses nor adds any.
pub proof fn law_ranking(hits: Seq<Hit>)
    ensures
        ranked(hits).len() == hits.len(),
        ranked(hits).to_multiset() == hits.to_multiset(),
        forall|i: int, j: int|
            0 <= i < j < hits.len() ==> goes_first(
                #[trigger] ranked(hits)[i],
                #[trigger] ranked(hits)[j],
            ),
        forall|i: int| 0 <= i < hits.len() ==> hits.contains(#[trigger] ranked(hits)[i]),
        forall|i: int| 0 <= i < hits.len() ==> ranked(hits).contains(#[trigger] hits[i]),
{
    broadcast use vstd::seq_lib::group_to_multiset_ensures;

    law_hit_order_is_total();
    hits.lemma_sort_by_ensures(hit_order());
    let order = hit_order();
    let r = ranked(hits);
    assert(hits.to_multiset().len() == r.to_multiset().len());
    assert forall|i: int, j: int| 0 <= i < j < hits.len() implies goes_first(
        #[trigger] r[i],
        #[trigger] r[j],
    ) by {
        assert(order(r[i], r[j]));
    }
    assert forall|i: int| 0 <= i < hits.len() implies hits.contains(#[trigger] r[i]) by {
        assert(r.contains(r[i]));
        assert(r.to_multiset().count(r[i]) > 0);
    }
    assert forall|i: int| 0 <= i < hits.len() implies r.contains(#[trigger] hits[i]) by {
        assert(hits.contains(hits[i]));
        assert(hits.to_multiset().count(hits[i]) > 0);
    }
}

/// A page followed by the next one is the page of both lengths: paging through a list gives
/// each of its items once, in order.
pub proof fn law_pages_join<T>(list: Seq<T>, offset: int, first: int, second: int)
    requires
        0 <= offset,
        0 <= first,
        0 <= second,
    ensures
        page(list, offset, first) + page(list, offset + first, second) == page(
            list,
            offset,
            first + second,
        ),
        page(list, 0, list.len() as int) == list,
        page(list, offset, first).len() <= first,
{
    assert(page(list, offset, first) + page(list, offset + first, second) =~= page(
        list,
        offset,
        first + second,
    ));
    assert(page(list, 0, list.len() as int) =~= list);
}

} // verus!
