//! The tags in use, and how often each comes up.
use vstd::prelude::*;

use crate::expiration::borrowed;
use crate::input::{given_ref, World};
use crate::model::texts;
use crate::record::{MemoryStore, RecordModel, TagSummary};
use crate::score::Score;
use crate::text::{before, contains_text, has_text, law_text_order, lower, lowered, same_text, text_before, trimmed};

verus! {

/// The bits of 0.2: a tag at least that similar to a filter passes it.
pub const SIMILAR_TAG_BITS: u32 = 0x3e4c_cccd;

/// A count as it is listed: where it does not fit, the largest that does.
pub open spec fn capped(count: int) -> int {
    if count <= i64::MAX {
        count
    } else {
        i64::MAX as int
    }
}

/// Whether a tag is as similar to the filter as it must be, by a list of tags and their
/// similarities. A tag that is not listed is not.
pub open spec fn similar_enough(tag: Seq<char>, similar: Seq<(String, Score)>) -> bool {
    exists|i: int|
        0 <= i < similar.len() && (#[trigger] similar[i]).0@ == tag && similar[i].1.at_least(
            Score { bits: SIMILAR_TAG_BITS },
        )
}

/// Whether a tag passes a filter: the filter in small letters occurs in it, or it is similar. A
/// filter that is not given, or blank, lets every tag pass.
pub open spec fn passes(
    tag: Seq<char>,
    filter: Option<Seq<char>>,
    similar: Seq<(String, Score)>,
) -> bool {
    match given_ref(filter) {
        None => true,
        Some(filter) => contains_text(tag, lower(filter)) || similar_enough(tag, similar),
    }
}

/// How often `tag` comes up in a list of tags.
pub open spec fn occurrences(tags: Seq<Seq<char>>, tag: Seq<char>) -> int
    decreases tags.len(),
{
    if tags.len() == 0 {
        0
    } else {
        occurrences(tags.drop_last(), tag) + if tags.last() == tag {
            1int
        } else {
            0int
        }
    }
}

/// How often `tag` comes up among the memories that are still there.
pub open spec fn uses(memories: Seq<RecordModel>, tag: Seq<char>, world: World) -> int
    decreases memories.len(),
{
    if memories.len() == 0 {
        0
    } else {
        uses(memories.drop_last(), tag, world) + if memories.last().live(world) {
            occurrences(memories.last().tags, tag)
        } else {
            0
        }
    }
}

/// Whether a list of tags is in order, has each tag once, and says how often each comes up by
/// `count`: the tags that do come up are all there.
pub open spec fn summarizes(list: Seq<TagSummary>, count: spec_fn(Seq<char>) -> int) -> bool {
    &&& forall|i: int, j: int|
        0 <= i < j < list.len() ==> before((#[trigger] list[i]).tag@, (#[trigger] list[j]).tag@)
    &&& forall|i: int|
        0 <= i < list.len() ==> (#[trigger] list[i]).count == capped(count(list[i].tag@)) && count(
            list[i].tag@,
        ) > 0
    &&& forall|tag: Seq<char>| #[trigger]
        count(tag) > 0 ==> exists|i: int| 0 <= i < list.len() && (#[trigger] list[i]).tag@ == tag
}

/// How often `tag` comes up among the memories that are still there, if it passes the filter.
pub open spec fn filtered_uses(
    memories: Seq<RecordModel>,
    filter: Option<Seq<char>>,
    similar: Seq<(String, Score)>,
    world: World,
) -> spec_fn(Seq<char>) -> int {
    |tag: Seq<char>|
        if passes(tag, filter, similar) {
            uses(memories, tag, world)
        } else {
            0
        }
}

/// Whether a tag is as similar to the filter as it must be.
fn is_similar(tag: &str, similar: &Vec<(String, Score)>) -> (r: bool)
    ensures
        r == similar_enough(tag@, similar@),
{
    let mut i: usize = 0;
    while i < similar.len()
        invariant
            i <= similar@.len(),
            forall|j: int|
                0 <= j < i ==> !((#[trigger] similar@[j]).0@ == tag@ && similar@[j].1.at_least(
                    Score { bits: SIMILAR_TAG_BITS },
                )),
        decreases similar@.len() - i,
    {
        if same_text(&similar[i].0, tag) && similar[i].1.reaches(
            Score { bits: SIMILAR_TAG_BITS },
        ) {
            return true;
        }
        i = i + 1;
    }
    false
}

/// Whether a tag passes a filter.
pub fn tag_passes(tag: &str, filter: Option<&str>, similar: &Vec<(String, Score)>) -> (r: bool)
    ensures
        r == passes(tag@, borrowed(filter), similar@),
{
    let filter = match filter {
        None => return true,
        Some(filter) => trimmed(filter),
    };
    if filter.as_str().is_empty() {
        return true;
    }
    has_text(tag, &lowered(&filter)) || is_similar(tag, similar)
}

/// Counts one more occurrence of `tag`.
fn count_tag(
    list: &mut Vec<TagSummary>,
    tag: &str,
    Ghost(count): Ghost<spec_fn(Seq<char>) -> int>,
) -> (r: Ghost<spec_fn(Seq<char>) -> int>)
    requires
        summarizes(old(list)@, count),
        count(tag@) >= 0,
    ensures
        summarizes(final(list)@, r@),
        forall|other: Seq<char>| #[trigger]
            r@(other) == count(other) + if other == tag@ {
                1int
            } else {
                0int
            },
{
    let ghost more = |other: Seq<char>| count(other) + if other == tag@ { 1int } else { 0int };
    let ghost start = list@;
    let mut at: usize = 0;
    while at < list.len() && text_before(&list[at].tag, tag)
        invariant
            at <= list@.len(),
            list@ == start,
            forall|i: int| 0 <= i < at ==> before((#[trigger] list@[i]).tag@, tag@),
        decreases list@.len() - at,
    {
        at = at + 1;
    }
    if at < list.len() && same_text(&list[at].tag, tag) {
        let entry = &mut list[at];
        if entry.count < i64::MAX {
            entry.count = entry.count + 1;
        }
        proof {
            assert(start[at as int].count == capped(count(tag@)));
            assert forall|i: int, j: int| 0 <= i < j < list@.len() implies before(
                (#[trigger] list@[i]).tag@,
                (#[trigger] list@[j]).tag@,
            ) by {
                assert(before(start[i].tag@, start[j].tag@));
            }
            assert forall|i: int| 0 <= i < list@.len() implies (#[trigger] list@[i]).count == capped(
                more(list@[i].tag@),
            ) && more(list@[i].tag@) > 0 by {
                assert(start[i].count == capped(count(start[i].tag@)) && count(start[i].tag@) > 0);
                if i != at {
                    law_text_order(tag@, tag@, tag@);
                    if i < at {
                        assert(before(start[i].tag@, start[at as int].tag@));
                    } else {
                        assert(before(start[at as int].tag@, start[i].tag@));
                    }
                }
            }
            assert forall|other: Seq<char>| #[trigger] more(other) > 0 implies exists|i: int|
                0 <= i < list@.len() && (#[trigger] list@[i]).tag@ == other by {
                if other == tag@ {
                    assert(list@[at as int].tag@ == other);
                } else {
                    assert(count(other) > 0);
                    let i = choose|i: int| 0 <= i < start.len() && (#[trigger] start[i]).tag@ == other;
                    assert(list@[i].tag@ == other);
                }
            }
        }
    } else {
        proof {
            assert forall|i: int| at <= i < start.len() implies before(
                tag@,
                (#[trigger] start[i]).tag@,
            ) by {
                law_text_order(start[at as int].tag@, tag@, tag@);
                if i > at {
                    assert(before(start[at as int].tag@, start[i].tag@));
                    law_text_order(tag@, start[at as int].tag@, start[i].tag@);
                }
            }
            assert(count(tag@) == 0) by {
                if count(tag@) > 0 {
                    let i = choose|i: int| 0 <= i < start.len() && (#[trigger] start[i]).tag@ == tag@;
                    law_text_order(tag@, tag@, tag@);
                    assert(start[i].tag@ == tag@);
                    if i >= at {
                        assert(before(tag@, start[i].tag@));
                    } else {
                        assert(before(start[i].tag@, tag@));
                    }
                }
            }
        }
        list.insert(at, TagSummary { tag: tag.to_owned(), count: 1 });
        proof {
            assert forall|i: int, j: int| 0 <= i < j < list@.len() implies before(
                (#[trigger] list@[i]).tag@,
                (#[trigger] list@[j]).tag@,
            ) by {
                if j < at {
                    assert(before(start[i].tag@, start[j].tag@));
                } else if j == at {
                    assert(before(start[i].tag@, tag@));
                } else if i < at {
                    assert(before(start[i].tag@, start[j - 1].tag@));
                } else if i == at {
                    assert(before(tag@, start[j - 1].tag@));
                } else {
                    assert(before(start[i - 1].tag@, start[j - 1].tag@));
                }
            }
            assert forall|i: int| 0 <= i < list@.len() implies (#[trigger] list@[i]).count == capped(
                more(list@[i].tag@),
            ) && more(list@[i].tag@) > 0 by {
                law_text_order(tag@, tag@, tag@);
                if i < at {
                    assert(start[i].count == capped(count(start[i].tag@)) && count(start[i].tag@)
                        > 0);
                    assert(before(start[i].tag@, tag@));
                } else if i > at {
                    assert(start[i - 1].count == capped(count(start[i - 1].tag@)) && count(
                        start[i - 1].tag@,
                    ) > 0);
                    assert(before(tag@, start[i - 1].tag@));
                }
            }
            assert forall|other: Seq<char>| #[trigger] more(other) > 0 implies exists|i: int|
                0 <= i < list@.len() && (#[trigger] list@[i]).tag@ == other by {
                if other == tag@ {
                    assert(list@[at as int].tag@ == other);
                } else {
                    assert(count(other) > 0);
                    let i = choose|i: int| 0 <= i < start.len() && (#[trigger] start[i]).tag@ == other;
                    if i < at {
                        assert(list@[i].tag@ == other);
                    } else {
                        assert(list@[i + 1].tag@ == other);
                    }
                }
            }
        }
    }
    Ghost(more)
}

proof fn lemma_same_counts(
    list: Seq<TagSummary>,
    one: spec_fn(Seq<char>) -> int,
    other: spec_fn(Seq<char>) -> int,
)
    requires
        summarizes(list, one),
        forall|tag: Seq<char>| #[trigger] one(tag) == other(tag),
    ensures
        summarizes(list, other),
{
    assert forall|i: int| 0 <= i < list.len() implies (#[trigger] list[i]).count == capped(
        other(list[i].tag@),
    ) && other(list[i].tag@) > 0 by {
        assert(list[i].count == capped(one(list[i].tag@)) && one(list[i].tag@) > 0);
    }
    assert forall|tag: Seq<char>| #[trigger] other(tag) > 0 implies exists|i: int|
        0 <= i < list.len() && (#[trigger] list[i]).tag@ == tag by {
        assert(one(tag) > 0);
    }
}

pub proof fn lemma_occurrences_bound(tags: Seq<Seq<char>>, tag: Seq<char>)
    ensures
        0 <= occurrences(tags, tag) <= tags.len(),
    decreases tags.len(),
{
    if tags.len() > 0 {
        lemma_occurrences_bound(tags.drop_last(), tag);
    }
}

pub proof fn lemma_uses_bound(memories: Seq<RecordModel>, tag: Seq<char>, world: World)
    ensures
        0 <= uses(memories, tag, world),
    decreases memories.len(),
{
    if memories.len() > 0 {
        lemma_uses_bound(memories.drop_last(), tag, world);
        lemma_occurrences_bound(memories.last().tags, tag);
    }
}

/// Counts the tags of one more memory.
fn count_tags(
    list: &mut Vec<TagSummary>,
    tags: &Vec<String>,
    filter: Option<&str>,
    similar: &Vec<(String, Score)>,
    Ghost(count): Ghost<spec_fn(Seq<char>) -> int>,
) -> (r: Ghost<spec_fn(Seq<char>) -> int>)
    requires
        summarizes(old(list)@, count),
        forall|tag: Seq<char>| 0 <= #[trigger] count(tag),
    ensures
        summarizes(final(list)@, r@),
        forall|tag: Seq<char>| #[trigger]
            r@(tag) == count(tag) + if passes(tag, borrowed(filter), similar@) {
                occurrences(texts(tags@), tag)
            } else {
                0
            },
{
    let ghost mut now = count;
    let mut i: usize = 0;
    proof {
        assert(texts(tags@).take(0) =~= Seq::empty());
    }
    while i < tags.len()
        invariant
            i <= tags@.len(),
            summarizes(list@, now),
            forall|tag: Seq<char>| 0 <= #[trigger] count(tag),
            forall|tag: Seq<char>| #[trigger]
                now(tag) == count(tag) + if passes(tag, borrowed(filter), similar@) {
                    occurrences(texts(tags@).take(i as int), tag)
                } else {
                    0
                },
        decreases tags@.len() - i,
    {
        let ghost tag = tags@[i as int]@;
        let ghost done = texts(tags@).take(i as int);
        let ghost earlier = now;
        proof {
            assert(texts(tags@).take(i + 1).drop_last() =~= done);
            assert(texts(tags@).take(i + 1).last() == tag);
            lemma_occurrences_bound(done, tag);
            assert(count(tag) >= 0);
            assert(now(tag) >= 0);
        }
        if tag_passes(&tags[i], filter, similar) {
            let counted = count_tag(list, &tags[i], Ghost(now));
            proof {
                now = counted@;
                assert forall|other: Seq<char>| #[trigger] now(other) == count(other) + if passes(
                    other,
                    borrowed(filter),
                    similar@,
                ) {
                    occurrences(texts(tags@).take(i + 1), other)
                } else {
                    0
                } by {
                    assert(earlier(other) == earlier(other));
                }
            }
        } else {
            proof {
                assert forall|other: Seq<char>| #[trigger] now(other) == count(other) + if passes(
                    other,
                    borrowed(filter),
                    similar@,
                ) {
                    occurrences(texts(tags@).take(i + 1), other)
                } else {
                    0
                } by {
                    assert(earlier(other) == earlier(other));
                }
            }
        }
        i = i + 1;
    }
    proof {
        assert(texts(tags@).take(i as int) =~= texts(tags@));
    }
    Ghost(now)
}

impl MemoryStore {
    /// The tags of the memories that are still there and pass the filter, in order, each with how
    /// often it comes up, as far as that can be counted. `similar` lists tags with their similarity
    /// to the filter.
    pub fn list_tags(
        &self,
        filter: Option<&str>,
        world: &World,
        similar: &Vec<(String, Score)>,
    ) -> (r: Vec<TagSummary>)
        ensures
            summarizes(
                r@,
                filtered_uses(self@.memories, borrowed(filter), similar@, *world),
            ),
    {
        let mut list: Vec<TagSummary> = Vec::new();
        let mut i: usize = 0;
        let ghost mut count = |tag: Seq<char>| 0int;
        proof {
            assert(self@.memories.take(0) =~= Seq::empty());
        }
        while i < self.memories.len()
            invariant
                i <= self.memories@.len(),
                self@.memories.len() == self.memories@.len(),
                summarizes(list@, count),
                forall|tag: Seq<char>| #[trigger]
                    count(tag) == filtered_uses(
                        self@.memories.take(i as int),
                        borrowed(filter),
                        similar@,
                        *world,
                    )(tag),
            decreases self.memories@.len() - i,
        {
            let ghost done = self@.memories.take(i as int);
            let ghost next = self@.memories.take(i + 1);
            proof {
                assert(self@.memories[i as int] == self.memories@[i as int]@);
                assert(next.drop_last() =~= done);
                assert(next.last() == self@.memories[i as int]);
                assert forall|tag: Seq<char>| 0 <= #[trigger] count(tag) by {
                    lemma_uses_bound(done, tag, *world);
                }
            }
            if !self.memories[i].is_expired(world) {
                let ghost earlier = count;
                let counted = count_tags(
                    &mut list,
                    &self.memories[i].tags,
                    filter,
                    similar,
                    Ghost(count),
                );
                proof {
                    count = counted@;
                    assert forall|tag: Seq<char>| #[trigger] count(tag) == filtered_uses(
                        next,
                        borrowed(filter),
                        similar@,
                        *world,
                    )(tag) by {
                        assert(earlier(tag) == earlier(tag));
                    }
                }
            }
            i = i + 1;
        }
        proof {
            assert(self@.memories.take(i as int) =~= self@.memories);
            lemma_same_counts(
                list@,
                count,
                filtered_uses(self@.memories, borrowed(filter), similar@, *world),
            );
        }
        list
    }
}

} // verus!
