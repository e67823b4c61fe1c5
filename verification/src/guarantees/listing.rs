//! Which tags are listed, in which order and with which counts.
use vstd::prelude::*;

use crate::input::World;
use crate::record::{RecordModel, TagSummary};
use crate::score::Score;
use crate::tags::{capped, filtered_uses, occurrences, passes, summarizes, uses};
use crate::text::{before, contains_text, lower, trim};

verus! {

/// A tag passes a filter that is missing or blank; any other filter it passes where the filter, in
/// small letters and without the white space around it, occurs in it, or where it is at least 0.2
/// similar to the filter.
pub proof fn law_filters_let_pass_what_matches(
    tag: Seq<char>,
    filter: Option<Seq<char>>,
    similar: Seq<(String, Score)>,
)
    ensures
        passes(tag, filter, similar) <==> {
            ||| filter is None
            ||| trim(filter->Some_0).len() == 0
            ||| contains_text(tag, lower(trim(filter->Some_0)))
            ||| exists|i: int|
                0 <= i < similar.len() && (#[trigger] similar[i]).0@ == tag && 0x3e4c_cccd
                    <= similar[i].1.bits <= 0x7f80_0000
        },
{
    if exists|i: int|
        0 <= i < similar.len() && (#[trigger] similar[i]).0@ == tag && 0x3e4c_cccd
            <= similar[i].1.bits <= 0x7f80_0000 {
        let i = choose|i: int|
            0 <= i < similar.len() && (#[trigger] similar[i]).0@ == tag && 0x3e4c_cccd
                <= similar[i].1.bits <= 0x7f80_0000;
        assert(similar[i].1.at_least(Score { bits: 0x3e4c_cccd }));
    }
    if crate::tags::similar_enough(tag, similar) {
        let i = choose|i: int|
            0 <= i < similar.len() && (#[trigger] similar[i]).0@ == tag
                && similar[i].1.at_least(Score { bits: crate::tags::SIMILAR_TAG_BITS });
        assert(similar[i].0@ == tag);
    }
}

/// A tag is counted as often as it comes up among the tags of the memories that are still there;
/// those of the others do not count.
pub proof fn law_tags_are_counted_among_what_is_there(
    memories: Seq<RecordModel>,
    memory: RecordModel,
    tag: Seq<char>,
    world: World,
)
    ensures
        uses(Seq::empty(), tag, world) == 0,
        uses(memories.push(memory), tag, world) == uses(memories, tag, world) + if memory.live(
            world,
        ) {
            memory.tags.to_multiset().count(tag) as int
        } else {
            0
        },
{
    assert(memories.push(memory).drop_last() =~= memories);
    lemma_occurrences(memory.tags, tag);
}

proof fn lemma_occurrences(tags: Seq<Seq<char>>, tag: Seq<char>)
    ensures
        occurrences(tags, tag) == tags.to_multiset().count(tag),
    decreases tags.len(),
{
    broadcast use vstd::seq_lib::group_to_multiset_ensures;

    if tags.len() > 0 {
        let front = tags.drop_last();
        lemma_occurrences(front, tag);
        assert(tags =~= front.push(tags.last()));
    }
}

/// A count says how often a tag comes up; one that does not fit is the largest that does.
pub proof fn law_counts_are_capped(count: int)
    ensures
        count <= 9_223_372_036_854_775_807 ==> capped(count) == count,
        count > 9_223_372_036_854_775_807 ==> capped(count) == 9_223_372_036_854_775_807,
{
}

/// Tags are listed in the order of the alphabet, each once, with how often it comes up among the
/// memories that are still there.
pub proof fn law_listed_tags_are_in_order_with_their_counts(
    list: Seq<TagSummary>,
    memories: Seq<RecordModel>,
    filter: Option<Seq<char>>,
    similar: Seq<(String, Score)>,
    world: World,
)
    requires
        summarizes(list, filtered_uses(memories, filter, similar, world)),
    ensures
        forall|i: int, j: int|
            0 <= i < j < list.len() ==> before((#[trigger] list[i]).tag@, (#[trigger] list[j]).tag@),
        forall|i: int|
            0 <= i < list.len() ==> (#[trigger] list[i]).count == capped(
                uses(memories, list[i].tag@, world),
            ) && uses(memories, list[i].tag@, world) > 0,
{
    let count = filtered_uses(memories, filter, similar, world);
    assert forall|i: int| 0 <= i < list.len() implies (#[trigger] list[i]).count == capped(
        uses(memories, list[i].tag@, world),
    ) && uses(memories, list[i].tag@, world) > 0 by {
        assert(list[i].count == capped(count(list[i].tag@)) && count(list[i].tag@) > 0);
    }
}

/// A tag is listed exactly where a memory that is still there has it and it passes the filter.
pub proof fn law_listed_tags_are_in_use_and_pass(
    list: Seq<TagSummary>,
    memories: Seq<RecordModel>,
    filter: Option<Seq<char>>,
    similar: Seq<(String, Score)>,
    world: World,
    tag: Seq<char>,
)
    requires
        summarizes(list, filtered_uses(memories, filter, similar, world)),
    ensures
        (exists|i: int| 0 <= i < list.len() && (#[trigger] list[i]).tag@ == tag) <==> passes(
            tag,
            filter,
            similar,
        ) && exists|m: int|
            0 <= m < memories.len() && (#[trigger] memories[m]).live(world)
                && memories[m].tags.contains(tag),
{
    let count = filtered_uses(memories, filter, similar, world);
    lemma_uses_where_in_use(memories, tag, world);
    if exists|i: int| 0 <= i < list.len() && (#[trigger] list[i]).tag@ == tag {
        let i = choose|i: int| 0 <= i < list.len() && (#[trigger] list[i]).tag@ == tag;
        assert(list[i].count == capped(count(list[i].tag@)) && count(list[i].tag@) > 0);
    }
    if passes(tag, filter, similar) {
        assert(count(tag) == uses(memories, tag, world));
    }
}

proof fn lemma_uses_where_in_use(memories: Seq<RecordModel>, tag: Seq<char>, world: World)
    ensures
        uses(memories, tag, world) >= 0,
        uses(memories, tag, world) > 0 <==> exists|m: int|
            0 <= m < memories.len() && (#[trigger] memories[m]).live(world)
                && memories[m].tags.contains(tag),
    decreases memories.len(),
{
    broadcast use vstd::seq_lib::group_to_multiset_ensures;

    if memories.len() > 0 {
        let front = memories.drop_last();
        let last = memories.len() - 1;
        lemma_uses_where_in_use(front, tag, world);
        lemma_occurrences(memories[last].tags, tag);
        if uses(front, tag, world) > 0 {
            let m = choose|m: int|
                0 <= m < front.len() && (#[trigger] front[m]).live(world)
                    && front[m].tags.contains(tag);
            assert(memories[m] == front[m]);
        }
        if exists|m: int|
            0 <= m < memories.len() && (#[trigger] memories[m]).live(world)
                && memories[m].tags.contains(tag) {
            let m = choose|m: int|
                0 <= m < memories.len() && (#[trigger] memories[m]).live(world)
                    && memories[m].tags.contains(tag);
            if m < last {
                assert(front[m] == memories[m]);
            }
        }
        if uses(memories, tag, world) > 0 && uses(front, tag, world) == 0 {
            assert(memories[last].live(world) && memories[last].tags.contains(tag));
        }
    }
}

} // verus!
