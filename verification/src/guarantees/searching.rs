//! What a search shows, in which order, and what it does to what it shows.
use vstd::prelude::*;

use crate::input::{normal_search, SearchModel, World};
use crate::laws::{
    law_search_shows_what_it_finds, law_searching_counts_what_it_shows,
    law_unwanted_tags_exclude_nothing, listed,
};
use crate::model::{law_normal_tags, normal_tag, normal_tags, MemoryMode};
use crate::ranking::{page, ranked, Hit};
use crate::record::{common_tags, terms_hold, RecordModel, ScoreTerms};
use crate::score::Score;
use crate::search::{all_after_retrieval, hit_results, hits_of, shown};
use crate::text::{contains_text, lower, trim};

verus! {

/// A score is placed by the number that its bits stand for: without the sign bit the higher bits
/// come higher, with it the lower; both zeros are one.
pub proof fn law_scores_are_placed_by_their_bits(score: Score, other: Score)
    ensures
        score.bits < 0x8000_0000 ==> score.place() == score.bits,
        score.bits >= 0x8000_0000 ==> score.place() == 0x8000_0000 - score.bits,
        score.is_nan() <==> 0x7f80_0000 < score.bits < 0x8000_0000 || score.bits > 0xff80_0000,
        score.at_least(other) <==> !score.is_nan() && !other.is_nan() && score.place()
            >= other.place(),
{
}

/// The normal form of a search asks for what was asked for: with a trimmed query, normal tags and a
/// limit of one or more.
pub proof fn law_normal_searches_ask_for_what_was_asked(options: SearchModel)
    ensures
        ({
            let search = normal_search(options);
            &&& search.query == trim(options.query)
            &&& search.positive_tags == normal_tags(options.positive_tags)
            &&& search.negative_tags == normal_tags(options.negative_tags)
            &&& search.limit == if options.limit == 0 {
                1usize
            } else {
                options.limit
            }
            &&& search.offset == options.offset
            &&& search.mode == options.mode
            &&& search.mode_ref == options.mode_ref
        }),
{
}

/// Whether a memory has every tag that is asked for, in normal form.
pub open spec fn has_wanted(memory: RecordModel, wanted: Seq<Seq<char>>) -> bool {
    forall|i: int|
        0 <= i < wanted.len() && trim(#[trigger] wanted[i]).len() > 0 ==> memory.tags.contains(
            lower(trim(wanted[i])),
        )
}

pub proof fn lemma_has_wanted(memory: RecordModel, wanted: Seq<Seq<char>>)
    ensures
        memory.tagged(normal_tags(wanted)) <==> has_wanted(memory, wanted),
{
    law_normal_tags(wanted);
    let tags = normal_tags(wanted);
    if memory.tagged(tags) {
        assert forall|i: int|
            0 <= i < wanted.len() && trim(#[trigger] wanted[i]).len() > 0 implies memory.tags.contains(
            lower(trim(wanted[i])),
        ) by {
            let tag = normal_tag(wanted[i]);
            assert(tag.len() == trim(wanted[i]).len());
            assert(tags.contains(tag));
            let k = choose|k: int| 0 <= k < tags.len() && tags[k] == tag;
            assert(memory.tags.contains(tags[k]));
        }
    }
    if has_wanted(memory, wanted) {
        assert forall|k: int| 0 <= k < tags.len() implies memory.tags.contains(
            #[trigger] tags[k],
        ) by {
            assert(tags.contains(tags[k]));
            let i = choose|i: int|
                0 <= i < wanted.len() && normal_tag(#[trigger] wanted[i]) == tags[k];
            assert(trim(wanted[i]).len() == tags[k].len());
        }
    }
}

/// Whatever a search shows has the mode and the reference that were asked for, where they were, is
/// still there, and has every tag that was asked for. This holds in every mode.
pub proof fn law_searches_show_what_was_asked_for(
    memories: Seq<RecordModel>,
    scores: Seq<Score>,
    options: SearchModel,
    world: World,
)
    requires
        memories.len() <= usize::MAX,
    ensures
        ({
            let hits = shown(memories, scores, options, world);
            &&& hits.len() <= options.limit || hits.len() == 1
            &&& forall|k: int|
                0 <= k < hits.len() ==> {
                    let hit = #[trigger] hits[k];
                    let memory = memories[hit.index as int];
                    &&& hit.index < memories.len()
                    &&& options.mode is Some ==> memory.mode == options.mode->Some_0
                    &&& options.mode_ref is Some ==> memory.mode_ref == options.mode_ref
                    &&& memory.live(world)
                    &&& has_wanted(memory, options.positive_tags)
                    &&& hit.id == memory.id
                    &&& hit.score == scores[hit.index as int]
                }
            &&& forall|k: int, l: int|
                0 <= k < l < hits.len() ==> (#[trigger] hits[k]).index != (#[trigger] hits[l]).index
        }),
{
    law_search_shows_what_it_finds(memories, scores, options, world);
    let hits = shown(memories, scores, options, world);
    assert forall|k: int| 0 <= k < hits.len() implies {
        let hit = #[trigger] hits[k];
        let memory = memories[hit.index as int];
        &&& hit.index < memories.len()
        &&& options.mode is Some ==> memory.mode == options.mode->Some_0
        &&& options.mode_ref is Some ==> memory.mode_ref == options.mode_ref
        &&& memory.live(world)
        &&& has_wanted(memory, options.positive_tags)
        &&& hit.id == memory.id
        &&& hit.score == scores[hit.index as int]
    } by {
        lemma_has_wanted(memories[hits[k].index as int], options.positive_tags);
    }
}

/// A search that asks for as many memories as there are, from the first on, leaves out none that
/// has the mode and the reference that were asked for, is still there and has every tag that was
/// asked for.
pub proof fn law_searches_leave_out_nothing_asked_for(
    memories: Seq<RecordModel>,
    scores: Seq<Score>,
    options: SearchModel,
    world: World,
    index: int,
)
    requires
        memories.len() <= usize::MAX,
        options.offset == 0,
        options.limit >= memories.len(),
        0 <= index < memories.len(),
    ensures
        (exists|k: int|
            0 <= k < shown(memories, scores, options, world).len() && (#[trigger] shown(
                memories,
                scores,
                options,
                world,
            )[k]).index == index) <==> {
            let memory = memories[index];
            &&& options.mode is Some ==> memory.mode == options.mode->Some_0
            &&& options.mode_ref is Some ==> memory.mode_ref == options.mode_ref
            &&& memory.live(world)
            &&& has_wanted(memory, options.positive_tags)
        },
{
    law_unwanted_tags_exclude_nothing(
        memories,
        scores,
        scores,
        options,
        options.negative_tags,
        world,
        index,
    );
    lemma_has_wanted(memories[index], options.positive_tags);
    assert(listed(shown(memories, scores, options, world), index) <==> exists|k: int|
        0 <= k < shown(memories, scores, options, world).len() && (#[trigger] shown(
            memories,
            scores,
            options,
            world,
        )[k]).index == index);
}

/// The higher of two scores comes first and, of two that are equal, the memory with the higher
/// identifier.
pub proof fn law_results_go_by_score_and_then_by_age(
    memories: Seq<RecordModel>,
    scores: Seq<Score>,
    options: SearchModel,
    world: World,
    first: int,
    second: int,
)
    requires
        memories.len() <= usize::MAX,
        0 <= first < second < shown(memories, scores, options, world).len(),
    ensures
        ({
            let hits = shown(memories, scores, options, world);
            let one = scores[hits[first].index as int];
            let other = scores[hits[second].index as int];
            &&& one.place() >= other.place()
            &&& one.place() == other.place() ==> memories[hits[first].index as int].id
                >= memories[hits[second].index as int].id
        }),
{
    law_search_shows_what_it_finds(memories, scores, options, world);
    let hits = shown(memories, scores, options, world);
    assert(hits[first].score.place() >= hits[second].score.place());
    assert(hits[first].score == scores[hits[first].index as int]);
    assert(hits[second].score == scores[hits[second].index as int]);
}

/// A page of a list has the items from its offset on, as many as it was asked for and there are.
pub proof fn law_pages_are_cut_from_the_list<T>(list: Seq<T>, offset: int, limit: int, at: int)
    requires
        0 <= offset,
        0 <= limit,
    ensures
        page(list, offset, limit).len() == if offset >= list.len() {
            0
        } else if list.len() - offset < limit {
            list.len() - offset
        } else {
            limit
        },
        0 <= at < page(list, offset, limit).len() ==> page(list, offset, limit)[at] == list[offset
            + at],
{
}

/// A search from an offset on shows what the same search without limits shows from there on, as
/// many as it was asked for, and one where it was asked for none.
pub proof fn law_searches_page_through_all_results(
    memories: Seq<RecordModel>,
    scores: Seq<Score>,
    options: SearchModel,
    world: World,
    at: int,
)
    requires
        memories.len() <= usize::MAX,
    ensures
        ({
            let all = shown(
                memories,
                scores,
                SearchModel { offset: 0, limit: usize::MAX, ..options },
                world,
            );
            let hits = shown(memories, scores, options, world);
            let limit = if options.limit == 0 {
                1
            } else {
                options.limit as int
            };
            &&& hits.len() == if options.offset >= all.len() {
                0
            } else if all.len() - options.offset < limit {
                all.len() - options.offset
            } else {
                limit
            }
            &&& 0 <= at < hits.len() ==> hits[at] == all[options.offset + at]
        }),
{
    let whole = SearchModel { offset: 0, limit: usize::MAX, ..options };
    let found = hits_of(memories, scores, normal_search(options), world);
    lemma_found_by(memories, scores, normal_search(options), normal_search(whole), world);
    lemma_found_number(memories, scores, normal_search(options), world);
    crate::ranking::law_ranking(found);
    let all = shown(memories, scores, whole, world);
    assert(all =~= ranked(found));
}

proof fn lemma_found_number(
    memories: Seq<RecordModel>,
    scores: Seq<Score>,
    search: SearchModel,
    world: World,
)
    ensures
        hits_of(memories, scores, search, world).len() <= memories.len(),
    decreases memories.len(),
{
    if memories.len() > 0 {
        lemma_found_number(memories.drop_last(), scores, search, world);
    }
}

proof fn lemma_found_by(
    memories: Seq<RecordModel>,
    scores: Seq<Score>,
    one: SearchModel,
    other: SearchModel,
    world: World,
)
    requires
        one.mode == other.mode,
        one.mode_ref == other.mode_ref,
        one.positive_tags == other.positive_tags,
    ensures
        hits_of(memories, scores, one, world) == hits_of(memories, scores, other, world),
    decreases memories.len(),
{
    if memories.len() > 0 {
        lemma_found_by(memories.drop_last(), scores, one, other, world);
    }
}

/// With the scores given, what is shown depends on the scope, the wanted tags and the page alone:
/// neither the query nor unwanted tags keep anything out.
pub proof fn law_query_and_unwanted_tags_only_score(
    memories: Seq<RecordModel>,
    scores: Seq<Score>,
    options: SearchModel,
    query: Seq<char>,
    unwanted: Seq<Seq<char>>,
    world: World,
)
    ensures
        shown(memories, scores, options, world) == shown(
            memories,
            scores,
            SearchModel { query, negative_tags: unwanted, ..options },
            world,
        ),
{
    let other = SearchModel { query, negative_tags: unwanted, ..options };
    lemma_found_by(memories, scores, normal_search(options), normal_search(other), world);
}

/// A result says of its memory what is stored of it, as it was before the search, with its score.
pub proof fn law_results_say_what_is_stored(memories: Seq<RecordModel>, hits: Seq<Hit>, at: int)
    requires
        0 <= at < hits.len(),
    ensures
        hit_results(memories, hits).len() == hits.len(),
        ({
            let result = hit_results(memories, hits)[at];
            let memory = memories[hits[at].index as int];
            &&& result.id == memory.id
            &&& result.content == memory.content
            &&& result.mode == memory.mode
            &&& result.mode_ref == memory.mode_ref
            &&& result.tags == memory.tags
            &&& result.score == hits[at].score
            &&& result.positive_score == memory.positive_score
            &&& result.negative_score == memory.negative_score
            &&& result.usage_count == memory.usage_count
            &&& result.metadata == memory.metadata
            &&& result.created_at == memory.created_at
        }),
{
}

/// A memory that a search shows has been read once more, where that can be counted, and gains by
/// the rank at which it was shown, which counts from nought on every page. Nothing else of it
/// changes, and nothing of the memories that were not shown.
pub proof fn law_shown_memories_gain_by_their_rank(
    memories: Seq<RecordModel>,
    scores: Seq<Score>,
    options: SearchModel,
    world: World,
    index: int,
)
    requires
        memories.len() <= usize::MAX,
        0 <= index < memories.len(),
    ensures
        ({
            let hits = shown(memories, scores, options, world);
            let after = all_after_retrieval(memories, hits);
            let memory = memories[index];
            &&& after.len() == memories.len()
            &&& after[index].id == memory.id
            &&& after[index].content == memory.content
            &&& after[index].mode == memory.mode
            &&& after[index].mode_ref == memory.mode_ref
            &&& after[index].tags == memory.tags
            &&& after[index].expiration_condition == memory.expiration_condition
            &&& after[index].expiration_value == memory.expiration_value
            &&& after[index].metadata == memory.metadata
            &&& after[index].negative_score == memory.negative_score
            &&& after[index].created_at == memory.created_at
            &&& after[index].file_fingerprint == memory.file_fingerprint
            &&& after[index].positive_score.stored == memory.positive_score.stored
            &&& forall|k: int|
                0 <= k < hits.len() && (#[trigger] hits[k]).index == index ==> {
                    &&& memory.usage_count < i64::MAX ==> after[index].usage_count
                        == memory.usage_count + 1
                    &&& memory.usage_count >= i64::MAX ==> after[index].usage_count
                        == memory.usage_count
                    &&& after[index].positive_score.ranks
                        == memory.positive_score.ranks.push(k as usize)
                }
            &&& (forall|k: int| 0 <= k < hits.len() ==> (#[trigger] hits[k]).index != index)
                ==> after[index] == memory
        }),
{
    law_searching_counts_what_it_shows(memories, scores, options, world);
    let hits = shown(memories, scores, options, world);
    let after = all_after_retrieval(memories, hits);
    if exists|k: int| 0 <= k < hits.len() && (#[trigger] hits[k]).index == index {
        let k = choose|k: int| 0 <= k < hits.len() && (#[trigger] hits[k]).index == index;
        assert(after[hits[k].index as int] == memories[index].retrieved(k as usize));
    } else {
        assert(after[index] == memories[index]);
    }
}

/// What counts for the score of a memory in a search in normal form: whether the query in small
/// letters is not empty and occurs in its content in small letters, and whether in one of its tags;
/// how many tags were asked for; and how many of the unwanted tags it has.
pub proof fn law_terms_of_a_score(terms: ScoreTerms, memory: RecordModel, search: SearchModel)
    requires
        terms_hold(terms, memory, search),
    ensures
        ({
            let query = lower(search.query);
            &&& terms.content_matches <==> query.len() > 0 && contains_text(
                lower(memory.content),
                query,
            )
            &&& terms.tag_matches <==> query.len() > 0 && exists|i: int|
                0 <= i < memory.tags.len() && contains_text(#[trigger] memory.tags[i], query)
            &&& terms.positive_tags == search.positive_tags.len()
            &&& terms.negative_tags == common_tags(search.negative_tags, memory.tags)
        }),
{
}

/// A search in normal form finds the memories that have its mode and its reference, where it has
/// one, are still there, and have all of its wanted tags; and no others.
pub proof fn law_found_is_in_scope_there_and_tagged(
    memory: RecordModel,
    search: SearchModel,
    world: World,
)
    ensures
        memory.found(search, world) <==> {
            &&& search.mode is Some ==> memory.mode == search.mode->Some_0
            &&& search.mode_ref is Some ==> memory.mode_ref == search.mode_ref
            &&& memory.live(world)
            &&& forall|i: int|
                0 <= i < search.positive_tags.len() ==> memory.tags.contains(
                    #[trigger] search.positive_tags[i],
                )
        },
{
}

/// Tags that two lists have in common are counted one by one.
pub proof fn law_common_tags_are_counted(
    wanted: Seq<Seq<char>>,
    tag: Seq<char>,
    tags: Seq<Seq<char>>,
)
    ensures
        common_tags(Seq::empty(), tags) == 0,
        common_tags(wanted.push(tag), tags) == common_tags(wanted, tags) + if tags.contains(tag) {
            1int
        } else {
            0int
        },
{
    assert(wanted.push(tag).drop_last() =~= wanted);
}

/// A memory of one scope is never shown by a search in another: neither where the modes differ nor
/// where the references do.
pub proof fn law_scopes_do_not_mix(
    memories: Seq<RecordModel>,
    scores: Seq<Score>,
    options: SearchModel,
    world: World,
    mode: MemoryMode,
    reference: Seq<char>,
    index: int,
)
    requires
        memories.len() <= usize::MAX,
        options.mode == Some(mode),
        options.mode_ref == Some(reference),
        0 <= index < memories.len(),
        memories[index].mode != mode || memories[index].mode_ref != Some(reference),
    ensures
        forall|k: int|
            0 <= k < shown(memories, scores, options, world).len() ==> (#[trigger] shown(
                memories,
                scores,
                options,
                world,
            )[k]).index != index,
{
    law_searches_show_what_was_asked_for(memories, scores, options, world);
}

} // verus!
