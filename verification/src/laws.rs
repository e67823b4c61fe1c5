//! What holds of the store as a whole: laws that tie storing, searching, listing and alerting
//! together.
use vstd::prelude::*;

use crate::alerts::{after_alert, other_alerts, session_alerts};
use crate::commands::{
    memory_asked_for, search_asked_for, MemoryGetPayload, MemorySetPayload,
};
use crate::expiration::usage_limit;
use crate::input::{normal_memory, normal_search, SearchModel, SetModel, World};
use crate::model::{law_normal_tags, normal_tags, ExpirationCondition, MemoryMode};
use crate::ranking::{law_ranking, ranked, Hit};
use crate::record::{
    common_tags, terms_hold, AlertModel, RecordModel, ScoreTerms, StoreModel, TagSummary,
};
use crate::score::Score;
use crate::search::{
    all_after_retrieval, hit_results, hits_fit, hits_of, lemma_hits_fit, lemma_not_retrieved,
    lemma_page_fits, rank_of, shown,
};
use crate::store::{after_set, all_aged, penalties};
use crate::tags::{
    capped, filtered_uses, lemma_occurrences_bound, lemma_uses_bound, occurrences, passes,
    similar_enough, summarizes, uses,
};
use crate::text::{before, contains_text, law_text_order, lower, trim};

verus! {

/// Everything that a search shows is found by it: it belongs to the scope, is still there and has
/// all wanted tags. No memory is shown twice, a higher score comes first, and no more is shown than
/// was asked for.
pub proof fn law_search_shows_what_it_finds(
    memories: Seq<RecordModel>,
    scores: Seq<Score>,
    options: SearchModel,
    world: World,
)
    requires
        memories.len() <= usize::MAX,
    ensures
        ({
            let search = normal_search(options);
            let hits = shown(memories, scores, options, world);
            &&& hits.len() <= search.limit
            &&& forall|k: int|
                0 <= k < hits.len() ==> {
                    let hit = #[trigger] hits[k];
                    &&& hit.index < memories.len()
                    &&& memories[hit.index as int].found(search, world)
                    &&& hit.id == memories[hit.index as int].id
                    &&& hit.score == scores[hit.index as int]
                }
            &&& forall|k: int, l: int|
                0 <= k < l < hits.len() ==> {
                    &&& (#[trigger] hits[k]).index != (#[trigger] hits[l]).index
                    &&& hits[k].score.place() >= hits[l].score.place()
                    &&& hits[k].score.place() == hits[l].score.place() ==> hits[k].id >= hits[l].id
                }
        }),
{
    let search = normal_search(options);
    let found = hits_of(memories, scores, search, world);
    let all = ranked(found);
    let hits = shown(memories, scores, options, world);
    lemma_hits_fit(memories, scores, search, world);
    lemma_page_fits(found, memories, search.offset as int, search.limit as int);
    law_ranking(found);
    let from = if search.offset < all.len() {
        search.offset as int
    } else {
        all.len() as int
    };
    assert forall|k: int| 0 <= k < hits.len() implies {
        let hit = #[trigger] hits[k];
        &&& hit.index < memories.len()
        &&& memories[hit.index as int].found(search, world)
        &&& hit.id == memories[hit.index as int].id
        &&& hit.score == scores[hit.index as int]
    } by {
        assert(hits[k] == all[from + k]);
        assert(found.contains(all[from + k]));
        let j = choose|j: int| 0 <= j < found.len() && found[j] == all[from + k];
        assert(found[j] == hits[k]);
    }
    assert forall|k: int, l: int| 0 <= k < l < hits.len() implies {
        &&& (#[trigger] hits[k]).index != (#[trigger] hits[l]).index
        &&& hits[k].score.place() >= hits[l].score.place()
        &&& hits[k].score.place() == hits[l].score.place() ==> hits[k].id >= hits[l].id
    } by {
        assert(hits[k] == all[from + k]);
        assert(hits[l] == all[from + l]);
        assert(crate::ranking::goes_first(all[from + k], all[from + l]));
    }
}

/// A search that asks for as many memories as there are, from the first on, shows every memory that
/// it finds.
pub proof fn law_search_misses_nothing(
    memories: Seq<RecordModel>,
    scores: Seq<Score>,
    options: SearchModel,
    world: World,
    index: int,
)
    requires
        memories.len() <= usize::MAX,
        options.offset == 0,
        options.limit >= memories.len(),
        0 <= index < memories.len(),
        memories[index].found(normal_search(options), world),
    ensures
        exists|k: int|
            0 <= k < shown(memories, scores, options, world).len() && #[trigger] shown(
                memories,
                scores,
                options,
                world,
            )[k].index == index && hit_results(
                memories,
                shown(memories, scores, options, world),
            )[k] == memories[index].as_result(scores[index]),
{
    let search = normal_search(options);
    let found = hits_of(memories, scores, search, world);
    let all = ranked(found);
    let hits = shown(memories, scores, options, world);
    lemma_hits_fit(memories, scores, search, world);
    lemma_found_bound(memories, scores, search, world);
    law_ranking(found);
    assert(hits =~= all);
    let hit = Hit { score: scores[index], id: memories[index].id, index: index as usize };
    assert(found.contains(hit));
    let j = choose|j: int| 0 <= j < found.len() && found[j] == hit;
    assert(all.contains(found[j]));
    let k = choose|k: int| 0 <= k < all.len() && all[k] == hit;
    assert(hits[k].index == index);
}

proof fn lemma_found_bound(
    memories: Seq<RecordModel>,
    scores: Seq<Score>,
    search: SearchModel,
    world: World,
)
    ensures
        hits_of(memories, scores, search, world).len() <= memories.len(),
    decreases memories.len(),
{
    if memories.len() > 0 {
        lemma_found_bound(memories.drop_last(), scores, search, world);
    }
}

/// What was stored is found again: a search in the memory's scope, for tags that it has, that asks
/// for as many memories as there are, shows it as it was stored, as long as it has not expired.
pub proof fn law_stored_memory_is_found(
    store: StoreModel,
    input: SetModel,
    similarities: Seq<Score>,
    world: World,
    scores: Seq<Score>,
    options: SearchModel,
    later: World,
)
    requires
        store.memories.len() < usize::MAX,
        after_set(store, input, similarities, world) is Ok,
        options.offset == 0,
        options.limit > store.memories.len(),
        ({
            let memory = normal_memory(input, world.environment)->Ok_0;
            &&& options.mode matches Some(mode) ==> memory.mode == mode
            &&& options.mode_ref is Some ==> options.mode_ref == memory.mode_ref
            &&& forall|i: int|
                0 <= i < normal_search(options).positive_tags.len() ==> memory.tags.contains(
                    #[trigger] normal_search(options).positive_tags[i],
                )
        }),
        after_set(store, input, similarities, world)->Ok_0.memories.last().live(later),
    ensures
        ({
            let after = after_set(store, input, similarities, world)->Ok_0;
            let memory = normal_memory(input, world.environment)->Ok_0;
            let hits = shown(after.memories, scores, options, later);
            exists|k: int|
                0 <= k < hits.len() && {
                    let result = #[trigger] hit_results(after.memories, hits)[k];
                    &&& result.id == after.last_id
                    &&& result.content == trim(input.content)
                    &&& result.tags == memory.tags
                    &&& result.mode == input.mode
                    &&& result.mode_ref == memory.mode_ref
                    &&& result.metadata == input.metadata
                    &&& result.usage_count == 0
                    &&& result.created_at == world.now
                }
        }),
{
    let after = after_set(store, input, similarities, world)->Ok_0;
    let index = store.memories.len() as int;
    assert(after.memories.len() == store.memories.len() + 1);
    assert(after.memories[index] == after.memories.last());
    law_search_misses_nothing(after.memories, scores, options, later, index);
    let hits = shown(after.memories, scores, options, later);
    let k = choose|k: int|
        0 <= k < hits.len() && #[trigger] hits[k].index == index && hit_results(
            after.memories,
            hits,
        )[k] == after.memories[index].as_result(scores[index]);
    assert(hit_results(after.memories, hits)[k].id == after.last_id);
}

/// A memory stored without a condition is still there in every later world.
pub proof fn law_unconditional_memory_stays(
    store: StoreModel,
    input: SetModel,
    similarities: Seq<Score>,
    world: World,
    later: World,
)
    requires
        after_set(store, input, similarities, world) is Ok,
        input.expiration_condition is None,
    ensures
        after_set(store, input, similarities, world)->Ok_0.memories.last().live(later),
{
}

/// Storing deletes nothing: the earlier memories stay where they were, and all that can change of
/// one is what it has lost.
pub proof fn law_storing_deletes_nothing(
    store: StoreModel,
    input: SetModel,
    similarities: Seq<Score>,
    world: World,
)
    requires
        after_set(store, input, similarities, world) is Ok,
    ensures
        ({
            let after = after_set(store, input, similarities, world)->Ok_0;
            &&& after.memories.len() == store.memories.len() + 1
            &&& after.alerts == store.alerts
            &&& forall|i: int|
                0 <= i < store.memories.len() ==> #[trigger] after.memories[i] == (RecordModel {
                    negative_score: after.memories[i].negative_score,
                    ..store.memories[i]
                })
        }),
{
}

/// A stored memory has an identifier that no memory had before.
pub proof fn law_identifiers_are_new(
    store: StoreModel,
    input: SetModel,
    similarities: Seq<Score>,
    world: World,
)
    requires
        store.well_formed(),
        after_set(store, input, similarities, world) is Ok,
    ensures
        ({
            let after = after_set(store, input, similarities, world)->Ok_0;
            &&& after.well_formed()
            &&& after.memories.last().id == after.last_id
            &&& forall|i: int|
                0 <= i < store.memories.len() ==> (#[trigger] store.memories[i]).id < after.last_id
        }),
{
    let after = after_set(store, input, similarities, world)->Ok_0;
    let aged = all_aged(store.memories, similarities, world);
    assert forall|i: int| 0 <= i < store.memories.len() implies (#[trigger] after.memories[i]).id
        == store.memories[i].id by {
        assert(after.memories[i] == aged[i]);
    }
    assert forall|i: int| 0 <= i < store.memories.len() implies (#[trigger] store.memories[i]).id
        < after.last_id by {
        assert(after.memories[i].id == store.memories[i].id);
    }
}

/// Whether `penalty` is the identifier of a memory that loses relevance, and its similarity.
pub open spec fn loss_of_one(
    memories: Seq<RecordModel>,
    similarities: Seq<Score>,
    world: World,
    penalty: (i64, Score),
) -> bool {
    exists|i: int|
        0 <= i < memories.len() && #[trigger] memories[i].loses(similarities[i], world) && penalty
            == (memories[i].id, similarities[i])
}

/// A new memory costs the memories that are still there and similar enough, and no others: those
/// of which the list of penalties speaks.
pub proof fn law_penalties_are_for_similar_memories(
    memories: Seq<RecordModel>,
    similarities: Seq<Score>,
    world: World,
)
    requires
        similarities.len() >= memories.len(),
    ensures
        forall|i: int|
            0 <= i < memories.len() ==> if memories[i].loses(similarities[i], world) {
                &&& penalties(memories, similarities, world).contains(
                    (memories[i].id, similarities[i]),
                )
                &&& #[trigger] all_aged(memories, similarities, world)[i] == memories[i].outdated(
                    similarities[i],
                )
            } else {
                all_aged(memories, similarities, world)[i] == memories[i]
            },
        forall|k: int|
            0 <= k < penalties(memories, similarities, world).len() ==> loss_of_one(
                memories,
                similarities,
                world,
                #[trigger] penalties(memories, similarities, world)[k],
            ),
    decreases memories.len(),
{
    if memories.len() > 0 {
        let front = memories.drop_last();
        let last = memories.len() - 1;
        let some = penalties(front, similarities, world);
        let all = penalties(memories, similarities, world);
        law_penalties_are_for_similar_memories(front, similarities, world);
        assert forall|i: int|
            0 <= i < memories.len() && memories[i].loses(
                similarities[i],
                world,
            ) implies all.contains((#[trigger] memories[i].id, similarities[i])) by {
            if i < last {
                assert(front[i] == memories[i]);
                assert(all_aged(front, similarities, world)[i] == front[i].outdated(
                    similarities[i],
                ));
                let k = choose|k: int|
                    0 <= k < some.len() && some[k] == (front[i].id, similarities[i]);
                assert(all[k] == (memories[i].id, similarities[i]));
            } else {
                assert(all[all.len() - 1] == (memories[i].id, similarities[i]));
            }
        }
        assert forall|k: int| 0 <= k < all.len() implies loss_of_one(
            memories,
            similarities,
            world,
            #[trigger] all[k],
        ) by {
            if k < some.len() {
                assert(all[k] == some[k]);
                assert(loss_of_one(front, similarities, world, some[k]));
                let i = choose|i: int|
                    0 <= i < front.len() && #[trigger] front[i].loses(similarities[i], world)
                        && some[k] == (front[i].id, similarities[i]);
                assert(memories[i] == front[i]);
                assert(memories[i].loses(similarities[i], world));
            } else {
                assert(memories[last].loses(similarities[last], world));
            }
        }
    }
}

/// Searching deletes nothing. A memory that is shown has been read once more and gains by its rank;
/// all others are as they were.
pub proof fn law_searching_counts_what_it_shows(
    memories: Seq<RecordModel>,
    scores: Seq<Score>,
    options: SearchModel,
    world: World,
)
    requires
        memories.len() <= usize::MAX,
    ensures
        ({
            let hits = shown(memories, scores, options, world);
            let after = all_after_retrieval(memories, hits);
            &&& after.len() == memories.len()
            &&& forall|k: int|
                0 <= k < hits.len() ==> after[(#[trigger] hits[k]).index as int]
                    == memories[hits[k].index as int].retrieved(k as usize)
            &&& forall|i: int|
                0 <= i < memories.len() && (forall|k: int|
                    0 <= k < hits.len() ==> (#[trigger] hits[k]).index != i)
                    ==> #[trigger] after[i] == memories[i]
        }),
{
    let search = normal_search(options);
    let hits = shown(memories, scores, options, world);
    let after = all_after_retrieval(memories, hits);
    lemma_hits_fit(memories, scores, search, world);
    lemma_page_fits(
        hits_of(memories, scores, search, world),
        memories,
        search.offset as int,
        search.limit as int,
    );
    law_search_shows_what_it_finds(memories, scores, options, world);
    assert forall|k: int| 0 <= k < hits.len() implies after[(#[trigger] hits[k]).index as int]
        == memories[hits[k].index as int].retrieved(k as usize) by {
        lemma_rank(hits, memories, k);
    }
    assert forall|i: int|
        0 <= i < memories.len() && (forall|k: int|
            0 <= k < hits.len() ==> (#[trigger] hits[k]).index != i) implies #[trigger] after[i]
        == memories[i] by {
        lemma_not_retrieved(hits, i);
    }
}

proof fn lemma_rank(hits: Seq<Hit>, memories: Seq<RecordModel>, k: int)
    requires
        hits_fit(hits, memories),
        0 <= k < hits.len(),
    ensures
        rank_of(hits, hits[k].index as int) == Some(k as usize),
    decreases hits.len(),
{
    if k < hits.len() - 1 {
        let front = hits.drop_last();
        assert(hits[k].index != hits[hits.len() - 1].index);
        assert(front[k] == hits[k]);
        assert forall|j: int| 0 <= j < front.len() implies (#[trigger] front[j]).index
            < memories.len() && front[j].id == memories[front[j].index as int].id by {
            assert(front[j] == hits[j]);
        }
        assert forall|i: int, j: int| 0 <= i < j < front.len() implies (#[trigger] front[i]).index
            != (#[trigger] front[j]).index by {
            assert(front[i] == hits[i] && front[j] == hits[j]);
        }
        lemma_rank(front, memories, k);
    }
}

/// A memory that may be read a number of times is never read more often: a search shows it only
/// while reads are left, and counts each one.
pub proof fn law_reads_stay_within_the_limit(
    memories: Seq<RecordModel>,
    scores: Seq<Score>,
    options: SearchModel,
    world: World,
    index: int,
)
    requires
        memories.len() <= usize::MAX,
        0 <= index < memories.len(),
        memories[index].expiration_condition == Some(ExpirationCondition::Usage),
        memories[index].expiration_value is Some,
        usage_limit(memories[index].expiration_value->Some_0) is Ok,
        memories[index].usage_count <= usage_limit(memories[index].expiration_value->Some_0)->Ok_0,
    ensures
        ({
            let limit = usage_limit(memories[index].expiration_value->Some_0)->Ok_0;
            let hits = shown(memories, scores, options, world);
            let after = all_after_retrieval(memories, hits);
            &&& after[index].usage_count <= limit
            &&& memories[index].usage_count == limit ==> forall|k: int|
                0 <= k < hits.len() ==> (#[trigger] hits[k]).index != index
        }),
{
    law_search_shows_what_it_finds(memories, scores, options, world);
    law_searching_counts_what_it_shows(memories, scores, options, world);
    let limit = usage_limit(memories[index].expiration_value->Some_0)->Ok_0;
    let hits = shown(memories, scores, options, world);
    let after = all_after_retrieval(memories, hits);
    if exists|k: int| 0 <= k < hits.len() && (#[trigger] hits[k]).index == index {
        let k = choose|k: int| 0 <= k < hits.len() && (#[trigger] hits[k]).index == index;
        assert(memories[hits[k].index as int].found(normal_search(options), world));
        assert(after[hits[k].index as int] == memories[index].retrieved(k as usize));
    } else {
        assert(after[index] == memories[index]);
    }
}

/// Alerts are given once, and to their session alone: after a session has got its alerts none is
/// left for it, and the other sessions have theirs as before.
pub proof fn law_alerts_are_given_once(
    alerts: Seq<(i64, AlertModel)>,
    session: Seq<char>,
    other: Seq<char>,
)
    requires
        other != session,
    ensures
        session_alerts(other_alerts(alerts, session), session) == Seq::<AlertModel>::empty(),
        session_alerts(other_alerts(alerts, session), other) == session_alerts(alerts, other),
    decreases alerts.len(),
{
    reveal(Seq::filter);
    if alerts.len() > 0 {
        let front = alerts.drop_last();
        let last = alerts.last();
        law_alerts_are_given_once(front, session, other);
        let rest = other_alerts(alerts, session);
        let some = other_alerts(front, session);
        assert(session_alerts(alerts, other) =~= if last.1.session_ref == other {
            session_alerts(front, other).push(last.1)
        } else {
            session_alerts(front, other)
        });
        if last.1.session_ref == session {
            assert(rest == some);
        } else {
            assert(rest == some.push(last));
            assert(some.push(last).drop_last() =~= some);
            assert(session_alerts(rest, session) =~= session_alerts(some, session));
            assert(session_alerts(rest, other) =~= if last.1.session_ref == other {
                session_alerts(some, other).push(last.1)
            } else {
                session_alerts(some, other)
            });
        }
    } else {
        assert(session_alerts(other_alerts(alerts, session), session) =~= Seq::empty());
    }
}

/// An alert that was left is the last that its session gets, and no other session sees it.
pub proof fn law_alert_reaches_its_session(
    store: StoreModel,
    session: Seq<char>,
    content: Seq<char>,
    other: Seq<char>,
)
    requires
        after_alert(store, session, content) is Ok,
        other != trim(session),
    ensures
        ({
            let after = after_alert(store, session, content)->Ok_0;
            let alert = AlertModel { session_ref: trim(session), content: trim(content) };
            &&& session_alerts(after.alerts, trim(session)) == session_alerts(
                store.alerts,
                trim(session),
            ).push(alert)
            &&& session_alerts(after.alerts, other) == session_alerts(store.alerts, other)
            &&& after.memories == store.memories
        }),
{
    reveal(Seq::filter);
    let after = after_alert(store, session, content)->Ok_0;
    assert(after.alerts.drop_last() =~= store.alerts);
    assert(session_alerts(after.alerts, trim(session)) =~= session_alerts(
        store.alerts,
        trim(session),
    ).push(after.alerts.last().1));
    assert(session_alerts(after.alerts, other) =~= session_alerts(store.alerts, other));
}

/// Two lists that summarize the same counts are the same list.
pub proof fn law_summary_is_unique(
    one: Seq<TagSummary>,
    two: Seq<TagSummary>,
    count: spec_fn(Seq<char>) -> int,
)
    requires
        summarizes(one, count),
        summarizes(two, count),
    ensures
        one.len() == two.len(),
        forall|i: int|
            0 <= i < one.len() ==> (#[trigger] one[i]).tag@ == two[i].tag@ && one[i].count
                == two[i].count,
    decreases one.len() + two.len(),
{
    if one.len() > 0 && two.len() > 0 {
        let (last, other) = (one.last(), two.last());
        lemma_last_is_greatest(one, two, count);
        lemma_last_is_greatest(two, one, count);
        law_text_order(last.tag@, other.tag@, last.tag@);
        assert(last.tag@ == other.tag@);
        assert(one[one.len() - 1].count == capped(count(last.tag@)));
        assert(two[two.len() - 1].count == capped(count(other.tag@)));
        let rest = |tag: Seq<char>|
            if tag == last.tag@ {
                0
            } else {
                count(tag)
            };
        lemma_without_last(one, count, rest);
        lemma_without_last(two, count, rest);
        law_summary_is_unique(one.drop_last(), two.drop_last(), rest);
        assert forall|i: int| 0 <= i < one.len() implies (#[trigger] one[i]).tag@ == two[i].tag@
            && one[i].count == two[i].count by {
            if i < one.len() - 1 {
                assert(one.drop_last()[i] == one[i] && two.drop_last()[i] == two[i]);
            }
        }
    } else if one.len() > 0 {
        assert(one[0].count == capped(count(one[0].tag@)));
        assert(count(one[0].tag@) > 0);
    } else if two.len() > 0 {
        assert(two[0].count == capped(count(two[0].tag@)));
        assert(count(two[0].tag@) > 0);
    }
}

proof fn lemma_last_is_greatest(
    one: Seq<TagSummary>,
    two: Seq<TagSummary>,
    count: spec_fn(Seq<char>) -> int,
)
    requires
        summarizes(one, count),
        summarizes(two, count),
        one.len() > 0,
    ensures
        two.len() > 0,
        !before(two.last().tag@, one.last().tag@),
{
    let tag = one.last().tag@;
    assert(one[one.len() - 1].count == capped(count(tag)) && count(tag) > 0);
    let i = choose|i: int| 0 <= i < two.len() && (#[trigger] two[i]).tag@ == tag;
    assert(two[i].tag@ == tag);
    if i < two.len() - 1 {
        assert(before(two[i].tag@, two[two.len() - 1].tag@));
    }
    law_text_order(tag, two.last().tag@, tag);
}

proof fn lemma_without_last(
    list: Seq<TagSummary>,
    count: spec_fn(Seq<char>) -> int,
    rest: spec_fn(Seq<char>) -> int,
)
    requires
        summarizes(list, count),
        list.len() > 0,
        forall|tag: Seq<char>| #[trigger]
            rest(tag) == if tag == list.last().tag@ {
                0
            } else {
                count(tag)
            },
    ensures
        summarizes(list.drop_last(), rest),
{
    let front = list.drop_last();
    let last = list.len() - 1;
    law_text_order(list[last].tag@, list[last].tag@, list[last].tag@);
    assert forall|i: int, j: int| 0 <= i < j < front.len() implies before(
        (#[trigger] front[i]).tag@,
        (#[trigger] front[j]).tag@,
    ) by {
        assert(before(list[i].tag@, list[j].tag@));
    }
    assert forall|i: int| 0 <= i < front.len() implies (#[trigger] front[i]).count == capped(
        rest(front[i].tag@),
    ) && rest(front[i].tag@) > 0 by {
        assert(list[i].count == capped(count(list[i].tag@)) && count(list[i].tag@) > 0);
        assert(before(list[i].tag@, list[last].tag@));
    }
    assert forall|tag: Seq<char>| #[trigger] rest(tag) > 0 implies exists|i: int|
        0 <= i < front.len() && (#[trigger] front[i]).tag@ == tag by {
        assert(count(tag) > 0);
        let i = choose|i: int| 0 <= i < list.len() && (#[trigger] list[i]).tag@ == tag;
        assert(front[i].tag@ == tag);
    }
}

/// Without a filter the tags listed are those of the memories that are still there: an expired
/// memory's tags do not count, and no tag of another is left out.
pub proof fn law_tags_listed_are_those_in_use(
    list: Seq<TagSummary>,
    memories: Seq<RecordModel>,
    similar: Seq<(String, Score)>,
    world: World,
    tag: Seq<char>,
)
    requires
        summarizes(list, filtered_uses(memories, None, similar, world)),
    ensures
        (exists|i: int| 0 <= i < list.len() && (#[trigger] list[i]).tag@ == tag) <==> (exists|
            m: int,
        |
            0 <= m < memories.len() && (#[trigger] memories[m]).live(world)
                && memories[m].tags.contains(tag)),
{
    let count = filtered_uses(memories, None, similar, world);
    lemma_in_use(memories, tag, world);
    assert(count(tag) == uses(memories, tag, world));
    if exists|i: int| 0 <= i < list.len() && (#[trigger] list[i]).tag@ == tag {
        let i = choose|i: int| 0 <= i < list.len() && (#[trigger] list[i]).tag@ == tag;
        assert(list[i].count == capped(count(list[i].tag@)) && count(list[i].tag@) > 0);
    }
}

/// The tags of a stored memory are listed as long as it has not expired.
pub proof fn law_stored_tags_are_listed(
    list: Seq<TagSummary>,
    store: StoreModel,
    input: SetModel,
    similarities: Seq<Score>,
    world: World,
    similar: Seq<(String, Score)>,
    later: World,
    tag: Seq<char>,
)
    requires
        after_set(store, input, similarities, world) is Ok,
        after_set(store, input, similarities, world)->Ok_0.memories.last().live(later),
        normal_memory(input, world.environment)->Ok_0.tags.contains(tag),
        summarizes(
            list,
            filtered_uses(
                after_set(store, input, similarities, world)->Ok_0.memories,
                None,
                similar,
                later,
            ),
        ),
    ensures
        exists|i: int| 0 <= i < list.len() && (#[trigger] list[i]).tag@ == tag,
{
    let after = after_set(store, input, similarities, world)->Ok_0;
    law_tags_listed_are_those_in_use(list, after.memories, similar, later, tag);
    assert(after.memories[after.memories.len() - 1].live(later));
}

proof fn lemma_in_use(memories: Seq<RecordModel>, tag: Seq<char>, world: World)
    ensures
        uses(memories, tag, world) > 0 <==> (exists|m: int|
            0 <= m < memories.len() && (#[trigger] memories[m]).live(world)
                && memories[m].tags.contains(tag)),
    decreases memories.len(),
{
    if memories.len() > 0 {
        let front = memories.drop_last();
        let last = memories.len() - 1;
        lemma_in_use(front, tag, world);
        lemma_occurs(memories[last].tags, tag);
        lemma_uses_bound(front, tag, world);
        lemma_occurrences_bound(memories[last].tags, tag);
        if uses(memories, tag, world) > 0 {
            if uses(front, tag, world) > 0 {
                let m = choose|m: int|
                    0 <= m < front.len() && (#[trigger] front[m]).live(world)
                        && front[m].tags.contains(tag);
                assert(memories[m] == front[m]);
            } else {
                assert(memories[last].live(world) && memories[last].tags.contains(tag));
            }
        }
        if exists|m: int|
            0 <= m < memories.len() && (#[trigger] memories[m]).live(world)
                && memories[m].tags.contains(tag) {
            let m = choose|m: int|
                0 <= m < memories.len() && (#[trigger] memories[m]).live(world)
                    && memories[m].tags.contains(tag);
            if m < last {
                assert(front[m] == memories[m]);
            }
        }
    }
}

proof fn lemma_occurs(tags: Seq<Seq<char>>, tag: Seq<char>)
    ensures
        occurrences(tags, tag) > 0 <==> tags.contains(tag),
    decreases tags.len(),
{
    if tags.len() > 0 {
        let front = tags.drop_last();
        lemma_occurs(front, tag);
        lemma_occurrences_bound(front, tag);
        if tags.contains(tag) {
            let i = choose|i: int| 0 <= i < tags.len() && tags[i] == tag;
            if i < tags.len() - 1 {
                assert(front[i] == tag);
            }
        }
        if front.contains(tag) {
            let i = choose|i: int| 0 <= i < front.len() && front[i] == tag;
            assert(tags[i] == tag);
        }
        if tags.last() == tag {
            assert(tags[tags.len() - 1] == tag);
        }
    }
}

/// Whether the memory at `index` is among hits.
pub open spec fn listed(hits: Seq<Hit>, index: int) -> bool {
    exists|k: int| 0 <= k < hits.len() && (#[trigger] hits[k]).index == index
}

/// Unwanted tags never keep a memory out: a search that asks for as many memories as there are
/// shows the same memories with unwanted tags and without, whatever the scores.
pub proof fn law_unwanted_tags_exclude_nothing(
    memories: Seq<RecordModel>,
    scores: Seq<Score>,
    other_scores: Seq<Score>,
    options: SearchModel,
    unwanted: Seq<Seq<char>>,
    world: World,
    index: int,
)
    requires
        memories.len() <= usize::MAX,
        options.offset == 0,
        options.limit >= memories.len(),
        0 <= index < memories.len(),
    ensures
        listed(shown(memories, scores, options, world), index) <==> listed(
            shown(
                memories,
                other_scores,
                SearchModel { negative_tags: unwanted, ..options },
                world,
            ),
            index,
        ),
        listed(shown(memories, scores, options, world), index) <==> memories[index].found(
            normal_search(options),
            world,
        ),
{
    let other = SearchModel { negative_tags: unwanted, ..options };
    lemma_listed_is_found(memories, scores, options, world, index);
    lemma_listed_is_found(memories, other_scores, other, world, index);
    assert(memories[index].found(normal_search(options), world) == memories[index].found(
        normal_search(other),
        world,
    ));
}

proof fn lemma_listed_is_found(
    memories: Seq<RecordModel>,
    scores: Seq<Score>,
    options: SearchModel,
    world: World,
    index: int,
)
    requires
        memories.len() <= usize::MAX,
        options.offset == 0,
        options.limit >= memories.len(),
        0 <= index < memories.len(),
    ensures
        listed(shown(memories, scores, options, world), index) <==> memories[index].found(
            normal_search(options),
            world,
        ),
{
    let hits = shown(memories, scores, options, world);
    law_search_shows_what_it_finds(memories, scores, options, world);
    if memories[index].found(normal_search(options), world) {
        law_search_misses_nothing(memories, scores, options, world, index);
    }
    if listed(hits, index) {
        let k = choose|k: int| 0 <= k < hits.len() && (#[trigger] hits[k]).index == index;
        assert(memories[hits[k].index as int].found(normal_search(options), world));
    }
}

/// Unwanted tags change one term of a memory's score and no other: each different unwanted tag that
/// the memory has counts once.
pub proof fn law_unwanted_tags_count_once(
    memory: RecordModel,
    options: SearchModel,
    unwanted: Seq<Seq<char>>,
    without: ScoreTerms,
    with: ScoreTerms,
)
    requires
        options.negative_tags.len() == 0,
        terms_hold(without, memory, normal_search(options)),
        terms_hold(
            with,
            memory,
            normal_search(SearchModel { negative_tags: unwanted, ..options }),
        ),
    ensures
        without.negative_tags == 0,
        with.negative_tags == normal_tags(unwanted).to_set().intersect(memory.tags.to_set()).len(),
        with == (ScoreTerms { negative_tags: with.negative_tags, ..without }),
{
    assert(normal_tags(options.negative_tags) =~= Seq::empty());
    law_normal_tags(unwanted);
    lemma_common_tags(normal_tags(unwanted), memory.tags);
}

proof fn lemma_common_tags(wanted: Seq<Seq<char>>, tags: Seq<Seq<char>>)
    requires
        wanted.no_duplicates(),
    ensures
        common_tags(wanted, tags) == wanted.to_set().intersect(tags.to_set()).len(),
    decreases wanted.len(),
{
    broadcast use vstd::set::group_set_axioms;

    let both = wanted.to_set().intersect(tags.to_set());
    if wanted.len() > 0 {
        let front = wanted.drop_last();
        let last = wanted.last();
        let some = front.to_set().intersect(tags.to_set());
        assert(front.no_duplicates());
        lemma_common_tags(front, tags);
        vstd::seq_lib::seq_to_set_is_finite(front);
        assert(!front.contains(last)) by {
            if front.contains(last) {
                let i = choose|i: int| 0 <= i < front.len() && front[i] == last;
                assert(wanted[i] == wanted[wanted.len() - 1]);
            }
        }
        assert forall|tag: Seq<char>| wanted.contains(tag) <==> front.contains(tag) || tag
            == last by {
            if wanted.contains(tag) {
                let i = choose|i: int| 0 <= i < wanted.len() && wanted[i] == tag;
                if i < front.len() {
                    assert(front[i] == tag);
                }
            }
            if front.contains(tag) {
                let i = choose|i: int| 0 <= i < front.len() && front[i] == tag;
                assert(wanted[i] == tag);
            }
            assert(wanted[wanted.len() - 1] == last);
        }
        if tags.contains(last) {
            assert(both =~= some.insert(last));
        } else {
            assert(both =~= some);
        }
    } else {
        assert(both =~= Set::empty());
    }
}

/// A search that the service makes for a session shows memories of that session alone.
pub proof fn law_session_search_shows_its_own(
    memories: Seq<RecordModel>,
    scores: Seq<Score>,
    session: Seq<char>,
    payload: MemoryGetPayload,
    world: World,
)
    requires
        memories.len() <= usize::MAX,
        payload.mode == Some(MemoryMode::Session),
    ensures
        search_asked_for(session, payload, world.environment) is Ok,
        ({
            let options = search_asked_for(session, payload, world.environment)->Ok_0;
            let hits = shown(memories, scores, options, world);
            forall|k: int|
                0 <= k < hits.len() ==> memories[(#[trigger] hits[k]).index as int].mode
                    == MemoryMode::Session && memories[hits[k].index as int].mode_ref == Some(
                    session,
                )
        }),
{
    let options = search_asked_for(session, payload, world.environment)->Ok_0;
    law_search_shows_what_it_finds(memories, scores, options, world);
    let hits = shown(memories, scores, options, world);
    assert forall|k: int| 0 <= k < hits.len() implies memories[(
    #[trigger] hits[k]).index as int].mode == MemoryMode::Session && memories[hits[k].index as int].mode_ref
        == Some(session) by {
        assert(memories[hits[k].index as int].found(normal_search(options), world));
    }
}

/// What one session stores through the service, no search of another session lists, whatever it
/// asks for; a search of its own for tags that it has, and for as many memories as there are, does,
/// as long as it has not expired.
pub proof fn law_session_memories_are_its_own(
    store: StoreModel,
    session: Seq<char>,
    other: Seq<char>,
    stored: MemorySetPayload,
    similarities: Seq<Score>,
    world: World,
    asked: MemoryGetPayload,
    scores: Seq<Score>,
    later: World,
)
    requires
        store.well_formed(),
        store.memories.len() < usize::MAX,
        session != other,
        session.len() > 0,
        trim(session) == session,
        stored.mode == MemoryMode::Session,
        asked.mode == Some(MemoryMode::Session),
        memory_asked_for(session, stored, world.environment) is Ok,
        after_set(
            store,
            memory_asked_for(session, stored, world.environment)->Ok_0,
            similarities,
            world,
        ) is Ok,
    ensures
        ({
            let after = after_set(
                store,
                memory_asked_for(session, stored, world.environment)->Ok_0,
                similarities,
                world,
            )->Ok_0;
            let theirs = shown(
                after.memories,
                scores,
                search_asked_for(other, asked, later.environment)->Ok_0,
                later,
            );
            let search = search_asked_for(session, asked, later.environment)->Ok_0;
            let own = shown(after.memories, scores, search, later);
            &&& forall|k: int|
                0 <= k < theirs.len() ==> (#[trigger] theirs[k]).id != after.last_id
            &&& after.memories.last().live(later) && after.memories.last().tagged(
                normal_tags(search.positive_tags),
            ) && search.offset == 0 && search.limit > store.memories.len() ==> exists|k: int|
                0 <= k < own.len() && {
                    let result = #[trigger] hit_results(after.memories, own)[k];
                    result.id == after.last_id && result.mode_ref == Some(session)
                }
        }),
{
    let input = memory_asked_for(session, stored, world.environment)->Ok_0;
    let after = after_set(store, input, similarities, world)->Ok_0;
    let new = store.memories.len() as int;
    assert(normal_memory(input, world.environment)->Ok_0.mode_ref == Some(session));
    assert(after.memories[new] == after.memories.last());
    assert(after.memories[new].mode_ref == Some(session));
    law_identifiers_are_new(store, input, similarities, world);
    law_session_search_shows_its_own(after.memories, scores, other, asked, later);
    let theirs = shown(
        after.memories,
        scores,
        search_asked_for(other, asked, later.environment)->Ok_0,
        later,
    );
    law_search_shows_what_it_finds(
        after.memories,
        scores,
        search_asked_for(other, asked, later.environment)->Ok_0,
        later,
    );
    assert forall|k: int| 0 <= k < theirs.len() implies (#[trigger] theirs[k]).id
        != after.last_id by {
        let index = theirs[k].index as int;
        assert(after.memories[index].mode_ref == Some(other));
        if index < new {
            assert(after.memories[index].id < after.memories[new].id);
        }
    }
    let search = search_asked_for(session, asked, later.environment)->Ok_0;
    if after.memories.last().live(later) && after.memories.last().tagged(
        normal_tags(search.positive_tags),
    ) && search.offset == 0 && search.limit > store.memories.len() {
        law_stored_memory_is_found(store, input, similarities, world, scores, search, later);
        let own = shown(after.memories, scores, search, later);
        let k = choose|k: int|
            0 <= k < own.len() && (#[trigger] hit_results(after.memories, own)[k]).id
                == after.last_id && hit_results(after.memories, own)[k].mode_ref == Some(session);
        assert(hit_results(after.memories, own)[k].id == after.last_id);
    }
}

/// A filter leaves out tags and does nothing else: what is listed with it is listed without it, in
/// the same order and with the same counts. Of the tags that are listed without it, those that it
/// occurs in stay, and besides those only similar ones.
pub proof fn law_filter_only_leaves_out(
    all: Seq<TagSummary>,
    some: Seq<TagSummary>,
    memories: Seq<RecordModel>,
    filter: Seq<char>,
    similar: Seq<(String, Score)>,
    world: World,
)
    requires
        trim(filter).len() > 0,
        summarizes(all, filtered_uses(memories, None, similar, world)),
        summarizes(some, filtered_uses(memories, Some(filter), similar, world)),
    ensures
        forall|i: int|
            0 <= i < some.len() ==> lists_as(all, #[trigger] some[i]) && (contains_text(
                some[i].tag@,
                lower(trim(filter)),
            ) || similar_enough(some[i].tag@, similar)),
        forall|i: int, j: int, k: int, l: int|
            0 <= i < k < some.len() && 0 <= j < all.len() && 0 <= l < all.len() && (
            #[trigger] some[i]).tag@ == (#[trigger] all[j]).tag@ && (#[trigger] some[k]).tag@ == (
            #[trigger] all[l]).tag@ ==> j < l,
        forall|j: int|
            0 <= j < all.len() && contains_text(
                (#[trigger] all[j]).tag@,
                lower(trim(filter)),
            ) ==> lists_as(some, all[j]),
{
    let every = filtered_uses(memories, None, similar, world);
    let kept = filtered_uses(memories, Some(filter), similar, world);
    assert forall|i: int| 0 <= i < some.len() implies lists_as(all, #[trigger] some[i]) && (
    contains_text(some[i].tag@, lower(trim(filter))) || similar_enough(
        some[i].tag@,
        similar,
    )) by {
        let tag = some[i].tag@;
        assert(some[i].count == capped(kept(tag)) && kept(tag) > 0);
        assert(passes(tag, Some(filter), similar));
        assert(every(tag) == kept(tag));
        let j = choose|j: int| 0 <= j < all.len() && (#[trigger] all[j]).tag@ == tag;
        assert(all[j].count == capped(every(all[j].tag@)));
    }
    assert forall|i: int, j: int, k: int, l: int|
        0 <= i < k < some.len() && 0 <= j < all.len() && 0 <= l < all.len() && (
        #[trigger] some[i]).tag@ == (#[trigger] all[j]).tag@ && (#[trigger] some[k]).tag@ == (
        #[trigger] all[l]).tag@ implies j < l by {
        assert(before(some[i].tag@, some[k].tag@));
        law_text_order(all[j].tag@, all[l].tag@, all[j].tag@);
        if l < j {
            assert(before(all[l].tag@, all[j].tag@));
        }
    }
    assert forall|j: int|
        0 <= j < all.len() && contains_text(
            (#[trigger] all[j]).tag@,
            lower(trim(filter)),
        ) implies lists_as(some, all[j]) by {
        let tag = all[j].tag@;
        assert(all[j].count == capped(every(tag)) && every(tag) > 0);
        assert(passes(tag, Some(filter), similar));
        assert(kept(tag) > 0);
        let i = choose|i: int| 0 <= i < some.len() && (#[trigger] some[i]).tag@ == tag;
        assert(some[i].count == capped(kept(some[i].tag@)));
    }
}

/// Whether a list has an entry with the tag and the count of `summary`.
pub open spec fn lists_as(list: Seq<TagSummary>, summary: TagSummary) -> bool {
    exists|i: int|
        0 <= i < list.len() && (#[trigger] list[i]).tag@ == summary.tag@ && list[i].count
            == summary.count
}

} // verus!
