//! Searching the store.
use vstd::prelude::*;

use crate::input::{
    copy_optional, copy_texts, normal_search, normalize_search_options, SearchModel, SearchOptions,
    World,
};
use crate::ranking::{page, rank_hits, ranked, Hit};
use crate::record::{
    records, score_terms, terms_hold, MemoryRecord, MemorySearchResult, MemoryStore,
    RecordModel, ResultModel, ScoreTerms, StoreModel,
};
use crate::score::Score;

verus! {

/// What a list of results says.
pub open spec fn results(list: Seq<MemorySearchResult>) -> Seq<ResultModel> {
    list.map_values(|result: MemorySearchResult| result@)
}

/// The memories that a search in normal form finds, each with its score. `scores` has one score
/// for each memory.
pub open spec fn hits_of(
    memories: Seq<RecordModel>,
    scores: Seq<Score>,
    search: SearchModel,
    world: World,
) -> Seq<Hit>
    decreases memories.len(),
{
    if memories.len() == 0 {
        Seq::empty()
    } else {
        let front = hits_of(memories.drop_last(), scores, search, world);
        let last = memories.len() - 1;
        if memories[last].found(search, world) {
            front.push(Hit { score: scores[last], id: memories[last].id, index: last as usize })
        } else {
            front
        }
    }
}

/// The hits that a search shows: the asked-for page of the ranking of what it finds.
pub open spec fn shown(
    memories: Seq<RecordModel>,
    scores: Seq<Score>,
    options: SearchModel,
    world: World,
) -> Seq<Hit> {
    let search = normal_search(options);
    page(
        ranked(hits_of(memories, scores, search, world)),
        search.offset as int,
        search.limit as int,
    )
}

/// The results that stand for hits.
pub open spec fn hit_results(memories: Seq<RecordModel>, hits: Seq<Hit>) -> Seq<ResultModel> {
    Seq::new(hits.len(), |k: int| memories[hits[k].index as int].as_result(hits[k].score))
}

/// The rank at which the memory at `index` was retrieved, if it was.
pub open spec fn rank_of(hits: Seq<Hit>, index: int) -> Option<usize>
    decreases hits.len(),
{
    if hits.len() == 0 {
        None
    } else if hits.last().index == index {
        Some((hits.len() - 1) as usize)
    } else {
        rank_of(hits.drop_last(), index)
    }
}

/// A memory after hits were retrieved, where it stood at `index`.
pub open spec fn after_retrieval(memory: RecordModel, hits: Seq<Hit>, index: int) -> RecordModel {
    match rank_of(hits, index) {
        Some(rank) => memory.retrieved(rank),
        None => memory,
    }
}

/// The memories after hits were retrieved: each of those gains by its rank and has been read once
/// more, the others are as they were.
pub open spec fn all_after_retrieval(memories: Seq<RecordModel>, hits: Seq<Hit>) -> Seq<
    RecordModel,
> {
    Seq::new(memories.len(), |i: int| after_retrieval(memories[i], hits, i))
}

/// Whether hits point at different memories, each at its own.
pub open spec fn hits_fit(hits: Seq<Hit>, memories: Seq<RecordModel>) -> bool {
    &&& forall|k: int|
        0 <= k < hits.len() ==> (#[trigger] hits[k]).index < memories.len() && hits[k].id
            == memories[hits[k].index as int].id
    &&& forall|k: int, l: int|
        0 <= k < l < hits.len() ==> (#[trigger] hits[k]).index != (#[trigger] hits[l]).index
}

pub proof fn lemma_hits_fit(
    memories: Seq<RecordModel>,
    scores: Seq<Score>,
    search: SearchModel,
    world: World,
)
    requires
        memories.len() <= usize::MAX,
    ensures
        hits_fit(hits_of(memories, scores, search, world), memories),
        forall|k: int|
            0 <= k < hits_of(memories, scores, search, world).len() ==> {
                let hit = #[trigger] hits_of(memories, scores, search, world)[k];
                memories[hit.index as int].found(search, world) && hit.score
                    == scores[hit.index as int]
            },
        forall|i: int|
            0 <= i < memories.len() && (#[trigger] memories[i]).found(search, world)
                ==> hits_of(memories, scores, search, world).contains(
                Hit { score: scores[i], id: memories[i].id, index: i as usize },
            ),
    decreases memories.len(),
{
    if memories.len() > 0 {
        let front = memories.drop_last();
        let last = memories.len() - 1;
        let some = hits_of(front, scores, search, world);
        let all = hits_of(memories, scores, search, world);
        lemma_hits_fit(front, scores, search, world);
        assert forall|k: int| 0 <= k < all.len() implies {
            let hit = #[trigger] all[k];
            &&& hit.index < memories.len()
            &&& hit.id == memories[hit.index as int].id
            &&& memories[hit.index as int].found(search, world)
            &&& hit.score == scores[hit.index as int]
            &&& k < some.len() ==> hit.index < last
        } by {
            if k < some.len() {
                let hit = some[k];
                assert(all[k] == hit);
                assert(front[hit.index as int] == memories[hit.index as int]);
            }
        }
        assert forall|k: int, l: int| 0 <= k < l < all.len() implies (#[trigger] all[k]).index != (
        #[trigger] all[l]).index by {
            if l < some.len() {
                assert(all[k] == some[k] && all[l] == some[l]);
            } else {
                assert(all[k] == some[k]);
                assert(some[k].index < front.len());
            }
        }
        assert forall|i: int|
            0 <= i < memories.len() && (#[trigger] memories[i]).found(
                search,
                world,
            ) implies all.contains(
            Hit { score: scores[i], id: memories[i].id, index: i as usize },
        ) by {
            let hit = Hit { score: scores[i], id: memories[i].id, index: i as usize };
            if i < last {
                assert(front[i] == memories[i]);
                assert(some.contains(hit));
                let k = choose|k: int| 0 <= k < some.len() && some[k] == hit;
                assert(all[k] == hit);
            } else {
                assert(all[all.len() - 1] == hit);
            }
        }
    }
}

pub proof fn lemma_page_fits(hits: Seq<Hit>, memories: Seq<RecordModel>, offset: int, limit: int)
    requires
        hits_fit(hits, memories),
        0 <= offset,
        0 <= limit,
    ensures
        hits_fit(ranked(hits), memories),
        hits_fit(page(ranked(hits), offset, limit), memories),
{
    broadcast use vstd::seq_lib::group_to_multiset_ensures;

    crate::ranking::law_ranking(hits);
    let all = ranked(hits);
    assert forall|k: int| 0 <= k < all.len() implies (#[trigger] all[k]).index < memories.len()
        && all[k].id == memories[all[k].index as int].id by {
        assert(hits.contains(all[k]));
        let j = choose|j: int| 0 <= j < hits.len() && hits[j] == all[k];
        assert(hits[j] == all[k]);
    }
    assert(hits.no_duplicates()) by {
        assert forall|k: int, l: int|
            0 <= k < hits.len() && 0 <= l < hits.len() && k != l implies hits[k] != hits[l] by {
            if k < l {
                assert(hits[k].index != hits[l].index);
            } else {
                assert(hits[l].index != hits[k].index);
            }
        }
    }
    assert forall|k: int, l: int| 0 <= k < l < all.len() implies (#[trigger] all[k]).index != (
    #[trigger] all[l]).index by {
        assert(hits.contains(all[k]) && hits.contains(all[l]));
        let i = choose|i: int| 0 <= i < hits.len() && hits[i] == all[k];
        let j = choose|j: int| 0 <= j < hits.len() && hits[j] == all[l];
        if i == j {
            assert(all[k] == all[l]);
            hits.lemma_multiset_has_no_duplicates();
            all.lemma_multiset_has_no_duplicates_conv();
        } else if i < j {
            assert(hits[i].index != hits[j].index);
        } else {
            assert(hits[j].index != hits[i].index);
        }
    }
    let part = page(all, offset, limit);
    let from = if offset < all.len() {
        offset
    } else {
        all.len() as int
    };
    assert forall|k: int| 0 <= k < part.len() implies #[trigger] part[k] == all[from + k] by {}
}

impl MemoryRecord {
    /// The memory as the result of a search.
    pub fn to_result(&self, score: Score) -> (r: MemorySearchResult)
        ensures
            r@ == self@.as_result(score),
    {
        MemorySearchResult {
            id: self.id,
            content: self.content.clone(),
            mode: self.mode,
            mode_ref: copy_optional(&self.mode_ref),
            tags: copy_texts(&self.tags),
            score,
            positive_score: self.positive_score.clone(),
            negative_score: self.negative_score.clone(),
            usage_count: self.usage_count,
            metadata: copy_optional(&self.metadata),
            created_at: self.created_at,
        }
    }
}

pub proof fn lemma_not_retrieved(hits: Seq<Hit>, index: int)
    requires
        forall|k: int| 0 <= k < hits.len() ==> (#[trigger] hits[k]).index != index,
    ensures
        rank_of(hits, index) is None,
    decreases hits.len(),
{
    if hits.len() > 0 {
        assert(hits[hits.len() - 1].index != index);
        assert forall|k: int| 0 <= k < hits.len() - 1 implies (#[trigger] hits.drop_last()[k]).index
            != index by {
            assert(hits.drop_last()[k] == hits[k]);
        }
        lemma_not_retrieved(hits.drop_last(), index);
    }
}

impl MemoryStore {
    /// The memories that a search in normal form finds, each with its score.
    fn find_hits(&self, search: &SearchOptions, world: &World, scores: &Vec<Score>) -> (r: Vec<Hit>)
        requires
            scores@.len() == self@.memories.len(),
        ensures
            r@ == hits_of(self@.memories, scores@, search@, *world),
    {
        let mut hits: Vec<Hit> = Vec::new();
        let mut i: usize = 0;
        proof {
            assert(self@.memories.take(0) =~= Seq::empty());
        }
        while i < self.memories.len()
            invariant
                i <= self.memories@.len(),
                scores@.len() == self@.memories.len(),
                self@.memories.len() == self.memories@.len(),
                hits@ == hits_of(self@.memories.take(i as int), scores@, search@, *world),
            decreases self.memories@.len() - i,
        {
            proof {
                assert(self@.memories[i as int] == self.memories@[i as int]@);
                assert(self@.memories.take(i + 1).drop_last() =~= self@.memories.take(i as int));
                assert(self@.memories.take(i + 1)[i as int] == self@.memories[i as int]);
            }
            if self.memories[i].is_found(search, world) {
                hits.push(Hit { score: scores[i], id: self.memories[i].id, index: i });
            }
            i = i + 1;
        }
        proof {
            assert(self@.memories.take(i as int) =~= self@.memories);
        }
        hits
    }

    /// Counts the retrieval of hits: each memory among them gains by its rank and has been read
    /// once more.
    fn record_retrievals(&mut self, hits: &Vec<Hit>)
        requires
            hits_fit(hits@, old(self)@.memories),
        ensures
            final(self)@ == (StoreModel {
                memories: all_after_retrieval(old(self)@.memories, hits@),
                ..old(self)@
            }),
    {
        let ghost start = self@;
        let mut rank: usize = 0;
        proof {
            assert(all_after_retrieval(start.memories, hits@.take(0)) =~= start.memories);
        }
        while rank < hits.len()
            invariant
                rank <= hits@.len(),
                hits_fit(hits@, start.memories),
                self@ == (StoreModel {
                    memories: all_after_retrieval(start.memories, hits@.take(rank as int)),
                    ..start
                }),
            decreases hits@.len() - rank,
        {
            let at: usize = hits[rank].index;
            let ghost before = self.memories@;
            let ghost done = hits@.take(rank as int);
            proof {
                assert(hits@[rank as int].index < start.memories.len());
                assert forall|k: int| 0 <= k < done.len() implies (#[trigger] done[k]).index
                    != at by {
                    assert(done[k] == hits@[k]);
                    assert(hits@[k].index != hits@[rank as int].index);
                }
                lemma_not_retrieved(done, at as int);
                assert(self@.memories == records(before));
                assert(records(before).len() == start.memories.len());
                assert(self@.memories[at as int] == start.memories[at as int]);
                assert(before[at as int]@ == self@.memories[at as int]);
            }
            let memory = &mut self.memories[at];
            if memory.usage_count < i64::MAX {
                memory.usage_count = memory.usage_count + 1;
            }
            memory.positive_score.ranks.push(rank);
            rank = rank + 1;
            proof {
                let next = hits@.take(rank as int);
                assert(next.drop_last() =~= done);
                assert(next.last() == hits@[rank - 1]);
                assert forall|i: int| 0 <= i < start.memories.len() implies #[trigger] records(
                    self.memories@,
                )[i] == after_retrieval(start.memories[i], next, i) by {
                    assert(records(before)[i] == after_retrieval(start.memories[i], done, i));
                }
                assert(records(self.memories@) =~= all_after_retrieval(start.memories, next));
            }
        }
        proof {
            assert(hits@.take(rank as int) =~= hits@);
        }
    }

    /// What the text and the tags of each memory add to its score in a search.
    pub fn score_terms(&self, options: SearchOptions) -> (r: Vec<ScoreTerms>)
        ensures
            r@.len() == self@.memories.len(),
            forall|i: int|
                0 <= i < r@.len() ==> terms_hold(
                    #[trigger] r@[i],
                    self@.memories[i],
                    normal_search(options@),
                ),
    {
        let search = normalize_search_options(options);
        let mut out: Vec<ScoreTerms> = Vec::new();
        let mut i: usize = 0;
        while i < self.memories.len()
            invariant
                i <= self.memories@.len(),
                search@ == normal_search(options@),
                out@.len() == i,
                forall|j: int|
                    0 <= j < i ==> terms_hold(#[trigger] out@[j], self@.memories[j], search@),
            decreases self.memories@.len() - i,
        {
            out.push(score_terms(&self.memories[i], &search));
            i = i + 1;
        }
        out
    }

    /// Retrieves memories: of those that belong to the scope, are still there and have all wanted
    /// tags, the asked-for page, the highest score first and, of equal scores, the later memory.
    /// `scores` has one score for each memory. What is retrieved gains by its rank and has been
    /// read once more.
    pub fn get(&mut self, options: SearchOptions, world: &World, scores: &Vec<Score>) -> (r: Vec<
        MemorySearchResult,
    >)
        requires
            old(self)@.well_formed(),
            scores@.len() == old(self)@.memories.len(),
        ensures
            results(r@) == hit_results(
                old(self)@.memories,
                shown(old(self)@.memories, scores@, options@, *world),
            ),
            final(self)@ == (StoreModel {
                memories: all_after_retrieval(
                    old(self)@.memories,
                    shown(old(self)@.memories, scores@, options@, *world),
                ),
                ..old(self)@
            }),
            forall|k: int|
                0 <= k < r@.len() ==> {
                    let memory = (#[trigger] r@[k])@;
                    &&& options.mode is Some ==> memory.mode == options.mode->Some_0
                    &&& options.mode_ref is Some ==> memory.mode_ref == options@.mode_ref
                    &&& forall|j: int|
                        0 <= j < options.positive_tags@.len() && crate::text::trim(
                            (#[trigger] options.positive_tags@[j])@,
                        ).len() > 0 ==> memory.tags.contains(
                            crate::text::lower(crate::text::trim(options.positive_tags@[j]@)),
                        )
                },
            final(self)@.well_formed(),
    {
        let ghost wanted = options.positive_tags@;
        let search = normalize_search_options(options);
        let hits = self.find_hits(&search, world, scores);
        let all = rank_hits(&hits);
        let from: usize = if search.offset < all.len() {
            search.offset
        } else {
            all.len()
        };
        let to: usize = if search.limit < all.len() - from {
            from + search.limit
        } else {
            all.len()
        };
        let mut returned: Vec<Hit> = Vec::new();
        let mut out: Vec<MemorySearchResult> = Vec::new();
        proof {
            let total = self.memories.len();
            assert(total == self@.memories.len());
            lemma_hits_fit(self@.memories, scores@, search@, *world);
            lemma_page_fits(
                hits@,
                self@.memories,
                search.offset as int,
                search.limit as int,
            );
            assert(all@.subrange(from as int, from as int) =~= Seq::empty());
        }
        let mut i: usize = from;
        while i < to
            invariant
                from <= i <= to <= all@.len(),
                hits_fit(all@, self@.memories),
                self@.memories.len() == self.memories@.len(),
                returned@ == all@.subrange(from as int, i as int),
                results(out@) == hit_results(self@.memories, returned@),
            decreases to - i,
        {
            let hit = all[i];
            let ghost before = out@;
            let ghost earlier = returned@;
            proof {
                assert(all@[i as int].index < self@.memories.len());
                assert(self@.memories[hit.index as int] == self.memories@[hit.index as int]@);
            }
            out.push(self.memories[hit.index].to_result(hit.score));
            returned.push(hit);
            i = i + 1;
            proof {
                assert(returned@ =~= all@.subrange(from as int, i as int));
                assert(results(before).len() == hit_results(self@.memories, earlier).len());
                assert(results(out@) =~= results(before).push(
                    self@.memories[hit.index as int].as_result(hit.score),
                ));
                assert(hit_results(self@.memories, returned@) =~= hit_results(
                    self@.memories,
                    earlier,
                ).push(self@.memories[hit.index as int].as_result(hit.score)));
            }
        }
        proof {
            assert(returned@ == shown(self@.memories, scores@, options@, *world));
            crate::guarantees::searching::law_searches_show_what_was_asked_for(
                self@.memories,
                scores@,
                options@,
                *world,
            );
            assert forall|k: int| 0 <= k < out@.len() implies {
                let memory = (#[trigger] out@[k])@;
                &&& options.mode is Some ==> memory.mode == options.mode->Some_0
                &&& options.mode_ref is Some ==> memory.mode_ref == options@.mode_ref
                &&& forall|j: int|
                    0 <= j < wanted.len() && crate::text::trim((#[trigger] wanted[j])@).len() > 0
                        ==> memory.tags.contains(
                        crate::text::lower(crate::text::trim(wanted[j]@)),
                    )
            } by {
                assert(results(out@)[k] == out@[k]@);
                assert(returned@[k].index < self@.memories.len());
                assert forall|j: int|
                    0 <= j < wanted.len() && crate::text::trim((#[trigger] wanted[j])@).len()
                        > 0 implies out@[k]@.tags.contains(
                    crate::text::lower(crate::text::trim(wanted[j]@)),
                ) by {
                    assert(options@.positive_tags[j] == wanted[j]@);
                }
            }
        }
        self.record_retrievals(&returned);
        out
    }
}

} // verus!
