//! The store of memories and alerts.
use vstd::prelude::*;

use crate::error::{Error, Failure};
use crate::expiration::{fingerprint_for_condition, kept_fingerprint};
use crate::input::{
    borrow_optional, memory_fits, normal_memory, normalize_set_memory, SetModel, World,
};
pub use crate::input::{infer_mode_ref, SearchOptions, SetMemory};
use crate::model::{texts, ExpirationCondition};
use crate::record::{
    alert_records, records, AlertRecord, MemoryRecord, NegativeModel, NegativeScore, PositiveModel,
    PositiveScore, RecordModel, StoreModel,
};
pub use crate::record::{Alert, MemorySearchResult, MemoryStore, TagSummary};
use crate::score::Score;
use crate::time::Instant;

verus! {

/// The bits of 0.72: a stored memory at least that similar to a new one loses relevance.
pub const SIMILAR_MEMORY_BITS: u32 = 0x3f38_51ec;

/// The place of the store on disk, unless another is given.
pub fn default_database_path() -> (r: &'static str)
    ensures
        r@ == ".mii-memory.db"@,
{
    ".mii-memory.db"
}

impl RecordModel {
    /// Whether a new memory of the given similarity makes this one less relevant.
    pub open spec fn loses(self, similarity: Score, world: World) -> bool {
        self.live(world) && similarity.at_least(Score { bits: SIMILAR_MEMORY_BITS })
    }

    /// The memory after one of the given similarity was stored.
    pub open spec fn aged(self, similarity: Score, world: World) -> RecordModel {
        if self.loses(similarity, world) {
            self.outdated(similarity)
        } else {
            self
        }
    }
}

impl MemoryRecord {
    /// Whether a new memory of the given similarity makes this one less relevant.
    pub fn is_outdated(&self, similarity: Score, world: &World) -> (r: bool)
        ensures
            r == self@.loses(similarity, *world),
            r <==> self@.live(*world) && 0x3f38_51ec <= similarity.bits <= 0x7f80_0000,
    {
        !self.is_expired(world) && similarity.reaches(Score { bits: SIMILAR_MEMORY_BITS })
    }
}

/// The identifiers of the memories that lose relevance, each with its similarity.
pub open spec fn penalties(
    memories: Seq<RecordModel>,
    similarities: Seq<Score>,
    world: World,
) -> Seq<(i64, Score)>
    decreases memories.len(),
{
    if memories.len() == 0 {
        Seq::empty()
    } else {
        let front = penalties(memories.drop_last(), similarities, world);
        let last = memories.len() - 1;
        if memories[last].loses(similarities[last], world) {
            front.push((memories[last].id, similarities[last]))
        } else {
            front
        }
    }
}

/// The memories after one of the given similarities was stored.
pub open spec fn all_aged(
    memories: Seq<RecordModel>,
    similarities: Seq<Score>,
    world: World,
) -> Seq<RecordModel> {
    Seq::new(memories.len(), |i: int| memories[i].aged(similarities[i], world))
}

/// The similarity that penalties hold for a memory, where they name it.
pub open spec fn penalty_for(penalties: Seq<(i64, Score)>, id: i64) -> Option<Score>
    decreases penalties.len(),
{
    if penalties.len() == 0 {
        None
    } else if penalties.last().0 == id {
        Some(penalties.last().1)
    } else {
        penalty_for(penalties.drop_last(), id)
    }
}

impl RecordModel {
    /// The memory after penalties, where they name it.
    pub open spec fn penalized(self, penalties: Seq<(i64, Score)>) -> RecordModel {
        match penalty_for(penalties, self.id) {
            Some(similarity) => self.outdated(similarity),
            None => self,
        }
    }
}

/// The memories after penalties.
pub open spec fn all_penalized(memories: Seq<RecordModel>, penalties: Seq<(i64, Score)>) -> Seq<
    RecordModel,
> {
    Seq::new(memories.len(), |i: int| memories[i].penalized(penalties))
}

/// The similarity that penalties hold for a memory, where they name it.
fn find_penalty(penalties: &Vec<(i64, Score)>, id: i64) -> (r: Option<Score>)
    ensures
        r == penalty_for(penalties@, id),
{
    let mut i: usize = penalties.len();
    proof {
        assert(penalties@.take(i as int) =~= penalties@);
    }
    while i > 0
        invariant
            i <= penalties@.len(),
            penalty_for(penalties@, id) == penalty_for(penalties@.take(i as int), id),
        decreases i,
    {
        i = i - 1;
        proof {
            assert(penalties@.take(i + 1).drop_last() =~= penalties@.take(i as int));
            assert(penalties@.take(i + 1).last() == penalties@[i as int]);
        }
        if penalties[i].0 == id {
            return Some(penalties[i].1);
        }
    }
    None
}

proof fn lemma_penalty_for_one(
    memories: Seq<RecordModel>,
    similarities: Seq<Score>,
    world: World,
    id: i64,
)
    requires
        forall|i: int, j: int|
            0 <= i < j < memories.len() ==> (#[trigger] memories[i]).id < (
            #[trigger] memories[j]).id,
    ensures
        forall|i: int|
            0 <= i < memories.len() && (#[trigger] memories[i]).id == id ==> penalty_for(
                penalties(memories, similarities, world),
                id,
            ) == if memories[i].loses(similarities[i], world) {
                Some(similarities[i])
            } else {
                None
            },
        (forall|i: int| 0 <= i < memories.len() ==> (#[trigger] memories[i]).id != id)
            ==> penalty_for(penalties(memories, similarities, world), id) is None,
    decreases memories.len(),
{
    if memories.len() > 0 {
        let front = memories.drop_last();
        let last = memories.len() - 1;
        let some = penalties(front, similarities, world);
        let all = penalties(memories, similarities, world);
        assert forall|i: int, j: int| 0 <= i < j < front.len() implies (#[trigger] front[i]).id < (
        #[trigger] front[j]).id by {
            assert(memories[i].id < memories[j].id);
        }
        lemma_penalty_for_one(front, similarities, world, id);
        if memories[last].loses(similarities[last], world) {
            assert(all.drop_last() =~= some);
        }
        if memories[last].id == id {
            assert forall|i: int| 0 <= i < front.len() implies (#[trigger] front[i]).id != id by {
                assert(memories[i].id < memories[last].id);
            }
        } else {
            assert(penalty_for(all, id) == penalty_for(some, id));
            assert forall|i: int|
                0 <= i < memories.len() && (#[trigger] memories[i]).id == id implies penalty_for(
                all,
                id,
            ) == if memories[i].loses(similarities[i], world) {
                Some(similarities[i])
            } else {
                None
            } by {
                assert(front[i] == memories[i]);
            }
            if forall|i: int| 0 <= i < memories.len() ==> (#[trigger] memories[i]).id != id {
                assert forall|i: int| 0 <= i < front.len() implies (#[trigger] front[i]).id
                    != id by {
                    assert(memories[i].id != id);
                }
            }
        }
    }
}

proof fn lemma_penalties_age(memories: Seq<RecordModel>, similarities: Seq<Score>, world: World)
    requires
        forall|i: int, j: int|
            0 <= i < j < memories.len() ==> (#[trigger] memories[i]).id < (
            #[trigger] memories[j]).id,
    ensures
        all_penalized(memories, penalties(memories, similarities, world)) == all_aged(
            memories,
            similarities,
            world,
        ),
{
    let losses = penalties(memories, similarities, world);
    assert forall|i: int| 0 <= i < memories.len() implies #[trigger] memories[i].penalized(losses)
        == memories[i].aged(similarities[i], world) by {
        lemma_penalty_for_one(memories, similarities, world, memories[i].id);
    }
    assert(all_penalized(memories, losses) =~= all_aged(memories, similarities, world));
}

/// A memory that has just been stored.
pub open spec fn new_record(
    id: i64,
    memory: SetModel,
    now: Instant,
    file_fingerprint: Option<Seq<char>>,
) -> RecordModel {
    RecordModel {
        id,
        content: memory.content,
        mode: memory.mode,
        mode_ref: memory.mode_ref,
        tags: memory.tags,
        expiration_condition: memory.expiration_condition,
        expiration_value: memory.expiration_value,
        metadata: memory.metadata,
        positive_score: PositiveModel { stored: Score { bits: 0 }, ranks: Seq::empty() },
        negative_score: NegativeModel { stored: Score { bits: 0 }, similarities: Seq::empty() },
        usage_count: 0,
        created_at: now,
        file_fingerprint,
    }
}

/// The store after a memory was stored, or why it was refused.
pub open spec fn after_set(
    store: StoreModel,
    input: SetModel,
    similarities: Seq<Score>,
    world: World,
) -> Result<StoreModel, Failure<Seq<char>>> {
    match normal_memory(input, world.environment) {
        Err(failure) => Err(failure),
        Ok(memory) => match kept_fingerprint(
            memory.expiration_condition,
            memory.expiration_value,
            world.files,
        ) {
            Err(failure) => Err(failure),
            Ok(print) => if store.last_id == i64::MAX {
                Err(Failure::StoreFull)
            } else {
                let id = (store.last_id + 1) as i64;
                Ok(
                    StoreModel {
                        memories: all_aged(store.memories, similarities, world).push(
                            new_record(id, memory, world.now, print),
                        ),
                        last_id: id,
                        ..store
                    },
                )
            },
        },
    }
}

/// The path that decides whether a memory is still there, where a file does.
pub open spec fn watched_path(
    condition: Option<ExpirationCondition>,
    value: Option<Seq<char>>,
) -> Option<Seq<char>> {
    match condition {
        Some(ExpirationCondition::FileExist) | Some(ExpirationCondition::FilePristine) => value,
        _ => None,
    }
}

/// The paths that decide whether memories are still there, in order.
pub open spec fn watched_paths_of(memories: Seq<RecordModel>) -> Seq<Seq<char>>
    decreases memories.len(),
{
    if memories.len() == 0 {
        Seq::empty()
    } else {
        let front = watched_paths_of(memories.drop_last());
        let last = memories.last();
        match watched_path(last.expiration_condition, last.expiration_value) {
            Some(path) => front.push(path),
            None => front,
        }
    }
}

/// Where two worlds differ in nothing but what was seen of files, and agree on the path that
/// decides, they agree on whether a memory is still there.
pub proof fn law_only_the_watched_path_counts(memory: RecordModel, one: World, other: World)
    requires
        one.now == other.now,
        watched_path(memory.expiration_condition, memory.expiration_value) matches Some(path)
            ==> one.files.sighting(path) == other.files.sighting(path),
    ensures
        memory.live(one) == memory.live(other),
{
}

impl MemoryStore {
    /// A store without memories and alerts.
    pub fn in_memory() -> (r: MemoryStore)
        ensures
            r@ == (StoreModel {
                memories: Seq::empty(),
                last_id: 0,
                alerts: Seq::empty(),
                last_alert_id: 0,
            }),
            r@.well_formed(),
    {
        let r = MemoryStore {
            memories: Vec::new(),
            last_id: 0,
            alerts: Vec::new(),
            last_alert_id: 0,
        };
        proof {
            assert(records(r.memories@) =~= Seq::empty());
            assert(alert_records(r.alerts@) =~= Seq::empty());
        }
        r
    }

    /// The store that holds what is given, if identifiers are in order and none is beyond the last.
    pub fn load(
        memories: Vec<MemoryRecord>,
        last_id: i64,
        alerts: Vec<AlertRecord>,
        last_alert_id: i64,
    ) -> (r: Option<MemoryStore>)
        ensures
            ({
                let store = StoreModel {
                    memories: records(memories@),
                    last_id,
                    alerts: alert_records(alerts@),
                    last_alert_id,
                };
                match r {
                    Some(loaded) => store.well_formed() && loaded@ == store,
                    None => !store.well_formed(),
                }
            }),
    {
        let ghost store = StoreModel {
            memories: records(memories@),
            last_id,
            alerts: alert_records(alerts@),
            last_alert_id,
        };
        let mut i: usize = 0;
        while i < memories.len()
            invariant
                i <= memories@.len(),
                store == (StoreModel {
                    memories: records(memories@),
                    last_id,
                    alerts: alert_records(alerts@),
                    last_alert_id,
                }),
                forall|j: int, k: int|
                    0 <= j < k < i ==> (#[trigger] store.memories[j]).id < (
                    #[trigger] store.memories[k]).id,
                forall|j: int| 0 <= j < i ==> (#[trigger] store.memories[j]).id <= last_id,
            decreases memories@.len() - i,
        {
            proof {
                assert(store.memories[i as int].id == memories@[i as int].id);
            }
            if memories[i].id > last_id {
                return None;
            }
            if i > 0 && memories[i - 1].id >= memories[i].id {
                proof {
                    assert(store.memories[i - 1].id == memories@[i - 1].id);
                }
                return None;
            }
            proof {
                assert forall|j: int| 0 <= j < i implies (#[trigger] store.memories[j]).id
                    < store.memories[i as int].id by {
                    assert(store.memories[i - 1].id == memories@[i - 1].id);
                }
            }
            i = i + 1;
        }
        let mut i: usize = 0;
        while i < alerts.len()
            invariant
                i <= alerts@.len(),
                store == (StoreModel {
                    memories: records(memories@),
                    last_id,
                    alerts: alert_records(alerts@),
                    last_alert_id,
                }),
                forall|j: int, k: int|
                    0 <= j < k < i ==> (#[trigger] store.alerts[j]).0 < (
                    #[trigger] store.alerts[k]).0,
                forall|j: int| 0 <= j < i ==> (#[trigger] store.alerts[j]).0 <= last_alert_id,
            decreases alerts@.len() - i,
        {
            proof {
                assert(store.alerts[i as int].0 == alerts@[i as int].id);
            }
            if alerts[i].id > last_alert_id {
                return None;
            }
            if i > 0 && alerts[i - 1].id >= alerts[i].id {
                proof {
                    assert(store.alerts[i - 1].0 == alerts@[i - 1].id);
                }
                return None;
            }
            proof {
                assert forall|j: int| 0 <= j < i implies (#[trigger] store.alerts[j]).0
                    < store.alerts[i as int].0 by {
                    assert(store.alerts[i - 1].0 == alerts@[i - 1].id);
                }
            }
            i = i + 1;
        }
        Some(MemoryStore { memories, last_id, alerts, last_alert_id })
    }

    /// The paths that decide whether memories are still there, in order.
    pub fn watched_paths(&self) -> (r: Vec<String>)
        ensures
            texts(r@) == watched_paths_of(self@.memories),
    {
        let mut paths: Vec<String> = Vec::new();
        let mut i: usize = 0;
        proof {
            assert(self@.memories.take(0) =~= Seq::empty());
            assert(texts(paths@) =~= Seq::empty());
        }
        while i < self.memories.len()
            invariant
                i <= self.memories@.len(),
                self@.memories.len() == self.memories@.len(),
                texts(paths@) == watched_paths_of(self@.memories.take(i as int)),
            decreases self.memories@.len() - i,
        {
            let ghost before = paths@;
            let memory = &self.memories[i];
            proof {
                assert(self@.memories[i as int] == memory@);
                assert(self@.memories.take(i + 1).drop_last() =~= self@.memories.take(i as int));
                assert(self@.memories.take(i + 1).last() == memory@);
            }
            let watched = match memory.expiration_condition {
                Some(ExpirationCondition::FileExist) | Some(ExpirationCondition::FilePristine) =>
                    true,
                _ => false,
            };
            if watched {
                if let Some(path) = &memory.expiration_value {
                    paths.push(path.clone());
                    proof {
                        assert(texts(paths@) =~= texts(before).push(path@));
                    }
                }
            }
            i = i + 1;
        }
        proof {
            assert(self@.memories.take(i as int) =~= self@.memories);
        }
        paths
    }

    /// The memories that a new one makes less relevant, each with its similarity: those that are
    /// still there and similar enough. `similarities` has one number for each memory.
    pub fn similar_memory_updates(&self, similarities: &Vec<Score>, world: &World) -> (r: Vec<
        (i64, Score),
    >)
        requires
            similarities@.len() == self@.memories.len(),
        ensures
            r@ == penalties(self@.memories, similarities@, *world),
    {
        let mut updates: Vec<(i64, Score)> = Vec::new();
        let mut i: usize = 0;
        proof {
            assert(self@.memories.take(0) =~= Seq::empty());
        }
        while i < self.memories.len()
            invariant
                i <= self.memories@.len(),
                    similarities@.len() == self@.memories.len(),
                self@.memories.len() == self.memories@.len(),
                updates@ == penalties(self@.memories.take(i as int), similarities@, *world),
            decreases self.memories@.len() - i,
        {
            proof {
                assert(self@.memories[i as int] == self.memories@[i as int]@);
                assert(self@.memories.take(i + 1).drop_last() =~= self@.memories.take(i as int));
                assert(self@.memories.take(i + 1)[i as int] == self@.memories[i as int]);
            }
            if self.memories[i].is_outdated(similarities[i], world) {
                updates.push((self.memories[i].id, similarities[i]));
            }
            i = i + 1;
        }
        proof {
            assert(self@.memories.take(i as int) =~= self@.memories);
        }
        updates
    }

    /// Makes the memories less relevant that penalties name.
    fn record_penalties(&mut self, penalties: &Vec<(i64, Score)>)
        ensures
            final(self)@ == (StoreModel {
                memories: all_penalized(old(self)@.memories, penalties@),
                ..old(self)@
            }),
    {
        let ghost start = self@;
        let mut i: usize = 0;
        while i < self.memories.len()
            invariant
                i <= self.memories@.len(),
                self.memories@.len() == start.memories.len(),
                self@ == (StoreModel { memories: self@.memories, ..start }),
                forall|j: int|
                    0 <= j < i ==> #[trigger] self@.memories[j] == start.memories[j].penalized(
                        penalties@,
                    ),
                forall|j: int|
                    i <= j < self.memories@.len() ==> #[trigger] self@.memories[j]
                        == start.memories[j],
            decreases self.memories@.len() - i,
        {
            let ghost before = self.memories@;
            proof {
                assert(self@.memories == records(before));
                assert(before[i as int]@ == self@.memories[i as int]);
            }
            if let Some(similarity) = find_penalty(penalties, self.memories[i].id) {
                let memory = &mut self.memories[i];
                memory.negative_score.similarities.push(similarity);
            }
            proof {
                assert forall|j: int|
                    0 <= j < before.len() && j != i implies #[trigger] self@.memories[j]
                    == records(before)[j] by {}
            }
            i = i + 1;
        }
        proof {
            assert(self@.memories =~= all_penalized(start.memories, penalties@));
        }
    }

    /// Stores a memory, in normal form, and gives its identifier. Similar memories that are still
    /// there become less relevant. A memory that is refused leaves the store as it was.
    pub fn set(&mut self, input: SetMemory, world: &World, similarities: &Vec<Score>) -> (r: Result<
        i64,
        Error,
    >)
        requires
            old(self)@.well_formed(),
            memory_fits(input@, world.environment),
            similarities@.len() == old(self)@.memories.len(),
        ensures
            match r {
                Ok(id) => after_set(old(self)@, input@, similarities@, *world) == Ok::<
                    StoreModel,
                    Failure<Seq<char>>,
                >(final(self)@) && id == final(self)@.last_id,
                Err(error) => after_set(old(self)@, input@, similarities@, *world) == Err::<
                    StoreModel,
                    Failure<Seq<char>>,
                >(error@) && final(self)@ == old(self)@,
            },
            r is Ok ==> {
                let stored = final(self)@.memories.last();
                &&& stored.id == r->Ok_0
                &&& stored.content == crate::text::trim(input.content@)
                &&& stored.mode == input.mode
                &&& stored.tags == crate::model::normal_tags(texts(input.tags@))
                &&& stored.expiration_condition == input.expiration_condition
                &&& stored.expiration_value == crate::model::optional(input.expiration_value)
                &&& stored.metadata == crate::model::optional(input.metadata)
                &&& stored.created_at == world.now
                &&& stored.usage_count == 0
            },
            final(self)@.well_formed(),
    {
        let input = match normalize_set_memory(input, &world.environment) {
            Ok(input) => input,
            Err(error) => return Err(error),
        };
        let file_fingerprint = match fingerprint_for_condition(
            input.expiration_condition,
            borrow_optional(&input.expiration_value),
            &world.files,
        ) {
            Ok(print) => print,
            Err(error) => return Err(error),
        };
        if self.last_id == i64::MAX {
            return Err(Failure::StoreFull);
        }
        let id: i64 = self.last_id + 1;
        let updates = self.similar_memory_updates(similarities, world);
        proof {
            lemma_penalties_age(self@.memories, similarities@, *world);
        }
        self.record_penalties(&updates);
        let ghost before = self.memories@;
        self.memories.push(
            MemoryRecord {
                id,
                content: input.content,
                mode: input.mode,
                mode_ref: input.mode_ref,
                tags: input.tags,
                expiration_condition: input.expiration_condition,
                expiration_value: input.expiration_value,
                metadata: input.metadata,
                positive_score: PositiveScore { stored: Score { bits: 0 }, ranks: Vec::new() },
                negative_score: NegativeScore {
                    stored: Score { bits: 0 },
                    similarities: Vec::new(),
                },
                usage_count: 0,
                created_at: world.now,
                file_fingerprint,
            },
        );
        self.last_id = id;
        proof {
            assert(records(self.memories@) =~= records(before).push(self.memories@.last()@));
            assert(self.memories@.last()@ =~= new_record(
                id,
                input@,
                world.now,
                crate::model::optional(file_fingerprint),
            ));
        }
        Ok(id)
    }
}

} // verus!
