//! What storing a memory keeps of it, what it refuses, and what it costs the other memories.
use vstd::prelude::*;

use crate::error::Failure;
use crate::expiration::validation;
use crate::files::{fingerprint, hex, sha256, FileState};
use crate::input::{
    inferred_ref, memory_fits, normal_memory, Environment, SetModel, World,
};
use crate::model::{normal_tags, ExpirationCondition, MemoryMode};
use crate::record::{NegativeModel, RecordModel, StoreModel};
use crate::score::Score;
use crate::store::{after_set, all_aged, penalties, watched_path, watched_paths_of};
use crate::text::{i64_of, trim};
use crate::time::{duration, instant, period};

verus! {

/// The reference of a memory: a global memory has none; any other has the given one without the
/// white space around it or, where that is blank or missing, for a workspace the current directory
/// and for a session the first that the surroundings name, else `default`. All that can go wrong is
/// that the current directory is asked for and unknown.
pub proof fn law_references_by_mode(
    mode: MemoryMode,
    explicit: Option<Seq<char>>,
    environment: Environment,
)
    ensures
        ({
            let given = explicit is Some && trim(explicit->Some_0).len() > 0;
            let reference = inferred_ref(mode, explicit, environment);
            match mode {
                MemoryMode::Global => reference == Ok::<Option<Seq<char>>, Failure<Seq<char>>>(
                    None,
                ),
                MemoryMode::Workspace => if given {
                    reference == Ok::<Option<Seq<char>>, Failure<Seq<char>>>(
                        Some(trim(explicit->Some_0)),
                    )
                } else if environment.current_dir is Some {
                    reference == Ok::<Option<Seq<char>>, Failure<Seq<char>>>(
                        Some(environment.current_dir->Some_0@),
                    )
                } else {
                    reference is Err && reference->Err_0 is NoCurrentDirectory
                },
                MemoryMode::Session => reference == Ok::<Option<Seq<char>>, Failure<Seq<char>>>(
                    Some(
                        if given {
                            trim(explicit->Some_0)
                        } else if environment.session is Some {
                            environment.session->Some_0@
                        } else if environment.mcp_session is Some {
                            environment.mcp_session->Some_0@
                        } else {
                            "default"@
                        },
                    ),
                ),
            }
        }),
{
}

/// What is stored is what was handed in: the content without the white space around it, the tags in
/// normal form, the mode with its reference, and the condition, the value and the metadata as they
/// were given. The memory is new: it was stored now, never read, and has neither gained nor lost.
pub proof fn law_memories_are_stored_as_given(
    store: StoreModel,
    input: SetModel,
    similarities: Seq<Score>,
    world: World,
)
    requires
        after_set(store, input, similarities, world) is Ok,
    ensures
        ({
            let after = after_set(store, input, similarities, world)->Ok_0;
            let memory = after.memories.last();
            &&& after.memories.len() == store.memories.len() + 1
            &&& after.last_id == store.last_id + 1
            &&& after.alerts == store.alerts
            &&& after.last_alert_id == store.last_alert_id
            &&& memory.id == store.last_id + 1
            &&& memory.content == trim(input.content)
            &&& memory.tags == normal_tags(input.tags)
            &&& memory.mode == input.mode
            &&& inferred_ref(input.mode, input.mode_ref, world.environment) == Ok::<
                Option<Seq<char>>,
                Failure<Seq<char>>,
            >(memory.mode_ref)
            &&& memory.expiration_condition == input.expiration_condition
            &&& memory.expiration_value == input.expiration_value
            &&& memory.metadata == input.metadata
            &&& memory.usage_count == 0
            &&& memory.created_at == world.now
            &&& memory.positive_score.stored.bits == 0
            &&& memory.positive_score.ranks.len() == 0
            &&& memory.negative_score.stored.bits == 0
            &&& memory.negative_score.similarities.len() == 0
        }),
{
}

/// A memory tied to an unchanged file keeps the digest of what is at its path as it is stored; any
/// other keeps none.
pub proof fn law_digests_are_kept_as_they_are_stored(
    store: StoreModel,
    input: SetModel,
    similarities: Seq<Score>,
    world: World,
)
    requires
        after_set(store, input, similarities, world) is Ok,
    ensures
        ({
            let memory = after_set(store, input, similarities, world)->Ok_0.memories.last();
            if input.expiration_condition == Some(ExpirationCondition::FilePristine) {
                &&& input.expiration_value is Some
                &&& match world.files.sighting(input.expiration_value->Some_0) {
                    FileState::Regular(bytes) => memory.file_fingerprint == Some(
                        hex(sha256(bytes)),
                    ),
                    FileState::Missing => memory.file_fingerprint is None,
                    FileState::Special(..) => memory.file_fingerprint is Some && fingerprint(
                        world.files.sighting(input.expiration_value->Some_0),
                    ) == Ok::<Option<Seq<char>>, Failure<Seq<char>>>(memory.file_fingerprint),
                    FileState::Unreadable(_) => false,
                }
            } else {
                memory.file_fingerprint is None
            }
        }),
{
}

/// A memory that is stored with a duration for its time is there exactly while less than that has
/// gone by since.
pub proof fn law_stored_durations_run_from_storing(
    store: StoreModel,
    input: SetModel,
    similarities: Seq<Score>,
    world: World,
    later: World,
)
    requires
        after_set(store, input, similarities, world) is Ok,
        input.expiration_condition == Some(ExpirationCondition::Time),
    ensures
        ({
            let memory = after_set(store, input, similarities, world)->Ok_0.memories.last();
            let value = input.expiration_value->Some_0;
            &&& input.expiration_value is Some
            &&& instant(value) is Ok || duration(value) is Ok
            &&& instant(value) is Err ==> (memory.live(later) <==> !later.now.passed_since(
                world.now,
                duration(value)->Ok_0,
            ))
            &&& instant(value) is Ok ==> (memory.live(later) <==> !later.now.at_or_after(
                instant(value)->Ok_0,
            ))
        }),
{
}

/// A memory that is stored with a usage limit is there until it has been read that often, one that
/// is tied to a file while there is one, one that is tied to a period while that holds, and one
/// without a condition always.
pub proof fn law_stored_conditions_decide(
    store: StoreModel,
    input: SetModel,
    similarities: Seq<Score>,
    world: World,
    later: World,
    reads: int,
)
    requires
        after_set(store, input, similarities, world) is Ok,
    ensures
        ({
            let stored = after_set(store, input, similarities, world)->Ok_0.memories.last();
            let memory = RecordModel { usage_count: reads, ..stored };
            let value = input.expiration_value->Some_0;
            match input.expiration_condition {
                None => memory.live(later),
                Some(ExpirationCondition::Usage) => i64_of(trim(value)) is Some && (memory.live(
                    later,
                ) <==> reads < i64_of(trim(value))->Some_0),
                Some(ExpirationCondition::FileExist) => memory.live(later) <==> !(
                later.files.sighting(value) is Missing),
                Some(ExpirationCondition::FilePristine) => match (
                    world.files.sighting(value),
                    later.files.sighting(value),
                ) {
                    (FileState::Regular(old_bytes), FileState::Regular(new_bytes)) => memory.live(
                        later,
                    ) <==> hex(sha256(old_bytes)) == hex(sha256(new_bytes)),
                    (FileState::Missing, _) => !memory.live(later),
                    (_, FileState::Missing) => !memory.live(later),
                    (_, FileState::Unreadable(_)) => !memory.live(later),
                    _ => true,
                },
                Some(ExpirationCondition::Period) => period(value) is Ok && (memory.live(later)
                    <==> (period(value)->Ok_0).holds(later.now)),
                Some(ExpirationCondition::Time) => memory.live(later) == stored.live(later),
            }
        }),
{
}

/// A memory is refused for the first thing that is wrong with it, and for nothing else: it has no
/// content, no tag, no reference, a condition without a value or a value without a condition, a
/// value that its condition can make nothing of, a file that cannot be read, or the identifiers have
/// run out.
pub proof fn law_memories_are_refused_for_a_reason(
    store: StoreModel,
    input: SetModel,
    similarities: Seq<Score>,
    world: World,
)
    ensures
        ({
            let after = after_set(store, input, similarities, world);
            let reference = inferred_ref(input.mode, input.mode_ref, world.environment);
            if trim(input.content).len() == 0 {
                after is Err && after->Err_0 is EmptyContent
            } else if normal_tags(input.tags).len() == 0 {
                after is Err && after->Err_0 is NoTags
            } else if reference is Err {
                after is Err && after->Err_0 == reference->Err_0
            } else if input.expiration_condition is Some && input.expiration_value is None {
                after == Err::<StoreModel, Failure<Seq<char>>>(
                    Failure::ValueMissing(input.expiration_condition->Some_0),
                )
            } else if input.expiration_condition is None && input.expiration_value is Some {
                after is Err && after->Err_0 is ConditionMissing
            } else if input.expiration_condition is Some && validation(
                input.expiration_condition->Some_0,
                input.expiration_value->Some_0,
            ) is Err {
                after is Err && after->Err_0 == validation(
                    input.expiration_condition->Some_0,
                    input.expiration_value->Some_0,
                )->Err_0
            } else if input.expiration_condition == Some(ExpirationCondition::FilePristine) && (
            world.files.sighting(input.expiration_value->Some_0) is Unreadable) {
                after is Err && after->Err_0 is FileUnreadable
            } else if store.last_id == i64::MAX {
                after is Err && after->Err_0 is StoreFull
            } else {
                after is Ok
            }
        }),
{
}

/// A memory has a tag exactly where one of those that were given has something in it besides white
/// space.
pub proof fn law_blank_tags_are_no_tags(tags: Seq<Seq<char>>)
    ensures
        normal_tags(tags).len() == 0 <==> forall|i: int|
            0 <= i < tags.len() ==> trim(#[trigger] tags[i]).len() == 0,
{
    crate::model::law_normal_tags(tags);
    if normal_tags(tags).len() > 0 {
        let tag = normal_tags(tags)[0];
        assert(normal_tags(tags).contains(tag));
        let i = choose|i: int|
            0 <= i < tags.len() && crate::model::normal_tag(#[trigger] tags[i]) == tag;
        assert(crate::text::lower(trim(tags[i])).len() == trim(tags[i]).len());
    } else {
        assert forall|i: int| 0 <= i < tags.len() implies trim(#[trigger] tags[i]).len() == 0 by {
            let tag = crate::model::normal_tag(tags[i]);
            assert(tag.len() == trim(tags[i]).len());
            assert(!normal_tags(tags).contains(tag));
        }
    }
}

/// The normal form of a memory says what was handed in, with trimmed content, normal tags and its
/// reference.
pub proof fn law_normal_memories_say_what_was_given(input: SetModel, environment: Environment)
    requires
        normal_memory(input, environment) is Ok,
    ensures
        ({
            let memory = normal_memory(input, environment)->Ok_0;
            &&& memory.content == trim(input.content) && memory.content.len() > 0
            &&& memory.tags == normal_tags(input.tags) && memory.tags.len() > 0
            &&& memory.mode == input.mode
            &&& inferred_ref(input.mode, input.mode_ref, environment) == Ok::<
                Option<Seq<char>>,
                Failure<Seq<char>>,
            >(memory.mode_ref)
            &&& memory.expiration_condition == input.expiration_condition
            &&& memory.expiration_value == input.expiration_value
            &&& memory.metadata == input.metadata
        }),
{
}

/// A new memory makes every memory fade that is still there and at least 0.72 similar to it, by
/// that similarity, whatever its mode, scope and tags. Nothing else of it changes, and nothing of
/// the other memories.
pub proof fn law_similar_memories_fade(
    store: StoreModel,
    input: SetModel,
    similarities: Seq<Score>,
    world: World,
    at: int,
)
    requires
        after_set(store, input, similarities, world) is Ok,
        0 <= at < store.memories.len(),
    ensures
        ({
            let memory = store.memories[at];
            let similarity = similarities[at];
            after_set(store, input, similarities, world)->Ok_0.memories[at] == if memory.live(world)
                && 0x3f38_51ec <= similarity.bits <= 0x7f80_0000 {
                RecordModel {
                    negative_score: NegativeModel {
                        stored: memory.negative_score.stored,
                        similarities: memory.negative_score.similarities.push(similarity),
                    },
                    ..memory
                }
            } else {
                memory
            }
        }),
{
    let aged = all_aged(store.memories, similarities, world);
    assert(after_set(store, input, similarities, world)->Ok_0.memories[at] == aged[at]);
}

/// Whether a memory that is still there and at least 0.72 similar to a new one has the identifier
/// and the similarity that are named.
pub open spec fn names_a_fading_memory(
    named: (i64, Score),
    memories: Seq<RecordModel>,
    similarities: Seq<Score>,
    world: World,
) -> bool {
    exists|i: int|
        {
            &&& 0 <= i < memories.len()
            &&& (#[trigger] memories[i]).live(world)
            &&& 0x3f38_51ec <= similarities[i].bits <= 0x7f80_0000
            &&& named == (memories[i].id, similarities[i])
        }
}

/// The list of the memories that a new one makes fade names each that is still there and at least
/// 0.72 similar to it, with its similarity, and no other, in the order of their identifiers.
pub proof fn law_fading_memories_are_listed(
    memories: Seq<RecordModel>,
    similarities: Seq<Score>,
    world: World,
)
    requires
        forall|i: int, j: int|
            0 <= i < j < memories.len() ==> (#[trigger] memories[i]).id < (
            #[trigger] memories[j]).id,
    ensures
        forall|i: int|
            0 <= i < memories.len() && (#[trigger] memories[i]).live(world) && 0x3f38_51ec
                <= similarities[i].bits <= 0x7f80_0000 ==> penalties(
                memories,
                similarities,
                world,
            ).contains((memories[i].id, similarities[i])),
        forall|k: int|
            0 <= k < penalties(memories, similarities, world).len() ==> names_a_fading_memory(
                #[trigger] penalties(memories, similarities, world)[k],
                memories,
                similarities,
                world,
            ),
        forall|k: int, l: int|
            0 <= k < l < penalties(memories, similarities, world).len() ==> (#[trigger] penalties(
                memories,
                similarities,
                world,
            )[k]).0 < (#[trigger] penalties(memories, similarities, world)[l]).0,
    decreases memories.len(),
{
    if memories.len() > 0 {
        let front = memories.drop_last();
        let last = memories.len() - 1;
        let some = penalties(front, similarities, world);
        let all = penalties(memories, similarities, world);
        assert forall|i: int, j: int| 0 <= i < j < front.len() implies (#[trigger] front[i]).id < (
        #[trigger] front[j]).id by {
            assert(memories[i].id < memories[j].id);
        }
        law_fading_memories_are_listed(front, similarities, world);
        assert forall|i: int|
            0 <= i < memories.len() && (#[trigger] memories[i]).live(world) && 0x3f38_51ec
                <= similarities[i].bits <= 0x7f80_0000 implies all.contains(
            (memories[i].id, similarities[i]),
        ) by {
            if i < last {
                assert(front[i] == memories[i]);
                let k = choose|k: int|
                    0 <= k < some.len() && some[k] == (front[i].id, similarities[i]);
                assert(all[k] == some[k]);
            } else {
                assert(all[all.len() - 1] == (memories[i].id, similarities[i]));
            }
        }
        assert forall|k: int| 0 <= k < all.len() implies names_a_fading_memory(
            #[trigger] all[k],
            memories,
            similarities,
            world,
        ) by {
            if k < some.len() {
                assert(all[k] == some[k]);
                assert(names_a_fading_memory(some[k], front, similarities, world));
                let i = choose|i: int|
                    {
                        &&& 0 <= i < front.len()
                        &&& (#[trigger] front[i]).live(world)
                        &&& 0x3f38_51ec <= similarities[i].bits <= 0x7f80_0000
                        &&& some[k] == (front[i].id, similarities[i])
                    };
                assert(memories[i] == front[i]);
            } else {
                assert(memories[last].live(world));
            }
        }
        assert forall|k: int, l: int| 0 <= k < l < all.len() implies (#[trigger] all[k]).0 < (
        #[trigger] all[l]).0 by {
            assert(all[k] == some[k]);
            if l < some.len() {
                assert(all[l] == some[l]);
            } else {
                assert(names_a_fading_memory(some[k], front, similarities, world));
                let i = choose|i: int|
                    {
                        &&& 0 <= i < front.len()
                        &&& (#[trigger] front[i]).live(world)
                        &&& 0x3f38_51ec <= similarities[i].bits <= 0x7f80_0000
                        &&& some[k] == (front[i].id, similarities[i])
                    };
                assert(memories[i] == front[i]);
                assert(memories[i].id < memories[last].id);
            }
        }
    }
}

/// The list of the memories that a new one makes fade goes memory by memory.
pub proof fn law_fading_memories_are_listed_one_by_one(
    memories: Seq<RecordModel>,
    memory: RecordModel,
    similarities: Seq<Score>,
    world: World,
)
    ensures
        penalties(Seq::empty(), similarities, world).len() == 0,
        ({
            let similarity = similarities[memories.len() as int];
            penalties(memories.push(memory), similarities, world) == if memory.live(world)
                && 0x3f38_51ec <= similarity.bits <= 0x7f80_0000 {
                penalties(memories, similarities, world).push((memory.id, similarity))
            } else {
                penalties(memories, similarities, world)
            }
        }),
{
    assert(memories.push(memory).drop_last() =~= memories);
}

/// A memory cannot be looked at exactly where it would be stored but for its time, and that is a
/// duration of more than 9223372036854775 seconds.
pub proof fn law_only_endless_durations_do_not_fit(input: SetModel, environment: Environment)
    ensures
        !memory_fits(input, environment) <==> {
            &&& trim(input.content).len() > 0
            &&& normal_tags(input.tags).len() > 0
            &&& inferred_ref(input.mode, input.mode_ref, environment) is Ok
            &&& input.expiration_condition == Some(ExpirationCondition::Time)
            &&& input.expiration_value is Some
            &&& duration(input.expiration_value->Some_0) is Ok
            &&& duration(input.expiration_value->Some_0)->Ok_0 > 9_223_372_036_854_775
        },
{
}

/// The paths that decide on memories are the values of those that are tied to a file, in the order
/// of the memories.
pub proof fn law_watched_paths_are_those_of_files(
    memories: Seq<RecordModel>,
    memory: RecordModel,
)
    ensures
        watched_paths_of(Seq::empty()).len() == 0,
        watched_path(memory.expiration_condition, memory.expiration_value) == if memory.expiration_condition
            == Some(ExpirationCondition::FileExist) || memory.expiration_condition == Some(
            ExpirationCondition::FilePristine,
        ) {
            memory.expiration_value
        } else {
            None
        },
        watched_paths_of(memories.push(memory)) == match watched_path(
            memory.expiration_condition,
            memory.expiration_value,
        ) {
            Some(path) => watched_paths_of(memories).push(path),
            None => watched_paths_of(memories),
        },
{
    assert(memories.push(memory).drop_last() =~= memories);
}

} // verus!
