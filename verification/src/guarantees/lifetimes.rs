//! How long a memory lasts, by its condition and the state of the world.
use vstd::prelude::*;

use crate::error::Failure;
use crate::expiration::{kept_fingerprint, usage_limit, validation};
use crate::files::{
    fingerprint, first_sighting, hex, hex_digit, little_endian, sha256, special_bytes, FileState,
    Files, Sighting, SightingModel,
};
use crate::input::World;
use crate::model::ExpirationCondition;
use crate::record::RecordModel;
use crate::text::{i64_of, trim};
use crate::time::{duration, instant, period};

verus! {

/// What was seen at a path is what its first sighting saw; of a path that was not looked at,
/// nothing was seen.
pub proof fn law_first_sighting_counts(files: Files, path: Seq<char>, at: int)
    requires
        0 <= at <= files.seen@.len(),
        forall|i: int| 0 <= i < at ==> (#[trigger] files.seen@[i]).0@ != path,
        at < files.seen@.len() ==> files.seen@[at].0@ == path,
    ensures
        files.sighting(path) == if at < files.seen@.len() {
            files.seen@[at].1@
        } else {
            FileState::Missing
        },
{
    lemma_first_sighting(files.seen@, path, at);
}

proof fn lemma_first_sighting(seen: Seq<(String, Sighting)>, path: Seq<char>, at: int)
    requires
        0 <= at <= seen.len(),
        forall|i: int| 0 <= i < at ==> (#[trigger] seen[i]).0@ != path,
        at < seen.len() ==> seen[at].0@ == path,
    ensures
        first_sighting(seen, path) == if at < seen.len() {
            seen[at].1@
        } else {
            FileState::Missing
        },
    decreases seen.len(),
{
    if at > 0 {
        let rest = seen.drop_first();
        assert(seen[0].0@ != path);
        assert forall|i: int| 0 <= i < at - 1 implies (#[trigger] rest[i]).0@ != path by {
            assert(rest[i] == seen[i + 1]);
        }
        lemma_first_sighting(rest, path, at - 1);
    }
}

/// A byte is written by two digits of base sixteen in small letters, the higher four bits first.
pub proof fn law_bytes_are_written_in_base_sixteen(bytes: Seq<u8>, at: int)
    requires
        0 <= at < bytes.len(),
    ensures
        hex(bytes).len() == 2 * bytes.len(),
        hex(bytes)[2 * at] == hex_digit(bytes[at] as int / 16),
        hex(bytes)[2 * at + 1] == hex_digit(bytes[at] as int % 16),
        forall|n: int| 0 <= n < 10 ==> #[trigger] hex_digit(n) as int == 48 + n,
        forall|n: int| 10 <= n < 16 ==> #[trigger] hex_digit(n) as int == 87 + n,
{
    assert((2 * at) % 2 == 0 && (2 * at) / 2 == at);
    assert((2 * at + 1) % 2 == 1 && (2 * at + 1) / 2 == at);
}

/// The fingerprint of a file is the SHA-256 digest of all of its bytes, in base sixteen; nothing
/// has none, and of what cannot be read none can be made, for the reason that was given.
pub proof fn law_fingerprints_are_of_the_whole_contents(state: SightingModel)
    ensures
        match state {
            FileState::Regular(bytes) => fingerprint(state) == Ok::<
                Option<Seq<char>>,
                Failure<Seq<char>>,
            >(Some(hex(sha256(bytes)))),
            FileState::Missing => fingerprint(state) == Ok::<Option<Seq<char>>, Failure<Seq<char>>>(
                None,
            ),
            FileState::Unreadable(reason) => fingerprint(state) == Err::<
                Option<Seq<char>>,
                Failure<Seq<char>>,
            >(Failure::FileUnreadable(reason)),
            FileState::Special(length, modified) => exists|bytes: Seq<u8>|
                {
                    &&& fingerprint(state) == Ok::<Option<Seq<char>>, Failure<Seq<char>>>(
                        Some(hex(#[trigger] sha256(bytes))),
                    )
                    &&& bytes.len() == if modified is Some {
                        24nat
                    } else {
                        8nat
                    }
                    &&& bytes.take(8) == little_endian(length as int, 8)
                    &&& modified is Some ==> bytes.skip(8) == little_endian(
                        modified->Some_0 as int,
                        16,
                    )
                },
        },
{
    if let FileState::Special(length, modified) = state {
        let bytes = special_bytes(length, modified);
        lemma_little_endian_length(length as int, 8);
        if let Some(nanos) = modified {
            lemma_little_endian_length(nanos as int, 16);
        }
        assert(bytes.take(8) =~= little_endian(length as int, 8));
        if modified is Some {
            assert(bytes.skip(8) =~= little_endian(modified->Some_0 as int, 16));
        }
        assert(fingerprint(state) == Ok::<Option<Seq<char>>, Failure<Seq<char>>>(
            Some(hex(sha256(bytes))),
        ));
    }
}

proof fn lemma_little_endian_length(n: int, count: nat)
    ensures
        little_endian(n, count).len() == count,
    decreases count,
{
    if count > 0 {
        lemma_little_endian_length(n / 256, (count - 1) as nat);
    }
}

/// A number is taken apart into bytes, the lowest first: the first is what is left of it by 256,
/// and the others are those of the rest.
pub proof fn law_lowest_bytes_come_first(n: int, count: nat)
    ensures
        little_endian(n, count).len() == count,
        count > 0 ==> little_endian(n, count)[0] == (n % 256) as u8,
        count > 0 ==> little_endian(n, count).drop_first() == little_endian(
            n / 256,
            (count - 1) as nat,
        ),
{
    lemma_little_endian_length(n, count);
    if count > 0 {
        assert(little_endian(n, count).drop_first() =~= little_endian(
            n / 256,
            (count - 1) as nat,
        ));
    }
}

/// The number of reads that a text allows is the positive number that it writes.
pub proof fn law_usage_limits_are_positive_numbers(text: Seq<char>)
    ensures
        i64_of(trim(text)) is None ==> usage_limit(text) == Err::<i64, Failure<Seq<char>>>(
            Failure::InvalidUsage(text),
        ),
        i64_of(trim(text)) is Some && i64_of(trim(text))->Some_0 <= 0 ==> usage_limit(text) is Err
            && usage_limit(text)->Err_0 is UsageNotPositive,
        i64_of(trim(text)) is Some && i64_of(trim(text))->Some_0 > 0 ==> usage_limit(text) == Ok::<
            i64,
            Failure<Seq<char>>,
        >(i64_of(trim(text))->Some_0),
{
}

/// An expiration value is accepted exactly where its condition can make something of it: a time a
/// duration or a point in time, a usage a positive number, a file a path, a period its two ends.
pub proof fn law_values_are_accepted_by_their_condition(
    condition: ExpirationCondition,
    value: Seq<char>,
)
    ensures
        validation(condition, value) is Ok <==> match condition {
            ExpirationCondition::Time => duration(value) is Ok || instant(value) is Ok,
            ExpirationCondition::Usage => i64_of(trim(value)) is Some && i64_of(
                trim(value),
            )->Some_0 > 0,
            ExpirationCondition::FileExist => trim(value).len() > 0,
            ExpirationCondition::FilePristine => trim(value).len() > 0,
            ExpirationCondition::Period => period(value) is Ok,
        },
        validation(condition, value) is Err ==> match condition {
            ExpirationCondition::Time => instant(value) is Err && validation(condition, value)->Err_0
                == instant(value)->Err_0,
            ExpirationCondition::Usage => usage_limit(value) is Err && validation(
                condition,
                value,
            )->Err_0 == usage_limit(value)->Err_0,
            ExpirationCondition::FileExist => validation(condition, value)->Err_0 is PathMissing,
            ExpirationCondition::FilePristine => validation(condition, value)->Err_0 is PathMissing,
            ExpirationCondition::Period => period(value) is Err && validation(
                condition,
                value,
            )->Err_0 == period(value)->Err_0,
        },
{
}

/// A memory without a condition lasts for ever, and one with a condition but no value is gone.
pub proof fn law_conditions_need_a_value(memory: RecordModel, world: World)
    ensures
        memory.expiration_condition is None ==> memory.live(world),
        memory.expiration_condition is Some && memory.expiration_value is None ==> !memory.live(
            world,
        ),
{
}

/// A memory with a time lasts up to the point in time that its value writes or, where it writes
/// none, as long after it was stored as the duration that it writes; one whose value writes neither
/// is gone.
pub proof fn law_timed_memories_last_until_their_time(memory: RecordModel, world: World)
    requires
        memory.expiration_condition == Some(ExpirationCondition::Time),
        memory.expiration_value is Some,
    ensures
        ({
            let value = memory.expiration_value->Some_0;
            memory.live(world) <==> if instant(value) is Ok {
                !world.now.at_or_after(instant(value)->Ok_0)
            } else {
                duration(value) is Ok && !world.now.passed_since(
                    memory.created_at,
                    duration(value)->Ok_0,
                )
            }
        }),
{
}

/// A memory with a usage limit lasts while it has been read less often than that; one whose value
/// writes no positive number is gone.
pub proof fn law_limited_memories_last_while_reads_are_left(memory: RecordModel, world: World)
    requires
        memory.expiration_condition == Some(ExpirationCondition::Usage),
        memory.expiration_value is Some,
    ensures
        ({
            let limit = i64_of(trim(memory.expiration_value->Some_0));
            memory.live(world) <==> limit is Some && limit->Some_0 > 0 && memory.usage_count
                < limit->Some_0
        }),
{
}

/// A memory tied to a file lasts while something is at its path.
pub proof fn law_memories_of_files_last_while_they_exist(memory: RecordModel, world: World)
    requires
        memory.expiration_condition == Some(ExpirationCondition::FileExist),
        memory.expiration_value is Some,
    ensures
        memory.live(world) <==> !(world.files.sighting(memory.expiration_value->Some_0) is Missing),
{
}

/// A memory tied to an unchanged file lasts while the digest of what is at its path, a file's whole
/// contents, is the one that was kept; without one it is gone, and so it is where nothing is at the
/// path or it cannot be read.
pub proof fn law_memories_of_pristine_files_last_while_the_digest_does(
    memory: RecordModel,
    world: World,
)
    requires
        memory.expiration_condition == Some(ExpirationCondition::FilePristine),
        memory.expiration_value is Some,
    ensures
        match world.files.sighting(memory.expiration_value->Some_0) {
            FileState::Regular(bytes) => memory.live(world) <==> memory.file_fingerprint == Some(
                hex(sha256(bytes)),
            ),
            FileState::Special(length, modified) => memory.live(world) <==> memory.file_fingerprint
                is Some && fingerprint(world.files.sighting(memory.expiration_value->Some_0))
                == Ok::<Option<Seq<char>>, Failure<Seq<char>>>(memory.file_fingerprint),
            FileState::Missing => !memory.live(world),
            FileState::Unreadable(_) => !memory.live(world),
        },
{
}

/// A memory tied to a period is there exactly while the period holds; one whose value writes no
/// period is gone.
pub proof fn law_memories_of_a_period_are_there_within_it(memory: RecordModel, world: World)
    requires
        memory.expiration_condition == Some(ExpirationCondition::Period),
        memory.expiration_value is Some,
    ensures
        memory.live(world) <==> period(memory.expiration_value->Some_0) is Ok && (period(
            memory.expiration_value->Some_0,
        )->Ok_0).holds(world.now),
{
}

/// Whether a memory lasts depends on its condition and value, the time at which it was stored, how
/// often it was read and its fingerprint, and on nothing else: not on its mode, scope, tags, content
/// or scores.
pub proof fn law_lifetime_depends_on_nothing_else(
    memory: RecordModel,
    other: RecordModel,
    world: World,
)
    requires
        memory.expiration_condition == other.expiration_condition,
        memory.expiration_value == other.expiration_value,
        memory.created_at == other.created_at,
        memory.usage_count == other.usage_count,
        memory.file_fingerprint == other.file_fingerprint,
    ensures
        memory.live(world) == other.live(world),
{
}

/// A fingerprint is kept for a memory tied to an unchanged file, and for no other: that of what is
/// at the path.
pub proof fn law_fingerprints_are_kept_for_pristine_files(
    condition: Option<ExpirationCondition>,
    value: Option<Seq<char>>,
    files: Files,
)
    ensures
        condition != Some(ExpirationCondition::FilePristine) ==> kept_fingerprint(
            condition,
            value,
            files,
        ) == Ok::<Option<Seq<char>>, Failure<Seq<char>>>(None),
        condition == Some(ExpirationCondition::FilePristine) && value is None ==> kept_fingerprint(
            condition,
            value,
            files,
        ) is Err && kept_fingerprint(condition, value, files)->Err_0 is PristinePathMissing,
        condition == Some(ExpirationCondition::FilePristine) && value is Some ==> kept_fingerprint(
            condition,
            value,
            files,
        ) == fingerprint(files.sighting(value->Some_0)),
{
}

} // verus!
