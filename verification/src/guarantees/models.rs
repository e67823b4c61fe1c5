//! What contracts say of a value is what the value holds, field by field.
use vstd::prelude::*;

use crate::alerts::alerts_of;
use crate::error::{agrees, Error, Failure};
use crate::expiration::{borrowed, ok};
use crate::explorer::pairs;
use crate::files::{fingerprint_agrees, FileState, Sighting};
use crate::input::{text_agrees, SearchOptions, SetMemory};
use crate::model::{optional, texts};
use crate::record::{
    alert_records, records, Alert, AlertRecord, MemoryRecord, MemorySearchResult, MemoryStore,
    NegativeScore, PositiveScore, StoreModel,
};
use crate::search::results;

verus! {

/// A list of texts is read text by text, and an optional text is that text or none.
pub proof fn law_texts_are_read_as_they_are(list: Seq<String>, text: Option<String>, at: int)
    ensures
        texts(list).len() == list.len(),
        0 <= at < list.len() ==> texts(list)[at] == list[at]@,
        optional(text) is Some <==> text is Some,
        text is Some ==> optional(text) == Some(text->Some_0@),
{
}

/// A borrowed optional text is that text or none, and what is taken of a result is its value.
pub proof fn law_borrowed_texts_are_read_as_they_are<T>(
    text: Option<&str>,
    result: Result<T, Failure<Seq<char>>>,
)
    ensures
        borrowed(text) is Some <==> text is Some,
        text is Some ==> borrowed(text) == Some(text->Some_0@),
        ok(result) is Some <==> result is Ok,
        result is Ok ==> ok(result) == Some(result->Ok_0),
{
}

/// Lists of records, results, alerts, and names and values are read one by one.
pub proof fn law_lists_are_read_as_they_are(
    memories: Seq<MemoryRecord>,
    found: Seq<MemorySearchResult>,
    alerts: Seq<Alert>,
    stored: Seq<AlertRecord>,
    named: Seq<(String, String)>,
    at: int,
)
    ensures
        records(memories).len() == memories.len(),
        0 <= at < memories.len() ==> records(memories)[at] == memories[at]@,
        results(found).len() == found.len(),
        0 <= at < found.len() ==> results(found)[at] == found[at]@,
        alerts_of(alerts).len() == alerts.len(),
        0 <= at < alerts.len() ==> alerts_of(alerts)[at] == alerts[at]@,
        alert_records(stored).len() == stored.len(),
        0 <= at < stored.len() ==> alert_records(stored)[at] == (stored[at].id, stored[at].alert@),
        pairs(named).len() == named.len(),
        0 <= at < named.len() ==> pairs(named)[at] == (named[at].0@, named[at].1@),
{
}

/// A memory to be stored says what its fields hold.
pub proof fn law_set_memory_says_its_fields(input: SetMemory)
    ensures
        input@.content == input.content@,
        input@.mode == input.mode,
        input@.mode_ref == optional(input.mode_ref),
        input@.tags == texts(input.tags@),
        input@.expiration_condition == input.expiration_condition,
        input@.expiration_value == optional(input.expiration_value),
        input@.metadata == optional(input.metadata),
{
}

/// A search says what its fields hold.
pub proof fn law_search_says_its_fields(options: SearchOptions)
    ensures
        options@.query == options.query@,
        options@.positive_tags == texts(options.positive_tags@),
        options@.negative_tags == texts(options.negative_tags@),
        options@.limit == options.limit,
        options@.offset == options.offset,
        options@.mode == options.mode,
        options@.mode_ref == optional(options.mode_ref),
{
}

/// A stored memory says what its fields hold.
pub proof fn law_record_says_its_fields(memory: MemoryRecord)
    ensures
        memory@.id == memory.id,
        memory@.content == memory.content@,
        memory@.mode == memory.mode,
        memory@.mode_ref == optional(memory.mode_ref),
        memory@.tags == texts(memory.tags@),
        memory@.expiration_condition == memory.expiration_condition,
        memory@.expiration_value == optional(memory.expiration_value),
        memory@.metadata == optional(memory.metadata),
        memory@.positive_score == memory.positive_score@,
        memory@.negative_score == memory.negative_score@,
        memory@.usage_count == memory.usage_count,
        memory@.created_at == memory.created_at,
        memory@.file_fingerprint == optional(memory.file_fingerprint),
{
}

/// A retrieved memory says what its fields hold.
pub proof fn law_result_says_its_fields(result: MemorySearchResult)
    ensures
        result@.id == result.id,
        result@.content == result.content@,
        result@.mode == result.mode,
        result@.mode_ref == optional(result.mode_ref),
        result@.tags == texts(result.tags@),
        result@.score == result.score,
        result@.positive_score == result.positive_score@,
        result@.negative_score == result.negative_score@,
        result@.usage_count == result.usage_count,
        result@.metadata == optional(result.metadata),
        result@.created_at == result.created_at,
{
}

/// What a memory has gained and lost is read as it is.
pub proof fn law_scores_say_their_fields(gained: PositiveScore, lost: NegativeScore)
    ensures
        gained@.stored == gained.stored,
        gained@.ranks == gained.ranks@,
        lost@.stored == lost.stored,
        lost@.similarities == lost.similarities@,
{
}

/// An alert and a store say what their fields hold.
pub proof fn law_store_says_its_fields(store: MemoryStore, alert: Alert)
    ensures
        store@.memories == records(store.memories@),
        store@.last_id == store.last_id,
        store@.alerts == alert_records(store.alerts@),
        store@.last_alert_id == store.last_alert_id,
        alert@.session_ref == alert.session_ref@,
        alert@.content == alert.content@,
{
}

/// In a valid store memories and alerts stand in the order of their identifiers, of which none was
/// given twice and none is beyond the last.
pub proof fn law_valid_stores_are_in_order(store: StoreModel)
    ensures
        store.well_formed() <==> {
            &&& forall|i: int, j: int|
                0 <= i < j < store.memories.len() ==> (#[trigger] store.memories[i]).id < (
                #[trigger] store.memories[j]).id
            &&& forall|i: int|
                0 <= i < store.memories.len() ==> (#[trigger] store.memories[i]).id
                    <= store.last_id
            &&& forall|i: int, j: int|
                0 <= i < j < store.alerts.len() ==> (#[trigger] store.alerts[i]).0 < (
                #[trigger] store.alerts[j]).0
            &&& forall|i: int|
                0 <= i < store.alerts.len() ==> (#[trigger] store.alerts[i]).0
                    <= store.last_alert_id
        },
{
}

/// What was seen at a path is read as it is.
pub proof fn law_sightings_are_read_as_they_are(sighting: Sighting)
    ensures
        match sighting {
            FileState::Missing => sighting@ is Missing,
            FileState::Regular(bytes) => sighting@ == FileState::<Seq<u8>, Seq<char>>::Regular(
                bytes@,
            ),
            FileState::Special(length, modified) => sighting@ == FileState::<
                Seq<u8>,
                Seq<char>,
            >::Special(length, modified),
            FileState::Unreadable(reason) => sighting@ == FileState::<
                Seq<u8>,
                Seq<char>,
            >::Unreadable(reason@),
        },
{
}

/// A refusal is read as it is, with its texts.
pub proof fn law_refusals_are_read_as_they_are(error: Error)
    ensures
        match error {
            Failure::EmptyContent => error@ is EmptyContent,
            Failure::NoTags => error@ is NoTags,
            Failure::ValueMissing(c) => error@ == Failure::<Seq<char>>::ValueMissing(c),
            Failure::ConditionMissing => error@ is ConditionMissing,
            Failure::EmptyField(t) => error@ == Failure::<Seq<char>>::EmptyField(t@),
            Failure::UnsupportedMode(t) => error@ == Failure::<Seq<char>>::UnsupportedMode(t@),
            Failure::UnsupportedCondition(t) => error@ == Failure::<Seq<char>>::UnsupportedCondition(t@),
            Failure::InvalidCondition(t) => error@ == Failure::<Seq<char>>::InvalidCondition(t@),
            Failure::PairExpected => error@ is PairExpected,
            Failure::PathMissing => error@ is PathMissing,
            Failure::PristinePathMissing => error@ is PristinePathMissing,
            Failure::FileUnreadable(t) => error@ == Failure::<Seq<char>>::FileUnreadable(t@),
            Failure::InvalidUsage(t) => error@ == Failure::<Seq<char>>::InvalidUsage(t@),
            Failure::UsageNotPositive => error@ is UsageNotPositive,
            Failure::EmptyDuration => error@ is EmptyDuration,
            Failure::InvalidDuration(t) => error@ == Failure::<Seq<char>>::InvalidDuration(t@),
            Failure::UnsupportedUnit(t) => error@ == Failure::<Seq<char>>::UnsupportedUnit(t@),
            Failure::InvalidInstant(t) => error@ == Failure::<Seq<char>>::InvalidInstant(t@),
            Failure::PeriodFormat => error@ is PeriodFormat,
            Failure::NoCurrentDirectory => error@ is NoCurrentDirectory,
            Failure::NewerSchema(n) => error@ == Failure::<Seq<char>>::NewerSchema(n),
            Failure::StoreFull => error@ is StoreFull,
            Failure::InvalidColumn(c, t) => error@ == Failure::<Seq<char>>::InvalidColumn(c@, t@),
            Failure::InvalidTime(t) => error@ == Failure::<Seq<char>>::InvalidTime(t@),
            Failure::UnsupportedCommand(t) => error@ == Failure::<Seq<char>>::UnsupportedCommand(t@),
            Failure::CommandMissing => error@ is CommandMissing,
            Failure::MethodMissing => error@ is MethodMissing,
            Failure::ToolNameMissing => error@ is ToolNameMissing,
            Failure::EmptyRequest => error@ is EmptyRequest,
            Failure::HttpMethodMissing => error@ is HttpMethodMissing,
            Failure::HttpTargetMissing => error@ is HttpTargetMissing,
            Failure::HeadersTooLarge => error@ is HeadersTooLarge,
        },
{
}

/// A result agrees with what is said of it exactly where it is that value, or that refusal.
pub proof fn law_agreement<T>(
    result: Result<T, Error>,
    expected: Result<T, Failure<Seq<char>>>,
    text: Result<Option<String>, Error>,
    expected_text: Result<Option<Seq<char>>, Failure<Seq<char>>>,
)
    ensures
        agrees(result, expected) <==> match expected {
            Ok(value) => result == Ok::<T, Error>(value),
            Err(failure) => result is Err && result->Err_0@ == failure,
        },
        text_agrees(text, expected_text) <==> match expected_text {
            Ok(value) => text is Ok && optional(text->Ok_0) == value,
            Err(failure) => text is Err && text->Err_0@ == failure,
        },
        fingerprint_agrees(text, expected_text) <==> text_agrees(text, expected_text),
{
}

} // verus!
