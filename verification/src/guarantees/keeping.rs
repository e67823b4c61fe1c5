//! What is read from the rows that memories are kept in, from documents, and from tables of earlier
//! versions.
use vstd::prelude::*;

use crate::error::Failure;
use crate::json::{last_named, text_list, Json, JsonModel};
use crate::model::{optional, ExpirationCondition, MemoryMode};
use crate::rows::{
    migration, row_record, version_after, MemoryRow, SchemaStep,
};
use crate::text::{lower, trim};
use crate::time::rfc3339;

verus! {

/// A row is read column by column: what it holds is what the memory says.
pub proof fn law_rows_are_read_column_by_column(row: MemoryRow)
    ensures
        row_record(row) is Ok <==> MemoryMode::named(row.mode@) is Some && (
        row.expiration_condition is Some ==> ExpirationCondition::named(
            row.expiration_condition->Some_0@,
        ) is Some) && rfc3339(row.created_at@) is Ok,
        row_record(row) is Ok ==> {
            let memory = row_record(row)->Ok_0;
            &&& memory.id == row.id
            &&& memory.content == row.content@
            &&& Some(memory.mode) == MemoryMode::named(row.mode@)
            &&& memory.mode_ref == optional(row.mode_ref)
            &&& text_list(row.tags_json@) is Some ==> memory.tags == text_list(
                row.tags_json@,
            )->Some_0
            &&& text_list(row.tags_json@) is None ==> memory.tags.len() == 0
            &&& row.expiration_condition is None ==> memory.expiration_condition is None
            &&& row.expiration_condition is Some ==> memory.expiration_condition
                == ExpirationCondition::named(row.expiration_condition->Some_0@)
            &&& memory.expiration_value == optional(row.expiration_value)
            &&& memory.metadata == optional(row.metadata)
            &&& memory.positive_score.stored == row.positive_score
            &&& memory.positive_score.ranks.len() == 0
            &&& memory.negative_score.stored == row.negative_score
            &&& memory.negative_score.similarities.len() == 0
            &&& memory.usage_count == row.usage_count
            &&& memory.created_at == rfc3339(row.created_at@)->Ok_0
            &&& memory.file_fingerprint == optional(row.file_fingerprint)
        },
{
}

/// A row that cannot be read is refused for the first of mode, condition and time that cannot.
pub proof fn law_unreadable_rows_are_refused(row: MemoryRow)
    ensures
        MemoryMode::named(row.mode@) is None ==> row_record(row) is Err && row_record(row)->Err_0
            == Failure::InvalidColumn(
            "mode"@,
            "unsupported memory mode: "@ + lower(trim(row.mode@)),
        ),
        MemoryMode::named(row.mode@) is Some && row.expiration_condition is Some
            && ExpirationCondition::named(row.expiration_condition->Some_0@) is None ==> row_record(
            row,
        ) is Err && row_record(row)->Err_0 == Failure::InvalidColumn(
            "expiration_condition"@,
            "unsupported expiration condition: "@ + lower(trim(row.expiration_condition->Some_0@)),
        ),
        MemoryMode::named(row.mode@) is Some && (row.expiration_condition is Some
            ==> ExpirationCondition::named(row.expiration_condition->Some_0@) is Some) && rfc3339(
            row.created_at@,
        ) is Err ==> row_record(row) is Err && row_record(row)->Err_0 == Failure::InvalidTime(
            rfc3339(row.created_at@)->Err_0,
        ),
{
}

/// New tables are created with memories first and alerts after them, tables of the first version get
/// alerts, those of the second stay as they are, and later ones are refused.
pub proof fn law_tables_are_brought_to_the_second_version(version: i64)
    ensures
        version == 0 ==> migration(version) == Ok::<Seq<SchemaStep>, Failure<Seq<char>>>(
            seq![SchemaStep::CreateMemories, SchemaStep::CreateAlerts],
        ),
        version == 1 ==> migration(version) == Ok::<Seq<SchemaStep>, Failure<Seq<char>>>(
            seq![SchemaStep::CreateAlerts],
        ),
        version == 2 || version < 0 ==> migration(version) == Ok::<
            Seq<SchemaStep>,
            Failure<Seq<char>>,
        >(Seq::empty()),
        version > 2 ==> migration(version) == Err::<Seq<SchemaStep>, Failure<Seq<char>>>(
            Failure::NewerSchema(version),
        ),
        SchemaStep::CreateMemories.leads_to() == 1,
        SchemaStep::CreateAlerts.leads_to() == 2,
        0 <= version <= 2 ==> version_after(version, migration(version)->Ok_0) == 2,
{
}

/// A document says what its parts say: an array its items in order, and an object its members, of
/// which the last counts where several have one name.
pub proof fn law_documents_say_what_their_parts_say(json: Json, key: Seq<char>, at: int)
    ensures
        match json {
            Json::Null => json@ is Null,
            Json::Bool(flag) => json@ == JsonModel::Bool(flag),
            Json::Number(number) => json@ == JsonModel::Number(number),
            Json::Text(text) => json@ == JsonModel::Text(text@),
            Json::Array(items) => json@ is Array && json@->Array_0.len() == items@.len() && (0 <= at
                < items@.len() ==> json@->Array_0[at] == items@[at]@),
            Json::Object(members) => json@ is Object && (0 <= at < members@.len()
                && members@[at].0@ == key && (forall|j: int|
                at < j < members@.len() ==> (#[trigger] members@[j]).0@ != key) ==> json@.member(key)
                == Some(members@[at].1@)) && ((forall|j: int|
                0 <= j < members@.len() ==> (#[trigger] members@[j]).0@ != key) ==> json@.member(
                key,
            ) is None),
        },
{
    if let Json::Object(members) = json {
        if 0 <= at < members@.len() && members@[at].0@ == key && (forall|j: int|
            at < j < members@.len() ==> (#[trigger] members@[j]).0@ != key) {
            lemma_last(members@, key, at);
        }
        if forall|j: int| 0 <= j < members@.len() ==> (#[trigger] members@[j]).0@ != key {
            lemma_last(members@, key, -1);
        }
    }
}

proof fn lemma_last(members: Seq<(String, Json)>, key: Seq<char>, at: int)
    requires
        -1 <= at < members.len(),
        at >= 0 ==> members[at].0@ == key,
        forall|j: int| at < j < members.len() ==> (#[trigger] members[j]).0@ != key,
    ensures
        last_named(members, key) == at,
    decreases members.len(),
{
    if members.len() > 0 && at < members.len() - 1 {
        let front = members.drop_last();
        assert(members[members.len() - 1].0@ != key);
        assert forall|j: int| at < j < front.len() implies (#[trigger] front[j]).0@ != key by {
            assert(front[j] == members[j]);
        }
        lemma_last(front, key, at);
    }
}

} // verus!
