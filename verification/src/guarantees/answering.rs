//! What the documents say that commands are answered with.
use vstd::prelude::*;

use crate::answers::{
    alert_document, answer_document, id_document, memory_document, tag_document, tag_line_text,
    text_array, text_or_null, Figures,
};
use crate::commands::Answer;
use crate::json::{json_text, number_of, JsonModel};
use crate::model::{optional, texts};
use crate::record::{AlertModel, MemorySearchResult, TagSummary};
use crate::text::signed_decimal;

verus! {

/// An object has a member once it is set, with that value, and keeps the others; what is no object
/// has none.
pub proof fn law_members_are_set_one_by_one(
    members: Map<Seq<char>, JsonModel>,
    key: Seq<char>,
    value: JsonModel,
    other: Seq<char>,
    json: JsonModel,
)
    ensures
        JsonModel::Object(members).with(key, value) == JsonModel::Object(members.insert(key, value)),
        JsonModel::Object(members).member(other) == if members.dom().contains(other) {
            Some(members[other])
        } else {
            None
        },
        !(json is Object) ==> json.member(key) is None && json.with(key, value) == json,
        json.text() == match json {
            JsonModel::Text(text) => Some(text),
            _ => None,
        },
        json.text_member(key) == match json.member(key) {
            Some(JsonModel::Text(text)) => Some(text),
            _ => None,
        },
        crate::json::empty_object() == JsonModel::Object(Map::empty()),
{
}

/// An identifier, a tag and an alert are told by objects with their fields and nothing else.
pub proof fn law_small_answers_have_their_fields(id: i64, tag: TagSummary, alert: AlertModel)
    ensures
        id_document(id) == JsonModel::Object(map!["id"@ => JsonModel::Number(number_of(id))]),
        tag_document(tag) == JsonModel::Object(
            map![
                "tag"@ => JsonModel::Text(tag.tag@),
                "count"@ => JsonModel::Number(number_of(tag.count)),
            ],
        ),
        alert_document(alert) == JsonModel::Object(
            map![
                "session_ref"@ => JsonModel::Text(alert.session_ref),
                "content"@ => JsonModel::Text(alert.content),
            ],
        ),
{
}

/// A text that is missing is told by null, and texts by an array of them in order.
pub proof fn law_texts_are_told_as_they_are(text: Option<Seq<char>>, list: Seq<Seq<char>>, at: int)
    ensures
        text is None ==> text_or_null(text) is Null,
        text is Some ==> text_or_null(text) == JsonModel::Text(text->Some_0),
        text_array(list) is Array,
        text_array(list)->Array_0.len() == list.len(),
        0 <= at < list.len() ==> text_array(list)->Array_0[at] == JsonModel::Text(list[at]),
{
}

/// A memory is told by an object with each of its fields under its name, and nothing else.
pub proof fn law_memories_are_told_with_their_fields(memory: MemorySearchResult, figures: Figures)
    ensures
        memory_document(memory, figures) == JsonModel::Object(
            map![
                "id"@ => JsonModel::Number(number_of(memory.id)),
                "content"@ => JsonModel::Text(memory.content@),
                "mode"@ => JsonModel::Text(memory.mode.name()),
                "mode_ref"@ => text_or_null(optional(memory.mode_ref)),
                "tags"@ => text_array(texts(memory.tags@)),
                "score"@ => figures.score@,
                "positive_score"@ => figures.positive_score@,
                "negative_score"@ => figures.negative_score@,
                "usage_count"@ => JsonModel::Number(number_of(memory.usage_count)),
                "metadata"@ => text_or_null(optional(memory.metadata)),
                "created_at"@ => figures.created_at@,
            ],
        ),
{
}

/// What a command gives is told under its name: an identifier, or all of the memories, tags or
/// alerts, each by its own object and in their order.
pub proof fn law_answers_tell_everything_in_order(answer: Answer, figures: Seq<Figures>, at: int)
    ensures
        match answer {
            Answer::Id(id) => answer_document(answer, figures) == id_document(id),
            Answer::Memories(list) => {
                let items = answer_document(answer, figures).member("memories"@)->Some_0->Array_0;
                &&& answer_document(answer, figures) == JsonModel::Object(
                    map!["memories"@ => JsonModel::Array(items)],
                )
                &&& items.len() == list@.len()
                &&& 0 <= at < items.len() ==> items[at] == memory_document(list@[at], figures[at])
            },
            Answer::Tags(list) => {
                let items = answer_document(answer, figures).member("tags"@)->Some_0->Array_0;
                &&& answer_document(answer, figures) == JsonModel::Object(
                    map!["tags"@ => JsonModel::Array(items)],
                )
                &&& items.len() == list@.len()
                &&& 0 <= at < items.len() ==> items[at] == tag_document(list@[at])
            },
            Answer::Alerts(list) => {
                let items = answer_document(answer, figures).member("alerts"@)->Some_0->Array_0;
                &&& answer_document(answer, figures) == JsonModel::Object(
                    map!["alerts"@ => JsonModel::Array(items)],
                )
                &&& items.len() == list@.len()
                &&& 0 <= at < items.len() ==> items[at] == alert_document(list@[at]@)
            },
        },
{
}

/// A tag is printed alone or, as JSON, with its count.
pub proof fn law_tags_are_printed(tag: TagSummary)
    ensures
        tag_line_text(tag, false) == tag.tag@,
        tag_line_text(tag, true) == "{\"tag\":"@ + json_text(JsonModel::Text(tag.tag@))
            + ",\"count\":"@ + signed_decimal(tag.count as int) + "}"@,
{
}

} // verus!
