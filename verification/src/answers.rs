//! What the commands give, as JSON documents.
use vstd::prelude::*;

use crate::alerts::alerts_of;
use crate::commands::Answer;
use crate::error::signed_text;
use crate::json::{empty_object, json_text, number_of, Json, JsonModel};
use crate::model::{optional, texts};
use crate::record::{Alert, AlertModel, MemorySearchResult, TagSummary};
use crate::text::{joined, signed_decimal};

verus! {

/// What a document says of a retrieved memory that comes of floating-point arithmetic, and the time
/// at which it was stored.
#[derive(Debug)]
pub struct Figures {
    pub score: Json,
    pub positive_score: Json,
    pub negative_score: Json,
    pub created_at: Json,
}

/// A text, or null where there is none.
pub open spec fn text_or_null(text: Option<Seq<char>>) -> JsonModel {
    match text {
        Some(text) => JsonModel::Text(text),
        None => JsonModel::Null,
    }
}

/// A list of texts.
pub open spec fn text_array(list: Seq<Seq<char>>) -> JsonModel {
    JsonModel::Array(list.map_values(|text: Seq<char>| JsonModel::Text(text)))
}

/// The document of an identifier.
pub open spec fn id_document(id: i64) -> JsonModel {
    empty_object().with("id"@, JsonModel::Number(number_of(id)))
}

/// The document of a tag and its count.
pub open spec fn tag_document(summary: TagSummary) -> JsonModel {
    empty_object().with("tag"@, JsonModel::Text(summary.tag@)).with(
        "count"@,
        JsonModel::Number(number_of(summary.count)),
    )
}

/// The document of an alert.
pub open spec fn alert_document(alert: AlertModel) -> JsonModel {
    empty_object().with("session_ref"@, JsonModel::Text(alert.session_ref)).with(
        "content"@,
        JsonModel::Text(alert.content),
    )
}

/// The document of a retrieved memory.
pub open spec fn memory_document(memory: MemorySearchResult, figures: Figures) -> JsonModel {
    empty_object().with("id"@, JsonModel::Number(number_of(memory.id))).with(
        "content"@,
        JsonModel::Text(memory.content@),
    ).with("mode"@, JsonModel::Text(memory.mode.name())).with(
        "mode_ref"@,
        text_or_null(optional(memory.mode_ref)),
    ).with("tags"@, text_array(texts(memory.tags@))).with("score"@, figures.score@).with(
        "positive_score"@,
        figures.positive_score@,
    ).with("negative_score"@, figures.negative_score@).with(
        "usage_count"@,
        JsonModel::Number(number_of(memory.usage_count)),
    ).with("metadata"@, text_or_null(optional(memory.metadata))).with(
        "created_at"@,
        figures.created_at@,
    )
}

/// The document of what a command gives. `figures` has one entry for each retrieved memory.
pub open spec fn answer_document(answer: Answer, figures: Seq<Figures>) -> JsonModel {
    match answer {
        Answer::Id(id) => id_document(id),
        Answer::Tags(tags) => empty_object().with(
            "tags"@,
            JsonModel::Array(tags@.map_values(|summary: TagSummary| tag_document(summary))),
        ),
        Answer::Alerts(alerts) => empty_object().with(
            "alerts"@,
            JsonModel::Array(
                alerts_of(alerts@).map_values(|alert: AlertModel| alert_document(alert)),
            ),
        ),
        Answer::Memories(memories) => empty_object().with(
            "memories"@,
            JsonModel::Array(
                Seq::new(memories@.len(), |i: int| memory_document(memories@[i], figures[i])),
            ),
        ),
    }
}

/// A text, or null where there is none.
fn optional_json(text: &Option<String>) -> (r: Json)
    ensures
        r@ == text_or_null(optional(*text)),
{
    match text {
        Some(text) => Json::text(text),
        None => Json::Null,
    }
}

/// A list of texts.
fn texts_json(list: &Vec<String>) -> (r: Json)
    ensures
        r@ == text_array(texts(list@)),
{
    let mut items: Vec<Json> = Vec::new();
    let mut i: usize = 0;
    while i < list.len()
        invariant
            i <= list@.len(),
            items@.len() == i,
            forall|j: int| 0 <= j < i ==> (#[trigger] items@[j])@ == JsonModel::Text(list@[j]@),
        decreases list@.len() - i,
    {
        items.push(Json::text(&list[i]));
        i = i + 1;
    }
    proof {
        assert(items@.map_values(|item: Json| item@) =~= text_array(texts(list@))->Array_0);
    }
    Json::array(items)
}

/// The document of a tag and its count.
pub fn tag_json(summary: &TagSummary) -> (r: Json)
    ensures
        r@ == tag_document(*summary),
{
    Json::object().with("tag", Json::text(&summary.tag)).with("count", Json::integer(summary.count))
}

/// The document of an alert.
pub fn alert_json(alert: &Alert) -> (r: Json)
    ensures
        r@ == alert_document(alert@),
{
    Json::object().with("session_ref", Json::text(&alert.session_ref)).with(
        "content",
        Json::text(&alert.content),
    )
}

/// The document of a retrieved memory.
pub fn memory_json(memory: &MemorySearchResult, figures: &Figures) -> (r: Json)
    ensures
        r@ == memory_document(*memory, *figures),
{
    Json::object().with("id", Json::integer(memory.id)).with(
        "content",
        Json::text(&memory.content),
    ).with("mode", Json::text(memory.mode.as_str())).with(
        "mode_ref",
        optional_json(&memory.mode_ref),
    ).with("tags", texts_json(&memory.tags)).with("score", figures.score.copy()).with(
        "positive_score",
        figures.positive_score.copy(),
    ).with("negative_score", figures.negative_score.copy()).with(
        "usage_count",
        Json::integer(memory.usage_count),
    ).with("metadata", optional_json(&memory.metadata)).with(
        "created_at",
        figures.created_at.copy(),
    )
}

/// The document of what a command gives.
pub fn answer_json(answer: &Answer, figures: &Vec<Figures>) -> (r: Json)
    requires
        answer matches Answer::Memories(memories) ==> figures@.len() == memories@.len(),
    ensures
        r@ == answer_document(*answer, figures@),
{
    let mut items: Vec<Json> = Vec::new();
    let mut i: usize = 0;
    match answer {
        Answer::Id(id) => Json::object().with("id", Json::integer(*id)),
        Answer::Tags(tags) => {
            while i < tags.len()
                invariant
                    i <= tags@.len(),
                    items@.len() == i,
                    forall|j: int| 0 <= j < i ==> (#[trigger] items@[j])@ == tag_document(tags@[j]),
                decreases tags@.len() - i,
            {
                items.push(tag_json(&tags[i]));
                i = i + 1;
            }
            proof {
                assert(items@.map_values(|item: Json| item@) =~= tags@.map_values(
                    |summary: TagSummary| tag_document(summary),
                ));
            }
            Json::object().with("tags", Json::array(items))
        },
        Answer::Alerts(alerts) => {
            while i < alerts.len()
                invariant
                    i <= alerts@.len(),
                    items@.len() == i,
                    forall|j: int|
                        0 <= j < i ==> (#[trigger] items@[j])@ == alert_document(alerts@[j]@),
                decreases alerts@.len() - i,
            {
                items.push(alert_json(&alerts[i]));
                i = i + 1;
            }
            proof {
                assert(items@.map_values(|item: Json| item@) =~= alerts_of(alerts@).map_values(
                    |alert: AlertModel| alert_document(alert),
                ));
            }
            Json::object().with("alerts", Json::array(items))
        },
        Answer::Memories(memories) => {
            while i < memories.len()
                invariant
                    i <= memories@.len(),
                    figures@.len() == memories@.len(),
                    items@.len() == i,
                    forall|j: int|
                        0 <= j < i ==> (#[trigger] items@[j])@ == memory_document(
                            memories@[j],
                            figures@[j],
                        ),
                decreases memories@.len() - i,
            {
                items.push(memory_json(&memories[i], &figures[i]));
                i = i + 1;
            }
            proof {
                assert(items@.map_values(|item: Json| item@) =~= Seq::new(
                    memories@.len(),
                    |i: int| memory_document(memories@[i], figures@[i]),
                ));
            }
            Json::object().with("memories", Json::array(items))
        },
    }
}

/// The line that lists a tag: the tag alone or, as JSON, with its count after it.
pub open spec fn tag_line_text(summary: TagSummary, json: bool) -> Seq<char> {
    if json {
        "{\"tag\":"@ + json_text(JsonModel::Text(summary.tag@)) + ",\"count\":"@ + signed_decimal(
            summary.count as int,
        ) + "}"@
    } else {
        summary.tag@
    }
}

/// The line that lists a tag.
pub fn tag_line(summary: &TagSummary, json: bool) -> (r: String)
    ensures
        r@ == tag_line_text(*summary, json),
{
    if !json {
        return summary.tag.clone();
    }
    let start = joined("{\"tag\":", &Json::text(&summary.tag).render());
    let start = joined(&joined(&start, ",\"count\":"), &signed_text(summary.count));
    joined(&start, "}")
}

} // verus!
