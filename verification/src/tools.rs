//! The tools that the service offers to agents, and what their arguments must be.
use vstd::prelude::*;

use crate::json::{empty_object, number_of, Json, JsonModel};
use crate::model::{ExpirationCondition, MemoryMode};

verus! {

/// What a text must be: a string.
pub open spec fn string_schema() -> JsonModel {
    empty_object().with("type"@, JsonModel::Text("string"@))
}

/// What a list of texts must be: an array of strings.
pub open spec fn strings_schema() -> JsonModel {
    empty_object().with("type"@, JsonModel::Text("array"@)).with("items"@, string_schema())
}

/// What a choice must be: one of some names.
pub open spec fn choice_schema(names: Seq<JsonModel>) -> JsonModel {
    string_schema().with("enum"@, JsonModel::Array(names))
}

/// What a number must be: an integer, not below `minimum`.
pub open spec fn integer_schema(minimum: i64) -> JsonModel {
    empty_object().with("type"@, JsonModel::Text("integer"@)).with(
        "minimum"@,
        JsonModel::Number(number_of(minimum)),
    )
}

/// What arguments must be: an object with some properties.
pub open spec fn object_schema(properties: JsonModel) -> JsonModel {
    empty_object().with("type"@, JsonModel::Text("object"@)).with("properties"@, properties)
}

/// The names of the modes.
pub open spec fn mode_names() -> Seq<JsonModel> {
    seq![
        JsonModel::Text(MemoryMode::Global.name()),
        JsonModel::Text(MemoryMode::Workspace.name()),
        JsonModel::Text(MemoryMode::Session.name()),
    ]
}

/// The names of the conditions.
pub open spec fn condition_names() -> Seq<JsonModel> {
    seq![
        JsonModel::Text(ExpirationCondition::Time.name()),
        JsonModel::Text(ExpirationCondition::Usage.name()),
        JsonModel::Text(ExpirationCondition::FileExist.name()),
        JsonModel::Text(ExpirationCondition::FilePristine.name()),
        JsonModel::Text(ExpirationCondition::Period.name()),
    ]
}

/// A tool: its name, what it does and what its arguments must be.
pub open spec fn tool(name: Seq<char>, description: Seq<char>, schema: JsonModel) -> JsonModel {
    empty_object().with("name"@, JsonModel::Text(name)).with(
        "description"@,
        JsonModel::Text(description),
    ).with("inputSchema"@, schema)
}

/// What the arguments of `memory_set` must be.
pub open spec fn memory_set_schema() -> JsonModel {
    object_schema(
        empty_object().with("content"@, string_schema()).with(
            "mode"@,
            choice_schema(mode_names()).with("default"@, JsonModel::Text("global"@)),
        ).with(
            "tags"@,
            strings_schema().with("minItems"@, JsonModel::Number(number_of(1))),
        ).with("expiration_condition"@, choice_schema(condition_names())).with(
            "expiration_value"@,
            string_schema(),
        ).with("metadata"@, string_schema()),
    ).with(
        "required"@,
        JsonModel::Array(seq![JsonModel::Text("content"@), JsonModel::Text("tags"@)]),
    )
}

/// What the arguments of `memory_get` must be.
pub open spec fn memory_get_schema() -> JsonModel {
    object_schema(
        empty_object().with("query"@, string_schema()).with("positive_tags"@, strings_schema()).with(
            "negative_tags"@,
            strings_schema(),
        ).with("limit"@, integer_schema(1)).with("offset"@, integer_schema(0)).with(
            "mode"@,
            choice_schema(mode_names()),
        ),
    ).with("required"@, JsonModel::Array(seq![JsonModel::Text("query"@)]))
}

/// What the arguments of `list_tags` must be.
pub open spec fn list_tags_schema() -> JsonModel {
    object_schema(empty_object().with("filter"@, string_schema()))
}

/// What the arguments of `alert_set` must be.
pub open spec fn alert_set_schema() -> JsonModel {
    object_schema(empty_object().with("content"@, string_schema())).with(
        "required"@,
        JsonModel::Array(seq![JsonModel::Text("content"@)]),
    )
}

/// The tools that the service offers.
pub open spec fn tools() -> JsonModel {
    JsonModel::Array(
        seq![
            tool(
                "memory_set"@,
                "Store a memory with one or more tags."@,
                memory_set_schema(),
            ),
            tool(
                "memory_get"@,
                "Retrieve relevant memories by query, positive tags, and negative tags."@,
                memory_get_schema(),
            ),
            tool(
                "list_tags"@,
                "List available memory tags, optionally filtered by text."@,
                list_tags_schema(),
            ),
            tool(
                "alert_set"@,
                "Store a one-shot alert for the current agent session."@,
                alert_set_schema(),
            ),
            tool(
                "alerts_get"@,
                "Return and clear one-shot alerts for the current agent session."@,
                object_schema(empty_object()),
            ),
        ],
    )
}

fn string_property() -> (r: Json)
    ensures
        r@ == string_schema(),
{
    Json::object().with("type", Json::text("string"))
}

fn strings_property() -> (r: Json)
    ensures
        r@ == strings_schema(),
{
    Json::object().with("type", Json::text("array")).with("items", string_property())
}

fn integer_property(minimum: i64) -> (r: Json)
    ensures
        r@ == integer_schema(minimum),
{
    Json::object().with("type", Json::text("integer")).with("minimum", Json::integer(minimum))
}

fn mode_property() -> (r: Json)
    ensures
        r@ == choice_schema(mode_names()),
{
    let mut names: Vec<Json> = Vec::new();
    names.push(Json::text(MemoryMode::Global.as_str()));
    names.push(Json::text(MemoryMode::Workspace.as_str()));
    names.push(Json::text(MemoryMode::Session.as_str()));
    proof {
        assert(names@.map_values(|item: Json| item@) =~= mode_names());
    }
    string_property().with("enum", Json::array(names))
}

fn condition_property() -> (r: Json)
    ensures
        r@ == choice_schema(condition_names()),
{
    let mut names: Vec<Json> = Vec::new();
    names.push(Json::text(ExpirationCondition::Time.as_str()));
    names.push(Json::text(ExpirationCondition::Usage.as_str()));
    names.push(Json::text(ExpirationCondition::FileExist.as_str()));
    names.push(Json::text(ExpirationCondition::FilePristine.as_str()));
    names.push(Json::text(ExpirationCondition::Period.as_str()));
    proof {
        assert(names@.map_values(|item: Json| item@) =~= condition_names());
    }
    string_property().with("enum", Json::array(names))
}

fn object_property(properties: Json) -> (r: Json)
    ensures
        r@ == object_schema(properties@),
{
    Json::object().with("type", Json::text("object")).with("properties", properties)
}

fn define_tool(name: &str, description: &str, schema: Json) -> (r: Json)
    ensures
        r@ == tool(name@, description@, schema@),
{
    Json::object().with("name", Json::text(name)).with(
        "description",
        Json::text(description),
    ).with("inputSchema", schema)
}

fn define_memory_set() -> (r: Json)
    ensures
        r@ == memory_set_schema(),
{
    let mut required: Vec<Json> = Vec::new();
    required.push(Json::text("content"));
    required.push(Json::text("tags"));
    proof {
        assert(required@.map_values(|item: Json| item@) =~= seq![
            JsonModel::Text("content"@),
            JsonModel::Text("tags"@),
        ]);
    }
    object_property(
        Json::object().with("content", string_property()).with(
            "mode",
            mode_property().with("default", Json::text("global")),
        ).with("tags", strings_property().with("minItems", Json::integer(1))).with(
            "expiration_condition",
            condition_property(),
        ).with("expiration_value", string_property()).with("metadata", string_property()),
    ).with("required", Json::array(required))
}

fn define_memory_get() -> (r: Json)
    ensures
        r@ == memory_get_schema(),
{
    let mut required: Vec<Json> = Vec::new();
    required.push(Json::text("query"));
    proof {
        assert(required@.map_values(|item: Json| item@) =~= seq![JsonModel::Text("query"@)]);
    }
    object_property(
        Json::object().with("query", string_property()).with(
            "positive_tags",
            strings_property(),
        ).with("negative_tags", strings_property()).with("limit", integer_property(1)).with(
            "offset",
            integer_property(0),
        ).with("mode", mode_property()),
    ).with("required", Json::array(required))
}

fn define_alert_set() -> (r: Json)
    ensures
        r@ == alert_set_schema(),
{
    let mut required: Vec<Json> = Vec::new();
    required.push(Json::text("content"));
    proof {
        assert(required@.map_values(|item: Json| item@) =~= seq![JsonModel::Text("content"@)]);
    }
    object_property(Json::object().with("content", string_property())).with(
        "required",
        Json::array(required),
    )
}

/// The tools that the service offers.
pub fn tool_definitions() -> (r: Json)
    ensures
        r@ == tools(),
{
    let mut list: Vec<Json> = Vec::new();
    list.push(
        define_tool(
            "memory_set",
            "Store a memory with one or more tags.",
            define_memory_set(),
        ),
    );
    list.push(
        define_tool(
            "memory_get",
            "Retrieve relevant memories by query, positive tags, and negative tags.",
            define_memory_get(),
        ),
    );
    list.push(
        define_tool(
            "list_tags",
            "List available memory tags, optionally filtered by text.",
            object_property(Json::object().with("filter", string_property())),
        ),
    );
    list.push(
        define_tool(
            "alert_set",
            "Store a one-shot alert for the current agent session.",
            define_alert_set(),
        ),
    );
    list.push(
        define_tool(
            "alerts_get",
            "Return and clear one-shot alerts for the current agent session.",
            object_property(Json::object()),
        ),
    );
    proof {
        assert(list@.map_values(|item: Json| item@) =~= tools()->Array_0);
    }
    Json::array(list)
}

} // verus!
