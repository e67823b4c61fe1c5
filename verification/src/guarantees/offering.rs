//! Which tools the service offers, and what it says of their arguments.
use vstd::prelude::*;

use crate::json::{number_of, JsonModel};
use crate::tools::{
    alert_set_schema, choice_schema, condition_names, integer_schema, list_tags_schema,
    memory_get_schema, memory_set_schema, mode_names, object_schema, string_schema, strings_schema,
    tool, tools,
};

verus! {

/// Arguments are said to be texts, lists of texts, one of some names, numbers that are not too
/// small, or objects.
pub proof fn law_arguments_are_described(
    names: Seq<JsonModel>,
    minimum: i64,
    properties: JsonModel,
)
    ensures
        string_schema() == JsonModel::Object(map!["type"@ => JsonModel::Text("string"@)]),
        strings_schema() == JsonModel::Object(
            map!["type"@ => JsonModel::Text("array"@), "items"@ => string_schema()],
        ),
        choice_schema(names) == JsonModel::Object(
            map!["type"@ => JsonModel::Text("string"@), "enum"@ => JsonModel::Array(names)],
        ),
        integer_schema(minimum) == JsonModel::Object(
            map![
                "type"@ => JsonModel::Text("integer"@),
                "minimum"@ => JsonModel::Number(number_of(minimum)),
            ],
        ),
        object_schema(properties) == JsonModel::Object(
            map!["type"@ => JsonModel::Text("object"@), "properties"@ => properties],
        ),
        mode_names() == seq![
            JsonModel::Text("global"@),
            JsonModel::Text("workspace"@),
            JsonModel::Text("session"@),
        ],
        condition_names() == seq![
            JsonModel::Text("time"@),
            JsonModel::Text("usage"@),
            JsonModel::Text("file_exist"@),
            JsonModel::Text("file_pristine"@),
            JsonModel::Text("period"@),
        ],
{
}

/// A tool is offered by its name, with what it does and what its arguments must be.
pub proof fn law_tools_are_offered_by_name(
    name: Seq<char>,
    description: Seq<char>,
    schema: JsonModel,
)
    ensures
        tool(name, description, schema) == JsonModel::Object(
            map![
                "name"@ => JsonModel::Text(name),
                "description"@ => JsonModel::Text(description),
                "inputSchema"@ => schema,
            ],
        ),
        tools() is Array,
        tools()->Array_0.len() == 5,
        tools()->Array_0[0] == tool(
            "memory_set"@,
            "Store a memory with one or more tags."@,
            memory_set_schema(),
        ),
        tools()->Array_0[1] == tool(
            "memory_get"@,
            "Retrieve relevant memories by query, positive tags, and negative tags."@,
            memory_get_schema(),
        ),
        tools()->Array_0[2] == tool(
            "list_tags"@,
            "List available memory tags, optionally filtered by text."@,
            list_tags_schema(),
        ),
        tools()->Array_0[3] == tool(
            "alert_set"@,
            "Store a one-shot alert for the current agent session."@,
            alert_set_schema(),
        ),
        tools()->Array_0[4] == tool(
            "alerts_get"@,
            "Return and clear one-shot alerts for the current agent session."@,
            object_schema(JsonModel::Object(Map::empty())),
        ),
{
}

/// The arguments of each tool: those that it takes, and those of them that it needs.
pub proof fn law_arguments_of_the_tools()
    ensures
        memory_set_schema() == JsonModel::Object(
            map![
                "type"@ => JsonModel::Text("object"@),
                "properties"@ => JsonModel::Object(
                    map![
                        "content"@ => string_schema(),
                        "mode"@ => JsonModel::Object(
                            map![
                                "type"@ => JsonModel::Text("string"@),
                                "enum"@ => JsonModel::Array(mode_names()),
                                "default"@ => JsonModel::Text("global"@),
                            ],
                        ),
                        "tags"@ => JsonModel::Object(
                            map![
                                "type"@ => JsonModel::Text("array"@),
                                "items"@ => string_schema(),
                                "minItems"@ => JsonModel::Number(number_of(1)),
                            ],
                        ),
                        "expiration_condition"@ => choice_schema(condition_names()),
                        "expiration_value"@ => string_schema(),
                        "metadata"@ => string_schema(),
                    ],
                ),
                "required"@ => JsonModel::Array(
                    seq![JsonModel::Text("content"@), JsonModel::Text("tags"@)],
                ),
            ],
        ),
        memory_get_schema() == JsonModel::Object(
            map![
                "type"@ => JsonModel::Text("object"@),
                "properties"@ => JsonModel::Object(
                    map![
                        "query"@ => string_schema(),
                        "positive_tags"@ => strings_schema(),
                        "negative_tags"@ => strings_schema(),
                        "limit"@ => integer_schema(1),
                        "offset"@ => integer_schema(0),
                        "mode"@ => choice_schema(mode_names()),
                    ],
                ),
                "required"@ => JsonModel::Array(seq![JsonModel::Text("query"@)]),
            ],
        ),
        list_tags_schema() == JsonModel::Object(
            map![
                "type"@ => JsonModel::Text("object"@),
                "properties"@ => JsonModel::Object(map!["filter"@ => string_schema()]),
            ],
        ),
        alert_set_schema() == JsonModel::Object(
            map![
                "type"@ => JsonModel::Text("object"@),
                "properties"@ => JsonModel::Object(map!["content"@ => string_schema()]),
                "required"@ => JsonModel::Array(seq![JsonModel::Text("content"@)]),
            ],
        ),
{
}

} // verus!
