use mii_memory::answers::{answer_json, tag_line, Figures};
use mii_memory::commands::{
    command_can_run, infer_mcp_mode_ref, invoke_command, Answer, Command, CommandName,
    MemoryGetPayload, MemorySetPayload, Numbers, ServerContext,
};
use mii_memory::files::Files;
use mii_memory::input::{Environment, World};
use mii_memory::json::{read_list, write_list, Json};
use mii_memory::mcp::{handle_line, handle_request, reply, Frame, Step};
use mii_memory::record::TagSummary;
use mii_memory::score::Score;
use mii_memory::time::Instant;
use mii_memory::{ExpirationCondition, MemoryMode, MemoryStore};
use serde_json::Value;

fn world() -> World {
    World {
        now: Instant { seconds: 1_779_105_600, nanos: 0 },
        files: Files { seen: Vec::new() },
        environment: Environment {
            current_dir: Some("/work".to_string()),
            session: Some("surroundings".to_string()),
            mcp_session: None,
        },
    }
}

fn context(session: &str) -> ServerContext {
    ServerContext { session_ref: session.to_string() }
}

fn numbers(count: usize) -> Numbers {
    Numbers {
        scores: vec![Score { bits: 0 }; count],
        similarities: vec![Score { bits: 0 }; count],
        similar_tags: Vec::new(),
    }
}

fn value(text: &str) -> Value {
    serde_json::from_str(text).unwrap()
}

fn replied(step: Step<Json, String>) -> Value {
    match step {
        Step::Reply(json) => value(&json.render()),
        other => panic!("no reply: {other:?}"),
    }
}

fn invoked(step: Step<Json, String>) -> (Frame<Json>, String, Value) {
    match step {
        Step::Invoke { frame, command, arguments } => (frame, command, value(&arguments.render())),
        other => panic!("no command: {other:?}"),
    }
}

fn run(store: &mut MemoryStore, context: &ServerContext, command: Command) -> Result<Answer, String> {
    let numbers = numbers(store.memories.len());
    assert!(command_can_run(store, context, &command, &world().environment, &numbers));
    invoke_command(store, context, command, &world(), &numbers).map_err(|error| error.message())
}

fn document(answer: Answer) -> Json {
    let figures = match &answer {
        Answer::Memories(list) => list.iter().map(|_| figures()).collect(),
        _ => Vec::new(),
    };
    answer_json(&answer, &figures)
}

fn figures() -> Figures {
    Figures {
        score: Json::integer(9),
        positive_score: Json::integer(1),
        negative_score: Json::integer(0),
        created_at: Json::text("2026-05-18T12:00:00Z"),
    }
}

fn command(name: &str, arguments: &Value) -> Result<Command, String> {
    match CommandName::from_str(name).map_err(|error| error.message())? {
        CommandName::AlertSet => Ok(Command::AlertSet {
            content: arguments["content"].as_str().ok_or("missing field `content`")?.to_string(),
        }),
        CommandName::AlertsGet => Ok(Command::AlertsGet),
        CommandName::ListTags => Ok(Command::ListTags {
            filter: arguments["filter"].as_str().map(str::to_string),
        }),
        CommandName::MemoryGet => Ok(Command::MemoryGet(MemoryGetPayload {
            query: arguments["query"].as_str().ok_or("missing field `query`")?.to_string(),
            positive_tags: Vec::new(),
            negative_tags: Vec::new(),
            limit: None,
            offset: None,
            mode: None,
        })),
        CommandName::MemorySet => Ok(Command::MemorySet(stored(
            arguments["content"].as_str().ok_or("missing field `content`")?,
            MemoryMode::Global,
        ))),
    }
}

fn stored(content: &str, mode: MemoryMode) -> MemorySetPayload {
    MemorySetPayload {
        content: content.to_string(),
        mode,
        tags: vec!["tag".to_string()],
        expiration_condition: None,
        expiration_value: None,
        metadata: None,
    }
}

fn asked(query: &str, mode: Option<MemoryMode>) -> MemoryGetPayload {
    MemoryGetPayload {
        query: query.to_string(),
        positive_tags: Vec::new(),
        negative_tags: Vec::new(),
        limit: None,
        offset: None,
        mode,
    }
}

fn serve(store: &mut MemoryStore, context: &ServerContext, input: &str) -> Vec<Value> {
    let mut replies = Vec::new();
    for line in input.lines() {
        match handle_line(line, "0.1.0") {
            Step::Silent => {}
            Step::Reply(json) => replies.push(value(&json.render())),
            Step::Invoke { frame, command: name, arguments } => {
                let outcome = command(&name, &value(&arguments.render()))
                    .and_then(|command| run(store, context, command))
                    .map(document);
                replies.push(value(&reply(frame, outcome).render()));
            }
        }
    }
    replies
}

#[test]
fn mcp_alerts_use_process_session_and_expire_on_read() {
    let mut store = MemoryStore::in_memory();
    let input = r#"
{"command":"alert_set","arguments":{"content":"remember this"}}
{"command":"alerts_get","arguments":{}}
{"command":"alerts_get","arguments":{}}
"#;

    let lines = serve(&mut store, &ServerContext::new(), input);

    assert_eq!(lines.len(), 3);
    assert_eq!(lines[1]["alerts"][0]["content"], "remember this");
    assert_eq!(lines[2]["alerts"].as_array().unwrap().len(), 0);
}

#[test]
fn mcp_session_memories_are_scoped_to_process_session() {
    let context = context("test-session");

    assert_eq!(
        infer_mcp_mode_ref(&context, MemoryMode::Session, &world().environment).unwrap(),
        Some("test-session".to_string())
    );
    assert_eq!(
        infer_mcp_mode_ref(&context, MemoryMode::Global, &world().environment).unwrap(),
        None
    );
}

#[test]
fn json_rpc_tool_errors_do_not_stop_server() {
    let mut store = MemoryStore::in_memory();
    let input = r#"
{"jsonrpc":"2.0","id":1,"method":"tools/call","params":{"name":"memory_get","arguments":{}}}
{"jsonrpc":"2.0","id":2,"method":"tools/call","params":{"name":"list_tags","arguments":{}}}
"#;

    let lines = serve(&mut store, &context("s"), input);

    assert_eq!(lines.len(), 2);
    assert_eq!(lines[0]["result"]["isError"], true);
    assert_eq!(lines[1]["result"]["isError"], false);
}

#[test]
fn workspaces_come_from_the_directory() {
    let context = context("s");
    let mut environment = world().environment;
    assert_eq!(
        infer_mcp_mode_ref(&context, MemoryMode::Workspace, &environment).unwrap().as_deref(),
        Some("/work")
    );
    environment.current_dir = None;
    assert!(infer_mcp_mode_ref(&context, MemoryMode::Workspace, &environment).is_err());
}

#[test]
fn sessions_are_random_identifiers() {
    let one = ServerContext::new().session_ref;
    let other = ServerContext::new().session_ref;
    assert_ne!(one, other);
    assert_eq!(one.len(), 36);
    for (i, c) in one.char_indices() {
        match i {
            8 | 13 | 18 | 23 => assert_eq!(c, '-'),
            14 => assert_eq!(c, '4'),
            19 => assert!("89ab".contains(c)),
            _ => assert!("0123456789abcdef".contains(c)),
        }
    }
}

#[test]
fn lines_that_are_no_json_are_answered() {
    let answer = replied(handle_line("{\"id\": 1", "v"));
    assert_eq!(answer["jsonrpc"], "2.0");
    assert_eq!(answer["id"], Value::Null);
    assert_eq!(answer["error"]["code"], -32700);
    let reason = serde_json::from_str::<Value>("{\"id\": 1").unwrap_err();
    assert_eq!(
        answer["error"]["message"],
        format!("failed to parse JSON request: {reason}").as_str()
    );
}

#[test]
fn blank_lines_and_notifications_are_not_answered() {
    assert!(matches!(handle_line("", "v"), Step::Silent));
    assert!(matches!(handle_line(" \t ", "v"), Step::Silent));
    let line = "{\"jsonrpc\":\"2.0\",\"method\":\"notifications/initialized\"}";
    assert!(matches!(handle_line(line, "v"), Step::Silent));
    let line = "{\"method\":\"notifications/initialized\"}";
    assert!(matches!(handle_line(line, "v"), Step::Invoke { .. }));
}

#[test]
fn plain_requests_name_a_command() {
    let (frame, command, arguments) =
        invoked(handle_line("{\"command\":\"list_tags\",\"filter\":\"x\"}", "v"));
    assert!(matches!(frame, Frame::Direct));
    assert_eq!(command, "list_tags");
    assert_eq!(arguments["filter"], "x");
    assert_eq!(arguments["command"], "list_tags");

    let (_, command, arguments) =
        invoked(handle_line("{\"method\":\"a\",\"arguments\":{\"k\":[1,2.5,null]}}", "v"));
    assert_eq!(command, "a");
    assert_eq!(arguments, value("{\"k\":[1,2.5,null]}"));

    let error = "MCP request requires command or method";
    assert_eq!(replied(handle_line("{}", "v"))["error"], error);
    assert_eq!(replied(handle_line("[1]", "v"))["error"], error);
    assert_eq!(replied(handle_line("{\"command\":1,\"method\":\"a\"}", "v"))["error"], error);
}

#[test]
fn protocol_requests_are_routed() {
    let answer = replied(handle_line(
        "{\"jsonrpc\":\"2.0\",\"id\":\"a\",\"method\":\"initialize\"}",
        "1.2.3",
    ));
    assert_eq!(answer["id"], "a");
    assert_eq!(answer["result"]["protocolVersion"], "2024-11-05");
    assert_eq!(answer["result"]["capabilities"], value("{\"tools\":{}}"));
    assert_eq!(
        answer["result"]["serverInfo"],
        value("{\"name\":\"mii-memory\",\"version\":\"1.2.3\"}")
    );

    let answer = replied(handle_line("{\"jsonrpc\":\"2.0\",\"id\":7}", "v"));
    assert_eq!(answer["id"], 7);
    assert_eq!(answer["error"]["code"], -32603);
    assert_eq!(answer["error"]["message"], "JSON-RPC request requires method");

    let answer =
        replied(handle_line("{\"jsonrpc\":\"2.0\",\"id\":7,\"method\":\"tools/call\"}", "v"));
    assert_eq!(answer["error"]["message"], "tools/call requires params.name");
    let answer = replied(handle_line(
        "{\"jsonrpc\":\"2.0\",\"method\":\"tools/call\",\"params\":null}",
        "v",
    ));
    assert_eq!(answer["id"], Value::Null);

    let (frame, command, arguments) = invoked(handle_line(
        "{\"jsonrpc\":\"2.0\",\"id\":7,\"method\":\"tools/call\",\"params\":{\"name\":\"x\"}}",
        "v",
    ));
    assert!(matches!(frame, Frame::Call(_)));
    assert_eq!((command.as_str(), arguments), ("x", value("{}")));

    let (frame, command, arguments) = invoked(handle_line(
        "{\"jsonrpc\":\"2.0\",\"method\":\"list_tags\",\"params\":{\"filter\":\"y\"}}",
        "v",
    ));
    assert!(matches!(frame, Frame::Method(_)));
    assert_eq!((command.as_str(), arguments), ("list_tags", value("{\"filter\":\"y\"}")));
}

#[test]
fn outcomes_are_framed() {
    let result = || Ok(Json::object().with("id", Json::integer(3)));
    let failure = || Err("no".to_string());
    let framed = |frame, outcome| value(&reply(frame, outcome).render());

    assert_eq!(framed(Frame::Direct, result()), value("{\"id\":3}"));
    assert_eq!(framed(Frame::Direct, failure()), value("{\"error\":\"no\"}"));
    assert_eq!(
        framed(Frame::Call(Json::integer(9)), result()),
        value(
            "{\"jsonrpc\":\"2.0\",\"id\":9,\"result\":{\"content\":[{\"type\":\"text\",\
             \"text\":\"{\\\"id\\\":3}\"}],\"isError\":false}}"
        )
    );
    assert_eq!(
        framed(Frame::Call(Json::Null), failure()),
        value(
            "{\"jsonrpc\":\"2.0\",\"id\":null,\"result\":{\"content\":[{\"type\":\"text\",\
             \"text\":\"no\"}],\"isError\":true}}"
        )
    );
    assert_eq!(
        framed(Frame::Method(Json::text("q")), result()),
        value("{\"jsonrpc\":\"2.0\",\"id\":\"q\",\"result\":{\"id\":3}}")
    );
    assert_eq!(
        framed(Frame::Method(Json::text("q")), failure()),
        value(
            "{\"jsonrpc\":\"2.0\",\"id\":\"q\",\"error\":{\"code\":-32603,\"message\":\"no\"}}"
        )
    );
}

#[test]
fn tools_are_the_commands() {
    let answer =
        replied(handle_line("{\"jsonrpc\":\"2.0\",\"id\":1,\"method\":\"tools/list\"}", "v"));
    let tools = answer["result"]["tools"].as_array().unwrap();
    assert_eq!(tools.len(), 5);
    for tool in tools {
        assert!(CommandName::from_str(tool["name"].as_str().unwrap()).is_ok());
        assert_eq!(tool["inputSchema"]["type"], "object");
    }
    let set = &tools[0]["inputSchema"];
    assert_eq!(set["required"], value("[\"content\",\"tags\"]"));
    assert_eq!(
        set["properties"]["mode"],
        value(
            "{\"type\":\"string\",\"enum\":[\"global\",\"workspace\",\"session\"],\
             \"default\":\"global\"}"
        )
    );
    assert_eq!(
        set["properties"]["tags"],
        value("{\"type\":\"array\",\"items\":{\"type\":\"string\"},\"minItems\":1}")
    );
    assert_eq!(
        set["properties"]["expiration_condition"]["enum"],
        value("[\"time\",\"usage\",\"file_exist\",\"file_pristine\",\"period\"]")
    );
    let get = &tools[1]["inputSchema"];
    assert_eq!(get["required"], value("[\"query\"]"));
    assert_eq!(get["properties"]["limit"], value("{\"type\":\"integer\",\"minimum\":1}"));
    assert_eq!(get["properties"]["offset"], value("{\"type\":\"integer\",\"minimum\":0}"));
    assert_eq!(
        tools[2]["inputSchema"],
        value("{\"type\":\"object\",\"properties\":{\"filter\":{\"type\":\"string\"}}}")
    );
    assert_eq!(tools[3]["inputSchema"]["required"], value("[\"content\"]"));
    assert_eq!(tools[4]["inputSchema"], value("{\"type\":\"object\",\"properties\":{}}"));
    assert_eq!(
        tools[4]["description"],
        "Return and clear one-shot alerts for the current agent session."
    );
}

#[test]
fn unknown_commands_are_refused() {
    assert_eq!(
        CommandName::from_str("memory_forget").unwrap_err().message(),
        "unsupported MCP command: memory_forget"
    );
}

#[test]
fn sessions_see_their_own_memories() {
    let mut store = MemoryStore::in_memory();
    let (one, other) = (context("one"), context("other"));
    run(&mut store, &one, Command::MemorySet(stored("mine", MemoryMode::Session))).unwrap();
    run(&mut store, &other, Command::MemorySet(stored("theirs", MemoryMode::Session))).unwrap();
    run(&mut store, &one, Command::MemorySet(stored("ours", MemoryMode::Global))).unwrap();
    assert_eq!(store.memories[0].mode_ref.as_deref(), Some("one"));

    let mut seen = |mode| match run(&mut store, &one, Command::MemoryGet(asked("", mode))).unwrap()
    {
        Answer::Memories(list) => {
            list.into_iter().map(|memory| memory.content).collect::<Vec<String>>()
        }
        other => panic!("{other:?}"),
    };
    assert_eq!(seen(Some(MemoryMode::Session)), vec!["mine"]);
    assert_eq!(seen(Some(MemoryMode::Global)), vec!["ours"]);
    assert_eq!(seen(None), vec!["ours", "theirs", "mine"]);
}

#[test]
fn answers_are_documents() {
    let mut store = MemoryStore::in_memory();
    let context = context("s");
    let mut payload = stored("text", MemoryMode::Session);
    payload.metadata = Some("m".to_string());
    let answer = run(&mut store, &context, Command::MemorySet(payload)).unwrap();
    assert_eq!(value(&document(answer).render()), value("{\"id\":1}"));

    let answer = run(&mut store, &context, Command::MemoryGet(asked("", None))).unwrap();
    assert_eq!(
        value(&document(answer).render()),
        value(
            "{\"memories\":[{\"id\":1,\"content\":\"text\",\"mode\":\"session\",\
             \"mode_ref\":\"s\",\"tags\":[\"tag\"],\"score\":9,\"positive_score\":1,\
             \"negative_score\":0,\"usage_count\":0,\"metadata\":\"m\",\
             \"created_at\":\"2026-05-18T12:00:00Z\"}]}"
        )
    );

    let answer = run(&mut store, &context, Command::ListTags { filter: None }).unwrap();
    assert_eq!(
        value(&document(answer).render()),
        value("{\"tags\":[{\"tag\":\"tag\",\"count\":1}]}")
    );

    run(&mut store, &context, Command::AlertSet { content: "c".to_string() }).unwrap();
    let answer = run(&mut store, &context, Command::AlertsGet).unwrap();
    assert_eq!(
        value(&document(answer).render()),
        value("{\"alerts\":[{\"session_ref\":\"s\",\"content\":\"c\"}]}")
    );
}

#[test]
fn tags_are_printed_alone_or_as_json() {
    let tag = TagSummary { tag: "a \"b\"".to_string(), count: 12 };
    assert_eq!(tag_line(&tag, false), "a \"b\"");
    assert_eq!(tag_line(&tag, true), "{\"tag\":\"a \\\"b\\\"\",\"count\":12}");
}

#[test]
fn lines_are_answered_in_order_whatever_fails() {
    let mut store = MemoryStore::in_memory();
    let input = r#"
{"jsonrpc":"2.0","id":1,"method":"nothing"}
not json
{"jsonrpc":"2.0","method":"notifications/x"}
{"command":"nothing"}

{"jsonrpc":"2.0","id":2,"method":"tools/call"}
{"jsonrpc":"2.0","id":3,"method":"list_tags"}
"#;
    let lines = serve(&mut store, &context("s"), input);
    assert_eq!(lines.len(), 5);
    assert_eq!((&lines[0]["id"], &lines[0]["error"]["code"]), (&value("1"), &value("-32603")));
    assert_eq!(lines[0]["error"]["message"], "unsupported MCP command: nothing");
    assert_eq!((&lines[1]["id"], &lines[1]["error"]["code"]), (&Value::Null, &value("-32700")));
    assert_eq!(lines[2], value("{\"error\":\"unsupported MCP command: nothing\"}"));
    assert_eq!((&lines[3]["id"], &lines[3]["error"]["code"]), (&value("2"), &value("-32603")));
    assert_eq!((&lines[4]["id"], &lines[4]["result"]), (&value("3"), &value("{\"tags\":[]}")));
}

#[test]
fn searches_show_ten_memories_unless_told() {
    let mut store = MemoryStore::in_memory();
    let context = context("s");
    for i in 0..12 {
        let command = Command::MemorySet(stored(&format!("memory {i}"), MemoryMode::Global));
        assert!(matches!(run(&mut store, &context, command), Ok(Answer::Id(id)) if id == i + 1));
    }
    let shown = |store: &mut MemoryStore, limit, offset| {
        let payload = MemoryGetPayload { limit, offset, ..asked("", None) };
        match run(store, &context, Command::MemoryGet(payload)).unwrap() {
            Answer::Memories(list) => list.len(),
            other => panic!("{other:?}"),
        }
    };
    assert_eq!(shown(&mut store, None, None), 10);
    assert_eq!(shown(&mut store, None, Some(10)), 2);
    assert_eq!(shown(&mut store, Some(0), None), 1);
    match run(&mut store, &context, Command::ListTags { filter: None }).unwrap() {
        Answer::Tags(tags) => assert_eq!((tags[0].tag.as_str(), tags[0].count), ("tag", 12)),
        other => panic!("{other:?}"),
    }
}

#[test]
fn failing_commands_say_why() {
    let mut store = MemoryStore::in_memory();
    let context = context("s");
    let mut payload = stored("text", MemoryMode::Global);
    payload.tags = Vec::new();
    assert_eq!(
        run(&mut store, &context, Command::MemorySet(payload)).unwrap_err(),
        "at least one tag is required"
    );
    assert_eq!(
        run(&mut store, &context, Command::AlertSet { content: " ".to_string() }).unwrap_err(),
        "alert content cannot be empty"
    );
    assert!(store.memories.is_empty() && store.alerts.is_empty());
}

#[test]
fn commands_that_cannot_run_are_recognized() {
    let mut store = MemoryStore::in_memory();
    let context = context("s");
    let mut payload = stored("text", MemoryMode::Global);
    payload.expiration_condition = Some(ExpirationCondition::Time);
    payload.expiration_value = Some("9223372036854776s".to_string());
    let can_run = |store: &MemoryStore, command: &Command, numbers: &Numbers| {
        command_can_run(store, &context, command, &world().environment, numbers)
    };
    assert!(!can_run(&store, &Command::MemorySet(payload.clone()), &numbers(0)));
    payload.content = " ".to_string();
    assert!(can_run(&store, &Command::MemorySet(payload), &numbers(0)));

    run(&mut store, &context, Command::MemorySet(stored("text", MemoryMode::Global))).unwrap();
    let search = Command::MemoryGet(asked("", None));
    assert!(!can_run(&store, &search, &numbers(0)));
    let mut nan = numbers(1);
    nan.scores[0] = Score { bits: f32::NAN.to_bits() };
    assert!(can_run(&store, &search, &nan));
    assert!(can_run(&store, &search, &numbers(1)));
    store.memories[0].usage_count = i64::MAX;
    assert!(can_run(&store, &search, &numbers(1)));
    assert!(can_run(&store, &Command::ListTags { filter: None }, &numbers(0)));
}

#[test]
fn documents_keep_what_they_say() {
    let text = "{\"a\":[true,null,-7,1.5,\"é\\n\"],\"b\":{\"c\":{}}}";
    let json = Json::parse(text).unwrap();
    assert_eq!(json.copy().render(), text);
    assert_eq!(value(&Json::from_value(value(text)).render()), value(text));
    assert_eq!(json.into_value(), value(text));
    assert!(Json::parse("{").is_err());

    let json = Json::parse("{\"k\":1,\"k\":\"two\"}").unwrap();
    assert_eq!(json.get_str("k"), Some("two"));
    assert!(json.get("other").is_none());
    assert!(Json::text("x").get("k").is_none());
    let json = Json::object().with("k", Json::Null).with("k", Json::Bool(true));
    assert_eq!(json.copy().render(), "{\"k\":true}");
    assert_eq!(json.into_value(), value("{\"k\":true}"));
    assert_eq!(Json::text("x").with("k", Json::Null).render(), "\"x\"");
    let step = handle_request(&Json::parse("{\"command\":\"c\"}").unwrap(), "v");
    assert_eq!(invoked(step).1, "c");
}

#[test]
fn lists_of_texts_are_read_back() {
    let list: Vec<String> = ["a", "", "quote \" and \\", "é\u{1}"].iter().map(|t| t.to_string()).collect();
    assert_eq!(read_list(&write_list(&list)), list);
    assert_eq!(write_list(&vec!["a".to_string()]), "[\"a\"]");
    assert!(read_list("{\"a\":1}").is_empty());
    assert!(read_list("[1]").is_empty());
    assert!(read_list("").is_empty());
}
