//! The service that agents talk to: requests, one JSON document a line, and what they are answered.
use vstd::prelude::*;

use crate::error::{sentence, Error, Failure};
use crate::json::{document, empty_object, json_text, number_of, Json, JsonModel};
use crate::text::{joined, same_text, stands_at, starts_with, trim, trimmed};
use crate::tools::{tool_definitions, tools};

verus! {

/// How the outcome of a command goes into a reply: as it is, as the outcome of a tool call with the
/// identifier of its request, or as the outcome of a method with the identifier of its request.
#[derive(Debug)]
pub enum Frame<Document> {
    Direct,
    Call(Document),
    Method(Document),
}

/// What to do about a line: nothing, to answer it, or to run a command and answer by its outcome.
#[derive(Debug)]
pub enum Step<Document, Text> {
    Silent,
    Reply(Document),
    Invoke { frame: Frame<Document>, command: Text, arguments: Document },
}

impl View for Frame<Json> {
    type V = Frame<JsonModel>;

    open spec fn view(&self) -> Frame<JsonModel> {
        match *self {
            Frame::Direct => Frame::Direct,
            Frame::Call(id) => Frame::Call(id@),
            Frame::Method(id) => Frame::Method(id@),
        }
    }
}

impl View for Step<Json, String> {
    type V = Step<JsonModel, Seq<char>>;

    open spec fn view(&self) -> Step<JsonModel, Seq<char>> {
        match *self {
            Step::Silent => Step::Silent,
            Step::Reply(reply) => Step::Reply(reply@),
            Step::Invoke { frame, command, arguments } => Step::Invoke {
                frame: frame@,
                command: command@,
                arguments: arguments@,
            },
        }
    }
}

/// The code of an error in reading a request.
pub const PARSE_ERROR: i64 = -32_700;

/// The code of an error in answering a request.
pub const INTERNAL_ERROR: i64 = -32_603;

/// The member named `key`, else `otherwise`.
pub open spec fn member_or(json: JsonModel, key: Seq<char>, otherwise: JsonModel) -> JsonModel {
    match json.member(key) {
        Some(value) => value,
        None => otherwise,
    }
}

/// The identifier of a request, null where it has none.
pub open spec fn request_id(request: JsonModel) -> JsonModel {
    member_or(request, "id"@, JsonModel::Null)
}

/// A reply that tells of an error.
pub open spec fn rpc_error(id: JsonModel, code: i64, message: Seq<char>) -> JsonModel {
    empty_object().with("jsonrpc"@, JsonModel::Text("2.0"@)).with("id"@, id).with(
        "error"@,
        empty_object().with("code"@, JsonModel::Number(number_of(code))).with(
            "message"@,
            JsonModel::Text(message),
        ),
    )
}

/// A reply that gives a result.
pub open spec fn rpc_result(id: JsonModel, result: JsonModel) -> JsonModel {
    empty_object().with("jsonrpc"@, JsonModel::Text("2.0"@)).with("id"@, id).with("result"@, result)
}

/// A reply to a plain request that tells of an error.
pub open spec fn plain_error(message: Seq<char>) -> JsonModel {
    empty_object().with("error"@, JsonModel::Text(message))
}

/// The result of a tool call: a text, and whether it tells of an error.
pub open spec fn call_result(text: Seq<char>, is_error: bool) -> JsonModel {
    empty_object().with(
        "content"@,
        JsonModel::Array(
            seq![
                empty_object().with("type"@, JsonModel::Text("text"@)).with(
                    "text"@,
                    JsonModel::Text(text),
                ),
            ],
        ),
    ).with("isError"@, JsonModel::Bool(is_error))
}

/// What the service says of itself.
pub open spec fn introduction(version: Seq<char>) -> JsonModel {
    empty_object().with("protocolVersion"@, JsonModel::Text("2024-11-05"@)).with(
        "capabilities"@,
        empty_object().with("tools"@, empty_object()),
    ).with(
        "serverInfo"@,
        empty_object().with("name"@, JsonModel::Text("mii-memory"@)).with(
            "version"@,
            JsonModel::Text(version),
        ),
    )
}

/// The member named `key`, else `otherwise`.
fn member_copy(json: &Json, key: &str, otherwise: Json) -> (r: Json)
    ensures
        r@ == member_or(json@, key@, otherwise@),
{
    match json.get(key) {
        Some(value) => value.copy(),
        None => otherwise,
    }
}

/// A reply that tells of an error; without an identifier its place is null.
pub fn json_rpc_error(id: Option<Json>, code: i64, message: &str) -> (r: Json)
    ensures
        r@ == rpc_error(
            match id {
                Some(id) => id@,
                None => JsonModel::Null,
            },
            code,
            message@,
        ),
{
    let id = match id {
        Some(id) => id,
        None => Json::Null,
    };
    Json::object().with("jsonrpc", Json::text("2.0")).with("id", id).with(
        "error",
        Json::object().with("code", Json::integer(code)).with("message", Json::text(message)),
    )
}

/// A reply that gives a result.
fn json_rpc_result(id: Json, result: Json) -> (r: Json)
    ensures
        r@ == rpc_result(id@, result@),
{
    Json::object().with("jsonrpc", Json::text("2.0")).with("id", id).with("result", result)
}

/// A reply to a plain request that tells of an error.
fn direct_error(message: &str) -> (r: Json)
    ensures
        r@ == plain_error(message@),
{
    Json::object().with("error", Json::text(message))
}

/// The result of a tool call.
fn tool_result(text: &str, is_error: bool) -> (r: Json)
    ensures
        r@ == call_result(text@, is_error),
{
    let mut content: Vec<Json> = Vec::new();
    content.push(Json::object().with("type", Json::text("text")).with("text", Json::text(text)));
    proof {
        assert(content@.map_values(|item: Json| item@) =~= seq![content@[0]@]);
    }
    Json::object().with("content", Json::array(content)).with("isError", Json::Bool(is_error))
}

/// What the service says of itself.
pub fn initialization(version: &str) -> (r: Json)
    ensures
        r@ == introduction(version@),
{
    Json::object().with("protocolVersion", Json::text("2024-11-05")).with(
        "capabilities",
        Json::object().with("tools", Json::object()),
    ).with(
        "serverInfo",
        Json::object().with("name", Json::text("mii-memory")).with("version", Json::text(version)),
    )
}

/// What to do about a plain request: to run the command that its member `command`, or else
/// `method`, names, with its member `arguments`, or else the whole request, for arguments.
pub open spec fn direct_step(request: JsonModel) -> Step<JsonModel, Seq<char>> {
    let named = match request.member("command"@) {
        Some(value) => Some(value),
        None => request.member("method"@),
    };
    let command = match named {
        Some(value) => value.text(),
        None => None,
    };
    match command {
        None => Step::Reply(plain_error(sentence(Failure::CommandMissing))),
        Some(command) => Step::Invoke {
            frame: Frame::Direct,
            command,
            arguments: member_or(request, "arguments"@, request),
        },
    }
}

/// What to do about a tool call: to run the command that `name` among its parameters names, with
/// `arguments` among them.
pub open spec fn call_step(request: JsonModel) -> Step<JsonModel, Seq<char>> {
    let params = member_or(request, "params"@, empty_object());
    match params.text_member("name"@) {
        None => Step::Reply(
            rpc_error(
                request_id(request),
                INTERNAL_ERROR,
                sentence(Failure::ToolNameMissing),
            ),
        ),
        Some(name) => Step::Invoke {
            frame: Frame::Call(request_id(request)),
            command: name,
            arguments: member_or(params, "arguments"@, empty_object()),
        },
    }
}

/// What to do about a JSON-RPC request. A notification is not answered; a method that is not known
/// here is the name of a command.
pub open spec fn rpc_step(request: JsonModel, version: Seq<char>) -> Step<JsonModel, Seq<char>> {
    let id = request_id(request);
    match request.text_member("method"@) {
        None => Step::Reply(rpc_error(id, INTERNAL_ERROR, sentence(Failure::MethodMissing))),
        Some(method) => if stands_at(method, "notifications/"@, 0) {
            Step::Silent
        } else if method == "initialize"@ {
            Step::Reply(rpc_result(id, introduction(version)))
        } else if method == "tools/list"@ {
            Step::Reply(rpc_result(id, empty_object().with("tools"@, tools())))
        } else if method == "tools/call"@ {
            call_step(request)
        } else {
            Step::Invoke {
                frame: Frame::Method(id),
                command: method,
                arguments: member_or(request, "params"@, empty_object()),
            }
        },
    }
}

/// What to do about a request: one with a member `jsonrpc` is a JSON-RPC request.
pub open spec fn request_step(request: JsonModel, version: Seq<char>) -> Step<
    JsonModel,
    Seq<char>,
> {
    if request.member("jsonrpc"@) is Some {
        rpc_step(request, version)
    } else {
        direct_step(request)
    }
}

/// What to do about a line that `reading` was read in. A blank line is passed over.
pub open spec fn step_after(
    line: Seq<char>,
    reading: Result<JsonModel, Seq<char>>,
    version: Seq<char>,
) -> Step<JsonModel, Seq<char>> {
    if trim(line).len() == 0 {
        Step::Silent
    } else {
        match reading {
            Err(reason) => Step::Reply(
                rpc_error(
                    JsonModel::Null,
                    PARSE_ERROR,
                    "failed to parse JSON request: "@ + reason,
                ),
            ),
            Ok(request) => request_step(request, version),
        }
    }
}

/// What to do about a plain request.
pub fn handle_direct_command(request: &Json) -> (r: Step<Json, String>)
    ensures
        r@ == direct_step(request@),
{
    let named = match request.get("command") {
        Some(value) => Some(value),
        None => request.get("method"),
    };
    let command = match named {
        Some(value) => value.as_str(),
        None => None,
    };
    match command {
        None => {
            let error: Error = Failure::CommandMissing;
            Step::Reply(direct_error(&error.message()))
        },
        Some(command) => Step::Invoke {
            frame: Frame::Direct,
            command: command.to_owned(),
            arguments: match request.get("arguments") {
                Some(arguments) => arguments.copy(),
                None => request.copy(),
            },
        },
    }
}

/// What to do about a tool call.
fn handle_call(request: &Json) -> (r: Step<Json, String>)
    ensures
        r@ == call_step(request@),
{
    let id = member_copy(request, "id", Json::Null);
    let params = member_copy(request, "params", Json::object());
    match params.get_str("name") {
        None => {
            let error: Error = Failure::ToolNameMissing;
            Step::Reply(json_rpc_error(Some(id), INTERNAL_ERROR, &error.message()))
        },
        Some(name) => Step::Invoke {
            frame: Frame::Call(id),
            command: name.to_owned(),
            arguments: member_copy(&params, "arguments", Json::object()),
        },
    }
}

/// What to do about a JSON-RPC request.
pub fn handle_json_rpc(request: &Json, version: &str) -> (r: Step<Json, String>)
    ensures
        r@ == rpc_step(request@, version@),
{
    let id = member_copy(request, "id", Json::Null);
    let method = match request.get_str("method") {
        Some(method) => method,
        None => {
            let error: Error = Failure::MethodMissing;
            return Step::Reply(json_rpc_error(Some(id), INTERNAL_ERROR, &error.message()));
        },
    };
    if starts_with(method, "notifications/") {
        Step::Silent
    } else if same_text(method, "initialize") {
        Step::Reply(json_rpc_result(id, initialization(version)))
    } else if same_text(method, "tools/list") {
        Step::Reply(json_rpc_result(id, Json::object().with("tools", tool_definitions())))
    } else if same_text(method, "tools/call") {
        handle_call(request)
    } else {
        Step::Invoke {
            frame: Frame::Method(id),
            command: method.to_owned(),
            arguments: member_copy(request, "params", Json::object()),
        }
    }
}

/// What to do about a request.
pub fn handle_request(request: &Json, version: &str) -> (r: Step<Json, String>)
    ensures
        r@ == request_step(request@, version@),
{
    match request.get("jsonrpc") {
        Some(_) => handle_json_rpc(request, version),
        None => handle_direct_command(request),
    }
}

/// What to do about a line.
pub fn handle_line(line: &str, version: &str) -> (r: Step<Json, String>)
    ensures
        r@ == step_after(line@, document(line@), version@),
{
    if trimmed(line).as_str().is_empty() {
        return Step::Silent;
    }
    match Json::parse(line) {
        Err(reason) => Step::Reply(
            json_rpc_error(
                None,
                PARSE_ERROR,
                &joined("failed to parse JSON request: ", &reason),
            ),
        ),
        Ok(request) => handle_request(&request, version),
    }
}

/// The reply that an outcome goes into.
pub open spec fn framed(
    frame: Frame<JsonModel>,
    outcome: Result<JsonModel, Seq<char>>,
) -> JsonModel {
    match frame {
        Frame::Direct => match outcome {
            Ok(result) => result,
            Err(message) => plain_error(message),
        },
        Frame::Call(id) => match outcome {
            Ok(result) => rpc_result(id, call_result(json_text(result), false)),
            Err(message) => rpc_result(id, call_result(message, true)),
        },
        Frame::Method(id) => match outcome {
            Ok(result) => rpc_result(id, result),
            Err(message) => rpc_error(id, INTERNAL_ERROR, message),
        },
    }
}

/// The reply that an outcome goes into.
pub fn reply(frame: Frame<Json>, outcome: Result<Json, String>) -> (r: Json)
    ensures
        r@ == framed(
            frame@,
            match outcome {
                Ok(result) => Ok(result@),
                Err(message) => Err(message@),
            },
        ),
{
    match frame {
        Frame::Direct => match outcome {
            Ok(result) => result,
            Err(message) => direct_error(&message),
        },
        Frame::Call(id) => match outcome {
            Ok(result) => json_rpc_result(id, tool_result(&result.render(), false)),
            Err(message) => json_rpc_result(id, tool_result(&message, true)),
        },
        Frame::Method(id) => match outcome {
            Ok(result) => json_rpc_result(id, result),
            Err(message) => json_rpc_error(Some(id), INTERNAL_ERROR, &message),
        },
    }
}

/// Whether a request is a JSON-RPC notification.
pub open spec fn is_notification(request: JsonModel) -> bool {
    &&& request.member("jsonrpc"@) is Some
    &&& request.text_member("method"@) matches Some(method) && stands_at(
        method,
        "notifications/"@,
        0,
    )
}

/// Every line is answered, once, but for blank lines and notifications: whatever is wrong with a
/// request, or with the command that it runs, becomes a reply.
pub proof fn law_every_request_is_answered(
    line: Seq<char>,
    reading: Result<JsonModel, Seq<char>>,
    version: Seq<char>,
)
    ensures
        step_after(line, reading, version) is Silent <==> (trim(line).len() == 0 || (
        reading matches Ok(request) && is_notification(request))),
{
}

/// The reply to a JSON-RPC request carries its identifier, null where it has none, whatever comes
/// of it.
pub proof fn law_reply_carries_the_identifier(
    request: JsonModel,
    version: Seq<char>,
    outcome: Result<JsonModel, Seq<char>>,
)
    requires
        request.member("jsonrpc"@) is Some,
    ensures
        match request_step(request, version) {
            Step::Silent => true,
            Step::Reply(reply) => answers(reply, request_id(request)),
            Step::Invoke { frame, .. } => answers(framed(frame, outcome), request_id(request)),
        },
{
    lemma_members_differ();
}

/// Whether a reply is a JSON-RPC reply to the request with an identifier: it has the identifier,
/// and either a result or an error.
pub open spec fn answers(reply: JsonModel, id: JsonModel) -> bool {
    &&& reply.member("id"@) == Some(id)
    &&& reply.text_member("jsonrpc"@) == Some("2.0"@)
    &&& reply.member("result"@) is Some <==> reply.member("error"@) is None
}

proof fn lemma_members_differ()
    ensures
        "jsonrpc"@ != "id"@,
        "jsonrpc"@ != "result"@,
        "jsonrpc"@ != "error"@,
        "id"@ != "result"@,
        "id"@ != "error"@,
        "result"@ != "error"@,
{
    reveal_strlit("jsonrpc");
    reveal_strlit("id");
    reveal_strlit("result");
    reveal_strlit("error");
    assert("jsonrpc"@.len() == 7 && "id"@.len() == 2 && "result"@.len() == 6 && "error"@.len() == 5);
}

/// A tool call that fails is answered by a result that says so, and one that succeeds by a result
/// that does not: in neither case by an error of the protocol.
pub proof fn law_tool_call_tells_of_its_error(id: JsonModel, outcome: Result<JsonModel, Seq<char>>)
    ensures
        framed(Frame::Call(id), outcome).member("result"@) is Some,
        framed(Frame::Call(id), outcome).member("result"@)->Some_0.member("isError"@) == Some(
            JsonModel::Bool(outcome is Err),
        ),
        framed(Frame::Call(id), outcome).member("error"@) is None,
{
    lemma_members_differ();
}

/// Whether a line is answered: it is not blank and no notification.
pub open spec fn expects_reply(line: Seq<char>) -> bool {
    trim(line).len() > 0 && !(document(line) matches Ok(request) && is_notification(request))
}

/// The reply to a line, if it gets one, where `outcome` comes of the command that it runs, if it
/// runs one.
pub open spec fn reply_to(
    line: Seq<char>,
    outcome: Result<JsonModel, Seq<char>>,
    version: Seq<char>,
) -> Option<JsonModel> {
    match step_after(line, document(line), version) {
        Step::Silent => None,
        Step::Reply(reply) => Some(reply),
        Step::Invoke { frame, .. } => Some(framed(frame, outcome)),
    }
}

/// The replies to some lines, in order, where each has the outcome of the command that it runs.
pub open spec fn replies(
    lines: Seq<Seq<char>>,
    outcomes: Seq<Result<JsonModel, Seq<char>>>,
    version: Seq<char>,
) -> Seq<JsonModel>
    decreases lines.len(),
{
    if lines.len() == 0 {
        Seq::empty()
    } else {
        let front = replies(lines.drop_last(), outcomes, version);
        match reply_to(lines.last(), outcomes[lines.len() - 1], version) {
            Some(reply) => front.push(reply),
            None => front,
        }
    }
}

/// The places of the lines that are answered, in order.
pub open spec fn requests(lines: Seq<Seq<char>>) -> Seq<int>
    decreases lines.len(),
{
    if lines.len() == 0 {
        Seq::empty()
    } else if expects_reply(lines.last()) {
        requests(lines.drop_last()).push(lines.len() - 1)
    } else {
        requests(lines.drop_last())
    }
}

/// Of any list of lines, whatever fails, those that expect a reply get one each, in their order,
/// and the others none.
pub proof fn law_lines_are_answered_in_order(
    lines: Seq<Seq<char>>,
    outcomes: Seq<Result<JsonModel, Seq<char>>>,
    version: Seq<char>,
)
    requires
        outcomes.len() >= lines.len(),
    ensures
        replies(lines, outcomes, version).len() == requests(lines).len(),
        forall|k: int|
            0 <= k < requests(lines).len() ==> {
                let at = #[trigger] requests(lines)[k];
                &&& 0 <= at < lines.len()
                &&& expects_reply(lines[at])
                &&& reply_to(lines[at], outcomes[at], version) == Some(
                    replies(lines, outcomes, version)[k],
                )
            },
        forall|k: int, l: int|
            0 <= k < l < requests(lines).len() ==> #[trigger] requests(lines)[k]
                < #[trigger] requests(lines)[l],
        forall|i: int|
            0 <= i < lines.len() && expects_reply(#[trigger] lines[i]) ==> requests(
                lines,
            ).contains(i),
    decreases lines.len(),
{
    if lines.len() > 0 {
        let front = lines.drop_last();
        let last = lines.len() - 1;
        let some = requests(front);
        let all = requests(lines);
        law_lines_are_answered_in_order(front, outcomes, version);
        law_every_request_is_answered(lines[last], document(lines[last]), version);
        assert forall|k: int| 0 <= k < all.len() implies {
            let at = #[trigger] all[k];
            &&& 0 <= at < lines.len()
            &&& expects_reply(lines[at])
            &&& reply_to(lines[at], outcomes[at], version) == Some(
                replies(lines, outcomes, version)[k],
            )
        } by {
            if k < some.len() {
                assert(all[k] == some[k]);
                assert(front[some[k]] == lines[some[k]]);
            }
        }
        assert forall|k: int, l: int| 0 <= k < l < all.len() implies #[trigger] all[k]
            < #[trigger] all[l] by {
            assert(all[k] == some[k]);
            if l < some.len() {
                assert(all[l] == some[l]);
            }
        }
        assert forall|i: int| 0 <= i < lines.len() && expects_reply(
            #[trigger] lines[i],
        ) implies all.contains(i) by {
            if i < last {
                assert(front[i] == lines[i]);
                let k = choose|k: int| 0 <= k < some.len() && some[k] == i;
                assert(all[k] == i);
            } else {
                assert(all[all.len() - 1] == i);
            }
        }
    }
}

/// A line that is no JSON, and a request whose handling fails, are told so: the first by the code of
/// a reading error, without an identifier; a JSON-RPC request, but for a tool call that could be
/// made, by the code of an internal error, with its own identifier; any other request by a plain
/// error.
pub proof fn law_failures_are_told(line: Seq<char>, message: Seq<char>, version: Seq<char>)
    requires
        expects_reply(line),
    ensures
        ({
            let answer = reply_to(line, Err(message), version)->Some_0;
            match document(line) {
                Err(reason) => answer == rpc_error(
                    JsonModel::Null,
                    PARSE_ERROR,
                    "failed to parse JSON request: "@ + reason,
                ),
                Ok(request) => {
                    let id = request_id(request);
                    if request.member("jsonrpc"@) is Some {
                        match request.text_member("method"@) {
                            None => answer == rpc_error(
                                id,
                                INTERNAL_ERROR,
                                sentence(Failure::MethodMissing),
                            ),
                            Some(method) => match request_step(request, version) {
                                Step::Invoke { frame: Frame::Method(_), .. } => answer == rpc_error(
                                    id,
                                    INTERNAL_ERROR,
                                    message,
                                ),
                                Step::Invoke { .. } => answer == rpc_result(
                                    id,
                                    call_result(message, true),
                                ),
                                _ => method == "tools/call"@ ==> answer == rpc_error(
                                    id,
                                    INTERNAL_ERROR,
                                    sentence(Failure::ToolNameMissing),
                                ),
                            },
                        }
                    } else {
                        match request_step(request, version) {
                            Step::Invoke { .. } => answer == plain_error(message),
                            _ => answer == plain_error(sentence(Failure::CommandMissing)),
                        }
                    }
                },
            }
        }),
{
    reveal_strlit("initialize");
    reveal_strlit("tools/list");
    reveal_strlit("tools/call");
    assert("tools/call"@[6] == 'c' && "tools/list"@[6] == 'l' && "initialize"@[0] == 'i'
        && "tools/call"@[0] == 't');
}

} // verus!
