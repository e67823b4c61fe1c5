//! What is made of the lines that the service reads, and how their outcomes are told.
use vstd::prelude::*;

use crate::json::{json_text, number_of, Json, JsonModel};
use crate::mcp::{
    call_result, direct_step, framed, introduction, plain_error, request_id, request_step,
    rpc_error, rpc_result, rpc_step, step_after, Frame, Step,
};
use crate::text::{stands_at, trim};
use crate::tools::tools;

verus! {

/// Replies have the members of the protocol and nothing else.
pub proof fn law_replies_have_the_members_of_the_protocol(
    id: JsonModel,
    code: i64,
    message: Seq<char>,
    result: JsonModel,
    is_error: bool,
)
    ensures
        rpc_error(id, code, message) == JsonModel::Object(
            map![
                "jsonrpc"@ => JsonModel::Text("2.0"@),
                "id"@ => id,
                "error"@ => JsonModel::Object(
                    map![
                        "code"@ => JsonModel::Number(number_of(code)),
                        "message"@ => JsonModel::Text(message),
                    ],
                ),
            ],
        ),
        rpc_result(id, result) == JsonModel::Object(
            map!["jsonrpc"@ => JsonModel::Text("2.0"@), "id"@ => id, "result"@ => result],
        ),
        plain_error(message) == JsonModel::Object(map!["error"@ => JsonModel::Text(message)]),
        call_result(message, is_error) == JsonModel::Object(
            map![
                "content"@ => JsonModel::Array(
                    seq![
                        JsonModel::Object(
                            map![
                                "type"@ => JsonModel::Text("text"@),
                                "text"@ => JsonModel::Text(message),
                            ],
                        ),
                    ],
                ),
                "isError"@ => JsonModel::Bool(is_error),
            ],
        ),
{
}

/// The service says which protocol it speaks, that it offers tools, and what it is called, with its
/// version.
pub proof fn law_service_introduces_itself(version: Seq<char>)
    ensures
        introduction(version) == JsonModel::Object(
            map![
                "protocolVersion"@ => JsonModel::Text("2024-11-05"@),
                "capabilities"@ => JsonModel::Object(
                    map!["tools"@ => JsonModel::Object(Map::empty())],
                ),
                "serverInfo"@ => JsonModel::Object(
                    map![
                        "name"@ => JsonModel::Text("mii-memory"@),
                        "version"@ => JsonModel::Text(version),
                    ],
                ),
            ],
        ),
{
}

/// A blank line is passed over, a line that is no JSON is answered by a reading error without an
/// identifier, and any other is a request.
pub proof fn law_lines_are_requests_unless_unreadable(
    line: Seq<char>,
    reading: Result<JsonModel, Seq<char>>,
    version: Seq<char>,
)
    ensures
        trim(line).len() == 0 ==> step_after(line, reading, version) is Silent,
        trim(line).len() > 0 && reading is Ok ==> step_after(line, reading, version)
            == request_step(reading->Ok_0, version),
        trim(line).len() > 0 && reading is Err ==> step_after(line, reading, version) == Step::<
            JsonModel,
            Seq<char>,
        >::Reply(
            rpc_error(
                JsonModel::Null,
                -32_700 as i64,
                "failed to parse JSON request: "@ + reading->Err_0,
            ),
        ),
{
}

/// A request without a member `jsonrpc` runs the command that its member `command` names or, where
/// it has none, its member `method`, with its member `arguments` or, where it has none, the whole
/// request; where that names nothing it is told so.
pub proof fn law_plain_requests_run_their_command(request: JsonModel, version: Seq<char>)
    ensures
        request.member("jsonrpc"@) is None ==> request_step(request, version) == direct_step(
            request,
        ),
        ({
            let named = if request.member("command"@) is Some {
                request.text_member("command"@)
            } else {
                request.text_member("method"@)
            };
            let step = direct_step(request);
            &&& named is None ==> step == Step::<JsonModel, Seq<char>>::Reply(
                plain_error("MCP request requires command or method"@),
            )
            &&& named is Some ==> step is Invoke && step->frame is Direct && step->command
                == named->Some_0 && step->arguments == if request.member("arguments"@) is Some {
                request.member("arguments"@)->Some_0
            } else {
                request
            }
        }),
{
}

/// The identifier of a request is its member `id`, or null.
pub proof fn law_identifiers_of_requests(request: JsonModel)
    ensures
        request_id(request) == if request.member("id"@) is Some {
            request.member("id"@)->Some_0
        } else {
            JsonModel::Null
        },
{
}

/// A request with a member `jsonrpc` is answered by its member `method`: notifications not at all,
/// `initialize` and `tools/list` at once, `tools/call` by the tool that its parameters name, and
/// any other method by the command of that name, with its parameters.
pub proof fn law_protocol_requests_go_by_their_method(request: JsonModel, version: Seq<char>)
    ensures
        request.member("jsonrpc"@) is Some ==> request_step(request, version) == rpc_step(
            request,
            version,
        ),
        ({
            let id = request_id(request);
            let step = rpc_step(request, version);
            let params = if request.member("params"@) is Some {
                request.member("params"@)->Some_0
            } else {
                JsonModel::Object(Map::empty())
            };
            match request.text_member("method"@) {
                None => step == Step::<JsonModel, Seq<char>>::Reply(
                    rpc_error(id, -32_603 as i64, "JSON-RPC request requires method"@),
                ),
                Some(method) => if stands_at(method, "notifications/"@, 0) {
                    step is Silent
                } else if method == "initialize"@ {
                    step == Step::<JsonModel, Seq<char>>::Reply(
                        rpc_result(id, introduction(version)),
                    )
                } else if method == "tools/list"@ {
                    step == Step::<JsonModel, Seq<char>>::Reply(
                        rpc_result(id, JsonModel::Object(map!["tools"@ => tools()])),
                    )
                } else if method == "tools/call"@ {
                    if params.text_member("name"@) is None {
                        step == Step::<JsonModel, Seq<char>>::Reply(
                            rpc_error(id, -32_603 as i64, "tools/call requires params.name"@),
                        )
                    } else {
                        &&& step is Invoke
                        &&& step->frame == Frame::Call(id)
                        &&& step->command == params.text_member("name"@)->Some_0
                        &&& step->arguments == if params.member("arguments"@) is Some {
                            params.member("arguments"@)->Some_0
                        } else {
                            JsonModel::Object(Map::empty())
                        }
                    }
                } else {
                    &&& step is Invoke
                    &&& step->frame == Frame::Method(id)
                    &&& step->command == method
                    &&& step->arguments == params
                },
            }
        }),
{
}

/// The outcome of a command is told as its request expects it: plainly, as the text of a tool call
/// that says whether it failed, or as the result or the error of a method.
pub proof fn law_outcomes_are_told_as_expected(
    id: JsonModel,
    result: JsonModel,
    message: Seq<char>,
)
    ensures
        framed(Frame::Direct, Ok(result)) == result,
        framed(Frame::Direct, Err(message)) == plain_error(message),
        framed(Frame::Call(id), Ok(result)) == rpc_result(
            id,
            call_result(json_text(result), false),
        ),
        framed(Frame::Call(id), Err(message)) == rpc_result(id, call_result(message, true)),
        framed(Frame::Method(id), Ok(result)) == rpc_result(id, result),
        framed(Frame::Method(id), Err(message)) == rpc_error(id, -32_603 as i64, message),
{
}

/// What is to be done about a line, and how its outcome is told, is read as it is.
pub proof fn law_steps_are_read_as_they_are(frame: Frame<Json>, step: Step<Json, String>)
    ensures
        match frame {
            Frame::Direct => frame@ is Direct,
            Frame::Call(id) => frame@ == Frame::Call(id@),
            Frame::Method(id) => frame@ == Frame::Method(id@),
        },
        match step {
            Step::Silent => step@ is Silent,
            Step::Reply(reply) => step@ == Step::<JsonModel, Seq<char>>::Reply(reply@),
            Step::Invoke { frame, command, arguments } => step@ is Invoke && step@->frame == frame@
                && step@->command == command@ && step@->arguments == arguments@,
        },
{
}

} // verus!
