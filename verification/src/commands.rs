//! The commands of the service, run for the session of the process that serves it.
use vstd::prelude::*;

use crate::alerts::{after_alert, alerts_of, other_alerts, session_alerts};
use crate::error::{Error, Failure};
use crate::files::hex_digit;
use crate::input::{
    borrow_optional, copy_optional, copy_texts, infer_mode_ref, inferred_ref, memory_fits,
    set_memory_fits, text_agrees, Environment, SearchModel, SearchOptions, SetMemory, SetModel, World,
};
use crate::model::{optional, texts, ExpirationCondition, MemoryMode};
use crate::record::{Alert, MemorySearchResult, MemoryStore, RecordModel, StoreModel, TagSummary};
use crate::score::Score;
use crate::search::{all_after_retrieval, hit_results, results, shown};
use crate::store::after_set;
use crate::tags::{filtered_uses, summarizes};
use crate::text::{same_text, trim};
use crate::tools::tools;

verus! {

/// What the service knows of whom it serves.
#[derive(Debug)]
pub struct ServerContext {
    pub session_ref: String,
}

/// Whether `c` is a digit or a small letter that writes four bits.
pub open spec fn is_hex_digit(c: char) -> bool {
    exists|n: int| 0 <= n < 16 && c == #[trigger] hex_digit(n)
}

/// Whether a text writes a random UUID: 36 characters, hyphens in four places, digits of base
/// sixteen in the others, and among these the version 4 and the variant.
pub open spec fn writes_random_uuid(text: Seq<char>) -> bool {
    &&& text.len() == 36
    &&& forall|i: int|
        0 <= i < 36 ==> if i == 8 || i == 13 || i == 18 || i == 23 {
            #[trigger] text[i] == '-'
        } else {
            is_hex_digit(text[i])
        }
    &&& text[14] == '4'
    &&& text[19] == '8' || text[19] == '9' || text[19] == 'a' || text[19] == 'b'
}

/// Calls `uuid::Uuid::new_v4` and writes what it gives with hyphens. Which identifier comes is left
/// to chance; each is a random UUID.
#[verifier::external_body]
fn random_uuid() -> (r: String)
    ensures
        writes_random_uuid(r@),
{
    uuid::Uuid::new_v4().to_string()
}

impl ServerContext {
    /// A context with a session of its own.
    pub fn new() -> (r: ServerContext)
        ensures
            writes_random_uuid(r.session_ref@),
    {
        ServerContext { session_ref: random_uuid() }
    }
}

/// The reference that goes with a mode in the service: none for the global mode, the current
/// directory for a workspace, and the session of the service.
pub open spec fn service_ref(
    session: Seq<char>,
    mode: MemoryMode,
    environment: Environment,
) -> Result<Option<Seq<char>>, Failure<Seq<char>>> {
    match mode {
        MemoryMode::Global => Ok(None),
        MemoryMode::Workspace => inferred_ref(mode, None, environment),
        MemoryMode::Session => Ok(Some(session)),
    }
}

/// The reference that goes with a mode in the service.
pub fn infer_mcp_mode_ref(
    context: &ServerContext,
    mode: MemoryMode,
    environment: &Environment,
) -> (r: Result<Option<String>, Error>)
    ensures
        text_agrees(r, service_ref(context.session_ref@, mode, *environment)),
{
    match mode {
        MemoryMode::Global => Ok(None),
        MemoryMode::Workspace => infer_mode_ref(mode, None, environment),
        MemoryMode::Session => Ok(Some(context.session_ref.clone())),
    }
}

/// The commands of the service.
#[derive(Debug, Clone, Copy, PartialEq, Eq, Structural)]
pub enum CommandName {
    MemorySet,
    MemoryGet,
    ListTags,
    AlertSet,
    AlertsGet,
}

impl CommandName {
    /// The command of a name.
    pub open spec fn named(name: Seq<char>) -> Option<CommandName> {
        if name == "memory_set"@ {
            Some(CommandName::MemorySet)
        } else if name == "memory_get"@ {
            Some(CommandName::MemoryGet)
        } else if name == "list_tags"@ {
            Some(CommandName::ListTags)
        } else if name == "alert_set"@ {
            Some(CommandName::AlertSet)
        } else if name == "alerts_get"@ {
            Some(CommandName::AlertsGet)
        } else {
            None
        }
    }

    /// The command of a name.
    pub fn from_str(name: &str) -> (r: Result<CommandName, Error>)
        ensures
            match Self::named(name@) {
                Some(command) => r == Ok::<CommandName, Error>(command),
                None => r matches Err(error) && error@ == Failure::UnsupportedCommand(name@),
            },
    {
        if same_text(name, "memory_set") {
            Ok(CommandName::MemorySet)
        } else if same_text(name, "memory_get") {
            Ok(CommandName::MemoryGet)
        } else if same_text(name, "list_tags") {
            Ok(CommandName::ListTags)
        } else if same_text(name, "alert_set") {
            Ok(CommandName::AlertSet)
        } else if same_text(name, "alerts_get") {
            Ok(CommandName::AlertsGet)
        } else {
            Err(Failure::UnsupportedCommand(name.to_owned()))
        }
    }
}

/// The arguments of `memory_set`.
#[derive(Debug)]
pub struct MemorySetPayload {
    pub content: String,
    pub mode: MemoryMode,
    pub tags: Vec<String>,
    pub expiration_condition: Option<ExpirationCondition>,
    pub expiration_value: Option<String>,
    pub metadata: Option<String>,
}

/// The arguments of `memory_get`.
#[derive(Debug)]
pub struct MemoryGetPayload {
    pub query: String,
    pub positive_tags: Vec<String>,
    pub negative_tags: Vec<String>,
    pub limit: Option<usize>,
    pub offset: Option<usize>,
    pub mode: Option<MemoryMode>,
}

impl Clone for MemorySetPayload {
    fn clone(&self) -> (r: Self)
        ensures
            r.content@ == self.content@,
            r.mode == self.mode,
            texts(r.tags@) == texts(self.tags@),
            r.expiration_condition == self.expiration_condition,
            optional(r.expiration_value) == optional(self.expiration_value),
            optional(r.metadata) == optional(self.metadata),
    {
        MemorySetPayload {
            content: self.content.clone(),
            mode: self.mode,
            tags: copy_texts(&self.tags),
            expiration_condition: self.expiration_condition,
            expiration_value: copy_optional(&self.expiration_value),
            metadata: copy_optional(&self.metadata),
        }
    }
}

impl Clone for MemoryGetPayload {
    fn clone(&self) -> (r: Self)
        ensures
            r.query@ == self.query@,
            texts(r.positive_tags@) == texts(self.positive_tags@),
            texts(r.negative_tags@) == texts(self.negative_tags@),
            r.limit == self.limit,
            r.offset == self.offset,
            r.mode == self.mode,
    {
        MemoryGetPayload {
            query: self.query.clone(),
            positive_tags: copy_texts(&self.positive_tags),
            negative_tags: copy_texts(&self.negative_tags),
            limit: self.limit,
            offset: self.offset,
            mode: self.mode,
        }
    }
}

/// A command with its arguments.
#[derive(Debug)]
pub enum Command {
    MemorySet(MemorySetPayload),
    MemoryGet(MemoryGetPayload),
    ListTags { filter: Option<String> },
    AlertSet { content: String },
    AlertsGet,
}

/// What a command gives.
#[derive(Debug)]
pub enum Answer {
    Id(i64),
    Memories(Vec<MemorySearchResult>),
    Tags(Vec<TagSummary>),
    Alerts(Vec<Alert>),
}

/// The numbers that a command goes by: for a search one score for each memory, for a memory to be
/// stored its similarity to each memory, for a list of tags the tags with their similarity to the
/// filter.
#[derive(Debug)]
pub struct Numbers {
    pub scores: Vec<Score>,
    pub similarities: Vec<Score>,
    pub similar_tags: Vec<(String, Score)>,
}

/// The memory that `memory_set` stores.
pub open spec fn memory_asked_for(
    session: Seq<char>,
    payload: MemorySetPayload,
    environment: Environment,
) -> Result<SetModel, Failure<Seq<char>>> {
    match service_ref(session, payload.mode, environment) {
        Err(failure) => Err(failure),
        Ok(mode_ref) => Ok(
            SetModel {
                content: payload.content@,
                mode: payload.mode,
                mode_ref,
                tags: texts(payload.tags@),
                expiration_condition: payload.expiration_condition,
                expiration_value: optional(payload.expiration_value),
                metadata: optional(payload.metadata),
            },
        ),
    }
}

/// The search that `memory_get` makes: with a mode in the scope of the service, without one in all
/// scopes. Ten memories from the first on are shown unless said otherwise.
pub open spec fn search_asked_for(
    session: Seq<char>,
    payload: MemoryGetPayload,
    environment: Environment,
) -> Result<SearchModel, Failure<Seq<char>>> {
    let mode_ref = match payload.mode {
        Some(mode) => service_ref(session, mode, environment),
        None => Ok(None),
    };
    match mode_ref {
        Err(failure) => Err(failure),
        Ok(mode_ref) => Ok(
            SearchModel {
                query: payload.query@,
                positive_tags: texts(payload.positive_tags@),
                negative_tags: texts(payload.negative_tags@),
                limit: match payload.limit {
                    Some(limit) => limit,
                    None => 10,
                },
                offset: match payload.offset {
                    Some(offset) => offset,
                    None => 0,
                },
                mode: payload.mode,
                mode_ref,
            },
        ),
    }
}

/// The memory that `memory_set` stores.
pub fn memory_to_set(
    context: &ServerContext,
    payload: MemorySetPayload,
    environment: &Environment,
) -> (r: Result<SetMemory, Error>)
    ensures
        match r {
            Ok(input) => memory_asked_for(context.session_ref@, payload, *environment) == Ok::<
                SetModel,
                Failure<Seq<char>>,
            >(input@),
            Err(error) => memory_asked_for(context.session_ref@, payload, *environment) == Err::<
                SetModel,
                Failure<Seq<char>>,
            >(error@),
        },
        r is Ok ==> {
            let input = r->Ok_0;
            &&& input.content@ == payload.content@
            &&& input.mode == payload.mode
            &&& texts(input.tags@) == texts(payload.tags@)
            &&& input.expiration_condition == payload.expiration_condition
            &&& optional(input.expiration_value) == optional(payload.expiration_value)
            &&& optional(input.metadata) == optional(payload.metadata)
            &&& payload.mode == MemoryMode::Session ==> input.mode_ref is Some
                && input.mode_ref->Some_0@ == context.session_ref@
        },
{
    let mode_ref = match infer_mcp_mode_ref(context, payload.mode, environment) {
        Ok(mode_ref) => mode_ref,
        Err(error) => return Err(error),
    };
    Ok(
        SetMemory {
            content: payload.content,
            mode: payload.mode,
            mode_ref,
            tags: payload.tags,
            expiration_condition: payload.expiration_condition,
            expiration_value: payload.expiration_value,
            metadata: payload.metadata,
        },
    )
}

/// The search that `memory_get` makes.
pub fn search_to_make(
    context: &ServerContext,
    payload: MemoryGetPayload,
    environment: &Environment,
) -> (r: Result<SearchOptions, Error>)
    ensures
        match r {
            Ok(options) => search_asked_for(context.session_ref@, payload, *environment) == Ok::<
                SearchModel,
                Failure<Seq<char>>,
            >(options@),
            Err(error) => search_asked_for(context.session_ref@, payload, *environment) == Err::<
                SearchModel,
                Failure<Seq<char>>,
            >(error@),
        },
        r is Ok ==> {
            let options = r->Ok_0;
            &&& options.query@ == payload.query@
            &&& texts(options.positive_tags@) == texts(payload.positive_tags@)
            &&& texts(options.negative_tags@) == texts(payload.negative_tags@)
            &&& options.mode == payload.mode
            &&& payload.mode == Some(MemoryMode::Session) ==> options.mode_ref is Some
                && options.mode_ref->Some_0@ == context.session_ref@
        },
{
    let mode_ref = match payload.mode {
        Some(mode) => match infer_mcp_mode_ref(context, mode, environment) {
            Ok(mode_ref) => mode_ref,
            Err(error) => return Err(error),
        },
        None => None,
    };
    Ok(
        SearchOptions {
            query: payload.query,
            positive_tags: payload.positive_tags,
            negative_tags: payload.negative_tags,
            limit: match payload.limit {
                Some(limit) => limit,
                None => 10,
            },
            offset: match payload.offset {
                Some(offset) => offset,
                None => 0,
            },
            mode: payload.mode,
            mode_ref,
        },
    )
}

/// Whether the command can run on the store, with the given numbers: there is a number for each
/// memory where the command goes by them, and a lifetime that is looked at is not too long.
pub open spec fn command_fits(
    command: Command,
    session: Seq<char>,
    environment: Environment,
    store: StoreModel,
    numbers: Numbers,
) -> bool {
    match command {
        Command::MemorySet(payload) => memory_asked_for(
            session,
            payload,
            environment,
        ) matches Ok(input) ==> numbers.similarities@.len() == store.memories.len() && memory_fits(
            input,
            environment,
        ),
        Command::MemoryGet(payload) => search_asked_for(
            session,
            payload,
            environment,
        ) is Ok ==> numbers.scores@.len() == store.memories.len(),
        _ => true,
    }
}

/// Whether the command can run on the store, with the given numbers.
pub fn command_can_run(
    store: &MemoryStore,
    context: &ServerContext,
    command: &Command,
    environment: &Environment,
    numbers: &Numbers,
) -> (r: bool)
    ensures
        r == command_fits(*command, context.session_ref@, *environment, store@, *numbers),
{
    proof {
        assert(store@.memories.len() == store.memories@.len());
    }
    match command {
        Command::MemorySet(payload) => {
            match memory_to_set(context, payload.clone(), environment) {
                Ok(input) => numbers.similarities.len() == store.memories.len() && set_memory_fits(
                    &input,
                    environment,
                ),
                Err(_) => true,
            }
        },
        Command::MemoryGet(payload) => {
            match search_to_make(context, payload.clone(), environment) {
                Ok(_) => numbers.scores.len() == store.memories.len(),
                Err(_) => true,
            }
        },
        _ => true,
    }
}

/// What a command gives and what it leaves of the store.
pub open spec fn outcome_holds(
    command: Command,
    session: Seq<char>,
    world: World,
    numbers: Numbers,
    before: StoreModel,
    after: StoreModel,
    outcome: Result<Answer, Error>,
) -> bool {
    match command {
        Command::MemorySet(payload) => match memory_asked_for(session, payload, world.environment) {
            Err(failure) => outcome matches Err(error) && error@ == failure && after == before,
            Ok(input) => match after_set(before, input, numbers.similarities@, world) {
                Err(failure) => outcome matches Err(error) && error@ == failure && after == before,
                Ok(store) => outcome matches Ok(Answer::Id(id)) && id == store.last_id && after
                    == store,
            },
        },
        Command::MemoryGet(payload) => match search_asked_for(session, payload, world.environment) {
            Err(failure) => outcome matches Err(error) && error@ == failure && after == before,
            Ok(options) => {
                let hits = shown(before.memories, numbers.scores@, options, world);
                &&& outcome matches Ok(Answer::Memories(list)) && results(list@) == hit_results(
                    before.memories,
                    hits,
                )
                &&& after == (StoreModel {
                    memories: all_after_retrieval(before.memories, hits),
                    ..before
                })
            },
        },
        Command::ListTags { filter } => {
            &&& outcome matches Ok(Answer::Tags(list)) && summarizes(
                list@,
                filtered_uses(
                    before.memories,
                    optional(filter),
                    numbers.similar_tags@,
                    world,
                ),
            )
            &&& after == before
        },
        Command::AlertSet { content } => match after_alert(before, session, content@) {
            Err(failure) => outcome matches Err(error) && error@ == failure && after == before,
            Ok(store) => outcome matches Ok(Answer::Id(id)) && id == store.last_alert_id && after
                == store,
        },
        Command::AlertsGet => if trim(session).len() == 0 {
            &&& outcome matches Err(error) && error@ == Failure::EmptyField(
                "alert session_ref"@,
            )
            &&& after == before
        } else {
            &&& outcome matches Ok(Answer::Alerts(list)) && alerts_of(list@) == session_alerts(
                before.alerts,
                trim(session),
            )
            &&& after == (StoreModel {
                alerts: other_alerts(before.alerts, trim(session)),
                ..before
            })
        },
    }
}

/// Runs a command on the store, for the session of the service.
pub fn invoke_command(
    store: &mut MemoryStore,
    context: &ServerContext,
    command: Command,
    world: &World,
    numbers: &Numbers,
) -> (r: Result<Answer, Error>)
    requires
        old(store)@.well_formed(),
        command_fits(command, context.session_ref@, world.environment, old(store)@, *numbers),
    ensures
        outcome_holds(
            command,
            context.session_ref@,
            *world,
            *numbers,
            old(store)@,
            final(store)@,
            r,
        ),
        final(store)@.well_formed(),
{
    match command {
        Command::MemorySet(payload) => {
            let input = match memory_to_set(context, payload, &world.environment) {
                Ok(input) => input,
                Err(error) => return Err(error),
            };
            match store.set(input, world, &numbers.similarities) {
                Ok(id) => Ok(Answer::Id(id)),
                Err(error) => Err(error),
            }
        },
        Command::MemoryGet(payload) => {
            let options = match search_to_make(context, payload, &world.environment) {
                Ok(options) => options,
                Err(error) => return Err(error),
            };
            Ok(Answer::Memories(store.get(options, world, &numbers.scores)))
        },
        Command::ListTags { filter } => Ok(
            Answer::Tags(
                store.list_tags(borrow_optional(&filter), world, &numbers.similar_tags),
            ),
        ),
        Command::AlertSet { content } => {
            match store.set_alert(context.session_ref.clone(), content) {
                Ok(id) => Ok(Answer::Id(id)),
                Err(error) => Err(error),
            }
        },
        Command::AlertsGet => match store.get_alerts(context.session_ref.clone()) {
            Ok(alerts) => Ok(Answer::Alerts(alerts)),
            Err(error) => Err(error),
        },
    }
}

/// Memories of the session mode that the service stores belong to its own session, and so do those
/// that it searches: the reference is the session's, whatever the surroundings say.
pub proof fn law_session_memories_stay_in_the_session(
    session: Seq<char>,
    stored: MemorySetPayload,
    asked: MemoryGetPayload,
    environment: Environment,
)
    requires
        stored.mode == MemoryMode::Session,
        asked.mode == Some(MemoryMode::Session),
    ensures
        memory_asked_for(session, stored, environment) is Ok,
        memory_asked_for(session, stored, environment)->Ok_0.mode_ref == Some(session),
        search_asked_for(session, asked, environment) is Ok,
        search_asked_for(session, asked, environment)->Ok_0.mode_ref == Some(session),
{
}

/// A memory that the service stores for its session is in the scope of its searches for the
/// session, and of no other session's.
pub proof fn law_sessions_do_not_mix(
    session: Seq<char>,
    other: Seq<char>,
    memory: RecordModel,
)
    requires
        memory.mode == MemoryMode::Session,
        memory.mode_ref == Some(session),
        other != session,
    ensures
        memory.in_scope(Some(MemoryMode::Session), Some(session)),
        !memory.in_scope(Some(MemoryMode::Session), Some(other)),
{
}

/// The names of the commands.
pub open spec fn command_names() -> Seq<Seq<char>> {
    seq!["memory_set"@, "memory_get"@, "list_tags"@, "alert_set"@, "alerts_get"@]
}

/// The tools that the service offers are its commands, each once, and what is not offered is
/// refused.
pub proof fn law_tools_are_the_commands()
    ensures
        tools()->Array_0.len() == command_names().len(),
        forall|i: int|
            0 <= i < command_names().len() ==> (#[trigger] tools()->Array_0[i]).text_member(
                "name"@,
            ) == Some(command_names()[i]),
        forall|name: Seq<char>|
            #[trigger] CommandName::named(name) is Some <==> command_names().contains(name),
        command_names().no_duplicates(),
{
    let names = command_names();
    reveal_strlit("memory_set");
    reveal_strlit("memory_get");
    reveal_strlit("list_tags");
    reveal_strlit("alert_set");
    reveal_strlit("alerts_get");
    reveal_strlit("name");
    reveal_strlit("description");
    reveal_strlit("inputSchema");
    assert("name"@.len() != "description"@.len());
    assert("name"@.len() != "inputSchema"@.len());
    assert("memory_set"@[7] == 's' && "memory_get"@[7] == 'g' && "alerts_get"@[7] == 'g');
    assert("memory_get"@[0] == 'm' && "alerts_get"@[0] == 'a' && "list_tags"@[0] == 'l'
        && "alert_set"@[0] == 'a');
    assert("alert_set"@.len() == 9 && "alerts_get"@.len() == 10);
    assert(names[0] == "memory_set"@ && names[1] == "memory_get"@ && names[2] == "list_tags"@
        && names[3] == "alert_set"@ && names[4] == "alerts_get"@);
    let list = tools()->Array_0;
    assert(list[0].text_member("name"@) == Some(names[0]));
    assert(list[1].text_member("name"@) == Some(names[1]));
    assert(list[2].text_member("name"@) == Some(names[2]));
    assert(list[3].text_member("name"@) == Some(names[3]));
    assert(list[4].text_member("name"@) == Some(names[4]));
    assert forall|name: Seq<char>|
        #[trigger] CommandName::named(name) is Some <==> names.contains(name) by {
        if names.contains(name) {
            let i = choose|i: int| 0 <= i < names.len() && names[i] == name;
            assert(i == 0 || i == 1 || i == 2 || i == 3 || i == 4);
        }
        if CommandName::named(name) is Some {
            assert(name == names[0] || name == names[1] || name == names[2] || name == names[3]
                || name == names[4]);
        }
    }
}

} // verus!
