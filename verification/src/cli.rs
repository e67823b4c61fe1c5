//! The command line: what it can say, and what follows from it.
use vstd::prelude::*;

use crate::error::{Error, Failure};
use crate::input::{SearchOptions, SetMemory, SetModel};
use crate::model::{optional, texts, ExpirationCondition, MemoryMode};
use crate::store::default_database_path;

verus! {

/// What the command line says: the place of the store, where it is given, and the command.
#[derive(Debug)]
pub struct Cli {
    pub db: Option<String>,
    pub command: Command,
}

/// A command of the command line.
#[derive(Debug)]
pub enum Command {
    SetMemory(SetCommand),
    GetMemories(GetCommand),
    ListTags(ListTagsCommand),
    Alert(AlertSetCommand),
    Alerts(AlertsCommand),
    Mcp,
    Explorer(ExplorerCommand),
}

/// Stores a memory.
#[derive(Debug)]
pub struct SetCommand {
    pub content: String,
    pub mode: MemoryMode,
    pub mode_ref: Option<String>,
    pub tags: Vec<String>,
    pub expiration: Option<Vec<String>>,
    pub metadata: Option<String>,
}

/// Searches for memories.
#[derive(Debug)]
pub struct GetCommand {
    pub query: String,
    pub positive_tags: Vec<String>,
    pub negative_tags: Vec<String>,
    pub limit: usize,
    pub offset: usize,
    pub mode: Option<MemoryMode>,
    pub mode_ref: Option<String>,
}

/// Lists tags.
#[derive(Debug)]
pub struct ListTagsCommand {
    pub filter: Option<String>,
    pub json: bool,
}

/// Leaves an alert.
#[derive(Debug)]
pub struct AlertSetCommand {
    pub session_ref: String,
    pub content: String,
}

/// Gives the alerts of a session.
#[derive(Debug)]
pub struct AlertsCommand {
    pub session_ref: String,
}

/// Serves the explorer.
#[derive(Debug)]
pub struct ExplorerCommand {
    pub host: String,
    pub port: u16,
}

/// The place of the store: the one that is given, else the default one.
pub fn database_path(db: Option<String>) -> (r: String)
    ensures
        r@ == match db {
            Some(path) => path@,
            None => ".mii-memory.db"@,
        },
{
    match db {
        Some(path) => path,
        None => default_database_path().to_owned(),
    }
}

/// The condition and the value that an expiration pair says.
pub open spec fn expiration_pair(pair: Option<Seq<Seq<char>>>) -> Result<
    (Option<ExpirationCondition>, Option<Seq<char>>),
    Failure<Seq<char>>,
> {
    match pair {
        None => Ok((None, None)),
        Some(pair) => if pair.len() != 2 {
            Err(Failure::PairExpected)
        } else {
            match ExpirationCondition::named(pair[0]) {
                None => Err(Failure::InvalidCondition(pair[0])),
                Some(condition) => Ok((Some(condition), Some(pair[1]))),
            }
        },
    }
}

/// What an optional list of texts says.
pub open spec fn optional_texts(list: Option<Vec<String>>) -> Option<Seq<Seq<char>>> {
    match list {
        Some(list) => Some(texts(list@)),
        None => None,
    }
}

/// The condition and the value that an expiration pair says.
pub fn parse_expiration_pair(expiration: Option<Vec<String>>) -> (r: Result<
    (Option<ExpirationCondition>, Option<String>),
    Error,
>)
    ensures
        match r {
            Ok((condition, value)) => expiration_pair(optional_texts(expiration)) == Ok::<
                (Option<ExpirationCondition>, Option<Seq<char>>),
                Failure<Seq<char>>,
            >((condition, optional(value))),
            Err(error) => expiration_pair(optional_texts(expiration)) == Err::<
                (Option<ExpirationCondition>, Option<Seq<char>>),
                Failure<Seq<char>>,
            >(error@),
        },
{
    let expiration = match expiration {
        Some(expiration) => expiration,
        None => return Ok((None, None)),
    };
    proof {
        assert(texts(expiration@).len() == expiration@.len());
    }
    if expiration.len() != 2 {
        return Err(Failure::PairExpected);
    }
    proof {
        assert(texts(expiration@)[0] == expiration@[0]@);
        assert(texts(expiration@)[1] == expiration@[1]@);
    }
    match ExpirationCondition::from_str(&expiration[0]) {
        Ok(condition) => Ok((Some(condition), Some(expiration[1].clone()))),
        Err(_) => Err(Failure::InvalidCondition(expiration[0].clone())),
    }
}

/// The memory that a command stores.
pub open spec fn command_memory(command: SetCommand) -> Result<SetModel, Failure<Seq<char>>> {
    match expiration_pair(optional_texts(command.expiration)) {
        Err(failure) => Err(failure),
        Ok((expiration_condition, expiration_value)) => Ok(
            SetModel {
                content: command.content@,
                mode: command.mode,
                mode_ref: optional(command.mode_ref),
                tags: texts(command.tags@),
                expiration_condition,
                expiration_value,
                metadata: optional(command.metadata),
            },
        ),
    }
}

impl SetCommand {
    /// The memory that the command stores.
    pub fn into_memory(self) -> (r: Result<SetMemory, Error>)
        ensures
            match r {
                Ok(memory) => command_memory(self) == Ok::<SetModel, Failure<Seq<char>>>(memory@),
                Err(error) => command_memory(self) == Err::<SetModel, Failure<Seq<char>>>(error@),
            },
    {
        let (expiration_condition, expiration_value) = match parse_expiration_pair(
            self.expiration,
        ) {
            Ok(pair) => pair,
            Err(error) => return Err(error),
        };
        Ok(
            SetMemory {
                content: self.content,
                mode: self.mode,
                mode_ref: self.mode_ref,
                tags: self.tags,
                expiration_condition,
                expiration_value,
                metadata: self.metadata,
            },
        )
    }
}

/// The search that a command makes.
pub open spec fn command_search(command: GetCommand) -> SearchOptions {
    SearchOptions {
        query: command.query,
        positive_tags: command.positive_tags,
        negative_tags: command.negative_tags,
        limit: command.limit,
        offset: command.offset,
        mode: command.mode,
        mode_ref: command.mode_ref,
    }
}

impl From<GetCommand> for SearchOptions {
    fn from(command: GetCommand) -> (r: SearchOptions) {
        SearchOptions {
            query: command.query,
            positive_tags: command.positive_tags,
            negative_tags: command.negative_tags,
            limit: command.limit,
            offset: command.offset,
            mode: command.mode,
            mode_ref: command.mode_ref,
        }
    }
}

impl vstd::std_specs::convert::FromSpecImpl<GetCommand> for SearchOptions {
    open spec fn obeys_from_spec() -> bool {
        true
    }

    open spec fn from_spec(command: GetCommand) -> SearchOptions {
        command_search(command)
    }
}

/// What is to be done.
#[derive(Debug)]
pub enum Action {
    SetMemory(SetMemory),
    GetMemories(SearchOptions),
    ListTags { filter: Option<String>, json: bool },
    SetAlert { session_ref: String, content: String },
    GetAlerts { session_ref: String },
    ServeAgents,
    ServeExplorer { host: String, port: u16 },
}

/// What is to be done for a command, or why it is refused.
pub fn plan(command: Command) -> (r: Result<Action, Error>)
    ensures
        match command {
            Command::SetMemory(command) => match command_memory(command) {
                Ok(memory) => r matches Ok(Action::SetMemory(input)) && input@ == memory,
                Err(failure) => r matches Err(error) && error@ == failure,
            },
            Command::GetMemories(command) => r == Ok::<Action, Error>(
                Action::GetMemories(command_search(command)),
            ),
            Command::ListTags(command) => r == Ok::<Action, Error>(
                Action::ListTags { filter: command.filter, json: command.json },
            ),
            Command::Alert(command) => r == Ok::<Action, Error>(
                Action::SetAlert { session_ref: command.session_ref, content: command.content },
            ),
            Command::Alerts(command) => r == Ok::<Action, Error>(
                Action::GetAlerts { session_ref: command.session_ref },
            ),
            Command::Mcp => r == Ok::<Action, Error>(Action::ServeAgents),
            Command::Explorer(command) => r == Ok::<Action, Error>(
                Action::ServeExplorer { host: command.host, port: command.port },
            ),
        },
{
    match command {
        Command::SetMemory(command) => match command.into_memory() {
            Ok(memory) => Ok(Action::SetMemory(memory)),
            Err(error) => Err(error),
        },
        Command::GetMemories(command) => Ok(Action::GetMemories(SearchOptions::from(command))),
        Command::ListTags(command) => Ok(
            Action::ListTags { filter: command.filter, json: command.json },
        ),
        Command::Alert(command) => Ok(
            Action::SetAlert { session_ref: command.session_ref, content: command.content },
        ),
        Command::Alerts(command) => Ok(Action::GetAlerts { session_ref: command.session_ref }),
        Command::Mcp => Ok(Action::ServeAgents),
        Command::Explorer(command) => Ok(
            Action::ServeExplorer { host: command.host, port: command.port },
        ),
    }
}

} // verus!
