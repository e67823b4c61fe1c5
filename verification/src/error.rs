//! What can go wrong, and the sentence that says so.
use vstd::prelude::*;

use crate::model::ExpirationCondition;
use crate::text::{decimal_text, joined};

verus! {

/// A refusal. `Text` is `String` in running code and `Seq<char>` in contracts.
#[derive(Debug)]
pub enum Failure<Text> {
    /// A memory without content.
    EmptyContent,
    /// A memory without tags.
    NoTags,
    /// An expiration condition without its value.
    ValueMissing(ExpirationCondition),
    /// An expiration value without its condition.
    ConditionMissing,
    /// A required text that is blank: the name of the field.
    EmptyField(Text),
    /// No memory mode has this name.
    UnsupportedMode(Text),
    /// No expiration condition has this name.
    UnsupportedCondition(Text),
    /// The first half of an expiration pair names no condition.
    InvalidCondition(Text),
    /// An expiration pair that is not a pair.
    PairExpected,
    /// A condition on a file without a path.
    PathMissing,
    /// A fingerprint was asked for without a path.
    PristinePathMissing,
    /// A file that could not be fingerprinted: the reason.
    FileUnreadable(Text),
    /// A usage limit that is no number.
    InvalidUsage(Text),
    /// A usage limit of zero or less.
    UsageNotPositive,
    /// A blank duration.
    EmptyDuration,
    /// A duration that does not start with a number.
    InvalidDuration(Text),
    /// No unit of time has this name.
    UnsupportedUnit(Text),
    /// A text that is neither a time nor a date.
    InvalidInstant(Text),
    /// A period in none of the known forms.
    PeriodFormat,
    /// The current directory is unknown.
    NoCurrentDirectory,
    /// The database was written by a later version of this program.
    NewerSchema(i64),
    /// The last identifier has been given away.
    StoreFull,
    /// A stored value that cannot be read: the column and the reason.
    InvalidColumn(Text, Text),
    /// A stored time that cannot be read: the reason.
    InvalidTime(Text),
    /// No command has this name.
    UnsupportedCommand(Text),
    /// A request that names no command.
    CommandMissing,
    /// A JSON-RPC request that names no method.
    MethodMissing,
    /// A tool call that names no tool.
    ToolNameMissing,
    /// An HTTP connection that sent nothing.
    EmptyRequest,
    /// An HTTP request line without a method.
    HttpMethodMissing,
    /// An HTTP request line without a target.
    HttpTargetMissing,
    /// HTTP headers beyond the size limit.
    HeadersTooLarge,
}

/// A refusal in running code.
pub type Error = Failure<String>;

impl View for Failure<String> {
    type V = Failure<Seq<char>>;

    open spec fn view(&self) -> Failure<Seq<char>> {
        match *self {
            Failure::EmptyContent => Failure::EmptyContent,
            Failure::NoTags => Failure::NoTags,
            Failure::ValueMissing(c) => Failure::ValueMissing(c),
            Failure::ConditionMissing => Failure::ConditionMissing,
            Failure::EmptyField(t) => Failure::EmptyField(t@),
            Failure::UnsupportedMode(t) => Failure::UnsupportedMode(t@),
            Failure::UnsupportedCondition(t) => Failure::UnsupportedCondition(t@),
            Failure::InvalidCondition(t) => Failure::InvalidCondition(t@),
            Failure::PairExpected => Failure::PairExpected,
            Failure::PathMissing => Failure::PathMissing,
            Failure::PristinePathMissing => Failure::PristinePathMissing,
            Failure::FileUnreadable(t) => Failure::FileUnreadable(t@),
            Failure::InvalidUsage(t) => Failure::InvalidUsage(t@),
            Failure::UsageNotPositive => Failure::UsageNotPositive,
            Failure::EmptyDuration => Failure::EmptyDuration,
            Failure::InvalidDuration(t) => Failure::InvalidDuration(t@),
            Failure::UnsupportedUnit(t) => Failure::UnsupportedUnit(t@),
            Failure::InvalidInstant(t) => Failure::InvalidInstant(t@),
            Failure::PeriodFormat => Failure::PeriodFormat,
            Failure::NoCurrentDirectory => Failure::NoCurrentDirectory,
            Failure::NewerSchema(n) => Failure::NewerSchema(n),
            Failure::StoreFull => Failure::StoreFull,
            Failure::InvalidColumn(c, t) => Failure::InvalidColumn(c@, t@),
            Failure::InvalidTime(t) => Failure::InvalidTime(t@),
            Failure::UnsupportedCommand(t) => Failure::UnsupportedCommand(t@),
            Failure::CommandMissing => Failure::CommandMissing,
            Failure::MethodMissing => Failure::MethodMissing,
            Failure::ToolNameMissing => Failure::ToolNameMissing,
            Failure::EmptyRequest => Failure::EmptyRequest,
            Failure::HttpMethodMissing => Failure::HttpMethodMissing,
            Failure::HttpTargetMissing => Failure::HttpTargetMissing,
            Failure::HeadersTooLarge => Failure::HeadersTooLarge,
        }
    }
}

/// The sentence that says what went wrong.
pub open spec fn sentence(failure: Failure<Seq<char>>) -> Seq<char> {
    match failure {
        Failure::EmptyContent => "memory content cannot be empty"@,
        Failure::NoTags => "at least one tag is required"@,
        Failure::ValueMissing(c) => "expiration condition "@ + c.name() + " requires a value"@,
        Failure::ConditionMissing =>
            "expiration value was provided without an expiration condition"@,
        Failure::EmptyField(t) => t + " cannot be empty"@,
        Failure::UnsupportedMode(t) => "unsupported memory mode: "@ + t,
        Failure::UnsupportedCondition(t) => "unsupported expiration condition: "@ + t,
        Failure::InvalidCondition(t) => "invalid expiration condition "@ + t,
        Failure::PairExpected => "--expiration-condition expects CONDITION and VALUE"@,
        Failure::PathMissing => "file-based expiration requires a path"@,
        Failure::PristinePathMissing => "file_pristine expiration requires a path"@,
        Failure::FileUnreadable(t) => t,
        Failure::InvalidUsage(t) => "invalid usage expiration value: "@ + t,
        Failure::UsageNotPositive => "usage expiration value must be greater than zero"@,
        Failure::EmptyDuration => "duration cannot be empty"@,
        Failure::InvalidDuration(t) => "invalid duration value: "@ + t,
        Failure::UnsupportedUnit(t) => "unsupported duration unit: "@ + t,
        Failure::InvalidInstant(t) => "invalid instant value: "@ + t,
        Failure::PeriodFormat =>
            "period must be formatted as start..end, start,end, or JSON"@,
        Failure::NoCurrentDirectory =>
            "failed to infer workspace mode_ref from current directory"@,
        Failure::NewerSchema(n) => "database schema version "@ + crate::text::signed_decimal(
            n as int,
        ) + " is newer than this binary supports (2)"@,
        Failure::StoreFull => "database or disk is full"@,
        Failure::InvalidColumn(c, t) => "invalid "@ + c + ": "@ + t,
        Failure::InvalidTime(t) => t,
        Failure::UnsupportedCommand(t) => "unsupported MCP command: "@ + t,
        Failure::CommandMissing => "MCP request requires command or method"@,
        Failure::MethodMissing => "JSON-RPC request requires method"@,
        Failure::ToolNameMissing => "tools/call requires params.name"@,
        Failure::EmptyRequest => "empty request"@,
        Failure::HttpMethodMissing => "missing HTTP method"@,
        Failure::HttpTargetMissing => "missing HTTP target"@,
        Failure::HeadersTooLarge => "request headers too large"@,
    }
}

/// Whether a result is what a contract says of it.
pub open spec fn agrees<T>(r: Result<T, Error>, expected: Result<T, Failure<Seq<char>>>) -> bool {
    match r {
        Ok(value) => expected == Ok::<T, Failure<Seq<char>>>(value),
        Err(error) => expected == Err::<T, Failure<Seq<char>>>(error@),
    }
}

/// `n` in base ten, with a minus sign where it is negative.
pub fn signed_text(n: i64) -> (r: String)
    ensures
        r@ == crate::text::signed_decimal(n as int),
{
    proof {
        reveal_strlit("-");
        assert("-"@ =~= seq!['-']);
    }
    if n >= 0 {
        decimal_text(n as u64)
    } else if n == i64::MIN {
        joined("-", &decimal_text(0x8000_0000_0000_0000))
    } else {
        joined("-", &decimal_text((-n) as u64))
    }
}

impl Failure<String> {
    /// The sentence that says what went wrong.
    pub fn message(&self) -> (r: String)
        ensures
            r@ == sentence(self@),
    {
        match self {
            Failure::EmptyContent => "memory content cannot be empty".to_owned(),
            Failure::NoTags => "at least one tag is required".to_owned(),
            Failure::ValueMissing(c) => joined(
                &joined("expiration condition ", c.as_str()),
                " requires a value",
            ),
            Failure::ConditionMissing =>
                "expiration value was provided without an expiration condition".to_owned(),
            Failure::EmptyField(t) => joined(t, " cannot be empty"),
            Failure::UnsupportedMode(t) => joined("unsupported memory mode: ", t),
            Failure::UnsupportedCondition(t) => joined("unsupported expiration condition: ", t),
            Failure::InvalidCondition(t) => joined("invalid expiration condition ", t),
            Failure::PairExpected =>
                "--expiration-condition expects CONDITION and VALUE".to_owned(),
            Failure::PathMissing => "file-based expiration requires a path".to_owned(),
            Failure::PristinePathMissing => "file_pristine expiration requires a path".to_owned(),
            Failure::FileUnreadable(t) => t.clone(),
            Failure::InvalidUsage(t) => joined("invalid usage expiration value: ", t),
            Failure::UsageNotPositive =>
                "usage expiration value must be greater than zero".to_owned(),
            Failure::EmptyDuration => "duration cannot be empty".to_owned(),
            Failure::InvalidDuration(t) => joined("invalid duration value: ", t),
            Failure::UnsupportedUnit(t) => joined("unsupported duration unit: ", t),
            Failure::InvalidInstant(t) => joined("invalid instant value: ", t),
            Failure::PeriodFormat =>
                "period must be formatted as start..end, start,end, or JSON".to_owned(),
            Failure::NoCurrentDirectory =>
                "failed to infer workspace mode_ref from current directory".to_owned(),
            Failure::NewerSchema(n) => joined(
                &joined("database schema version ", &signed_text(*n)),
                " is newer than this binary supports (2)",
            ),
            Failure::StoreFull => "database or disk is full".to_owned(),
            Failure::InvalidColumn(c, t) => joined(&joined(&joined("invalid ", c), ": "), t),
            Failure::InvalidTime(t) => t.clone(),
            Failure::UnsupportedCommand(t) => joined("unsupported MCP command: ", t),
            Failure::CommandMissing => "MCP request requires command or method".to_owned(),
            Failure::MethodMissing => "JSON-RPC request requires method".to_owned(),
            Failure::ToolNameMissing => "tools/call requires params.name".to_owned(),
            Failure::EmptyRequest => "empty request".to_owned(),
            Failure::HttpMethodMissing => "missing HTTP method".to_owned(),
            Failure::HttpTargetMissing => "missing HTTP target".to_owned(),
            Failure::HeadersTooLarge => "request headers too large".to_owned(),
        }
    }
}

} // verus!
