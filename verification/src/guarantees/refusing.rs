//! The sentences by which refusals are told.
use vstd::prelude::*;

use crate::error::{sentence, Failure};
use crate::text::signed_decimal;

verus! {

/// Every refusal is told by a sentence of its own, with the text or the number that it is about.
pub proof fn law_refusals_are_told_in_words(failure: Failure<Seq<char>>)
    ensures
        match failure {
            Failure::EmptyContent => sentence(failure) == "memory content cannot be empty"@,
            Failure::NoTags => sentence(failure) == "at least one tag is required"@,
            Failure::ValueMissing(c) => sentence(failure)
                == "expiration condition "@ + c.name() + " requires a value"@,
            Failure::ConditionMissing => sentence(failure)
                == "expiration value was provided without an expiration condition"@,
            Failure::EmptyField(t) => sentence(failure) == t + " cannot be empty"@,
            Failure::UnsupportedMode(t) => sentence(failure) == "unsupported memory mode: "@ + t,
            Failure::UnsupportedCondition(t) => sentence(failure)
                == "unsupported expiration condition: "@ + t,
            Failure::InvalidCondition(t) => sentence(failure)
                == "invalid expiration condition "@ + t,
            Failure::PairExpected => sentence(failure)
                == "--expiration-condition expects CONDITION and VALUE"@,
            Failure::PathMissing => sentence(failure) == "file-based expiration requires a path"@,
            Failure::PristinePathMissing => sentence(failure)
                == "file_pristine expiration requires a path"@,
            Failure::FileUnreadable(t) => sentence(failure) == t,
            Failure::InvalidUsage(t) => sentence(failure)
                == "invalid usage expiration value: "@ + t,
            Failure::UsageNotPositive => sentence(failure)
                == "usage expiration value must be greater than zero"@,
            Failure::EmptyDuration => sentence(failure) == "duration cannot be empty"@,
            Failure::InvalidDuration(t) => sentence(failure) == "invalid duration value: "@ + t,
            Failure::UnsupportedUnit(t) => sentence(failure) == "unsupported duration unit: "@ + t,
            Failure::InvalidInstant(t) => sentence(failure) == "invalid instant value: "@ + t,
            Failure::PeriodFormat => sentence(failure)
                == "period must be formatted as start..end, start,end, or JSON"@,
            Failure::NoCurrentDirectory => sentence(failure)
                == "failed to infer workspace mode_ref from current directory"@,
            Failure::NewerSchema(n) => sentence(failure)
                == "database schema version "@ + signed_decimal(n as int)
                + " is newer than this binary supports (2)"@,
            Failure::StoreFull => sentence(failure) == "database or disk is full"@,
            Failure::InvalidColumn(c, t) => sentence(failure) == "invalid "@ + c + ": "@ + t,
            Failure::InvalidTime(t) => sentence(failure) == t,
            Failure::UnsupportedCommand(t) => sentence(failure) == "unsupported MCP command: "@ + t,
            Failure::CommandMissing => sentence(failure)
                == "MCP request requires command or method"@,
            Failure::MethodMissing => sentence(failure) == "JSON-RPC request requires method"@,
            Failure::ToolNameMissing => sentence(failure) == "tools/call requires params.name"@,
            Failure::EmptyRequest => sentence(failure) == "empty request"@,
            Failure::HttpMethodMissing => sentence(failure) == "missing HTTP method"@,
            Failure::HttpTargetMissing => sentence(failure) == "missing HTTP target"@,
            Failure::HeadersTooLarge => sentence(failure) == "request headers too large"@,
        },
{
}

} // verus!
