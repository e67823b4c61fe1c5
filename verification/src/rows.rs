//! The rows that memories are kept in, and the versions of the tables.
use vstd::prelude::*;

use crate::error::{sentence, Error, Failure};
use crate::input::copy_optional;
use crate::json::{list_text, read_list, text_list, write_list};
use crate::model::{
    law_condition_names, law_mode_names, optional, ExpirationCondition, MemoryMode,
};
use crate::record::{MemoryRecord, NegativeModel, NegativeScore, PositiveModel, PositiveScore, RecordModel};
use crate::score::Score;
use crate::text::{lower, trim};
use crate::time::{parse_time, rfc3339, rfc3339_text, time_text, Instant};

verus! {

/// The version of the tables that this program writes.
pub const SCHEMA_VERSION: i64 = 2;

/// A row of the table of memories: what stands in its columns.
#[derive(Debug)]
pub struct MemoryRow {
    pub id: i64,
    pub content: String,
    pub mode: String,
    pub mode_ref: Option<String>,
    pub tags_json: String,
    pub expiration_condition: Option<String>,
    pub expiration_value: Option<String>,
    pub metadata: Option<String>,
    pub positive_score: Score,
    pub negative_score: Score,
    pub usage_count: i64,
    pub created_at: String,
    pub file_fingerprint: Option<String>,
}

/// The tags that a column holds; none where it holds anything but a JSON array of strings.
pub open spec fn column_tags(text: Seq<char>) -> Seq<Seq<char>> {
    match text_list(text) {
        Some(list) => list,
        None => Seq::empty(),
    }
}

/// The mode that a column names.
pub open spec fn column_mode(text: Seq<char>) -> Result<MemoryMode, Failure<Seq<char>>> {
    match MemoryMode::named(text) {
        Some(mode) => Ok(mode),
        None => Err(
            Failure::InvalidColumn(
                "mode"@,
                sentence(Failure::UnsupportedMode(lower(trim(text)))),
            ),
        ),
    }
}

/// The condition that a column names, if it is filled.
pub open spec fn column_condition(text: Option<Seq<char>>) -> Result<
    Option<ExpirationCondition>,
    Failure<Seq<char>>,
> {
    match text {
        None => Ok(None),
        Some(text) => match ExpirationCondition::named(text) {
            Some(condition) => Ok(Some(condition)),
            None => Err(
                Failure::InvalidColumn(
                    "expiration_condition"@,
                    sentence(Failure::UnsupportedCondition(lower(trim(text)))),
                ),
            ),
        },
    }
}

/// The point in time that a column writes.
pub open spec fn column_time(text: Seq<char>) -> Result<Instant, Failure<Seq<char>>> {
    match rfc3339(text) {
        Ok(instant) => Ok(instant),
        Err(reason) => Err(Failure::InvalidTime(reason)),
    }
}

/// The memory that a row holds, or the first column that cannot be read.
pub open spec fn row_record(row: MemoryRow) -> Result<RecordModel, Failure<Seq<char>>> {
    match column_mode(row.mode@) {
        Err(failure) => Err(failure),
        Ok(mode) => match column_condition(optional(row.expiration_condition)) {
            Err(failure) => Err(failure),
            Ok(expiration_condition) => match column_time(row.created_at@) {
                Err(failure) => Err(failure),
                Ok(created_at) => Ok(
                    RecordModel {
                        id: row.id,
                        content: row.content@,
                        mode,
                        mode_ref: optional(row.mode_ref),
                        tags: column_tags(row.tags_json@),
                        expiration_condition,
                        expiration_value: optional(row.expiration_value),
                        metadata: optional(row.metadata),
                        positive_score: PositiveModel {
                            stored: row.positive_score,
                            ranks: Seq::empty(),
                        },
                        negative_score: NegativeModel {
                            stored: row.negative_score,
                            similarities: Seq::empty(),
                        },
                        usage_count: row.usage_count as int,
                        created_at,
                        file_fingerprint: optional(row.file_fingerprint),
                    },
                ),
            },
        },
    }
}

fn read_mode(text: &str) -> (r: Result<MemoryMode, Error>)
    ensures
        crate::error::agrees(r, column_mode(text@)),
{
    match MemoryMode::from_str(text) {
        Ok(mode) => Ok(mode),
        Err(error) => Err(Failure::InvalidColumn("mode".to_owned(), error.message())),
    }
}

fn read_condition(text: &Option<String>) -> (r: Result<Option<ExpirationCondition>, Error>)
    ensures
        crate::error::agrees(r, column_condition(optional(*text))),
{
    match text {
        None => Ok(None),
        Some(text) => match ExpirationCondition::from_str(text) {
            Ok(condition) => Ok(Some(condition)),
            Err(error) => Err(
                Failure::InvalidColumn("expiration_condition".to_owned(), error.message()),
            ),
        },
    }
}

fn read_created_at(text: &str) -> (r: Result<Instant, Error>)
    ensures
        crate::error::agrees(r, column_time(text@)),
{
    match parse_time(text) {
        Ok(instant) => Ok(instant),
        Err(reason) => Err(Failure::InvalidTime(reason)),
    }
}

impl MemoryRecord {
    /// The memory that a row holds.
    pub fn from_row(row: MemoryRow) -> (r: Result<MemoryRecord, Error>)
        ensures
            match r {
                Ok(record) => row_record(row) == Ok::<RecordModel, Failure<Seq<char>>>(record@),
                Err(error) => row_record(row) == Err::<RecordModel, Failure<Seq<char>>>(error@),
            },
    {
        let mode = match read_mode(&row.mode) {
            Ok(mode) => mode,
            Err(error) => return Err(error),
        };
        let tags = read_list(&row.tags_json);
        let expiration_condition = match read_condition(&row.expiration_condition) {
            Ok(condition) => condition,
            Err(error) => return Err(error),
        };
        let created_at = match read_created_at(&row.created_at) {
            Ok(instant) => instant,
            Err(error) => return Err(error),
        };
        Ok(
            MemoryRecord {
                id: row.id,
                content: row.content,
                mode,
                mode_ref: row.mode_ref,
                tags,
                expiration_condition,
                expiration_value: row.expiration_value,
                metadata: row.metadata,
                positive_score: PositiveScore { stored: row.positive_score, ranks: Vec::new() },
                negative_score: NegativeScore {
                    stored: row.negative_score,
                    similarities: Vec::new(),
                },
                usage_count: row.usage_count,
                created_at,
                file_fingerprint: row.file_fingerprint,
            },
        )
    }

    /// The row that holds the memory, with the numbers that were stored for what it has gained and
    /// lost. In the years 0 to 9999 the row holds what the memory says.
    pub fn to_row(&self) -> (r: MemoryRow)
        requires
            self.created_at.representable(),
        ensures
            r.id == self.id,
            r.content@ == self@.content,
            r.mode@ == self.mode.name(),
            optional(r.mode_ref) == self@.mode_ref,
            r.tags_json@ == list_text(self@.tags),
            optional(r.expiration_condition) == match self.expiration_condition {
                Some(condition) => Some(condition.name()),
                None => None,
            },
            optional(r.expiration_value) == self@.expiration_value,
            optional(r.metadata) == self@.metadata,
            r.positive_score == self@.positive_score.stored,
            r.negative_score == self@.negative_score.stored,
            r.usage_count == self.usage_count,
            r.created_at@ == rfc3339_text(self.created_at),
            optional(r.file_fingerprint) == self@.file_fingerprint,
            self.created_at.in_four_digit_years() ==> row_record(r) == Ok::<
                RecordModel,
                Failure<Seq<char>>,
            >(
                (RecordModel {
                    positive_score: PositiveModel {
                        ranks: Seq::empty(),
                        ..self@.positive_score
                    },
                    negative_score: NegativeModel {
                        similarities: Seq::empty(),
                        ..self@.negative_score
                    },
                    ..self@
                }),
            ),
    {
        let expiration_condition = match self.expiration_condition {
            Some(condition) => {
                proof {
                    law_condition_names(condition);
                }
                Some(condition.as_str().to_owned())
            },
            None => None,
        };
        proof {
            law_mode_names(self.mode);
        }
        MemoryRow {
            id: self.id,
            content: self.content.clone(),
            mode: self.mode.as_str().to_owned(),
            mode_ref: copy_optional(&self.mode_ref),
            tags_json: write_list(&self.tags),
            expiration_condition,
            expiration_value: copy_optional(&self.expiration_value),
            metadata: copy_optional(&self.metadata),
            positive_score: self.positive_score.stored,
            negative_score: self.negative_score.stored,
            usage_count: self.usage_count,
            created_at: time_text(self.created_at),
            file_fingerprint: copy_optional(&self.file_fingerprint),
        }
    }
}

/// A change of the tables.
#[derive(Debug, Clone, Copy, PartialEq, Eq, Structural)]
pub enum SchemaStep {
    /// Creates the tables of memories and of their tags.
    CreateMemories,
    /// Creates the table of alerts.
    CreateAlerts,
}

impl SchemaStep {
    /// The version of the tables after the change.
    pub open spec fn leads_to(self) -> i64 {
        match self {
            SchemaStep::CreateMemories => 1,
            SchemaStep::CreateAlerts => 2,
        }
    }

    /// The version of the tables after the change.
    pub fn version(self) -> (r: i64)
        ensures
            r == self.leads_to(),
    {
        match self {
            SchemaStep::CreateMemories => 1,
            SchemaStep::CreateAlerts => 2,
        }
    }
}

/// The changes that bring tables of a version up to date, in order. Tables of a later version than
/// this program knows are refused.
pub open spec fn migration(version: i64) -> Result<Seq<SchemaStep>, Failure<Seq<char>>> {
    if version > SCHEMA_VERSION {
        Err(Failure::NewerSchema(version))
    } else if version == 0 {
        Ok(seq![SchemaStep::CreateMemories, SchemaStep::CreateAlerts])
    } else if version == 1 {
        Ok(seq![SchemaStep::CreateAlerts])
    } else {
        Ok(Seq::empty())
    }
}

/// The version of the tables after some changes.
pub open spec fn version_after(version: i64, steps: Seq<SchemaStep>) -> i64 {
    if steps.len() == 0 {
        version
    } else {
        steps.last().leads_to()
    }
}

/// The changes that bring tables of a version up to date, in order.
pub fn migration_steps(version: i64) -> (r: Result<Vec<SchemaStep>, Error>)
    ensures
        match r {
            Ok(steps) => migration(version) == Ok::<Seq<SchemaStep>, Failure<Seq<char>>>(steps@),
            Err(error) => migration(version) == Err::<Seq<SchemaStep>, Failure<Seq<char>>>(error@),
        },
{
    if version > SCHEMA_VERSION {
        return Err(Failure::NewerSchema(version));
    }
    let mut steps: Vec<SchemaStep> = Vec::new();
    if version == 0 {
        steps.push(SchemaStep::CreateMemories);
    }
    if version == 0 || version == 1 {
        steps.push(SchemaStep::CreateAlerts);
    }
    proof {
        assert(steps@ =~= migration(version)->Ok_0);
    }
    Ok(steps)
}

/// Tables of every version from the first to the present one end up at the present one, and
/// tables that are up to date are left alone.
pub proof fn law_migration_reaches_the_present(version: i64)
    requires
        0 <= version <= SCHEMA_VERSION,
    ensures
        migration(version) is Ok,
        version_after(version, migration(version)->Ok_0) == SCHEMA_VERSION,
        migration(SCHEMA_VERSION) == Ok::<Seq<SchemaStep>, Failure<Seq<char>>>(Seq::empty()),
{
}

} // verus!
