use mii_memory::record::{MemoryRecord, NegativeScore, PositiveScore};
use mii_memory::rows::{migration_steps, MemoryRow, SchemaStep, SCHEMA_VERSION};
use mii_memory::score::Score;
use mii_memory::time::Instant;
use mii_memory::{ExpirationCondition, MemoryMode};

fn row() -> MemoryRow {
    MemoryRow {
        id: 7,
        content: "text".to_string(),
        mode: "session".to_string(),
        mode_ref: Some("s".to_string()),
        tags_json: "[\"a\",\"b\"]".to_string(),
        expiration_condition: Some("file-exist".to_string()),
        expiration_value: Some("/x".to_string()),
        metadata: None,
        positive_score: Score { bits: 1.5_f32.to_bits() },
        negative_score: Score { bits: 0.75_f32.to_bits() },
        usage_count: 2,
        created_at: "2026-05-18T12:00:00+00:00".to_string(),
        file_fingerprint: None,
    }
}

#[test]
fn rows_hold_memories() {
    let record = MemoryRecord::from_row(row()).unwrap();
    assert_eq!(record.id, 7);
    assert_eq!(record.mode, MemoryMode::Session);
    assert_eq!(record.tags, vec!["a", "b"]);
    assert_eq!(record.expiration_condition, Some(ExpirationCondition::FileExist));
    assert_eq!(record.positive_score.stored.bits, 1.5_f32.to_bits());
    assert!(record.positive_score.ranks.is_empty());
    assert_eq!(record.usage_count, 2);
    assert_eq!(record.created_at, Instant { seconds: 1_779_105_600, nanos: 0 });

    let mut loose = row();
    loose.tags_json = "not a list".to_string();
    loose.expiration_condition = None;
    let record = MemoryRecord::from_row(loose).unwrap();
    assert!(record.tags.is_empty());
    assert_eq!(record.expiration_condition, None);
}

#[test]
fn unreadable_columns_are_named() {
    let mut broken = row();
    broken.created_at = "yesterday".to_string();
    let reason = chrono::DateTime::parse_from_rfc3339("yesterday").unwrap_err().to_string();
    assert_eq!(MemoryRecord::from_row(broken).unwrap_err().message(), reason);

    let mut broken = row();
    broken.expiration_condition = Some("Never".to_string());
    broken.created_at = "yesterday".to_string();
    assert_eq!(
        MemoryRecord::from_row(broken).unwrap_err().message(),
        "invalid expiration_condition: unsupported expiration condition: never"
    );

    let mut broken = row();
    broken.mode = "Team".to_string();
    broken.expiration_condition = Some("Never".to_string());
    assert_eq!(
        MemoryRecord::from_row(broken).unwrap_err().message(),
        "invalid mode: unsupported memory mode: team"
    );
}

#[test]
fn memories_are_read_back_from_their_rows() {
    let record = MemoryRecord {
        id: 3,
        content: "line\nbreak".to_string(),
        mode: MemoryMode::Workspace,
        mode_ref: Some("/work".to_string()),
        tags: vec!["a".to_string(), "quote\"".to_string()],
        expiration_condition: Some(ExpirationCondition::Period),
        expiration_value: Some("..2030-01-01".to_string()),
        metadata: Some("m".to_string()),
        positive_score: PositiveScore { stored: Score { bits: 5 }, ranks: vec![1] },
        negative_score: NegativeScore { stored: Score { bits: 6 }, similarities: Vec::new() },
        usage_count: 9,
        created_at: Instant { seconds: 1_779_105_600, nanos: 120_000_001 },
        file_fingerprint: Some("ff".to_string()),
    };
    let row = record.to_row();
    assert_eq!(row.mode, "workspace");
    assert_eq!(row.tags_json, "[\"a\",\"quote\\\"\"]");
    assert_eq!(row.expiration_condition.as_deref(), Some("period"));
    assert_eq!(row.created_at, "2026-05-18T12:00:00.120000001+00:00");
    let read = MemoryRecord::from_row(row).unwrap();
    assert_eq!(read.content, record.content);
    assert_eq!(read.tags, record.tags);
    assert_eq!(read.mode_ref, record.mode_ref);
    assert_eq!(read.expiration_condition, record.expiration_condition);
    assert_eq!(read.created_at, record.created_at);
    assert_eq!(read.positive_score.stored, record.positive_score.stored);
    assert!(read.positive_score.ranks.is_empty());
    assert_eq!(read.file_fingerprint, record.file_fingerprint);
}

#[test]
fn tables_are_brought_up_to_date() {
    let steps = migration_steps(0).unwrap();
    assert_eq!(steps, vec![SchemaStep::CreateMemories, SchemaStep::CreateAlerts]);
    assert_eq!((steps[0].version(), steps[1].version()), (1, SCHEMA_VERSION));
    assert_eq!(migration_steps(1).unwrap(), vec![SchemaStep::CreateAlerts]);
    assert!(migration_steps(SCHEMA_VERSION).unwrap().is_empty());
    assert!(migration_steps(-1).unwrap().is_empty());
    assert_eq!(
        migration_steps(3).unwrap_err().message(),
        "database schema version 3 is newer than this binary supports (2)"
    );
}
