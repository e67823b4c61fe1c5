use mii_memory::cli::{
    database_path, parse_expiration_pair, plan, Action, AlertSetCommand, AlertsCommand, Cli,
    Command, ExplorerCommand, GetCommand, ListTagsCommand, SetCommand,
};
use mii_memory::{ExpirationCondition, MemoryMode};

fn pair(words: &[&str]) -> Option<Vec<String>> {
    Some(words.iter().map(|word| word.to_string()).collect())
}

fn set_command(expiration: Option<Vec<String>>) -> SetCommand {
    SetCommand {
        content: "text".to_string(),
        mode: MemoryMode::Workspace,
        mode_ref: Some("w".to_string()),
        tags: vec!["a".to_string()],
        expiration,
        metadata: Some("m".to_string()),
    }
}

#[test]
fn expiration_is_a_condition_and_a_value() {
    assert_eq!(parse_expiration_pair(None).unwrap(), (None, None));
    assert_eq!(
        parse_expiration_pair(pair(&["File-Pristine", "/x"])).unwrap(),
        (Some(ExpirationCondition::FilePristine), Some("/x".to_string()))
    );
    assert_eq!(
        parse_expiration_pair(pair(&["usage"])).unwrap_err().message(),
        "--expiration-condition expects CONDITION and VALUE"
    );
    assert_eq!(
        parse_expiration_pair(pair(&["a", "b", "c"])).unwrap_err().message(),
        "--expiration-condition expects CONDITION and VALUE"
    );
    assert_eq!(
        parse_expiration_pair(pair(&["Never", "1"])).unwrap_err().message(),
        "invalid expiration condition Never"
    );
}

#[test]
fn database_has_a_default_place() {
    let cli = Cli { db: None, command: Command::Mcp };
    assert_eq!(database_path(cli.db), ".mii-memory.db");
    assert_eq!(database_path(Some("/tmp/x.db".to_string())), "/tmp/x.db");
}

#[test]
fn commands_become_actions() {
    match plan(Command::SetMemory(set_command(pair(&["usage", "3"])))).unwrap() {
        Action::SetMemory(memory) => {
            assert_eq!(memory.content, "text");
            assert_eq!(memory.mode, MemoryMode::Workspace);
            assert_eq!(memory.mode_ref.as_deref(), Some("w"));
            assert_eq!(memory.tags, vec!["a"]);
            assert_eq!(memory.expiration_condition, Some(ExpirationCondition::Usage));
            assert_eq!(memory.expiration_value.as_deref(), Some("3"));
            assert_eq!(memory.metadata.as_deref(), Some("m"));
        }
        other => panic!("{other:?}"),
    }
    assert!(plan(Command::SetMemory(set_command(pair(&["x", "3"])))).is_err());

    let command = GetCommand {
        query: "q".to_string(),
        positive_tags: vec!["p".to_string()],
        negative_tags: vec!["n".to_string()],
        limit: 3,
        offset: 4,
        mode: Some(MemoryMode::Session),
        mode_ref: Some("s".to_string()),
    };
    match plan(Command::GetMemories(command)).unwrap() {
        Action::GetMemories(options) => {
            assert_eq!(options.query, "q");
            assert_eq!(options.positive_tags, vec!["p"]);
            assert_eq!(options.negative_tags, vec!["n"]);
            assert_eq!((options.limit, options.offset), (3, 4));
            assert_eq!(options.mode, Some(MemoryMode::Session));
            assert_eq!(options.mode_ref.as_deref(), Some("s"));
        }
        other => panic!("{other:?}"),
    }

    let command = ListTagsCommand { filter: Some("f".to_string()), json: true };
    assert!(matches!(
        plan(Command::ListTags(command)).unwrap(),
        Action::ListTags { filter: Some(filter), json: true } if filter == "f"
    ));
    let command = AlertSetCommand { session_ref: "s".to_string(), content: "c".to_string() };
    assert!(matches!(
        plan(Command::Alert(command)).unwrap(),
        Action::SetAlert { session_ref, content } if session_ref == "s" && content == "c"
    ));
    let command = AlertsCommand { session_ref: "s".to_string() };
    assert!(matches!(
        plan(Command::Alerts(command)).unwrap(),
        Action::GetAlerts { session_ref } if session_ref == "s"
    ));
    assert!(matches!(plan(Command::Mcp).unwrap(), Action::ServeAgents));
    let command = ExplorerCommand { host: "h".to_string(), port: 4117 };
    assert!(matches!(
        plan(Command::Explorer(command)).unwrap(),
        Action::ServeExplorer { host, port: 4117 } if host == "h"
    ));
}
