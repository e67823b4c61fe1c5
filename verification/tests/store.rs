use mii_memory::embedding::{text_features, Weight, EMBEDDING_DIMENSIONS};
use mii_memory::error::Failure;
use mii_memory::explorer::BrowseOptions;
use mii_memory::files::{FileState, Files, Sighting};
use mii_memory::input::{
    normalize_search_options, normalize_set_memory, set_memory_fits, Environment, World,
};
use mii_memory::record::{AlertRecord, MemoryRecord, NegativeScore, PositiveScore};
use mii_memory::score::Score;
use mii_memory::store::{
    default_database_path, infer_mode_ref, MemorySearchResult, SIMILAR_MEMORY_BITS,
};
use mii_memory::tags::SIMILAR_TAG_BITS;
use mii_memory::time::Instant;
use mii_memory::{ExpirationCondition, MemoryMode, MemoryStore, SearchOptions, SetMemory};

const NOON: i64 = 1_779_105_600;

fn at(seconds: i64) -> World {
    World {
        now: Instant { seconds, nanos: 0 },
        files: Files { seen: Vec::new() },
        environment: Environment {
            current_dir: Some("/work/project".to_string()),
            session: None,
            mcp_session: None,
        },
    }
}

fn seeing(path: &str, sighting: Sighting) -> World {
    let mut world = at(NOON);
    world.files.seen.push((path.to_string(), sighting));
    world
}

fn memory(content: &str, tags: &[&str]) -> SetMemory {
    SetMemory {
        content: content.to_string(),
        mode: MemoryMode::Global,
        mode_ref: None,
        tags: tags.iter().map(|tag| tag.to_string()).collect(),
        expiration_condition: None,
        expiration_value: None,
        metadata: None,
    }
}

fn query(text: &str) -> SearchOptions {
    SearchOptions { query: text.to_string(), ..SearchOptions::default() }
}

fn scaled(mut vector: Vec<f32>) -> Vec<f32> {
    let length = vector.iter().map(|value| value * value).sum::<f32>().sqrt();
    if length != 0.0 {
        for value in vector.iter_mut() {
            *value /= length;
        }
    }
    vector
}

fn embed(text: &str) -> Vec<f32> {
    let mut vector = vec![0.0_f32; EMBEDDING_DIMENSIONS];
    for feature in text_features(text) {
        let weight = match feature.weight {
            Weight::Whole => 1.0,
            Weight::Gram => 0.35,
        };
        vector[feature.index] += if feature.negative { -weight } else { weight };
    }
    scaled(vector)
}

fn combined(content: &str, tags: &[String]) -> Vec<f32> {
    let content = embed(content);
    let tags = embed(&tags.join(" "));
    scaled(content.iter().zip(tags.iter()).map(|(c, t)| c * 0.75 + t * 0.25).collect())
}

fn cosine(left: &[f32], right: &[f32]) -> f32 {
    left.iter().zip(right.iter()).map(|(l, r)| l * r).sum::<f32>().clamp(-1.0, 1.0)
}

fn gained(score: &PositiveScore) -> f32 {
    score
        .ranks
        .iter()
        .fold(f32::from_bits(score.stored.bits), |sum, rank| sum + 1.0 / (*rank as f32 + 1.0))
}

fn lost(score: &NegativeScore) -> f32 {
    score
        .similarities
        .iter()
        .fold(f32::from_bits(score.stored.bits), |sum, similarity| {
            sum + f32::from_bits(similarity.bits)
        })
}

fn search(store: &mut MemoryStore, options: SearchOptions, world: &World) -> Vec<MemorySearchResult> {
    let normal = normalize_search_options(options.clone());
    let asked = embed(&normal.query);
    let terms = store.score_terms(options.clone());
    let scores: Vec<Score> = store
        .memories
        .iter()
        .zip(terms.iter())
        .map(|(memory, terms)| {
            let score = cosine(&asked, &combined(&memory.content, &memory.tags)) * 10.0
                + if terms.content_matches { 2.0 } else { 0.0 }
                + if terms.tag_matches { 1.0 } else { 0.0 }
                + terms.positive_tags as f32 * 0.35
                + gained(&memory.positive_score)
                - lost(&memory.negative_score)
                - terms.negative_tags as f32 * 4.0;
            Score { bits: score.to_bits() }
        })
        .collect();
    store.get(options, world, &scores)
}

fn remember(store: &mut MemoryStore, input: SetMemory, world: &World) -> i64 {
    let normal = normalize_set_memory(input.clone(), &world.environment).unwrap();
    let vector = combined(&normal.content, &normal.tags);
    let similarities: Vec<Score> = store
        .memories
        .iter()
        .map(|memory| Score {
            bits: cosine(&vector, &combined(&memory.content, &memory.tags)).to_bits(),
        })
        .collect();
    store.set(input, world, &similarities).unwrap()
}

fn similar_tags(store: &MemoryStore, filter: &str) -> Vec<(String, Score)> {
    let asked = embed(filter.trim());
    let mut list = Vec::new();
    for memory in &store.memories {
        for tag in &memory.tags {
            list.push((tag.clone(), Score { bits: cosine(&asked, &embed(tag)).to_bits() }));
        }
    }
    list
}

fn scores(numbers: &[f32]) -> Vec<Score> {
    numbers.iter().map(|number| Score { bits: number.to_bits() }).collect()
}

fn contents(list: &[MemorySearchResult]) -> Vec<&str> {
    list.iter().map(|result| result.content.as_str()).collect()
}

#[test]
fn set_get_and_list_tags_round_trip() {
    let world = at(NOON);
    let mut store = MemoryStore::in_memory();
    remember(&mut store, memory("Rust sqlite memory backend", &["rust", "sqlite"]), &world);

    let results = search(
        &mut store,
        SearchOptions {
            query: "sqlite backend".to_string(),
            positive_tags: vec!["rust".to_string()],
            ..SearchOptions::default()
        },
        &world,
    );

    assert_eq!(results.len(), 1);
    assert_eq!(results[0].content, "Rust sqlite memory backend");

    let similar = similar_tags(&store, "sql");
    let tags = store.list_tags(Some("sql"), &world, &similar);
    assert_eq!(tags[0].tag, "sqlite");
}

#[test]
fn usage_expiration_hides_memory_after_limit() {
    let world = at(NOON);
    let mut store = MemoryStore::in_memory();
    let mut input = memory("single use memory", &["temporary"]);
    input.expiration_condition = Some(ExpirationCondition::Usage);
    input.expiration_value = Some("1".to_string());
    remember(&mut store, input, &world);

    let first = search(&mut store, query("single"), &world);
    let second = search(&mut store, query("single"), &world);

    assert_eq!(first.len(), 1);
    assert!(second.is_empty());
}

#[test]
fn file_pristine_expiration_tracks_changes() {
    let path = "tracked.txt";
    let world = seeing(path, FileState::Regular(b"first".to_vec()));
    let mut store = MemoryStore::in_memory();
    let mut input = memory("tracked file state", &["file"]);
    input.expiration_condition = Some(ExpirationCondition::FilePristine);
    input.expiration_value = Some(path.to_string());
    remember(&mut store, input, &world);
    assert_eq!(store.watched_paths(), vec![path.to_string()]);

    assert_eq!(search(&mut store, query("tracked"), &world).len(), 1);

    let changed = seeing(path, FileState::Regular(b"firstchanged\n".to_vec()));
    assert!(search(&mut store, query("tracked"), &changed).is_empty());
    assert!(search(&mut store, query("tracked"), &at(NOON)).is_empty());
    assert_eq!(search(&mut store, query("tracked"), &world).len(), 1);
}

#[test]
fn alerts_are_session_scoped_and_one_shot() {
    let mut store = MemoryStore::in_memory();
    store.set_alert("session-a".to_string(), "remember the summary".to_string()).unwrap();
    store.set_alert("session-b".to_string(), "other session".to_string()).unwrap();

    let first = store.get_alerts("session-a".to_string()).unwrap();
    let second = store.get_alerts("session-a".to_string()).unwrap();
    let other = store.get_alerts("session-b".to_string()).unwrap();

    assert_eq!(first.len(), 1);
    assert_eq!(first[0].content, "remember the summary");
    assert!(second.is_empty());
    assert_eq!(other.len(), 1);
    assert_eq!(other[0].content, "other session");
}

#[test]
fn default_database_path_matches_spec() {
    assert_eq!(default_database_path(), ".mii-memory.db");
}

#[test]
fn related_text_scores_higher_than_unrelated_text() {
    let query = embed("rust sqlite memory tags");
    let related = embed("sqlite backed rust memory store with tags");
    let unrelated = embed("fresh bread and ceramic cups");

    assert!(cosine(&query, &related) > cosine(&query, &unrelated));
}

#[test]
fn thresholds_are_the_bits_of_their_numbers() {
    assert_eq!(SIMILAR_MEMORY_BITS, 0.72_f32.to_bits());
    assert_eq!(SIMILAR_TAG_BITS, 0.2_f32.to_bits());
}

#[test]
fn refused_memories_leave_the_store_alone() {
    let world = at(NOON);
    let mut store = MemoryStore::in_memory();
    let none = Vec::new();
    let refused = |store: &mut MemoryStore, input: SetMemory| {
        store.set(input, &world, &none).unwrap_err().message()
    };

    assert_eq!(refused(&mut store, memory("  \n", &["a"])), "memory content cannot be empty");
    assert_eq!(refused(&mut store, memory("text", &["", "  "])), "at least one tag is required");

    let mut input = memory("text", &["a"]);
    input.expiration_condition = Some(ExpirationCondition::FileExist);
    assert_eq!(
        refused(&mut store, input),
        "expiration condition file_exist requires a value"
    );

    let mut input = memory("text", &["a"]);
    input.expiration_value = Some("2".to_string());
    assert_eq!(
        refused(&mut store, input),
        "expiration value was provided without an expiration condition"
    );

    let mut input = memory("text", &["a"]);
    input.expiration_condition = Some(ExpirationCondition::Usage);
    input.expiration_value = Some("0".to_string());
    assert_eq!(
        refused(&mut store, input),
        "usage expiration value must be greater than zero"
    );

    let broken = seeing("/x", FileState::Unreadable("failed to open /x".to_string()));
    let mut input = memory("text", &["a"]);
    input.expiration_condition = Some(ExpirationCondition::FilePristine);
    input.expiration_value = Some("/x".to_string());
    assert_eq!(store.set(input, &broken, &none).unwrap_err().message(), "failed to open /x");

    assert!(store.memories.is_empty());
    assert_eq!(store.last_id, 0);

    store.last_id = i64::MAX;
    assert_eq!(refused(&mut store, memory("text", &["a"])), "database or disk is full");
    assert!(store.memories.is_empty());
}

#[test]
fn stored_memory_is_in_normal_form() {
    let world = at(NOON);
    let mut store = MemoryStore::in_memory();
    let mut input = memory("  Deploy on Friday \n", &[" Ops ", "ops", "", "DEPLOY"]);
    input.mode = MemoryMode::Workspace;
    input.metadata = Some("{\"by\":\"me\"}".to_string());
    assert_eq!(remember(&mut store, input, &world), 1);

    let stored = &store.memories[0];
    assert_eq!(stored.content, "Deploy on Friday");
    assert_eq!(stored.tags, vec!["ops", "deploy"]);
    assert_eq!(stored.mode_ref.as_deref(), Some("/work/project"));
    assert_eq!(stored.metadata.as_deref(), Some("{\"by\":\"me\"}"));
    assert_eq!(stored.usage_count, 0);
    assert_eq!(stored.created_at, world.now);

    let results = search(&mut store, query("friday"), &world);
    assert_eq!(results[0].id, 1);
    assert_eq!(results[0].tags, vec!["ops", "deploy"]);
    assert_eq!(results[0].usage_count, 0);
    assert_eq!(store.memories[0].usage_count, 1);
}

#[test]
fn references_come_from_the_surroundings_unless_given() {
    let mut environment = at(NOON).environment;
    let infer = |mode: MemoryMode, given: Option<&str>, environment: &Environment| {
        infer_mode_ref(mode, given.map(str::to_string), environment)
    };

    assert_eq!(infer(MemoryMode::Global, Some("x"), &environment).unwrap(), None);
    assert_eq!(
        infer(MemoryMode::Workspace, Some(" given "), &environment).unwrap().as_deref(),
        Some("given")
    );
    assert_eq!(
        infer(MemoryMode::Workspace, Some("  "), &environment).unwrap().as_deref(),
        Some("/work/project")
    );
    assert_eq!(
        infer(MemoryMode::Session, None, &environment).unwrap().as_deref(),
        Some("default")
    );
    environment.mcp_session = Some("mcp".to_string());
    assert_eq!(infer(MemoryMode::Session, None, &environment).unwrap().as_deref(), Some("mcp"));
    environment.session = Some("own".to_string());
    assert_eq!(infer(MemoryMode::Session, None, &environment).unwrap().as_deref(), Some("own"));
    environment.current_dir = None;
    assert_eq!(
        infer(MemoryMode::Workspace, None, &environment).unwrap_err().message(),
        "failed to infer workspace mode_ref from current directory"
    );
}

#[test]
fn results_go_by_score_and_then_by_age() {
    let world = at(NOON);
    let mut store = MemoryStore::in_memory();
    for content in ["one", "two", "three", "four"] {
        let zeros = scores(&vec![0.0; store.memories.len()]);
        store.set(memory(content, &["n"]), &world, &zeros).unwrap();
    }

    let all = store.get(query(""), &world, &scores(&[1.5, -2.0, 1.5, 7.25]));
    assert_eq!(contents(&all), vec!["four", "three", "one", "two"]);
    assert_eq!(all[0].score.bits, 7.25_f32.to_bits());
    assert_eq!(store.memories[3].positive_score.ranks, vec![0]);
    assert_eq!(store.memories[1].positive_score.ranks, vec![3]);

    let page = SearchOptions { limit: 2, offset: 1, ..query("") };
    let some = store.get(page, &world, &scores(&[1.5, -2.0, 1.5, 7.25]));
    assert_eq!(contents(&some), vec!["three", "one"]);
    assert_eq!(store.memories[2].positive_score.ranks, vec![1, 0]);
    assert_eq!(store.memories[3].usage_count, 1);

    let signs = store.get(query(""), &world, &scores(&[0.0, -0.0, 0.0, -0.0]));
    assert_eq!(contents(&signs), vec!["four", "three", "two", "one"]);

    let none = SearchOptions { limit: 0, offset: 9, ..query("") };
    assert!(store.get(none, &world, &scores(&[1.0, 1.0, 1.0, 1.0])).is_empty());
    let one = SearchOptions { limit: 0, ..query("") };
    assert_eq!(store.get(one, &world, &scores(&[1.0, 1.0, 1.0, 1.0])).len(), 1);
}

#[test]
fn searches_keep_to_scope_and_tags() {
    let world = at(NOON);
    let mut store = MemoryStore::in_memory();
    let mut input = memory("in a", &["x", "y"]);
    input.mode = MemoryMode::Session;
    input.mode_ref = Some("a".to_string());
    remember(&mut store, input, &world);
    let mut input = memory("in b", &["x"]);
    input.mode = MemoryMode::Session;
    input.mode_ref = Some("b".to_string());
    remember(&mut store, input, &world);
    remember(&mut store, memory("everywhere", &["y"]), &world);

    let scoped = SearchOptions {
        mode: Some(MemoryMode::Session),
        mode_ref: Some("a".to_string()),
        ..query("in")
    };
    assert_eq!(contents(&search(&mut store, scoped, &world)), vec!["in a"]);
    let session = SearchOptions { mode: Some(MemoryMode::Session), ..query("in") };
    assert_eq!(search(&mut store, session, &world).len(), 2);
    let tagged = SearchOptions {
        positive_tags: vec![" X ".to_string(), "y".to_string()],
        ..query("in")
    };
    assert_eq!(contents(&search(&mut store, tagged, &world)), vec!["in a"]);
}

#[test]
fn score_terms_count_what_matches() {
    let world = at(NOON);
    let mut store = MemoryStore::in_memory();
    remember(&mut store, memory("The Rust book", &["rust", "book"]), &world);
    remember(&mut store, memory("a shelf", &["rusty", "old"]), &world);

    let terms = store.score_terms(SearchOptions {
        query: " RUST ".to_string(),
        positive_tags: vec!["rust".to_string(), "Rust".to_string(), "book".to_string()],
        negative_tags: vec!["book".to_string(), "old".to_string(), "rusty".to_string()],
        ..SearchOptions::default()
    });
    assert!(terms[0].content_matches && terms[0].tag_matches);
    assert_eq!((terms[0].positive_tags, terms[0].negative_tags), (2, 1));
    assert!(!terms[1].content_matches && terms[1].tag_matches);
    assert_eq!((terms[1].positive_tags, terms[1].negative_tags), (2, 2));

    let empty = store.score_terms(query("  "));
    assert!(!empty[0].content_matches && !empty[0].tag_matches);
}

#[test]
fn similar_memories_lose_relevance() {
    let world = at(NOON);
    let mut store = MemoryStore::in_memory();
    store.set(memory("old", &["a"]), &world, &Vec::new()).unwrap();
    let mut input = memory("gone", &["a"]);
    input.expiration_condition = Some(ExpirationCondition::FileExist);
    input.expiration_value = Some("/missing".to_string());
    store.set(input, &world, &scores(&[0.0])).unwrap();
    store.set(memory("other", &["b"]), &world, &scores(&[0.0, 0.0])).unwrap();

    let similarities = scores(&[0.72, 0.9, 0.719]);
    let updates = store.similar_memory_updates(&similarities, &world);
    assert_eq!(updates, vec![(1, Score { bits: 0.72_f32.to_bits() })]);

    assert_eq!(store.set(memory("new", &["a"]), &world, &similarities).unwrap(), 4);
    assert_eq!(store.memories[0].negative_score.similarities, scores(&[0.72]));
    assert!(store.memories[1].negative_score.similarities.is_empty());
    assert!(store.memories[2].negative_score.similarities.is_empty());
    assert!(store.memories[3].negative_score.similarities.is_empty());
    let nan = scores(&[f32::NAN, 1.0, f32::INFINITY, -1.0]);
    assert_eq!(
        store.similar_memory_updates(&nan, &world),
        vec![(3, Score { bits: f32::INFINITY.to_bits() })]
    );
}

#[test]
fn tags_are_listed_in_order_with_their_counts() {
    let world = at(NOON);
    let mut store = MemoryStore::in_memory();
    for (content, tags) in
        [("1", vec!["zeta", "beta"]), ("2", vec!["beta", "alpha"]), ("3", vec!["été", "beta"])]
    {
        let zeros = scores(&vec![0.0; store.memories.len()]);
        store.set(memory(content, &tags), &world, &zeros).unwrap();
    }
    let mut input = memory("gone", &["beta", "never"]);
    input.expiration_condition = Some(ExpirationCondition::FileExist);
    input.expiration_value = Some("/missing".to_string());
    store.set(input, &world, &scores(&[0.0, 0.0, 0.0])).unwrap();

    let listed = |filter: Option<&str>, similar: &Vec<(String, Score)>| -> Vec<(String, i64)> {
        store
            .list_tags(filter, &world, similar)
            .into_iter()
            .map(|summary| (summary.tag, summary.count))
            .collect()
    };
    let none = Vec::new();
    let all = vec![
        ("alpha".to_string(), 1),
        ("beta".to_string(), 3),
        ("zeta".to_string(), 1),
        ("été".to_string(), 1),
    ];
    assert_eq!(listed(None, &none), all);
    assert_eq!(listed(Some("  "), &none), all);
    assert_eq!(
        listed(Some(" ETA"), &none),
        vec![("beta".to_string(), 3), ("zeta".to_string(), 1)]
    );
    let similar = vec![
        ("alpha".to_string(), Score { bits: 0.2_f32.to_bits() }),
        ("zeta".to_string(), Score { bits: 0.19_f32.to_bits() }),
    ];
    assert_eq!(listed(Some("nothing"), &similar), vec![("alpha".to_string(), 1)]);
    let some = listed(Some("a"), &similar);
    let kept: Vec<(String, i64)> =
        all.iter().filter(|(tag, _)| tag.contains('a')).cloned().collect();
    assert_eq!(some, kept);
}

#[test]
fn alerts_come_in_order_and_need_text() {
    let mut store = MemoryStore::in_memory();
    assert_eq!(store.set_alert(" s ".to_string(), " first ".to_string()).unwrap(), 1);
    assert_eq!(store.set_alert("s".to_string(), "second".to_string()).unwrap(), 2);
    assert!(matches!(
        store.set_alert(" ".to_string(), "x".to_string()),
        Err(Failure::EmptyField(_))
    ));
    assert_eq!(
        store.set_alert(" ".to_string(), " ".to_string()).unwrap_err().message(),
        "alert session_ref cannot be empty"
    );
    assert_eq!(
        store.set_alert("s".to_string(), "\t".to_string()).unwrap_err().message(),
        "alert content cannot be empty"
    );
    assert_eq!(
        store.get_alerts("".to_string()).unwrap_err().message(),
        "alert session_ref cannot be empty"
    );

    let alerts = store.get_alerts(" s".to_string()).unwrap();
    assert_eq!(alerts.len(), 2);
    assert_eq!((alerts[0].session_ref.as_str(), alerts[0].content.as_str()), ("s", "first"));
    assert_eq!(alerts[1].content, "second");
    assert_eq!(store.set_alert("s".to_string(), "third".to_string()).unwrap(), 3);

    store.last_alert_id = i64::MAX;
    assert!(matches!(
        store.set_alert("s".to_string(), "late".to_string()),
        Err(Failure::StoreFull)
    ));
    assert_eq!(store.get_alerts("s".to_string()).unwrap().len(), 1);
}

fn record(id: i64) -> MemoryRecord {
    MemoryRecord {
        id,
        content: "c".to_string(),
        mode: MemoryMode::Global,
        mode_ref: None,
        tags: vec!["t".to_string()],
        expiration_condition: None,
        expiration_value: None,
        metadata: None,
        positive_score: PositiveScore { stored: Score { bits: 0 }, ranks: Vec::new() },
        negative_score: NegativeScore { stored: Score { bits: 0 }, similarities: Vec::new() },
        usage_count: 0,
        created_at: Instant { seconds: NOON, nanos: 0 },
        file_fingerprint: None,
    }
}

fn alert(id: i64) -> AlertRecord {
    AlertRecord {
        id,
        alert: mii_memory::store::Alert {
            session_ref: "s".to_string(),
            content: id.to_string(),
        },
    }
}

#[test]
fn loading_checks_identifiers() {
    assert!(MemoryStore::load(vec![record(1), record(4)], 4, vec![alert(2)], 2).is_some());
    assert!(MemoryStore::load(vec![record(4), record(1)], 4, Vec::new(), 0).is_none());
    assert!(MemoryStore::load(vec![record(1), record(1)], 4, Vec::new(), 0).is_none());
    assert!(MemoryStore::load(vec![record(5)], 4, Vec::new(), 0).is_none());
    assert!(MemoryStore::load(Vec::new(), 0, vec![alert(3), alert(2)], 3).is_none());
    assert!(MemoryStore::load(Vec::new(), 0, vec![alert(3)], 2).is_none());
}

#[test]
fn a_full_counter_stays_as_it_is() {
    let mut store = MemoryStore::load(vec![record(1), record(2)], 2, Vec::new(), 0).unwrap();
    store.memories[0].usage_count = i64::MAX;
    let found = store.get(query(""), &at(NOON), &scores(&[2.0, 1.0]));
    assert_eq!(found.iter().map(|memory| memory.id).collect::<Vec<_>>(), vec![1, 2]);
    assert_eq!(store.memories[0].usage_count, i64::MAX);
    assert_eq!(store.memories[0].positive_score.ranks, vec![0]);
    assert_eq!(store.memories[1].usage_count, 1);
    assert_eq!(store.memories[1].positive_score.ranks, vec![1]);

    let elsewhere = SearchOptions { mode: Some(MemoryMode::Session), ..query("") };
    assert!(store.get(elsewhere, &at(NOON), &scores(&[2.0, 1.0])).is_empty());
    assert_eq!(store.memories[1].usage_count, 1);
}

#[test]
fn scores_that_are_no_numbers_have_a_place() {
    let memories = vec![record(1), record(2), record(3), record(4)];
    let mut store = MemoryStore::load(memories, 4, Vec::new(), 0).unwrap();
    let mut ranking = scores(&[1.0, 0.0, f32::INFINITY, 0.0]);
    ranking[1].bits = 0x7fc0_0000;
    ranking[3].bits = 0xffc0_0000;
    let found = store.get(query(""), &at(NOON), &ranking);
    let ids: Vec<i64> = found.iter().map(|memory| memory.id).collect();
    assert_eq!(ids, vec![2, 3, 1, 4]);
}

#[test]
fn pages_are_browsed_from_the_latest_on() {
    let world = at(NOON);
    let mut store = MemoryStore::in_memory();
    for (content, tags) in [
        ("Red apple", vec!["fruit", "red"]),
        ("red brick", vec!["stone", "red"]),
        ("Green APPLE", vec!["fruit"]),
        ("apple pie", vec!["fruit", "dish"]),
    ] {
        let zeros = scores(&vec![0.0; store.memories.len()]);
        store.set(memory(content, &tags), &world, &zeros).unwrap();
    }
    let mut session = memory("apple of a session", &["fruit"]);
    session.mode = MemoryMode::Session;
    session.mode_ref = Some("s".to_string());
    store.set(session, &world, &scores(&[0.0; 4])).unwrap();
    let mut gone = memory("apple that is gone", &["fruit"]);
    gone.expiration_condition = Some(ExpirationCondition::FileExist);
    gone.expiration_value = Some("/missing".to_string());
    store.set(gone, &world, &scores(&[0.0; 5])).unwrap();

    let all = || BrowseOptions {
        text: None,
        tags: Vec::new(),
        mode: None,
        limit: 100,
        offset: 0,
    };
    assert_eq!(store.browse(&all(), &world), vec![4, 3, 2, 1, 0]);
    let apples = || BrowseOptions { text: Some(" ApPle ".to_string()), ..all() };
    assert_eq!(store.browse(&apples(), &world), vec![4, 3, 2, 0]);
    let tags = vec![" FRUIT ".to_string(), "Red".to_string(), "red".to_string()];
    assert_eq!(store.browse(&BrowseOptions { tags, ..all() }, &world), vec![0]);
    let mode = Some(MemoryMode::Session);
    assert_eq!(store.browse(&BrowseOptions { mode, ..apples() }, &world), vec![4]);

    assert_eq!(store.browse(&BrowseOptions { limit: 2, ..apples() }, &world), vec![4, 3]);
    assert_eq!(store.browse(&BrowseOptions { offset: 2, ..apples() }, &world), vec![2, 0]);
    assert_eq!(
        store.browse(&BrowseOptions { limit: 1, offset: 2, ..apples() }, &world),
        vec![2]
    );
    assert!(store.browse(&BrowseOptions { limit: 0, ..apples() }, &world).is_empty());
    assert!(store.browse(&BrowseOptions { offset: usize::MAX, ..apples() }, &world).is_empty());
    assert!(store
        .browse(&BrowseOptions { text: Some("pear".to_string()), ..all() }, &world)
        .is_empty());
    assert_eq!(store.memories[0].usage_count, 0);
}

#[test]
fn lifetimes_beyond_the_calendar_count_as_long() {
    let mut long = record(1);
    long.expiration_condition = Some(ExpirationCondition::Time);
    long.expiration_value = Some("9223372036854775s".to_string());
    let mut store = MemoryStore::load(vec![long], 1, Vec::new(), 0).unwrap();
    let world = at(NOON);
    assert_eq!(store.list_tags(None, &world, &Vec::new()).len(), 1);
    assert_eq!(store.get(query(""), &world, &scores(&[1.0])).len(), 1);
    assert_eq!(store.set(memory("next", &["t"]), &world, &scores(&[0.9])).unwrap(), 2);
    assert_eq!(store.memories[0].negative_score.similarities, scores(&[0.9]));
}

#[test]
fn unwanted_tags_exclude_nothing() {
    let world = at(NOON);
    let mut store = MemoryStore::in_memory();
    remember(&mut store, memory("rust notes", &["rust", "old"]), &world);
    remember(&mut store, memory("more rust notes", &["rust"]), &world);
    let unwanted = SearchOptions {
        negative_tags: vec!["old".to_string(), " OLD".to_string(), "rust".to_string()],
        ..query("rust")
    };
    let terms = store.score_terms(unwanted.clone());
    assert_eq!((terms[0].negative_tags, terms[1].negative_tags), (2, 1));
    let mut with: Vec<i64> =
        search(&mut store, unwanted, &world).iter().map(|result| result.id).collect();
    let mut without: Vec<i64> =
        search(&mut store, query("rust"), &world).iter().map(|result| result.id).collect();
    with.sort();
    without.sort();
    assert_eq!(with, vec![1, 2]);
    assert_eq!(with, without);
}

#[test]
fn durations_count_once_they_are_looked_at() {
    let environment = at(NOON).environment;
    let mut input = memory("text", &["a"]);
    input.expiration_condition = Some(ExpirationCondition::Time);
    input.expiration_value = Some("9223372036854776s".to_string());
    assert!(!set_memory_fits(&input, &environment));
    input.content = " ".to_string();
    assert!(set_memory_fits(&input, &environment));
    assert!(matches!(
        normalize_set_memory(input, &environment),
        Err(Failure::EmptyContent)
    ));
}

#[test]
fn cloned_values_say_the_same() {
    let mut input = memory("text", &["a", "b"]);
    input.metadata = Some("m".to_string());
    let copy = input.clone();
    assert_eq!(copy.content, "text");
    assert_eq!(copy.tags, vec!["a", "b"]);
    assert_eq!(copy.metadata.as_deref(), Some("m"));

    let world = at(NOON);
    let mut store = MemoryStore::in_memory();
    store.set(input, &world, &Vec::new()).unwrap();
    store.get(query(""), &world, &scores(&[1.0]));
    let again = store.get(query(""), &world, &scores(&[2.5]));
    let copy = again[0].clone();
    assert_eq!(copy.positive_score.ranks, vec![0]);
    assert_eq!(copy.score, again[0].score);
    assert_eq!(copy.usage_count, 1);
}

#[test]
fn pages_join_to_the_whole_list() {
    let world = at(NOON);
    let mut store = MemoryStore::in_memory();
    for i in 0..5 {
        let zeros = scores(&vec![0.0; store.memories.len()]);
        store.set(memory(&format!("m{i}"), &["t"]), &world, &zeros).unwrap();
    }
    let numbers = scores(&[3.0, 1.0, 4.0, 1.0, 5.0]);
    let all = store.get(query(""), &world, &numbers);
    assert_eq!(contents(&all), vec!["m4", "m2", "m0", "m3", "m1"]);
    let mut joined = Vec::new();
    for offset in [0, 2, 4, 6] {
        let page = SearchOptions { limit: 2, offset, ..query("") };
        joined.extend(store.get(page, &world, &numbers));
    }
    assert_eq!(contents(&joined), contents(&all));
}

#[test]
fn normal_forms_stay_as_they_are() {
    let environment = at(NOON).environment;
    let mut input = memory("  text ", &[" A ", "b"]);
    input.mode = MemoryMode::Workspace;
    let once = normalize_set_memory(input, &environment).unwrap();
    let twice = normalize_set_memory(once.clone(), &environment).unwrap();
    assert_eq!(once.content, twice.content);
    assert_eq!(once.tags, twice.tags);
    assert_eq!(once.mode_ref, twice.mode_ref);

    let options = SearchOptions {
        positive_tags: vec![" X".to_string()],
        negative_tags: vec!["y ".to_string(), "Y".to_string()],
        limit: 0,
        ..query("  q ")
    };
    let once = normalize_search_options(options);
    assert_eq!((once.query.as_str(), once.limit), ("q", 1));
    assert_eq!(once.positive_tags, vec!["x"]);
    assert_eq!(once.negative_tags, vec!["y"]);
    let twice = normalize_search_options(once.clone());
    assert_eq!((twice.query, twice.limit), (once.query, once.limit));
    assert_eq!(twice.negative_tags, once.negative_tags);
}

#[test]
fn memories_with_a_limit_are_read_that_often() {
    let world = at(NOON);
    let mut store = MemoryStore::in_memory();
    let mut input = memory("three reads", &["t"]);
    input.expiration_condition = Some(ExpirationCondition::Usage);
    input.expiration_value = Some("3".to_string());
    remember(&mut store, input, &world);
    let mut reads = 0;
    for _ in 0..7 {
        reads += search(&mut store, query("three"), &world).len();
    }
    assert_eq!(reads, 3);
    assert_eq!(store.memories[0].usage_count, 3);
    assert!(store.list_tags(None, &world, &Vec::new()).is_empty());
}
