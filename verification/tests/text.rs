use mii_memory::embedding::{fnv1a, text_features, tokenize, Weight};
use mii_memory::model::normalize_tags;
use mii_memory::text::{
    decimal_text, has_text, lowered, parse_i64, parse_usize, split_text, starts_with, text_before,
    trimmed, white_space,
};
use mii_memory::{ExpirationCondition, MemoryMode};

fn all_chars() -> impl Iterator<Item = char> {
    (0..=0x10_ffff_u32).filter_map(char::from_u32)
}

#[test]
fn white_space_is_that_of_unicode() {
    for c in all_chars() {
        assert_eq!(white_space(c), c.is_whitespace(), "{c:?}");
    }
}

#[test]
fn trimming_and_lowering_agree_with_std() {
    for text in ["", "  ", " a b\t", "\u{3000}x\u{a0}", "\u{85}ÄbC\u{2028}", "ÀÉZz[", "plain"] {
        assert_eq!(trimmed(text), text.trim());
        assert_eq!(lowered(text), text.to_ascii_lowercase());
    }
}

#[test]
fn searching_agrees_with_std() {
    let texts = ["", "a", "ab", "aab", "abab", "baab", "éa", "..", "a..b..c", ",a"];
    for text in texts {
        for part in texts {
            assert_eq!(has_text(text, part), text.contains(part), "{text} {part}");
            assert_eq!(starts_with(text, part), text.starts_with(part), "{text} {part}");
            assert_eq!(
                split_text(text, part),
                text.split_once(part).map(|(a, b)| (a.to_string(), b.to_string())),
                "{text} {part}"
            );
            assert_eq!(text_before(text, part), text < part, "{text} {part}");
        }
    }
}

#[test]
fn numbers_are_read_as_std_reads_them() {
    for text in [
        "",
        "+",
        "-",
        "0",
        "+7",
        "-7",
        "007",
        "9223372036854775807",
        "9223372036854775808",
        "-9223372036854775808",
        "-9223372036854775809",
        "18446744073709551615",
        "18446744073709551616",
        " 1",
        "1 ",
        "1_0",
        "٣",
        "--1",
        "+-1",
    ] {
        assert_eq!(parse_i64(text), text.parse::<i64>().ok(), "{text}");
        assert_eq!(parse_usize(text), text.parse::<usize>().ok(), "{text}");
    }
    for n in [0, 9, 10, 16_384, u64::MAX] {
        assert_eq!(decimal_text(n), n.to_string());
        assert_eq!(parse_usize(&decimal_text(n)), Some(n as usize));
    }
}

#[test]
fn modes_are_read_from_their_names() {
    for mode in [MemoryMode::Global, MemoryMode::Workspace, MemoryMode::Session] {
        assert_eq!(MemoryMode::from_str(mode.as_str()).unwrap(), mode);
    }
    assert_eq!(MemoryMode::from_str(" SESSION\n").unwrap(), MemoryMode::Session);
    assert_eq!(MemoryMode::default(), MemoryMode::Global);
    assert_eq!(
        MemoryMode::from_str(" Team ").unwrap_err().message(),
        "unsupported memory mode: team"
    );
}

#[test]
fn conditions_are_read_from_their_names() {
    for condition in [
        ExpirationCondition::Time,
        ExpirationCondition::Usage,
        ExpirationCondition::FileExist,
        ExpirationCondition::FilePristine,
        ExpirationCondition::Period,
    ] {
        assert_eq!(ExpirationCondition::from_str(condition.as_str()).unwrap(), condition);
    }
    assert_eq!(
        ExpirationCondition::from_str("File-Exist").unwrap(),
        ExpirationCondition::FileExist
    );
    assert_eq!(
        ExpirationCondition::from_str("file-pristine").unwrap(),
        ExpirationCondition::FilePristine
    );
    assert_eq!(
        ExpirationCondition::from_str("Never").unwrap_err().message(),
        "unsupported expiration condition: never"
    );
}

#[test]
fn tags_are_normalized_once() {
    let tags: Vec<String> =
        [" Rust", "rust ", "", "  ", "SQL", "été", "rust"].iter().map(|t| t.to_string()).collect();
    let normal = normalize_tags(&tags);
    assert_eq!(normal, vec!["rust", "sql", "été"]);
    assert_eq!(normalize_tags(&normal), normal);
}

#[test]
fn tokens_are_runs_of_letters() {
    assert_eq!(
        tokenize("Rust-lang, foo_bar (v2)! ÄÖ \u{130}x"),
        vec!["rust-lang", "foo_bar", "v2", "äö", "i\u{307}x"]
    );
    assert_eq!(tokenize("Rust, sqlite-memory v2_X!"), vec!["rust", "sqlite-memory", "v2_x"]);
    assert!(tokenize(" ?! ").is_empty());
    for text in ["", "a", "Ünïcode & ascii", "x--y__z", "日本語 text", "ǅ"] {
        let expected: Vec<String> = text
            .split(|c: char| !(c.is_alphanumeric() || c == '_' || c == '-'))
            .filter(|part| !part.is_empty())
            .map(|part| part.chars().flat_map(char::to_lowercase).collect())
            .collect();
        assert_eq!(tokenize(text), expected, "{text}");
    }
}

#[test]
fn hashes_are_fnv() {
    assert_eq!(fnv1a(b""), 0xcbf2_9ce4_8422_2325);
    assert_eq!(fnv1a(b"a"), 0xaf63_dc4c_8601_ec8c);
    assert_eq!(fnv1a(b"foobar"), 0x8594_4171_f739_67e8);
}

#[test]
fn features_are_tokens_and_grams() {
    let features = text_features("hello");
    assert_eq!(features.len(), 4);
    assert_eq!(features[0].weight, Weight::Whole);
    let hash = fnv1a(b"hello");
    assert_eq!(features[0].index as u64, hash % 128);
    assert_eq!(features[0].negative, hash >> 63 == 1);
    for (feature, gram) in features[1..].iter().zip([b"hel", b"ell", b"llo"]) {
        assert_eq!(feature.weight, Weight::Gram);
        assert_eq!(feature.index as u64, fnv1a(gram) % 128);
    }
    assert_eq!(text_features("four").len(), 1);
    assert_eq!(text_features("éaé").len(), 1 + 2);
    assert!(text_features("...").is_empty());
}
