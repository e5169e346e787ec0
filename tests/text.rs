use tracing_layer_discord::{chunk_fields, chunk_text, decimal, truncate, Level};

#[test]
fn truncate_keeps_short_text() {
    assert_eq!(truncate("hello", 10), "hello");
    assert_eq!(truncate("hello", 5), "hello");
}

#[test]
fn truncate_cuts_and_marks() {
    let r = truncate("hello world", 5);
    assert_eq!(r, "hell…");
    assert_eq!(r.chars().count(), 5);
}

#[test]
fn truncate_never_splits_a_character() {
    let r = truncate("ééééé", 3);
    assert_eq!(r, "éé…");
    assert_eq!(truncate("日本語テキスト", 4), "日本語…");
}

#[test]
fn truncate_to_zero_leaves_nothing() {
    assert_eq!(truncate("abc", 0), "");
    assert_eq!(truncate("", 0), "");
}

#[test]
fn truncate_long_message_to_description_cap() {
    let message = "a".repeat(2100);
    let r = truncate(&message, 2048);
    assert_eq!(r.chars().count(), 2048);
    assert!(r.ends_with('…'));
    assert!(r.starts_with(&"a".repeat(2047)));
}

#[test]
fn decimal_writes_numbers() {
    assert_eq!(decimal(0), "0");
    assert_eq!(decimal(7), "7");
    assert_eq!(decimal(42), "42");
    assert_eq!(decimal(1000), "1000");
    assert_eq!(decimal(u64::MAX), "18446744073709551615");
}

#[test]
fn chunks_reassemble_to_the_blob() {
    let blob: String = (0..2500).map(|i| char::from(b'a' + (i % 26) as u8)).collect();
    let pieces = chunk_text(&blob, 1000);
    assert_eq!(pieces.len(), 3);
    assert_eq!(pieces[0].chars().count(), 1000);
    assert_eq!(pieces[1].chars().count(), 1000);
    assert_eq!(pieces[2].chars().count(), 500);
    assert_eq!(pieces.concat(), blob);
}

#[test]
fn chunks_of_exact_multiple_and_empty() {
    assert_eq!(chunk_text("abcdef", 3), vec!["abc".to_string(), "def".to_string()]);
    assert!(chunk_text("", 3).is_empty());
    assert_eq!(chunk_text("ab", 3), vec!["ab".to_string()]);
}

#[test]
fn chunks_respect_multibyte_characters() {
    let pieces = chunk_text("äöüß€", 2);
    assert_eq!(pieces, vec!["äö".to_string(), "üß".to_string(), "€".to_string()]);
}

#[test]
fn chunk_fields_are_numbered_from_one() {
    let fields = chunk_fields("Meta/blob", "abcdefg", 3);
    assert_eq!(fields.len(), 3);
    assert_eq!(fields[0].name, "Meta/blob (1)");
    assert_eq!(fields[1].name, "Meta/blob (2)");
    assert_eq!(fields[2].name, "Meta/blob (3)");
    let joined: String = fields.iter().map(|f| f.value.as_str()).collect();
    assert_eq!(joined, "abcdefg");
    assert!(fields.iter().all(|f| !f.inline));
}

#[test]
fn level_tables() {
    assert_eq!(Level::Trace.as_emoji(), ":mag:");
    assert_eq!(Level::Debug.as_emoji(), ":bug:");
    assert_eq!(Level::Info.as_emoji(), ":information_source:");
    assert_eq!(Level::Warn.as_emoji(), ":warning:");
    assert_eq!(Level::Error.as_emoji(), ":x:");
    assert_eq!(Level::Trace.as_color(), 0x1abc9c);
    assert_eq!(Level::Debug.as_color(), 0x1abc9c);
    assert_eq!(Level::Info.as_color(), 0x57f287);
    assert_eq!(Level::Warn.as_color(), 0xe67e22);
    assert_eq!(Level::Error.as_color(), 0xed4245);
    assert_eq!(Level::Warn.as_str(), "WARN");
}

#[test]
fn level_parse_and_order() {
    assert_eq!(Level::parse("warn"), Some(Level::Warn));
    assert_eq!(Level::parse("ERROR"), Some(Level::Error));
    assert_eq!(Level::parse("Info"), Some(Level::Info));
    assert_eq!(Level::parse("warning"), None);
    assert_eq!(Level::parse(""), None);
    assert!(Level::Error.is_at_least(Level::Warn));
    assert!(Level::Warn.is_at_least(Level::Warn));
    assert!(!Level::Info.is_at_least(Level::Warn));
}
