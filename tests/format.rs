use tracing_layer_discord::{
    format_event, EventRecord, Field, FieldValue, FilterChain, FilterRule, Level, MessagePayload,
    PayloadMessageType, Polarity, SpanContext,
};

fn text(key: &str, v: &str) -> Field {
    Field { key: key.to_string(), value: FieldValue::Text(v.to_string()) }
}

fn json(key: &str, v: &str) -> Field {
    Field { key: key.to_string(), value: FieldValue::Json(v.to_string()) }
}

fn event(level: Level, fields: Vec<Field>) -> EventRecord {
    EventRecord {
        target: "my_app::db".to_string(),
        level,
        fields,
        file: Some("src/db.rs".to_string()),
        line: Some(42),
        span: None,
    }
}

fn rule(pattern: &str, polarity: Polarity) -> Option<FilterRule> {
    Some(FilterRule { pattern: pattern.to_string(), polarity })
}

#[test]
fn info_event_below_warn_threshold_is_dropped() {
    let chain = FilterChain::new().with_level("warn").unwrap();
    let ev = event(Level::Info, vec![text("message", "hello")]);
    assert!(!chain.accepts(&ev));
    assert!(format_event(&chain, &ev, "app", "https://hook").is_none());
    let ev = event(Level::Error, vec![text("message", "boom")]);
    assert!(format_event(&chain, &ev, "app", "https://hook").is_some());
}

#[test]
fn unknown_threshold_name_is_refused() {
    assert!(FilterChain::new().with_level("loud").is_none());
}

#[test]
fn empty_chain_accepts_everything() {
    let chain = FilterChain::new();
    assert!(chain.accepts(&event(Level::Trace, vec![])));
    assert!(chain.accepts(&event(Level::Error, vec![json("n", "1")])));
}

#[test]
fn target_rules_by_polarity() {
    let mut chain = FilterChain::new();
    chain.target = rule("db", Polarity::Subtractive);
    assert!(chain.accepts(&event(Level::Info, vec![])));
    chain.target = rule("http", Polarity::Subtractive);
    assert!(!chain.accepts(&event(Level::Info, vec![])));
    chain.target = rule("db", Polarity::Additive);
    assert!(!chain.accepts(&event(Level::Info, vec![])));
    chain.target = rule("http", Polarity::Additive);
    assert!(chain.accepts(&event(Level::Info, vec![])));
}

#[test]
fn message_rule_reads_heading() {
    let mut chain = FilterChain::new();
    chain.message = rule("secret", Polarity::Additive);
    assert!(!chain.accepts(&event(Level::Info, vec![text("message", "a secret thing")])));
    assert!(chain.accepts(&event(Level::Info, vec![text("message", "public")])));
    assert!(!chain.accepts(&event(Level::Info, vec![text("error", "secret error")])));
}

#[test]
fn one_field_key_rejects_the_event() {
    let mut chain = FilterChain::new();
    chain.field = rule("password", Polarity::Additive);
    let ev = event(Level::Info, vec![text("user", "bob"), text("password", "x")]);
    assert!(!chain.accepts(&ev));
    let ev = event(Level::Info, vec![text("user", "bob")]);
    assert!(chain.accepts(&ev));
}

#[test]
fn formatted_embed_has_all_parts() {
    let chain = FilterChain::new();
    let mut ev = event(Level::Warn, vec![text("message", "disk low"), json("free", "12"), text("mount", "/")]);
    ev.span = Some(SpanContext { name: "request".to_string(), fields: vec![json("id", "7")] });
    let p = format_event(&chain, &ev, "svc", "https://hook/1").unwrap();
    assert_eq!(p.webhook_url(), "https://hook/1");
    assert!(p.content.is_none());
    let embeds = p.embeds.unwrap();
    assert_eq!(embeds.len(), 1);
    let e = &embeds[0];
    assert_eq!(e.title, ":warning: WARN (svc)");
    assert_eq!(e.description, "disk low");
    assert_eq!(e.footer, "svc");
    assert_eq!(e.color, 0xe67e22);
    assert!(e.thumbnail.is_none());
    let names: Vec<&str> = e.fields.iter().map(|f| f.name.as_str()).collect();
    assert_eq!(names, vec!["Target Span", "Source", "Meta/free", "Meta/mount", "SpanExt/id"]);
    assert_eq!(e.fields[0].value, "`my_app::db::request`");
    assert_eq!(e.fields[1].value, "`src/db.rs#L42`");
    assert_eq!(e.fields[2].value, "`12`");
    assert_eq!(e.fields[3].value, "`\"/\"`");
    assert_eq!(e.fields[4].value, "`7`");
    assert!(e.fields.iter().all(|f| f.inline));
}

#[test]
fn missing_source_and_heading_use_fallbacks() {
    let chain = FilterChain::new();
    let mut ev = event(Level::Debug, vec![json("message", "3")]);
    ev.file = None;
    ev.line = None;
    let p = format_event(&chain, &ev, "svc", "u").unwrap();
    let e = &p.embeds.unwrap()[0];
    assert_eq!(e.description, "No message");
    assert_eq!(e.fields[0].value, "`my_app::db::`");
    assert_eq!(e.fields[1].value, "`Unknown#L0`");
    assert_eq!(e.fields[2].name, "Meta/message");
}

#[test]
fn error_field_is_the_fallback_heading() {
    let chain = FilterChain::new();
    let ev = event(Level::Error, vec![text("error", "refused"), text("peer", "a\"b")]);
    let p = format_event(&chain, &ev, "svc", "u").unwrap();
    let e = &p.embeds.unwrap()[0];
    assert_eq!(e.description, "refused");
    assert_eq!(e.fields.len(), 3);
    assert_eq!(e.fields[2].name, "Meta/peer");
    assert_eq!(e.fields[2].value, "`\"a\\\"b\"`");
}

#[test]
fn long_message_gives_capped_description() {
    let chain = FilterChain::new();
    let ev = event(Level::Error, vec![text("message", &"x".repeat(2100))]);
    let p = format_event(&chain, &ev, "svc", "u").unwrap();
    let d = &p.embeds.unwrap()[0].description;
    assert_eq!(d.chars().count(), 2048);
    assert!(d.ends_with('…'));
}

#[test]
fn long_field_value_is_capped() {
    let chain = FilterChain::new();
    let ev = event(Level::Info, vec![json("blob", &"y".repeat(5000))]);
    let p = format_event(&chain, &ev, "svc", "u").unwrap();
    let v = &p.embeds.unwrap()[0].fields[2].value;
    assert_eq!(v.chars().count(), 1024);
    assert!(v.ends_with("…`"));
}

#[test]
fn excluded_field_keys_are_left_out() {
    let mut chain = FilterChain::new();
    chain.field_exclusion = Some("token".to_string());
    let mut ev = event(Level::Info, vec![text("api_token", "s"), json("n", "1")]);
    ev.span = Some(SpanContext { name: "s".to_string(), fields: vec![text("token", "t"), json("k", "2")] });
    let p = format_event(&chain, &ev, "svc", "u").unwrap();
    let names: Vec<String> = p.embeds.unwrap()[0].fields.iter().map(|f| f.name.clone()).collect();
    assert_eq!(names, vec!["Target Span", "Source", "Meta/n", "SpanExt/k"]);
}

#[test]
fn payload_kinds() {
    let p = MessagePayload::new(PayloadMessageType::TextNoEmbed("hi".to_string()), "u".to_string());
    assert_eq!(p.content.as_deref(), Some("hi"));
    assert!(p.embeds.is_none());
    assert_eq!(p.webhook_url(), "u");
    let p = MessagePayload::new(PayloadMessageType::TextWithEmbed("hi".to_string(), vec![]), "u".to_string());
    assert!(p.content.is_some() && p.embeds.is_some());
    let p = MessagePayload::new(PayloadMessageType::EmbedNoText(vec![]), "v".to_string());
    assert!(p.content.is_none() && p.embeds.is_some());
    assert_eq!(p.webhook_url(), "v");
}
