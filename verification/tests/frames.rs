//! The aggregator's dedup and rate limit, pagination affordances, and the
//! frame writer's serialization.

use yaib::bar::{Bar, Block, Header};
use yaib::collectors::{Collection, CommandItem};
use yaib::config::{Config, ConfigItem, ConfigPage, ModuleType};
use yaib::json::{protocol_opening, render_frame};
use yaib::state::State;

fn item(name: &str) -> ConfigItem {
    ConfigItem {
        name: name.to_string(),
        typ: ModuleType::Static,
        value: Some(name.to_string()),
        format: None,
        urgency: None,
        urgency_colors: None,
        icon: None,
    }
}

fn one_page_config(names: &[&str]) -> Config {
    let items: Vec<ConfigItem> = names.iter().map(|n| item(n)).collect();
    Config::new(vec![ConfigPage::new(items)], Some(1000))
}

fn named_block(name: &str, text: &str) -> Block {
    let mut b = Block::default();
    b.name = Some(name.to_string());
    b.full_text = text.to_string();
    b
}

#[test]
fn identical_frames_are_not_emitted_twice() {
    let mut bar = Bar::new();
    let ui = State::default();
    let cfg = one_page_config(&["a"]);
    let b = named_block("a", "hello");

    let first = bar.handle_block("a".to_string(), b.clone(), &ui, &cfg, 0);
    assert!(first.is_some());
    assert_eq!(first.unwrap(), vec![b.clone()]);

    let again = bar.handle_block("a".to_string(), b.clone(), &ui, &cfg, 2000);
    assert!(again.is_none());

    let changed = bar.handle_block("a".to_string(), named_block("a", "new"), &ui, &cfg, 4000);
    assert!(changed.is_some());
}

#[test]
fn no_frame_sooner_than_the_interval_except_the_first() {
    let mut bar = Bar::new();
    let ui = State::default();
    let cfg = one_page_config(&["a"]);

    let first = bar.handle_block("a".to_string(), named_block("a", "one"), &ui, &cfg, 5);
    assert!(first.is_some(), "the first frame may be emitted immediately");

    let too_soon = bar.handle_block("a".to_string(), named_block("a", "two"), &ui, &cfg, 500);
    assert!(too_soon.is_none());

    let due = bar.handle_block("a".to_string(), named_block("a", "two"), &ui, &cfg, 1005);
    assert!(due.is_some());
}

#[test]
fn frame_follows_page_order_and_skips_missing_items() {
    let mut bar = Bar::new();
    let ui = State::default();
    let cfg = one_page_config(&["a", "b", "c"]);
    bar.handle_block("c".to_string(), named_block("c", "C"), &ui, &cfg, 0);
    let out = bar.handle_block("a".to_string(), named_block("a", "A"), &ui, &cfg, 2000);
    let frame = out.unwrap();
    let names: Vec<&str> = frame.iter().map(|b| b.name.as_deref().unwrap()).collect();
    assert_eq!(names, vec!["a", "c"]);
}

#[test]
fn pagination_blocks_follow_the_page() {
    let mut bar = Bar::new();
    let mut ui = State::default();
    let pages = vec![
        ConfigPage::new(vec![item("a")]),
        ConfigPage::new(vec![item("b")]),
    ];
    let cfg = Config::new(pages, None);
    bar.handle_block("a".to_string(), named_block("a", "A"), &ui, &cfg, 0);
    bar.handle_block("b".to_string(), named_block("b", "B"), &ui, &cfg, 2000);

    let first_page = bar.build_frame(&ui, &cfg);
    let names: Vec<&str> = first_page.iter().map(|b| b.name.as_deref().unwrap()).collect();
    assert_eq!(names, vec!["a", "yaib-page-up"]);
    assert_eq!(first_page[1].full_text, "▲");

    ui.advance_page(2);
    let second_page = bar.build_frame(&ui, &cfg);
    let names2: Vec<&str> = second_page.iter().map(|b| b.name.as_deref().unwrap()).collect();
    assert_eq!(names2, vec!["b", "yaib-page-down"]);
    assert_eq!(second_page[1].full_text, "▼");
}

#[test]
fn unknown_injected_name_is_not_rendered() {
    let mut bar = Bar::new();
    let ui = State::default();
    let cfg = one_page_config(&["a"]);
    let first = bar.handle_block("a".to_string(), named_block("a", "A"), &ui, &cfg, 0);
    assert!(first.is_some());

    let injected = Collection::from_command(CommandItem {
        name: "stranger".to_string(),
        value: "v".to_string(),
        percent: None,
    });
    let block = injected.to_block(&ui, 1);
    let out = bar.handle_block(injected.name(), block, &ui, &cfg, 2000);
    assert!(out.is_none(), "a name no page lists leaves the frame unchanged");
}

#[test]
fn malformed_injection_payload_parses_to_nothing() {
    let payload: &[u8] = b"{\"name\": not json";
    assert!(serde_json::from_slice::<serde_json::Value>(payload).is_err());
}

#[test]
fn frames_serialize_compactly_with_continuation() {
    assert_eq!(render_frame(&Vec::new()), "[],\n");

    let one = vec![named_block("a", "hi")];
    assert_eq!(render_frame(&one), "[{\"full_text\":\"hi\",\"name\":\"a\"}],\n");

    let mut b = named_block("a", "x");
    b.urgent = Some(true);
    b.separator = Some(false);
    b.separator_block_width = Some(9);
    b.color = Some("#ff0000".to_string());
    let two = vec![named_block("t", "1"), b];
    assert_eq!(
        render_frame(&two),
        "[{\"full_text\":\"1\",\"name\":\"t\"},{\"full_text\":\"x\",\"color\":\"#ff0000\",\"name\":\"a\",\"urgent\":true,\"separator\":false,\"separator_block_width\":9}],\n"
    );
}

#[test]
fn string_contents_are_escaped() {
    let frame = vec![named_block("q", "a\"b\\c\nd\u{1}")];
    let line = render_frame(&frame);
    assert_eq!(
        line,
        "[{\"full_text\":\"a\\\"b\\\\c\\nd\\u0001\",\"name\":\"q\"}],\n"
    );
    let parsed: serde_json::Value = serde_json::from_str(line.trim_end_matches(",\n")).unwrap();
    assert_eq!(parsed[0]["full_text"].as_str().unwrap(), "a\"b\\c\nd\u{1}");
}

#[test]
fn protocol_opening_matches_the_bar_protocol() {
    let h = Header::new(1, None, None, Some(true));
    assert_eq!(
        protocol_opening(&h),
        "{\"version\":1,\"click_events\":true}\n[\n"
    );
}
