//! Rendering: per-kind templates, percentage formatting, urgency coloring,
//! the icon/expand rule, and the human-readable byte formatter.

use yaib::collectors::{Collection, CollectionType, CommandItem};
use yaib::config::{ConfigItem, ModuleType};
use yaib::state::State;
use yaib::text::human_bytes_chars;

fn plain_item(name: &str, typ: ModuleType) -> ConfigItem {
    ConfigItem {
        name: name.to_string(),
        typ,
        value: None,
        format: None,
        urgency: None,
        urgency_colors: None,
        icon: None,
    }
}

fn chars(v: Vec<char>) -> String {
    v.into_iter().collect()
}

#[test]
fn cpu_default_template_two_decimals() {
    let item = plain_item("cpu", ModuleType::CPU);
    let usage = 12.345f64;
    let reading = CollectionType::CPU {
        count: 4,
        usage_centi: (usage * 100.0).floor() as u64,
    };
    let c = Collection::new(item, reading).unwrap();
    let block = c.to_block(&State::default(), 4);
    assert_eq!(block.full_text, "cpus: 4, usage: 12.34");
    assert_eq!(block.name.as_deref(), Some("cpu"));
    assert_eq!(block.color, None);
}

#[test]
fn memory_pct_token_one_decimal() {
    let mut item = plain_item("mem", ModuleType::Memory);
    item.format = Some("%pct".to_string());
    let reading = CollectionType::Memory {
        total: 1000000000,
        usage: 500000000,
        swap_total: 1,
        swap_usage: 0,
    };
    let c = Collection::new(item, reading).unwrap();
    let block = c.to_block(&State::default(), 1);
    assert_eq!(block.full_text, "50.0");
}

#[test]
fn memory_swap_tokens_do_not_collide() {
    let mut item = plain_item("mem", ModuleType::Memory);
    item.format = Some("%pct_swap/%pct".to_string());
    let reading = CollectionType::Memory {
        total: 1000,
        usage: 250,
        swap_total: 400,
        swap_usage: 100,
    };
    let c = Collection::new(item, reading).unwrap();
    let block = c.to_block(&State::default(), 1);
    assert_eq!(block.full_text, "25.0/25.0");
}

#[test]
fn memory_default_template_human_bytes() {
    let item = plain_item("mem", ModuleType::Memory);
    let reading = CollectionType::Memory {
        total: 1000000000,
        usage: 500000000,
        swap_total: 1,
        swap_usage: 0,
    };
    let c = Collection::new(item, reading).unwrap();
    let block = c.to_block(&State::default(), 1);
    assert_eq!(block.full_text, "total: 1 GB, usage: 500 MB");
}

#[test]
fn urgency_band_is_highest_threshold_strictly_exceeded() {
    let mut item = plain_item("cpu", ModuleType::CPU);
    item.urgency = Some((50, 75, 90));
    item.urgency_colors = Some(("c1".to_string(), "c2".to_string(), "c3".to_string()));
    let mk = |centi: u64| {
        let c = Collection::new(
            item.clone(),
            CollectionType::CPU { count: 1, usage_centi: centi },
        )
        .unwrap();
        c.to_block(&State::default(), 1).color
    };
    assert_eq!(mk(8000), Some("c2".to_string()));
    assert_eq!(mk(5000), None);
    assert_eq!(mk(9500), Some("c3".to_string()));
    assert_eq!(mk(7000), Some("c1".to_string()));
}

#[test]
fn icon_collapses_until_expanded() {
    let mut item = plain_item("net", ModuleType::CPU);
    item.icon = Some("X".to_string());
    item.urgency = Some((50, 75, 90));
    item.urgency_colors = Some(("c1".to_string(), "c2".to_string(), "c3".to_string()));
    let c = Collection::new(
        item,
        CollectionType::CPU { count: 2, usage_centi: 8000 },
    )
    .unwrap();
    let mut state = State::default();
    let collapsed = c.to_block(&state, 1);
    assert_eq!(collapsed.full_text, "X");
    assert_eq!(collapsed.color, Some("c2".to_string()));
    state.toggle_expanded("net".to_string());
    let expanded = c.to_block(&state, 1);
    assert_eq!(expanded.full_text, "cpus: 2, usage: 80.00");
}

#[test]
fn load_template_and_tokens() {
    let item = plain_item("load", ModuleType::Load);
    let c = Collection::new(item, CollectionType::Load(52, 100, 1550)).unwrap();
    let block = c.to_block(&State::default(), 8);
    assert_eq!(block.full_text, "0.52, 1, 15.5");

    let item2 = plain_item("load", ModuleType::Load);
    let c2 = Collection::new(item2, CollectionType::Load(50, 25, 150)).unwrap();
    assert_eq!(c2.to_block(&State::default(), 8).full_text, "0.5, 0.25, 1.5");
}

#[test]
fn music_template_and_time_token() {
    let mut item = plain_item("music", ModuleType::Music);
    item.format = Some("%artist - %title (%time, %pct_played)".to_string());
    let c = Collection::new(
        item,
        CollectionType::Music {
            artist: "Ab".to_string(),
            title: "Cd".to_string(),
            pct_played: 41,
            time_played: 605,
        },
    )
    .unwrap();
    let block = c.to_block(&State::default(), 1);
    assert_eq!(block.full_text, "Ab - Cd (10:05, 41)");
}

#[test]
fn static_and_command_text() {
    let mut item = plain_item("note", ModuleType::Static);
    item.value = Some("hello".to_string());
    let c = Collection::new(item, CollectionType::Static).unwrap();
    assert_eq!(c.to_block(&State::default(), 1).full_text, "hello");

    let injected = Collection::from_command(CommandItem {
        name: "ext".to_string(),
        value: "42 things".to_string(),
        percent: None,
    });
    let block = injected.to_block(&State::default(), 1);
    assert_eq!(block.full_text, "42 things");
    assert_eq!(block.name.as_deref(), Some("ext"));
}

#[test]
fn static_without_value_is_rejected() {
    let item = plain_item("bad", ModuleType::Static);
    assert!(Collection::new(item, CollectionType::Static).is_none());
}

#[test]
fn disk_with_zero_total_is_rejected() {
    let item = plain_item("disk", ModuleType::Disk);
    assert!(Collection::new(item, CollectionType::Disk { total: 0, usage: 0 }).is_none());
}

#[test]
fn time_rendering_matches_chrono() {
    let item = plain_item("clock", ModuleType::Time);
    let c = Collection::new(
        item,
        CollectionType::Time { secs: 0, offset_secs: 0 },
    )
    .unwrap();
    let block = c.to_block(&State::default(), 1);
    assert_eq!(block.full_text, "01/01 00:00");

    let mut item2 = plain_item("clock", ModuleType::Time);
    item2.format = Some("%Y-%m-%d %H:%M:%S".to_string());
    let c2 = Collection::new(
        item2,
        CollectionType::Time { secs: 1700000000, offset_secs: 3600 },
    )
    .unwrap();
    let expected = chrono::TimeZone::timestamp_opt(
        &chrono::FixedOffset::east_opt(3600).unwrap(),
        1700000000,
        0,
    )
    .unwrap()
    .format("%Y-%m-%d %H:%M:%S")
    .to_string();
    assert_eq!(c2.to_block(&State::default(), 1).full_text, expected);
}

#[test]
fn empty_token_inserts_at_every_boundary() {
    let f = yaib::formatter::Format::new(
        "ab".to_string(),
        vec![("".to_string(), "-".to_string())],
    );
    assert_eq!(f.format(), "ab".replace("", "-"));
    assert_eq!(f.format(), "-a-b-");
}

#[test]
fn format_applies_rules_in_order() {
    let f = yaib::formatter::Format::new(
        "%a and %a, then %b".to_string(),
        vec![
            ("%a".to_string(), "x".to_string()),
            ("%b".to_string(), "%a".to_string()),
        ],
    );
    assert_eq!(f.format(), "x and x, then %a");

    let untouched = yaib::formatter::Format::new("no tokens".to_string(), Vec::new());
    assert_eq!(untouched.format(), "no tokens");
}

#[test]
fn human_bytes_agrees_with_float_formatter() {
    for n in [
        0u64,
        5,
        999,
        1000,
        1200,
        1234567,
        999999999,
        1000000000,
        1200000000,
        500000000,
        1000000000000,
    ] {
        assert_eq!(
            chars(human_bytes_chars(n)),
            pretty_bytes::converter::convert(n as f64),
            "byte count {}",
            n
        );
    }
}
