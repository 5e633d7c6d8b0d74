//! The shared UI state operations, and the click-stream parser fed the
//! protocol's framing.

use yaib::bar::Click;
use yaib::input::{dispatch_click, ClickParser};
use yaib::state::State;
use yaib::{NAME_PAGE_DOWN, NAME_PAGE_UP};

fn click(name: &str) -> Click {
    Click {
        name: name.to_string(),
        instance: None,
        x: 0,
        y: 0,
        button: 1,
        relative_x: 0,
        relative_y: 0,
        output_x: 0,
        output_y: 0,
        width: 0,
        height: 0,
        modifiers: Vec::new(),
    }
}

#[test]
fn toggle_expanded_twice_restores_membership() {
    let mut state = State::default();
    state.toggle_expanded("a".to_string());
    state.toggle_expanded("b".to_string());
    assert!(state.opened.contains(&"a".to_string()));
    state.toggle_expanded("a".to_string());
    assert!(!state.opened.contains(&"a".to_string()));
    state.toggle_expanded("a".to_string());
    assert!(state.opened.contains(&"a".to_string()));
    assert!(state.opened.contains(&"b".to_string()));
    assert_eq!(state.opened.len(), 2);
}

#[test]
fn page_stays_inside_bounds() {
    let mut state = State::default();
    state.retreat_page();
    assert_eq!(state.page, 0);
    state.advance_page(3);
    assert_eq!(state.page, 1);
    state.advance_page(3);
    assert_eq!(state.page, 2);
    state.advance_page(3);
    assert_eq!(state.page, 2);
    state.retreat_page();
    assert_eq!(state.page, 1);
}

#[test]
fn parser_dispatches_two_records_in_order() {
    let mut parser = ClickParser::new();
    let mut state = State::default();
    let mut order: Vec<String> = Vec::new();
    let chunks: Vec<&[u8]> = vec![b"[\n", b"{\"name\":\"a\"},\n", b"{\"name\":\"b\"},\n"];
    for chunk in chunks {
        if let Some(body) = parser.feed(chunk) {
            if let Ok(v) = serde_json::from_slice::<serde_json::Value>(&body) {
                let name = v["name"].as_str().unwrap().to_string();
                order.push(name.clone());
                parser.consume();
                dispatch_click(&mut state, &click(&name), 1);
            }
        }
    }
    assert_eq!(order, vec!["a".to_string(), "b".to_string()]);
    assert_eq!(parser.buffered(), 0);
    assert!(state.opened.contains(&"a".to_string()));
    assert!(state.opened.contains(&"b".to_string()));
}

#[test]
fn parser_accepts_leading_comma_framing() {
    let mut parser = ClickParser::new();
    let mut seen: Vec<String> = Vec::new();
    let chunks: Vec<&[u8]> = vec![b"[\n", b"{\"name\":\"a\"}\n", b",{\"name\":\"b\"}\n"];
    for chunk in chunks {
        if let Some(body) = parser.feed(chunk) {
            if let Ok(v) = serde_json::from_slice::<serde_json::Value>(&body) {
                seen.push(v["name"].as_str().unwrap().to_string());
                parser.consume();
            }
        }
    }
    assert_eq!(seen, vec!["a".to_string(), "b".to_string()]);
}

#[test]
fn parser_keeps_buffering_on_partial_or_garbled_input() {
    let mut parser = ClickParser::new();
    assert!(parser.feed(b"[\n").is_none());
    assert!(parser.feed(b"{\"na").is_none());
    let body = parser.feed(b"me\":\"c\"},\n").unwrap();
    assert!(serde_json::from_slice::<serde_json::Value>(&body).is_ok());
    parser.consume();

    let garbled = parser.feed(b"&!,\n").unwrap();
    assert!(serde_json::from_slice::<serde_json::Value>(&garbled).is_err());
    assert!(parser.buffered() > 0);
}

#[test]
fn sentinel_names_page_and_others_toggle() {
    let mut state = State::default();
    dispatch_click(&mut state, &click(NAME_PAGE_UP), 3);
    assert_eq!(state.page, 1);
    dispatch_click(&mut state, &click(NAME_PAGE_DOWN), 3);
    assert_eq!(state.page, 0);
    dispatch_click(&mut state, &click("music"), 3);
    assert!(state.opened.contains(&"music".to_string()));
    assert_eq!(state.page, 0);
}
