//! Tests of the small data types around the decoder: prompts, avatars,
//! entities, resources, provider and state codes, and the HTTP error value.

use opla::data::{Avatar, Entity, Resource};
use opla::http::HttpResponseError;
use opla::prompt::{ParsedPrompt, PromptToken, PromptTokenState, PromptTokenType};
use opla::store::{Empty, GlobalAppState, ProviderType, WindowSettings};

#[test]
fn parsed_prompt_wraps_the_raw_string() {
    let p = ParsedPrompt::from_str("hello @model");
    assert_eq!(p.raw, "hello @model");
    assert_eq!(p.text, "hello @model");
    assert_eq!(p.caret_position, 0);
    assert_eq!(p.current_token_index, 0);
    assert!(p.tokens.is_empty());
    assert!(!p.locked);
    assert!(p.token_count.is_none());
}

#[test]
fn prompt_token_keeps_its_parts() {
    let t = PromptToken::new(
        PromptTokenType::Mention,
        String::from("@gpt"),
        4,
        Some(PromptTokenState::Valid),
        true,
    );
    assert_eq!(t.kind, PromptTokenType::Mention);
    assert_eq!(t.value, "@gpt");
    assert_eq!(t.index, 4);
    assert_eq!(t.state, Some(PromptTokenState::Valid));
    assert!(t.block_other_commands);
}

#[test]
fn avatar_from_url_string() {
    let a = Avatar::from_str("https://example.org/a.png");
    assert_eq!(a.url, "https://example.org/a.png");
    assert!(a.name.is_none());
    assert!(a.color.is_none());
}

#[test]
fn avatar_from_plain_name() {
    let a = Avatar::from_str("robot");
    assert_eq!(a.url, "");
    assert_eq!(a.name.as_deref(), Some("robot"));
    assert!(a.color.is_none());
}

#[test]
fn avatar_prefix_needs_four_characters() {
    let a = Avatar::from_str("htt");
    assert_eq!(a.url, "");
    assert_eq!(a.name.as_deref(), Some("htt"));
}

#[test]
fn entity_from_str_is_just_a_name() {
    let e = Entity::from_str("Ada");
    assert_eq!(e.name, "Ada");
    assert!(e.email.is_none());
    assert!(e.url.is_none());
}

#[test]
fn resource_from_str_is_just_a_url() {
    let r = Resource::from_str("file:///tmp/model.gguf");
    assert_eq!(r.url, "file:///tmp/model.gguf");
    assert!(r.name.is_none());
}

#[test]
fn provider_type_labels() {
    assert_eq!(ProviderType::Opla.label(), "opla");
    assert_eq!(ProviderType::Server.label(), "server");
    assert_eq!(ProviderType::Api.label(), "api");
    assert_eq!(ProviderType::Proxy.label(), "proxy");
}

#[test]
fn global_app_state_codes_round_trip() {
    let states = [
        GlobalAppState::ACTIVE,
        GlobalAppState::WORKSPACE,
        GlobalAppState::ERROR,
        GlobalAppState::PROJECT,
        GlobalAppState::CONVERSATIONS,
        GlobalAppState::DELETECONVERSATION,
        GlobalAppState::ARCHIVES,
    ];
    for s in states {
        assert_eq!(GlobalAppState::from(s.code()), s);
    }
    assert_eq!(GlobalAppState::from(0u32).code(), 0);
    assert_eq!(GlobalAppState::from(7u32), GlobalAppState::ERROR);
    assert_eq!(GlobalAppState::from(1000u32), GlobalAppState::ERROR);
}

#[test]
fn window_settings_and_empty_are_plain_data() {
    let w = WindowSettings { width: 800, height: 600, fullscreen: false };
    assert_eq!(w, WindowSettings { width: 800, height: 600, fullscreen: false });
    assert_eq!(Empty {}, Empty {});
}

#[test]
fn http_response_error_reports_its_message() {
    let e = HttpResponseError::new("connection refused", "http_error");
    assert_eq!(e.message, "connection refused");
    assert_eq!(e.kind, "http_error");
    assert_eq!(e.to_error_string(), "connection refused");
}
