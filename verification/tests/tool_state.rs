//! Shared tool state, palettes, and theme selection.

use llm_repl::decode::WireFormat;
use llm_repl::provider::{Provider, ProviderError, ProviderRegistry};
use llm_repl::render::{get_default_palette, get_nord_palette, get_theme_palette};
use llm_repl::state::{AppState, HistoryContentType, HistoryEntry, MarkdownMode, RenderTheme};
use llm_repl::theme::{theme_from_name, theme_to_index, SelectableTheme};

fn registry_with_defaults() -> ProviderRegistry {
    let mut reg = ProviderRegistry::new();
    reg.register(Provider::new(
        b"ollama".to_vec(),
        WireFormat::NewlineJson,
        b"http://localhost:11434".to_vec(),
        None,
        false,
    ));
    reg.register(Provider::new(
        b"groq".to_vec(),
        WireFormat::Sse,
        b"https://api.groq.com/openai/v1/".to_vec(),
        None,
        true,
    ));
    reg
}

#[test]
fn defaults_and_model_trimming() {
    let mut st = AppState::new(registry_with_defaults());
    assert_eq!(st.get_provider_name(), &b"ollama".to_vec());
    assert_eq!(st.get_model(), &b"llama3:latest".to_vec());
    st.set_model(&b"  phi3 \n".to_vec());
    assert_eq!(st.get_model(), &b"phi3".to_vec());
}

#[test]
fn provider_switching() {
    let mut st = AppState::new(registry_with_defaults());
    assert!(matches!(
        st.set_provider(&b"nonesuch".to_vec()),
        Err(ProviderError::UnknownProvider(_))
    ));
    // Matched case-insensitively and trimmed, but refused while not ready.
    assert!(matches!(st.set_provider(&b" GROQ ".to_vec()), Err(ProviderError::NotReady)));
    assert_eq!(st.get_provider_name(), &b"ollama".to_vec());
    assert!(st.set_provider(&b"Ollama".to_vec()).is_ok());
    assert_eq!(st.get_provider_name(), &b"ollama".to_vec());
    assert!(st.get_current_provider().is_some());
}

#[test]
fn modes_theme_and_history() {
    let mut st = AppState::new(registry_with_defaults());
    assert_eq!(st.get_markdown_mode(), MarkdownMode::AppendFormatted);
    st.set_markdown_mode(MarkdownMode::Off);
    assert_eq!(st.get_markdown_mode(), MarkdownMode::Off);
    assert_eq!(st.get_theme(), RenderTheme::Nord);
    st.set_theme(RenderTheme::Grayscale);
    assert_eq!(st.get_theme(), RenderTheme::Grayscale);
    assert!(st.get_history().is_empty());
    st.add_history_entry(HistoryEntry {
        entry_type: HistoryContentType::UserQuery,
        content: String::from("hello"),
    });
    st.add_history_entry(HistoryEntry {
        entry_type: HistoryContentType::LlmResponse { model: String::from("m") },
        content: String::from("world"),
    });
    let h = st.get_history();
    assert_eq!(h.len(), 2);
    assert_eq!(h[0].content, "hello");
    assert_eq!(h[1].content, "world");
}

#[test]
fn palettes_hold_their_colours() {
    let nord = get_nord_palette();
    assert_eq!(nord.error, (191, 97, 106));
    assert_eq!(nord.success, (163, 190, 140));
    assert_eq!(nord.prompt_provider, (129, 161, 193));
    let plain = get_default_palette();
    assert_eq!(plain.error, (200, 0, 0));
    assert_eq!(plain.command_output_raw, (220, 220, 220));
}

#[test]
fn theme_palette_dispatch() {
    assert_eq!(get_theme_palette(RenderTheme::Nord).info, (76, 86, 106));
    assert_eq!(get_theme_palette(RenderTheme::Default).info, (128, 128, 128));
    assert_eq!(get_theme_palette(RenderTheme::Gruvbox).info, (128, 128, 128));
    assert_eq!(get_theme_palette(RenderTheme::Grayscale).info, (128, 128, 128));
}

#[test]
fn model_validated_against_catalog() {
    let mut st = AppState::new(registry_with_defaults());
    let available = vec![b"llama3:latest".to_vec(), b"phi3".to_vec()];
    assert!(st.set_model_validated(&b" phi3 ".to_vec(), &available));
    assert_eq!(st.get_model(), &b"phi3".to_vec());
    assert!(!st.set_model_validated(&b"nonesuch".to_vec(), &available));
    assert_eq!(st.get_model(), &b"phi3".to_vec());
}

#[test]
fn theme_names_parse() {
    assert_eq!(theme_from_name(&b"default".to_vec()), Some(RenderTheme::Default));
    assert_eq!(theme_from_name(&b"nord".to_vec()), Some(RenderTheme::Nord));
    assert_eq!(theme_from_name(&b"gruvbox".to_vec()), Some(RenderTheme::Gruvbox));
    assert_eq!(theme_from_name(&b"grayscale".to_vec()), Some(RenderTheme::Grayscale));
    assert_eq!(theme_from_name(&b"neon".to_vec()), None);
    assert_eq!(theme_from_name(&b"".to_vec()), None);
}

#[test]
fn theme_menu_round_trip() {
    assert_eq!(theme_to_index(RenderTheme::Default), 0);
    assert_eq!(theme_to_index(RenderTheme::Nord), 1);
    assert_eq!(theme_to_index(RenderTheme::Gruvbox), 2);
    assert_eq!(theme_to_index(RenderTheme::Grayscale), 3);
    assert_eq!(RenderTheme::from(SelectableTheme::Default), RenderTheme::Default);
    assert_eq!(RenderTheme::from(SelectableTheme::Nord), RenderTheme::Nord);
    assert_eq!(RenderTheme::from(SelectableTheme::Gruvbox), RenderTheme::Gruvbox);
    assert_eq!(RenderTheme::from(SelectableTheme::Grayscale), RenderTheme::Grayscale);
}
