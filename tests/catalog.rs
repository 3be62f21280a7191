use together_cli::catalog::{
    list_chat_models, parse_catalog, resolve_config, CatalogError, ConfigSource, DeclaredConfig,
};

const CATALOG: &str = r#"[
  {"name": "zeta", "display_type": "chat", "isFeaturedModel": true},
  {"name": "alpha", "display_type": "chat", "isFeaturedModel": true,
   "config": {"prompt_format": "<s>{prompt}</s>", "stop": ["STOP", "</s>"]}},
  {"name": "code", "display_type": "code", "isFeaturedModel": true},
  {"name": "beta", "display_type": "chat", "isFeaturedModel": false, "config": {}},
  {"name": "gamma", "display_type": "completion"},
  {"name": "bad", "display_type": "chat", "config": {"stop": ["ok", 3]}},
  {"name": "odd", "display_type": "chat", "isFeaturedModel": true, "config": {"prompt_format": 5, "stop": "x"}},
  42,
  {"display_type": "chat"}
]"#;

#[test]
fn entries_that_are_not_objects_are_skipped() {
    let ds = parse_catalog(CATALOG).ok().unwrap();
    let names: Vec<&str> = ds.iter().map(|d| d.name.as_str()).collect();
    assert_eq!(names, vec!["zeta", "alpha", "code", "beta", "gamma", "bad", "odd"]);
    assert!(matches!(ds[5].config, Some(DeclaredConfig::Malformed)));
    assert!(ds[0].config.is_none());
}

#[test]
fn listing_that_is_not_an_array_is_refused() {
    assert!(matches!(parse_catalog(r#"{"a": 1}"#), Err(CatalogError::Malformed)));
    assert!(matches!(parse_catalog("nonsense"), Err(CatalogError::Malformed)));
}

#[test]
fn list_models_gives_chat_names_sorted() {
    let body = r#"[
      {"name": "m-c", "display_type": "chat"},
      {"name": "m-x", "display_type": "completion"},
      {"name": "m-a", "display_type": "chat"},
      {"name": "m-b", "display_type": "completion"},
      {"name": "Z", "display_type": "chat"}
    ]"#;
    let ds = parse_catalog(body).ok().unwrap();
    assert_eq!(list_chat_models(&ds, false), vec!["Z", "m-a", "m-c"]);
}

#[test]
fn featured_filter_keeps_featured_chat_models() {
    let ds = parse_catalog(CATALOG).ok().unwrap();
    assert_eq!(list_chat_models(&ds, true), vec!["alpha", "odd", "zeta"]);
    assert_eq!(list_chat_models(&ds, false), vec!["alpha", "bad", "beta", "odd", "zeta"]);
}

#[test]
fn declared_config_is_used() {
    let r = resolve_config(parse_catalog(CATALOG), "alpha");
    assert_eq!(r.source, ConfigSource::Declared);
    assert_eq!(r.config.prompt, "<s>{prompt}</s>");
    assert_eq!(r.config.stop_words, vec!["STOP", "</s>"]);
    assert!(r.diagnostic.is_none());
}

#[test]
fn mistyped_fields_fall_back() {
    let r = resolve_config(parse_catalog(CATALOG), "odd");
    assert_eq!(r.source, ConfigSource::Declared);
    assert_eq!(r.config.prompt, "{prompt}");
    assert!(r.config.stop_words.is_empty());
}

#[test]
fn unknown_model_gets_defaults_and_one_warning() {
    let r = resolve_config(parse_catalog(CATALOG), "nowhere");
    assert_eq!(r.source, ConfigSource::NotFound);
    assert_eq!(r.config.prompt, "{prompt}");
    assert!(r.config.stop_words.is_empty());
    assert_eq!(r.diagnostic.unwrap(), "Warning: Could not find model nowhere.");
}

#[test]
fn model_without_config_gets_defaults() {
    let r = resolve_config(parse_catalog(CATALOG), "zeta");
    assert_eq!(r.source, ConfigSource::NoConfig);
    assert_eq!(r.config.prompt, "{prompt}");
    assert_eq!(r.diagnostic.unwrap(), "Warning: Could not find prompt_format in model config.");
}

#[test]
fn empty_config_object_is_declared_defaults() {
    let r = resolve_config(parse_catalog(CATALOG), "beta");
    assert_eq!(r.source, ConfigSource::Declared);
    assert_eq!(r.config.prompt, "{prompt}");
    assert!(r.config.stop_words.is_empty());
}

#[test]
fn non_string_stop_word_falls_back() {
    let r = resolve_config(parse_catalog(CATALOG), "bad");
    assert_eq!(r.source, ConfigSource::MalformedConfig);
    assert!(r.config.stop_words.is_empty());
    assert_eq!(r.diagnostic.unwrap(), "Warning: Could not read the config of model bad.");
}

#[test]
fn failed_fetch_gets_defaults() {
    let r = resolve_config(Err(CatalogError::Transport("connection refused".to_string())), "alpha");
    assert_eq!(r.source, ConfigSource::CatalogUnavailable);
    assert_eq!(r.config.prompt, "{prompt}");
    assert_eq!(r.diagnostic.unwrap(), "Error: connection refused");
    let r = resolve_config(parse_catalog("<html>"), "alpha");
    assert_eq!(r.diagnostic.unwrap(), "Error: the model listing is not a JSON array");
}
