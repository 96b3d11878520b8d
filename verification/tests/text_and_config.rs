use emitter::config::{
    default_buffer_size, default_flush_interval_ms, default_run_duration_secs,
    default_embedding_dimensions, default_embedding_model, default_message_pool_size, default_sinks,
    EmbeddingConfig, IndexMode, SinkConfig,
};
use emitter::log_entry::LogLevel;
use emitter::text::{decimal_string, join};

#[test]
fn decimal_renders_like_format() {
    for n in [0u64, 7, 10, 42, 1536, 5432, 10_000, u64::MAX] {
        assert_eq!(decimal_string(n), format!("{}", n));
    }
}

#[test]
fn join_places_separator_between_parts() {
    let parts = vec!["a".to_string(), "bc".to_string(), "".to_string(), "d".to_string()];
    assert_eq!(join(&parts, ", "), "a, bc, , d");
    assert_eq!(join(&vec![], ", "), "");
    assert_eq!(join(&vec!["only".to_string()], "-"), "only");
}

#[test]
fn level_names() {
    let levels = [LogLevel::Debug, LogLevel::Info, LogLevel::Warn, LogLevel::Error];
    let display: Vec<&str> = levels.iter().map(|l| l.as_str()).collect();
    let debug: Vec<&str> = levels.iter().map(|l| l.debug_name()).collect();
    assert_eq!(display, vec!["DEBUG", "INFO", "WARN", "ERROR"]);
    assert_eq!(debug, vec!["Debug", "Info", "Warn", "Error"]);
    for (l, d) in levels.iter().zip(debug.iter()) {
        assert_eq!(format!("{:?}", l), *d);
    }
    let idx: Vec<usize> = levels.iter().map(|l| l.index()).collect();
    assert_eq!(idx, vec![0, 1, 2, 3]);
}

#[test]
fn embedding_defaults() {
    assert_eq!(default_message_pool_size(), 10_000);
    assert_eq!(default_embedding_model(), "text-embedding-3-small");
    assert_eq!(default_embedding_dimensions(), 1536);
    let c = EmbeddingConfig::with_api_key("k".to_string());
    assert_eq!(c.api_key, "k");
    assert_eq!(c.model, "text-embedding-3-small");
    assert_eq!(c.dimensions, 1536);
}

#[test]
fn index_modes() {
    assert!(IndexMode::Vector.needs_embeddings());
    assert!(!IndexMode::Vector.needs_keyword_index());
    assert!(!IndexMode::Keyword.needs_embeddings());
    assert!(IndexMode::Keyword.needs_keyword_index());
    assert!(IndexMode::Hybrid.needs_embeddings());
    assert!(IndexMode::Hybrid.needs_keyword_index());
    assert_eq!(IndexMode::default(), IndexMode::Vector);
}

#[test]
fn default_sinks_are_stdout_only() {
    let sinks = default_sinks();
    assert_eq!(sinks.len(), 1);
    assert!(matches!(sinks[0], SinkConfig::Stdout {}));
}

#[test]
fn run_defaults() {
    assert_eq!(default_buffer_size(), 1000);
    assert_eq!(default_flush_interval_ms(), 5000);
    assert_eq!(default_run_duration_secs(), 30);
}
