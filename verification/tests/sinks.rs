use emitter::config::IndexMode;
use emitter::log_entry::{LogLevel, LogRecord};
use emitter::sink::dashboard::{summarize, DashboardConfig};
use emitter::sink::elasticsearch::{self, ElasticSearchConfig};
use emitter::sink::opensearch::{self, OpenSearchConfig};
use emitter::sink::pgvector::{self, PgvectorConfig};
use emitter::sink::qdrant::{self, collection_exists, payload_index_fields, QdrantConfig};
use emitter::sink::StdoutSink;
use serde_json::Value;

fn parse(text: &str) -> Value {
    serde_json::from_str(text).unwrap()
}

fn pg(mode: IndexMode) -> PgvectorConfig {
    PgvectorConfig {
        host: "db".to_string(),
        port: pgvector::default_port(),
        user: pgvector::default_user(),
        password: pgvector::default_password(),
        database: pgvector::default_database(),
        table_name: pgvector::default_table_name(),
        index_mode: mode,
    }
}

fn os(mode: IndexMode) -> OpenSearchConfig {
    OpenSearchConfig {
        url: "https://localhost:9200".to_string(),
        user: "admin".to_string(),
        password: "pw".to_string(),
        index_name: opensearch::default_index_name(),
        index_mode: mode,
        skip_cert: opensearch::default_skip_cert(),
    }
}

fn record(service: &str, level: LogLevel) -> LogRecord {
    LogRecord { id: "id".to_string(), service: service.to_string(), level, message: "m".to_string() }
}

#[test]
fn sink_defaults() {
    assert_eq!(elasticsearch::default_index_name(), "logs");
    assert_eq!(opensearch::default_index_name(), "logs");
    assert!(!opensearch::default_skip_cert());
    assert_eq!(pgvector::default_table_name(), "logs");
    assert_eq!(pgvector::default_port(), 5432);
    assert_eq!(pgvector::default_user(), "postgres");
    assert_eq!(pgvector::default_password(), "changeme");
    assert_eq!(pgvector::default_database(), "postgres");
    assert_eq!(qdrant::default_collection_name(), "logs");
    let d = DashboardConfig { port: 3000 };
    assert_eq!(d.port, 3000);
    let e = ElasticSearchConfig {
        url: "http://es:9200".to_string(),
        user: "u".to_string(),
        password: "p".to_string(),
        index_name: "i".to_string(),
    };
    assert_eq!(e.index_name, "i");
}

#[test]
fn pgvector_connection_url() {
    assert_eq!(pg(IndexMode::Vector).connection_url(), "postgres://postgres:changeme@db:5432/postgres");
}

#[test]
fn pgvector_setup_for_each_mode() {
    let hybrid = pg(IndexMode::Hybrid).setup_statements(1536);
    assert_eq!(
        hybrid,
        vec![
            "CREATE EXTENSION IF NOT EXISTS vector".to_string(),
            "CREATE TABLE IF NOT EXISTS logs (id TEXT PRIMARY KEY, timestamp TIMESTAMPTZ NOT NULL, service TEXT NOT NULL, level TEXT NOT NULL, message TEXT NOT NULL, message_tsv TSVECTOR GENERATED ALWAYS AS (to_tsvector('english', message)) STORED, embedding vector(1536))".to_string(),
            format!(
                r#"CREATE INDEX IF NOT EXISTS {table}_embedding_idx
                   ON {table} USING hnsw (embedding vector_cosine_ops)"#,
                table = "logs"
            ),
            format!(
                r#"CREATE INDEX IF NOT EXISTS {table}_message_idx
                   ON {table} USING GIN (message_tsv)"#,
                table = "logs"
            ),
        ]
    );
    let keyword = pg(IndexMode::Keyword).setup_statements(8);
    assert_eq!(keyword.len(), 2);
    assert!(keyword[0].starts_with("CREATE TABLE IF NOT EXISTS logs ("));
    assert!(!keyword[0].contains("embedding vector("));
    let vector = pg(IndexMode::Vector).setup_statements(8);
    assert_eq!(vector.len(), 3);
    assert!(vector[1].ends_with("message TEXT NOT NULL, embedding vector(8))"));
}

#[test]
fn pgvector_insert_statements() {
    let with = pg(IndexMode::Hybrid).insert_statement();
    assert_eq!(
        with,
        format!(
            r#"INSERT INTO {} (id, timestamp, service, level, message, embedding)
                   SELECT * FROM UNNEST($1::text[], $2::timestamptz[], $3::text[], $4::text[], $5::text[], $6::vector[])
                   ON CONFLICT (id) DO NOTHING"#,
            "logs"
        )
    );
    let without = pg(IndexMode::Keyword).insert_statement();
    assert!(without.starts_with("INSERT INTO logs (id, timestamp, service, level, message)\n"));
    assert!(pg(IndexMode::Vector).includes_vectors());
    assert!(!pg(IndexMode::Keyword).includes_vectors());
}

#[test]
fn elasticsearch_index_body() {
    let body: Value = serde_json::from_str(&elasticsearch::build_index_body(384)).unwrap();
    let expected = parse(r#"{
        "mappings": {
            "properties": {
                "timestamp": { "type": "date" },
                "service": { "type": "keyword" },
                "level": { "type": "keyword" },
                "message": { "type": "text" },
                "embedding": {
                    "type": "dense_vector",
                    "dims": 384,
                    "index": true,
                    "index_options": { "type": "hnsw" }
                }
            }
        }
    }"#);
    assert_eq!(body, expected);
    assert!(elasticsearch::index_to_create(384, true).is_none());
    assert_eq!(elasticsearch::index_to_create(384, false), Some(elasticsearch::build_index_body(384)));
}

#[test]
fn opensearch_index_body_follows_mode() {
    let hybrid: Value = serde_json::from_str(&opensearch::build_index_body(IndexMode::Hybrid, 1536)).unwrap();
    assert_eq!(hybrid["settings"], parse(r#"{"index": {"knn": true}}"#));
    assert_eq!(
        hybrid["mappings"]["properties"]["embedding"],
        parse(r#"{
            "type": "knn_vector",
            "dimension": 1536,
            "method": { "name": "hnsw", "space_type": "cosinesimil", "engine": "nmslib" }
        }"#)
    );
    let keyword: Value = serde_json::from_str(&opensearch::build_index_body(IndexMode::Keyword, 1536)).unwrap();
    let props = keyword["mappings"]["properties"].as_object().unwrap();
    assert_eq!(props.len(), 4);
    assert_eq!(props["message"], parse(r#"{"type": "text"}"#));
    assert!(os(IndexMode::Vector).includes_embedding());
    assert!(os(IndexMode::Vector).validates_certificates());
    let mut skipping = os(IndexMode::Vector);
    skipping.skip_cert = true;
    assert!(!skipping.validates_certificates());
    assert!(!os(IndexMode::Keyword).includes_embedding());
    assert!(os(IndexMode::Keyword).index_to_create(4, true).is_none());
    assert!(os(IndexMode::Keyword).index_to_create(4, false).is_some());
    assert_eq!(opensearch::supported_modes(), vec![IndexMode::Vector, IndexMode::Keyword, IndexMode::Hybrid]);
    assert_eq!(pgvector::supported_modes(), vec![IndexMode::Vector, IndexMode::Keyword, IndexMode::Hybrid]);
}

#[test]
fn qdrant_collection_lookup() {
    let names = vec!["a".to_string(), "logs".to_string()];
    assert!(collection_exists(&names, &"logs".to_string()));
    assert!(!collection_exists(&names, &"log".to_string()));
    assert!(!collection_exists(&vec![], &"logs".to_string()));
    assert_eq!(payload_index_fields(), vec!["level", "service"]);
    let c = QdrantConfig { url: "http://q:6334".to_string(), api_key: None, collection_name: qdrant::default_collection_name() };
    assert_eq!(c.collection_name, "logs");
}

#[test]
fn dashboard_summary_counts_exactly() {
    let batch = vec![
        record("api", LogLevel::Info),
        record("auth", LogLevel::Error),
        record("api", LogLevel::Info),
        record("api", LogLevel::Debug),
        record("pay", LogLevel::Info),
    ];
    let s = summarize(&batch);
    assert_eq!(s.total_count, 5);
    assert_eq!(s.services, vec!["api".to_string(), "auth".to_string(), "pay".to_string()]);
    assert_eq!(s.service_counts, vec![3, 1, 1]);
    assert_eq!(s.levels, vec![LogLevel::Debug, LogLevel::Info, LogLevel::Error]);
    assert_eq!(s.level_counts, vec![1, 3, 1]);
    assert_eq!(s.level_names(), vec!["DEBUG", "INFO", "ERROR"]);
    let empty = summarize(&vec![]);
    assert_eq!(empty.total_count, 0);
    assert!(empty.services.is_empty() && empty.levels.is_empty());
}

#[test]
fn stdout_line() {
    assert_eq!(StdoutSink.entry_line(&record("api", LogLevel::Warn)), "api: m");
}

#[test]
fn pgvector_text_columns() {
    let batch = vec![
        LogRecord { id: "1".to_string(), service: "api".to_string(), level: LogLevel::Warn, message: "x".to_string() },
        LogRecord { id: "2".to_string(), service: "db".to_string(), level: LogLevel::Debug, message: "y".to_string() },
    ];
    let cols = pgvector::text_columns(&batch);
    assert_eq!(cols.ids, vec!["1", "2"]);
    assert_eq!(cols.services, vec!["api", "db"]);
    assert_eq!(cols.levels, vec!["Warn", "Debug"]);
    assert_eq!(cols.messages, vec!["x", "y"]);
}
