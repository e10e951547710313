use event_batcher::ClickHouseConfig;
use event_batcher::DiscardPolicyDef;
use event_batcher::NatsConfig;
use event_batcher::NatsStreamConfig;
use event_batcher::RetentionPolicyDef;
use event_batcher::StorageTypeDef;
use event_batcher::build_insert_query;
use event_batcher::concat_rows;
use event_batcher::ping_response_ok;
use event_batcher::worker_count;

fn stream_config(create_if_missing: bool) -> NatsStreamConfig {
    NatsStreamConfig {
        name: "events".to_string(),
        retention: RetentionPolicyDef::Limits,
        discard: DiscardPolicyDef::Old,
        storage: StorageTypeDef::File,
        no_ack: false,
        max_consumers: 4,
        max_age: "1d".to_string(),
        create_if_missing,
    }
}

#[test]
fn rows_concatenate_in_order() {
    let rows = vec![vec![1u8, 2], vec![3], vec![], vec![4, 5, 6]];
    assert_eq!(concat_rows(&rows), vec![1, 2, 3, 4, 5, 6]);
    assert_eq!(concat_rows(&Vec::new()), Vec::<u8>::new());
}

#[test]
fn insert_query_is_exact() {
    let q = build_insert_query("analytics", "login_events", "dto.proto:LoginEvent");
    assert_eq!(
        q,
        "INSERT INTO analytics.login_events FORMAT Protobuf \
         SETTINGS format_schema='dto.proto:LoginEvent'"
    );
}

#[test]
fn ping_accepts_only_the_fixed_acknowledgment() {
    assert!(ping_response_ok(true, "Ok."));
    assert!(!ping_response_ok(true, "Ok"));
    assert!(!ping_response_ok(true, ""));
    assert!(!ping_response_ok(false, "Ok."));
}

#[test]
fn worker_count_prefers_override_then_clamped_parallelism() {
    assert_eq!(worker_count(Some(12), Some(100)), 12);
    assert_eq!(worker_count(None, Some(1)), 8);
    assert_eq!(worker_count(None, Some(2)), 8);
    assert_eq!(worker_count(None, Some(4)), 16);
    assert_eq!(worker_count(None, Some(64)), 256);
    assert_eq!(worker_count(None, Some(1000)), 256);
    assert_eq!(worker_count(None, None), 32);
}

#[test]
fn queue_address_is_scheme_host_port() {
    let c = NatsConfig {
        client_port: 4222,
        server_port: 8222,
        username: "user".to_string(),
        password: "pass".to_string(),
        host: "localhost".to_string(),
        queue: "q".to_string(),
        subject: "events.>".to_string(),
        consumer_name: "loader".to_string(),
        stream_config: stream_config(true),
    };
    assert_eq!(c.get_addr(), "nats://localhost:4222");
    assert!(c.stream_config.need_create());
    assert!(!stream_config(false).need_create());
}

#[test]
fn sink_base_url_has_trailing_slash() {
    let c = ClickHouseConfig {
        host: "127.0.0.1".to_string(),
        port: 8123,
        database: "analytics".to_string(),
        user: String::new(),
        password: String::new(),
    };
    assert_eq!(c.base_url(), "http://127.0.0.1:8123/");
}
