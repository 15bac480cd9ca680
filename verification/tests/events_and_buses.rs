use esrs::bus::kafka::{client_settings, configure_client, decimal_text, record_key, Security};
use esrs::bus::rabbit::{
    channel_pool_settings, connection_pool_settings, publication_outcome, routing_key, ConfirmationKind,
    PoolSettings, RabbitEventBusError,
};
use esrs::postgres::store::lock_key;
use esrs::store::{new_store_event, prepare_store_events, Timestamp};

fn is_version_four(id: u128) -> bool {
    (id >> 76) & 0xf == 4 && (id >> 62) & 0x3 == 2
}

#[test]
fn new_store_event_keeps_its_fields_and_gets_a_fresh_id() {
    let a = new_store_event(9, "payload", Timestamp { secs: 1, nanos: 123_456_789 }, 3);
    let b = new_store_event(9, "payload", Timestamp { secs: 1, nanos: 123_456_789 }, 3);
    assert_eq!(a.aggregate_id, 9);
    assert_eq!(a.payload, "payload");
    assert_eq!(*a.payload(), "payload");
    assert_eq!(a.occurred_on, Timestamp { secs: 1, nanos: 123_456_789 });
    assert_eq!(a.sequence_number(), 3);
    assert!(is_version_four(a.id));
    assert!(is_version_four(b.id));
    assert_ne!(a.id, b.id);
}

#[test]
fn prepare_store_events_numbers_consecutively() {
    let prepared = prepare_store_events(42, vec!["a", "b", "c"], 5);
    assert_eq!(prepared.len(), 3);
    let numbers: Vec<i32> = prepared.iter().map(|e| e.sequence_number).collect();
    assert_eq!(numbers, vec![5, 6, 7]);
    let payloads: Vec<&str> = prepared.iter().map(|e| e.payload).collect();
    assert_eq!(payloads, vec!["a", "b", "c"]);
    for e in &prepared {
        assert_eq!(e.aggregate_id, 42);
        assert_eq!(e.occurred_on, prepared[0].occurred_on);
        assert!(is_version_four(e.id));
    }
    assert_ne!(prepared[0].id, prepared[1].id);
}

#[test]
fn prepare_store_events_of_nothing_is_empty() {
    let prepared = prepare_store_events::<u8>(1, vec![], i32::MAX);
    assert!(prepared.is_empty());
}

#[test]
fn prepare_store_events_up_to_the_last_sequence_number() {
    let prepared = prepare_store_events(1, vec![1u8, 2u8], i32::MAX - 1);
    assert_eq!(prepared[0].sequence_number, i32::MAX - 1);
    assert_eq!(prepared[1].sequence_number, i32::MAX);
}

#[test]
fn lock_key_is_the_high_half_of_the_uuid() {
    assert_eq!(lock_key(0x0000_0000_0000_0001_ffff_ffff_ffff_ffff), 1);
    assert_eq!(lock_key(0xffff_ffff_ffff_ffff_0000_0000_0000_0000), -1);
    assert_eq!(lock_key(0x7fff_ffff_ffff_ffff_0000_0000_0000_0005), i64::MAX);
    assert_eq!(lock_key(0), 0);
}

#[test]
fn record_key_is_the_hyphenated_uuid() {
    assert_eq!(record_key(0x67e5_5044_10b1_426f_9247_bb68_0e5f_e0c8), "67e55044-10b1-426f-9247-bb680e5fe0c8");
    assert_eq!(record_key(0), "00000000-0000-0000-0000-000000000000");
    assert_eq!(record_key(u128::MAX), "ffffffff-ffff-ffff-ffff-ffffffffffff");
}

#[test]
fn decimal_text_is_to_string() {
    for n in [0u64, 7, 10, 99, 100, 5000, 123_456_789, u64::MAX] {
        assert_eq!(decimal_text(n), n.to_string());
    }
}

#[test]
fn client_settings_without_security() {
    let settings = client_settings("localhost:9092", 5000, None);
    assert_eq!(
        settings,
        vec![
            ("metadata.broker.list".to_string(), "localhost:9092".to_string()),
            ("request.timeout.ms".to_string(), "5000".to_string()),
        ]
    );
}

#[test]
fn client_settings_with_security() {
    let security = Security { username: "user", password: "pa55", sasl_mechanism: "PLAIN" };
    let settings = client_settings("a:1,b:2", 30, Some(&security));
    assert_eq!(
        settings,
        vec![
            ("metadata.broker.list".to_string(), "a:1,b:2".to_string()),
            ("request.timeout.ms".to_string(), "30".to_string()),
            ("security.protocol".to_string(), "SASL_SSL".to_string()),
            ("sasl.mechanisms".to_string(), "PLAIN".to_string()),
            ("sasl.username".to_string(), "user".to_string()),
            ("sasl.password".to_string(), "pa55".to_string()),
        ]
    );
}

#[test]
fn publication_outcomes() {
    assert!(publication_outcome(ConfirmationKind::Ack).is_ok());
    assert!(publication_outcome(ConfirmationKind::NotRequested).is_ok());
    assert!(matches!(publication_outcome(ConfirmationKind::Nack), Err(RabbitEventBusError::PublishNack)));
}

#[test]
fn routing_key_defaults_to_empty() {
    assert_eq!(routing_key(&Some("events.created".to_string())), "events.created");
    assert_eq!(routing_key(&None), "");
}

#[test]
fn rabbit_pool_settings() {
    assert_eq!(
        connection_pool_settings(),
        PoolSettings { max_size: 2, max_lifetime_secs: 600, idle_timeout_secs: 300, min_idle: 1 }
    );
    assert_eq!(
        channel_pool_settings(),
        PoolSettings { max_size: 10, max_lifetime_secs: 300, idle_timeout_secs: 60, min_idle: 1 }
    );
}

#[test]
fn configure_client_sets_every_setting() {
    let mut config = rdkafka::ClientConfig::new();
    config.set("request.timeout.ms", "1");
    config.set("client.id", "esrs");
    let security = Security { username: "user", password: "pa55", sasl_mechanism: "SCRAM-SHA-256" };
    configure_client(&mut config, "k1:9092", 250, Some(&security));
    assert_eq!(config.get("metadata.broker.list"), Some("k1:9092"));
    assert_eq!(config.get("request.timeout.ms"), Some("250"));
    assert_eq!(config.get("security.protocol"), Some("SASL_SSL"));
    assert_eq!(config.get("sasl.mechanisms"), Some("SCRAM-SHA-256"));
    assert_eq!(config.get("sasl.username"), Some("user"));
    assert_eq!(config.get("sasl.password"), Some("pa55"));
    assert_eq!(config.get("client.id"), Some("esrs"));
    assert_eq!(config.config_map().len(), 7);
}

#[test]
fn configure_client_without_security() {
    let mut config = rdkafka::ClientConfig::new();
    configure_client(&mut config, "localhost:9092", 5000, None);
    assert_eq!(config.config_map().len(), 2);
    assert_eq!(config.get("request.timeout.ms"), Some("5000"));
    assert_eq!(config.get("security.protocol"), None);
}

#[test]
fn prepared_events_are_stamped_now_to_the_nanosecond() {
    let before = chrono::Utc::now();
    let prepared = prepare_store_events(3, vec![1u8], 1);
    let after = chrono::Utc::now();
    let stamp = prepared[0].occurred_on;
    assert!(stamp.nanos < 1_000_000_000);
    let at = chrono::DateTime::<chrono::Utc>::from_timestamp(stamp.secs, stamp.nanos).unwrap();
    assert!(before <= at && at <= after);
}
