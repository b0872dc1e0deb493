use kafpy::producer::{producer_client_config, ProducerConfig};

fn config() -> ProducerConfig {
    ProducerConfig {
        brokers: "localhost:9092".to_string(),
        message_timeout_ms: 30000,
        queue_buffering_max_messages: 100000,
        queue_buffering_max_kbytes: 1048576,
        batch_num_messages: 10000,
        compression_type: "none".to_string(),
        linger_ms: 5,
        request_timeout_ms: 30000,
        retry_backoff_ms: 100,
        retries: 3,
        max_in_flight: 5,
        enable_idempotence: true,
        acks: "all".to_string(),
        security_protocol: None,
        sasl_mechanism: Some("PLAIN".to_string()),
        sasl_username: None,
        sasl_password: None,
    }
}

#[test]
fn producer_settings_are_written_in_decimal() {
    let c = producer_client_config(&config());
    assert_eq!(c.get("bootstrap.servers"), Some("localhost:9092"));
    assert_eq!(c.get("message.timeout.ms"), Some("30000"));
    assert_eq!(c.get("queue.buffering.max.kbytes"), Some("1048576"));
    assert_eq!(c.get("linger.ms"), Some("5"));
    assert_eq!(c.get("enable.idempotence"), Some("true"));
    assert_eq!(c.get("acks"), Some("all"));
    assert_eq!(c.get("max.in.flight.requests.per.connection"), Some("5"));
    assert_eq!(c.get("sasl.mechanism"), Some("PLAIN"));
    assert_eq!(c.get("security.protocol"), None);
    assert_eq!(c.config_map().len(), 14);
}
