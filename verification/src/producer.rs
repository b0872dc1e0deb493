//! The producer's client settings: the librdkafka configuration a producer
//! is created from.

use vstd::prelude::*;
use rdkafka::ClientConfig;
use crate::text::{decimal, u64_text};

verus! {

#[verifier::external_type_specification]
#[verifier::external_body]
pub struct ExClientConfig(ClientConfig);

/// The settings a `rdkafka::ClientConfig` holds, by name.
pub uninterp spec fn client_settings(c: ClientConfig) -> Map<Seq<char>, Seq<char>>;

/// No settings at all.
pub open spec fn no_settings() -> Map<Seq<char>, Seq<char>> {
    Map::empty()
}

/// `rdkafka::ClientConfig::new`.
///
/// Trusted: the crate's source builds the configuration with an empty map
/// of settings.
#[verifier::external_body]
fn client_config_new() -> (config: ClientConfig)
    ensures
        client_settings(config) == no_settings(),
{
    ClientConfig::new()
}

/// `rdkafka::ClientConfig::set`.
///
/// Trusted: the crate's source inserts the pair into its map of settings,
/// replacing any earlier value of the key, and changes nothing else.
#[verifier::external_body]
fn client_config_set(config: &mut ClientConfig, key: &str, value: &str)
    ensures
        client_settings(*final(config)) == client_settings(*old(config)).insert(key@, value@),
{
    config.set(key, value);
}

/// Settings of a Kafka producer.
#[derive(Debug, Clone)]
pub struct ProducerConfig {
    pub brokers: String,
    pub message_timeout_ms: u64,
    pub queue_buffering_max_messages: u64,
    pub queue_buffering_max_kbytes: u64,
    pub batch_num_messages: u64,
    pub compression_type: String,
    pub linger_ms: u64,
    pub request_timeout_ms: u64,
    pub retry_backoff_ms: u64,
    pub retries: u64,
    pub max_in_flight: u64,
    pub enable_idempotence: bool,
    pub acks: String,
    pub security_protocol: Option<String>,
    pub sasl_mechanism: Option<String>,
    pub sasl_username: Option<String>,
    pub sasl_password: Option<String>,
}

/// A flag as text, as `to_string` writes it.
pub open spec fn bool_text(b: bool) -> Seq<char> {
    if b {
        "true"@
    } else {
        "false"@
    }
}

fn bool_string(b: bool) -> (r: String)
    ensures
        r@ == bool_text(b),
{
    if b {
        String::from_str("true")
    } else {
        String::from_str("false")
    }
}

/// Adds an optional setting when it is given.
pub open spec fn with_optional(
    m: Map<Seq<char>, Seq<char>>,
    key: Seq<char>,
    value: Option<String>,
) -> Map<Seq<char>, Seq<char>> {
    match value {
        Some(v) => m.insert(key, v@),
        None => m,
    }
}

/// The librdkafka settings of a producer: the brokers, the buffering,
/// batching, timing, retry and delivery settings (numbers in decimal), and
/// the security settings that are given.
pub open spec fn producer_settings(c: ProducerConfig) -> Map<Seq<char>, Seq<char>> {
    let base = Map::<Seq<char>, Seq<char>>::empty().insert("bootstrap.servers"@, c.brokers@).insert(
        "message.timeout.ms"@,
        decimal(c.message_timeout_ms as nat),
    ).insert("queue.buffering.max.messages"@, decimal(c.queue_buffering_max_messages as nat)).insert(
        "queue.buffering.max.kbytes"@,
        decimal(c.queue_buffering_max_kbytes as nat),
    ).insert("batch.num.messages"@, decimal(c.batch_num_messages as nat)).insert(
        "compression.type"@,
        c.compression_type@,
    ).insert("linger.ms"@, decimal(c.linger_ms as nat)).insert(
        "request.timeout.ms"@,
        decimal(c.request_timeout_ms as nat),
    ).insert("retry.backoff.ms"@, decimal(c.retry_backoff_ms as nat)).insert(
        "retries"@,
        decimal(c.retries as nat),
    ).insert("max.in.flight.requests.per.connection"@, decimal(c.max_in_flight as nat)).insert(
        "enable.idempotence"@,
        bool_text(c.enable_idempotence),
    ).insert("acks"@, c.acks@);
    with_optional(
        with_optional(
            with_optional(
                with_optional(base, "security.protocol"@, c.security_protocol),
                "sasl.mechanism"@,
                c.sasl_mechanism,
            ),
            "sasl.username"@,
            c.sasl_username,
        ),
        "sasl.password"@,
        c.sasl_password,
    )
}

fn set_optional(c: &mut ClientConfig, key: &str, value: &Option<String>)
    ensures
        client_settings(*final(c)) == with_optional(client_settings(*old(c)), key@, *value),
{
    if let Some(v) = value {
        client_config_set(c, key, v.as_str());
    }
}

/// The client configuration a producer is created from.
pub fn producer_client_config(config: &ProducerConfig) -> (c: ClientConfig)
    ensures
        client_settings(c) == producer_settings(*config),
{
    let mut c = client_config_new();
    client_config_set(&mut c, "bootstrap.servers", config.brokers.as_str());
    client_config_set(&mut c, "message.timeout.ms", u64_text(config.message_timeout_ms).as_str());
    client_config_set(
        &mut c,
        "queue.buffering.max.messages",
        u64_text(config.queue_buffering_max_messages).as_str(),
    );
    client_config_set(
        &mut c,
        "queue.buffering.max.kbytes",
        u64_text(config.queue_buffering_max_kbytes).as_str(),
    );
    client_config_set(&mut c, "batch.num.messages", u64_text(config.batch_num_messages).as_str());
    client_config_set(&mut c, "compression.type", config.compression_type.as_str());
    client_config_set(&mut c, "linger.ms", u64_text(config.linger_ms).as_str());
    client_config_set(&mut c, "request.timeout.ms", u64_text(config.request_timeout_ms).as_str());
    client_config_set(&mut c, "retry.backoff.ms", u64_text(config.retry_backoff_ms).as_str());
    client_config_set(&mut c, "retries", u64_text(config.retries).as_str());
    client_config_set(
        &mut c,
        "max.in.flight.requests.per.connection",
        u64_text(config.max_in_flight).as_str(),
    );
    client_config_set(&mut c, "enable.idempotence", bool_string(config.enable_idempotence).as_str());
    client_config_set(&mut c, "acks", config.acks.as_str());
    set_optional(&mut c, "security.protocol", &config.security_protocol);
    set_optional(&mut c, "sasl.mechanism", &config.sasl_mechanism);
    set_optional(&mut c, "sasl.username", &config.sasl_username);
    set_optional(&mut c, "sasl.password", &config.sasl_password);
    c
}

} // verus!
