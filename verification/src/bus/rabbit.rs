//! The RabbitMQ event bus: its pools, the routing key of its messages, and the outcome
//! of a publication.
use vstd::prelude::*;
use vstd::string::*;

verus! {

#[verifier::external_type_specification]
#[verifier::external_body]
pub struct ExJsonError(serde_json::Error);

#[verifier::external_type_specification]
#[verifier::external_body]
pub struct ExLapinError(lapin::Error);

/// The errors of the RabbitMQ event bus:
/// - `Json`: the event payload could not be serialized;
/// - `Rabbit`: the connection with the RabbitMQ server, or the publication, failed;
/// - `PublishNack`: the server answered the publication with a `Nack`.
pub enum RabbitEventBusError {
    Json(serde_json::Error),
    Rabbit(lapin::Error),
    PublishNack,
}

/// How the server answered a publication.
#[derive(Clone, Copy, Debug, PartialEq, Eq)]
pub enum ConfirmationKind {
    Ack,
    Nack,
    NotRequested,
}

/// The outcome of a publication, from the server's answer: an acknowledgement, or no
/// confirmation requested, is a success; a `Nack` is the error `PublishNack`.
pub fn publication_outcome(confirmation: ConfirmationKind) -> (r: Result<(), RabbitEventBusError>)
    ensures
        r is Ok <==> confirmation != ConfirmationKind::Nack,
        r matches Err(e) ==> e is PublishNack,
{
    match confirmation {
        ConfirmationKind::Ack => Ok(()),
        ConfirmationKind::NotRequested => Ok(()),
        ConfirmationKind::Nack => Err(RabbitEventBusError::PublishNack),
    }
}

/// The routing key of the messages: the configured one, or the empty key.
pub fn routing_key(publish_routing_key: &Option<String>) -> (key: String)
    ensures
        key@ == match publish_routing_key {
            Some(k) => k@,
            None => Seq::<char>::empty(),
        },
{
    match publish_routing_key {
        Some(k) => k.clone(),
        None => String::new(),
    }
}

/// The settings of a pool of connections or channels.
#[derive(Clone, Copy, Debug, PartialEq, Eq)]
pub struct PoolSettings {
    pub max_size: u32,
    pub max_lifetime_secs: u64,
    pub idle_timeout_secs: u64,
    pub min_idle: u32,
}

/// The pool of connections to the server: at most 2, each kept at most 10 minutes and
/// closed after 5 idle minutes, at least one kept idle.
pub fn connection_pool_settings() -> (settings: PoolSettings)
    ensures
        settings == (PoolSettings { max_size: 2, max_lifetime_secs: 600, idle_timeout_secs: 300, min_idle: 1 }),
{
    PoolSettings { max_size: 2, max_lifetime_secs: 10 * 60, idle_timeout_secs: 5 * 60, min_idle: 1 }
}

/// The pool of channels: at most 10, each kept at most 5 minutes and closed after one
/// idle minute, at least one kept idle.
pub fn channel_pool_settings() -> (settings: PoolSettings)
    ensures
        settings == (PoolSettings { max_size: 10, max_lifetime_secs: 300, idle_timeout_secs: 60, min_idle: 1 }),
{
    PoolSettings { max_size: 10, max_lifetime_secs: 5 * 60, idle_timeout_secs: 60, min_idle: 1 }
}

} // verus!
