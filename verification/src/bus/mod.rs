//! What the event buses compute before they publish: their client settings, the key or
//! routing key of a message, and the outcome of a publication.
pub mod kafka;
pub mod rabbit;
