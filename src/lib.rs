//! Forwarding of diagnostic events to a chat webhook: event filtering,
//! size-bounded payload formatting, and the decisions of the delivery worker.

pub mod chunk;
pub mod config;
pub mod filter;
pub mod level;
pub mod message;
pub mod payload;
pub mod text;
pub mod worker;

pub use chunk::{chunk_fields, chunk_text};
pub use config::DiscordConfig;
pub use filter::{FilterChain, FilterRule, Polarity};
pub use level::Level;
pub use message::{Embed, EmbedField, MessagePayload, PayloadMessageType, WorkerMessage};
pub use payload::{
    format_event, EventRecord, Field, FieldValue, SpanContext, MAX_DESCRIPTION_LENGTH,
    MAX_FIELD_VALUE_LENGTH,
};
pub use text::{decimal, truncate};
pub use worker::{
    event_for, Action, Outcome, Phase, WorkerEvent, WorkerState, BACKOFF_MILLIS, MAX_RETRIES,
};
