//! Verified core of a market-data relay: the message model and its wire
//! codec, the router that assigns a broker topic and partition key to each
//! message, the relay engine that admits broker submissions under a
//! concurrency bound, the session state machine that (re)connects and
//! (re)subscribes, and the control commands multiplexed onto the upstream
//! connection.
mod broker;
mod codec;
mod command;
mod decode;
mod engine;
mod message;
mod router;
mod session;
mod settings;
mod subscriptions;

pub use broker::producer_config;
pub use codec::{encode_action, encode_message, EncodeError};
pub use command::{
    control_step, subscribe, token, unsubscribe, Command, ControlStep, PolygonAction, Subscribe,
    Unsubscribe,
};
pub use decode::{decode_event, decode_frame, inbound_of, DecodeError, Fields, FrameShape, JsonField};
pub use engine::{Arrival, Engine, Fault, HaltCause, Inbound, Record, Step};
pub use message::{Aggregate, Message, Number, Quote, StatusCode, Trade};
pub use router::{get_key, get_topic, route};
pub use session::{backoff, Directive, Phase, Session, SessionEvent};
pub use settings::{vec_from_str, PolygonSettings, SentrySettings, WebServerSettings};
pub use subscriptions::subscription_list;
