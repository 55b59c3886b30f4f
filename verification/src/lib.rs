//! A state-machine parser for Server-Sent Events (SSE), and the connection
//! logic of a client that reads them.
pub mod buf;
pub mod client;
pub mod clock;
pub mod connection;
pub mod content_type;
pub mod debug;
pub mod decode;
pub mod delivery;
pub mod event;
pub mod field;
pub mod grammar;
pub mod header;
pub mod ids;
pub mod laws;
pub mod lifecycle;
pub mod lines;
pub mod meaning;
pub mod roundtrip;
pub mod scanning;
pub mod scratch;
mod sealed;
pub mod search;
pub mod sizes;
pub mod source;
pub mod stream;
pub mod text;
pub mod transport;

pub use buf::ByteSource;
pub use decode::SseDecoder;
pub use event::{MessageEvent, PayloadTooLargeError, SseEvent};
pub use source::{EventSource, EventSourceBuilder, RequestBuilderExt};
pub use stream::{SseStream, SseStreamError, SseStreamResult, StreamPoll};
