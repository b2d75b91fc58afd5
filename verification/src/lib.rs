//! Client logic for a length-framed local presence protocol: endpoint
//! discovery, message framing, handshake and activity payload construction,
//! and the debounce controller that coalesces bursty "clear" requests.

mod errors;
pub mod client;
pub mod endpoint;
pub mod frame;
pub mod json;
pub mod num;
pub mod parse;
pub mod session;

pub use errors::ClientError;
