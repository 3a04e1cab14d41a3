//! An HTTP/1.1 client core: request composition, multipart encoding, typed header
//! views, redirect resolution, timed execution, body collection under a byte limit
//! and the Websocket upgrade handshake.

pub mod text;
pub mod percent;
pub mod codec;
pub mod headers;
pub mod uri;
pub mod content_encoding;
pub mod content_disposition;
pub mod charset;
pub mod tags;
pub mod multipart;
pub mod request;
pub mod response;
pub mod body;
pub mod client;
pub mod connector;
pub mod redirect;
pub mod timed;
pub mod websocket;
