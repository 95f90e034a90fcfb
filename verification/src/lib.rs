//! Server-side HTTP/1.1 message framing, with machine-checked contracts.
//!
//! The bytes of a connection arrive in pieces of any size. `Request::parse_header`
//! reads the head of a request from what has arrived so far and says whether
//! it is complete, incomplete or malformed; `Response::encode` writes a
//! response. Both are pure functions of their arguments, and what they return
//! is stated over the grammar in `line`, `block`, `request` and `response`.
//!
//! - `bytes`, `decimal`, `text`: searching bytes, decimal numerals, UTF-8 text.
//! - `line`, `block`: lines that end in CR LF, and blocks of header lines.
//! - `method`, `status_code`, `headers`, `error`: the data of a message.
//! - `request`, `response`: reading requests, writing and reading responses.
//! - `connection`, `router`: what a server does next with the bytes it has,
//!   and what it answers.

pub mod block;
pub mod bytes;
pub mod connection;
pub mod decimal;
pub mod error;
pub mod headers;
pub mod line;
pub mod method;
pub mod request;
pub mod response;
pub mod router;
pub mod status_code;
pub mod text;
