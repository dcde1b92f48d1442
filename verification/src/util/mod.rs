//! Typed views of framing, connection and cookie headers.

pub mod connection;
pub mod cookie;
pub mod encoding;

pub use connection::{ConnectionError, ConnectionOptions};
pub use cookie::{Cookie, CookieMap};

pub use encoding::{EncodingError, HttpEncoding};
