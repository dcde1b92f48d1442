//! HTTP header field lines, header values, the header collection and errors.

pub mod error;
pub mod line;
pub mod map;
pub mod value;

pub use error::{HeaderError, HeaderLineError};
pub use line::HeaderLine;
pub use value::HeaderValue;
pub use map::HeaderMap;


