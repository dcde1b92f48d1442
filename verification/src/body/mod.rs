//! HTTP bodies and their errors.

pub mod body;
pub mod error;
pub mod read;
pub mod serialize;

pub use body::{BodyLimits, HttpBody};
pub use error::{BodyError, ChunkingError, CompressionError, HttpError};
