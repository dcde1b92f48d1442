//! HTTP start lines: request lines and status lines.

pub mod error;
pub mod request;
pub mod response;

pub use error::StartLineError;
pub use request::RequestStartLine;
pub use response::ResponseStartLine;
pub mod start_line;

pub use start_line::HttpStartLine;
