//! Values carried by HTTP start lines: status codes, versions, methods and
//! request targets.

pub mod method;
pub mod path;
pub mod status;
pub mod version;



pub use method::HttpMethod;
pub use path::RequestPath;
pub use status::StatusCode;
pub use version::HttpVersion;

pub mod content;

pub use content::{AcceptLang, ContentDisposition, HttpContentType};
