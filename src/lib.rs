//! A small HTTP client library: header specifications such as
//! `"Accept: text/plain, X-Token: abc"` are parsed into name/value pairs and
//! turned into a header map for a request.
pub mod error;
pub mod header;
pub mod laws;
pub mod parse;
pub mod text;
pub mod tour;

pub use error::HeaderError;
pub use header::construct_header_map;
pub use parse::parse_headers;
