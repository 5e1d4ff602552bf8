pub mod header;
pub mod text;

pub use header::{DecodeError, VlessHeader, parse_vless_header};
