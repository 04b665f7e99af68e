//! Range-request handling for a small static file server: parsing of the
//! `Range` header, the byte window that is served for it, and the response
//! headers that announce that window.

pub mod decimal;
pub mod download;
pub mod header_range;
pub mod headers;
pub mod response;
pub mod route;
pub mod text;
pub mod window;
