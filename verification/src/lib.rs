//! A minimal HTTP/1.1 server core: a request parser, the method and status
//! vocabulary, a response builder, and a wire serializer, all verified over
//! byte sequences. Reading from and writing to a connection stay outside.
pub mod bytes;
pub mod errors;
pub mod handler;
pub mod headers;
pub mod method;
pub mod request;
pub mod response;
pub mod status;
pub mod text;
pub mod utf8check;
