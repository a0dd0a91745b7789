//! A minimal HTTP/1.1 request/response core: a request parser, a response
//! serializer, and an ordered first-match-wins router over a fixed set of
//! handlers. All logic works on plain bytes; the surrounding process does the
//! socket and file I/O and hands byte buffers in and out.

pub mod bytes;
pub mod request;
pub mod response;
pub mod router;
