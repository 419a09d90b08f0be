//! The connection-handling core of a TLS-terminating relay: one encrypted
//! connection in, one fixed upstream fetch, one response out.
//!
//! Nothing here touches a socket or a file. The caller moves bytes between
//! the raw connection and a [`session::TlsSession`], makes the upstream call,
//! reports what happened to a [`connection::Connection`], and performs the
//! action that the connection asks for.

pub mod ascii;
pub mod decimal;
pub mod upstream;
pub mod response;
pub mod request;
pub mod connection;
pub mod credential;
pub mod session;
