//! Session-cookie authentication for a small site: a credential table, a
//! session manager that signs the tokens it issues, an authorization gate and
//! the request handlers built on them.

pub mod entropy;
pub mod gate;
pub mod handlers;
pub mod hex;
pub mod laws;
pub mod mac;
pub mod response;
pub mod session;
pub mod site;
pub mod store;
pub mod user;
