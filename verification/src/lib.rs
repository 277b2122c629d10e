//! Core of a multi-room chat server: the durable record store, the in-memory
//! connection registry with per-room broadcast fan-out, the session and
//! membership authorization gate, and the password policy.

pub mod auth;
pub mod errors;
pub mod ext;
pub mod models;
pub mod password;
pub mod registry;
pub mod server;
pub mod store;
pub mod wire;

pub use password::PasswordValidationError;
pub use password::PasswordValidator;
