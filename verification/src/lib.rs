//! Obfuscation core for the srun captive-portal login protocol.
//!
//! The library prepares authentication payloads for the wire: a TEA-family
//! block transform over little-endian 32-bit words (`xencode`) followed by a
//! base64 encoding over a protocol-specific 64-symbol table (`fkbase64`).
//! Everything here is a pure function over its inputs; transport, credential
//! storage and scheduling live outside this crate.

pub mod daemon;
pub mod fkbase64;
pub mod user;
pub mod xencode;

pub use daemon::SrunDaemon;
pub use fkbase64::fkbase64;
pub use user::BitUser;
pub use user::BitUserPartial;
pub use xencode::mix;
pub use xencode::splite;
pub use xencode::xencode;
