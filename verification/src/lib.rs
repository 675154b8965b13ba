//! Chaum-Pedersen zero-knowledge authentication: the arithmetic of the proof
//! and the server's registration, challenge and verification steps.

pub mod natural;
pub mod foreign;
pub mod constants;
pub mod zkp;
pub mod laws;
pub mod soundness;
pub mod store;
pub mod server;

pub use natural::Natural;
pub use zkp::ZKP;
pub use server::{AuthError, AuthImpl};
pub use store::{SessionStore, UserInfo};
