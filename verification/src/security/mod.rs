//! Security: encryption of secrets, the secrets collection, payload
//! integrity and manifest signing.

pub mod crypto;
pub mod secrets;
pub mod integrity;
pub mod signing;
