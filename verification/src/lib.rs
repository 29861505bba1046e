//! Chaum-Pedersen password authentication: a prover shows that it knows the
//! exponent behind a registered pair of group elements without sending it.
//!
//! The crate holds the two protocol engines (a prime-field group and the
//! secp256k1 curve) and the state machine of the authentication service that
//! runs them.

pub mod credentials;
pub mod curve;
pub mod digest;
pub mod discrete_log;
pub mod elliptic;
mod entropy;
pub mod error;
pub mod machine;
pub mod natural;
pub mod service;
pub mod store;
pub mod token;

pub use credentials::Credentials;
pub use credentials::Session;
pub use credentials::User;
pub use curve::CurvePoint;
pub use curve::CurveScalar;
pub use discrete_log::ChaumPedersen;
pub use elliptic::ChaumPedersenK256;
pub use error::AuthError;
pub use error::ErrorKind;
pub use natural::BigNat;
pub use service::WirePoint;
pub use store::CredentialStore;
pub use store::SessionStore;
pub use service::API;
