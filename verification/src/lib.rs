//! In-memory backend with three operations over two key-value stores:
//! wallet lookup, stub proof generation, and proof verification.
//!
//! Proof generation is a placeholder: every proof is a fixed 32-byte
//! zero buffer, and its reference is the hex encoding of those bytes.

pub mod backend;
pub mod encoding;
pub mod store;
pub mod types;

pub use backend::Backend;
pub use backend::DefaultPolicy;
pub use types::TokenInfo;
pub use types::WalletInfo;
pub use types::ZKProof;
