//! Cookie-based session authentication for a web backend.
//!
//! The crate models the two tables a session layer reads and writes —
//! user records and session records — together with a bounded connection
//! pool, and verifies the logic that runs over them: credential checking,
//! session-token issuance, and the cookie-to-user lookup performed once per
//! incoming request.

pub mod models;
pub mod pool;
pub mod session;
pub mod store;
pub mod token;
