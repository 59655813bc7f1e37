//! The verified core of a server-rendered education platform: teachers
//! author versioned sheets, students work on solution snapshots pinned
//! to a sheet version, and a cookie-backed session service decides who
//! is who. The durable store is modelled as one explicit value, every
//! repository call as a contracted transition on it.

use vstd::prelude::*;

pub mod auth;
pub mod crypt;
pub mod flash;
pub mod guards;
pub mod order;
pub mod routes;
pub mod sheets;
pub mod solutions;
pub mod status;
pub mod store;
pub mod token;
pub mod transport;
pub mod uri;
pub mod validation;

verus! {

/// Number of seconds a session stays valid after a (re-)login.
pub const SESSION_EXPIRY_SECONDS: i64 = 5 * 86400;

} // verus!
