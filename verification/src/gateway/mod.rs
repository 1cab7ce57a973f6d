//! Gateway helpers: the HTTP-to-HTTPS redirect, TLS certificate policy, and
//! the routing of log fields.

pub mod redirect;
pub mod pki;
pub mod fields;
pub mod serve;
pub mod logging;
