//! The process configuration: where the store lives, where the service
//! binds, the token secret, and the log level. Reading it from the
//! environment is the surrounding service's work.

use vstd::prelude::*;

verus! {

#[derive(Debug)]
pub struct Config {
    pub database_url: String,
    pub bind_addr: String,
    pub jwt_secret: String,
    pub log_level: String,
}

} // verus!
