//! The values the authentication middleware extracts from a request: the
//! claims read out of the bearer token and the identity handed to the
//! protected handlers.

use vstd::prelude::*;

verus! {

#[derive(Debug)]
pub struct Claims {
    pub sub: i64,
    pub username: String,
    pub exp: usize,
}

/// The authenticated identity stored in a request once the middleware has
/// accepted its token.
#[derive(Debug)]
pub struct AuthUser {
    pub id: i64,
    pub username: String,
}

} // verus!
