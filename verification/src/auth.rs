//! The claims carried by an issued access token. Token signing and
//! verification live with the surrounding service; this is the payload it
//! encodes.

use vstd::prelude::*;

verus! {

#[derive(Debug)]
pub struct Claims {
    pub sub: i64,
    pub username: String,
    pub exp: usize,
}

} // verus!
