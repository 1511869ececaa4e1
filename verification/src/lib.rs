use vstd::prelude::*;

pub mod protocol;
pub mod text;
pub mod identity;
pub mod pairing;
pub mod directory;
pub mod agent;
pub mod apollo;
pub mod transport;

verus! {
}
