//! Username validation.

use crate::utils::text::bytes_of;
use vstd::prelude::*;
use vstd::string::*;

verus! {

/// The longest username that is accepted, in bytes.
pub const MAX_USERNAME_BYTES: usize = 100;

/// A username is acceptable when it is not empty and no longer than the limit.
pub open spec fn username_is_valid(username: Seq<char>) -> bool {
    0 < bytes_of(username).len() <= MAX_USERNAME_BYTES
}

/// Whether a username has an acceptable format.
pub fn validate_username(username: &str) -> (r: bool)
    ensures
        r == username_is_valid(username@),
{
    let size: usize = username.as_bytes().len();
    0 < size && size <= MAX_USERNAME_BYTES
}

} // verus!
