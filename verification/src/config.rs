//! Fixed locations and the password check.
use vstd::prelude::*;

use crate::response::{plain, Response};

verus! {

/// The directory that holds the repositories.
pub const REPOS_DIR: &'static str = "/var/lib/gruct-repos";

/// The directory that holds the file of git keys.
pub const GIT_KEYS_DIR: &'static str = "/var/lib/gruct/git-keys";

/// Checks the password a request carries against the server's password: a
/// mismatch is answered with 401 "Authentication failed".
pub fn compare_passwd(passwd: &str, expected: &str) -> (r: Result<(), Response>)
    ensures
        r is Ok <==> passwd@ == expected@,
        r matches Err(e) ==> e@ == plain(401, "Authentication failed"@),
{
    if !crate::text::same_text(passwd, expected) {
        return Err(Response::plain(401, "Authentication failed"));
    }
    Ok(())
}

} // verus!
