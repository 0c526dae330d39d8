//! Names and limits shared by the whole crate.

use vstd::prelude::*;

verus! {

pub const NAME: &'static str = "indexnow-updater";

pub const VERSION: &'static str = "1.0.1";

pub const REPO: &'static str = "https://git.ypbind.de/cgit/indexnow-updater";

/// Upper bound on the number of URLs in one submission batch, dictated by
/// the IndexNow protocol's documented per-request limit.
pub const BATCH_SIZE: usize = 9000;

/// Client-side timeout, in seconds, for one submission request.
pub const DEFAULT_TIMEOUT: u64 = 300;

/// The user agent string presented to remote endpoints:
/// the program name, its version, and the repository, as
/// `name/version (repository)`.
pub fn generate_user_agent() -> (r: String)
    ensures
        r@ == NAME@ + "/"@ + VERSION@ + " ("@ + REPO@ + ")"@,
{
    let mut ua = String::new();
    ua.append(NAME);
    ua.append("/");
    ua.append(VERSION);
    ua.append(" (");
    ua.append(REPO);
    ua.append(")");
    ua
}

} // verus!
