//! The watermark cache's error kinds and the reading of its replies.

use vstd::prelude::*;
use vstd::string::*;

verus! {

/// Why a cache operation failed.
#[derive(Clone, Copy, Debug, PartialEq, Eq, Structural)]
pub enum CacheError {
    /// No connection to the cache could be made.
    Connection,
    /// The cache refused or failed the key operation.
    Operation,
}

/// The watermark a cache reply stands for: an absent key reads as the empty
/// watermark, a stored value as itself.
pub fn cached_value_from(reply: Result<Option<String>, CacheError>) -> (r: Result<String, CacheError>)
    ensures
        reply matches Ok(Some(v)) ==> r == Ok::<String, CacheError>(v),
        reply matches Ok(None) ==> (r matches Ok(v) && v@.len() == 0),
        reply matches Err(e) ==> r == Err::<String, CacheError>(e),
{
    match reply {
        Ok(Some(v)) => Ok(v),
        Ok(None) => Ok(String::new()),
        Err(e) => Err(e),
    }
}

/// The connection URL for a cache at `host` (a `host:port` pair).
pub fn redis_url(host: &str) -> (r: String)
    ensures
        r@ == "redis://"@ + host@,
{
    let mut s = String::from_str("redis://");
    s.append(host);
    s
}

} // verus!
