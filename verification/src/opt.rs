//! Settings of the service that the library's callers hand on.

use vstd::prelude::*;

verus! {

/// Where the invalidation channel is reached.
#[derive(Debug, PartialEq, Eq)]
pub struct RedisOpt {
    pub redis_url: String,
}

impl RedisOpt {
    /// The address used where none is configured.
    pub open spec fn default_url() -> Seq<char> {
        "redis://localhost"@
    }
}

impl Default for RedisOpt {
    fn default() -> (opt: RedisOpt)
        ensures
            opt.redis_url@ == RedisOpt::default_url(),
    {
        RedisOpt { redis_url: "redis://localhost".to_owned() }
    }
}

} // verus!
