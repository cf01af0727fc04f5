//! The context a job runs in.

use vstd::prelude::*;

verus! {

/// Names the job, and the shard of it, that an operator works for.
pub struct Context {
    pub job_id: String,
    pub shard_id: Option<String>,
}

impl Default for Context {
    fn default() -> (r: Self)
        ensures
            r.job_id@ == "default"@,
            r.shard_id is None,
    {
        Context { job_id: "default".to_string(), shard_id: None }
    }
}

} // verus!
