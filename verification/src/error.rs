use vstd::prelude::*;

verus! {

/// The message carried by every [`PoolCreationError`].
pub open spec fn creation_error_message() -> Seq<char> {
    "Thread pool not created"@
}

/// The failure of building a pool with no workers. It carries no data.
#[derive(Debug)]
pub struct PoolCreationError;

impl PoolCreationError {
    /// The text shown to whoever asked for the pool.
    pub fn throw(&self) -> (message: String)
        ensures
            message@ == creation_error_message(),
    {
        "Thread pool not created".to_owned()
    }
}

} // verus!
