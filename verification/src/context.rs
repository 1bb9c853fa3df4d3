//! Contexts: where channels and the sinks that their messages go to meet.

use vstd::prelude::*;

use std::sync::Arc;

verus! {

/// Names a context of the host.
#[derive(Debug)]
pub struct Context {
    id: u64,
}

impl Context {
    /// The context's number.
    pub closed spec fn spec_id(self) -> u64 {
        self.id
    }

    /// The context of that number.
    pub fn new(id: u64) -> (context: Arc<Self>)
        ensures
            context.spec_id() == id,
    {
        Arc::new(Context { id })
    }

    /// The default context: number 0.
    pub fn get_default() -> (context: Arc<Self>)
        ensures
            context.spec_id() == 0,
    {
        Context::new(0)
    }

    /// The context's number.
    pub fn id(&self) -> (id: u64)
        ensures
            id == self.spec_id(),
    {
        self.id
    }
}

} // verus!
