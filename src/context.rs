//! The drawing context that a renderer hands around.
use vstd::prelude::*;
use crate::error::UcreError;

verus! {

/// A drawing context tied to the window it renders into.
#[derive(Debug)]
pub struct Context<'ctx> {
    pub window: &'ctx (),
}

impl Context<'static> {
    /// A context that renders into no window; it cannot fail.
    pub fn init() -> (r: Result<Self, UcreError>)
        ensures
            r is Ok,
    {
        Ok(Context { window: &() })
    }
}

} // verus!
