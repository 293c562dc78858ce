//! Plugins of the kaze pipeline: a wrapper for values that are not plugins,
//! and the states of a graceful exit.
use vstd::prelude::*;

verus! {

/// A value registered in the plugin context without being a plugin itself.
#[derive(Clone, Copy)]
pub struct NonPlugin<T> {
    inner: T,
}

impl<T> NonPlugin<T> {
    /// The wrapped value.
    pub closed spec fn spec_inner(&self) -> T {
        self.inner
    }

    pub fn new(inner: T) -> (r: Self)
        ensures
            r.spec_inner() == inner,
    {
        Self { inner }
    }

    /// The wrapped value.
    pub fn inner(&self) -> (r: &T)
        ensures
            *r == self.spec_inner(),
    {
        &self.inner
    }
}

/// Progress of a graceful exit.
#[derive(Clone, Copy, PartialEq, Eq, Structural)]
pub enum State {
    /// The process is exiting.
    Exiting,
    /// The process has exited.
    Exited,
}

} // verus!
