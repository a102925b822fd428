//! The cancellation flag: the rendering thread raises it to ask the
//! background task to stop early; it is cleared again once the stop has been
//! observed, so the next request starts with a clean flag.

use vstd::prelude::*;

verus! {

/// A stop request shared between a session and its in-flight request.
pub struct StopFlag {
    raised: bool,
}

impl StopFlag {
    /// Whether a stop has been requested and not yet observed.
    pub closed spec fn spec_raised(self) -> bool {
        self.raised
    }

    pub fn new() -> (f: Self)
        ensures
            !f.spec_raised(),
    {
        StopFlag { raised: false }
    }

    /// Ask the in-flight request to stop early; idempotent.
    pub fn request_stop(&mut self)
        ensures
            final(self).spec_raised(),
    {
        self.raised = true;
    }

    /// Whether the request should stop after the chunk it is handling.
    pub fn should_stop(&self) -> (r: bool)
        ensures
            r == self.spec_raised(),
    {
        self.raised
    }

    /// Lower the flag after a stop was observed, making it reusable for the
    /// next request.
    pub fn clear(&mut self)
        ensures
            !final(self).spec_raised(),
    {
        self.raised = false;
    }
}

} // verus!
