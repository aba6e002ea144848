//! A simple step counter for long-running generation work.
use vstd::prelude::*;

verus! {

/// Tracks how far a multi-step task has come, with the message of the most
/// recent step. The completed fraction is `current_step / total_steps`,
/// which callers compute in whatever precision they display.
pub struct ProgressTracker {
    pub current_step: usize,
    pub total_steps: usize,
    pub message: String,
}

impl ProgressTracker {
    /// A tracker at step zero with an empty message.
    pub fn new(total_steps: usize) -> (r: ProgressTracker)
        ensures
            r.current_step == 0,
            r.total_steps == total_steps,
            r.message@ == Seq::<char>::empty(),
    {
        ProgressTracker { current_step: 0, total_steps, message: String::new() }
    }

    /// Advances by one step and records its message.
    pub fn step(&mut self, message: String)
        requires
            old(self).current_step < usize::MAX,
        ensures
            final(self).current_step == old(self).current_step + 1,
            final(self).total_steps == old(self).total_steps,
            final(self).message == message,
    {
        self.current_step = self.current_step + 1;
        self.message = message;
    }
}

} // verus!
