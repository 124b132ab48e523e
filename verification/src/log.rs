//! An explicit logger handed to the engine at construction. Messages are
//! emitted only when their level clears the configured verbosity, and are
//! collected in order so a caller can drain and print them.

use vstd::prelude::*;

verus! {

/// Collects emitted messages; a message is emitted only when its level is at
/// least the configured verbosity.
pub struct Logger {
    pub verbosity: i32,
    pub messages: Vec<&'static str>,
}

impl Logger {
    /// A logger that emits everything at or above level zero.
    pub fn new() -> (r: Logger)
        ensures
            r.verbosity == 0,
            r.messages@ == Seq::<&'static str>::empty(),
    {
        Logger { verbosity: 0, messages: Vec::new() }
    }

    pub fn set_verbosity(&mut self, new_value: i32)
        ensures
            final(self).verbosity == new_value,
            final(self).messages@ == old(self).messages@,
    {
        self.verbosity = new_value;
    }

    /// Whether a message at `level` clears the configured verbosity.
    pub fn is_at_least(&self, level: i32) -> (r: bool)
        ensures
            r == (level >= self.verbosity),
    {
        level >= self.verbosity
    }

    /// Records `msg` exactly when `level` clears the configured verbosity.
    pub fn log_at_level(&mut self, level: i32, msg: &'static str)
        ensures
            level >= old(self).verbosity ==> final(self).messages@ == old(self).messages@.push(msg),
            level < old(self).verbosity ==> final(self).messages@ == old(self).messages@,
            final(self).verbosity == old(self).verbosity,
    {
        if self.is_at_least(level) {
            self.messages.push(msg);
        }
    }

    /// Records the opening line of a trace block for `tag`.
    pub fn trace_prefix(&mut self, tag: &'static str)
        ensures
            final(self).messages@ == old(self).messages@.push(tag),
            final(self).verbosity == old(self).verbosity,
    {
        self.messages.push(tag);
    }

    /// Records the closing line of a trace block.
    pub fn trace_suffix(&mut self)
        ensures
            final(self).messages@ == old(self).messages@.push(
                "------------------------------------------------",
            ),
            final(self).verbosity == old(self).verbosity,
    {
        self.messages.push("------------------------------------------------");
    }

    /// Hands out the collected messages and clears the log.
    pub fn drain(&mut self) -> (r: Vec<&'static str>)
        ensures
            r@ == old(self).messages@,
            final(self).messages@ == Seq::<&'static str>::empty(),
            final(self).verbosity == old(self).verbosity,
    {
        let mut out: Vec<&'static str> = Vec::new();
        core::mem::swap(&mut out, &mut self.messages);
        out
    }
}

} // verus!
