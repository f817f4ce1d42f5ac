//! What every subsystem offers to the controller that owns it.

use vstd::prelude::*;

verus! {

/// A subsystem: built from a configuration, run once per tick on a request.
pub trait Subsystem<Config, Req, Res>: Sized {
    /// Whether `run` may be called on `req` in this state.
    spec fn accepts(&self, req: Req) -> bool;

    /// The subsystem in its initial state under `config`.
    fn new(config: Config) -> Self;

    /// Takes over a new configuration.
    fn update(&mut self, config: Config);

    /// Runs one tick on `req`.
    fn run(&mut self, req: Req) -> (res: Res)
        requires
            old(self).accepts(req),
    ;

    /// Brings the subsystem back to its initial state under its
    /// configuration.
    fn reset(&mut self);
}

} // verus!
