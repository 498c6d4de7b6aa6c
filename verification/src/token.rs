use vstd::prelude::*;

verus! {

/// The cooperative-cancellation flag.  Background work checks `is_stale`
/// at every meaningful checkpoint and aborts with a stale outcome instead
/// of finishing superseded work.  `set_stale` and `set_fresh` are
/// idempotent; `set_fresh` exists only so the animation flag can be
/// re-armed for a cosmetic, non-cancelling transition.
#[derive(Debug, Clone, Copy, PartialEq, Eq, Structural)]
pub struct CancelToken {
    stale: bool,
}

impl CancelToken {
    pub closed spec fn spec_is_stale(&self) -> bool {
        self.stale
    }

    pub fn new() -> (t: CancelToken)
        ensures
            !t.spec_is_stale(),
    {
        CancelToken { stale: false }
    }

    pub fn is_stale(&self) -> (r: bool)
        ensures
            r == self.spec_is_stale(),
    {
        self.stale
    }

    pub fn set_stale(&mut self)
        ensures
            final(self).spec_is_stale(),
    {
        self.stale = true;
    }

    pub fn set_fresh(&mut self)
        ensures
            !final(self).spec_is_stale(),
    {
        self.stale = false;
    }
}

/// A ticket identifying one generation of background work.  Every
/// `change_to` on an async container opens a new generation and hands out
/// its ticket; a ticket from an earlier generation is stale forever after.
#[derive(Debug, Clone, Copy, PartialEq, Eq, Structural)]
pub struct Generation {
    gen: u64,
}

impl Generation {
    pub closed spec fn spec_gen(&self) -> u64 {
        self.gen
    }

    /// The generation number this ticket names.
    pub fn gen_value(&self) -> (g: u64)
        ensures
            g == self.spec_gen(),
    {
        self.gen
    }
}

/// Only the async container mints tickets; everything else copies them.
pub(crate) fn mint_generation(gen: u64) -> (g: Generation)
    ensures
        g.spec_gen() == gen,
{
    Generation { gen }
}

} // verus!
