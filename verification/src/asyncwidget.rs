use vstd::prelude::*;

use crate::fail::{WError, WResult};
use crate::token::{mint_generation, CancelToken, Generation};

verus! {

/// The asynchronous widget container.  A producer for its current
/// generation runs off-thread; the container itself only records which
/// generation is current, whether that generation has been cancelled, and
/// the completed value once one has been delivered.
///
/// `change_to` opens a new generation, so any result still in flight under
/// an older ticket is discarded by `deliver`: that is the whole "newer
/// navigation wins" guarantee, and `deliver` re-checks staleness before
/// reporting readiness as a second line of defense.
#[derive(Debug)]
pub struct AsyncWidget<W> {
    gen: u64,
    token: CancelToken,
    value: Option<W>,
    failed: bool,
}

impl<W> AsyncWidget<W> {
    /// The number of the current generation.
    pub closed spec fn spec_gen(&self) -> u64 {
        self.gen
    }

    /// Whether the current generation has been cancelled.
    pub closed spec fn spec_is_stale(&self) -> bool {
        self.token.spec_is_stale()
    }

    /// The delivered value of the current generation, if any.
    pub closed spec fn spec_value(&self) -> Option<W> {
        self.value
    }

    /// Whether the current generation's producer delivered an error.
    pub closed spec fn spec_failed(&self) -> bool {
        self.failed
    }

    /// A ticket is stale when its generation is no longer the current one,
    /// or when the current generation itself has been cancelled.
    pub open spec fn spec_token_stale(&self, g: Generation) -> bool {
        g.spec_gen() != self.spec_gen() || self.spec_is_stale()
    }

    /// What `deliver` leaves in the container: the result is kept only if
    /// its ticket matches the current generation and that generation is
    /// still fresh; otherwise the container is untouched.
    pub closed spec fn spec_deliver(self, g: Generation, result: WResult<W>) -> AsyncWidget<W> {
        if self.spec_token_stale(g) {
            self
        } else {
            match result {
                Ok(w) => AsyncWidget { value: Some(w), failed: false, ..self },
                Err(_) => AsyncWidget { value: None, failed: true, ..self },
            }
        }
    }

    /// A fresh, pending container: generation zero, no value yet.
    pub fn new() -> (c: AsyncWidget<W>)
        ensures
            c.spec_gen() == 0,
            !c.spec_is_stale(),
            c.spec_value() is None,
            !c.spec_failed(),
    {
        AsyncWidget { gen: 0, token: CancelToken::new(), value: None, failed: false }
    }

    /// Abandon the current computation and open the next generation: the
    /// previous ticket becomes stale, the slot empties, and the ticket of
    /// the new generation is handed out.
    pub fn change_to(&mut self) -> (g: Generation)
        requires
            old(self).spec_gen() < u64::MAX,
        ensures
            final(self).spec_gen() == old(self).spec_gen() + 1,
            !final(self).spec_is_stale(),
            final(self).spec_value() is None,
            !final(self).spec_failed(),
            g.spec_gen() == final(self).spec_gen(),
    {
        self.token.set_stale();
        self.gen = self.gen + 1;
        self.token = CancelToken::new();
        self.value = None;
        self.failed = false;
        mint_generation(self.gen)
    }

    /// Cancel the current generation without starting a new one.
    pub fn set_stale(&mut self)
        ensures
            final(self).spec_is_stale(),
            final(self).spec_gen() == old(self).spec_gen(),
            final(self).spec_value() == old(self).spec_value(),
            final(self).spec_failed() == old(self).spec_failed(),
    {
        self.token.set_stale();
    }

    /// Whether the current generation has been cancelled.
    pub fn is_stale(&self) -> (r: bool)
        ensures
            r == self.spec_is_stale(),
    {
        self.token.is_stale()
    }

    /// The number of the current generation, so a caller can see the
    /// counter nearing its end before opening another generation.
    pub fn generation(&self) -> (g: u64)
        ensures
            g == self.spec_gen(),
    {
        self.gen
    }

    /// The ticket of the current generation.
    pub fn get_stale(&self) -> (g: Generation)
        ensures
            g.spec_gen() == self.spec_gen(),
    {
        mint_generation(self.gen)
    }

    /// Whether work holding the given ticket should abandon itself.
    pub fn token_is_stale(&self, g: &Generation) -> (r: bool)
        ensures
            r == self.spec_token_stale(*g),
    {
        g.gen_value() != self.gen || self.token.is_stale()
    }

    /// A producer's completion arrives.  The result is kept, and readiness
    /// reported, only if the ticket still names the current, fresh
    /// generation; a completion of a superseded generation changes nothing.
    pub fn deliver(&mut self, g: &Generation, result: WResult<W>) -> (notified: bool)
        ensures
            notified == !old(self).spec_token_stale(*g),
            *final(self) == old(self).spec_deliver(*g, result),
            final(self).spec_gen() == old(self).spec_gen(),
            final(self).spec_is_stale() == old(self).spec_is_stale(),
            !notified ==> final(self).spec_value() == old(self).spec_value()
                && final(self).spec_failed() == old(self).spec_failed(),
            notified ==> (result matches Ok(w) ==> final(self).spec_value() == Some(w)
                && !final(self).spec_failed()),
            notified ==> (result matches Err(_) ==> final(self).spec_value() is None
                && final(self).spec_failed()),
    {
        if self.token_is_stale(g) {
            false
        } else {
            match result {
                Ok(w) => {
                    self.value = Some(w);
                    self.failed = false;
                }
                Err(_) => {
                    self.value = None;
                    self.failed = true;
                }
            }
            true
        }
    }

    /// The completed widget, or `NotReady` while the producer has not
    /// delivered one (or delivered an error).
    pub fn widget(&self) -> (r: WResult<&W>)
        ensures
            r is Ok <==> self.spec_value() is Some,
            r matches Ok(w) ==> self.spec_value() == Some(*w),
            r matches Err(e) ==> e == WError::NotReady,
    {
        match &self.value {
            Some(w) => Ok(w),
            None => Err(WError::NotReady),
        }
    }

    /// Whether a completed widget is available.
    pub fn ready(&self) -> (r: bool)
        ensures
            r == (self.spec_value() is Some),
    {
        self.value.is_some()
    }

    /// Hand the completed widget out, consuming the container.
    pub fn take_widget(self) -> (r: WResult<W>)
        ensures
            r is Ok <==> self.spec_value() is Some,
            r matches Ok(w) ==> self.spec_value() == Some(w),
            r matches Err(e) ==> e == WError::NotReady,
    {
        match self.value {
            Some(w) => Ok(w),
            None => Err(WError::NotReady),
        }
    }

    /// Empty the slot, handing out whatever value it held.  The generation
    /// and its flag stay as they are.
    pub fn take_value(&mut self) -> (r: Option<W>)
        ensures
            r == old(self).spec_value(),
            final(self).spec_value() is None,
            final(self).spec_gen() == old(self).spec_gen(),
            final(self).spec_is_stale() == old(self).spec_is_stale(),
            final(self).spec_failed() == old(self).spec_failed(),
    {
        self.value.take()
    }

    /// The container after a whole batch of completions has arrived, in
    /// the given order.
    pub open spec fn spec_deliver_all(self, events: Seq<(Generation, WResult<W>)>) -> AsyncWidget<
        W,
    >
        decreases events.len(),
    {
        if events.len() == 0 {
            self
        } else {
            self.spec_deliver(events[0].0, events[0].1).spec_deliver_all(events.drop_first())
        }
    }

    /// A completion whose ticket is stale changes nothing at all.
    pub proof fn lemma_stale_delivery_ignored(self, g: Generation, result: WResult<W>)
        requires
            self.spec_token_stale(g),
        ensures
            self.spec_deliver(g, result) == self,
    {
    }

    /// Delivering never moves the container to another generation and
    /// never cancels or revives one.
    pub proof fn lemma_deliver_keeps_generation(self, g: Generation, result: WResult<W>)
        ensures
            self.spec_deliver(g, result).spec_gen() == self.spec_gen(),
            self.spec_deliver(g, result).spec_is_stale() == self.spec_is_stale(),
    {
    }

    /// A batch of completions none of which names the current generation
    /// leaves the container exactly as it was.
    pub proof fn lemma_superseded_batch_ignored(
        self,
        events: Seq<(Generation, WResult<W>)>,
    )
        requires
            forall|j: int|
                0 <= j < events.len() ==> #[trigger] events[j].0.spec_gen() != self.spec_gen(),
        ensures
            self.spec_deliver_all(events) == self,
        decreases events.len(),
    {
        if events.len() > 0 {
            assert(events[0].0.spec_gen() != self.spec_gen());
            self.lemma_stale_delivery_ignored(events[0].0, events[0].1);
            self.lemma_superseded_batch_ignored(events.drop_first());
        }
    }

    /// Law (no stale overwrite): however the completions of older
    /// generations are interleaved with the completion of the current
    /// generation, the value that settles in the container is the current
    /// generation's, never an earlier one's.
    pub proof fn lemma_latest_generation_wins(
        self,
        events: Seq<(Generation, WResult<W>)>,
        i: int,
    )
        requires
            !self.spec_is_stale(),
            0 <= i < events.len(),
            events[i].0.spec_gen() == self.spec_gen(),
            events[i].1 is Ok,
            forall|j: int|
                0 <= j < events.len() && j != i ==> #[trigger] events[j].0.spec_gen()
                    != self.spec_gen(),
        ensures
            self.spec_deliver_all(events).spec_value() == Some(events[i].1.unwrap()),
            self.spec_deliver_all(events).spec_gen() == self.spec_gen(),
        decreases events.len(),
    {
        if i == 0 {
            let after = self.spec_deliver(events[0].0, events[0].1);
            assert(after.spec_value() == Some(events[0].1.unwrap()));
            let rest = events.drop_first();
            assert(forall|j: int|
                0 <= j < rest.len() ==> #[trigger] rest[j].0.spec_gen() != after.spec_gen());
            after.lemma_superseded_batch_ignored(rest);
        } else {
            assert(events[0].0.spec_gen() != self.spec_gen());
            self.lemma_stale_delivery_ignored(events[0].0, events[0].1);
            let rest = events.drop_first();
            assert(rest[i - 1] == events[i]);
            assert(forall|j: int|
                0 <= j < rest.len() && j != i - 1 ==> #[trigger] rest[j].0.spec_gen()
                    != self.spec_gen()) by {
                assert(forall|j: int|
                    0 <= j < rest.len() ==> rest[j] == events[j + 1]);
            }
            self.lemma_latest_generation_wins(rest, i - 1);
        }
    }

    /// Law (monotonic staleness): delivering completions never revives a
    /// stale ticket.
    pub proof fn lemma_deliver_keeps_tickets_stale(
        self,
        g: Generation,
        g2: Generation,
        r: WResult<W>,
    )
        requires
            self.spec_token_stale(g),
        ensures
            self.spec_deliver(g2, r).spec_token_stale(g),
    {
    }

    /// Law (monotonic staleness): a ticket of a superseded generation is
    /// stale in every container state the generations can reach, because
    /// the generation counter never moves backwards.
    pub proof fn lemma_old_ticket_stays_stale(
        self,
        later: AsyncWidget<W>,
        g: Generation,
    )
        requires
            g.spec_gen() < self.spec_gen(),
            later.spec_gen() >= self.spec_gen(),
        ensures
            self.spec_token_stale(g),
            later.spec_token_stale(g),
    {
    }

    /// Law: opening a new generation invalidates exactly the previous
    /// tickets.  `pre` and `post` are a container's state before and after
    /// `change_to`; any ticket minted before is stale afterwards, and the
    /// ticket of the new generation is fresh.
    pub proof fn lemma_change_to_invalidates(
        pre: AsyncWidget<W>,
        post: AsyncWidget<W>,
        g_old: Generation,
        g_new: Generation,
    )
        requires
            g_old.spec_gen() <= pre.spec_gen(),
            post.spec_gen() == pre.spec_gen() + 1,
            !post.spec_is_stale(),
            g_new.spec_gen() == post.spec_gen(),
        ensures
            post.spec_token_stale(g_old),
            !post.spec_token_stale(g_new),
    {
    }

    /// Put a completed value straight into the slot of the current
    /// generation.
    pub fn store_value(&mut self, w: W)
        ensures
            final(self).spec_value() == Some(w),
            !final(self).spec_failed(),
            final(self).spec_gen() == old(self).spec_gen(),
            final(self).spec_is_stale() == old(self).spec_is_stale(),
    {
        self.value = Some(w);
        self.failed = false;
    }
}

} // verus!
