//! The execution shim: a handler whose body must stay on the host's own
//! single-threaded scheduler hands its result back through a one-shot
//! channel, and the framework-facing wrapper resumes with that one value.
//!
//! A run moves through four stages: the inner body is spawned, runs, sends
//! exactly one value — its own result, or a terminal error value on its
//! failure path — and the waiting consumer resumes with it. The producer
//! never omits the send: a channel left without a value would suspend the
//! consumer forever. There is no cancellation: once spawned, the inner body
//! runs to completion, and a result nobody waits for anymore is discarded.

use vstd::prelude::*;

verus! {

/// How the inner handler body ended: with its value, or on its
/// unrecoverable failure path.
pub enum HandlerOutcome<V> {
    Success(V),
    Failure,
}

/// A one-shot channel: it delivers exactly one value from exactly one
/// producer to exactly one consumer, then stays closed.
pub struct OneShot<V> {
    slot: Option<V>,
    delivered: bool,
}

impl<V> OneShot<V> {
    /// The value sent and not yet taken, if any.
    pub closed spec fn sent(&self) -> Option<V> {
        self.slot
    }

    /// Whether the consumer already took the value.
    pub closed spec fn is_delivered(&self) -> bool {
        self.delivered
    }

    /// A fresh channel: nothing sent, nothing delivered.
    pub fn new() -> (r: Self)
        ensures
            r.sent() is None,
            !r.is_delivered(),
    {
        OneShot { slot: None, delivered: false }
    }

    /// Sends the one value. On a fresh channel the send succeeds; a second
    /// send, or a send after delivery, is refused and hands the value back.
    pub fn send(&mut self, v: V) -> (r: Result<(), V>)
        ensures
            old(self).sent() is None && !old(self).is_delivered() ==> r is Ok
                && final(self).sent() == Some(v) && !final(self).is_delivered(),
            old(self).sent() is Some || old(self).is_delivered() ==> r == Err::<(), V>(v)
                && *final(self) == *old(self),
    {
        if self.delivered || self.slot.is_some() {
            return Err(v);
        }
        self.slot = Some(v);
        Ok(())
    }

    /// Resumes the consumer with the sent value. The consumer suspends until
    /// a value is there, so it resumes only on a channel that holds one; the
    /// channel is closed by the delivery.
    pub fn recv(&mut self) -> (r: V)
        requires
            old(self).sent() is Some,
            !old(self).is_delivered(),
        ensures
            Some(r) == old(self).sent(),
            final(self).sent() is None,
            final(self).is_delivered(),
    {
        self.delivered = true;
        let v = self.slot.take();
        v.unwrap()
    }

    /// Polls for the value without suspending: the first poll after the
    /// send takes the value, every later poll finds the channel closed.
    pub fn try_recv(&mut self) -> (r: Option<V>)
        ensures
            match r {
                Some(v) => old(self).sent() == Some(v) && !old(self).is_delivered()
                    && final(self).sent() is None && final(self).is_delivered(),
                None => (old(self).sent() is None || old(self).is_delivered())
                    && *final(self) == *old(self),
            },
    {
        if self.delivered {
            return None;
        }
        match self.slot.take() {
            Some(v) => {
                self.delivered = true;
                Some(v)
            },
            None => None,
        }
    }
}

/// Runs one shim cycle for a handler body that ended with `outcome`: the
/// producer sends exactly one value — the handler's value, or `terminal` on
/// the failure path — and the consumer resumes with it. The wrapper always
/// resolves; it never leaves the channel without a sent value.
pub fn run_shim<V>(outcome: HandlerOutcome<V>, terminal: V) -> (r: V)
    ensures
        match outcome {
            HandlerOutcome::Success(v) => r == v,
            HandlerOutcome::Failure => r == terminal,
        },
{
    let mut channel: OneShot<V> = OneShot::new();
    let sent = match outcome {
        HandlerOutcome::Success(v) => channel.send(v),
        HandlerOutcome::Failure => channel.send(terminal),
    };
    proof {
        assert(sent is Ok);
    }
    channel.recv()
}

} // verus!
