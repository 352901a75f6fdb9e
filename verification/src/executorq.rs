//! A bounded executor that refuses instead of blocking.
//!
//! When the queue is full, a send is refused immediately rather than
//! parking the sender, so one slow consumer can never stall every
//! producer behind a full queue.

use vstd::prelude::*;

verus! {

/// A message routed through the executor.
#[derive(Clone, Copy, Debug, PartialEq, Eq, Structural)]
pub struct Message {
    /// The sending party.
    pub from: u64,
    /// The destination party.
    pub to: u64,
    /// Opaque payload identifier.
    pub data: u64,
}

/// A FIFO queue with a fixed capacity.
pub struct BoundedExecutor {
    /// Queued messages, oldest first.
    pub queue: Vec<Message>,
    /// The most messages the queue may hold.
    pub capacity: usize,
}

impl BoundedExecutor {
    /// The queue never exceeds its capacity.
    pub open spec fn wf(self) -> bool {
        self.queue@.len() <= self.capacity
    }

    /// Build an empty executor with the given capacity.
    pub fn new(capacity: usize) -> (e: Self)
        ensures
            e.wf(),
            e.capacity == capacity,
            e.queue@.len() == 0,
    {
        BoundedExecutor { queue: Vec::new(), capacity }
    }

    /// The executor's capacity.
    pub fn get_capacity(&self) -> (c: usize)
        ensures
            c == self.capacity,
    {
        self.capacity
    }

    /// Queue a message without ever blocking: a full queue refuses the
    /// message and the sender moves on.
    pub fn send_message_nonblocking(&mut self, msg: Message) -> (r: Result<(), ()>)
        requires
            old(self).wf(),
        ensures
            final(self).wf(),
            final(self).capacity == old(self).capacity,
            old(self).queue@.len() < old(self).capacity ==> r is Ok && final(self).queue@ == old(self).queue@.push(msg),
            old(self).queue@.len() >= old(self).capacity ==> r is Err && final(self).queue@ == old(self).queue@,
    {
        if self.queue.len() < self.capacity {
            self.queue.push(msg);
            Ok(())
        } else {
            Err(())
        }
    }

    /// Take the oldest queued message, if any; the consumer's runtime
    /// processes it outside the queue.
    pub fn take_next(&mut self) -> (r: Option<Message>)
        requires
            old(self).wf(),
        ensures
            final(self).wf(),
            final(self).capacity == old(self).capacity,
            match r {
                Some(m) => old(self).queue@.len() > 0 && m == old(self).queue@[0] && final(self).queue@ == old(self).queue@.drop_first(),
                None => old(self).queue@.len() == 0 && final(self).queue@ == old(self).queue@,
            },
    {
        if self.queue.len() == 0 {
            None
        } else {
            let m = self.queue.remove(0);
            proof {
                assert(self.queue@ =~= old(self).queue@.drop_first());
            }
            Some(m)
        }
    }
}

} // verus!
