//! A single-slot mailbox between a producer that must never block and a
//! consumer that may.
//!
//! This is the mailbox itself: the value, a flag that says whether it is
//! new, and a flag that says whether the consumer should stop. Whoever
//! shares it between threads puts it behind a lock and a condition variable.
//! The producer takes the lock only if it is free, and then calls
//! [`MonitorData::update`] and writes the new value; if the lock is taken it
//! skips the update. The
//! consumer holds the lock, calls [`MonitorData::on_changed`], and waits on
//! the condition variable whenever it is told to.
use vstd::prelude::*;

verus! {

/// The mailbox.
#[derive(Debug)]
pub struct MonitorData<T> {
    pub value: T,
    pub new_data: bool,
    pub shutdown: bool,
}

/// What the consumer does next.
#[derive(Clone, Copy, Debug, PartialEq, Eq, Structural)]
pub enum Turn {
    /// The value was new and has been handed to the callback.
    Delivered,
    /// There is nothing new: wait to be signalled, then look again.
    Wait,
    /// Shutdown was requested: stop.
    Exit,
}

impl<T> MonitorData<T> {
    /// A mailbox that holds `value`, not marked as new.
    pub fn new(value: T) -> (r: Self)
        ensures
            r.value == value,
            !r.new_data,
            !r.shutdown,
    {
        MonitorData { value, new_data: false, shutdown: false }
    }

    /// Marks the value as new and hands it out to be overwritten in place.
    /// The waiting consumer is to be signalled once that is done.
    pub fn update(&mut self) -> (r: &mut T)
        ensures
            *r == old(self).value,
            final(self).value == *final(r),
            final(self).new_data,
            final(self).shutdown == old(self).shutdown,
    {
        self.new_data = true;
        &mut self.value
    }

    /// Asks the consumer to stop. The waiting consumer is to be signalled
    /// afterwards.
    pub fn request_shutdown(&mut self)
        ensures
            final(self).shutdown,
            final(self).value == old(self).value,
            final(self).new_data == old(self).new_data,
    {
        self.shutdown = true;
    }

    /// What [`MonitorData::on_changed`] finds.
    pub open spec fn turn(&self) -> Turn {
        if self.shutdown {
            Turn::Exit
        } else if !self.new_data {
            Turn::Wait
        } else {
            Turn::Delivered
        }
    }

    /// One turn of the consumer: stops on shutdown, asks to wait while the
    /// value is not new, and otherwise hands the value to `cb` and marks it
    /// as seen.
    pub fn on_changed<F: FnOnce(&T)>(&mut self, cb: F) -> (r: Turn)
        requires
            call_requires(cb, (&old(self).value,)),
        ensures
            r == old(self).turn(),
            final(self).value == old(self).value,
            final(self).shutdown == old(self).shutdown,
            final(self).new_data == (old(self).new_data && r != Turn::Delivered),
            r == Turn::Delivered ==> call_ensures(cb, (&old(self).value,), ()),
    {
        if self.shutdown {
            return Turn::Exit;
        }
        if !self.new_data {
            return Turn::Wait;
        }
        cb(&self.value);
        self.new_data = false;
        Turn::Delivered
    }
}

} // verus!
