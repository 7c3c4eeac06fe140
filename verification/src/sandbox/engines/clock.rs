//! The clock of the engine.

use crate::sandbox::extensions::time_extension::TimeExtension;
use crate::sandbox::storage::StorageExtension;
use vstd::prelude::*;

verus! {

/// The clock over a store: over a shared borrow to read it, over a mutable
/// borrow to set it.
pub struct ClockEngine<S> {
    pub storage: S,
}

impl<S> ClockEngine<S> {
    pub fn new(storage: S) -> (r: Self)
        ensures
            r.storage == storage,
    {
        Self { storage }
    }
}

impl<'a> ClockEngine<&'a StorageExtension> {
    /// The time that the clock shows, in milliseconds.
    pub fn get_time(&self) -> (t: u64)
        requires
            self.storage.clock_readable(),
        ensures
            t == self.storage.spec_timestamp_ms(),
    {
        self.storage.current_timestamp_ms()
    }
}

impl<'a> ClockEngine<&'a mut StorageExtension> {
    /// The time that the clock shows, in milliseconds.
    pub fn get_time(&self) -> (t: u64)
        requires
            old(self.storage).clock_readable(),
        ensures
            t == old(self.storage).spec_timestamp_ms(),
    {
        self.storage.current_timestamp_ms()
    }

    /// Moves the clock forward by `millis`.
    pub fn advance(&mut self, millis: u64)
        requires
            old(self).storage.clock_readable(),
            old(self).storage.spec_timestamp_ms() + millis <= u64::MAX,
        ensures
            final(self).storage.clock_readable(),
            final(self).storage.spec_timestamp_ms() == old(self).storage.spec_timestamp_ms()
                + millis,
            final(self).storage@ == old(self).storage@.insert_object(
                old(self).storage@.clock_at((old(self).storage.spec_timestamp_ms() + millis) as u64),
            ),
            *final(final(self).storage) == *final(old(self).storage),
    {
        let current = self.storage.current_timestamp_ms();
        self.storage.set_timestamp_ms(current + millis);
    }

    /// Sets the clock.
    pub fn set_time(&mut self, timestamp_ms: u64)
        requires
            old(self).storage.clock_readable(),
        ensures
            final(self).storage.clock_readable(),
            final(self).storage.spec_timestamp_ms() == timestamp_ms,
            final(self).storage@ == old(self).storage@.insert_object(
                old(self).storage@.clock_at(timestamp_ms),
            ),
            *final(final(self).storage) == *final(old(self).storage),
    {
        self.storage.set_timestamp_ms(timestamp_ms);
    }

    /// Sets the clock to zero.
    pub fn reset(&mut self)
        requires
            old(self).storage.clock_readable(),
        ensures
            final(self).storage.clock_readable(),
            final(self).storage.spec_timestamp_ms() == 0,
            final(self).storage@ == old(self).storage@.insert_object(
                old(self).storage@.clock_at(0),
            ),
            *final(final(self).storage) == *final(old(self).storage),
    {
        self.storage.set_timestamp_ms(0);
    }
}

} // verus!
