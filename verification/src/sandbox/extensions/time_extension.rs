//! The clock: an object of the store whose contents hold the time.

use crate::collections::DeepClone;
use crate::object::{clock_object_id, with_trailing_u64, DataView, MoveObjectView, ObjectView, CLOCK_OBJECT_LO};
use crate::base_types::ObjectID;
use crate::sandbox::storage::{StorageExtension, StorageView};
use vstd::prelude::*;

verus! {

/// A clock that moves only when it is told to.
pub trait TimeExtension {
    /// Whether the clock can be read.
    spec fn clock_readable(&self) -> bool;

    /// The time that the clock shows, in milliseconds.
    spec fn spec_timestamp_ms(&self) -> u64;

    fn current_timestamp_ms(&self) -> (t: u64)
        requires
            self.clock_readable(),
        ensures
            t == self.spec_timestamp_ms(),
    ;

    fn set_timestamp_ms(&mut self, timestamp_ms: u64)
        requires
            old(self).clock_readable(),
        ensures
            final(self).clock_readable(),
            final(self).spec_timestamp_ms() == timestamp_ms,
    ;

    /// Moves the clock forward by `millis`.
    fn advance_ms(&mut self, millis: u64)
        requires
            old(self).clock_readable(),
            old(self).spec_timestamp_ms() + millis <= u64::MAX,
        ensures
            final(self).clock_readable(),
            final(self).spec_timestamp_ms() == old(self).spec_timestamp_ms() + millis,
    {
        let current = self.current_timestamp_ms();
        self.set_timestamp_ms(current + millis);
    }
}

impl StorageView {
    /// Whether the store holds the clock object, under its identifier, with
    /// contents that hold a time.
    pub open spec fn has_clock(self) -> bool {
        &&& self.objects.contains_key(clock_object_id())
        &&& self.objects[clock_object_id()].id == clock_object_id()
        &&& self.objects[clock_object_id()].trailing_value() is Some
    }

    /// The clock object with its time set to `timestamp_ms`: only the bytes
    /// of the time differ.
    pub open spec fn clock_at(self, timestamp_ms: u64) -> ObjectView {
        let clock = self.objects[clock_object_id()];
        let inner = clock.data->Move_0;
        ObjectView {
            data: DataView::Move(
                MoveObjectView {
                    contents: with_trailing_u64(inner.contents, timestamp_ms),
                    ..inner
                },
            ),
            ..clock
        }
    }
}

impl StorageView {
    /// The time that the clock shows, where the store holds a clock whose
    /// contents hold a time.
    pub open spec fn timestamp(self) -> Option<u64> {
        if self.objects.contains_key(clock_object_id()) {
            self.objects[clock_object_id()].trailing_value()
        } else {
            None
        }
    }
}

impl StorageExtension {
    /// The time that the clock shows, or nothing where the store holds no
    /// clock that can be read.
    pub fn timestamp_maybe(&self) -> (r: Option<u64>)
        requires
            self.wf(),
        ensures
            r == self@.timestamp(),
    {
        let id = ObjectID { hi: 0, lo: CLOCK_OBJECT_LO };
        match self.get_object(&id) {
            Some(clock) => clock.trailing_value(),
            None => None,
        }
    }
}

impl TimeExtension for StorageExtension {
    open spec fn clock_readable(&self) -> bool {
        self.wf() && self@.has_clock()
    }

    open spec fn spec_timestamp_ms(&self) -> u64 {
        self@.objects[clock_object_id()].trailing_value()->Some_0
    }

    fn current_timestamp_ms(&self) -> (t: u64) {
        let id = ObjectID { hi: 0, lo: CLOCK_OBJECT_LO };
        match self.get_object(&id) {
            Some(clock) => match clock.trailing_value() {
                Some(t) => t,
                None => 0,
            },
            None => 0,
        }
    }

    /// Writes the clock object again with the new time in its contents. The
    /// version, the owner and the digest of the object stay as they are.
    fn set_timestamp_ms(&mut self, timestamp_ms: u64)
        ensures
            final(self)@ == old(self)@.insert_object(old(self)@.clock_at(timestamp_ms)),
    {
        let id = ObjectID { hi: 0, lo: CLOCK_OBJECT_LO };
        let updated = match self.get_object(&id) {
            Some(clock) => clock.with_trailing_value(timestamp_ms),
            None => {
                return ;
            },
        };
        assert(updated@ == old(self)@.clock_at(timestamp_ms));
        self.insert_object(updated);
    }
}

} // verus!
