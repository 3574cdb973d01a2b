//! The plain values that registrations, events and timeouts are made of.
use vstd::prelude::*;

verus! {

/// A kernel handle, as the number the process knows it by.
#[derive(Clone, Copy, Debug, PartialEq, Eq, Hash, Structural)]
pub struct RawHandle(pub u32);

/// The word a caller attaches to a registration and finds again on its events.
#[derive(Clone, Copy, Debug, PartialEq, Eq, Hash, Structural)]
pub struct Token(pub usize);

/// The kinds of readiness a registration asks to hear about.
#[derive(Clone, Copy, Debug, PartialEq, Eq, Hash, Structural)]
pub struct Interest {
    pub readable: bool,
    pub writable: bool,
}

impl Interest {
    /// Interest in readability alone.
    pub fn reading() -> (interest: Interest)
        ensures
            interest == (Interest { readable: true, writable: false }),
    {
        Interest { readable: true, writable: false }
    }

    /// Interest in writability alone.
    pub fn writing() -> (interest: Interest)
        ensures
            interest == (Interest { readable: false, writable: true }),
    {
        Interest { readable: false, writable: true }
    }

    /// Whether readability is asked for.
    pub fn is_readable(self) -> (asked: bool)
        ensures
            asked == self.readable,
    {
        self.readable
    }

    /// Whether writability is asked for.
    pub fn is_writable(self) -> (asked: bool)
        ensures
            asked == self.writable,
    {
        self.writable
    }
}

/// A span of time: whole seconds and the nanoseconds beyond them.
#[derive(Clone, Copy, Debug, PartialEq, Eq, Hash, Structural)]
pub struct Duration {
    pub secs: u64,
    pub nanos: u32,
}

impl Duration {
    /// The span in nanoseconds.
    pub open spec fn total_nanos(self) -> nat {
        self.secs as nat * 1_000_000_000 + self.nanos as nat
    }

    /// The span in nanoseconds.
    pub fn as_nanos(self) -> (nanos: u128)
        ensures
            nanos == self.total_nanos(),
            nanos == self.secs * 1_000_000_000 + self.nanos,
    {
        self.secs as u128 * 1_000_000_000 + self.nanos as u128
    }
}

} // verus!
