//! Waking a selector from elsewhere, by a byte through a pipe that it watches.
use vstd::prelude::*;
use crate::error;
use crate::error::{Error, ErrorView, SyscallError};
use crate::selector::{Registration, Selector, SelectorInner};
use crate::types::{Interest, RawHandle, Token};

verus! {

/// The two ends of a pipe.
#[derive(Clone, Copy, Debug, PartialEq, Eq, Hash, Structural)]
pub struct PipeEnds {
    pub read: RawHandle,
    pub write: RawHandle,
}

/// A non-blocking write of one byte.
#[derive(Clone, Copy, Debug, PartialEq, Eq, Hash, Structural)]
pub struct WakeRequest {
    pub handle: RawHandle,
    pub byte: u8,
}

/// Wakes a selector: the write end of a pipe whose read end the selector watches.
#[derive(Debug, PartialEq, Eq, Structural)]
pub struct Waker {
    pub write_handle: RawHandle,
}

impl Waker {
    /// The registration by which wakes through a pipe are heard under `token`.
    pub open spec fn listening(ends: PipeEnds, token: Token) -> Registration {
        Registration {
            handle: ends.read,
            interest: Interest { readable: true, writable: false },
            token,
        }
    }

    /// A waker whose wakes are heard under `token`, on the pipe the kernel made for it, or the
    /// error for its refusal to make one, which registers nothing.
    pub fn new(
        selector: &Selector,
        inner: &mut SelectorInner,
        token: Token,
        pipe: Result<PipeEnds, SyscallError>,
    ) -> (waker: Result<Waker, Error>)
        ensures
            error::outcome(waker) == (match pipe {
                Ok(ends) => Ok::<Waker, ErrorView>(Waker { write_handle: ends.write }),
                Err(e) => Err(e.as_other()),
            }),
            final(inner)@ == (match pipe {
                Ok(ends) => old(inner)@.push(Waker::listening(ends, token)),
                Err(_) => old(inner)@,
            }),
    {
        let ends = match pipe {
            Ok(ends) => ends,
            Err(e) => {
                return Err(error::syscall_err_to_io(e));
            },
        };
        match selector.register_handle(inner, ends.read, token, Interest::reading()) {
            Ok(()) => Ok(Waker { write_handle: ends.write }),
            Err(e) => Err(e),
        }
    }

    /// The write that wakes the selector.
    pub fn wake(&self) -> (request: WakeRequest)
        ensures
            request == (WakeRequest { handle: self.write_handle, byte: 1 }),
    {
        WakeRequest { handle: self.write_handle, byte: 1 }
    }

    /// The result of a wake: a success, whatever came of its write.
    pub fn woken(_answer: Result<usize, SyscallError>) -> (result: Result<(), Error>)
        ensures
            result is Ok,
    {
        Ok(())
    }
}

} // verus!
