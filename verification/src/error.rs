//! The errors this crate reports, and the kernel and network errors they come from.
use vstd::prelude::*;
use crate::abi;

verus! {

/// The category of an [`Error`].
#[derive(Clone, Copy, Debug, PartialEq, Eq, Hash, Structural)]
pub enum ErrorKind {
    ConnectionRefused,
    ConnectionReset,
    TimedOut,
    AddrInUse,
    NotConnected,
    InvalidInput,
    WouldBlock,
    Unsupported,
    Other,
}

/// An error: its category and, for all but the bare categories, a message.
#[derive(Debug)]
pub struct Error {
    pub kind: ErrorKind,
    pub message: Option<String>,
}

/// What an [`Error`] says, its message as characters.
pub struct ErrorView {
    pub kind: ErrorKind,
    pub message: Option<Seq<char>>,
}

impl ErrorView {
    /// An error of `kind` that says `text`.
    pub open spec fn saying(kind: ErrorKind, text: Seq<char>) -> ErrorView {
        ErrorView { kind, message: Some(text) }
    }

    /// An error of `kind` and nothing more.
    pub open spec fn bare(kind: ErrorKind) -> ErrorView {
        ErrorView { kind, message: None }
    }
}

impl View for Error {
    type V = ErrorView;

    open spec fn view(&self) -> ErrorView {
        ErrorView {
            kind: self.kind,
            message: match self.message {
                Some(text) => Some(text@),
                None => None,
            },
        }
    }
}

/// A fallible result with its error taken by its view.
pub open spec fn outcome<T>(result: Result<T, Error>) -> Result<T, ErrorView> {
    match result {
        Ok(value) => Ok(value),
        Err(error) => Err(error@),
    }
}

impl Error {
    /// An error of `kind` that says `text`.
    pub fn new(kind: ErrorKind, text: &str) -> (error: Error)
        ensures
            error@ == ErrorView::saying(kind, text@),
    {
        Error { kind, message: Some(text.to_owned()) }
    }

    /// An error of `kind` with no message.
    pub fn bare(kind: ErrorKind) -> (error: Error)
        ensures
            error@ == ErrorView::bare(kind),
    {
        Error { kind, message: None }
    }
}

/// What the kernel answers a refused call with.
#[derive(Clone, Copy, Debug, PartialEq, Eq, Hash, Structural)]
pub enum SyscallError {
    Unknown,
    NotFound,
    PermissionDenied,
    AlreadyExists,
    InvalidArgument,
    BadAddress,
    WouldBlock,
    ResourceExhausted,
    NotSupported,
    Io,
    Gone,
}

impl SyscallError {
    /// The number the kernel gives this error.
    pub open spec fn code(self) -> u64 {
        match self {
            SyscallError::Unknown => 0,
            SyscallError::NotFound => 1,
            SyscallError::PermissionDenied => 2,
            SyscallError::AlreadyExists => 3,
            SyscallError::InvalidArgument => 4,
            SyscallError::BadAddress => 5,
            SyscallError::WouldBlock => 6,
            SyscallError::ResourceExhausted => 7,
            SyscallError::NotSupported => 8,
            SyscallError::Io => 9,
            SyscallError::Gone => 10,
        }
    }

    /// The word a refused call returns: the error's number, counted down from the largest word.
    pub fn to_u64(self) -> (word: u64)
        ensures
            word == u64::MAX - self.code(),
    {
        let code: u64 = match self {
            SyscallError::Unknown => 0,
            SyscallError::NotFound => 1,
            SyscallError::PermissionDenied => 2,
            SyscallError::AlreadyExists => 3,
            SyscallError::InvalidArgument => 4,
            SyscallError::BadAddress => 5,
            SyscallError::WouldBlock => 6,
            SyscallError::ResourceExhausted => 7,
            SyscallError::NotSupported => 8,
            SyscallError::Io => 9,
            SyscallError::Gone => 10,
        };
        u64::MAX - code
    }

    /// What an operation that makes nothing of the refusal reports: the kernel's own words.
    pub open spec fn as_other(self) -> ErrorView {
        ErrorView::saying(ErrorKind::Other, abi::syscall_error_message(self.code()))
    }

    /// What a non-blocking transfer reports: "would block" as the bare category its caller
    /// waits on, every other refusal in the kernel's own words.
    pub open spec fn as_transfer_error(self) -> ErrorView {
        if self == SyscallError::WouldBlock {
            ErrorView::bare(ErrorKind::WouldBlock)
        } else {
            self.as_other()
        }
    }
}

/// The error for a refused call whose caller makes nothing of the refusal.
pub fn syscall_err_to_io(e: SyscallError) -> (error: Error)
    ensures
        error@ == e.as_other(),
{
    let text = abi::syscall_error_text(e.to_u64());
    Error { kind: ErrorKind::Other, message: Some(text) }
}

/// The result of a non-blocking transfer, from the kernel's answer to it.
pub fn transfer_result(answer: Result<usize, SyscallError>) -> (result: Result<usize, Error>)
    ensures
        outcome(result) == (match answer {
            Ok(count) => Ok::<usize, ErrorView>(count),
            Err(e) => Err(e.as_transfer_error()),
        }),
{
    match answer {
        Ok(count) => Ok(count),
        Err(SyscallError::WouldBlock) => Err(Error::bare(ErrorKind::WouldBlock)),
        Err(e) => Err(syscall_err_to_io(e)),
    }
}

/// What netd, the network daemon, answers a refused request with.
#[derive(Clone, Copy, Debug, PartialEq, Eq, Hash, Structural)]
pub enum NetError {
    NetdNotFound,
    ConnectionRefused,
    ConnectionReset,
    TimedOut,
    AddrInUse,
    NotConnected,
    InvalidInput,
    ResourceExhausted,
    Protocol(u32),
    Io,
}

impl NetError {
    /// The category a network error falls in. A missing netd is a missing connection.
    pub open spec fn kind(self) -> ErrorKind {
        match self {
            NetError::ConnectionRefused => ErrorKind::ConnectionRefused,
            NetError::ConnectionReset => ErrorKind::ConnectionReset,
            NetError::TimedOut => ErrorKind::TimedOut,
            NetError::AddrInUse => ErrorKind::AddrInUse,
            NetError::NotConnected | NetError::NetdNotFound => ErrorKind::NotConnected,
            NetError::InvalidInput => ErrorKind::InvalidInput,
            NetError::ResourceExhausted | NetError::Protocol(_) | NetError::Io => ErrorKind::Other,
        }
    }

    /// What is reported of a network error.
    pub open spec fn as_io(self) -> ErrorView {
        ErrorView::saying(self.kind(), "netd error"@)
    }
}

/// The error for a request that netd refused.
pub fn net_err_to_io(e: NetError) -> (error: Error)
    ensures
        error@ == e.as_io(),
{
    let kind = match e {
        NetError::ConnectionRefused => ErrorKind::ConnectionRefused,
        NetError::ConnectionReset => ErrorKind::ConnectionReset,
        NetError::TimedOut => ErrorKind::TimedOut,
        NetError::AddrInUse => ErrorKind::AddrInUse,
        NetError::NotConnected => ErrorKind::NotConnected,
        NetError::InvalidInput => ErrorKind::InvalidInput,
        NetError::NetdNotFound => ErrorKind::NotConnected,
        _ => ErrorKind::Other,
    };
    Error::new(kind, "netd error")
}

/// A view of a result tells its value, or its error's category and words.
pub proof fn outcome_tells_the_result<T>(result: Result<T, Error>)
    ensures
        result matches Ok(value) ==> outcome(result) == Ok::<T, ErrorView>(value),
        result matches Err(error) ==> {
            &&& outcome(result) matches Err(seen)
            &&& seen.kind == error.kind
            &&& seen.message is Some <==> error.message is Some
            &&& error.message matches Some(text) ==> seen.message == Some(text@)
        },
{
}

/// A refusal of the kernel's is told in the kernel's words, and two refusals in the same words are
/// the same.
pub proof fn refusals_are_told_apart(a: SyscallError, b: SyscallError)
    ensures
        a.as_other().kind == ErrorKind::Other,
        a.as_other().message is Some,
        a.as_other() == b.as_other() <==> a == b,
        a.code() == b.code() <==> a == b,
        a.code() <= 10,
{
    reveal_strlit("unknown error");
    reveal_strlit("not found");
    reveal_strlit("permission denied");
    reveal_strlit("already exists");
    reveal_strlit("invalid argument");
    reveal_strlit("bad address");
    reveal_strlit("would block");
    reveal_strlit("resource exhausted");
    reveal_strlit("not supported");
    reveal_strlit("the device did not complete the transfer");
    reveal_strlit("the other end is gone");
    let said = abi::syscall_error_message(a.code());
    let heard = abi::syscall_error_message(b.code());
    assert(said.len() == heard.len() && said[0] == heard[0] && said[1] == heard[1] ==> a == b);
}

/// A refusal is told in the words for it.
pub proof fn refusals_are_told_in_words(e: SyscallError)
    ensures
        e.as_other().message == Some(
            match e {
                SyscallError::Unknown => "unknown error"@,
                SyscallError::NotFound => "not found"@,
                SyscallError::PermissionDenied => "permission denied"@,
                SyscallError::AlreadyExists => "already exists"@,
                SyscallError::InvalidArgument => "invalid argument"@,
                SyscallError::BadAddress => "bad address"@,
                SyscallError::WouldBlock => "would block"@,
                SyscallError::ResourceExhausted => "resource exhausted"@,
                SyscallError::NotSupported => "not supported"@,
                SyscallError::Io => "the device did not complete the transfer"@,
                SyscallError::Gone => "the other end is gone"@,
            },
        ),
{
}

/// A transfer is to be tried again if and only if it would block, and then says nothing more. Any
/// other refusal of it is told as one of any other call.
pub proof fn only_blocking_is_to_be_waited_for(e: SyscallError)
    ensures
        e.as_transfer_error().kind == ErrorKind::WouldBlock <==> e == SyscallError::WouldBlock,
        e.as_transfer_error().message is None <==> e == SyscallError::WouldBlock,
        e != SyscallError::WouldBlock ==> e.as_transfer_error() == e.as_other(),
{
}

/// A network error has the category of its name, if there is one. A missing netd is a missing
/// connection, and what has no category of its own is in the one for others. All say the same.
pub proof fn network_errors_have_their_categories(e: NetError)
    ensures
        e.as_io().kind == ErrorKind::ConnectionRefused <==> e is ConnectionRefused,
        e.as_io().kind == ErrorKind::ConnectionReset <==> e is ConnectionReset,
        e.as_io().kind == ErrorKind::TimedOut <==> e is TimedOut,
        e.as_io().kind == ErrorKind::AddrInUse <==> e is AddrInUse,
        e.as_io().kind == ErrorKind::InvalidInput <==> e is InvalidInput,
        e.as_io().kind == ErrorKind::NotConnected <==> (e is NotConnected || e is NetdNotFound),
        e.as_io().kind == ErrorKind::Other <==> (e is ResourceExhausted || e is Protocol
            || e is Io),
        e.as_io().message == Some("netd error"@),
{
}

/// An error says what it is told to say, in the category it is told, and a bare one says nothing.
pub proof fn errors_say_what_they_are_told(kind: ErrorKind, text: Seq<char>)
    ensures
        ErrorView::saying(kind, text).kind == kind,
        ErrorView::saying(kind, text).message == Some(text),
        ErrorView::bare(kind).kind == kind,
        ErrorView::bare(kind).message is None,
{
}

} // verus!
