//! A non-blocking TCP stream: two kernel pipes whose far ends netd, the network daemon, holds.
//!
//! The calls to netd and to the kernel are the caller's. This module decides what is asked of
//! them and what their answers mean.
use vstd::prelude::*;
use crate::error;
use crate::error::{Error, ErrorKind, ErrorView, NetError};
use crate::selector;
use crate::selector::{Registration, Selector, SelectorInner};
use crate::types::{Interest, RawHandle, Token};

verus! {

/// How long netd may take to connect, in milliseconds.
pub const CONNECT_TIMEOUT_MS: u32 = 30000;

/// The hop limit every stream reports.
pub const TTL: u32 = 64;

/// An IPv4 address and a port.
#[derive(Clone, Copy, Debug, PartialEq, Eq, Hash)]
pub struct SocketAddrV4 {
    pub ip: [u8; 4],
    pub port: u16,
}

/// An IPv6 address and a port.
#[derive(Clone, Copy, Debug, PartialEq, Eq, Hash)]
pub struct SocketAddrV6 {
    pub ip: [u8; 16],
    pub port: u16,
    pub flowinfo: u32,
    pub scope_id: u32,
}

/// An internet address and a port.
#[derive(Clone, Copy, Debug, PartialEq, Eq, Hash)]
pub enum SocketAddr {
    V4(SocketAddrV4),
    V6(SocketAddrV6),
}

/// The sides of a stream to shut down.
#[derive(Clone, Copy, Debug, PartialEq, Eq, Hash, Structural)]
pub enum Shutdown {
    Read,
    Write,
    Both,
}

impl Shutdown {
    /// The number netd knows the sides by.
    pub open spec fn number(self) -> u32 {
        match self {
            Shutdown::Read => 0,
            Shutdown::Write => 1,
            Shutdown::Both => 2,
        }
    }
}

/// The number netd knows a socket by.
#[derive(Clone, Copy, Debug, PartialEq, Eq, Hash, Structural)]
pub struct TcpSocketId(pub u32);

/// A connect to ask of netd.
#[derive(Clone, Copy, Debug, PartialEq, Eq, Hash)]
pub struct ConnectRequest {
    pub ip: [u8; 4],
    pub port: u16,
    pub timeout_ms: u32,
}

/// A connection netd made.
#[derive(Clone, Copy, Debug, PartialEq, Eq, Hash, Structural)]
pub struct TcpConnection {
    /// The pipe end its bytes arrive at.
    pub rx: RawHandle,
    /// The pipe end its bytes leave by.
    pub tx: RawHandle,
    pub socket_id: TcpSocketId,
    pub local_port: u16,
}

/// A connection netd accepted for a listener.
#[derive(Clone, Copy, Debug, PartialEq, Eq, Hash)]
pub struct TcpAccepted {
    /// The pipe end its bytes arrive at.
    pub rx: RawHandle,
    /// The pipe end its bytes leave by.
    pub tx: RawHandle,
    pub socket_id: TcpSocketId,
    pub remote_addr: [u8; 4],
    pub remote_port: u16,
    pub local_port: u16,
}

/// A shutdown to ask of netd.
#[derive(Clone, Copy, Debug, PartialEq, Eq, Hash, Structural)]
pub struct ShutdownRequest {
    pub socket_id: TcpSocketId,
    pub how: u32,
}

/// One thing to close when a stream ends.
#[derive(Clone, Copy, Debug, PartialEq, Eq, Hash, Structural)]
pub enum Closing {
    /// A socket, which netd is asked to close.
    Socket(TcpSocketId),
    /// A pipe end, which the kernel closes.
    Handle(RawHandle),
}

/// A non-blocking TCP stream.
#[derive(Debug, PartialEq, Eq)]
pub struct TcpStream {
    pub rx_handle: RawHandle,
    pub tx_handle: RawHandle,
    pub peer_addr: SocketAddr,
    pub local_port: u16,
    pub socket_id: TcpSocketId,
}

impl TcpStream {
    /// The connect for a stream to an address, or the error where there can be none.
    pub open spec fn connecting(addr: SocketAddr) -> Result<ConnectRequest, ErrorView> {
        match addr {
            SocketAddr::V4(v4) => Ok(
                ConnectRequest { ip: v4.ip, port: v4.port, timeout_ms: CONNECT_TIMEOUT_MS },
            ),
            SocketAddr::V6(_) => Err(
                ErrorView::saying(ErrorKind::Unsupported, "IPv6 not supported"@),
            ),
        }
    }

    /// The stream over a connection that a connect led to.
    pub open spec fn over(request: ConnectRequest, connection: TcpConnection) -> TcpStream {
        TcpStream {
            rx_handle: connection.rx,
            tx_handle: connection.tx,
            peer_addr: SocketAddr::V4(SocketAddrV4 { ip: request.ip, port: request.port }),
            local_port: connection.local_port,
            socket_id: connection.socket_id,
        }
    }

    /// The connect to ask of netd for a stream to `addr`. netd speaks no IPv6.
    pub fn connect(addr: SocketAddr) -> (request: Result<ConnectRequest, Error>)
        ensures
            error::outcome(request) == TcpStream::connecting(addr),
            request is Ok <==> addr is V4,
            request matches Ok(asked) ==> {
                &&& addr == SocketAddr::V4(SocketAddrV4 { ip: asked.ip, port: asked.port })
                &&& asked.timeout_ms == 30000
            },
    {
        match addr {
            SocketAddr::V4(v4) => Ok(
                ConnectRequest { ip: v4.ip, port: v4.port, timeout_ms: CONNECT_TIMEOUT_MS },
            ),
            SocketAddr::V6(_) => Err(Error::new(ErrorKind::Unsupported, "IPv6 not supported")),
        }
    }

    /// The stream a connect leads to, or the error for netd's refusal of it.
    pub fn connected(request: ConnectRequest, answer: Result<TcpConnection, NetError>) -> (stream:
        Result<TcpStream, Error>)
        ensures
            error::outcome(stream) == (match answer {
                Ok(connection) => Ok::<TcpStream, ErrorView>(
                    TcpStream::over(request, connection),
                ),
                Err(e) => Err(e.as_io()),
            }),
    {
        match answer {
            Ok(connection) => Ok(
                TcpStream {
                    rx_handle: connection.rx,
                    tx_handle: connection.tx,
                    peer_addr: SocketAddr::V4(SocketAddrV4 { ip: request.ip, port: request.port }),
                    local_port: connection.local_port,
                    socket_id: connection.socket_id,
                },
            ),
            Err(e) => Err(error::net_err_to_io(e)),
        }
    }

    /// The stream of a connection that netd accepted.
    pub fn from_accepted(accepted: TcpAccepted) -> (stream: TcpStream)
        ensures
            stream == (TcpStream {
                rx_handle: accepted.rx,
                tx_handle: accepted.tx,
                peer_addr: SocketAddr::V4(
                    SocketAddrV4 { ip: accepted.remote_addr, port: accepted.remote_port },
                ),
                local_port: accepted.local_port,
                socket_id: accepted.socket_id,
            }),
    {
        let peer_addr = SocketAddr::V4(
            SocketAddrV4 { ip: accepted.remote_addr, port: accepted.remote_port },
        );
        TcpStream {
            rx_handle: accepted.rx,
            tx_handle: accepted.tx,
            peer_addr,
            local_port: accepted.local_port,
            socket_id: accepted.socket_id,
        }
    }

    /// The address of the other end.
    pub fn peer_addr(&self) -> (addr: Result<SocketAddr, Error>)
        ensures
            addr == Ok::<SocketAddr, Error>(self.peer_addr),
    {
        Ok(self.peer_addr)
    }

    /// The address of this end: its port, on the unspecified address.
    pub fn local_addr(&self) -> (addr: Result<SocketAddr, Error>)
        ensures
            addr matches Ok(SocketAddr::V4(v4)) && v4.ip@ == seq![0u8, 0, 0, 0] && v4.port
                == self.local_port,
    {
        Ok(SocketAddr::V4(SocketAddrV4 { ip: [0, 0, 0, 0], port: self.local_port }))
    }

    /// The shutdown to ask of netd for the sides `how` names.
    pub fn shutdown(&self, how: Shutdown) -> (request: ShutdownRequest)
        ensures
            request == (ShutdownRequest { socket_id: self.socket_id, how: how.number() }),
    {
        let how: u32 = match how {
            Shutdown::Read => 0,
            Shutdown::Write => 1,
            Shutdown::Both => 2,
        };
        ShutdownRequest { socket_id: self.socket_id, how }
    }

    /// The result of a shutdown, from netd's answer to it.
    pub fn shut_down(answer: Result<(), NetError>) -> (result: Result<(), Error>)
        ensures
            error::outcome(result) == (match answer {
                Ok(_) => Ok::<(), ErrorView>(()),
                Err(e) => Err(e.as_io()),
            }),
    {
        match answer {
            Ok(()) => Ok(()),
            Err(e) => Err(error::net_err_to_io(e)),
        }
    }

    /// Does nothing: netd delays no bytes.
    pub fn set_nodelay(&self, _nodelay: bool) -> (result: Result<(), Error>)
        ensures
            result is Ok,
    {
        Ok(())
    }

    /// Always on: netd delays no bytes.
    pub fn nodelay(&self) -> (nodelay: Result<bool, Error>)
        ensures
            nodelay == Ok::<bool, Error>(true),
    {
        Ok(true)
    }

    /// Does nothing: the hop limit is fixed.
    pub fn set_ttl(&self, _ttl: u32) -> (result: Result<(), Error>)
        ensures
            result is Ok,
    {
        Ok(())
    }

    /// The hop limit.
    pub fn ttl(&self) -> (ttl: Result<u32, Error>)
        ensures
            ttl == Ok::<u32, Error>(TTL),
    {
        Ok(TTL)
    }

    /// Never one: a stream keeps no error behind.
    pub fn take_error(&self) -> (error: Result<Option<Error>, Error>)
        ensures
            error == Ok::<Option<Error>, Error>(None),
    {
        Ok(None)
    }

    /// Not supported. The buffer is left as it is.
    pub fn peek(&self, _buf: &mut [u8]) -> (count: Result<usize, Error>)
        ensures
            error::outcome(count) == Err::<usize, ErrorView>(
                ErrorView::saying(ErrorKind::Unsupported, "peek not supported"@),
            ),
            final(_buf)@ == old(_buf)@,
    {
        Err(Error::new(ErrorKind::Unsupported, "peek not supported"))
    }

    /// Runs an I/O operation on the stream: `f`, as it is.
    pub fn try_io<F, T>(&self, f: F) -> (result: Result<T, Error>) where
        F: FnOnce() -> Result<T, Error>,

        requires
            f.requires(()),
        ensures
            f.ensures((), result),
    {
        f()
    }

    /// The handle a non-blocking read is made on. The kernel's answer becomes the read's result
    /// by [`error::transfer_result`].
    pub fn read(&self) -> (handle: RawHandle)
        ensures
            handle == self.rx_handle,
    {
        self.rx_handle
    }

    /// The handle a non-blocking write is made on. The kernel's answer becomes the write's
    /// result by [`error::transfer_result`].
    pub fn write(&self) -> (handle: RawHandle)
        ensures
            handle == self.tx_handle,
    {
        self.tx_handle
    }

    /// Does nothing: a write leaves nothing behind to flush.
    pub fn flush(&self) -> (result: Result<(), Error>)
        ensures
            result is Ok,
    {
        Ok(())
    }

    /// What is to be closed when the stream ends, in order: its socket and then its two pipe ends,
    /// first the one bytes arrive at.
    pub fn close(&self) -> (closings: Vec<Closing>)
        ensures
            closings@ == seq![
                Closing::Socket(self.socket_id),
                Closing::Handle(self.rx_handle),
                Closing::Handle(self.tx_handle),
            ],
    {
        let mut closings: Vec<Closing> = Vec::new();
        closings.push(Closing::Socket(self.socket_id));
        closings.push(Closing::Handle(self.rx_handle));
        closings.push(Closing::Handle(self.tx_handle));
        closings
    }

    /// What is left to close, in order, once netd has answered the closing of the socket: the two
    /// pipe ends, whatever the answer.
    pub fn closed(&self, _answer: Result<(), NetError>) -> (closings: Vec<Closing>)
        ensures
            closings@ == seq![
                Closing::Handle(self.rx_handle),
                Closing::Handle(self.tx_handle),
            ],
    {
        let mut closings: Vec<Closing> = Vec::new();
        closings.push(Closing::Handle(self.rx_handle));
        closings.push(Closing::Handle(self.tx_handle));
        closings
    }

    /// The registrations that hear of `interests` under `token`: readability of the end bytes
    /// arrive at, writability of the end they leave by.
    pub open spec fn registrations(self, token: Token, interests: Interest) -> Seq<Registration> {
        let arrivals = Registration {
            handle: self.rx_handle,
            interest: Interest { readable: true, writable: false },
            token,
        };
        let departures = Registration {
            handle: self.tx_handle,
            interest: Interest { readable: false, writable: true },
            token,
        };
        (if interests.readable {
            seq![arrivals]
        } else {
            seq![]
        }) + (if interests.writable {
            seq![departures]
        } else {
            seq![]
        })
    }

    /// The registrations without any of the stream's two handles.
    pub open spec fn without(self, registrations: Seq<Registration>) -> Seq<Registration> {
        selector::deregistered(
            selector::deregistered(registrations, self.rx_handle),
            self.tx_handle,
        )
    }

    /// Registers the stream to hear of `interests` under `token`.
    pub fn register(
        &self,
        selector: &Selector,
        inner: &mut SelectorInner,
        token: Token,
        interests: Interest,
    ) -> (result: Result<(), Error>)
        ensures
            result is Ok,
            final(inner)@ == old(inner)@ + self.registrations(token, interests),
            final(inner)@.len() == old(inner)@.len() + (if interests.readable {
                1int
            } else {
                0
            }) + (if interests.writable {
                1int
            } else {
                0
            }),
    {
        if interests.is_readable() {
            match selector.register_handle(inner, self.rx_handle, token, Interest::reading()) {
                Ok(()) => {},
                Err(e) => {
                    return Err(e);
                },
            }
        }
        if interests.is_writable() {
            match selector.register_handle(inner, self.tx_handle, token, Interest::writing()) {
                Ok(()) => {},
                Err(e) => {
                    return Err(e);
                },
            }
        }
        Ok(())
    }

    /// Registers the stream anew: it hears of `interests` under `token` and of nothing it heard
    /// of before.
    pub fn reregister(
        &self,
        selector: &Selector,
        inner: &mut SelectorInner,
        token: Token,
        interests: Interest,
    ) -> (result: Result<(), Error>)
        ensures
            result is Ok,
            final(inner)@ == self.without(old(inner)@) + self.registrations(token, interests),
    {
        match self.deregister(selector, inner) {
            Ok(()) => self.register(selector, inner, token, interests),
            Err(e) => Err(e),
        }
    }

    /// Removes every registration of the stream.
    pub fn deregister(&self, selector: &Selector, inner: &mut SelectorInner) -> (result: Result<
        (),
        Error,
    >)
        ensures
            result is Ok,
            final(inner)@ == self.without(old(inner)@),
    {
        match selector.deregister_handle(inner, self.rx_handle) {
            Ok(()) => selector.deregister_handle(inner, self.tx_handle),
            Err(e) => Err(e),
        }
    }
}

/// A stream's other end is the address it was connected to, and the rest of it is the connection's.
pub proof fn peer_is_the_address_connected_to(addr: SocketAddr, connection: TcpConnection)
    ensures
        TcpStream::connecting(addr) matches Ok(request) ==> {
            let stream = TcpStream::over(request, connection);
            &&& stream.peer_addr == addr
            &&& stream.rx_handle == connection.rx
            &&& stream.tx_handle == connection.tx
            &&& stream.local_port == connection.local_port
            &&& stream.socket_id == connection.socket_id
        },
{
}

/// netd is asked for every IPv4 address, that address and that port, and given half a minute. No
/// IPv6 address is asked for, and to refuse one says why.
pub proof fn connects_are_for_the_address_given(addr: SocketAddr)
    ensures
        TcpStream::connecting(addr) is Err <==> addr is V6,
        addr matches SocketAddr::V4(v4) ==> {
            &&& TcpStream::connecting(addr) matches Ok(request)
            &&& request.ip == v4.ip
            &&& request.port == v4.port
            &&& request.timeout_ms == 30 * 1000
        },
        TcpStream::connecting(addr) matches Err(error) ==> {
            &&& error.kind == ErrorKind::Unsupported
            &&& error.message == Some("IPv6 not supported"@)
        },
{
}

/// Connects to different IPv4 addresses or ports are different requests.
pub proof fn connects_tell_addresses_apart(a: SocketAddr, b: SocketAddr)
    requires
        a is V4,
        b is V4,
    ensures
        TcpStream::connecting(a) == TcpStream::connecting(b) <==> a == b,
{
}

/// The numbers of the sides: the first for reading alone, the next for writing alone, the last for
/// both.
pub proof fn shutdowns_are_numbered(how: Shutdown)
    ensures
        how.number() <= 2,
        how.number() == 0 <==> how == Shutdown::Read,
        how.number() == 1 <==> how == Shutdown::Write,
        how.number() == 2 <==> how == Shutdown::Both,
{
}

} // verus!
