use toyos_reactor::error::{Error, ErrorKind, NetError, SyscallError};
use toyos_reactor::inbox::RingLayout;
use toyos_reactor::selector::{Registration, Selector, SelectorIds, SelectorInner};
use toyos_reactor::stream::{
    Closing, ConnectRequest, Shutdown, ShutdownRequest, SocketAddr, SocketAddrV4,
    SocketAddrV6, TcpAccepted, TcpConnection, TcpSocketId, TcpStream,
};
use toyos_reactor::types::{Interest, RawHandle, Token};
use toyos_reactor::waker::{PipeEnds, WakeRequest, Waker};

const BOTH: Interest = Interest { readable: true, writable: true };
const READS: Interest = Interest { readable: true, writable: false };
const WRITES: Interest = Interest { readable: false, writable: true };
const NEITHER: Interest = Interest { readable: false, writable: false };

fn addr() -> SocketAddr {
    SocketAddr::V4(SocketAddrV4 { ip: [10, 0, 0, 7], port: 8080 })
}

fn connection() -> TcpConnection {
    TcpConnection {
        rx: RawHandle(21),
        tx: RawHandle(22),
        socket_id: TcpSocketId(5),
        local_port: 49152,
    }
}

fn stream() -> TcpStream {
    TcpStream::connected(TcpStream::connect(addr()).unwrap(), Ok(connection())).unwrap()
}

fn selector() -> (Selector, SelectorInner) {
    let layout = RingLayout { submission_ring_size: 64, completion_ring_size: 128 };
    Selector::new(&mut SelectorIds { next: 1 }, Ok((RawHandle(9), layout))).unwrap()
}

fn registration(handle: u32, token: usize, interest: Interest) -> Registration {
    Registration { handle: RawHandle(handle), interest, token: Token(token) }
}

#[test]
fn connecting_asks_netd() {
    let request = TcpStream::connect(addr()).unwrap();
    assert_eq!(request, ConnectRequest { ip: [10, 0, 0, 7], port: 8080, timeout_ms: 30000 });
}

#[test]
fn connecting_over_ipv6_is_refused() {
    let v6 = SocketAddrV6 { ip: [0; 16], port: 80, flowinfo: 0, scope_id: 0 };
    let error = TcpStream::connect(SocketAddr::V6(v6)).unwrap_err();
    assert_eq!(error.kind, ErrorKind::Unsupported);
    assert_eq!(error.message.as_deref(), Some("IPv6 not supported"));
}

#[test]
fn a_connected_stream_knows_both_ends() {
    let stream = stream();
    assert_eq!(stream.peer_addr().unwrap(), addr());
    let local = SocketAddr::V4(SocketAddrV4 { ip: [0, 0, 0, 0], port: 49152 });
    assert_eq!(stream.local_addr().unwrap(), local);
    assert_eq!(stream.rx_handle, RawHandle(21));
    assert_eq!(stream.tx_handle, RawHandle(22));
    assert_eq!(stream.socket_id, TcpSocketId(5));
}

#[test]
fn a_refused_connect_is_an_error() {
    let request = TcpStream::connect(addr()).unwrap();
    let error = TcpStream::connected(request, Err(NetError::TimedOut)).unwrap_err();
    assert_eq!(error.kind, ErrorKind::TimedOut);
    assert_eq!(error.message.as_deref(), Some("netd error"));
}

#[test]
fn an_accepted_stream_knows_its_peer() {
    let stream = TcpStream::from_accepted(TcpAccepted {
        rx: RawHandle(1),
        tx: RawHandle(2),
        socket_id: TcpSocketId(3),
        remote_addr: [192, 168, 1, 2],
        remote_port: 5000,
        local_port: 22,
    });
    let peer = SocketAddr::V4(SocketAddrV4 { ip: [192, 168, 1, 2], port: 5000 });
    assert_eq!(stream.peer_addr().unwrap(), peer);
    assert_eq!(stream.local_port, 22);
    assert_eq!(stream.read(), RawHandle(1));
    assert_eq!(stream.write(), RawHandle(2));
}

#[test]
fn shutting_down_names_the_sides() {
    let stream = stream();
    for (how, number) in [(Shutdown::Read, 0), (Shutdown::Write, 1), (Shutdown::Both, 2)] {
        let request = ShutdownRequest { socket_id: TcpSocketId(5), how: number };
        assert_eq!(stream.shutdown(how), request);
    }
    assert!(TcpStream::shut_down(Ok(())).is_ok());
    let error = TcpStream::shut_down(Err(NetError::NotConnected)).unwrap_err();
    assert_eq!(error.kind, ErrorKind::NotConnected);
}

#[test]
fn options_are_fixed() {
    let stream = stream();
    assert!(stream.set_nodelay(false).is_ok());
    assert_eq!(stream.nodelay().unwrap(), true);
    assert!(stream.set_ttl(3).is_ok());
    assert_eq!(stream.ttl().unwrap(), 64);
    assert!(stream.take_error().unwrap().is_none());
    assert!(stream.flush().is_ok());
}

#[test]
fn peeking_is_not_supported() {
    let mut buf = [7u8; 4];
    let error = stream().peek(&mut buf).unwrap_err();
    assert_eq!(error.kind, ErrorKind::Unsupported);
    assert_eq!(error.message.as_deref(), Some("peek not supported"));
    assert_eq!(buf, [7; 4]);
}

#[test]
fn io_is_tried_as_it_is() {
    assert_eq!(stream().try_io(|| Ok(3)).unwrap(), 3);
    let result: Result<u8, Error> = stream().try_io(|| Err(Error::bare(ErrorKind::WouldBlock)));
    assert_eq!(result.unwrap_err().kind, ErrorKind::WouldBlock);
}

#[test]
fn closing_ends_the_socket_and_then_both_handles() {
    let closings = vec![
        Closing::Socket(TcpSocketId(5)),
        Closing::Handle(RawHandle(21)),
        Closing::Handle(RawHandle(22)),
    ];
    assert_eq!(stream().close(), closings);
}

#[test]
fn closing_goes_on_whatever_netd_answers() {
    let left = vec![Closing::Handle(RawHandle(21)), Closing::Handle(RawHandle(22))];
    assert_eq!(stream().closed(Ok(())), left);
    assert_eq!(stream().closed(Err(NetError::NetdNotFound)), left);
    assert_eq!(stream().closed(Err(NetError::Protocol(3))), left);
}

#[test]
fn registering_watches_each_end_for_its_side() {
    let stream = stream();
    let (rx, tx) = (registration(21, 4, READS), registration(22, 4, WRITES));
    let cases = [
        (BOTH, vec![rx, tx]),
        (READS, vec![rx]),
        (WRITES, vec![tx]),
        (NEITHER, vec![]),
    ];
    for (interests, expected) in cases {
        let (selector, mut inner) = selector();
        stream.register(&selector, &mut inner, Token(4), interests).unwrap();
        assert_eq!(inner.registrations, expected);
    }
}

#[test]
fn deregistering_takes_back_a_registration() {
    let (selector, mut inner) = selector();
    selector.register_handle(&mut inner, RawHandle(1), Token(10), READS).unwrap();
    stream().register(&selector, &mut inner, Token(4), BOTH).unwrap();
    assert_eq!(inner.registrations.len(), 3);
    stream().deregister(&selector, &mut inner).unwrap();
    assert_eq!(inner.registrations, vec![registration(1, 10, READS)]);
}

#[test]
fn reregistering_starts_anew() {
    let (selector, mut inner) = selector();
    stream().register(&selector, &mut inner, Token(4), BOTH).unwrap();
    selector.register_handle(&mut inner, RawHandle(1), Token(10), READS).unwrap();
    stream().reregister(&selector, &mut inner, Token(5), READS).unwrap();
    stream().reregister(&selector, &mut inner, Token(6), WRITES).unwrap();
    assert_eq!(inner.registrations, vec![registration(1, 10, READS), registration(22, 6, WRITES)]);
}

#[test]
fn a_waker_listens_on_its_pipe() {
    let (selector, mut inner) = selector();
    let ends = PipeEnds { read: RawHandle(31), write: RawHandle(32) };
    let waker = Waker::new(&selector, &mut inner, Token(77), Ok(ends)).unwrap();
    assert_eq!(inner.registrations, vec![registration(31, 77, READS)]);
    assert_eq!(waker.wake(), WakeRequest { handle: RawHandle(32), byte: 1 });
    assert!(Waker::woken(Ok(1)).is_ok());
    assert!(Waker::woken(Err(SyscallError::WouldBlock)).is_ok());
}

#[test]
fn a_waker_without_a_pipe_registers_nothing() {
    let (selector, mut inner) = selector();
    let refused = Waker::new(&selector, &mut inner, Token(77), Err(SyscallError::ResourceExhausted));
    let error = refused.unwrap_err();
    assert_eq!(error.kind, ErrorKind::Other);
    assert_eq!(error.message.as_deref(), Some("resource exhausted"));
    assert!(inner.registrations.is_empty());
}
