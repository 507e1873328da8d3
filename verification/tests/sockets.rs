//! Stream, listener and datagram behaviour against the in-memory host.

use wasi_socket::addr::{Ipv4Addr, SocketAddr, SocketAddrV4, SocketAddrV6, ADDR_TAG_INET6};
use wasi_socket::error::SockError;
use wasi_socket::fdflags::FDFLAG_NONBLOCK;
use wasi_socket::host::{Host, HostCall, ERRNO_AGAIN, ERRNO_BADF, ERRNO_INVAL};
use wasi_socket::tcp::{Incoming, Shutdown, SocketHandle, TcpListener, TcpStream};
use wasi_socket::udp::UdpSocket;

fn v4(a: u8, b: u8, c: u8, d: u8, port: u16) -> SocketAddr {
    SocketAddr::V4(SocketAddrV4::new(Ipv4Addr::new(a, b, c, d), port))
}

#[test]
fn loopback_write_then_read_hello() {
    let mut host = Host::new();
    let addr = vec![v4(127, 0, 0, 1, 9000)];
    let listener = TcpListener::bind(&addr, true, &mut host).unwrap();
    assert_eq!(listener.port, 9000);
    assert_eq!(listener.address.buf, vec![127, 0, 0, 1]);

    let mut client = TcpStream::connect(&addr, &mut host).unwrap();
    let (mut server, peer) = listener.accept(0, &mut host).unwrap();
    assert!(matches!(peer, SocketAddr::V4(_)));

    let written = client.write(&b"hello".to_vec(), &mut host).unwrap();
    assert_eq!(written, 5);

    let mut buf = vec![0u8; 16];
    let n = server.read(&mut buf, &mut host).unwrap();
    assert_eq!(n, 5);
    assert_eq!(&buf[..5], b"hello");
}

#[test]
fn accept_with_nonzero_status_yields_io_error_and_no_stream() {
    let mut host = Host::new();
    let listener = TcpListener::bind(&vec![v4(127, 0, 0, 1, 7000)], false, &mut host).unwrap();
    // nothing pending: the accept primitive reports a nonzero status
    let got = listener.accept(0, &mut host);
    assert_eq!(got.unwrap_err(), SockError::Os(ERRNO_AGAIN));
    // a listener whose handle names no live socket fails the same way
    let stray = TcpListener {
        fd: SocketHandle(99),
        address: wasi_socket::addr::WasiAddress { buf: vec![0, 0, 0, 0] },
        port: 0,
    };
    assert_eq!(stray.accept(0, &mut host).unwrap_err(), SockError::Os(ERRNO_BADF));
}

#[test]
fn peer_addr_rejects_ipv6_sentinel() {
    let mut host = Host::new();
    // connect with no listener present: the stream is handed out anyway
    let stream = TcpStream::connect(&vec![v4(10, 0, 0, 1, 80)], &mut host).unwrap();
    // the world completes the connection with an IPv6 peer: tag 6
    assert!(host.peer_connected(
        stream.as_raw_fd(),
        ADDR_TAG_INET6,
        Ipv4Addr::new(0, 0, 0, 0),
        80
    ));
    assert_eq!(
        stream.peer_addr(&mut host).unwrap_err(),
        SockError::UnsupportedAddressType
    );
}

#[test]
fn peer_addr_reads_ipv4_peer() {
    let mut host = Host::new();
    let addr = vec![v4(127, 0, 0, 1, 4444)];
    let _listener = TcpListener::bind(&addr, false, &mut host).unwrap();
    let client = TcpStream::connect(&addr, &mut host).unwrap();
    assert_eq!(client.peer_addr(&mut host).unwrap(), v4(127, 0, 0, 1, 4444));
}

#[test]
fn local_addr_rejects_ipv6_family_socket() {
    let mut host = Host::new();
    let (_, fd) = host.sock_open(1, 1); // an IPv6-family socket
    let stream = TcpStream { fd: SocketHandle(fd) };
    assert_eq!(
        stream.local_addr(&mut host).unwrap_err(),
        SockError::UnsupportedAddressType
    );
}

#[test]
fn bind_nonblock_sets_flag_before_listen() {
    let mut host = Host::new();
    let listener = TcpListener::bind(&vec![v4(0, 0, 0, 0, 8080)], true, &mut host).unwrap();
    let fd = listener.as_raw_fd();
    assert_eq!(
        host.calls,
        vec![
            HostCall::Open { family: 0, socktype: 1 },
            HostCall::FdstatGet { fd },
            HostCall::FdstatSetFlags { fd, flags: FDFLAG_NONBLOCK },
            HostCall::Bind { fd, port: 8080 },
            HostCall::Listen { fd, backlog: 128 },
        ]
    );
    assert_eq!(host.sockets[fd as usize].fdflags, FDFLAG_NONBLOCK);
}

#[test]
fn bind_without_nonblock_touches_no_flags() {
    let mut host = Host::new();
    let listener = TcpListener::bind(&vec![v4(0, 0, 0, 0, 8081)], false, &mut host).unwrap();
    let fd = listener.as_raw_fd();
    assert_eq!(
        host.calls,
        vec![
            HostCall::Open { family: 0, socktype: 1 },
            HostCall::Bind { fd, port: 8081 },
            HostCall::Listen { fd, backlog: 128 },
        ]
    );
    assert_eq!(host.sockets[fd as usize].fdflags, 0);
}

#[test]
fn bind_and_connect_reject_empty_and_ipv6_candidates() {
    let mut host = Host::new();
    assert_eq!(
        TcpListener::bind(&vec![], false, &mut host).unwrap_err(),
        SockError::NoAddress
    );
    assert_eq!(
        TcpStream::connect(&vec![], &mut host).unwrap_err(),
        SockError::NoAddress
    );
    let six = vec![SocketAddr::V6(SocketAddrV6 { port: 80 })];
    assert_eq!(
        TcpListener::bind(&six, false, &mut host).unwrap_err(),
        SockError::UnsupportedAddressType
    );
    assert_eq!(
        TcpStream::connect(&six, &mut host).unwrap_err(),
        SockError::UnsupportedAddressType
    );
}

#[test]
fn connect_failure_surfaces_at_first_io() {
    let mut host = Host::new();
    // no listener anywhere: connect still hands a stream out
    let mut stream = TcpStream::connect(&vec![v4(10, 1, 1, 1, 81)], &mut host).unwrap();
    let got = stream.write(&b"x".to_vec(), &mut host);
    assert!(matches!(got, Err(SockError::Os(_))));
}

#[test]
fn incoming_yields_exactly_n_items() {
    let mut host = Host::new();
    let addr = vec![v4(127, 0, 0, 1, 5000)];
    let listener = TcpListener::bind(&addr, false, &mut host).unwrap();
    // two real connections, the rest of the steps yield errors
    let _c1 = TcpStream::connect(&addr, &mut host).unwrap();
    let _c2 = TcpStream::connect(&addr, &mut host).unwrap();
    let mut cursor: Incoming = listener.incoming();
    let n = 10;
    let mut yielded = 0;
    let mut oks = 0;
    for _ in 0..n {
        match cursor.next(&mut host) {
            Some(Ok(_)) => {
                yielded += 1;
                oks += 1;
            }
            Some(Err(_)) => yielded += 1,
            None => panic!("the cursor signalled an end"),
        }
    }
    assert_eq!(yielded, n);
    assert_eq!(oks, 2);
    assert_eq!(cursor.size_hint(), (usize::MAX, None));
}

#[test]
fn shutdown_notifies_host_and_keeps_handle() {
    let mut host = Host::new();
    let addr = vec![v4(127, 0, 0, 1, 6000)];
    let _listener = TcpListener::bind(&addr, false, &mut host).unwrap();
    let mut client = TcpStream::connect(&addr, &mut host).unwrap();
    assert_eq!(client.shutdown(Shutdown::Write, &mut host), Ok(()));
    assert_eq!(
        host.calls.last(),
        Some(&HostCall::Shutdown { fd: client.as_raw_fd(), how: 1 })
    );
    assert_eq!(client.flush(), Ok(()));
    // the handle still works for reading after a write-side shutdown
    let mut buf = vec![0u8; 1];
    assert_eq!(client.read(&mut buf, &mut host), Ok(0));
}

#[test]
fn short_reads_drain_the_queue_in_order() {
    let mut host = Host::new();
    let addr = vec![v4(127, 0, 0, 1, 6100)];
    let listener = TcpListener::bind(&addr, false, &mut host).unwrap();
    let mut client = TcpStream::connect(&addr, &mut host).unwrap();
    let (mut server, _) = listener.accept(0, &mut host).unwrap();
    client.write(&b"abcde".to_vec(), &mut host).unwrap();
    let mut buf = vec![0u8; 3];
    assert_eq!(server.read(&mut buf, &mut host), Ok(3));
    assert_eq!(buf, b"abc".to_vec());
    assert_eq!(server.read(&mut buf, &mut host), Ok(2));
    assert_eq!(&buf[..2], b"de");
}

#[test]
fn accept_applies_requested_flags_to_new_handle() {
    let mut host = Host::new();
    let addr = vec![v4(127, 0, 0, 1, 6200)];
    let listener = TcpListener::bind(&addr, false, &mut host).unwrap();
    let _client = TcpStream::connect(&addr, &mut host).unwrap();
    let (server, _) = listener.accept(FDFLAG_NONBLOCK, &mut host).unwrap();
    assert_eq!(
        host.sockets[server.as_raw_fd() as usize].fdflags,
        FDFLAG_NONBLOCK
    );
}

#[test]
fn udp_bind_is_unimplemented() {
    let mut host = Host::new();
    assert_eq!(
        UdpSocket::bind(&vec![v4(0, 0, 0, 0, 53)], &mut host).unwrap_err(),
        SockError::Unimplemented
    );
}

#[test]
fn udp_recv_from_parses_textual_sender() {
    let mut host = Host::new();
    let (_, fd) = host.sock_open(0, 0);
    assert!(host.deliver_datagram(fd, b"ping".to_vec(), b"9.8.7.6:123".to_vec()));
    let socket = UdpSocket { fd: SocketHandle(fd) };
    let mut buf = vec![0u8; 16];
    let (n, from) = socket.recv_from(&mut buf, &mut host).unwrap();
    assert_eq!(n, 4);
    assert_eq!(&buf[..4], b"ping");
    assert_eq!(from, v4(9, 8, 7, 6, 123));
}

#[test]
fn udp_recv_from_rejects_malformed_sender_text() {
    let mut host = Host::new();
    let (_, fd) = host.sock_open(0, 0);
    assert!(host.deliver_datagram(fd, b"ping".to_vec(), b"not an address".to_vec()));
    let socket = UdpSocket { fd: SocketHandle(fd) };
    let mut buf = vec![0u8; 16];
    assert_eq!(
        socket.recv_from(&mut buf, &mut host).unwrap_err(),
        SockError::MalformedAddress
    );
}

#[test]
fn udp_recv_from_errors() {
    let mut host = Host::new();
    let (_, dgram_fd) = host.sock_open(0, 0);
    let (_, stream_fd) = host.sock_open(0, 1);
    let mut buf = vec![0u8; 4];
    let empty = UdpSocket { fd: SocketHandle(dgram_fd) };
    assert_eq!(
        empty.recv_from(&mut buf, &mut host).unwrap_err(),
        SockError::Os(ERRNO_AGAIN)
    );
    let wrong = UdpSocket { fd: SocketHandle(stream_fd) };
    assert_eq!(
        wrong.recv_from(&mut buf, &mut host).unwrap_err(),
        SockError::Os(ERRNO_INVAL)
    );
}

#[test]
fn udp_send_to_renders_destination_as_text() {
    let mut host = Host::new();
    let (_, fd) = host.sock_open(0, 0);
    let socket = UdpSocket { fd: SocketHandle(fd) };
    let sent = socket
        .send_to(&b"data".to_vec(), &vec![v4(1, 2, 3, 4, 53)], &mut host)
        .unwrap();
    assert_eq!(sent, 4);
    assert_eq!(host.outbox.len(), 1);
    assert_eq!(host.outbox[0].data, b"data".to_vec());
    assert_eq!(host.outbox[0].addr_text, b"1.2.3.4:53".to_vec());
}

#[test]
fn udp_send_to_rejects_empty_and_ipv6_destinations() {
    let mut host = Host::new();
    let (_, fd) = host.sock_open(0, 0);
    let socket = UdpSocket { fd: SocketHandle(fd) };
    assert_eq!(
        socket.send_to(&b"d".to_vec(), &vec![], &mut host).unwrap_err(),
        SockError::NoAddress
    );
    assert_eq!(
        socket
            .send_to(
                &b"d".to_vec(),
                &vec![SocketAddr::V6(SocketAddrV6 { port: 1 })],
                &mut host
            )
            .unwrap_err(),
        SockError::UnsupportedAddressType
    );
}

#[test]
fn closed_handles_refuse_further_use() {
    let mut host = Host::new();
    let (_, fd) = host.sock_open(0, 1);
    host.sock_close(fd);
    let status = host.sock_bind(
        fd,
        &wasi_socket::addr::WasiAddress { buf: vec![127, 0, 0, 1] },
        80,
    );
    assert_eq!(status, ERRNO_INVAL);
    assert_eq!(host.last_error, ERRNO_INVAL);
}

#[test]
fn accepted_stream_reports_listener_local_address() {
    let mut host = Host::new();
    let addr = vec![v4(127, 0, 0, 1, 6300)];
    let listener = TcpListener::bind(&addr, false, &mut host).unwrap();
    let _client = TcpStream::connect(&addr, &mut host).unwrap();
    let (server, _) = listener.accept(0, &mut host).unwrap();
    assert_eq!(server.local_addr(&mut host).unwrap(), v4(127, 0, 0, 1, 6300));
}
