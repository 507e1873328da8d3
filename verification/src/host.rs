//! The host capability provider: a deterministic, in-memory model of the
//! fixed socket primitive surface.
//!
//! The host owns every socket resource and exposes it as an opaque integer
//! handle.  Each primitive takes fixed-width integers and byte buffers and
//! returns a numeric status code: `0` is success, any nonzero value is an
//! OS-style error code.  A `Host` value is threaded explicitly through every
//! socket operation of this crate, so each operation's contract states
//! exactly which primitives it invokes, in which order, and how the host
//! state changes.  The call log doubles as the record of the invocation
//! order.  World-side events (a peer connecting, a datagram arriving) are
//! separate methods that do not appear in the call log.

use vstd::prelude::*;

use crate::addr::{
    ADDR_TAG_INET4, ADDR_TAG_INET6, FAMILY_BYTE_INET4, Ipv4Addr, WasiAddress, copy_bytes,
};
use crate::addrinfo::{AddrInfoV, WasiAddrinfo, clone_addrinfo};

verus! {

/// Status code of a successful primitive call.
pub const ERRNO_SUCCESS: u32 = 0;
/// The call would block (nothing pending on a non-blocking handle).
pub const ERRNO_AGAIN: u32 = 6;
/// The handle does not name a live socket.
pub const ERRNO_BADF: u32 = 8;
/// No listener was reachable at the requested address.
pub const ERRNO_CONNREFUSED: u32 = 14;
/// An argument or the socket's state does not fit the call.
pub const ERRNO_INVAL: u32 = 28;
/// The socket is not connected.
pub const ERRNO_NOTCONN: u32 = 53;

/// Socket-type byte for datagram sockets, as passed to the open primitive.
pub const SOCK_BYTE_DGRAM: u8 = 0;
/// Socket-type byte for stream sockets, as passed to the open primitive.
pub const SOCK_BYTE_STREAM: u8 = 1;

/// Lifecycle state of one host-side socket resource.
#[derive(Clone, Copy, Debug, PartialEq, Eq, Structural)]
pub enum SockState {
    /// Created, neither bound nor connected.
    Open,
    /// Bound to a local address.
    Bound,
    /// Listening for connections.
    Listening,
    /// Connected to a peer.
    Connected,
    /// Closed; the handle no longer names a live resource.
    Closed,
}

/// One primitive invocation, as the host records it.
#[derive(Clone, Copy, Debug, PartialEq, Eq, Structural)]
pub enum HostCall {
    Open { family: u8, socktype: u8 },
    Close { fd: u32 },
    Bind { fd: u32, port: u32 },
    Listen { fd: u32, backlog: u32 },
    Accept { fd: u32 },
    Connect { fd: u32, port: u32 },
    Recv { fd: u32 },
    Send { fd: u32 },
    RecvFrom { fd: u32 },
    SendTo { fd: u32 },
    Shutdown { fd: u32, how: u8 },
    GetPeerAddr { fd: u32 },
    GetLocalAddr { fd: u32 },
    FdstatGet { fd: u32 },
    FdstatSetFlags { fd: u32, flags: u16 },
    GetAddrInfo { max: u32 },
}

/// A datagram: payload plus the textual socket address it came from or is
/// headed to.  The datagram path exchanges addresses as printable text, not
/// as the binary buffers the stream path uses.
pub struct Dgram {
    pub data: Vec<u8>,
    pub addr_text: Vec<u8>,
}

/// Mathematical view of a datagram.
#[verifier::ext_equal]
pub struct DgramV {
    pub data: Seq<u8>,
    pub addr_text: Seq<u8>,
}

impl View for Dgram {
    type V = DgramV;

    open spec fn view(&self) -> DgramV {
        DgramV { data: self.data@, addr_text: self.addr_text@ }
    }
}

/// One host-side socket resource.
pub struct HostSocket {
    /// Family byte given at open time (`0` IPv4, `1` IPv6).
    pub family: u8,
    /// Socket-type byte given at open time (`0` datagram, `1` stream).
    pub socktype: u8,
    pub state: SockState,
    /// Descriptor flag bitmask, kept by the host per handle.
    pub fdflags: u16,
    pub local_ip: Ipv4Addr,
    pub local_port: u16,
    pub peer_ip: Ipv4Addr,
    pub peer_port: u16,
    /// Family tag the address read-back primitives report for the peer
    /// (`4` IPv4, `6` IPv6).
    pub peer_tag: u32,
    /// Handle of the socket at the other end of a connection.
    pub peer_fd: u32,
    /// Bytes queued for this socket to receive.
    pub recv_buf: Vec<u8>,
    /// Datagrams queued for this socket to receive.
    pub dgrams: Vec<Dgram>,
    /// For listeners: handles of connections ready to be accepted.
    pub pending: Vec<u32>,
}

/// Mathematical view of one socket resource.
#[verifier::ext_equal]
pub struct SockV {
    pub family: u8,
    pub socktype: u8,
    pub state: SockState,
    pub fdflags: u16,
    pub local_ip: Ipv4Addr,
    pub local_port: u16,
    pub peer_ip: Ipv4Addr,
    pub peer_port: u16,
    pub peer_tag: u32,
    pub peer_fd: u32,
    pub recv_buf: Seq<u8>,
    pub dgrams: Seq<DgramV>,
    pub pending: Seq<u32>,
}

impl View for HostSocket {
    type V = SockV;

    open spec fn view(&self) -> SockV {
        SockV {
            family: self.family,
            socktype: self.socktype,
            state: self.state,
            fdflags: self.fdflags,
            local_ip: self.local_ip,
            local_port: self.local_port,
            peer_ip: self.peer_ip,
            peer_port: self.peer_port,
            peer_tag: self.peer_tag,
            peer_fd: self.peer_fd,
            recv_buf: self.recv_buf@,
            dgrams: self.dgrams@.map_values(|d: Dgram| d@),
            pending: self.pending@,
        }
    }
}

/// The host: a table of socket resources keyed by handle, a resolution
/// table, an outbox of sent datagrams, and the log of primitive calls.
pub struct Host {
    pub sockets: Vec<HostSocket>,
    pub calls: Vec<HostCall>,
    /// Status code of the most recent failed primitive call.
    pub last_error: u32,
    /// Seeded name-resolution results served by `sock_getaddrinfo`.
    pub resolutions: Vec<WasiAddrinfo>,
    /// Status code `sock_getaddrinfo` reports (`0`: serve the table).
    pub resolve_status: u32,
    /// Datagrams the host has accepted for transmission.
    pub outbox: Vec<Dgram>,
}

/// Mathematical view of the whole host.
#[verifier::ext_equal]
pub struct HostV {
    pub sockets: Seq<SockV>,
    pub calls: Seq<HostCall>,
    pub last_error: u32,
    pub resolutions: Seq<AddrInfoV>,
    pub resolve_status: u32,
    pub outbox: Seq<DgramV>,
}

/// View of a socket table.
pub open spec fn socks_view(socks: Seq<HostSocket>) -> Seq<SockV> {
    socks.map_values(|s: HostSocket| s@)
}

impl View for Host {
    type V = HostV;

    open spec fn view(&self) -> HostV {
        HostV {
            sockets: socks_view(self.sockets@),
            calls: self.calls@,
            last_error: self.last_error,
            resolutions: self.resolutions@.map_values(|e: WasiAddrinfo| e@),
            resolve_status: self.resolve_status,
            outbox: self.outbox@.map_values(|d: Dgram| d@),
        }
    }
}

/// Whether `fd` names a slot of the socket table.
pub open spec fn valid_fd(h: HostV, fd: u32) -> bool {
    (fd as int) < h.sockets.len()
}

/// A freshly opened socket: everything zeroed, state `Open`.
pub open spec fn fresh_sock(family: u8, socktype: u8) -> SockV {
    SockV {
        family,
        socktype,
        state: SockState::Open,
        fdflags: 0,
        local_ip: Ipv4Addr { a: 0, b: 0, c: 0, d: 0 },
        local_port: 0,
        peer_ip: Ipv4Addr { a: 0, b: 0, c: 0, d: 0 },
        peer_port: 0,
        peer_tag: 0,
        peer_fd: 0,
        recv_buf: Seq::empty(),
        dgrams: Seq::empty(),
        pending: Seq::empty(),
    }
}

/// The IPv4 address held in the first four bytes of a raw buffer.
pub open spec fn ip_of(raw: Seq<u8>) -> Ipv4Addr {
    Ipv4Addr { a: raw[0], b: raw[1], c: raw[2], d: raw[3] }
}

/// The host after recording `call` with outcome `status`: the call is
/// appended to the log, and a nonzero status becomes the last error.
pub open spec fn logged(h: HostV, call: HostCall, status: u32) -> HostV {
    let h1 = HostV { calls: h.calls.push(call), ..h };
    if status == ERRNO_SUCCESS {
        h1
    } else {
        HostV { last_error: status, ..h1 }
    }
}

// ---------------------------------------------------------------------------
// view lemmas
// ---------------------------------------------------------------------------

proof fn lemma_socks_view_update(socks: Seq<HostSocket>, i: int, x: HostSocket)
    requires
        0 <= i < socks.len(),
    ensures
        socks_view(socks.remove(i).insert(i, x)) =~= socks_view(socks).update(i, x@),
{
}

proof fn lemma_socks_view_push(socks: Seq<HostSocket>, x: HostSocket)
    ensures
        socks_view(socks.push(x)) =~= socks_view(socks).push(x@),
{
}

// ---------------------------------------------------------------------------
// primitive transforms
// ---------------------------------------------------------------------------

/// State of the host after `sock_open`.
pub open spec fn open_post(h: HostV, family: u8, socktype: u8) -> HostV {
    let h1 = logged(h, HostCall::Open { family, socktype }, ERRNO_SUCCESS);
    HostV { sockets: h1.sockets.push(fresh_sock(family, socktype)), ..h1 }
}

/// Status of `sock_close`.
pub open spec fn close_status(h: HostV, fd: u32) -> u32 {
    if valid_fd(h, fd) {
        ERRNO_SUCCESS
    } else {
        ERRNO_BADF
    }
}

/// State of the host after `sock_close`.
pub open spec fn close_post(h: HostV, fd: u32) -> HostV {
    let st = close_status(h, fd);
    let h1 = logged(h, HostCall::Close { fd }, st);
    if st == ERRNO_SUCCESS {
        let s = h.sockets[fd as int];
        HostV {
            sockets: h1.sockets.update(fd as int, SockV { state: SockState::Closed, ..s }),
            ..h1
        }
    } else {
        h1
    }
}

/// Status of `sock_bind`.
pub open spec fn bind_status(h: HostV, fd: u32, raw: Seq<u8>, port: u32) -> u32 {
    if !valid_fd(h, fd) {
        ERRNO_BADF
    } else if !(h.sockets[fd as int].state is Open) || raw.len() < 4 || port > 65535 {
        ERRNO_INVAL
    } else {
        ERRNO_SUCCESS
    }
}

/// State of the host after `sock_bind`: on success the socket is bound to
/// the address held in the first four buffer bytes and the given port.
pub open spec fn bind_post(h: HostV, fd: u32, raw: Seq<u8>, port: u32) -> HostV {
    let st = bind_status(h, fd, raw, port);
    let h1 = logged(h, HostCall::Bind { fd, port }, st);
    if st == ERRNO_SUCCESS {
        let s = h.sockets[fd as int];
        let bound = SockV {
            state: SockState::Bound,
            local_ip: ip_of(raw),
            local_port: port as u16,
            ..s
        };
        HostV { sockets: h1.sockets.update(fd as int, bound), ..h1 }
    } else {
        h1
    }
}

/// Status of `sock_listen`.
pub open spec fn listen_status(h: HostV, fd: u32) -> u32 {
    if !valid_fd(h, fd) {
        ERRNO_BADF
    } else if !(h.sockets[fd as int].state is Bound) {
        ERRNO_INVAL
    } else {
        ERRNO_SUCCESS
    }
}

/// State of the host after `sock_listen`.
pub open spec fn listen_post(h: HostV, fd: u32, backlog: u32) -> HostV {
    let st = listen_status(h, fd);
    let h1 = logged(h, HostCall::Listen { fd, backlog }, st);
    if st == ERRNO_SUCCESS {
        let s = h.sockets[fd as int];
        HostV {
            sockets: h1.sockets.update(fd as int, SockV { state: SockState::Listening, ..s }),
            ..h1
        }
    } else {
        h1
    }
}

impl Host {
    /// A host with no sockets, no resolutions and an empty call log.
    pub fn new() -> (r: Host)
        ensures
            r@ == (HostV {
                sockets: Seq::<SockV>::empty(),
                calls: Seq::<HostCall>::empty(),
                last_error: 0u32,
                resolutions: Seq::<AddrInfoV>::empty(),
                resolve_status: 0u32,
                outbox: Seq::<DgramV>::empty(),
            }),
    {
        let r = Host {
            sockets: Vec::new(),
            calls: Vec::new(),
            last_error: 0,
            resolutions: Vec::new(),
            resolve_status: 0,
            outbox: Vec::new(),
        };
        proof {
            assert(r@ =~= (HostV {
                sockets: Seq::<SockV>::empty(),
                calls: Seq::<HostCall>::empty(),
                last_error: 0u32,
                resolutions: Seq::<AddrInfoV>::empty(),
                resolve_status: 0u32,
                outbox: Seq::<DgramV>::empty(),
            }));
        }
        r
    }

    /// Open a new socket of the given family and type; returns the status
    /// (always success) and the fresh handle.
    pub fn sock_open(&mut self, family: u8, socktype: u8) -> (r: (u32, u32))
        requires
            old(self)@.sockets.len() < 0xffff_ffff,
        ensures
            final(self)@ == open_post(old(self)@, family, socktype),
            r.0 == ERRNO_SUCCESS,
            r.1 as nat == old(self)@.sockets.len(),
    {
        self.calls.push(HostCall::Open { family, socktype });
        let fd = self.sockets.len() as u32;
        self.sockets.push(HostSocket {
            family,
            socktype,
            state: SockState::Open,
            fdflags: 0,
            local_ip: Ipv4Addr { a: 0, b: 0, c: 0, d: 0 },
            local_port: 0,
            peer_ip: Ipv4Addr { a: 0, b: 0, c: 0, d: 0 },
            peer_port: 0,
            peer_tag: 0,
            peer_fd: 0,
            recv_buf: Vec::new(),
            dgrams: Vec::new(),
            pending: Vec::new(),
        });
        proof {
            lemma_socks_view_push(
                old(self).sockets@,
                self.sockets@[old(self).sockets@.len() as int],
            );
            assert(self@ =~~= open_post(old(self)@, family, socktype));
        }
        (ERRNO_SUCCESS, fd)
    }

    /// Close a socket: the handle stops naming a live resource.  The core's
    /// wrapper types never invoke this on their own; lifetime stays with the
    /// caller.
    pub fn sock_close(&mut self, fd: u32)
        ensures
            final(self)@ == close_post(old(self)@, fd),
    {
        self.calls.push(HostCall::Close { fd });
        if (fd as usize) < self.sockets.len() {
            let i = fd as usize;
            let mut s = self.sockets.remove(i);
            s.state = SockState::Closed;
            self.sockets.insert(i, s);
            proof {
                lemma_socks_view_update(
                    old(self).sockets@,
                    fd as int,
                    self.sockets@[fd as int],
                );
                assert(self@ =~~= close_post(old(self)@, fd));
            }
        } else {
            self.last_error = ERRNO_BADF;
            proof {
                assert(self@ =~~= close_post(old(self)@, fd));
            }
        }
    }

    /// Bind a socket to the address in the raw buffer and the given port.
    pub fn sock_bind(&mut self, fd: u32, addr: &WasiAddress, port: u32) -> (r: u32)
        ensures
            final(self)@ == bind_post(old(self)@, fd, addr.buf@, port),
            r == bind_status(old(self)@, fd, addr.buf@, port),
    {
        self.calls.push(HostCall::Bind { fd, port });
        let i = fd as usize;
        if i >= self.sockets.len() {
            self.last_error = ERRNO_BADF;
            proof {
                assert(self@ =~~= bind_post(old(self)@, fd, addr.buf@, port));
            }
            return ERRNO_BADF;
        }
        let is_open = matches!(self.sockets[i].state, SockState::Open);
        if !is_open || addr.buf.len() < 4 || port > 65535 {
            self.last_error = ERRNO_INVAL;
            proof {
                assert(self@ =~~= bind_post(old(self)@, fd, addr.buf@, port));
            }
            return ERRNO_INVAL;
        }
        let mut s = self.sockets.remove(i);
        s.state = SockState::Bound;
        s.local_ip = Ipv4Addr { a: addr.buf[0], b: addr.buf[1], c: addr.buf[2], d: addr.buf[3] };
        s.local_port = port as u16;
        self.sockets.insert(i, s);
        proof {
            lemma_socks_view_update(old(self).sockets@, fd as int, self.sockets@[fd as int]);
            assert(self@ =~~= bind_post(old(self)@, fd, addr.buf@, port));
        }
        ERRNO_SUCCESS
    }

    /// Start listening on a bound socket.
    pub fn sock_listen(&mut self, fd: u32, backlog: u32) -> (r: u32)
        ensures
            final(self)@ == listen_post(old(self)@, fd, backlog),
            r == listen_status(old(self)@, fd),
    {
        self.calls.push(HostCall::Listen { fd, backlog });
        let i = fd as usize;
        if i >= self.sockets.len() {
            self.last_error = ERRNO_BADF;
            proof {
                assert(self@ =~~= listen_post(old(self)@, fd, backlog));
            }
            return ERRNO_BADF;
        }
        let is_bound = matches!(self.sockets[i].state, SockState::Bound);
        if !is_bound {
            self.last_error = ERRNO_INVAL;
            proof {
                assert(self@ =~~= listen_post(old(self)@, fd, backlog));
            }
            return ERRNO_INVAL;
        }
        let mut s = self.sockets.remove(i);
        s.state = SockState::Listening;
        self.sockets.insert(i, s);
        proof {
            lemma_socks_view_update(old(self).sockets@, fd as int, self.sockets@[fd as int]);
            assert(self@ =~~= listen_post(old(self)@, fd, backlog));
        }
        ERRNO_SUCCESS
    }
}

// ---------------------------------------------------------------------------
// connect, accept and data transfer
// ---------------------------------------------------------------------------

/// Whether a socket is a stream listener at the given address.
pub open spec fn is_listener_match(s: SockV, ip: Ipv4Addr, port: u16) -> bool {
    s.state is Listening && s.socktype == SOCK_BYTE_STREAM && s.local_ip == ip && s.local_port
        == port
}

/// Index of the first stream listener at the given address, scanning from
/// slot `i`; the table length when there is none.
pub open spec fn find_listener_from(socks: Seq<SockV>, ip: Ipv4Addr, port: u16, i: int) -> int
    decreases socks.len() - i,
{
    if i < 0 || i >= socks.len() {
        socks.len() as int
    } else if is_listener_match(socks[i], ip, port) {
        i
    } else {
        find_listener_from(socks, ip, port, i + 1)
    }
}

/// Index of the first stream listener at the given address, or the table
/// length when there is none.
pub open spec fn find_listener(socks: Seq<SockV>, ip: Ipv4Addr, port: u16) -> int {
    find_listener_from(socks, ip, port, 0)
}

proof fn lemma_find_listener_prefix(socks: Seq<SockV>, ip: Ipv4Addr, port: u16, i: int)
    requires
        0 <= i <= socks.len(),
        forall|k: int| 0 <= k < i ==> !is_listener_match(socks[k], ip, port),
    ensures
        find_listener(socks, ip, port) == find_listener_from(socks, ip, port, i),
    decreases i,
{
    if i > 0 {
        lemma_find_listener_prefix(socks, ip, port, i - 1);
    }
}

/// Status of `sock_connect`.
pub open spec fn connect_status(h: HostV, fd: u32, raw: Seq<u8>, port: u32) -> u32 {
    if !valid_fd(h, fd) {
        ERRNO_BADF
    } else if !(h.sockets[fd as int].state is Open) || raw.len() < 4 || port > 65535 {
        ERRNO_INVAL
    } else if find_listener(h.sockets, ip_of(raw), port as u16) >= h.sockets.len() {
        ERRNO_CONNREFUSED
    } else {
        ERRNO_SUCCESS
    }
}

/// State of the host after `sock_connect`: when a stream listener is bound
/// at the requested address, the connecting socket becomes connected, a
/// fresh connected socket is created for the accepted side, and its handle
/// is queued on the listener.
pub open spec fn connect_post(h: HostV, fd: u32, raw: Seq<u8>, port: u32) -> HostV {
    let st = connect_status(h, fd, raw, port);
    let h1 = logged(h, HostCall::Connect { fd, port }, st);
    if st == ERRNO_SUCCESS {
        let ip = ip_of(raw);
        let p = port as u16;
        let j = find_listener(h.sockets, ip, p);
        let newfd = h.sockets.len() as u32;
        let client = SockV {
            state: SockState::Connected,
            peer_ip: ip,
            peer_port: p,
            peer_tag: ADDR_TAG_INET4,
            peer_fd: newfd,
            ..h.sockets[fd as int]
        };
        let listener = h.sockets[j];
        let server = SockV {
            family: listener.family,
            socktype: SOCK_BYTE_STREAM,
            state: SockState::Connected,
            fdflags: 0,
            local_ip: ip,
            local_port: p,
            peer_ip: Ipv4Addr { a: 0, b: 0, c: 0, d: 0 },
            peer_port: 0,
            peer_tag: ADDR_TAG_INET4,
            peer_fd: fd,
            recv_buf: Seq::empty(),
            dgrams: Seq::empty(),
            pending: Seq::empty(),
        };
        let with_pending = SockV { pending: listener.pending.push(newfd), ..listener };
        HostV {
            sockets: h1.sockets.update(fd as int, client).update(j, with_pending).push(server),
            ..h1
        }
    } else {
        h1
    }
}

/// Status of `sock_accept`.
pub open spec fn accept_status(h: HostV, fd: u32) -> u32 {
    if !valid_fd(h, fd) {
        ERRNO_BADF
    } else if !(h.sockets[fd as int].state is Listening) {
        ERRNO_INVAL
    } else if h.sockets[fd as int].pending.len() == 0 {
        ERRNO_AGAIN
    } else {
        ERRNO_SUCCESS
    }
}

/// State of the host after `sock_accept`: on success the oldest pending
/// connection leaves the listener's queue.
pub open spec fn accept_post(h: HostV, fd: u32) -> HostV {
    let st = accept_status(h, fd);
    let h1 = logged(h, HostCall::Accept { fd }, st);
    if st == ERRNO_SUCCESS {
        let s = h.sockets[fd as int];
        HostV {
            sockets: h1.sockets.update(fd as int, SockV { pending: s.pending.drop_first(), ..s }),
            ..h1
        }
    } else {
        h1
    }
}

/// Status of `sock_recv` and of `sock_send`'s connection check.
pub open spec fn recv_status(h: HostV, fd: u32) -> u32 {
    if !valid_fd(h, fd) {
        ERRNO_BADF
    } else if !(h.sockets[fd as int].state is Connected) {
        ERRNO_NOTCONN
    } else {
        ERRNO_SUCCESS
    }
}

/// State of the host after `sock_recv`: on success the first
/// `min(max, queued)` bytes leave the socket's receive queue.
pub open spec fn recv_post(h: HostV, fd: u32, max: nat) -> HostV {
    let st = recv_status(h, fd);
    let h1 = logged(h, HostCall::Recv { fd }, st);
    if st == ERRNO_SUCCESS {
        let s = h.sockets[fd as int];
        let take = if max < s.recv_buf.len() {
            max as int
        } else {
            s.recv_buf.len() as int
        };
        HostV {
            sockets: h1.sockets.update(
                fd as int,
                SockV { recv_buf: s.recv_buf.skip(take), ..s },
            ),
            ..h1
        }
    } else {
        h1
    }
}

/// Status of `sock_send`.
pub open spec fn send_status(h: HostV, fd: u32) -> u32 {
    if !valid_fd(h, fd) {
        ERRNO_BADF
    } else if !(h.sockets[fd as int].state is Connected) || !valid_fd(
        h,
        h.sockets[fd as int].peer_fd,
    ) {
        ERRNO_NOTCONN
    } else {
        ERRNO_SUCCESS
    }
}

/// State of the host after `sock_send`: on success the whole buffer is
/// appended to the peer socket's receive queue.
pub open spec fn send_post(h: HostV, fd: u32, data: Seq<u8>) -> HostV {
    let st = send_status(h, fd);
    let h1 = logged(h, HostCall::Send { fd }, st);
    if st == ERRNO_SUCCESS {
        let k = h.sockets[fd as int].peer_fd as int;
        let peer = h.sockets[k];
        HostV {
            sockets: h1.sockets.update(k, SockV { recv_buf: peer.recv_buf + data, ..peer }),
            ..h1
        }
    } else {
        h1
    }
}

/// Status of `sock_shutdown`.
pub open spec fn shutdown_status(h: HostV, fd: u32) -> u32 {
    if valid_fd(h, fd) {
        ERRNO_SUCCESS
    } else {
        ERRNO_BADF
    }
}

/// State of the host after `sock_shutdown`: a one-way notification; the
/// handle stays live and no queue changes.
pub open spec fn shutdown_post(h: HostV, fd: u32, how: u8) -> HostV {
    logged(h, HostCall::Shutdown { fd, how }, shutdown_status(h, fd))
}

impl Host {
    /// Connect a socket to the given address and port.
    pub fn sock_connect(&mut self, fd: u32, addr: &WasiAddress, port: u32) -> (r: u32)
        requires
            old(self)@.sockets.len() < 0xffff_ffff,
        ensures
            final(self)@ == connect_post(old(self)@, fd, addr.buf@, port),
            r == connect_status(old(self)@, fd, addr.buf@, port),
    {
        let n = self.sockets.len();
        let i = fd as usize;
        if i >= n {
            self.calls.push(HostCall::Connect { fd, port });
            self.last_error = ERRNO_BADF;
            proof {
                assert(self@ =~~= connect_post(old(self)@, fd, addr.buf@, port));
            }
            return ERRNO_BADF;
        }
        let is_open = matches!(self.sockets[i].state, SockState::Open);
        if !is_open || addr.buf.len() < 4 || port > 65535 {
            self.calls.push(HostCall::Connect { fd, port });
            self.last_error = ERRNO_INVAL;
            proof {
                assert(self@ =~~= connect_post(old(self)@, fd, addr.buf@, port));
            }
            return ERRNO_INVAL;
        }
        let ip = Ipv4Addr { a: addr.buf[0], b: addr.buf[1], c: addr.buf[2], d: addr.buf[3] };
        let p = port as u16;
        let mut j: usize = 0;
        let mut found: bool = false;
        while j < n && !found
            invariant
                *self == *old(self),
                n == self@.sockets.len(),
                j <= n,
                ip == ip_of(addr.buf@),
                forall|k: int| 0 <= k < j ==> !is_listener_match(self@.sockets[k], ip, p),
                found ==> j < n && is_listener_match(self@.sockets[j as int], ip, p),
            decreases n - j, (if found { 0int } else { 1int }),
        {
            let s = &self.sockets[j];
            let listening = matches!(s.state, SockState::Listening);
            if listening && s.socktype == SOCK_BYTE_STREAM && s.local_ip == ip && s.local_port
                == p {
                found = true;
            } else {
                j += 1;
            }
        }
        proof {
            lemma_find_listener_prefix(self@.sockets, ip, p, j as int);
            if found {
                assert(find_listener(self@.sockets, ip, p) == j as int);
            } else {
                assert(find_listener(self@.sockets, ip, p) == n as int);
            }
        }
        self.calls.push(HostCall::Connect { fd, port });
        if !found {
            self.last_error = ERRNO_CONNREFUSED;
            proof {
                assert(self@ =~~= connect_post(old(self)@, fd, addr.buf@, port));
            }
            return ERRNO_CONNREFUSED;
        }
        let newfd = n as u32;
        let ghost s0 = self.sockets@;
        let mut client = self.sockets.remove(i);
        client.state = SockState::Connected;
        client.peer_ip = ip;
        client.peer_port = p;
        client.peer_tag = ADDR_TAG_INET4;
        client.peer_fd = newfd;
        self.sockets.insert(i, client);
        proof {
            lemma_socks_view_update(s0, i as int, self.sockets@[i as int]);
        }
        let ghost s1 = self.sockets@;
        let family = self.sockets[j].family;
        let mut lst = self.sockets.remove(j);
        lst.pending.push(newfd);
        self.sockets.insert(j, lst);
        proof {
            lemma_socks_view_update(s1, j as int, self.sockets@[j as int]);
        }
        let ghost s2 = self.sockets@;
        self.sockets.push(HostSocket {
            family,
            socktype: SOCK_BYTE_STREAM,
            state: SockState::Connected,
            fdflags: 0,
            local_ip: ip,
            local_port: p,
            peer_ip: Ipv4Addr { a: 0, b: 0, c: 0, d: 0 },
            peer_port: 0,
            peer_tag: ADDR_TAG_INET4,
            peer_fd: fd,
            recv_buf: Vec::new(),
            dgrams: Vec::new(),
            pending: Vec::new(),
        });
        proof {
            lemma_socks_view_push(s2, self.sockets@[s2.len() as int]);
            assert(self@ =~~= connect_post(old(self)@, fd, addr.buf@, port));
        }
        ERRNO_SUCCESS
    }

    /// Accept the oldest pending connection on a listening socket; returns
    /// the status and, on success, the handle of the accepted socket.
    pub fn sock_accept(&mut self, fd: u32) -> (r: (u32, u32))
        ensures
            final(self)@ == accept_post(old(self)@, fd),
            r.0 == accept_status(old(self)@, fd),
            r.0 == ERRNO_SUCCESS ==> r.1 == old(self)@.sockets[fd as int].pending[0],
            r.0 != ERRNO_SUCCESS ==> r.1 == 0,
    {
        self.calls.push(HostCall::Accept { fd });
        let i = fd as usize;
        if i >= self.sockets.len() {
            self.last_error = ERRNO_BADF;
            proof {
                assert(self@ =~~= accept_post(old(self)@, fd));
            }
            return (ERRNO_BADF, 0);
        }
        let listening = matches!(self.sockets[i].state, SockState::Listening);
        if !listening {
            self.last_error = ERRNO_INVAL;
            proof {
                assert(self@ =~~= accept_post(old(self)@, fd));
            }
            return (ERRNO_INVAL, 0);
        }
        if self.sockets[i].pending.len() == 0 {
            self.last_error = ERRNO_AGAIN;
            proof {
                assert(self@ =~~= accept_post(old(self)@, fd));
            }
            return (ERRNO_AGAIN, 0);
        }
        let mut s = self.sockets.remove(i);
        let newfd = s.pending.remove(0);
        self.sockets.insert(i, s);
        proof {
            lemma_socks_view_update(old(self).sockets@, fd as int, self.sockets@[fd as int]);
            assert(self@ =~~= accept_post(old(self)@, fd));
        }
        (ERRNO_SUCCESS, newfd)
    }

    /// Receive up to `max` bytes from a connected socket's queue; returns
    /// the status and the bytes received.
    pub fn sock_recv(&mut self, fd: u32, max: usize) -> (r: (u32, Vec<u8>))
        ensures
            final(self)@ == recv_post(old(self)@, fd, max as nat),
            r.0 == recv_status(old(self)@, fd),
            r.0 == ERRNO_SUCCESS ==> r.1@ == old(self)@.sockets[fd as int].recv_buf.take(
                if (max as nat) < old(self)@.sockets[fd as int].recv_buf.len() {
                    max as int
                } else {
                    old(self)@.sockets[fd as int].recv_buf.len() as int
                },
            ),
            r.0 != ERRNO_SUCCESS ==> r.1@ == Seq::<u8>::empty(),
    {
        self.calls.push(HostCall::Recv { fd });
        let i = fd as usize;
        if i >= self.sockets.len() {
            self.last_error = ERRNO_BADF;
            proof {
                assert(self@ =~~= recv_post(old(self)@, fd, max as nat));
            }
            return (ERRNO_BADF, Vec::new());
        }
        let connected = matches!(self.sockets[i].state, SockState::Connected);
        if !connected {
            self.last_error = ERRNO_NOTCONN;
            proof {
                assert(self@ =~~= recv_post(old(self)@, fd, max as nat));
            }
            return (ERRNO_NOTCONN, Vec::new());
        }
        let mut s = self.sockets.remove(i);
        let take = if max < s.recv_buf.len() {
            max
        } else {
            s.recv_buf.len()
        };
        let mut rest = s.recv_buf.split_off(take);
        core::mem::swap(&mut s.recv_buf, &mut rest);
        self.sockets.insert(i, s);
        proof {
            lemma_socks_view_update(old(self).sockets@, fd as int, self.sockets@[fd as int]);
            assert(self@ =~~= recv_post(old(self)@, fd, max as nat));
        }
        (ERRNO_SUCCESS, rest)
    }

    /// Send the whole buffer on a connected socket: the bytes are appended
    /// to the peer's receive queue.  Returns the status and the byte count
    /// the host accepted.
    pub fn sock_send(&mut self, fd: u32, data: &Vec<u8>) -> (r: (u32, u32))
        requires
            data@.len() <= 0xffff_ffff,
        ensures
            final(self)@ == send_post(old(self)@, fd, data@),
            r.0 == send_status(old(self)@, fd),
            r.0 == ERRNO_SUCCESS ==> r.1 as nat == data@.len(),
            r.0 != ERRNO_SUCCESS ==> r.1 == 0,
    {
        self.calls.push(HostCall::Send { fd });
        let i = fd as usize;
        if i >= self.sockets.len() {
            self.last_error = ERRNO_BADF;
            proof {
                assert(self@ =~~= send_post(old(self)@, fd, data@));
            }
            return (ERRNO_BADF, 0);
        }
        let connected = matches!(self.sockets[i].state, SockState::Connected);
        let peer = self.sockets[i].peer_fd;
        if !connected || (peer as usize) >= self.sockets.len() {
            self.last_error = ERRNO_NOTCONN;
            proof {
                assert(self@ =~~= send_post(old(self)@, fd, data@));
            }
            return (ERRNO_NOTCONN, 0);
        }
        let k = peer as usize;
        let mut ps = self.sockets.remove(k);
        let ghost pre = ps.recv_buf@;
        let mut t: usize = 0;
        while t < data.len()
            invariant
                t <= data@.len(),
                ps.recv_buf@ =~= pre + data@.subrange(0, t as int),
                ps.family == old(self).sockets@[k as int].family,
                ps.socktype == old(self).sockets@[k as int].socktype,
                ps.state == old(self).sockets@[k as int].state,
                ps.fdflags == old(self).sockets@[k as int].fdflags,
                ps.local_ip == old(self).sockets@[k as int].local_ip,
                ps.local_port == old(self).sockets@[k as int].local_port,
                ps.peer_ip == old(self).sockets@[k as int].peer_ip,
                ps.peer_port == old(self).sockets@[k as int].peer_port,
                ps.peer_tag == old(self).sockets@[k as int].peer_tag,
                ps.peer_fd == old(self).sockets@[k as int].peer_fd,
                ps.dgrams == old(self).sockets@[k as int].dgrams,
                ps.pending == old(self).sockets@[k as int].pending,
            decreases data@.len() - t,
        {
            ps.recv_buf.push(data[t]);
            t += 1;
        }
        self.sockets.insert(k, ps);
        proof {
            assert(pre + data@.subrange(0, data@.len() as int) =~= pre + data@);
            lemma_socks_view_update(old(self).sockets@, k as int, self.sockets@[k as int]);
            assert(self@ =~~= send_post(old(self)@, fd, data@));
        }
        (ERRNO_SUCCESS, data.len() as u32)
    }

    /// Notify the host of a one-way shutdown of a connection.
    pub fn sock_shutdown(&mut self, fd: u32, how: u8) -> (r: u32)
        ensures
            final(self)@ == shutdown_post(old(self)@, fd, how),
            r == shutdown_status(old(self)@, fd),
    {
        self.calls.push(HostCall::Shutdown { fd, how });
        if (fd as usize) >= self.sockets.len() {
            self.last_error = ERRNO_BADF;
            proof {
                assert(self@ =~~= shutdown_post(old(self)@, fd, how));
            }
            return ERRNO_BADF;
        }
        proof {
            assert(self@ =~~= shutdown_post(old(self)@, fd, how));
        }
        ERRNO_SUCCESS
    }
}

// ---------------------------------------------------------------------------
// address queries, descriptor flags, datagrams, resolution
// ---------------------------------------------------------------------------

/// Status of `sock_getpeeraddr`.
pub open spec fn peeraddr_status(h: HostV, fd: u32) -> u32 {
    if !valid_fd(h, fd) {
        ERRNO_BADF
    } else if !(h.sockets[fd as int].state is Connected) {
        ERRNO_NOTCONN
    } else {
        ERRNO_SUCCESS
    }
}

/// State of the host after `sock_getpeeraddr`: a pure query, only logged.
pub open spec fn peeraddr_post(h: HostV, fd: u32) -> HostV {
    logged(h, HostCall::GetPeerAddr { fd }, peeraddr_status(h, fd))
}

/// Status of `sock_getlocaladdr`.
pub open spec fn localaddr_status(h: HostV, fd: u32) -> u32 {
    if valid_fd(h, fd) {
        ERRNO_SUCCESS
    } else {
        ERRNO_BADF
    }
}

/// State of the host after `sock_getlocaladdr`: a pure query, only logged.
pub open spec fn localaddr_post(h: HostV, fd: u32) -> HostV {
    logged(h, HostCall::GetLocalAddr { fd }, localaddr_status(h, fd))
}

/// The family tag the local-address query reports for a socket: the IPv4
/// sentinel for a socket opened with the IPv4 family byte, the IPv6
/// sentinel otherwise.
pub open spec fn local_tag(s: SockV) -> u32 {
    if s.family == FAMILY_BYTE_INET4 {
        ADDR_TAG_INET4
    } else {
        ADDR_TAG_INET6
    }
}

/// Status of the descriptor-flag primitives.
pub open spec fn fdstat_status(h: HostV, fd: u32) -> u32 {
    if valid_fd(h, fd) {
        ERRNO_SUCCESS
    } else {
        ERRNO_BADF
    }
}

/// State of the host after `fd_fdstat_get`: a pure query, only logged.
pub open spec fn fdstat_get_post(h: HostV, fd: u32) -> HostV {
    logged(h, HostCall::FdstatGet { fd }, fdstat_status(h, fd))
}

/// State of the host after `fd_fdstat_set_flags`: on success the handle's
/// whole flag bitmask is replaced.
pub open spec fn fdstat_set_post(h: HostV, fd: u32, flags: u16) -> HostV {
    let st = fdstat_status(h, fd);
    let h1 = logged(h, HostCall::FdstatSetFlags { fd, flags }, st);
    if st == ERRNO_SUCCESS {
        let s = h.sockets[fd as int];
        HostV { sockets: h1.sockets.update(fd as int, SockV { fdflags: flags, ..s }), ..h1 }
    } else {
        h1
    }
}

/// Status of `sock_recv_from`.
pub open spec fn recv_from_status(h: HostV, fd: u32) -> u32 {
    if !valid_fd(h, fd) {
        ERRNO_BADF
    } else if h.sockets[fd as int].socktype != SOCK_BYTE_DGRAM {
        ERRNO_INVAL
    } else if h.sockets[fd as int].dgrams.len() == 0 {
        ERRNO_AGAIN
    } else {
        ERRNO_SUCCESS
    }
}

/// State of the host after `sock_recv_from`: on success the oldest queued
/// datagram leaves the socket.
pub open spec fn recv_from_post(h: HostV, fd: u32) -> HostV {
    let st = recv_from_status(h, fd);
    let h1 = logged(h, HostCall::RecvFrom { fd }, st);
    if st == ERRNO_SUCCESS {
        let s = h.sockets[fd as int];
        HostV {
            sockets: h1.sockets.update(fd as int, SockV { dgrams: s.dgrams.drop_first(), ..s }),
            ..h1
        }
    } else {
        h1
    }
}

/// Status of `sock_send_to`.
pub open spec fn send_to_status(h: HostV, fd: u32) -> u32 {
    if !valid_fd(h, fd) {
        ERRNO_BADF
    } else if h.sockets[fd as int].socktype != SOCK_BYTE_DGRAM {
        ERRNO_INVAL
    } else {
        ERRNO_SUCCESS
    }
}

/// State of the host after `sock_send_to`: on success the datagram, with
/// its textual destination address, enters the host's outbox.
pub open spec fn send_to_post(h: HostV, fd: u32, data: Seq<u8>, addr_text: Seq<u8>) -> HostV {
    let st = send_to_status(h, fd);
    let h1 = logged(h, HostCall::SendTo { fd }, st);
    if st == ERRNO_SUCCESS {
        HostV { outbox: h1.outbox.push(DgramV { data, addr_text }), ..h1 }
    } else {
        h1
    }
}

/// State of the host after `sock_getaddrinfo`: a pure query, only logged;
/// its status is whatever the host's resolver reports.
pub open spec fn getaddrinfo_post(h: HostV, max: u32) -> HostV {
    logged(h, HostCall::GetAddrInfo { max }, h.resolve_status)
}

/// Number of entries `sock_getaddrinfo` serves: the table, capped at `max`.
pub open spec fn getaddrinfo_count(h: HostV, max: u32) -> nat {
    if h.resolutions.len() < max as nat {
        h.resolutions.len()
    } else {
        max as nat
    }
}

impl Host {
    /// Query the peer address of a connected socket: returns the status,
    /// the raw address buffer the host filled in, the family tag and the
    /// peer port.
    pub fn sock_getpeeraddr(&mut self, fd: u32) -> (r: (u32, WasiAddress, u32, u32))
        ensures
            final(self)@ == peeraddr_post(old(self)@, fd),
            r.0 == peeraddr_status(old(self)@, fd),
            r.0 == ERRNO_SUCCESS ==> {
                let s = old(self)@.sockets[fd as int];
                r.1.buf@ == seq![s.peer_ip.a, s.peer_ip.b, s.peer_ip.c, s.peer_ip.d] && r.2
                    == s.peer_tag && r.3 == s.peer_port as u32
            },
            r.0 != ERRNO_SUCCESS ==> r.1.buf@ == Seq::<u8>::empty() && r.2 == 0 && r.3 == 0,
    {
        self.calls.push(HostCall::GetPeerAddr { fd });
        let i = fd as usize;
        if i >= self.sockets.len() {
            self.last_error = ERRNO_BADF;
            proof {
                assert(self@ =~~= peeraddr_post(old(self)@, fd));
            }
            return (ERRNO_BADF, WasiAddress { buf: Vec::new() }, 0, 0);
        }
        let connected = matches!(self.sockets[i].state, SockState::Connected);
        if !connected {
            self.last_error = ERRNO_NOTCONN;
            proof {
                assert(self@ =~~= peeraddr_post(old(self)@, fd));
            }
            return (ERRNO_NOTCONN, WasiAddress { buf: Vec::new() }, 0, 0);
        }
        let s = &self.sockets[i];
        let mut buf: Vec<u8> = Vec::new();
        buf.push(s.peer_ip.a);
        buf.push(s.peer_ip.b);
        buf.push(s.peer_ip.c);
        buf.push(s.peer_ip.d);
        proof {
            assert(buf@ =~= seq![s.peer_ip.a, s.peer_ip.b, s.peer_ip.c, s.peer_ip.d]);
            assert(self@ =~~= peeraddr_post(old(self)@, fd));
        }
        (ERRNO_SUCCESS, WasiAddress { buf }, s.peer_tag, s.peer_port as u32)
    }

    /// Query the local address of a socket: returns the status, the raw
    /// address buffer, the family tag and the local port.
    pub fn sock_getlocaladdr(&mut self, fd: u32) -> (r: (u32, WasiAddress, u32, u32))
        ensures
            final(self)@ == localaddr_post(old(self)@, fd),
            r.0 == localaddr_status(old(self)@, fd),
            r.0 == ERRNO_SUCCESS ==> {
                let s = old(self)@.sockets[fd as int];
                r.1.buf@ == seq![s.local_ip.a, s.local_ip.b, s.local_ip.c, s.local_ip.d] && r.2
                    == local_tag(s) && r.3 == s.local_port as u32
            },
            r.0 != ERRNO_SUCCESS ==> r.1.buf@ == Seq::<u8>::empty() && r.2 == 0 && r.3 == 0,
    {
        self.calls.push(HostCall::GetLocalAddr { fd });
        let i = fd as usize;
        if i >= self.sockets.len() {
            self.last_error = ERRNO_BADF;
            proof {
                assert(self@ =~~= localaddr_post(old(self)@, fd));
            }
            return (ERRNO_BADF, WasiAddress { buf: Vec::new() }, 0, 0);
        }
        let s = &self.sockets[i];
        let mut buf: Vec<u8> = Vec::new();
        buf.push(s.local_ip.a);
        buf.push(s.local_ip.b);
        buf.push(s.local_ip.c);
        buf.push(s.local_ip.d);
        let tag = if s.family == FAMILY_BYTE_INET4 {
            ADDR_TAG_INET4
        } else {
            ADDR_TAG_INET6
        };
        proof {
            assert(buf@ =~= seq![s.local_ip.a, s.local_ip.b, s.local_ip.c, s.local_ip.d]);
            assert(self@ =~~= localaddr_post(old(self)@, fd));
        }
        (ERRNO_SUCCESS, WasiAddress { buf }, tag, s.local_port as u32)
    }

    /// Read a handle's descriptor flag bitmask.
    pub fn fd_fdstat_get(&mut self, fd: u32) -> (r: (u32, u16))
        ensures
            final(self)@ == fdstat_get_post(old(self)@, fd),
            r.0 == fdstat_status(old(self)@, fd),
            r.0 == ERRNO_SUCCESS ==> r.1 == old(self)@.sockets[fd as int].fdflags,
            r.0 != ERRNO_SUCCESS ==> r.1 == 0,
    {
        self.calls.push(HostCall::FdstatGet { fd });
        let i = fd as usize;
        if i >= self.sockets.len() {
            self.last_error = ERRNO_BADF;
            proof {
                assert(self@ =~~= fdstat_get_post(old(self)@, fd));
            }
            return (ERRNO_BADF, 0);
        }
        proof {
            assert(self@ =~~= fdstat_get_post(old(self)@, fd));
        }
        (ERRNO_SUCCESS, self.sockets[i].fdflags)
    }

    /// Replace a handle's whole descriptor flag bitmask.
    pub fn fd_fdstat_set_flags(&mut self, fd: u32, flags: u16) -> (r: u32)
        ensures
            final(self)@ == fdstat_set_post(old(self)@, fd, flags),
            r == fdstat_status(old(self)@, fd),
    {
        self.calls.push(HostCall::FdstatSetFlags { fd, flags });
        let i = fd as usize;
        if i >= self.sockets.len() {
            self.last_error = ERRNO_BADF;
            proof {
                assert(self@ =~~= fdstat_set_post(old(self)@, fd, flags));
            }
            return ERRNO_BADF;
        }
        let mut s = self.sockets.remove(i);
        s.fdflags = flags;
        self.sockets.insert(i, s);
        proof {
            lemma_socks_view_update(old(self).sockets@, fd as int, self.sockets@[fd as int]);
            assert(self@ =~~= fdstat_set_post(old(self)@, fd, flags));
        }
        ERRNO_SUCCESS
    }

    /// Receive the oldest datagram queued on a datagram socket: returns the
    /// status, up to `max` payload bytes, and the sender's address as the
    /// printable text the host wrote.
    pub fn sock_recv_from(&mut self, fd: u32, max: usize) -> (r: (u32, Vec<u8>, Vec<u8>))
        ensures
            final(self)@ == recv_from_post(old(self)@, fd),
            r.0 == recv_from_status(old(self)@, fd),
            r.0 == ERRNO_SUCCESS ==> {
                let d = old(self)@.sockets[fd as int].dgrams[0];
                r.1@ == (if d.data.len() <= max as nat {
                    d.data
                } else {
                    d.data.take(max as int)
                }) && r.2@ == d.addr_text
            },
            r.0 != ERRNO_SUCCESS ==> r.1@ == Seq::<u8>::empty() && r.2@ == Seq::<u8>::empty(),
    {
        self.calls.push(HostCall::RecvFrom { fd });
        let i = fd as usize;
        if i >= self.sockets.len() {
            self.last_error = ERRNO_BADF;
            proof {
                assert(self@ =~~= recv_from_post(old(self)@, fd));
            }
            return (ERRNO_BADF, Vec::new(), Vec::new());
        }
        if self.sockets[i].socktype != SOCK_BYTE_DGRAM {
            self.last_error = ERRNO_INVAL;
            proof {
                assert(self@ =~~= recv_from_post(old(self)@, fd));
            }
            return (ERRNO_INVAL, Vec::new(), Vec::new());
        }
        if self.sockets[i].dgrams.len() == 0 {
            self.last_error = ERRNO_AGAIN;
            proof {
                assert(self@ =~~= recv_from_post(old(self)@, fd));
            }
            return (ERRNO_AGAIN, Vec::new(), Vec::new());
        }
        let mut s = self.sockets.remove(i);
        let mut d = s.dgrams.remove(0);
        self.sockets.insert(i, s);
        if d.data.len() > max {
            d.data.truncate(max);
        }
        proof {
            lemma_socks_view_update(old(self).sockets@, fd as int, self.sockets@[fd as int]);
            assert(self@ =~~= recv_from_post(old(self)@, fd));
        }
        (ERRNO_SUCCESS, d.data, d.addr_text)
    }

    /// Hand the host a datagram for transmission, addressed by printable
    /// text; returns the status and the byte count the host accepted.
    pub fn sock_send_to(&mut self, fd: u32, data: &Vec<u8>, addr_text: &Vec<u8>) -> (r: (
        u32,
        u32,
    ))
        requires
            data@.len() <= 0xffff_ffff,
        ensures
            final(self)@ == send_to_post(old(self)@, fd, data@, addr_text@),
            r.0 == send_to_status(old(self)@, fd),
            r.0 == ERRNO_SUCCESS ==> r.1 as nat == data@.len(),
            r.0 != ERRNO_SUCCESS ==> r.1 == 0,
    {
        self.calls.push(HostCall::SendTo { fd });
        let i = fd as usize;
        if i >= self.sockets.len() {
            self.last_error = ERRNO_BADF;
            proof {
                assert(self@ =~~= send_to_post(old(self)@, fd, data@, addr_text@));
            }
            return (ERRNO_BADF, 0);
        }
        if self.sockets[i].socktype != SOCK_BYTE_DGRAM {
            self.last_error = ERRNO_INVAL;
            proof {
                assert(self@ =~~= send_to_post(old(self)@, fd, data@, addr_text@));
            }
            return (ERRNO_INVAL, 0);
        }
        self.outbox.push(Dgram { data: copy_bytes(data), addr_text: copy_bytes(addr_text) });
        proof {
            assert(self@ =~~= send_to_post(old(self)@, fd, data@, addr_text@));
        }
        (ERRNO_SUCCESS, data.len() as u32)
    }

    /// Resolve a node/service query: serves the host's seeded resolution
    /// table, capped at `max` entries, under the host's resolver status.
    /// The textual query itself does not influence the model's answer.
    #[allow(unused_variables)]
    pub fn sock_getaddrinfo(&mut self, node: &str, service: &str, max: u32) -> (r: (
        u32,
        Vec<WasiAddrinfo>,
    ))
        ensures
            final(self)@ == getaddrinfo_post(old(self)@, max),
            r.0 == old(self)@.resolve_status,
            r.0 == ERRNO_SUCCESS ==> r.1@.len() == getaddrinfo_count(old(self)@, max) && forall|
                k: int,
            |
                0 <= k < r.1@.len() ==> r.1@[k]@ == old(self)@.resolutions[k],
            r.0 != ERRNO_SUCCESS ==> r.1@.len() == 0,
    {
        let status = self.resolve_status;
        if status != ERRNO_SUCCESS {
            self.calls.push(HostCall::GetAddrInfo { max });
            self.last_error = status;
            proof {
                assert(self@ =~~= getaddrinfo_post(old(self)@, max));
            }
            return (status, Vec::new());
        }
        let count = if self.resolutions.len() < max as usize {
            self.resolutions.len()
        } else {
            max as usize
        };
        let mut out: Vec<WasiAddrinfo> = Vec::new();
        let mut k: usize = 0;
        while k < count
            invariant
                *self == *old(self),
                k <= count,
                count as nat == getaddrinfo_count(self@, max),
                count <= self.resolutions@.len(),
                out@.len() == k,
                forall|t: int| 0 <= t < k ==> out@[t]@ == self@.resolutions[t],
            decreases count - k,
        {
            out.push(clone_addrinfo(&self.resolutions[k]));
            k += 1;
        }
        self.calls.push(HostCall::GetAddrInfo { max });
        proof {
            assert(self@ =~~= getaddrinfo_post(old(self)@, max));
        }
        (ERRNO_SUCCESS, out)
    }
}

// ---------------------------------------------------------------------------
// world-side events
// ---------------------------------------------------------------------------

impl Host {
    /// A remote peer completes a connection on an open socket: the socket
    /// becomes connected, with the peer described by the given family tag,
    /// address and port, and a companion socket standing for the remote end
    /// joins the table.  A world event, not a primitive call: the log does
    /// not change.
    pub fn peer_connected(&mut self, fd: u32, peer_tag: u32, peer_ip: Ipv4Addr, peer_port: u16)
        -> (r: bool)
        requires
            old(self)@.sockets.len() < 0xffff_ffff,
        ensures
            r == (valid_fd(old(self)@, fd) && old(self)@.sockets[fd as int].state is Open),
            r ==> final(self)@ == (HostV {
                sockets: old(self)@.sockets.update(
                    fd as int,
                    SockV {
                        state: SockState::Connected,
                        peer_ip,
                        peer_port,
                        peer_tag,
                        peer_fd: old(self)@.sockets.len() as u32,
                        ..old(self)@.sockets[fd as int]
                    },
                ).push(
                    SockV {
                        family: if peer_tag == ADDR_TAG_INET6 {
                            1u8
                        } else {
                            FAMILY_BYTE_INET4
                        },
                        socktype: SOCK_BYTE_STREAM,
                        state: SockState::Connected,
                        fdflags: 0,
                        local_ip: peer_ip,
                        local_port: peer_port,
                        peer_ip: old(self)@.sockets[fd as int].local_ip,
                        peer_port: old(self)@.sockets[fd as int].local_port,
                        peer_tag: ADDR_TAG_INET4,
                        peer_fd: fd,
                        recv_buf: Seq::empty(),
                        dgrams: Seq::empty(),
                        pending: Seq::empty(),
                    },
                ),
                ..old(self)@
            }),
            !r ==> final(self)@ == old(self)@,
    {
        let i = fd as usize;
        if i >= self.sockets.len() {
            proof {
                assert(self@ =~~= old(self)@);
            }
            return false;
        }
        let is_open = matches!(self.sockets[i].state, SockState::Open);
        if !is_open {
            proof {
                assert(self@ =~~= old(self)@);
            }
            return false;
        }
        let newfd = self.sockets.len() as u32;
        let local_ip = self.sockets[i].local_ip;
        let local_port = self.sockets[i].local_port;
        let mut s = self.sockets.remove(i);
        s.state = SockState::Connected;
        s.peer_ip = peer_ip;
        s.peer_port = peer_port;
        s.peer_tag = peer_tag;
        s.peer_fd = newfd;
        self.sockets.insert(i, s);
        proof {
            lemma_socks_view_update(old(self).sockets@, fd as int, self.sockets@[fd as int]);
        }
        let ghost s1 = self.sockets@;
        self.sockets.push(HostSocket {
            family: if peer_tag == ADDR_TAG_INET6 {
                1
            } else {
                FAMILY_BYTE_INET4
            },
            socktype: SOCK_BYTE_STREAM,
            state: SockState::Connected,
            fdflags: 0,
            local_ip: peer_ip,
            local_port: peer_port,
            peer_ip: local_ip,
            peer_port: local_port,
            peer_tag: ADDR_TAG_INET4,
            peer_fd: fd,
            recv_buf: Vec::new(),
            dgrams: Vec::new(),
            pending: Vec::new(),
        });
        proof {
            lemma_socks_view_push(s1, self.sockets@[s1.len() as int]);
            assert(self@.sockets =~~= old(self)@.sockets.update(
                fd as int,
                SockV {
                    state: SockState::Connected,
                    peer_ip,
                    peer_port,
                    peer_tag,
                    peer_fd: old(self)@.sockets.len() as u32,
                    ..old(self)@.sockets[fd as int]
                },
            ).push(
                SockV {
                    family: if peer_tag == ADDR_TAG_INET6 {
                        1u8
                    } else {
                        FAMILY_BYTE_INET4
                    },
                    socktype: SOCK_BYTE_STREAM,
                    state: SockState::Connected,
                    fdflags: 0,
                    local_ip: peer_ip,
                    local_port: peer_port,
                    peer_ip: old(self)@.sockets[fd as int].local_ip,
                    peer_port: old(self)@.sockets[fd as int].local_port,
                    peer_tag: ADDR_TAG_INET4,
                    peer_fd: fd,
                    recv_buf: Seq::empty(),
                    dgrams: Seq::empty(),
                    pending: Seq::empty(),
                },
            ));
        }
        true
    }

    /// The network hands the host a datagram for a datagram socket,
    /// together with the sender's printable textual address.  A world
    /// event, not a primitive call: the log does not change.
    pub fn deliver_datagram(&mut self, fd: u32, data: Vec<u8>, addr_text: Vec<u8>) -> (r: bool)
        ensures
            r == (valid_fd(old(self)@, fd) && old(self)@.sockets[fd as int].socktype
                == SOCK_BYTE_DGRAM),
            r ==> final(self)@ == (HostV {
                sockets: old(self)@.sockets.update(
                    fd as int,
                    SockV {
                        dgrams: old(self)@.sockets[fd as int].dgrams.push(
                            DgramV { data: data@, addr_text: addr_text@ },
                        ),
                        ..old(self)@.sockets[fd as int]
                    },
                ),
                ..old(self)@
            }),
            !r ==> final(self)@ == old(self)@,
    {
        let i = fd as usize;
        if i >= self.sockets.len() {
            proof {
                assert(self@ =~~= old(self)@);
            }
            return false;
        }
        if self.sockets[i].socktype != SOCK_BYTE_DGRAM {
            proof {
                assert(self@ =~~= old(self)@);
            }
            return false;
        }
        let mut s = self.sockets.remove(i);
        s.dgrams.push(Dgram { data, addr_text });
        self.sockets.insert(i, s);
        proof {
            lemma_socks_view_update(old(self).sockets@, fd as int, self.sockets@[fd as int]);
            assert(self@ =~~= (HostV {
                sockets: old(self)@.sockets.update(
                    fd as int,
                    SockV {
                        dgrams: old(self)@.sockets[fd as int].dgrams.push(
                            DgramV { data: data@, addr_text: addr_text@ },
                        ),
                        ..old(self)@.sockets[fd as int]
                    },
                ),
                ..old(self)@
            }));
        }
        true
    }

    /// Seed one entry of the resolution table `sock_getaddrinfo` serves.
    pub fn add_resolution(&mut self, entry: WasiAddrinfo)
        ensures
            final(self)@ == (HostV {
                resolutions: old(self)@.resolutions.push(entry@),
                ..old(self)@
            }),
    {
        self.resolutions.push(entry);
        proof {
            assert(self@ =~~= (HostV {
                resolutions: old(self)@.resolutions.push(entry@),
                ..old(self)@
            }));
        }
    }

    /// Set the status the host's resolver reports.
    pub fn set_resolve_status(&mut self, status: u32)
        ensures
            final(self)@ == (HostV { resolve_status: status, ..old(self)@ }),
    {
        self.resolve_status = status;
        proof {
            assert(self@ =~~= (HostV { resolve_status: status, ..old(self)@ }));
        }
    }
}

} // verus!
