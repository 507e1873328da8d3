//! Stream sockets and listeners.
//!
//! Every operation takes the host capability provider explicitly and is
//! specified as an exact transform of the host's state: which primitives
//! run, in which order, and what the caller gets back.

use vstd::prelude::*;

use crate::addr::{
    ADDR_TAG_INET4, AddressFamily, FAMILY_BYTE_INET4, FAMILY_BYTE_INET6, SocketAddr,
    SocketAddrV4, SocketType, WasiAddress, address_to_raw, raw_to_address, spec_address_to_raw,
};
use crate::error::SockError;
use crate::fdflags::{FDFLAG_NONBLOCK, set_fdflag, spec_with_flag};
use crate::host::{
    ERRNO_SUCCESS, Host, HostCall, HostV, SOCK_BYTE_STREAM, accept_post, accept_status,
    bind_post, connect_post, fdstat_get_post, fdstat_set_post, listen_post, localaddr_post,
    localaddr_status, local_tag, open_post, peeraddr_post, peeraddr_status, recv_post,
    recv_status, send_post, send_status, shutdown_post,
};

verus! {

/// The fixed backlog every listener is created with.
pub const LISTEN_BACKLOG: u32 = 128;

/// Direction of a one-way stream shutdown.
#[derive(Clone, Copy, Debug, PartialEq, Eq, Structural)]
pub enum Shutdown {
    Read,
    Write,
    Both,
}

impl Shutdown {
    /// The byte the shutdown primitive encodes this direction as.
    pub open spec fn spec_byte(self) -> u8 {
        match self {
            Shutdown::Read => 0,
            Shutdown::Write => 1,
            Shutdown::Both => 2,
        }
    }

    /// Encode the direction for the shutdown primitive.
    pub fn as_byte(&self) -> (r: u8)
        ensures
            r == self.spec_byte(),
    {
        match self {
            Shutdown::Read => 0,
            Shutdown::Write => 1,
            Shutdown::Both => 2,
        }
    }
}

/// An opaque host-side socket handle.  A plain copyable capability token:
/// no reference counting, no automatic release.
#[derive(Clone, Copy, Debug, PartialEq, Eq, Structural)]
pub struct SocketHandle(pub u32);

impl SocketHandle {
    /// The raw integer value of the handle.
    pub fn as_raw_fd(&self) -> (r: u32)
        ensures
            r == self.0,
    {
        self.0
    }
}

/// A stream socket: one handle, created by connect or by accept.
#[derive(Clone, Copy, Debug)]
pub struct TcpStream {
    pub fd: SocketHandle,
}

/// A listening socket: one handle plus the raw address and port captured
/// at bind time (recorded, not re-queried from the host).
#[derive(Debug)]
pub struct TcpListener {
    pub fd: SocketHandle,
    pub address: WasiAddress,
    pub port: u16,
}

/// A borrowing cursor over a listener that accepts connections forever.
pub struct Incoming<'a> {
    pub listener: &'a TcpListener,
}

impl TcpStream {
    /// The raw handle underlying this stream.
    pub fn as_raw_fd(&self) -> (r: u32)
        ensures
            r == self.fd.0,
    {
        self.fd.as_raw_fd()
    }

    /// Create a stream socket and connect it to the first candidate
    /// address.
    ///
    /// Only the first candidate is ever processed, and the connect
    /// primitive's status is ignored: the stream is returned with its
    /// handle's validity unconfirmed, and a failed connection is first
    /// observed by the next I/O operation.  An empty candidate list fails
    /// with `NoAddress`; a first candidate of the IPv6 family fails with
    /// `UnsupportedAddressType` after the socket was already opened, since
    /// no IPv6 serialization path exists.
    pub fn connect(candidates: &Vec<SocketAddr>, host: &mut Host) -> (r: Result<
        TcpStream,
        SockError,
    >)
        requires
            old(host)@.sockets.len() + 2 < 0xffff_ffff,
        ensures
            candidates@.len() == 0 ==> r == Err::<TcpStream, SockError>(SockError::NoAddress)
                && final(host)@ == old(host)@,
            candidates@.len() > 0 ==> match candidates@[0] {
                SocketAddr::V4(a) => {
                    let fd = old(host)@.sockets.len() as u32;
                    &&& r == Ok::<TcpStream, SockError>(TcpStream { fd: SocketHandle(fd) })
                    &&& final(host)@ == connect_post(
                        open_post(old(host)@, FAMILY_BYTE_INET4, SOCK_BYTE_STREAM),
                        fd,
                        spec_address_to_raw(a),
                        a.port as u32,
                    )
                },
                SocketAddr::V6(_) => r == Err::<TcpStream, SockError>(
                    SockError::UnsupportedAddressType,
                ) && final(host)@ == open_post(old(host)@, FAMILY_BYTE_INET6, SOCK_BYTE_STREAM),
            },
    {
        if candidates.len() == 0 {
            return Err(SockError::NoAddress);
        }
        let c = candidates[0];
        let family = AddressFamily::from(c);
        let (_open_status, fd) = host.sock_open(
            family.as_byte(),
            SocketType::Stream.as_byte(),
        );
        match c {
            SocketAddr::V4(a) => {
                let raw = address_to_raw(&a);
                let _connect_status = host.sock_connect(fd, &raw, a.port as u32);
                Ok(TcpStream { fd: SocketHandle(fd) })
            },
            SocketAddr::V6(_) => Err(SockError::UnsupportedAddressType),
        }
    }

    /// Receive into the buffer: up to `buf.len()` bytes are taken from the
    /// socket's queue and written at the front of `buf`, whose length does
    /// not change.  Returns the byte count received; zero means the peer
    /// closed or nothing was queued.  A nonzero primitive status becomes an
    /// `Os` error.
    pub fn read(&mut self, buf: &mut Vec<u8>, host: &mut Host) -> (r: Result<usize, SockError>)
        ensures
            *final(self) == *old(self),
            final(host)@ == recv_post(old(host)@, old(self).fd.0, old(buf)@.len()),
            ({
                let st = recv_status(old(host)@, old(self).fd.0);
                match r {
                    Ok(n) => {
                        let q = old(host)@.sockets[old(self).fd.0 as int].recv_buf;
                        let take = if q.len() < old(buf)@.len() {
                            q.len() as int
                        } else {
                            old(buf)@.len() as int
                        };
                        &&& st == ERRNO_SUCCESS
                        &&& n == take
                        &&& final(buf)@ == q.take(take) + old(buf)@.skip(take)
                    },
                    Err(e) => st != ERRNO_SUCCESS && e == SockError::Os(st) && final(buf)@
                        == old(buf)@,
                }
            }),
    {
        let (status, data) = host.sock_recv(self.fd.0, buf.len());
        if status != ERRNO_SUCCESS {
            return Err(SockError::Os(status));
        }
        let n = data.len();
        let mut i: usize = 0;
        while i < n
            invariant
                i <= n,
                n == data@.len(),
                n <= buf@.len(),
                buf@.len() == old(buf)@.len(),
                forall|t: int| 0 <= t < i ==> buf@[t] == data@[t],
                forall|t: int| i <= t < buf@.len() ==> buf@[t] == old(buf)@[t],
            decreases n - i,
        {
            buf[i] = data[i];
            i += 1;
        }
        proof {
            let q = old(host)@.sockets[old(self).fd.0 as int].recv_buf;
            let take = if q.len() < old(buf)@.len() {
                q.len() as int
            } else {
                old(buf)@.len() as int
            };
            assert(buf@ =~= q.take(take) + old(buf)@.skip(take));
        }
        Ok(n)
    }

    /// Send the whole buffer: a single primitive call whose accepted byte
    /// count is returned.  The host may accept fewer bytes than offered on
    /// a real transport, so callers loop on short writes; this host model
    /// always accepts the whole buffer.  A nonzero primitive status becomes
    /// an `Os` error.
    pub fn write(&mut self, buf: &Vec<u8>, host: &mut Host) -> (r: Result<usize, SockError>)
        requires
            buf@.len() <= 0xffff_ffff,
        ensures
            *final(self) == *old(self),
            final(host)@ == send_post(old(host)@, old(self).fd.0, buf@),
            ({
                let st = send_status(old(host)@, old(self).fd.0);
                match r {
                    Ok(n) => st == ERRNO_SUCCESS && n == buf@.len(),
                    Err(e) => st != ERRNO_SUCCESS && e == SockError::Os(st),
                }
            }),
    {
        let (status, sent) = host.sock_send(self.fd.0, buf);
        if status != ERRNO_SUCCESS {
            return Err(SockError::Os(status));
        }
        Ok(sent as usize)
    }

    /// Flushing is a no-op: no user-space buffering exists.
    pub fn flush(&mut self) -> (r: Result<(), SockError>)
        ensures
            *final(self) == *old(self),
            r == Ok::<(), SockError>(()),
    {
        Ok(())
    }

    /// Notify the host of a one-way shutdown.  The handle is not released.
    pub fn shutdown(&self, how: Shutdown, host: &mut Host) -> (r: Result<(), SockError>)
        ensures
            final(host)@ == shutdown_post(old(host)@, self.fd.0, how.spec_byte()),
            r == Ok::<(), SockError>(()),
    {
        let _status = host.sock_shutdown(self.fd.0, how.as_byte());
        Ok(())
    }

    /// Query the peer address.  The host's answer is accepted only under
    /// the IPv4 sentinel tag; any other tag, the IPv6 sentinel included,
    /// fails with `UnsupportedAddressType`, and the address is rebuilt from
    /// the first four buffer bytes regardless of the declared buffer size.
    pub fn peer_addr(&self, host: &mut Host) -> (r: Result<SocketAddr, SockError>)
        ensures
            final(host)@ == peeraddr_post(old(host)@, self.fd.0),
            ({
                let st = peeraddr_status(old(host)@, self.fd.0);
                let s = old(host)@.sockets[self.fd.0 as int];
                match r {
                    Ok(sa) => st == ERRNO_SUCCESS && s.peer_tag == ADDR_TAG_INET4 && sa
                        == SocketAddr::V4(SocketAddrV4 { ip: s.peer_ip, port: s.peer_port }),
                    Err(e) => (st != ERRNO_SUCCESS || s.peer_tag != ADDR_TAG_INET4) && e
                        == SockError::UnsupportedAddressType,
                }
            }),
    {
        let (_status, buffer, tag, port) = host.sock_getpeeraddr(self.fd.0);
        if tag != ADDR_TAG_INET4 {
            return Err(SockError::UnsupportedAddressType);
        }
        match raw_to_address(&buffer, tag, port as u16) {
            Ok(a) => Ok(SocketAddr::V4(a)),
            Err(e) => Err(e),
        }
    }

    /// Query the local address, under the same IPv4-sentinel rule as
    /// `peer_addr`.
    pub fn local_addr(&self, host: &mut Host) -> (r: Result<SocketAddr, SockError>)
        ensures
            final(host)@ == localaddr_post(old(host)@, self.fd.0),
            ({
                let st = localaddr_status(old(host)@, self.fd.0);
                let s = old(host)@.sockets[self.fd.0 as int];
                match r {
                    Ok(sa) => st == ERRNO_SUCCESS && local_tag(s) == ADDR_TAG_INET4 && sa
                        == SocketAddr::V4(SocketAddrV4 { ip: s.local_ip, port: s.local_port }),
                    Err(e) => (st != ERRNO_SUCCESS || local_tag(s) != ADDR_TAG_INET4) && e
                        == SockError::UnsupportedAddressType,
                }
            }),
    {
        let (_status, buffer, tag, port) = host.sock_getlocaladdr(self.fd.0);
        if tag != ADDR_TAG_INET4 {
            return Err(SockError::UnsupportedAddressType);
        }
        match raw_to_address(&buffer, tag, port as u16) {
            Ok(a) => Ok(SocketAddr::V4(a)),
            Err(e) => Err(e),
        }
    }
}

/// State of the host after the call sequence `TcpListener::bind` issues
/// for a first candidate of the IPv4 family: open, then (when non-blocking
/// is requested) the flag read-modify-write, then bind, then listen with
/// the fixed backlog.
pub open spec fn listener_bind_post(h: HostV, a: SocketAddrV4, nonblock: bool) -> HostV {
    let fd = h.sockets.len() as u32;
    let h1 = open_post(h, FAMILY_BYTE_INET4, SOCK_BYTE_STREAM);
    let h2 = if nonblock {
        fdstat_set_post(
            fdstat_get_post(h1, fd),
            fd,
            spec_with_flag(h1.sockets[fd as int].fdflags, FDFLAG_NONBLOCK),
        )
    } else {
        h1
    };
    let h3 = bind_post(h2, fd, spec_address_to_raw(a), a.port as u32);
    listen_post(h3, fd, LISTEN_BACKLOG)
}

impl TcpListener {
    /// The raw handle underlying this listener.
    pub fn as_raw_fd(&self) -> (r: u32)
        ensures
            r == self.fd.0,
    {
        self.fd.as_raw_fd()
    }

    /// Create a stream socket bound to the first candidate address and set
    /// it listening with the fixed backlog.
    ///
    /// Only the first candidate is ever processed and the bind and listen
    /// statuses are ignored, as for `TcpStream::connect`.  When `nonblock`
    /// is requested, the non-blocking descriptor flag is applied to the
    /// handle strictly before bind and listen run.  The raw address and
    /// port of the candidate are captured on the listener for later
    /// inspection; they are not re-queried from the host.
    pub fn bind(candidates: &Vec<SocketAddr>, nonblock: bool, host: &mut Host) -> (r: Result<
        TcpListener,
        SockError,
    >)
        requires
            old(host)@.sockets.len() + 2 < 0xffff_ffff,
        ensures
            candidates@.len() == 0 ==> r is Err && (r matches Err(e) && e == SockError::NoAddress)
                && final(host)@ == old(host)@,
            candidates@.len() > 0 ==> match candidates@[0] {
                SocketAddr::V4(a) => {
                    let fd = old(host)@.sockets.len() as u32;
                    &&& final(host)@ == listener_bind_post(old(host)@, a, nonblock)
                    &&& match r {
                        Ok(l) => l.fd.0 == fd && l.address.buf@ == spec_address_to_raw(a)
                            && l.port == a.port,
                        Err(_) => false,
                    }
                },
                SocketAddr::V6(_) => (r matches Err(e) && e == SockError::UnsupportedAddressType)
                    && final(host)@ == open_post(old(host)@, FAMILY_BYTE_INET6, SOCK_BYTE_STREAM),
            },
    {
        if candidates.len() == 0 {
            return Err(SockError::NoAddress);
        }
        let c = candidates[0];
        let family = AddressFamily::from(c);
        let (_open_status, fd) = host.sock_open(
            family.as_byte(),
            SocketType::Stream.as_byte(),
        );
        match c {
            SocketAddr::V4(a) => {
                if nonblock {
                    let _flag_status = set_fdflag(host, fd, FDFLAG_NONBLOCK);
                }
                let raw = address_to_raw(&a);
                let _bind_status = host.sock_bind(fd, &raw, a.port as u32);
                let _listen_status = host.sock_listen(fd, LISTEN_BACKLOG);
                Ok(TcpListener { fd: SocketHandle(fd), address: raw, port: a.port })
            },
            SocketAddr::V6(_) => Err(SockError::UnsupportedAddressType),
        }
    }

    /// Accept one pending connection: on success the new handle gets the
    /// given descriptor-flag bitmask applied, is wrapped as a stream, and
    /// its peer address is queried at once.  That last step can fail even
    /// though the host already handed the connection over; the accepted
    /// handle is not closed in that case.  A nonzero accept status becomes
    /// an `Os` error and no stream is constructed.
    pub fn accept(&self, flag: u16, host: &mut Host) -> (r: Result<
        (TcpStream, SocketAddr),
        SockError,
    >)
        ensures
            ({
                let st = accept_status(old(host)@, self.fd.0);
                if st != ERRNO_SUCCESS {
                    &&& final(host)@ == accept_post(old(host)@, self.fd.0)
                    &&& r matches Err(e) && e == SockError::Os(st)
                } else {
                    let newfd = old(host)@.sockets[self.fd.0 as int].pending[0];
                    let h2 = fdstat_set_post(accept_post(old(host)@, self.fd.0), newfd, flag);
                    let pst = peeraddr_status(h2, newfd);
                    let s = h2.sockets[newfd as int];
                    &&& final(host)@ == peeraddr_post(h2, newfd)
                    &&& match r {
                        Ok((stream, sa)) => pst == ERRNO_SUCCESS && s.peer_tag == ADDR_TAG_INET4
                            && stream.fd.0 == newfd && sa == SocketAddr::V4(
                            SocketAddrV4 { ip: s.peer_ip, port: s.peer_port },
                        ),
                        Err(e) => (pst != ERRNO_SUCCESS || s.peer_tag != ADDR_TAG_INET4) && e
                            == SockError::UnsupportedAddressType,
                    }
                }
            }),
    {
        let (status, newfd) = host.sock_accept(self.fd.0);
        if status != ERRNO_SUCCESS {
            return Err(SockError::Os(status));
        }
        let _flag_status = host.fd_fdstat_set_flags(newfd, flag);
        let stream = TcpStream { fd: SocketHandle(newfd) };
        match stream.peer_addr(host) {
            Ok(sa) => Ok((stream, sa)),
            Err(e) => Err(e),
        }
    }

    /// An infinite cursor over incoming connections.  Restartable only by
    /// constructing a new cursor; it never signals natural termination.
    pub fn incoming(&self) -> (r: Incoming<'_>)
        ensures
            r.listener == self,
    {
        Incoming { listener: self }
    }
}

impl<'a> Incoming<'a> {
    /// Accept the next connection, with no descriptor flags applied, and
    /// keep only the stream.
    ///
    /// Law: the cursor never terminates.  Every step yields an item —
    /// a stream or an error — and never a natural end of sequence, so
    /// requesting any number of items yields exactly that many results.
    pub fn next(&mut self, host: &mut Host) -> (r: Option<Result<TcpStream, SockError>>)
        ensures
            *final(self) == *old(self),
            r is Some,
            ({
                let fd = old(self).listener.fd.0;
                let st = accept_status(old(host)@, fd);
                if st != ERRNO_SUCCESS {
                    &&& final(host)@ == accept_post(old(host)@, fd)
                    &&& r == Some(Err::<TcpStream, SockError>(SockError::Os(st)))
                } else {
                    let newfd = old(host)@.sockets[fd as int].pending[0];
                    let h2 = fdstat_set_post(accept_post(old(host)@, fd), newfd, 0u16);
                    let pst = peeraddr_status(h2, newfd);
                    let s = h2.sockets[newfd as int];
                    &&& final(host)@ == peeraddr_post(h2, newfd)
                    &&& match r {
                        Some(Ok(stream)) => pst == ERRNO_SUCCESS && s.peer_tag == ADDR_TAG_INET4
                            && stream.fd.0 == newfd,
                        Some(Err(e)) => (pst != ERRNO_SUCCESS || s.peer_tag != ADDR_TAG_INET4)
                            && e == SockError::UnsupportedAddressType,
                        None => false,
                    }
                }
            }),
    {
        match self.listener.accept(0, host) {
            Ok(pair) => Some(Ok(pair.0)),
            Err(e) => Some(Err(e)),
        }
    }

    /// The cursor is infinite: the lower bound is the largest expressible
    /// size and there is no upper bound.
    pub fn size_hint(&self) -> (r: (usize, Option<usize>))
        ensures
            r.0 == usize::MAX,
            r.1 is None,
    {
        (usize::MAX, None)
    }
}

/// Law: a listener bound with the non-blocking option applies the
/// non-blocking flag to its handle strictly before the listen primitive is
/// invoked.  In the call log `TcpListener::bind` leaves behind, the
/// flag-set entry for the handle stands at a strictly smaller index than
/// the listen entry (two before it: open, flag read, flag set, bind,
/// listen).
pub proof fn lemma_bind_nonblock_order(h: HostV, a: SocketAddrV4)
    requires
        h.sockets.len() + 2 < 0xffff_ffff,
    ensures
        ({
            let fd = h.sockets.len() as u32;
            let post = listener_bind_post(h, a, true);
            &&& post.calls.len() == h.calls.len() + 5
            &&& post.calls[h.calls.len() as int + 2] == HostCall::FdstatSetFlags {
                fd,
                flags: spec_with_flag(0u16, FDFLAG_NONBLOCK),
            }
            &&& post.calls[h.calls.len() as int + 4] == HostCall::Listen {
                fd,
                backlog: LISTEN_BACKLOG,
            }
            &&& h.calls.len() + 2 < h.calls.len() + 4
        }),
{
    let fd = h.sockets.len() as u32;
    let h1 = open_post(h, FAMILY_BYTE_INET4, SOCK_BYTE_STREAM);
    assert(h1.sockets[fd as int].fdflags == 0u16);
    let hg = fdstat_get_post(h1, fd);
    let h2 = fdstat_set_post(hg, fd, spec_with_flag(0u16, FDFLAG_NONBLOCK));
    let h3 = bind_post(h2, fd, spec_address_to_raw(a), a.port as u32);
    let h4 = listen_post(h3, fd, LISTEN_BACKLOG);
    assert(h2.sockets[fd as int].state is Open);
    assert(spec_address_to_raw(a).len() == 4);
    assert(h3.sockets[fd as int].state is Bound);
    assert(h4.calls =~= h.calls.push(
        HostCall::Open { family: FAMILY_BYTE_INET4, socktype: SOCK_BYTE_STREAM },
    ).push(HostCall::FdstatGet { fd }).push(
        HostCall::FdstatSetFlags { fd, flags: spec_with_flag(0u16, FDFLAG_NONBLOCK) },
    ).push(HostCall::Bind { fd, port: a.port as u32 }).push(
        HostCall::Listen { fd, backlog: LISTEN_BACKLOG },
    ));
}

} // verus!
