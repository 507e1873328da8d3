//! Datagram sockets.
//!
//! The datagram path differs from the stream path in its address encoding:
//! addresses cross the host boundary as printable text, converted to and
//! from structured form by the one canonical codec in `text`.

use vstd::prelude::*;

use crate::addr::SocketAddr;
use crate::error::SockError;
use crate::host::{
    ERRNO_SUCCESS, Host, recv_from_post, recv_from_status, send_to_post, send_to_status,
};
use crate::tcp::SocketHandle;
use crate::text::{parse_sockaddr_v4, render_sockaddr_v4, spec_render_sockaddr_v4};

verus! {

/// A datagram socket: one handle.
#[derive(Debug)]
pub struct UdpSocket {
    pub fd: SocketHandle,
}

impl UdpSocket {
    /// The raw handle underlying this socket.
    pub fn as_raw_fd(&self) -> (r: u32)
        ensures
            r == self.fd.0,
    {
        self.fd.as_raw_fd()
    }

    /// Datagram bind has no implemented path: every call fails with
    /// `Unimplemented` and leaves the host untouched.  The intended binding
    /// semantics (ephemeral or explicit port) are an open question of the
    /// host capability set, so nothing is guessed here.
    #[allow(unused_variables)]
    pub fn bind(candidates: &Vec<SocketAddr>, host: &mut Host) -> (r: Result<UdpSocket, SockError>)
        ensures
            r matches Err(e) && e == SockError::Unimplemented,
            final(host)@ == old(host)@,
    {
        Err(SockError::Unimplemented)
    }

    /// Receive the oldest queued datagram: up to `buf.len()` payload bytes
    /// are written at the front of `buf`, whose length does not change, and
    /// the sender address is reconstructed from the printable text the host
    /// wrote.  Text that is not a canonical address fails with
    /// `MalformedAddress`; a nonzero primitive status becomes an `Os` error.
    pub fn recv_from(&self, buf: &mut Vec<u8>, host: &mut Host) -> (r: Result<
        (usize, SocketAddr),
        SockError,
    >)
        ensures
            final(host)@ == recv_from_post(old(host)@, self.fd.0),
            final(buf)@.len() == old(buf)@.len(),
            ({
                let st = recv_from_status(old(host)@, self.fd.0);
                if st != ERRNO_SUCCESS {
                    (r matches Err(e) && e == SockError::Os(st)) && final(buf)@ == old(buf)@
                } else {
                    let d = old(host)@.sockets[self.fd.0 as int].dgrams[0];
                    let take = if d.data.len() < old(buf)@.len() {
                        d.data.len() as int
                    } else {
                        old(buf)@.len() as int
                    };
                    let filled = d.data.take(take) + old(buf)@.skip(take);
                    match r {
                        Ok((nread, sa)) => final(buf)@ == filled && nread == take && match sa {
                            SocketAddr::V4(a) => d.addr_text == spec_render_sockaddr_v4(a),
                            SocketAddr::V6(_) => false,
                        },
                        Err(e) => e == SockError::MalformedAddress && final(buf)@ == filled
                            && (forall|a| d.addr_text != spec_render_sockaddr_v4(a)),
                    }
                }
            }),
    {
        let (status, data, addr_text) = host.sock_recv_from(self.fd.0, buf.len());
        if status != ERRNO_SUCCESS {
            return Err(SockError::Os(status));
        }
        let n = data.len();
        let mut i: usize = 0;
        while i < n
            invariant
                i <= n,
                n == data@.len(),
                n <= buf@.len(),
                buf@.len() == old(buf)@.len(),
                forall|t: int| 0 <= t < i ==> buf@[t] == data@[t],
                forall|t: int| i <= t < buf@.len() ==> buf@[t] == old(buf)@[t],
            decreases n - i,
        {
            buf[i] = data[i];
            i += 1;
        }
        proof {
            let d = old(host)@.sockets[self.fd.0 as int].dgrams[0];
            let take = if d.data.len() < old(buf)@.len() {
                d.data.len() as int
            } else {
                old(buf)@.len() as int
            };
            assert(data@ =~= d.data.take(take));
            assert(buf@ =~= d.data.take(take) + old(buf)@.skip(take));
        }
        match parse_sockaddr_v4(&addr_text) {
            Some(a) => Ok((n, SocketAddr::V4(a))),
            None => Err(SockError::MalformedAddress),
        }
    }

    /// Send the buffer as one datagram to the first candidate address,
    /// rendered in its canonical textual form and handed to the host
    /// alongside the payload.  An empty candidate list fails with
    /// `NoAddress`; an IPv6 first candidate has no textual rendering and
    /// fails with `UnsupportedAddressType`.
    pub fn send_to(&self, buf: &Vec<u8>, addrs: &Vec<SocketAddr>, host: &mut Host) -> (r: Result<
        usize,
        SockError,
    >)
        requires
            buf@.len() <= 0xffff_ffff,
        ensures
            addrs@.len() == 0 ==> (r matches Err(e) && e == SockError::NoAddress) && final(host)@
                == old(host)@,
            addrs@.len() > 0 ==> match addrs@[0] {
                SocketAddr::V4(a) => {
                    let st = send_to_status(old(host)@, self.fd.0);
                    &&& final(host)@ == send_to_post(
                        old(host)@,
                        self.fd.0,
                        buf@,
                        spec_render_sockaddr_v4(a),
                    )
                    &&& match r {
                        Ok(n) => st == ERRNO_SUCCESS && n == buf@.len(),
                        Err(e) => st != ERRNO_SUCCESS && e == SockError::Os(st),
                    }
                },
                SocketAddr::V6(_) => (r matches Err(e) && e == SockError::UnsupportedAddressType)
                    && final(host)@ == old(host)@,
            },
    {
        if addrs.len() == 0 {
            return Err(SockError::NoAddress);
        }
        match addrs[0] {
            SocketAddr::V4(a) => {
                let text = render_sockaddr_v4(&a);
                let (status, sent) = host.sock_send_to(self.fd.0, buf, &text);
                if status != ERRNO_SUCCESS {
                    return Err(SockError::Os(status));
                }
                Ok(sent as usize)
            },
            SocketAddr::V6(_) => Err(SockError::UnsupportedAddressType),
        }
    }
}

} // verus!
