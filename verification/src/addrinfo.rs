//! Name/service resolution: the address-info result set and the query that
//! fills it.
//!
//! Resolution produces a bounded list of candidate addresses, each carrying
//! family, socket type, protocol, a raw sockaddr-equivalent byte buffer and
//! an optional canonical name.

use vstd::prelude::*;

use crate::addr::{AddressFamily, SocketType, copy_bytes};

verus! {

/// Hints controlling a resolution query.
#[derive(Clone, Copy, Debug, PartialEq, Eq, Structural)]
pub enum AiFlags {
    AiPassive,
    AiCanonname,
    AiNumericHost,
    AiNumericServ,
    AiV4Mapped,
    AiAll,
    AiAddrConfig,
}

/// Transport protocol of a resolved candidate.
#[derive(Clone, Copy, Debug, PartialEq, Eq, Structural)]
pub enum AiProtocol {
    IPProtoTCP,
    IPProtoUDP,
}

/// A raw sockaddr-equivalent: family plus an opaque data buffer, as the
/// resolution primitive fills it in.
#[derive(Debug)]
pub struct WasiSockaddr {
    pub family: AddressFamily,
    pub sa_data_len: u32,
    pub sa_data: Vec<u8>,
}

/// Mathematical view of a raw sockaddr.
#[verifier::ext_equal]
pub struct SockaddrV {
    pub family: AddressFamily,
    pub sa_data_len: u32,
    pub sa_data: Seq<u8>,
}

impl View for WasiSockaddr {
    type V = SockaddrV;

    open spec fn view(&self) -> SockaddrV {
        SockaddrV { family: self.family, sa_data_len: self.sa_data_len, sa_data: self.sa_data@ }
    }
}

impl WasiSockaddr {
    /// A sockaddr of the given family over the given backing bytes, with
    /// the conventional declared data length of 14.
    pub fn new(family: AddressFamily, sa_data: Vec<u8>) -> (r: WasiSockaddr)
        ensures
            r@ == (SockaddrV { family, sa_data_len: 14u32, sa_data: sa_data@ }),
    {
        WasiSockaddr { family, sa_data_len: 14, sa_data }
    }
}

/// One entry of an address-info result set.
#[derive(Debug)]
pub struct WasiAddrinfo {
    pub ai_flags: AiFlags,
    pub ai_family: AddressFamily,
    pub ai_socktype: SocketType,
    pub ai_protocol: AiProtocol,
    pub ai_addrlen: u32,
    pub ai_addr: WasiSockaddr,
    pub ai_canonname: Vec<u8>,
    pub ai_canonnamelen: u32,
}

/// Mathematical view of an address-info entry.
#[verifier::ext_equal]
pub struct AddrInfoV {
    pub ai_flags: AiFlags,
    pub ai_family: AddressFamily,
    pub ai_socktype: SocketType,
    pub ai_protocol: AiProtocol,
    pub ai_addrlen: u32,
    pub ai_addr: SockaddrV,
    pub ai_canonname: Seq<u8>,
    pub ai_canonnamelen: u32,
}

impl View for WasiAddrinfo {
    type V = AddrInfoV;

    open spec fn view(&self) -> AddrInfoV {
        AddrInfoV {
            ai_flags: self.ai_flags,
            ai_family: self.ai_family,
            ai_socktype: self.ai_socktype,
            ai_protocol: self.ai_protocol,
            ai_addrlen: self.ai_addrlen,
            ai_addr: self.ai_addr@,
            ai_canonname: self.ai_canonname@,
            ai_canonnamelen: self.ai_canonnamelen,
        }
    }
}

/// The view of the conventional default hint entry: passive, IPv4,
/// datagram, TCP protocol, no address and no canonical name.
pub open spec fn default_addrinfo_v() -> AddrInfoV {
    AddrInfoV {
        ai_flags: AiFlags::AiPassive,
        ai_family: AddressFamily::Inet4,
        ai_socktype: SocketType::Datagram,
        ai_protocol: AiProtocol::IPProtoTCP,
        ai_addrlen: 0u32,
        ai_addr: SockaddrV {
            family: AddressFamily::Inet4,
            sa_data_len: 0u32,
            sa_data: Seq::empty(),
        },
        ai_canonname: Seq::empty(),
        ai_canonnamelen: 0u32,
    }
}

impl WasiAddrinfo {
    /// The conventional hint entry to start a query from.
    pub fn default() -> (r: WasiAddrinfo)
        ensures
            r@ == default_addrinfo_v(),
    {
        let r = WasiAddrinfo {
            ai_flags: AiFlags::AiPassive,
            ai_family: AddressFamily::Inet4,
            ai_socktype: SocketType::Datagram,
            ai_protocol: AiProtocol::IPProtoTCP,
            ai_addrlen: 0,
            ai_addr: WasiSockaddr { family: AddressFamily::Inet4, sa_data_len: 0, sa_data: Vec::new() },
            ai_canonname: Vec::new(),
            ai_canonnamelen: 0,
        };
        proof {
            assert(r@ =~= default_addrinfo_v());
        }
        r
    }
}

impl WasiAddrinfo {
    /// Resolve a node/service query into a bounded candidate list.
    ///
    /// The host serves at most `max_reslen` entries; a nonzero resolver
    /// status becomes an `Os` error.  Entries come back by value: no
    /// caller-provided backing storage is involved at this layer.
    #[allow(unused_variables)]
    pub fn get_addrinfo(
        node: &str,
        service: &str,
        hints: &WasiAddrinfo,
        max_reslen: usize,
        host: &mut crate::host::Host,
    ) -> (r: Result<Vec<WasiAddrinfo>, crate::error::SockError>)
        requires
            max_reslen <= 0xffff_ffff,
        ensures
            final(host)@ == crate::host::getaddrinfo_post(old(host)@, max_reslen as u32),
            ({
                let st = old(host)@.resolve_status;
                match r {
                    Ok(out) => st == crate::host::ERRNO_SUCCESS && out@.len()
                        == crate::host::getaddrinfo_count(old(host)@, max_reslen as u32) && forall|
                        k: int,
                    | 0 <= k < out@.len() ==> out@[k]@ == old(host)@.resolutions[k],
                    Err(e) => st != crate::host::ERRNO_SUCCESS && e == crate::error::SockError::Os(
                        st,
                    ),
                }
            }),
    {
        let (status, out) = host.sock_getaddrinfo(node, service, max_reslen as u32);
        if status != crate::host::ERRNO_SUCCESS {
            return Err(crate::error::SockError::Os(status));
        }
        Ok(out)
    }
}

/// A value-identical copy of an address-info entry.
pub fn clone_addrinfo(e: &WasiAddrinfo) -> (r: WasiAddrinfo)
    ensures
        r@ == e@,
{
    let r = WasiAddrinfo {
        ai_flags: e.ai_flags,
        ai_family: e.ai_family,
        ai_socktype: e.ai_socktype,
        ai_protocol: e.ai_protocol,
        ai_addrlen: e.ai_addrlen,
        ai_addr: WasiSockaddr {
            family: e.ai_addr.family,
            sa_data_len: e.ai_addr.sa_data_len,
            sa_data: copy_bytes(&e.ai_addr.sa_data),
        },
        ai_canonname: copy_bytes(&e.ai_canonname),
        ai_canonnamelen: e.ai_canonnamelen,
    };
    proof {
        assert(r@ =~= e@);
    }
    r
}

} // verus!
