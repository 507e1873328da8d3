//! Structured addresses and the translation between them and the raw
//! byte-buffer shape the host primitives exchange.
//!
//! Two encodings of the address family cross the host boundary.  At socket
//! creation the family is a small enumerated byte (`Inet4` first, `Inet6`
//! second).  When an address is read back from the host, the family arrives
//! as a sentinel tag, `4` for IPv4 and `6` for IPv6.  Both encodings are kept
//! here as named constants, and only the IPv4 read-back path is supported.

use vstd::prelude::*;

use crate::error::SockError;

verus! {

/// Family byte passed to the socket-open primitive for IPv4.
pub const FAMILY_BYTE_INET4: u8 = 0;
/// Family byte passed to the socket-open primitive for IPv6.
pub const FAMILY_BYTE_INET6: u8 = 1;
/// Family tag reported by the address read-back primitives for IPv4.
pub const ADDR_TAG_INET4: u32 = 4;
/// Family tag reported by the address read-back primitives for IPv6.
pub const ADDR_TAG_INET6: u32 = 6;

/// Address family of a socket: drives which primitive byte layout is used.
#[derive(Clone, Copy, Debug, PartialEq, Eq, Structural)]
pub enum AddressFamily {
    Inet4,
    Inet6,
}

impl AddressFamily {
    /// The enumerated byte this family is encoded as when a socket is opened.
    pub open spec fn spec_byte(self) -> u8 {
        match self {
            AddressFamily::Inet4 => FAMILY_BYTE_INET4,
            AddressFamily::Inet6 => FAMILY_BYTE_INET6,
        }
    }

    /// Encode the family as the byte the socket-open primitive expects.
    pub fn as_byte(&self) -> (r: u8)
        ensures
            r == self.spec_byte(),
    {
        match self {
            AddressFamily::Inet4 => FAMILY_BYTE_INET4,
            AddressFamily::Inet6 => FAMILY_BYTE_INET6,
        }
    }
}

/// Socket type of a handle: fixed per wrapper type and passed to the open
/// primitive (`Datagram` first, `Stream` second).
#[derive(Clone, Copy, Debug, PartialEq, Eq, Structural)]
pub enum SocketType {
    Datagram,
    Stream,
}

impl SocketType {
    /// The enumerated byte this socket type is encoded as at open time.
    pub open spec fn spec_byte(self) -> u8 {
        match self {
            SocketType::Datagram => 0,
            SocketType::Stream => 1,
        }
    }

    /// Encode the socket type as the byte the open primitive expects.
    pub fn as_byte(&self) -> (r: u8)
        ensures
            r == self.spec_byte(),
    {
        match self {
            SocketType::Datagram => 0,
            SocketType::Stream => 1,
        }
    }
}

/// An IPv4 address as four octets.
#[derive(Clone, Copy, Debug, PartialEq, Eq, Structural)]
pub struct Ipv4Addr {
    pub a: u8,
    pub b: u8,
    pub c: u8,
    pub d: u8,
}

impl Ipv4Addr {
    /// Build an address from its four octets, highest first.
    pub fn new(a: u8, b: u8, c: u8, d: u8) -> (r: Ipv4Addr)
        ensures
            r == (Ipv4Addr { a, b, c, d }),
    {
        Ipv4Addr { a, b, c, d }
    }
}

/// An IPv4 socket address: host address plus port.
#[derive(Clone, Copy, Debug, PartialEq, Eq, Structural)]
pub struct SocketAddrV4 {
    pub ip: Ipv4Addr,
    pub port: u16,
}

impl SocketAddrV4 {
    /// Pair an IPv4 address with a port.
    pub fn new(ip: Ipv4Addr, port: u16) -> (r: SocketAddrV4)
        ensures
            r == (SocketAddrV4 { ip, port }),
    {
        SocketAddrV4 { ip, port }
    }
}

/// An IPv6 socket address tag.  Only the enum tag exists: no working
/// address payload path is provided for this family.
#[derive(Clone, Copy, Debug, PartialEq, Eq, Structural)]
pub struct SocketAddrV6 {
    pub port: u16,
}

/// A structured socket address of either family.
#[derive(Clone, Copy, Debug, PartialEq, Eq, Structural)]
pub enum SocketAddr {
    V4(SocketAddrV4),
    V6(SocketAddrV6),
}

impl From<SocketAddr> for AddressFamily {
    /// Derive the address family from a structured socket address.
    fn from(addr: SocketAddr) -> (r: AddressFamily) {
        match addr {
            SocketAddr::V4(_) => AddressFamily::Inet4,
            SocketAddr::V6(_) => AddressFamily::Inet6,
        }
    }
}

impl vstd::std_specs::convert::FromSpecImpl<SocketAddr> for AddressFamily {
    open spec fn obeys_from_spec() -> bool {
        true
    }

    open spec fn from_spec(addr: SocketAddr) -> AddressFamily {
        match addr {
            SocketAddr::V4(_) => AddressFamily::Inet4,
            SocketAddr::V6(_) => AddressFamily::Inet6,
        }
    }
}

/// A raw address buffer: the byte payload a host primitive reads from on
/// bind and connect, or fills in on an address query.  Its declared size is
/// the length of the byte buffer it carries.
#[derive(Debug)]
pub struct WasiAddress {
    pub buf: Vec<u8>,
}

/// A value-identical copy of a byte buffer.
pub(crate) fn copy_bytes(src: &Vec<u8>) -> (r: Vec<u8>)
    ensures
        r@ == src@,
{
    let mut r: Vec<u8> = Vec::new();
    let mut i: usize = 0;
    while i < src.len()
        invariant
            i <= src@.len(),
            r@ =~= src@.subrange(0, i as int),
        decreases src@.len() - i,
    {
        r.push(src[i]);
        i += 1;
    }
    proof {
        assert(r@ =~= src@);
    }
    r
}

/// The raw serialized form of an IPv4 address: its four octets in order.
pub open spec fn spec_address_to_raw(addr: SocketAddrV4) -> Seq<u8> {
    seq![addr.ip.a, addr.ip.b, addr.ip.c, addr.ip.d]
}

/// The structured address reconstructed from a raw buffer, a family tag and
/// a port: defined exactly when the tag is the IPv4 sentinel, from the first
/// four buffer bytes, whatever the declared buffer size.
pub open spec fn spec_raw_to_address(raw: Seq<u8>, family_tag: u32, port: u16) -> Option<
    SocketAddrV4,
> {
    if family_tag == ADDR_TAG_INET4 {
        Some(
            SocketAddrV4 {
                ip: Ipv4Addr { a: raw[0], b: raw[1], c: raw[2], d: raw[3] },
                port,
            },
        )
    } else {
        None
    }
}

/// Serialize an IPv4 address into the caller-owned raw buffer the host
/// expects on bind and connect: the four octets, length four.
pub fn address_to_raw(addr: &SocketAddrV4) -> (r: WasiAddress)
    ensures
        r.buf@ == spec_address_to_raw(*addr),
        r.buf@.len() == 4,
{
    let mut buf: Vec<u8> = Vec::new();
    buf.push(addr.ip.a);
    buf.push(addr.ip.b);
    buf.push(addr.ip.c);
    buf.push(addr.ip.d);
    proof {
        assert(buf@ =~= spec_address_to_raw(*addr));
    }
    WasiAddress { buf }
}

/// Reconstruct a structured address from a raw buffer the host filled in,
/// together with the family tag and port it reported.
///
/// Succeeds exactly when the tag is the IPv4 sentinel `4`; any other tag,
/// the IPv6 sentinel included, is the one unsupported condition recognized
/// at this layer.  The address is rebuilt from the first four buffer bytes
/// regardless of the declared buffer size.
pub fn raw_to_address(buffer: &WasiAddress, family_tag: u32, port: u16) -> (r: Result<
    SocketAddrV4,
    SockError,
>)
    requires
        buffer.buf@.len() >= 4,
    ensures
        match r {
            Ok(a) => spec_raw_to_address(buffer.buf@, family_tag, port) == Some(a),
            Err(e) => spec_raw_to_address(buffer.buf@, family_tag, port) is None && e
                == SockError::UnsupportedAddressType,
        },
{
    if family_tag != ADDR_TAG_INET4 {
        return Err(SockError::UnsupportedAddressType);
    }
    let ip = Ipv4Addr { a: buffer.buf[0], b: buffer.buf[1], c: buffer.buf[2], d: buffer.buf[3] };
    Ok(SocketAddrV4 { ip, port })
}

/// Law: for every IPv4 address and port, serializing the address and
/// reconstructing it under the IPv4 sentinel gives the address and port
/// back unchanged.
pub proof fn lemma_raw_address_round_trip(addr: SocketAddrV4)
    ensures
        spec_raw_to_address(spec_address_to_raw(addr), ADDR_TAG_INET4, addr.port) == Some(addr),
{
}

/// Law: under any family tag other than the IPv4 sentinel, the IPv6 sentinel
/// included, no raw buffer reconstructs to an address.
pub proof fn lemma_raw_to_address_unsupported(raw: Seq<u8>, family_tag: u32, port: u16)
    requires
        family_tag != ADDR_TAG_INET4,
    ensures
        spec_raw_to_address(raw, family_tag, port) is None,
{
}

} // verus!
