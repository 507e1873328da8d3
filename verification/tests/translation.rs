//! Address/flag translation and the textual address codec.

use wasi_socket::addr::{
    address_to_raw, raw_to_address, AddressFamily, Ipv4Addr, SocketAddr, SocketAddrV4,
    SocketAddrV6, WasiAddress, ADDR_TAG_INET4, ADDR_TAG_INET6,
};
use wasi_socket::addrinfo::{AiFlags, AiProtocol, WasiAddrinfo, WasiSockaddr};
use wasi_socket::error::SockError;
use wasi_socket::fdflags::{
    flags_get, flags_set, set_fdflag, unset_fdflag, with_flag, without_flag, FDFLAG_APPEND,
    FDFLAG_DSYNC, FDFLAG_NONBLOCK, FDFLAG_RSYNC, FDFLAG_SYNC,
};
use wasi_socket::host::Host;
use wasi_socket::text::{parse_sockaddr_v4, render_sockaddr_v4};

fn v4(a: u8, b: u8, c: u8, d: u8, port: u16) -> SocketAddrV4 {
    SocketAddrV4::new(Ipv4Addr::new(a, b, c, d), port)
}

#[test]
fn raw_round_trip_identity() {
    let addr = v4(192, 168, 0, 17, 8080);
    let raw = address_to_raw(&addr);
    assert_eq!(raw.buf, vec![192, 168, 0, 17]);
    let back = raw_to_address(&raw, ADDR_TAG_INET4, 8080).unwrap();
    assert_eq!(back, addr);
}

#[test]
fn raw_round_trip_identity_edges() {
    for addr in [v4(0, 0, 0, 0, 0), v4(255, 255, 255, 255, 65535), v4(127, 0, 0, 1, 9000)] {
        let raw = address_to_raw(&addr);
        assert_eq!(raw_to_address(&raw, ADDR_TAG_INET4, addr.port).unwrap(), addr);
    }
}

#[test]
fn raw_to_address_rejects_other_family_tags() {
    let raw = address_to_raw(&v4(1, 2, 3, 4, 80));
    for tag in [0u32, 1, 2, 3, 5, ADDR_TAG_INET6, 7, 1000] {
        assert_eq!(
            raw_to_address(&raw, tag, 80),
            Err(SockError::UnsupportedAddressType)
        );
    }
}

#[test]
fn raw_to_address_reads_first_four_bytes() {
    // a sixteen-byte scratch buffer with the address in front
    let buffer = WasiAddress {
        buf: vec![10, 0, 0, 7, 9, 9, 9, 9, 9, 9, 9, 9, 9, 9, 9, 9],
    };
    let got = raw_to_address(&buffer, ADDR_TAG_INET4, 53).unwrap();
    assert_eq!(got, v4(10, 0, 0, 7, 53));
}

#[test]
fn flag_set_then_unset_restores_each_recognized_bit() {
    for bit in [FDFLAG_APPEND, FDFLAG_DSYNC, FDFLAG_NONBLOCK, FDFLAG_RSYNC, FDFLAG_SYNC] {
        let masks = [0u16, FDFLAG_SYNC | FDFLAG_APPEND, 0x1f & !bit];
        for mask in masks {
            let mask = mask & !bit; // the law speaks of masks without the bit
            assert_eq!(without_flag(with_flag(mask, bit), bit), mask);
        }
    }
}

#[test]
fn host_flag_set_then_unset_restores_bitmask() {
    let mut host = Host::new();
    let (_, fd) = host.sock_open(0, 1);
    let st = host.fd_fdstat_set_flags(fd, FDFLAG_APPEND | FDFLAG_SYNC);
    assert_eq!(st, 0);
    assert_eq!(set_fdflag(&mut host, fd, FDFLAG_NONBLOCK), 0);
    assert_eq!(
        host.sockets[fd as usize].fdflags,
        FDFLAG_APPEND | FDFLAG_SYNC | FDFLAG_NONBLOCK
    );
    assert_eq!(unset_fdflag(&mut host, fd, FDFLAG_NONBLOCK), 0);
    assert_eq!(host.sockets[fd as usize].fdflags, FDFLAG_APPEND | FDFLAG_SYNC);
}

#[test]
fn render_produces_canonical_text() {
    assert_eq!(
        render_sockaddr_v4(&v4(255, 0, 10, 1, 65535)),
        b"255.0.10.1:65535".to_vec()
    );
    assert_eq!(render_sockaddr_v4(&v4(0, 0, 0, 0, 0)), b"0.0.0.0:0".to_vec());
    assert_eq!(
        render_sockaddr_v4(&v4(127, 0, 0, 1, 9000)),
        b"127.0.0.1:9000".to_vec()
    );
}

#[test]
fn parse_accepts_exactly_renderings() {
    for addr in [v4(1, 2, 3, 4, 80), v4(255, 255, 255, 255, 65535), v4(0, 0, 0, 0, 0)] {
        let text = render_sockaddr_v4(&addr);
        assert_eq!(parse_sockaddr_v4(&text), Some(addr));
    }
}

#[test]
fn parse_rejects_noncanonical_text() {
    let bad: [&[u8]; 14] = [
        b"",
        b"1.2.3.4",
        b"1.2.3.4:",
        b"01.2.3.4:80",
        b"1.2.3.4:007",
        b"256.1.1.1:80",
        b"1.2.3.4:65536",
        b"1.2.3.4:80x",
        b"1.2.3:80",
        b"1.2.3.4.5:80",
        b"1.2.3.4:80:90",
        b" 1.2.3.4:80",
        b"1..3.4:80",
        b"999999.2.3.4:80",
    ];
    for text in bad {
        assert_eq!(parse_sockaddr_v4(&text.to_vec()), None);
    }
}

#[test]
fn sockaddr_new_records_conventional_length() {
    let sa = WasiSockaddr::new(AddressFamily::Inet4, vec![1, 2, 3]);
    assert_eq!(sa.sa_data_len, 14);
    assert_eq!(sa.sa_data, vec![1, 2, 3]);
}

#[test]
fn addrinfo_default_is_the_conventional_hint() {
    let hint = WasiAddrinfo::default();
    assert!(matches!(hint.ai_flags, AiFlags::AiPassive));
    assert!(matches!(hint.ai_protocol, AiProtocol::IPProtoTCP));
    assert_eq!(hint.ai_addrlen, 0);
    assert_eq!(hint.ai_canonnamelen, 0);
    assert!(hint.ai_canonname.is_empty());
}

#[test]
fn get_addrinfo_serves_seeded_table_capped() {
    let mut host = Host::new();
    let mut first = WasiAddrinfo::default();
    first.ai_canonname = b"alpha.example".to_vec();
    first.ai_canonnamelen = 13;
    let mut second = WasiAddrinfo::default();
    second.ai_canonname = b"beta.example".to_vec();
    host.add_resolution(first);
    host.add_resolution(second);
    let hints = WasiAddrinfo::default();
    let got =
        WasiAddrinfo::get_addrinfo("alpha.example", "80", &hints, 1, &mut host).unwrap();
    assert_eq!(got.len(), 1);
    assert_eq!(got[0].ai_canonname, b"alpha.example".to_vec());
    let all = WasiAddrinfo::get_addrinfo("alpha.example", "80", &hints, 8, &mut host).unwrap();
    assert_eq!(all.len(), 2);
}

#[test]
fn get_addrinfo_reports_resolver_status() {
    let mut host = Host::new();
    host.set_resolve_status(11);
    let hints = WasiAddrinfo::default();
    let got = WasiAddrinfo::get_addrinfo("x", "80", &hints, 4, &mut host);
    assert_eq!(got.unwrap_err(), SockError::Os(11));
}

#[test]
fn family_derives_from_address() {
    let four = SocketAddr::V4(v4(1, 1, 1, 1, 1));
    let six = SocketAddr::V6(SocketAddrV6 { port: 1 });
    assert!(matches!(AddressFamily::from(four), AddressFamily::Inet4));
    assert!(matches!(AddressFamily::from(six), AddressFamily::Inet6));
}

#[test]
fn flags_get_and_set_round_trip_full_bitmask() {
    let mut host = Host::new();
    let (_, fd) = host.sock_open(0, 1);
    let (st0, initial) = flags_get(&mut host, fd);
    assert_eq!(st0, 0);
    assert_eq!(initial, 0);
    let mask = FDFLAG_RSYNC | FDFLAG_APPEND;
    assert_eq!(flags_set(&mut host, fd, mask), 0);
    let (st1, read_back) = flags_get(&mut host, fd);
    assert_eq!(st1, 0);
    assert_eq!(read_back, mask);
}
