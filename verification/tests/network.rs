use ps5::error::{Errno, Error};
use ps5::fs::WriteStep;
use ps5::net::{
    bool_option, from_sockaddr_in, lookup_args, lookup_result, nonblocking_flags, require_v4,
    shutdown_how, stream_write_step, to_sockaddr_in, AddrInfoEntry, Shutdown, SockAddrIn,
    SocketAddr, SocketAddrV4, SocketAddrV6, AF_INET,
};

fn v4(ip: [u8; 4], port: u16) -> SocketAddrV4 {
    SocketAddrV4 { ip, port }
}

#[test]
fn sockaddr_encoding() {
    let a = v4([192, 168, 1, 2], 8080);
    let sa = to_sockaddr_in(&a);
    assert_eq!(sa, SockAddrIn { sin_len: 16, sin_family: 2, sin_port: [0x1f, 0x90], sin_addr: [192, 168, 1, 2] });
    assert_eq!(from_sockaddr_in(&sa), a);
    for port in [0u16, 1, 255, 256, 65535] {
        let a = v4([0, 0, 0, 0], port);
        assert_eq!(from_sockaddr_in(&to_sockaddr_in(&a)), a);
        assert_eq!(u16::from_ne_bytes(to_sockaddr_in(&a).sin_port), port.to_be());
    }
}

#[test]
fn ipv6_is_refused() {
    let six = SocketAddr::V6(SocketAddrV6 { ip: [0; 16], port: 80, flowinfo: 0, scope_id: 0 });
    assert_eq!(require_v4(six).unwrap_err(), Error::InvalidInput("IPv6 is not yet supported"));
    assert_eq!(require_v4(SocketAddr::V4(v4([1, 2, 3, 4], 5))).unwrap(), v4([1, 2, 3, 4], 5));
}

#[test]
fn shutdown_modes() {
    assert_eq!(shutdown_how(Shutdown::Read), 0);
    assert_eq!(shutdown_how(Shutdown::Write), 1);
    assert_eq!(shutdown_how(Shutdown::Both), 2);
}

#[test]
fn socket_flags() {
    assert_eq!(nonblocking_flags(0x2, true), 0x6);
    assert_eq!(nonblocking_flags(0x6, false), 0x2);
    assert_eq!(nonblocking_flags(0x2, false), 0x2);
    assert_eq!(bool_option(true), 1);
    assert_eq!(bool_option(false), 0);
}

#[test]
fn stream_write_steps() {
    assert!(matches!(stream_write_step(0, 5, Ok(5), 0), WriteStep::Advance(5)));
    assert!(matches!(stream_write_step(1, 5, Ok(0), 57), WriteStep::Fail(Error::Os(Errno(57)))));
    assert!(matches!(stream_write_step(1, 5, Err(Error::Os(Errno(4))), 4), WriteStep::Retry));
    assert!(matches!(stream_write_step(1, 5, Err(Error::Os(Errno(32))), 0), WriteStep::Fail(Error::Os(Errno(32)))));
}

#[test]
fn lookup_arguments() {
    let (host, service) = lookup_args("example.org", 443).unwrap();
    assert_eq!(host, b"example.org\0".to_vec());
    assert_eq!(service, b"443\0".to_vec());
    assert_eq!(lookup_args("h", 0).unwrap().1, b"0\0".to_vec());
    assert_eq!(lookup_args("h", 65535).unwrap().1, b"65535\0".to_vec());
    assert!(lookup_args("a\0b", 1).is_err());
}

#[test]
fn lookup_results_keep_ipv4_entries() {
    let sa = to_sockaddr_in(&v4([10, 0, 0, 1], 80));
    let entries = vec![
        AddrInfoEntry { family: AF_INET, addr: Some(sa) },
        AddrInfoEntry { family: 28, addr: Some(sa) },
        AddrInfoEntry { family: AF_INET, addr: None },
        AddrInfoEntry { family: AF_INET, addr: Some(to_sockaddr_in(&v4([10, 0, 0, 2], 81))) },
    ];
    assert_eq!(
        lookup_result(0, &entries).unwrap(),
        vec![SocketAddr::V4(v4([10, 0, 0, 1], 80)), SocketAddr::V4(v4([10, 0, 0, 2], 81))]
    );
    assert_eq!(lookup_result(8, &entries).unwrap_err(), Error::Gai(8));
    assert!(lookup_result(0, &vec![]).unwrap().is_empty());
}
