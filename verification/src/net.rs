//! Networking decisions: socket addresses and their `sockaddr_in` encoding,
//! shutdown modes, socket flags, `write_all` progress, and DNS results.
//!
//! IPv4 is fully supported; an IPv6 address is rejected with
//! [`Error::InvalidInput`].
use vstd::prelude::*;
use vstd::string::StringSliceAdditionalSpecFns;

use crate::error::{Errno, Error};
use crate::fs::WriteStep;
use crate::text::{decimal, push_decimal};
use crate::util::{c_string, cstr};

verus! {

/// `AF_INET`.
pub const AF_INET: i32 = 2;

/// `SOCK_STREAM`.
pub const SOCK_STREAM: i32 = 1;

/// `SOCK_DGRAM`.
pub const SOCK_DGRAM: i32 = 2;

/// `SHUT_RD`.
pub const SHUT_RD: i32 = 0;

/// `SHUT_WR`.
pub const SHUT_WR: i32 = 1;

/// `SHUT_RDWR`.
pub const SHUT_RDWR: i32 = 2;

/// `O_NONBLOCK`.
pub const O_NONBLOCK: i32 = 0x4;

/// `sizeof(struct sockaddr_in)`.
pub const SOCKADDR_IN_LEN: u8 = 16;

/// The backlog given to `listen`.
pub const LISTEN_BACKLOG: i32 = 128;

/// An IPv4 socket address.
#[derive(Clone, Copy, Debug, PartialEq, Eq)]
pub struct SocketAddrV4 {
    /// The address octets, most significant first (`a.b.c.d`).
    pub ip: [u8; 4],
    /// The port number.
    pub port: u16,
}

/// An IPv6 socket address.
#[derive(Clone, Copy, Debug, PartialEq, Eq)]
pub struct SocketAddrV6 {
    pub ip: [u8; 16],
    pub port: u16,
    pub flowinfo: u32,
    pub scope_id: u32,
}

/// An IPv4 or IPv6 socket address.
#[derive(Clone, Copy, Debug, PartialEq, Eq)]
pub enum SocketAddr {
    V4(SocketAddrV4),
    V6(SocketAddrV6),
}

/// The fields of a `struct sockaddr_in` as they lie in memory: port and
/// address in network byte order.
#[derive(Clone, Copy, Debug, PartialEq, Eq)]
pub struct SockAddrIn {
    pub sin_len: u8,
    pub sin_family: u8,
    pub sin_port: [u8; 2],
    pub sin_addr: [u8; 4],
}

/// How to shut down a connection (mirrors `std::net::Shutdown`).
#[derive(Clone, Copy, Debug, PartialEq, Eq)]
pub enum Shutdown {
    Read,
    Write,
    Both,
}

/// The `how` argument of `shutdown`.
pub fn shutdown_how(how: Shutdown) -> (r: i32)
    ensures
        r == (match how {
            Shutdown::Read => SHUT_RD,
            Shutdown::Write => SHUT_WR,
            Shutdown::Both => SHUT_RDWR,
        }),
{
    match how {
        Shutdown::Read => SHUT_RD,
        Shutdown::Write => SHUT_WR,
        Shutdown::Both => SHUT_RDWR,
    }
}

/// Require an IPv4 address (IPv6 `sockaddr` building is not implemented).
pub fn require_v4(addr: SocketAddr) -> (r: Result<SocketAddrV4, Error>)
    ensures
        match addr {
            SocketAddr::V4(v4) => r == Ok::<SocketAddrV4, Error>(v4),
            SocketAddr::V6(_) => r == Err::<SocketAddrV4, Error>(
                Error::InvalidInput("IPv6 is not yet supported"),
            ),
        },
{
    match addr {
        SocketAddr::V4(v4) => Ok(v4),
        SocketAddr::V6(_) => Err(Error::InvalidInput("IPv6 is not yet supported")),
    }
}

/// The port in network byte order (most significant byte first).
pub open spec fn port_bytes(port: u16) -> [u8; 2] {
    [(port / 256) as u8, (port % 256) as u8]
}

/// The `sockaddr_in` for an IPv4 address.
pub open spec fn sockaddr_in_of(addr: SocketAddrV4) -> SockAddrIn {
    SockAddrIn {
        sin_len: SOCKADDR_IN_LEN,
        sin_family: AF_INET as u8,
        sin_port: port_bytes(addr.port),
        sin_addr: addr.ip,
    }
}

/// Build a `sockaddr_in` from an IPv4 address.
pub fn to_sockaddr_in(addr: &SocketAddrV4) -> (sa: SockAddrIn)
    ensures
        sa == (SockAddrIn {
            sin_len: SOCKADDR_IN_LEN,
            sin_family: AF_INET as u8,
            sin_port: port_bytes(addr.port),
            sin_addr: addr.ip,
        }),
        sa == sockaddr_in_of(*addr),
{
    let hi = (addr.port / 256) as u8;
    let lo = (addr.port % 256) as u8;
    SockAddrIn {
        sin_len: SOCKADDR_IN_LEN,
        sin_family: AF_INET as u8,
        sin_port: [hi, lo],
        sin_addr: addr.ip,
    }
}

/// Convert a populated `sockaddr_in` back into an IPv4 address.
pub fn from_sockaddr_in(sa: &SockAddrIn) -> (a: SocketAddrV4)
    ensures
        a == (SocketAddrV4 {
            ip: sa.sin_addr,
            port: (sa.sin_port[0] as int * 256 + sa.sin_port[1] as int) as u16,
        }),
{
    let port: u16 = (sa.sin_port[0] as u16) * 256 + (sa.sin_port[1] as u16);
    SocketAddrV4 { ip: sa.sin_addr, port }
}

/// Encoding an address and decoding it again gives the address back.
pub proof fn law_sockaddr_round_trip(addr: SocketAddrV4)
    ensures
        ({
            let sa = SockAddrIn {
                sin_len: SOCKADDR_IN_LEN,
                sin_family: AF_INET as u8,
                sin_port: port_bytes(addr.port),
                sin_addr: addr.ip,
            };
            (SocketAddrV4 {
                ip: sa.sin_addr,
                port: (sa.sin_port[0] as int * 256 + sa.sin_port[1] as int) as u16,
            }) == addr
        }),
{
}

/// The file-status flags with `O_NONBLOCK` set or cleared.
pub fn nonblocking_flags(flags: i32, nonblocking: bool) -> (r: i32)
    ensures
        r == (if nonblocking {
            flags | O_NONBLOCK
        } else {
            flags & !O_NONBLOCK
        }),
{
    if nonblocking {
        flags | O_NONBLOCK
    } else {
        flags & !O_NONBLOCK
    }
}

/// The integer value of a boolean socket option.
pub fn bool_option(value: bool) -> (r: i32)
    ensures
        r == (if value {
            1i32
        } else {
            0i32
        }),
{
    if value {
        1
    } else {
        0
    }
}

/// One step of a stream's `write_all`: `result` is the outcome of sending the
/// bytes from `offset` on, and `errno` the thread's `errno` read right after.
/// A send that makes no progress fails with that `errno`; an interrupted send
/// is retried.
pub fn stream_write_step(
    offset: usize,
    len: usize,
    result: Result<usize, Error>,
    errno: i32,
) -> (s: WriteStep)
    requires
        offset < len,
        result matches Ok(n) ==> n <= len - offset,
    ensures
        match result {
            Ok(0) => s == WriteStep::Fail(Error::Os(Errno(errno))),
            Ok(n) => s == WriteStep::Advance((offset + n) as usize),
            Err(e) => if e.is_interrupted_spec() {
                s is Retry
            } else {
                s == WriteStep::Fail(e)
            },
        },
{
    match result {
        Ok(0) => WriteStep::Fail(Error::last_os(errno)),
        Ok(n) => WriteStep::Advance(offset + n),
        Err(e) => {
            if e.is_interrupted() {
                WriteStep::Retry
            } else {
                WriteStep::Fail(e)
            }
        },
    }
}

/// The C strings given to `getaddrinfo` for `host` and `port`: the host, and
/// the port in decimal.
pub fn lookup_args(host: &str, port: u16) -> (r: Result<(Vec<u8>, Vec<u8>), Error>)
    ensures
        host.spec_bytes().contains(0u8) ==> r == Err::<(Vec<u8>, Vec<u8>), Error>(
            Error::InvalidInput("string contains an interior NUL byte"),
        ),
        !host.spec_bytes().contains(0u8) ==> (r matches Ok(a) && a.0@ == c_string(
            host.spec_bytes(),
        ) && a.1@ == c_string(decimal(port as nat).map_values(|c: char| c as u8))),
{
    let chost = match cstr(host) {
        Ok(c) => c,
        Err(e) => {
            return Err(e);
        },
    };
    let mut digits = String::new();
    push_decimal(&mut digits, port as u64);
    let ghost d = decimal(port as nat);
    let chars = crate::text::str_chars(digits.as_str());
    let mut service: Vec<u8> = Vec::new();
    let mut i: usize = 0;
    proof {
        crate::text::lemma_decimal_digits(port as nat);
    }
    while i < chars.len()
        invariant
            i <= chars@.len(),
            chars@ == d,
            forall|k: int| 0 <= k < d.len() ==> crate::text::is_digit(#[trigger] d[k]),
            service@ == d.take(i as int).map_values(|c: char| c as u8),
        decreases chars@.len() - i,
    {
        let c = chars[i];
        assert(crate::text::is_digit(d[i as int]));
        let b: u8 = ((c as u32) as u8);
        service.push(b);
        assert(service@ =~= d.take(i + 1).map_values(|c: char| c as u8));
        i = i + 1;
    }
    assert(d.take(i as int) =~= d);
    service.push(0);
    Ok((chost, service))
}

/// One `addrinfo` entry as read from the list: its family and, when present,
/// its address.
#[derive(Clone, Copy, Debug)]
pub struct AddrInfoEntry {
    pub family: i32,
    pub addr: Option<SockAddrIn>,
}

/// The addresses kept from a `getaddrinfo` list: the IPv4 entries with an
/// address, in order.
pub open spec fn ipv4_results(entries: Seq<AddrInfoEntry>) -> Seq<SocketAddr>
    decreases entries.len(),
{
    if entries.len() == 0 {
        Seq::empty()
    } else {
        let e = entries.last();
        let rest = ipv4_results(entries.drop_last());
        match e.addr {
            Some(sa) => if e.family == AF_INET {
                rest.push(
                    SocketAddr::V4(
                        SocketAddrV4 {
                            ip: sa.sin_addr,
                            port: (sa.sin_port[0] as int * 256 + sa.sin_port[1] as int) as u16,
                        },
                    ),
                )
            } else {
                rest
            },
            None => rest,
        }
    }
}

/// The result of a `getaddrinfo` call: its error code if it failed, otherwise
/// the IPv4 addresses of the returned list.
pub fn lookup_result(rc: i32, entries: &Vec<AddrInfoEntry>) -> (r: Result<Vec<SocketAddr>, Error>)
    ensures
        rc != 0 ==> r == Err::<Vec<SocketAddr>, Error>(Error::Gai(rc)),
        rc == 0 ==> (r matches Ok(v) && v@ == ipv4_results(entries@)),
{
    if rc != 0 {
        return Err(Error::gai(rc));
    }
    let mut out: Vec<SocketAddr> = Vec::new();
    let mut i: usize = 0;
    while i < entries.len()
        invariant
            i <= entries@.len(),
            out@ == ipv4_results(entries@.take(i as int)),
        decreases entries@.len() - i,
    {
        let e = entries[i];
        assert(entries@.take(i + 1).drop_last() =~= entries@.take(i as int));
        if e.family == AF_INET {
            if let Some(sa) = e.addr {
                out.push(SocketAddr::V4(from_sockaddr_in(&sa)));
            }
        }
        i = i + 1;
    }
    assert(entries@.take(i as int) =~= entries@);
    Ok(out)
}

/// Lookup results round-trip with the `sockaddr_in` encoding: a list of IPv4
/// entries holding the encodings of some addresses yields exactly those
/// addresses, in order (ports of 256 and more included).
pub proof fn law_lookup_round_trip(addrs: Seq<SocketAddrV4>, entries: Seq<AddrInfoEntry>)
    requires
        entries.len() == addrs.len(),
        forall|i: int|
            0 <= i < entries.len() ==> #[trigger] entries[i] == (AddrInfoEntry {
                family: AF_INET,
                addr: Some(sockaddr_in_of(addrs[i])),
            }),
    ensures
        ipv4_results(entries) == addrs.map_values(|a: SocketAddrV4| SocketAddr::V4(a)),
    decreases entries.len(),
{
    if entries.len() > 0 {
        let n = entries.len() - 1;
        assert forall|i: int| 0 <= i < n implies #[trigger] entries.drop_last()[i] == (AddrInfoEntry {
            family: AF_INET,
            addr: Some(sockaddr_in_of(addrs.drop_last()[i])),
        }) by {
            assert(entries.drop_last()[i] == entries[i]);
        }
        law_lookup_round_trip(addrs.drop_last(), entries.drop_last());
        assert(entries.last() == entries[n]);
        let a = addrs[n];
        let sa = sockaddr_in_of(a);
        assert((sa.sin_port[0] as int * 256 + sa.sin_port[1] as int) as u16 == a.port);
        assert(addrs.map_values(|a: SocketAddrV4| SocketAddr::V4(a)) =~= addrs.drop_last().map_values(
            |a: SocketAddrV4| SocketAddr::V4(a),
        ).push(SocketAddr::V4(a)));
    } else {
        assert(addrs.map_values(|a: SocketAddrV4| SocketAddr::V4(a)) =~= Seq::<SocketAddr>::empty());
    }
}

} // verus!
