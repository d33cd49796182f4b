//! The PROXY protocol, version 2: the binary header that tells a backend the
//! original client of a connection.

use bytes::BufMut;
use bytes::BytesMut;
use vstd::prelude::*;

verus! {

/// A socket address: an IPv4 or IPv6 address in network order, and a port.
#[derive(Clone, Copy, Debug)]
#[allow(inconsistent_fields)]
pub enum SocketAddr {
    V4 { ip: [u8; 4], port: u16 },
    V6 { ip: [u8; 16], port: u16 },
}

/// The mathematical value of a socket address.
pub struct Endpoint {
    pub v6: bool,
    /// The address in network order: 4 bytes, or 16.
    pub ip: Seq<u8>,
    pub port: u16,
}

impl View for SocketAddr {
    type V = Endpoint;

    open spec fn view(&self) -> Endpoint {
        match *self {
            SocketAddr::V4 { ip, port } => Endpoint { v6: false, ip: ip@, port },
            SocketAddr::V6 { ip, port } => Endpoint { v6: true, ip: ip@, port },
        }
    }
}

impl Endpoint {
    /// The address has the length of its family.
    pub open spec fn wf(self) -> bool {
        self.ip.len() == if self.v6 {
            16nat
        } else {
            4nat
        }
    }
}

/// The twelve bytes that every version 2 header begins with.
pub open spec fn signature() -> Seq<u8> {
    seq![0x0Du8, 0x0A, 0x0D, 0x0A, 0x00, 0x0D, 0x0A, 0x51, 0x55, 0x49, 0x54, 0x0A]
}

/// A 16-bit number in network order.
pub open spec fn be16(n: u16) -> Seq<u8> {
    seq![(n / 256) as u8, (n % 256) as u8]
}

/// The header for a connection from `src` to `dst`.
///
/// After the signature come the version and command, the family and
/// transport, and the length of the address block, then the block itself: both
/// addresses, then both ports. Two addresses of different families cannot be
/// described; the header then is that of a local connection, without a block.
pub open spec fn v2_header(src: Endpoint, dst: Endpoint) -> Seq<u8> {
    if !src.v6 && !dst.v6 {
        signature() + seq![0x21u8, 0x11] + be16(12) + src.ip + dst.ip + be16(src.port) + be16(
            dst.port,
        )
    } else if src.v6 && dst.v6 {
        signature() + seq![0x21u8, 0x21] + be16(36) + src.ip + dst.ip + be16(src.port) + be16(
            dst.port,
        )
    } else {
        signature() + seq![0x20u8, 0x00] + be16(0)
    }
}

/// What a version 2 header says.
pub enum V2Header {
    /// A proxied TCP connection between these two addresses.
    Proxy { src: SocketAddr, dst: SocketAddr },
    /// A connection of the proxy's own, with no addresses.
    Local,
}

/// The mathematical value of what a header says.
pub enum Described {
    Proxy { src: Endpoint, dst: Endpoint },
    Local,
}

impl View for V2Header {
    type V = Described;

    open spec fn view(&self) -> Described {
        match *self {
            V2Header::Proxy { src, dst } => Described::Proxy { src: src@, dst: dst@ },
            V2Header::Local => Described::Local,
        }
    }
}

/// The number that two bytes in network order stand for.
pub open spec fn from_be16(high: u8, low: u8) -> u16 {
    (high * 256 + low) as u16
}

/// What `bytes` says, read as one whole version 2 header of the three forms
/// that this module writes; `None` where it is none of them.
pub open spec fn described(bytes: Seq<u8>) -> Option<Described> {
    if bytes.len() < 16 || bytes.subrange(0, 12) != signature() {
        None
    } else if bytes[12] == 0x21 && bytes[13] == 0x11 && bytes.subrange(14, 16) == be16(12)
        && bytes.len() == 28 {
        Some(
            Described::Proxy {
                src: Endpoint {
                    v6: false,
                    ip: bytes.subrange(16, 20),
                    port: from_be16(bytes[24], bytes[25]),
                },
                dst: Endpoint {
                    v6: false,
                    ip: bytes.subrange(20, 24),
                    port: from_be16(bytes[26], bytes[27]),
                },
            },
        )
    } else if bytes[12] == 0x21 && bytes[13] == 0x21 && bytes.subrange(14, 16) == be16(36)
        && bytes.len() == 52 {
        Some(
            Described::Proxy {
                src: Endpoint {
                    v6: true,
                    ip: bytes.subrange(16, 32),
                    port: from_be16(bytes[48], bytes[49]),
                },
                dst: Endpoint {
                    v6: true,
                    ip: bytes.subrange(32, 48),
                    port: from_be16(bytes[50], bytes[51]),
                },
            },
        )
    } else if bytes[12] == 0x20 && bytes[13] == 0x00 && bytes.subrange(14, 16) == be16(0)
        && bytes.len() == 16 {
        Some(Described::Local)
    } else {
        None
    }
}

/// Two bytes in network order give back the number they were made from.
pub proof fn lemma_be16_round_trip(n: u16)
    ensures
        be16(n).len() == 2,
        from_be16(be16(n)[0], be16(n)[1]) == n,
{
}

/// Reading a header that was written for two addresses of one family gives
/// back exactly these two addresses, with their ports; reading the header that
/// was written for two addresses of different families, which is 16 bytes
/// long, gives a local connection.
pub proof fn lemma_header_round_trip(src: Endpoint, dst: Endpoint)
    requires
        src.wf(),
        dst.wf(),
    ensures
        src.v6 == dst.v6 ==> described(v2_header(src, dst)) == Some(
            Described::Proxy { src, dst },
        ),
        src.v6 != dst.v6 ==> described(v2_header(src, dst)) == Some(Described::Local)
            && v2_header(src, dst).len() == 16,
        !src.v6 && !dst.v6 ==> v2_header(src, dst).len() == 28,
        src.v6 && dst.v6 ==> v2_header(src, dst).len() == 52,
{
    let bytes = v2_header(src, dst);
    assert(bytes.subrange(0, 12) =~= signature());
    lemma_be16_round_trip(src.port);
    lemma_be16_round_trip(dst.port);
    if !src.v6 && !dst.v6 {
        assert(bytes.subrange(14, 16) =~= be16(12));
        assert(bytes.subrange(16, 20) =~= src.ip);
        assert(bytes.subrange(20, 24) =~= dst.ip);
        assert(bytes[24] == be16(src.port)[0] && bytes[25] == be16(src.port)[1]);
        assert(bytes[26] == be16(dst.port)[0] && bytes[27] == be16(dst.port)[1]);
    } else if src.v6 && dst.v6 {
        assert(bytes.subrange(14, 16) =~= be16(36));
        assert(bytes.subrange(16, 32) =~= src.ip);
        assert(bytes.subrange(32, 48) =~= dst.ip);
        assert(bytes[48] == be16(src.port)[0] && bytes[49] == be16(src.port)[1]);
        assert(bytes[50] == be16(dst.port)[0] && bytes[51] == be16(dst.port)[1]);
    } else {
        assert(bytes.subrange(14, 16) =~= be16(0));
    }
}

#[verifier::external_type_specification]
#[verifier::external_body]
pub struct ExBytesMut(BytesMut);

/// The bytes that a `bytes::BytesMut` holds, in order.
pub uninterp spec fn buffered(buf: BytesMut) -> Seq<u8>;

/// `BytesMut::with_capacity`: a buffer that holds no bytes. The capacity is
/// kept to what an allocation can have.
#[verifier::external_body]
fn buf_with_capacity(capacity: usize) -> (buf: BytesMut)
    requires
        capacity <= isize::MAX,
    ensures
        buffered(buf) == Seq::<u8>::empty(),
{
    BytesMut::with_capacity(capacity)
}

/// `BufMut::put_slice` on a `BytesMut`: the bytes of `src` are appended; the
/// buffer grows as needed, up to what an allocation can have.
#[verifier::external_body]
fn buf_put_slice(buf: &mut BytesMut, src: &[u8])
    requires
        buffered(*old(buf)).len() + src@.len() <= isize::MAX,
    ensures
        buffered(*final(buf)) == buffered(*old(buf)) + src@,
{
    buf.put_slice(src)
}

/// `BufMut::put_u8` on a `BytesMut`: one byte is appended.
#[verifier::external_body]
fn buf_put_u8(buf: &mut BytesMut, n: u8)
    requires
        buffered(*old(buf)).len() + 1 <= isize::MAX,
    ensures
        buffered(*final(buf)) == buffered(*old(buf)).push(n),
{
    buf.put_u8(n)
}

/// `BufMut::put_u16` on a `BytesMut`: the two bytes of `n` are appended, the
/// high one first.
#[verifier::external_body]
fn buf_put_u16(buf: &mut BytesMut, n: u16)
    requires
        buffered(*old(buf)).len() + 2 <= isize::MAX,
    ensures
        buffered(*final(buf)) == buffered(*old(buf)) + be16(n),
{
    buf.put_u16(n)
}

/// `to_vec` on the bytes of a `BytesMut`: a copy of what the buffer holds.
#[verifier::external_body]
fn buf_to_vec(buf: &BytesMut) -> (bytes: Vec<u8>)
    ensures
        bytes@ == buffered(*buf),
{
    buf.to_vec()
}

/// The version 2 header for a connection from `src_addr` to `dst_addr`, to be
/// written to the backend before any payload.
pub fn create_v2_header(src_addr: SocketAddr, dst_addr: SocketAddr) -> (header: Vec<u8>)
    ensures
        header@ == v2_header(src_addr@, dst_addr@),
{
    let mut buf = buf_with_capacity(128);
    let sig: [u8; 12] = [0x0D, 0x0A, 0x0D, 0x0A, 0x00, 0x0D, 0x0A, 0x51, 0x55, 0x49, 0x54, 0x0A];
    buf_put_slice(&mut buf, sig.as_slice());
    assert(buffered(buf) =~= signature());
    match (src_addr, dst_addr) {
        (SocketAddr::V4 { ip: src_ip, port: src_port }, SocketAddr::V4 {
            ip: dst_ip,
            port: dst_port,
        }) => {
            buf_put_u8(&mut buf, 0x21);
            buf_put_u8(&mut buf, 0x11);
            buf_put_u16(&mut buf, 12);
            buf_put_slice(&mut buf, src_ip.as_slice());
            buf_put_slice(&mut buf, dst_ip.as_slice());
            buf_put_u16(&mut buf, src_port);
            buf_put_u16(&mut buf, dst_port);
            assert(buffered(buf) =~= v2_header(src_addr@, dst_addr@));
        },
        (SocketAddr::V6 { ip: src_ip, port: src_port }, SocketAddr::V6 {
            ip: dst_ip,
            port: dst_port,
        }) => {
            buf_put_u8(&mut buf, 0x21);
            buf_put_u8(&mut buf, 0x21);
            buf_put_u16(&mut buf, 36);
            buf_put_slice(&mut buf, src_ip.as_slice());
            buf_put_slice(&mut buf, dst_ip.as_slice());
            buf_put_u16(&mut buf, src_port);
            buf_put_u16(&mut buf, dst_port);
            assert(buffered(buf) =~= v2_header(src_addr@, dst_addr@));
        },
        _ => {
            buf_put_u8(&mut buf, 0x20);
            buf_put_u8(&mut buf, 0x00);
            buf_put_u16(&mut buf, 0);
            assert(buffered(buf) =~= v2_header(src_addr@, dst_addr@));
        },
    }
    buf_to_vec(&buf)
}

fn has_signature(bytes: &[u8]) -> (ok: bool)
    requires
        bytes@.len() >= 12,
    ensures
        ok == (bytes@.subrange(0, 12) == signature()),
{
    let sig: [u8; 12] = [0x0D, 0x0A, 0x0D, 0x0A, 0x00, 0x0D, 0x0A, 0x51, 0x55, 0x49, 0x54, 0x0A];
    assert(sig@ =~= signature());
    let mut i: usize = 0;
    while i < 12
        invariant
            i <= 12,
            bytes@.len() >= 12,
            sig@ == signature(),
            forall|j: int| 0 <= j < i ==> bytes@[j] == signature()[j],
        decreases 12 - i,
    {
        if bytes[i] != sig[i] {
            assert(bytes@.subrange(0, 12)[i as int] != signature()[i as int]);
            return false;
        }
        i = i + 1;
    }
    assert(bytes@.subrange(0, 12) =~= signature());
    true
}

fn ipv4_at(bytes: &[u8], at: usize) -> (ip: [u8; 4])
    requires
        at + 4 <= bytes@.len(),
    ensures
        ip@ == bytes@.subrange(at as int, at + 4),
{
    let ip: [u8; 4] = [bytes[at], bytes[at + 1], bytes[at + 2], bytes[at + 3]];
    assert(ip@ =~= bytes@.subrange(at as int, at + 4));
    ip
}

fn ipv6_at(bytes: &[u8], at: usize) -> (ip: [u8; 16])
    requires
        at + 16 <= bytes@.len(),
    ensures
        ip@ == bytes@.subrange(at as int, at + 16),
{
    let ip: [u8; 16] = [
        bytes[at],
        bytes[at + 1],
        bytes[at + 2],
        bytes[at + 3],
        bytes[at + 4],
        bytes[at + 5],
        bytes[at + 6],
        bytes[at + 7],
        bytes[at + 8],
        bytes[at + 9],
        bytes[at + 10],
        bytes[at + 11],
        bytes[at + 12],
        bytes[at + 13],
        bytes[at + 14],
        bytes[at + 15],
    ];
    assert(ip@ =~= bytes@.subrange(at as int, at + 16));
    ip
}

fn port_at(bytes: &[u8], at: usize) -> (port: u16)
    requires
        at + 2 <= bytes@.len(),
    ensures
        port == from_be16(bytes@[at as int], bytes@[at + 1]),
{
    (bytes[at] as u16) * 256 + (bytes[at + 1] as u16)
}

/// Reads `bytes` as one whole version 2 header, as a backend would that knows
/// the three forms that `create_v2_header` writes.
pub fn read_v2_header(bytes: &[u8]) -> (header: Option<V2Header>)
    ensures
        match header {
            Some(h) => described(bytes@) == Some(h@),
            None => described(bytes@) is None,
        },
{
    if bytes.len() < 16 || !has_signature(bytes) {
        return None;
    }
    let command: u8 = bytes[12];
    let family: u8 = bytes[13];
    let length: u16 = port_at(bytes, 14);
    proof {
        let block = bytes@.subrange(14, 16);
        assert(block[0] == bytes@[14] && block[1] == bytes@[15]);
        assert(block == be16(12) <==> length == 12) by {
            if length == 12 {
                assert(block =~= be16(12));
            }
        }
        assert(block == be16(36) <==> length == 36) by {
            if length == 36 {
                assert(block =~= be16(36));
            }
        }
        assert(block == be16(0) <==> length == 0) by {
            if length == 0 {
                assert(block =~= be16(0));
            }
        }
    }
    if command == 0x21 && family == 0x11 && length == 12 && bytes.len() == 28 {
        Some(
            V2Header::Proxy {
                src: SocketAddr::V4 { ip: ipv4_at(bytes, 16), port: port_at(bytes, 24) },
                dst: SocketAddr::V4 { ip: ipv4_at(bytes, 20), port: port_at(bytes, 26) },
            },
        )
    } else if command == 0x21 && family == 0x21 && length == 36 && bytes.len() == 52 {
        Some(
            V2Header::Proxy {
                src: SocketAddr::V6 { ip: ipv6_at(bytes, 16), port: port_at(bytes, 48) },
                dst: SocketAddr::V6 { ip: ipv6_at(bytes, 32), port: port_at(bytes, 50) },
            },
        )
    } else if command == 0x20 && family == 0x00 && length == 0 && bytes.len() == 16 {
        Some(V2Header::Local)
    } else {
        None
    }
}

} // verus!
