use l4lb::networking::proxy_protocol::create_v2_header;
use l4lb::networking::proxy_protocol::read_v2_header;
use l4lb::networking::proxy_protocol::SocketAddr;
use l4lb::networking::proxy_protocol::V2Header;

const V2_SIG: [u8; 12] = [0x0D, 0x0A, 0x0D, 0x0A, 0x00, 0x0D, 0x0A, 0x51, 0x55, 0x49, 0x54, 0x0A];

fn v6(last: u8, port: u16) -> SocketAddr {
    let mut ip = [0u8; 16];
    ip[0] = 0x20;
    ip[1] = 0x01;
    ip[2] = 0x0d;
    ip[3] = 0xb8;
    ip[15] = last;
    SocketAddr::V6 { ip, port }
}

fn same(a: &SocketAddr, b: &SocketAddr) -> bool {
    match (a, b) {
        (SocketAddr::V4 { ip: x, port: p }, SocketAddr::V4 { ip: y, port: q }) => x == y && p == q,
        (SocketAddr::V6 { ip: x, port: p }, SocketAddr::V6 { ip: y, port: q }) => x == y && p == q,
        _ => false,
    }
}

#[test]
fn test_v2_header_ipv4() {
    let src = SocketAddr::V4 { ip: [192, 168, 1, 1], port: 12345 };
    let dst = SocketAddr::V4 { ip: [10, 0, 0, 1], port: 80 };

    let header = create_v2_header(src, dst);

    // Sig (12) + Ver/Cmd (1) + Fam/Proto (1) + Len (2) + Addrs (12) = 28 bytes
    assert_eq!(header.len(), 28);
    assert_eq!(&header[0..12], &V2_SIG);
    assert_eq!(header[12], 0x21); // V2 PROXY
    assert_eq!(header[13], 0x11); // IPv4 TCP
    assert_eq!(header[14], 0x00); // Len high
    assert_eq!(header[15], 0x0C); // Len low (12)

    // Src IP (192.168.1.1)
    assert_eq!(&header[16..20], &[192, 168, 1, 1]);
    // Dst IP (10.0.0.1)
    assert_eq!(&header[20..24], &[10, 0, 0, 1]);
    // Src Port (12345 = 0x3039)
    assert_eq!(&header[24..26], &[0x30, 0x39]);
    // Dst Port (80 = 0x0050)
    assert_eq!(&header[26..28], &[0x00, 0x50]);
}

#[test]
fn v2_header_ipv4_is_exact() {
    let src = SocketAddr::V4 { ip: [192, 168, 1, 1], port: 12345 };
    let dst = SocketAddr::V4 { ip: [10, 0, 0, 1], port: 80 };
    assert_eq!(
        create_v2_header(src, dst),
        vec![
            0x0D, 0x0A, 0x0D, 0x0A, 0x00, 0x0D, 0x0A, 0x51, 0x55, 0x49, 0x54, 0x0A, 0x21, 0x11,
            0x00, 0x0C, 192, 168, 1, 1, 10, 0, 0, 1, 0x30, 0x39, 0x00, 0x50
        ]
    );
}

#[test]
fn v2_header_ipv6_is_exact() {
    let src = v6(1, 443);
    let dst = v6(2, 65535);
    let header = create_v2_header(src, dst);
    assert_eq!(header.len(), 52);
    assert_eq!(&header[0..12], &V2_SIG);
    assert_eq!(&header[12..16], &[0x21, 0x21, 0x00, 0x24]);
    assert_eq!(&header[16..32], &[0x20, 0x01, 0x0d, 0xb8, 0, 0, 0, 0, 0, 0, 0, 0, 0, 0, 0, 1]);
    assert_eq!(&header[32..48], &[0x20, 0x01, 0x0d, 0xb8, 0, 0, 0, 0, 0, 0, 0, 0, 0, 0, 0, 2]);
    assert_eq!(&header[48..52], &[0x01, 0xBB, 0xFF, 0xFF]);
}

#[test]
fn v2_header_of_mixed_families_is_local() {
    let four = SocketAddr::V4 { ip: [127, 0, 0, 1], port: 1 };
    let six = v6(9, 2);
    let mut expected = V2_SIG.to_vec();
    expected.extend_from_slice(&[0x20, 0x00, 0x00, 0x00]);
    assert_eq!(create_v2_header(four, six), expected);
    assert_eq!(create_v2_header(six, four), expected);
    assert_eq!(expected.len(), 16);
    assert!(matches!(read_v2_header(&expected), Some(V2Header::Local)));
}

#[test]
fn v2_header_reads_back() {
    let pairs = [
        (
            SocketAddr::V4 { ip: [192, 168, 1, 1], port: 12345 },
            SocketAddr::V4 { ip: [10, 0, 0, 1], port: 80 },
        ),
        (
            SocketAddr::V4 { ip: [0, 0, 0, 0], port: 0 },
            SocketAddr::V4 { ip: [255, 255, 255, 255], port: 65535 },
        ),
        (v6(1, 256), v6(200, 255)),
    ];
    for (src, dst) in pairs {
        match read_v2_header(&create_v2_header(src, dst)) {
            Some(V2Header::Proxy { src: s, dst: d }) => {
                assert!(same(&s, &src));
                assert!(same(&d, &dst));
            }
            _ => panic!("the header describes a proxied connection"),
        }
    }
}

#[test]
fn other_bytes_are_no_header() {
    let good = create_v2_header(
        SocketAddr::V4 { ip: [1, 2, 3, 4], port: 5 },
        SocketAddr::V4 { ip: [6, 7, 8, 9], port: 10 },
    );
    assert!(read_v2_header(&good).is_some());
    assert!(read_v2_header(&good[..27]).is_none());
    assert!(read_v2_header(&[]).is_none());
    let mut longer = good.clone();
    longer.push(0);
    assert!(read_v2_header(&longer).is_none());
    let mut bad_sig = good.clone();
    bad_sig[11] = 0x0B;
    assert!(read_v2_header(&bad_sig).is_none());
    let mut bad_len = good.clone();
    bad_len[15] = 13;
    assert!(read_v2_header(&bad_len).is_none());
    let mut bad_family = good;
    bad_family[13] = 0x12;
    assert!(read_v2_header(&bad_family).is_none());
}
