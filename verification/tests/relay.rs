use l4lb::common::io::copy_bidirectional_with_buffer;
use l4lb::common::io::Action;
use l4lb::common::io::CopyBidirectional;
use l4lb::common::io::CopyError;
use l4lb::common::io::Polled;
use l4lb::common::io::Side;
use l4lb::common::io::Step;
use l4lb::common::io::TransferState;

/// One end of a connection, as the relay sees it.
struct Peer {
    /// What the peer still has to send, in the pieces in which it sends it.
    to_send: Vec<Vec<u8>>,
    /// Whether the peer closes once it has sent everything.
    closes: bool,
    /// What the peer was sent.
    got: Vec<u8>,
    /// Whether the relay has shut the peer's side down.
    shut: bool,
    /// The most bytes that the peer takes in one write.
    takes: usize,
}

impl Peer {
    fn new(pieces: &[&[u8]], takes: usize) -> Peer {
        Peer {
            to_send: pieces.iter().map(|p| p.to_vec()).collect(),
            closes: true,
            got: Vec::new(),
            shut: false,
            takes,
        }
    }
}

fn peer<'a>(a: &'a mut Peer, b: &'a mut Peer, side: Side) -> &'a mut Peer {
    match side {
        Side::A => a,
        Side::B => b,
    }
}

/// Runs one poll of the relay against the two peers.
fn poll_once(
    relay: &mut CopyBidirectional,
    a: &mut Peer,
    b: &mut Peer,
) -> Polled<(u64, u64), CopyError<String>> {
    let mut action: Action<String> = relay.poll();
    loop {
        action = match action {
            Action::Return(result) => return result,
            Action::Write(side) => {
                let offered = relay.pending_for(side).to_vec();
                assert!(!offered.is_empty());
                let p = peer(a, b, side);
                assert!(!p.shut);
                let n = offered.len().min(p.takes);
                p.got.extend_from_slice(&offered[..n]);
                relay.resume_write(Polled::Ready(n))
            }
            Action::Read(side) => {
                let p = peer(a, b, side);
                if p.to_send.is_empty() {
                    if p.closes {
                        relay.resume_read(Polled::Ready(&[][..]))
                    } else {
                        relay.resume_read(Polled::Pending)
                    }
                } else {
                    let piece = p.to_send.remove(0);
                    relay.resume_read(Polled::Ready(&piece[..]))
                }
            }
            Action::Shutdown(side) => {
                peer(a, b, side).shut = true;
                relay.resume_shutdown(Polled::Ready(()))
            }
        };
    }
}

#[test]
fn transfer_state_starts_empty() {
    let t = TransferState::new(8);
    assert_eq!(t.buffer_size(), 8);
    assert!(t.wants_read());
    assert!(!t.wants_write());
    assert!(!t.wants_shutdown());
    assert!(!t.is_shutdown());
    assert_eq!(t.amount(), 0);
    assert!(t.pending().is_empty());
}

#[test]
fn transfer_state_moves_bytes_in_order() {
    let mut t = TransferState::new(8);
    t.on_read(b"hello");
    assert_eq!(t.pending(), b"hello");
    assert!(t.wants_write());
    assert!(!t.wants_read());
    t.on_write(2);
    assert_eq!(t.pending(), b"llo");
    assert_eq!(t.amount(), 2);
    t.on_write(3);
    assert!(t.pending().is_empty());
    assert_eq!(t.amount(), 5);
    assert!(t.wants_read());
    t.on_read(b"");
    assert!(t.wants_shutdown());
    assert!(!t.wants_read());
    t.on_shutdown();
    assert!(t.is_shutdown());
    assert!(!t.wants_shutdown());
    assert_eq!(t.amount(), 5);
}

#[test]
fn half_close_is_relayed() {
    let mut relay = copy_bidirectional_with_buffer(16);
    let mut client = Peer::new(&[b"hello"], 16);
    let mut backend = Peer::new(&[], 16);
    backend.closes = false;

    // The client sends and closes; the backend is silent so far.
    let first = poll_once(&mut relay, &mut client, &mut backend);
    assert!(matches!(first, Polled::Pending));
    assert_eq!(backend.got, b"hello");
    assert!(backend.shut);
    assert!(!client.shut);
    assert!(relay.a_to_b().is_shutdown());
    assert!(!relay.b_to_a().is_shutdown());

    // The backend answers and closes.
    backend.to_send.push(b"world".to_vec());
    backend.closes = true;
    let second = poll_once(&mut relay, &mut client, &mut backend);
    assert!(matches!(second, Polled::Ready((5, 5))));
    assert_eq!(client.got, b"world");
    assert!(client.shut);
    assert!(relay.awaiting().is_none());
}

#[test]
fn everything_sent_arrives_in_order() {
    let mut relay = copy_bidirectional_with_buffer(4);
    let up: Vec<u8> = (0..=255).collect();
    let down: Vec<u8> = (0..100).rev().collect();
    let up_pieces: Vec<&[u8]> = up.chunks(4).collect();
    let down_pieces: Vec<&[u8]> = down.chunks(3).collect();
    let mut a = Peer::new(&up_pieces, 3);
    let mut b = Peer::new(&down_pieces, 1);
    let result = poll_once(&mut relay, &mut a, &mut b);
    assert!(matches!(result, Polled::Ready((256, 100))));
    assert_eq!(b.got, up);
    assert_eq!(a.got, down);
    assert!(a.shut && b.shut);
}

#[test]
fn relay_of_nothing_completes() {
    let mut relay = copy_bidirectional_with_buffer(1);
    let mut a = Peer::new(&[], 1);
    let mut b = Peer::new(&[], 1);
    let result = poll_once(&mut relay, &mut a, &mut b);
    assert!(matches!(result, Polled::Ready((0, 0))));
    assert!(a.shut && b.shut);
}

#[test]
fn poll_takes_the_steps_in_order() {
    let mut relay = copy_bidirectional_with_buffer(8);
    assert!(matches!(relay.poll::<String>(), Action::Read(Side::A)));
    assert_eq!(relay.awaiting(), Some(Step::ReadA));
    assert!(matches!(relay.resume_read::<String>(Polled::Ready(b"ab")), Action::Read(Side::B)));
    assert!(matches!(relay.resume_read::<String>(Polled::Pending), Action::Write(Side::B)));
    assert_eq!(relay.pending_for(Side::B), b"ab");
    assert!(relay.pending_for(Side::A).is_empty());
    // Something has moved in the first pass, so this write opens a second
    // one. It is not ready, and neither is the read that follows.
    assert!(matches!(relay.resume_write::<String>(Polled::Pending), Action::Read(Side::B)));
    assert_eq!(relay.awaiting(), Some(Step::ReadB));
    // The second pass moved nothing: the poll is over.
    assert!(matches!(
        relay.resume_read::<String>(Polled::Pending),
        Action::Return(Polled::Pending)
    ));
    assert!(relay.awaiting().is_none());
    // The next poll tries again from the start.
    assert!(matches!(relay.poll::<String>(), Action::Write(Side::B)));
    assert!(matches!(relay.resume_write::<String>(Polled::Ready(2)), Action::Read(Side::A)));
}

#[test]
fn write_of_zero_bytes_ends_the_relay() {
    let mut relay = copy_bidirectional_with_buffer(8);
    assert!(matches!(relay.poll::<String>(), Action::Read(Side::A)));
    assert!(matches!(relay.resume_read::<String>(Polled::Ready(b"x")), Action::Read(Side::B)));
    assert!(matches!(relay.resume_read::<String>(Polled::Pending), Action::Write(Side::B)));
    assert!(matches!(
        relay.resume_write::<String>(Polled::Ready(0)),
        Action::Return(Polled::Failed(CopyError::WriteZero))
    ));
}

#[test]
fn stream_errors_end_the_relay() {
    let mut relay = copy_bidirectional_with_buffer(8);
    assert!(matches!(relay.poll::<String>(), Action::Read(Side::A)));
    let failed = relay.resume_read(Polled::Failed("reset".to_string()));
    match failed {
        Action::Return(Polled::Failed(CopyError::Io(e))) => assert_eq!(e, "reset"),
        _ => panic!("the read error is the relay's error"),
    }

    let mut relay = copy_bidirectional_with_buffer(8);
    assert!(matches!(relay.poll::<String>(), Action::Read(Side::A)));
    assert!(matches!(relay.resume_read::<String>(Polled::Ready(b"")), Action::Shutdown(Side::B)));
    let failed = relay.resume_shutdown(Polled::Failed("broken".to_string()));
    match failed {
        Action::Return(Polled::Failed(CopyError::Io(e))) => assert_eq!(e, "broken"),
        _ => panic!("the shutdown error is the relay's error"),
    }

    let mut relay = copy_bidirectional_with_buffer(8);
    assert!(matches!(relay.poll::<String>(), Action::Read(Side::A)));
    assert!(matches!(relay.resume_read::<String>(Polled::Ready(b"x")), Action::Read(Side::B)));
    assert!(matches!(relay.resume_read::<String>(Polled::Pending), Action::Write(Side::B)));
    let failed = relay.resume_write(Polled::Failed("pipe".to_string()));
    match failed {
        Action::Return(Polled::Failed(CopyError::Io(e))) => assert_eq!(e, "pipe"),
        _ => panic!("the write error is the relay's error"),
    }
}

#[test]
fn slow_response_is_not_cut_off() {
    let mut relay = copy_bidirectional_with_buffer(8);
    let mut client = Peer::new(&[], 8);
    let mut backend = Peer::new(&[], 8);
    backend.closes = false;
    // The client closes at once.
    assert!(matches!(poll_once(&mut relay, &mut client, &mut backend), Polled::Pending));
    assert!(backend.shut);
    // The backend takes its time.
    for _ in 0..3 {
        assert!(matches!(poll_once(&mut relay, &mut client, &mut backend), Polled::Pending));
        assert!(!client.shut);
    }
    backend.to_send.push(b"late".to_vec());
    assert!(matches!(poll_once(&mut relay, &mut client, &mut backend), Polled::Pending));
    assert_eq!(client.got, b"late");
    backend.closes = true;
    assert!(matches!(
        poll_once(&mut relay, &mut client, &mut backend),
        Polled::Ready((0, 4))
    ));
    assert!(client.shut);
}
