use rusty_socket_wrench::{write_survivors, Gather, PeerList, ReadOutcome, WriteOutcome};

fn broadcast(peers: &mut PeerList<Vec<u8>>, b: &[u8]) {
    let mut outcomes = Vec::new();
    for i in 0..peers.len() {
        peers.peer_mut(i).extend_from_slice(b);
        outcomes.push(WriteOutcome::Done);
    }
    peers.prune(&write_survivors(&outcomes));
}

#[test]
fn broadcast_reaches_three_peers() {
    let mut peers = PeerList::new();
    for _ in 0..3 {
        peers.add(Vec::new());
    }
    let b = b"hello, peers".to_vec();
    broadcast(&mut peers, &b);
    assert_eq!(peers.len(), 3);
    for i in 0..3 {
        assert_eq!(peers.peer(i), &b);
    }
}

#[test]
fn single_peer_gets_the_bytes_unmodified() {
    let mut peers = PeerList::new();
    peers.add(Vec::new());
    let b: Vec<u8> = (0..2048u32).map(|i| (i % 251) as u8).collect();
    broadcast(&mut peers, &b);
    assert_eq!(peers.peer(0), &b);
}

#[test]
fn peers_keep_connection_order() {
    let mut peers = PeerList::new();
    for i in 0..5u8 {
        peers.add(i);
    }
    for i in 0..5usize {
        assert_eq!(*peers.peer(i), i as u8);
    }
}

#[test]
fn failed_writes_drop_only_their_peers() {
    let keep = write_survivors(&vec![WriteOutcome::Done, WriteOutcome::Failed, WriteOutcome::Done]);
    assert_eq!(keep, vec![true, false, true]);
    let mut peers = PeerList::new();
    for i in 0..4u8 {
        peers.add(i);
    }
    peers.prune(&keep);
    assert_eq!(peers.len(), 3);
    assert_eq!((*peers.peer(0), *peers.peer(1), *peers.peer(2)), (0, 2, 3));
}

#[test]
fn gather_appends_peer_reads() {
    let mut g = Gather::new(10);
    assert!(g.wants_more());
    assert_eq!(g.offset(), 0);
    g.record(ReadOutcome::Bytes(4));
    assert_eq!(g.offset(), 4);
    g.record(ReadOutcome::WouldBlock);
    g.record(ReadOutcome::Failed);
    g.record(ReadOutcome::Bytes(0));
    g.record(ReadOutcome::Bytes(3));
    assert_eq!(g.total(), 7);
    assert_eq!(g.keep(), &vec![true, true, false, false, true]);

    let mut peers = PeerList::new();
    for i in 0..6u8 {
        peers.add(i);
    }
    peers.prune(g.keep());
    assert_eq!(peers.len(), 4);
    assert_eq!((*peers.peer(0), *peers.peer(1), *peers.peer(2), *peers.peer(3)), (0, 1, 4, 5));
}

#[test]
fn gather_stops_when_the_buffer_is_full() {
    let mut g = Gather::new(8);
    g.record(ReadOutcome::Bytes(8));
    assert!(!g.wants_more());
    assert_eq!(g.total(), 8);
    g.record(ReadOutcome::Bytes(1));
    assert_eq!(g.total(), 8);
    assert_eq!(g.keep(), &vec![true, false]);
}

#[test]
fn all_peers_blocking_reads_nothing() {
    let mut g = Gather::new(2048);
    for _ in 0..3 {
        g.record(ReadOutcome::WouldBlock);
    }
    assert_eq!(g.total(), 0);
    assert_eq!(g.keep(), &vec![true, true, true]);
}

#[test]
fn blocking_peers_all_stay_in_order() {
    let mut peers = PeerList::new();
    for i in 0..50u8 {
        peers.add(i);
    }
    let mut g = Gather::new(2048);
    for _ in 0..peers.len() {
        g.record(ReadOutcome::WouldBlock);
    }
    peers.prune(g.keep());
    assert_eq!(g.total(), 0);
    assert_eq!(peers.len(), 50);
    for i in 0..50usize {
        assert_eq!(*peers.peer(i), i as u8);
    }
}
