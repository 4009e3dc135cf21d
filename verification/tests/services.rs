use gnome::networking::holepunch::MagicPorts;
use gnome::networking::sock::{
    cast_dgram_header, classify_dgram, first_free_swarm_slot, CastKind, DgramKind, SendBudget,
};
use gnome::networking::token::{Category, Token, TokenAccounts, TokenEater};
use std::sync::mpsc::channel;

#[test]
fn token_eater_history() {
    let (s, r) = channel::<Token>();
    let mut eater = TokenEater::new(s, r);
    assert_eq!(eater.cat, Category::Rabbit);
    assert_eq!(eater.history, [0; 64]);
    eater.add_to_pending(5);
    eater.add_to_pending(7);
    assert_eq!(eater.history[0], 12);
    for _ in 0..7 {
        eater.shift_history();
    }
    assert_eq!(eater.iter, 7);
    assert_eq!(eater.history[0], 12);
    eater.shift_history();
    assert_eq!(eater.iter, 0);
    assert_eq!(eater.history[0], 0);
    assert_eq!(eater.history[1], 12);
    eater.send.send(Token::Provision(1)).unwrap();
}

#[test]
fn token_history_drops_the_oldest() {
    let (s, r) = channel::<Token>();
    let mut eater = TokenEater::new(s, r);
    eater.history[63] = 99;
    eater.history[62] = 98;
    for _ in 0..8 {
        eater.shift_history();
    }
    assert_eq!(eater.history[63], 98);
}

#[test]
fn token_accounts() {
    let mut acc = TokenAccounts::new(1000, 65536);
    assert_eq!(acc.per_msec, 64);
    assert_eq!(acc.token_size, 1024);
    assert_eq!(acc.from_time, 65536);
    assert_eq!(acc.serve_request(100), Some(100));
    assert_eq!(acc.from_time, 65436);
    assert_eq!(acc.serve_request(65436 + 10), Some(65446));
    assert_eq!(acc.from_time, 0);
    assert_eq!(acc.from_buffer, 990);
    assert_eq!(acc.serve_request(2000), None);
    assert_eq!(acc.from_buffer, 990);
    acc.tick();
    assert_eq!(acc.from_buffer, 1054);
    assert_eq!(acc.iteration, 1);
    acc.tick();
    assert_eq!(acc.from_time, 64);
    assert_eq!(acc.from_buffer, 1054);
    assert_eq!(acc.share_per_eater(3), 21);
    assert_eq!(acc.share_per_eater(0), 64);
    acc.spend(21);
    assert_eq!(acc.from_time, 43);
    assert_eq!(acc.bandwidth_report(), 344);
    assert!(!acc.start_pass());
    acc.iteration = 128;
    assert!(acc.start_pass());
    assert_eq!(acc.iteration, 0);
}

#[test]
fn magic_ports_rotate() {
    let mut ports = MagicPorts::new();
    let first = ports.next();
    assert_eq!(first, (127 << 9) + 0x155);
    assert_eq!(ports.next(), (126 << 9) + 0x155);
    assert!(ports.is_magic(first));
    assert!(ports.is_magic((1 << 9) + 0x155));
    assert!(!ports.is_magic(0x155));
    assert!(!ports.is_magic(1234));
    for _ in 0..125 {
        ports.next();
    }
    assert_eq!(ports.next(), first);
}

#[test]
fn datagram_headers() {
    assert_eq!(classify_dgram(&[5, 0]), (5, DgramKind::Regular));
    assert_eq!(classify_dgram(&[64 + 7, 255]), (7, DgramKind::NeighborRequest));
    assert_eq!(classify_dgram(&[64 + 7, 254]), (7, DgramKind::NeighborResponse));
    assert_eq!(classify_dgram(&[64 + 7, 3]), (7, DgramKind::Cast));
    assert_eq!(classify_dgram(&[192 + 63]), (63, DgramKind::Cast));
    assert_eq!(cast_dgram_header(3, CastKind::Unicast), 67);
    assert_eq!(cast_dgram_header(3, CastKind::Multicast), 131);
    assert_eq!(cast_dgram_header(3, CastKind::Broadcast), 195);
}

#[test]
fn free_swarm_slots() {
    assert_eq!(first_free_swarm_slot(&vec![]), Some(0));
    assert_eq!(first_free_swarm_slot(&vec![0, 1, 3]), Some(2));
    let all: Vec<u8> = (0..64).collect();
    assert_eq!(first_free_swarm_slot(&all), None);
}

#[test]
fn send_budget() {
    let mut b = SendBudget::new();
    assert_eq!(b.available, 128);
    assert_eq!(b.shortfall_request(), None);
    assert_eq!(SendBudget::cost(57), 100);
    assert!(b.try_spend(100));
    assert_eq!(b.available, 28);
    assert_eq!(b.shortfall_request(), Some(256));
    assert!(!b.try_spend(100));
    b.spend_after_provision(50, 100);
    assert_eq!(b.available, 0);
    assert_eq!(b.on_provision(500), 0);
    b.spend_after_provision(0, 100);
    assert_eq!(b.available, 400);
}
