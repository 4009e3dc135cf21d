use gnome::networking::common::{GnomeId, SwarmName};
use gnome::networking::tcp_common::{frame_message, pick_extension_channel, tcp_send_cost, Deframer};

#[test]
fn framed_messages_carry_their_length() {
    assert_eq!(frame_message(&[7, 8, 9]), vec![0, 3, 7, 8, 9]);
    assert_eq!(frame_message(&[]), vec![0, 0]);
    let big = vec![1u8; 300];
    let framed = frame_message(&big);
    assert_eq!(&framed[..2], &[1, 44]);
    assert_eq!(framed.len(), 302);
    assert_eq!(tcp_send_cost(100), 145);
}

#[test]
fn whole_reads_give_all_messages() {
    let mut stream = frame_message(&[1, 2]);
    stream.extend(frame_message(&[]));
    stream.extend(frame_message(&[3]));
    let mut d = Deframer::new();
    assert_eq!(d.take_messages(&stream), vec![vec![1, 2], vec![], vec![3]]);
    assert!(d.pending.is_none());
}

#[test]
fn messages_cut_by_reads_are_completed() {
    let mut stream = frame_message(&[1, 2, 3, 4]);
    stream.extend(frame_message(&[5, 6]));
    let mut d = Deframer::new();
    assert_eq!(d.take_messages(&stream[..3]), Vec::<Vec<u8>>::new());
    assert_eq!(d.pending, Some((3, vec![1])));
    assert_eq!(d.take_messages(&stream[3..4]), Vec::<Vec<u8>>::new());
    assert_eq!(d.pending, Some((2, vec![1, 2])));
    assert_eq!(d.take_messages(&stream[4..9]), vec![vec![1, 2, 3, 4]]);
    assert_eq!(d.pending, Some((1, vec![5])));
    assert_eq!(d.take_messages(&stream[9..]), vec![vec![5, 6]]);
    assert!(d.pending.is_none());
}

#[test]
fn reading_in_pieces_matches_reading_whole() {
    let mut stream = Vec::new();
    for m in [vec![9u8; 5], vec![], vec![1, 2, 3]] {
        stream.extend(frame_message(&m));
    }
    let mut whole = Deframer::new();
    let all = whole.take_messages(&stream);
    // every cut that does not split a length in half
    for cut in [0usize, 2, 5, 7, 9, 11, 12, 14] {
        let mut d = Deframer::new();
        let mut got = d.take_messages(&stream[..cut]);
        got.extend(d.take_messages(&stream[cut..]));
        assert_eq!(got, all);
    }
}

fn sn(founder: u64, n: &str) -> SwarmName {
    SwarmName { founder: GnomeId(founder), name: n.to_string() }
}

#[test]
fn extension_uses_the_announced_channel() {
    let mut mappings = vec![(5u8, sn(1, "/a")), (7u8, sn(2, "/b"))];
    assert_eq!(pick_extension_channel(&mut mappings, &vec![0, 1], &sn(2, "/b")), Some(7));
    assert_eq!(mappings.len(), 1);
    assert_eq!(mappings[0].0, 5);
}

#[test]
fn extension_falls_back_to_the_lowest_free_channel() {
    let mut mappings = vec![(5u8, sn(1, "/a"))];
    // announced, but in use already
    assert_eq!(pick_extension_channel(&mut mappings, &vec![0, 5], &sn(1, "/a")), Some(1));
    assert_eq!(mappings.len(), 1);
    assert_eq!(pick_extension_channel(&mut mappings, &vec![], &sn(3, "/c")), Some(0));
    let all: Vec<u8> = (0..64).collect();
    assert_eq!(pick_extension_channel(&mut mappings, &all, &sn(3, "/c")), None);
}
