use gnome::manager::{
    initial_neighbor_settings, join_waits, listening_settings, next_avail_swarm_id, on_active_neighbors, on_neighbor_timeout,
    reply_settings_now, NeighborBook, SwarmIds, TimeoutAction,
};
use gnome::networking::common::{GnomeId, SwarmName};
use gnome::networking::{IpAddr, NetworkSettings, Transport};

fn name(founder: u64, n: &str) -> SwarmName {
    SwarmName { founder: GnomeId(founder), name: n.to_string() }
}

fn sorted(mut v: Vec<u64>) -> Vec<u64> {
    v.sort();
    v
}

#[test]
fn swarm_ids_are_taken_lowest_first() {
    assert_eq!(next_avail_swarm_id(&vec![]), Some(0));
    assert_eq!(next_avail_swarm_id(&vec![0, 2, 1, 4]), Some(3));
    let all: Vec<u8> = (0..=255).collect();
    assert_eq!(next_avail_swarm_id(&all), None);
}

#[test]
fn book_links_and_unlinks() {
    let mut book = NeighborBook::new();
    let a = name(1, "/a");
    book.link(&a, 10);
    book.link(&a, 11);
    book.link(&a, 10);
    assert_eq!(sorted(book.neighbors_of(&a).unwrap()), vec![10, 11]);
    assert!(book.neighbors_of(&name(1, "/b")).is_none());
    book.unlink(&a, 10);
    assert_eq!(book.neighbors_of(&a).unwrap(), vec![11]);
    book.set_neighbors(&a, &vec![20, 21]);
    assert_eq!(sorted(book.neighbors_of(&a).unwrap()), vec![20, 21]);
    book.forget_swarm(&a);
    assert!(book.neighbors_of(&a).is_none());
}

#[test]
fn next_swarm_to_join() {
    let mut book = NeighborBook::new();
    let root = book.next_avail_neighboring_swarm(&vec![], false, &None).unwrap();
    assert_eq!(root.0.name, "/");
    assert_eq!(root.0.founder.0, 0);
    assert_eq!(root.1, None);
    let a = name(1, "/a");
    let b = name(2, "/b");
    book.link(&a, 10);
    book.link(&b, 11);
    let joined = vec![a.duplicate()];
    let next = book.next_avail_neighboring_swarm(&joined, true, &None).unwrap();
    assert!(next.0.same_as(&b));
    assert_eq!(next.1, Some(11));
    assert!(book.next_avail_neighboring_swarm(&joined, true, &Some(b.duplicate())).is_none());
}

#[test]
fn notices_reach_each_gnome_once() {
    let mut book = NeighborBook::new();
    let a = name(1, "/a");
    let b = name(2, "/b");
    let new = name(3, "/new");
    book.link(&a, 10);
    book.link(&a, 11);
    book.link(&b, 11);
    book.link(&b, 12);
    book.link(&new, 13);
    let swarms = vec![(0u8, a.duplicate()), (1u8, b.duplicate()), (2u8, new.duplicate())];
    let plan = book.notify_other_swarms(&swarms, 2, &new, Some(10));
    assert_eq!(plan.len(), 2);
    assert_eq!(plan[0].0, 0);
    assert_eq!(plan[0].1, vec![11]);
    assert_eq!(plan[1].0, 1);
    assert_eq!(plan[1].1, vec![12]);
    let everyone_knows = book.notify_other_swarms(&swarms, 2, &new, None);
    assert_eq!(everyone_knows.len(), 2);
}

#[test]
fn neighbors_asked_through_a_shared_swarm() {
    let mut book = NeighborBook::new();
    let a = name(1, "/a");
    let b = name(2, "/b");
    book.link(&b, 5);
    book.link(&a, 5);
    book.link(&b, 6);
    let plan = book.provide_neighbors_plan(&b, &vec![a.duplicate()]);
    assert_eq!(plan.len(), 1);
    assert!(plan[0].0.same_as(&a));
    assert_eq!(plan[0].1, 5);
    let around = book.neighboring_swarms_of(&b, &vec![a.duplicate()]);
    assert_eq!(around.len(), 3);
    assert!(around.iter().any(|(n, g, j)| n.same_as(&a) && *g == 5 && *j));
}

#[test]
fn reports_of_neighboring_swarms() {
    let mut book = NeighborBook::new();
    let a = name(1, "/a");
    let c = name(7, "/c");
    let joined = vec![a.duplicate()];
    let (members, available) = book.take_neighboring_swarms(&joined, &vec![(5, a.duplicate()), (6, c.duplicate())]);
    assert_eq!(members.len(), 1);
    assert_eq!(members[0].1, 5);
    assert_eq!(available.len(), 1);
    assert!(available[0].0.same_as(&c));
    assert_eq!(sorted(book.neighbors_of(&c).unwrap()), vec![6]);
    let (_, available) = book.take_neighboring_swarms(&joined, &vec![(7, a.duplicate())]);
    assert_eq!(available.len(), 1);
    assert!(available[0].0.same_as(&a));
    assert_eq!(available[0].1, 7);
}

#[test]
fn join_timeouts_and_replies() {
    assert_eq!(on_neighbor_timeout(Some(3), 3), (None, TimeoutAction::Disconnect));
    assert_eq!(on_neighbor_timeout(Some(4), 3), (Some(4), TimeoutAction::KeepWaiting));
    assert_eq!(on_neighbor_timeout(None, 3), (None, TimeoutAction::NextJoin));
    assert_eq!(on_active_neighbors(Some(3), 3), None);
    assert_eq!(on_active_neighbors(Some(4), 3), Some(4));
    assert!(join_waits(Some(1)));
    assert!(!join_waits(None));
    assert!(reply_settings_now(&Some(name(9, "/x")), 9));
    assert!(!reply_settings_now(&Some(name(9, "/x")), 8));
    assert!(!reply_settings_now(&None, 8));
}

#[test]
fn founder_renames_the_root_swarm() {
    let mut ids = SwarmIds::new();
    ids.insert(name(0, "/"), 4);
    assert_eq!(ids.founder_determined(4, name(9, "/")), Some(9));
    assert_eq!(ids.get(&name(9, "/")), Some(4));
    assert_eq!(ids.get(&name(0, "/")), None);
    assert_eq!(ids.founder_determined(5, name(3, "/y")), None);
    assert_eq!(ids.get(&name(3, "/y")), Some(5));
    assert!(ids.name_of(5).unwrap().same_as(&name(3, "/y")));
    assert_eq!(ids.names().len(), 2);
    assert_eq!(ids.remove(&name(3, "/y")), Some(5));
    assert_eq!(ids.remove(&name(3, "/y")), None);
}

fn ns(port: u16) -> NetworkSettings {
    NetworkSettings::new_not_natted(IpAddr::V4([1, 1, 1, 1]), port, Transport::UDPoverIP4)
}

#[test]
fn listening_swarm_skips_own_settings() {
    assert!(listening_settings(7, &vec![]).is_none());
    let got = listening_settings(7, &vec![(1, ns(10)), (7, ns(11)), (2, ns(12))]).unwrap();
    let ports: Vec<u16> = got.iter().map(|s| s.pub_port).collect();
    assert_eq!(ports, vec![10, 12]);
    assert_eq!(listening_settings(7, &vec![(7, ns(11))]).unwrap().len(), 0);
}

#[test]
fn extend_requests_pass_only_for_new_neighbors_of_running_swarms() {
    let mut book = NeighborBook::new();
    let a = name(1, "/a");
    book.link(&a, 10);
    assert!(book.extend_request_passed(&a, false, true, 10));
    assert!(!book.extend_request_passed(&a, true, true, 10));
    assert!(!book.extend_request_passed(&a, false, false, 10));
    assert!(!book.extend_request_passed(&a, false, true, 11));
}

#[test]
fn start_settings_skip_own_and_repeated() {
    assert!(initial_neighbor_settings(7, &None).is_none());
    assert!(initial_neighbor_settings(7, &Some(vec![])).is_none());
    assert!(initial_neighbor_settings(7, &Some(vec![(7, ns(1))])).is_none());
    let got = initial_neighbor_settings(7, &Some(vec![(1, ns(10)), (7, ns(11)), (2, ns(10)), (3, ns(12))])).unwrap();
    let ports: Vec<u16> = got.iter().map(|s| s.pub_port).collect();
    assert_eq!(ports, vec![10, 12]);
}
