//! The gnome manager's steps: what it does with a request from the application
//! and with a report from one of its swarms, as a change of its state and the
//! actions it takes.
use vstd::prelude::*;
use crate::manager::{
    available_from, gnome_links_view, joined_reports, joinable, listening_settings, listening_settings_spec, name_opt_view, pairs_view,
    root_swarm, gnomes_of, lemma_push_contains, next_avail_swarm_id, notices_view, notify_plan, on_active_neighbors, on_neighbor_timeout,
    seq_set, swarms_view, NeighborBook, NeighborBookView, SwarmIds, TimeoutAction,
};
use crate::networking::common::{names_view, GnomeId, SwarmName, SwarmNameView, ANY_FOUNDER};
use crate::networking::status::{ip_update, summary_all_settings, summary_settings, NetworkSummary, NetworkSummaryView, Transport};
use crate::networking::{ns_list_bytes, IpAddr, Nat, NetworkSettings, PortAllocationRule};

verus! {

/// What the manager keeps: its gnome id, its book of neighbors, the ids of the
/// swarms it joined by name, the swarms running by id, the swarm whose
/// neighbors it waits for, the joins that wait for that, the swarm it last
/// picked to join at random, what it knows of its public addresses, the
/// requests for them (swarm, connection, gnome) that wait for an address, and
/// whether it was asked to quit.
pub struct ManagerState {
    pub gnome_id: u64,
    pub book: NeighborBook,
    pub names: SwarmIds,
    pub running: Vec<(u8, SwarmName)>,
    pub waiting_for_neighbors: Option<u8>,
    pub join_queue: Vec<(SwarmName, Option<u64>)>,
    pub prev_join: SwarmName,
    pub summary: NetworkSummary,
    pub waiting_for_settings: Vec<(u8, u8, u64)>,
    pub quitting: bool,
}

/// What an action the manager takes holds.
pub enum ManagerActionView {
    SelectedSwarm(Option<SwarmNameView>),
    RequestJoin(SwarmNameView, Option<u64>),
    SwarmNeighbors(u8, Seq<u64>),
    NeighborLeft(u8, u64),
    AllNeighborsGone,
    Disconnect(u8),
    ReportDisconnected(u8, SwarmNameView),
    ProvideNeighbors(u8, SwarmNameView, u64),
    StartSwarm(u8, SwarmNameView),
    StartNeighborTimer(u8),
    Notify(u8, Set<u64>),
    RemoveFromNetworking(SwarmNameView),
    StartListening(u8, SwarmNameView, Option<Seq<NetworkSettings>>),
    ReportQuit(Seq<u8>),
    MyPublicIPs(Seq<NetworkSettings>),
    ReplyNetworkSettings(u8, Seq<u8>, u8, u64),
    FounderDetermined(u8, SwarmNameView),
    StartJoinTimer(SwarmNameView),
    SetFounder(u64),
    NewSwarmsAvailable(u8, Set<(SwarmNameView, u64)>),
}

/// An action the manager takes.
pub enum ManagerAction {
    /// Tell the application which swarm was picked to join, if any.
    SelectedSwarm(Option<SwarmName>),
    /// Ask itself to join this swarm, with a gnome known to be in it.
    RequestJoin(SwarmName, Option<u64>),
    /// Tell the application the neighbors of this swarm.
    SwarmNeighbors(u8, Vec<u64>),
    /// Tell the application that this gnome left this swarm.
    NeighborLeft(u8, u64),
    /// Tell the application that no swarm is running any more.
    AllNeighborsGone,
    /// Tell this swarm to disconnect.
    Disconnect(u8),
    /// Tell the application that this swarm was disconnected.
    ReportDisconnected(u8, SwarmName),
    /// Ask the swarm with this id to make this gnome a neighbor in that swarm too.
    ProvideNeighbors(u8, SwarmName, u64),
    /// Start the swarm with this id and name, tell networking of it and the
    /// application that it was joined.
    StartSwarm(u8, SwarmName),
    /// Start the timer after which the swarm with this id is dropped where it
    /// found no neighbors.
    StartNeighborTimer(u8),
    /// Ask the swarm with this id to tell these gnomes of the new swarm.
    Notify(u8, Vec<u64>),
    /// Tell networking to forget the swarm with this name.
    RemoveFromNetworking(SwarmName),
    /// Start the listening swarm with this id and name, with the settings of the
    /// neighbors it starts with where there are any, tell networking of it and
    /// the application that it was joined.
    StartListening(u8, SwarmName, Option<Vec<NetworkSettings>>),
    /// Tell the application that the swarms with these ids are disconnected.
    ReportQuit(Vec<u8>),
    /// Tell the application these public settings of this gnome.
    MyPublicIPs(Vec<NetworkSettings>),
    /// Tell the swarm with this id, for this connection and gnome, this gnome's
    /// settings as bytes.
    ReplyNetworkSettings(u8, Vec<u8>, u8, u64),
    /// Tell the application that the founder of this swarm was determined,
    /// which gave it this name.
    FounderDetermined(u8, SwarmName),
    /// After a while, ask itself to join this swarm.
    StartJoinTimer(SwarmName),
    /// Tell networking the founder of the swarm it serves.
    SetFounder(u64),
    /// Tell the application the swarms that this swarm's neighbors are in and
    /// this gnome has not joined, each with a gnome in it.
    NewSwarmsAvailable(u8, Vec<(SwarmName, u64)>),
}

impl View for ManagerAction {
    type V = ManagerActionView;

    open spec fn view(&self) -> ManagerActionView {
        match self {
            ManagerAction::SelectedSwarm(n) => ManagerActionView::SelectedSwarm(name_opt_view(*n)),
            ManagerAction::RequestJoin(n, g) => ManagerActionView::RequestJoin(n@, *g),
            ManagerAction::SwarmNeighbors(s, ids) => ManagerActionView::SwarmNeighbors(*s, ids@),
            ManagerAction::NeighborLeft(s, g) => ManagerActionView::NeighborLeft(*s, *g),
            ManagerAction::AllNeighborsGone => ManagerActionView::AllNeighborsGone,
            ManagerAction::Disconnect(s) => ManagerActionView::Disconnect(*s),
            ManagerAction::ReportDisconnected(s, n) => ManagerActionView::ReportDisconnected(*s, n@),
            ManagerAction::ProvideNeighbors(s, n, g) => ManagerActionView::ProvideNeighbors(*s, n@, *g),
            ManagerAction::StartSwarm(s, n) => ManagerActionView::StartSwarm(*s, n@),
            ManagerAction::StartNeighborTimer(s) => ManagerActionView::StartNeighborTimer(*s),
            ManagerAction::Notify(s, ids) => ManagerActionView::Notify(*s, seq_set(ids@)),
            ManagerAction::RemoveFromNetworking(n) => ManagerActionView::RemoveFromNetworking(n@),
            ManagerAction::StartListening(s, n, o) => ManagerActionView::StartListening(*s, n@, match o {
                Some(v) => Some(v@),
                None => None,
            }),
            ManagerAction::ReportQuit(ids) => ManagerActionView::ReportQuit(ids@),
            ManagerAction::MyPublicIPs(v) => ManagerActionView::MyPublicIPs(v@),
            ManagerAction::ReplyNetworkSettings(s, b, c, g) => ManagerActionView::ReplyNetworkSettings(*s, b@, *c, *g),
            ManagerAction::FounderDetermined(s, n) => ManagerActionView::FounderDetermined(*s, n@),
            ManagerAction::StartJoinTimer(n) => ManagerActionView::StartJoinTimer(n@),
            ManagerAction::SetFounder(f) => ManagerActionView::SetFounder(*f),
            ManagerAction::NewSwarmsAvailable(s, v) => ManagerActionView::NewSwarmsAvailable(*s, seq_set(pairs_view(v@))),
        }
    }
}

/// The views of a list of actions.
pub open spec fn actions_view(a: Seq<ManagerAction>) -> Seq<ManagerActionView> {
    a.map_values(|x: ManagerAction| x@)
}

/// The views of the waiting joins.
pub open spec fn queue_view(q: Seq<(SwarmName, Option<u64>)>) -> Seq<(SwarmNameView, Option<u64>)> {
    q.map_values(|p: (SwarmName, Option<u64>)| (p.0@, p.1))
}

/// The running swarms, in order, but those with id `id`.
pub open spec fn running_without(s: Seq<(u8, SwarmNameView)>, id: u8) -> Seq<(u8, SwarmNameView)>
    decreases s.len(),
{
    if s.len() == 0 {
        seq![]
    } else {
        let rest = running_without(s.drop_last(), id);
        if s.last().0 != id {
            rest.push(s.last())
        } else {
            rest
        }
    }
}

/// A report from a swarm to the manager.
pub enum GnomeReport {
    /// The swarm with this id and name has disconnected.
    Disconnected(u8, SwarmName),
    /// The swarm with this id and name has these neighbors now.
    ActiveNeighbors(u8, SwarmName, Vec<u64>),
    /// This gnome left the swarm with this id and name.
    GnomeLeft(u8, SwarmName, u64),
    /// The founder of the swarm with this id was determined, which gave it
    /// this name.
    FounderDetermined(u8, SwarmName),
    /// The neighbors of the swarm with this id are in these swarms (gnome,
    /// swarm).
    NeighboringSwarms(u8, Vec<(u64, SwarmName)>),
    /// The swarm with this id asks, for this connection and gnome, for this
    /// gnome's public settings.
    ProvidePublicAddress(u8, u8, u64),
}

impl ManagerState {
    /// Whether no two joined swarms share a name, and the summary is well formed.
    pub open spec fn wf(&self) -> bool {
        self.names.wf() && self.summary.wf()
    }
}

/// Takes the running swarms with id `id` out.
fn remove_running(running: &mut Vec<(u8, SwarmName)>, id: u8)
    ensures
        swarms_view(final(running)@) == running_without(swarms_view(old(running)@), id),
{
    let mut kept: Vec<(u8, SwarmName)> = Vec::new();
    let mut i: usize = 0;
    while i < running.len()
        invariant
            i <= running@.len(),
            running@ == old(running)@,
            swarms_view(kept@) == running_without(swarms_view(running@).take(i as int), id),
        decreases running@.len() - i,
    {
        assert(swarms_view(running@).take(i as int + 1).drop_last() =~= swarms_view(running@).take(i as int));
        let k_id = running[i].0;
        if k_id != id {
            let ghost before = kept@;
            let n = running[i].1.duplicate();
            kept.push((k_id, n));
            assert(swarms_view(kept@) =~= swarms_view(before).push((k_id, running@[i as int].1@)));
        }
        i = i + 1;
    }
    assert(swarms_view(running@).take(running@.len() as int) =~= swarms_view(running@));
    *running = kept;
}

/// Takes the first waiting join off the queue, where there is one.
fn pop_join(queue: &mut Vec<(SwarmName, Option<u64>)>) -> (r: Option<(SwarmName, Option<u64>)>)
    ensures
        queue_view(old(queue)@).len() == 0 ==> r is None && final(queue)@ == old(queue)@,
        queue_view(old(queue)@).len() > 0 ==> (r matches Some(p) && (p.0@, p.1) == queue_view(old(queue)@)[0]
            && queue_view(final(queue)@) == queue_view(old(queue)@).drop_first()),
{
    if queue.len() == 0 {
        None
    } else {
        let p = queue.remove(0);
        assert(queue_view(queue@) =~= queue_view(old(queue)@).drop_first());
        Some(p)
    }
}

/// What the manager does with a report from one of its swarms. A disconnected
/// swarm is forgotten in the book and in the names (the name it was joined by,
/// where there is one, is given back with its id), and stops running; where no
/// swarm runs any more, the application is told that all neighbors are gone. New
/// neighbors of a swarm are written in the book and passed on; the swarm waited
/// for, where it is this one, is waited for no more, and the first waiting join,
/// where there is one, is asked for again. A gnome that left a swarm is
/// unlinked from it and the application told.
pub fn manager_on_report(state: &mut ManagerState, report: GnomeReport) -> (r: (Option<Vec<(u8, SwarmName)>>, Vec<ManagerAction>))
    requires
        old(state).wf(),
    ensures
        final(state).wf(),
        final(state).gnome_id == old(state).gnome_id,
        final(state).prev_join@ == old(state).prev_join@,
        final(state).summary@ == old(state).summary@,
        final(state).quitting == old(state).quitting,
        report !is ProvidePublicAddress ==> final(state).waiting_for_settings@ == old(state).waiting_for_settings@,
        match report {
            GnomeReport::Disconnected(s_id, s_name) => {
                let old_book = old(state).book@;
                let left = running_without(swarms_view(old(state).running@), s_id);
                &&& (old_book.swarms.contains(s_name@) ==> final(state).book@ == (NeighborBookView {
                    swarms: old_book.swarms.remove(s_name@),
                    swarm_gnomes: Set::new(|p: (SwarmNameView, u64)| old_book.swarm_gnomes.contains(p) && p.0 != s_name@),
                    gnomes: old_book.gnomes,
                    gnome_swarms: Set::new(
                        |p: (u64, SwarmNameView)|
                            old_book.gnome_swarms.contains(p) && !(p.1 == s_name@ && old_book.swarm_gnomes.contains((s_name@, p.0))),
                    ),
                }))
                &&& (!old_book.swarms.contains(s_name@) ==> final(state).book@ == old_book)
                &&& swarms_view(final(state).running@) == left
                &&& final(state).waiting_for_neighbors == old(state).waiting_for_neighbors
                &&& queue_view(final(state).join_queue@) == queue_view(old(state).join_queue@)
                &&& match r.0 {
                    Some(v) => v@.len() == 1 && v@[0].0 == s_id && old(state).names@.contains_key(v@[0].1@)
                        && old(state).names@[v@[0].1@] == s_id && final(state).names@ == old(state).names@.remove(v@[0].1@),
                    None => final(state).names@ == old(state).names@ && forall|k: SwarmNameView|
                        #[trigger] old(state).names@.contains_key(k) ==> old(state).names@[k] != s_id,
                }
                &&& actions_view(r.1@) == if left.len() == 0 { seq![ManagerActionView::AllNeighborsGone] } else { seq![] }
            },
            GnomeReport::ActiveNeighbors(s_id, s_name, ids) => {
                &&& r.0 is None
                &&& final(state).waiting_for_neighbors == on_active_neighbors_spec(old(state).waiting_for_neighbors, s_id)
                &&& final(state).book@.swarms == old(state).book@.swarms.insert(s_name@)
                &&& final(state).book@.swarm_gnomes == Set::new(
                    |p: (SwarmNameView, u64)| (old(state).book@.swarm_gnomes.contains(p) && p.0 != s_name@) || (p.0 == s_name@
                        && ids@.contains(p.1)),
                )
                &&& final(state).book@.gnomes == old(state).book@.gnomes.union(seq_set(ids@))
                &&& final(state).book@.gnome_swarms == old(state).book@.gnome_swarms.union(
                    Set::new(|p: (u64, SwarmNameView)| ids@.contains(p.0) && p.1 == s_name@),
                )
                &&& final(state).names@ == old(state).names@
                &&& swarms_view(final(state).running@) == swarms_view(old(state).running@)
                &&& if queue_view(old(state).join_queue@).len() == 0 {
                    &&& actions_view(r.1@) == seq![ManagerActionView::SwarmNeighbors(s_id, ids@)]
                    &&& queue_view(final(state).join_queue@) == queue_view(old(state).join_queue@)
                } else {
                    let first = queue_view(old(state).join_queue@)[0];
                    &&& actions_view(r.1@) == seq![
                        ManagerActionView::SwarmNeighbors(s_id, ids@),
                        ManagerActionView::RequestJoin(first.0, first.1),
                    ]
                    &&& queue_view(final(state).join_queue@) == queue_view(old(state).join_queue@).drop_first()
                }
            },
            GnomeReport::GnomeLeft(s_id, s_name, g) => {
                &&& r.0 is None
                &&& final(state).book@.swarm_gnomes == old(state).book@.swarm_gnomes.remove((s_name@, g))
                &&& final(state).book@.gnome_swarms == old(state).book@.gnome_swarms.remove((g, s_name@))
                &&& final(state).book@.swarms == old(state).book@.swarms
                &&& final(state).names@ == old(state).names@
                &&& swarms_view(final(state).running@) == swarms_view(old(state).running@)
                &&& final(state).waiting_for_neighbors == old(state).waiting_for_neighbors
                &&& queue_view(final(state).join_queue@) == queue_view(old(state).join_queue@)
                &&& actions_view(r.1@) == seq![ManagerActionView::NeighborLeft(s_id, g)]
            },
            GnomeReport::FounderDetermined(s_id, name) => {
                &&& r.0 is None
                &&& final(state).book@ == old(state).book@
                &&& swarms_view(final(state).running@) == renamed(swarms_view(old(state).running@), s_id, name@)
                &&& (old(state).names@.contains_key(root_swarm()) ==> {
                    let e = old(state).names@[root_swarm()];
                    final(state).names@ == old(state).names@.remove(root_swarm()).insert(if e == s_id { name@ } else { root_swarm() }, e)
                })
                &&& (!old(state).names@.contains_key(root_swarm()) ==> final(state).names@ == old(state).names@.insert(name@, s_id))
                &&& final(state).waiting_for_neighbors == old(state).waiting_for_neighbors
                &&& queue_view(final(state).join_queue@) == queue_view(old(state).join_queue@)
                &&& actions_view(r.1@) == founder_actions_spec(old(state).gnome_id, s_id, name@, old(state).names@.contains_key(root_swarm()))
            },
            GnomeReport::NeighboringSwarms(s_id, reported) => {
                let rep = gnome_links_view(reported@);
                &&& r.0 is None
                &&& final(state).book@.swarms == old(state).book@.swarms.union(Set::new(|n: SwarmNameView| exists|g: u64| rep.contains((g, n))))
                &&& final(state).book@.swarm_gnomes == old(state).book@.swarm_gnomes.union(Set::new(|p: (SwarmNameView, u64)| rep.contains((p.1, p.0))))
                &&& final(state).book@.gnomes == old(state).book@.gnomes.union(Set::new(|g: u64| exists|n: SwarmNameView| rep.contains((g, n))))
                &&& final(state).book@.gnome_swarms == old(state).book@.gnome_swarms.union(seq_set(rep))
                &&& keeps_joins(*old(state), *final(state))
                &&& actions_view(r.1@) == neighboring_actions_spec(swarms_view(old(state).running@), old(state).names@, final(state).book@, s_id, rep)
            },
            GnomeReport::ProvidePublicAddress(s_id, conn, g) => {
                &&& r.0 is None
                &&& final(state).book@ == old(state).book@
                &&& keeps_joins(*old(state), *final(state))
                &&& match address_request_spec(swarms_view(old(state).running@), s_id, conn, g, old(state).summary@) {
                    Some(a) => actions_view(r.1@) == seq![a] && final(state).waiting_for_settings@ == old(state).waiting_for_settings@,
                    None => r.1@.len() == 0 && final(state).waiting_for_settings@ == old(state).waiting_for_settings@.push((s_id, conn, g)),
                }
            },
        },
{
    let mut actions: Vec<ManagerAction> = Vec::new();
    match report {
        GnomeReport::Disconnected(s_id, s_name) => {
            state.book.forget_swarm(&s_name);
            let disconnected = match state.names.name_of(s_id) {
                Some(name) => {
                    state.names.remove(&name);
                    let mut v: Vec<(u8, SwarmName)> = Vec::new();
                    v.push((s_id, name));
                    Some(v)
                },
                None => None,
            };
            remove_running(&mut state.running, s_id);
            if state.running.len() == 0 {
                actions.push(ManagerAction::AllNeighborsGone);
            }
            assert(actions_view(actions@) =~= if running_without(swarms_view(old(state).running@), s_id).len() == 0 {
                seq![ManagerActionView::AllNeighborsGone]
            } else {
                seq![]
            });
            (disconnected, actions)
        },
        GnomeReport::ActiveNeighbors(s_id, s_name, ids) => {
            state.waiting_for_neighbors = on_active_neighbors(state.waiting_for_neighbors, s_id);
            state.book.set_neighbors(&s_name, &ids);
            actions.push(ManagerAction::SwarmNeighbors(s_id, ids));
            match pop_join(&mut state.join_queue) {
                Some((name, aware)) => {
                    actions.push(ManagerAction::RequestJoin(name, aware));
                },
                None => {},
            }
            assert(actions_view(actions@) =~= if queue_view(old(state).join_queue@).len() == 0 {
                seq![ManagerActionView::SwarmNeighbors(s_id, ids@)]
            } else {
                let first = queue_view(old(state).join_queue@)[0];
                seq![ManagerActionView::SwarmNeighbors(s_id, ids@), ManagerActionView::RequestJoin(first.0, first.1)]
            });
            (None, actions)
        },
        GnomeReport::GnomeLeft(s_id, s_name, g) => {
            state.book.unlink(&s_name, g);
            actions.push(ManagerAction::NeighborLeft(s_id, g));
            assert(actions_view(actions@) =~= seq![ManagerActionView::NeighborLeft(s_id, g)]);
            (None, actions)
        },
        GnomeReport::FounderDetermined(s_id, name) => {
            let acts = on_founder_determined(&mut state.running, &mut state.names, state.gnome_id, s_id, name);
            (None, acts)
        },
        GnomeReport::NeighboringSwarms(s_id, reported) => {
            let acts = on_neighboring_swarms(&mut state.book, &state.names, &state.running, s_id, &reported);
            (None, acts)
        },
        GnomeReport::ProvidePublicAddress(s_id, conn, g) => {
            let mut answered = false;
            match first_running_name(&state.running, s_id) {
                Some(n) => {
                    if n.founder.0 == g {
                        let b = state.summary.get_network_settings_bytes();
                        actions.push(ManagerAction::ReplyNetworkSettings(s_id, b, conn, g));
                        answered = true;
                    }
                },
                None => {},
            }
            if !answered {
                state.waiting_for_settings.push((s_id, conn, g));
            }
            proof {
                match address_request_spec(swarms_view(old(state).running@), s_id, conn, g, old(state).summary@) {
                    Some(a) => assert(actions_view(actions@) =~= seq![a]),
                    None => {},
                }
            }
            (None, actions)
        },
    }
}

/// Whether the manager's joins are as they were: the names, the running swarms,
/// the swarm waited for and the waiting joins.
pub open spec fn keeps_joins(before: ManagerState, after: ManagerState) -> bool {
    &&& after.names@ == before.names@
    &&& swarms_view(after.running@) == swarms_view(before.running@)
    &&& after.waiting_for_neighbors == before.waiting_for_neighbors
    &&& queue_view(after.join_queue@) == queue_view(before.join_queue@)
}

/// The swarm waited for after swarm `s_id` reported its neighbors.
pub open spec fn on_active_neighbors_spec(waiting: Option<u8>, s_id: u8) -> Option<u8> {
    if waiting == Some(s_id) {
        None
    } else {
        waiting
    }
}

/// A request from the application to the manager.
pub enum ManagerRequest {
    /// Join a neighboring swarm not joined yet, other than this one, or than
    /// the one picked last where none is given.
    JoinRandom(Option<SwarmName>),
    /// Join the swarm with this name, with a gnome known to be in it.
    JoinSwarm(SwarmName, Option<u64>),
    /// The time for the swarm with this id to find neighbors is up.
    DisconnectSwarmIfNoNeighbors(u8),
    /// Leave the swarm with this id.
    LeaveSwarm(u8),
    /// Start the listening swarm, with these gnomes and their settings offered
    /// as neighbors.
    StartListeningSwarm(Vec<(u64, NetworkSettings)>),
    /// Ask the swarm with this id to make this gnome a neighbor in the swarm
    /// with this name.
    ExtendSwarm(SwarmName, u8, u64),
    /// Tell the application this gnome's public settings.
    ProvidePublicIPs,
    /// A public address, port, NAT kind, rule and transport were found.
    PublicAddress(IpAddr, u16, Nat, (PortAllocationRule, i8), Transport),
    /// Disconnect every swarm and stop.
    Quit,
}

/// Whether `ns`, a swarm joined under id `via`, is one through which gnome `n`
/// can be asked to join swarm `name`.
pub open spec fn provides_via(v: NeighborBookView, names: Map<SwarmNameView, u8>, name: SwarmNameView, n: u64, via: u8) -> bool {
    exists|ns: SwarmNameView|
        #![trigger v.gnome_swarms.contains((n, ns))]
        v.gnome_swarms.contains((n, ns)) && names.contains_key(ns) && names[ns] == via && ns != name
}

/// The gnome an action asks to join a swarm, where it is such a request.
pub open spec fn provided_gnome(a: ManagerActionView) -> Option<u64> {
    match a {
        ManagerActionView::ProvideNeighbors(_, _, g) => Some(g),
        _ => None,
    }
}

/// Whether `a` tells the application that swarm `s_id`, running under some
/// name in `running`, was disconnected.
pub open spec fn reports_disconnect(a: ManagerActionView, s_id: u8, running: Seq<(u8, SwarmNameView)>) -> bool {
    match a {
        ManagerActionView::ReportDisconnected(i, n) => i == s_id && running.contains((s_id, n)),
        _ => false,
    }
}

/// Whether `a` tells networking to forget a swarm that runs under id `s_id` in
/// `running`.
pub open spec fn removes_from_networking(a: ManagerActionView, s_id: u8, running: Seq<(u8, SwarmNameView)>) -> bool {
    match a {
        ManagerActionView::RemoveFromNetworking(n) => running.contains((s_id, n)),
        _ => false,
    }
}

/// Whether `acts` asks, through joined swarms, each neighbor in swarm `name`
/// that is in some other joined swarm to join `name` too, each such neighbor
/// once and no other.
pub open spec fn provide_actions_ok(v: NeighborBookView, names: Map<SwarmNameView, u8>, name: SwarmNameView, acts: Seq<ManagerActionView>) -> bool {
    &&& forall|k: int| 0 <= k < acts.len() ==> (#[trigger] acts[k] matches ManagerActionView::ProvideNeighbors(via, nm, n)
        && nm == name && gnomes_of(v, name).contains(n) && provides_via(v, names, name, n, via))
    &&& forall|n: u64, ns: SwarmNameView|
        v.swarms.contains(name) && gnomes_of(v, name).contains(n) && #[trigger] v.gnome_swarms.contains((n, ns))
            && names.contains_key(ns) && ns != name ==> exists|k: int| 0 <= k < acts.len() && provided_gnome(#[trigger] acts[k]) == Some(n)
    &&& forall|k1: int, k2: int| 0 <= k1 < k2 < acts.len() ==> provided_gnome(#[trigger] acts[k1]) != provided_gnome(#[trigger] acts[k2])
}

/// The ids of the running swarms.
pub open spec fn running_ids(s: Seq<(u8, SwarmNameView)>) -> Seq<u8> {
    s.map_values(|p: (u8, SwarmNameView)| p.0)
}

/// Whether `id` is the lowest id no running swarm has.
pub open spec fn lowest_free(taken: Seq<u8>, id: u8) -> bool {
    &&& !taken.contains(id)
    &&& forall|j: u8| j < id ==> taken.contains(j)
}

/// The actions that tell swarms of a new swarm.
pub open spec fn notice_actions(plan: Seq<(u8, Set<u64>)>) -> Seq<ManagerActionView> {
    plan.map_values(|p: (u8, Set<u64>)| ManagerActionView::Notify(p.0, p.1))
}

/// A copy of a list of gnome ids.
fn copy_ids(v: &Vec<u64>) -> (r: Vec<u64>)
    ensures
        r@ == v@,
{
    let mut out: Vec<u64> = Vec::new();
    let mut i: usize = 0;
    while i < v.len()
        invariant
            i <= v@.len(),
            out@ == v@.take(i as int),
        decreases v@.len() - i,
    {
        out.push(v[i]);
        i = i + 1;
        assert(out@ =~= v@.take(i as int));
    }
    assert(v@.take(v@.len() as int) =~= v@);
    out
}

/// The ids of running swarms, read off the list.
fn ids_of(running: &Vec<(u8, SwarmName)>) -> (r: Vec<u8>)
    ensures
        r@ == running_ids(swarms_view(running@)),
{
    let mut ids: Vec<u8> = Vec::new();
    let mut i: usize = 0;
    while i < running.len()
        invariant
            i <= running@.len(),
            ids@ == running_ids(swarms_view(running@)).take(i as int),
        decreases running@.len() - i,
    {
        ids.push(running[i].0);
        i = i + 1;
        assert(ids@ =~= running_ids(swarms_view(running@)).take(i as int));
    }
    assert(running_ids(swarms_view(running@)).take(running@.len() as int) =~= running_ids(swarms_view(running@)));
    ids
}

/// The name of a running swarm with id `id`, where there is one.
fn running_name(running: &Vec<(u8, SwarmName)>, id: u8) -> (r: Option<SwarmName>)
    ensures
        r matches Some(n) ==> swarms_view(running@).contains((id, n@)) && running_ids(swarms_view(running@)).contains(id),
        r is None ==> !running_ids(swarms_view(running@)).contains(id),
{
    let mut i: usize = 0;
    while i < running.len()
        invariant
            i <= running@.len(),
            forall|k: int| 0 <= k < i ==> running@[k].0 != id,
        decreases running@.len() - i,
    {
        if running[i].0 == id {
            assert(swarms_view(running@)[i as int] == (id, running@[i as int].1@));
            assert(running_ids(swarms_view(running@))[i as int] == id);
            return Some(running[i].1.duplicate());
        }
        i = i + 1;
    }
    assert forall|k: int| 0 <= k < running_ids(swarms_view(running@)).len() implies running_ids(swarms_view(running@))[k] != id by {
        assert(running_ids(swarms_view(running@))[k] == running@[k].0);
    }
    None
}

/// The actions that ask neighbors of swarm `name` to join it through the other
/// joined swarms.
fn provide_actions(book: &NeighborBook, names: &SwarmIds, name: &SwarmName) -> (r: Vec<ManagerAction>)
    requires
        names.wf(),
    ensures
        provide_actions_ok(book@, names@, name@, actions_view(r@)),
{
    let joined = names.names();
    let plan = book.provide_neighbors_plan(name, &joined);

    let mut acts: Vec<ManagerAction> = Vec::new();
    let mut i: usize = 0;
    while i < plan.len()
        invariant
            i <= plan@.len(),
            names.wf(),
            forall|n: SwarmNameView| names_view(joined@).contains(n) <==> names@.contains_key(n),
            forall|k: int| 0 <= k < plan@.len() ==> gnomes_of(book@, name@).contains((#[trigger] plan@[k]).1),
            forall|k: int| 0 <= k < plan@.len() ==> crate::manager::shared_swarm(book@, names_view(joined@), name@, (#[trigger] plan@[k]).1, plan@[k].0@),
            forall|k1: int, k2: int| 0 <= k1 < k2 < plan@.len() ==> (#[trigger] plan@[k1]).1 != (#[trigger] plan@[k2]).1,
            acts@.len() == i,
            forall|k: int| 0 <= k < i ==> (#[trigger] actions_view(acts@)[k] matches ManagerActionView::ProvideNeighbors(via, nm, n)
                && nm == name@ && n == plan@[k].1 && gnomes_of(book@, name@).contains(n) && provides_via(book@, names@, name@, n, via)),
        decreases plan@.len() - i,
    {
        let ns = &plan[i].0;
        let n = plan[i].1;
        assert(names_view(joined@).contains(ns@));
        let via = match names.get(ns) {
            Some(v) => v,
            None => {
                assert(false);
                0
            },
        };
        assert(book@.gnome_swarms.contains((n, ns@)));
        let ghost before = acts@;
        acts.push(ManagerAction::ProvideNeighbors(via, name.duplicate(), n));
        assert(actions_view(acts@)[i as int] == ManagerActionView::ProvideNeighbors(via, name@, n));
        assert forall|k: int| 0 <= k < i + 1 implies (#[trigger] actions_view(acts@)[k] matches ManagerActionView::ProvideNeighbors(via2, nm, n2)
            && nm == name@ && n2 == plan@[k].1 && gnomes_of(book@, name@).contains(n2) && provides_via(book@, names@, name@, n2, via2)) by {
            if k < i {
                assert(actions_view(acts@)[k] == actions_view(before)[k]);
            }
        }
        i = i + 1;
    }
    let ghost a = actions_view(acts@);
    assert forall|n: u64, ns: SwarmNameView|
        book@.swarms.contains(name@) && gnomes_of(book@, name@).contains(n) && #[trigger] book@.gnome_swarms.contains((n, ns))
            && names@.contains_key(ns) && ns != name@ implies exists|k: int| 0 <= k < a.len() && provided_gnome(#[trigger] a[k]) == Some(n) by {
        assert(crate::manager::shared_swarm(book@, names_view(joined@), name@, n, ns));
        let k = choose|k: int| 0 <= k < plan@.len() && plan@[k].1 == n;
        assert(provided_gnome(a[k]) == Some(n));
    }
    assert forall|k1: int, k2: int| 0 <= k1 < k2 < a.len() implies provided_gnome(#[trigger] a[k1]) != provided_gnome(#[trigger] a[k2]) by {
        assert(plan@[k1].1 != plan@[k2].1);
    }
    acts
}

/// The name `/` under the founder `founder`.
fn slash_name(founder: GnomeId) -> (r: SwarmName)
    ensures
        r@ == (SwarmNameView { founder: founder.0, name: seq!['/'] }),
{
    let root = "/";
    proof {
        reveal_strlit("/");
    }
    let text = root.to_owned();
    assert(text@ =~= seq!['/']);
    SwarmName { founder, name: text }
}

/// What a request to make gnome `g` a neighbor in swarm `name`, through swarm
/// `s_id`, gives: the request passed on to that swarm, where it runs, the swarm
/// `name` is not joined by name, and `g` is a known neighbor in it.
pub open spec fn extend_actions_spec(
    v: NeighborBookView,
    names: Map<SwarmNameView, u8>,
    running: Seq<(u8, SwarmNameView)>,
    name: SwarmNameView,
    s_id: u8,
    g: u64,
) -> Seq<ManagerActionView> {
    if running_ids(running).contains(s_id) && !names.contains_key(name) && v.swarm_gnomes.contains((name, g)) {
        seq![ManagerActionView::ProvideNeighbors(s_id, name, g)]
    } else {
        seq![]
    }
}

/// The actions of a request to extend a swarm.
fn extend_actions(book: &NeighborBook, names: &SwarmIds, running: &Vec<(u8, SwarmName)>, name: SwarmName, s_id: u8, g: u64) -> (r: Vec<ManagerAction>)
    requires
        names.wf(),
    ensures
        actions_view(r@) == extend_actions_spec(book@, names@, swarms_view(running@), name@, s_id, g),
{
    let known = running_name(running, s_id).is_some();
    let joined = names.get(&name).is_some();
    let mut acts: Vec<ManagerAction> = Vec::new();
    if book.extend_request_passed(&name, joined, known, g) {
        acts.push(ManagerAction::ProvideNeighbors(s_id, name, g));
    }
    assert(actions_view(acts@) =~= extend_actions_spec(book@, names@, swarms_view(running@), name@, s_id, g));
    acts
}

/// Starts the listening swarm under the lowest free id, with the settings of
/// the offered gnomes other than `my_id`; where every id is taken, nothing
/// happens.
fn start_listening(running: &mut Vec<(u8, SwarmName)>, names: &mut SwarmIds, my_id: u64, offered: &Vec<(u64, NetworkSettings)>) -> (r: Vec<ManagerAction>)
    requires
        old(names).wf(),
    ensures
        final(names).wf(),
        ({
            let taken = running_ids(swarms_view(old(running)@));
            if forall|i: u8| taken.contains(i) {
                &&& r@.len() == 0
                &&& final(names)@ == old(names)@
                &&& swarms_view(final(running)@) == swarms_view(old(running)@)
            } else {
                exists|id: u8| #![trigger lowest_free(taken, id)] lowest_free(taken, id) && {
                    &&& final(names)@ == old(names)@.insert(root_swarm(), id)
                    &&& swarms_view(final(running)@) == swarms_view(old(running)@).push((id, root_swarm()))
                    &&& actions_view(r@) == seq![ManagerActionView::StartListening(id, root_swarm(), listening_settings_spec(my_id, offered@))]
                }
            }
        }),
{
    let mut acts: Vec<ManagerAction> = Vec::new();
    let taken = ids_of(running);
    match next_avail_swarm_id(&taken) {
        None => acts,
        Some(id) => {
            assert(lowest_free(running_ids(swarms_view(old(running)@)), id));
            let name = slash_name(GnomeId::any());
            let ghost before = swarms_view(running@);
            running.push((id, name.duplicate()));
            assert(swarms_view(running@) =~= before.push((id, root_swarm())));
            names.insert(name.duplicate(), id);
            let settings = listening_settings(my_id, offered);
            acts.push(ManagerAction::StartListening(id, name, settings));
            assert(actions_view(acts@) =~= seq![ManagerActionView::StartListening(id, root_swarm(), listening_settings_spec(my_id, offered@))]);
            acts
        },
    }
}

/// What quitting does: every running swarm, in order, is told to disconnect,
/// then the application is told of their ids.
pub open spec fn quit_actions_spec(running: Seq<(u8, SwarmNameView)>) -> Seq<ManagerActionView> {
    running.map_values(|p: (u8, SwarmNameView)| ManagerActionView::Disconnect(p.0)).push(
        ManagerActionView::ReportQuit(running_ids(running)),
    )
}

/// The actions of quitting.
fn quit_actions(running: &Vec<(u8, SwarmName)>) -> (r: Vec<ManagerAction>)
    ensures
        actions_view(r@) == quit_actions_spec(swarms_view(running@)),
{
    let ghost rv = swarms_view(running@);
    let ghost disc = rv.map_values(|p: (u8, SwarmNameView)| ManagerActionView::Disconnect(p.0));
    let mut acts: Vec<ManagerAction> = Vec::new();
    let mut i: usize = 0;
    while i < running.len()
        invariant
            i <= running@.len(),
            rv == swarms_view(running@),
            disc == rv.map_values(|p: (u8, SwarmNameView)| ManagerActionView::Disconnect(p.0)),
            actions_view(acts@) == disc.take(i as int),
        decreases running@.len() - i,
    {
        let ghost before = actions_view(acts@);
        acts.push(ManagerAction::Disconnect(running[i].0));
        assert(disc[i as int] == ManagerActionView::Disconnect(running@[i as int].0));
        assert(actions_view(acts@) =~= before.push(disc[i as int]));
        assert(disc.take(i as int + 1) =~= disc.take(i as int).push(disc[i as int]));
        i = i + 1;
    }
    let ids = ids_of(running);
    acts.push(ManagerAction::ReportQuit(ids));
    assert(disc.take(running@.len() as int) =~= disc);
    assert(actions_view(acts@) =~= quit_actions_spec(rv));
    acts
}

/// What a request for the public settings gives: the known ones, where there
/// are any.
pub open spec fn public_ips_spec(v: NetworkSummaryView) -> Seq<ManagerActionView> {
    if summary_settings(v).len() > 0 {
        seq![ManagerActionView::MyPublicIPs(summary_settings(v))]
    } else {
        seq![]
    }
}

/// The actions of a request for the public settings.
fn public_ips(summary: &NetworkSummary) -> (r: Vec<ManagerAction>)
    requires
        summary.wf(),
    ensures
        actions_view(r@) == public_ips_spec(summary@),
{
    let settings = summary.get_network_settings();
    let mut acts: Vec<ManagerAction> = Vec::new();
    if settings.len() > 0 {
        acts.push(ManagerAction::MyPublicIPs(settings));
    }
    assert(actions_view(acts@) =~= public_ips_spec(summary@));
    acts
}

/// What a summary knows after a report of `ip` and `port`, with `nat`, `rule`
/// and `transport`.
pub open spec fn summary_after(
    v: NetworkSummaryView,
    ip: IpAddr,
    port: u16,
    nat_type: Nat,
    rule: (PortAllocationRule, i8),
    transport: Transport,
) -> NetworkSummaryView {
    if ip is V4 {
        NetworkSummaryView { ip4: ip_update(v.ip4, ip, port, nat_type, rule.0, transport), ..v }
    } else {
        NetworkSummaryView { ip6: ip_update(v.ip6, ip, port, nat_type, rule.0, transport), ..v }
    }
}

/// The replies to the waiting requests for settings, in order, each to a swarm
/// that runs (its id among `ids`), with the settings' bytes.
pub open spec fn settings_replies(q: Seq<(u8, u8, u64)>, ids: Seq<u8>, bytes: Seq<u8>) -> Seq<ManagerActionView>
    decreases q.len(),
{
    if q.len() == 0 {
        seq![]
    } else {
        let rest = settings_replies(q.drop_last(), ids, bytes);
        let w = q.last();
        if ids.contains(w.0) {
            rest.push(ManagerActionView::ReplyNetworkSettings(w.0, bytes, w.1, w.2))
        } else {
            rest
        }
    }
}

/// Takes in a public address found, then answers every request that waited for
/// one, where its swarm runs, with the bytes of all settings.
fn take_public_address(
    summary: &mut NetworkSummary,
    waiting: &mut Vec<(u8, u8, u64)>,
    running: &Vec<(u8, SwarmName)>,
    ip: IpAddr,
    port: u16,
    nat_type: Nat,
    rule: (PortAllocationRule, i8),
    transport: Transport,
) -> (r: Vec<ManagerAction>)
    requires
        old(summary).wf(),
    ensures
        final(summary).wf(),
        final(summary)@ == summary_after(old(summary)@, ip, port, nat_type, rule, transport),
        final(waiting)@.len() == 0,
        actions_view(r@) == settings_replies(
            old(waiting)@,
            running_ids(swarms_view(running@)),
            ns_list_bytes(summary_all_settings(final(summary)@)),
        ),
{
    let _ = summary.process(ip, port, nat_type, rule, transport);
    let ids = ids_of(running);
    let ghost bytes = ns_list_bytes(summary_all_settings(summary@));
    let mut acts: Vec<ManagerAction> = Vec::new();
    let mut i: usize = 0;
    while i < waiting.len()
        invariant
            i <= waiting@.len(),
            summary.wf(),
            bytes == ns_list_bytes(summary_all_settings(summary@)),
            ids@ == running_ids(swarms_view(running@)),
            actions_view(acts@) == settings_replies(waiting@.take(i as int), ids@, bytes),
        decreases waiting@.len() - i,
    {
        let w = waiting[i];
        assert(waiting@.take(i as int + 1).drop_last() =~= waiting@.take(i as int));
        let runs = running_name(running, w.0).is_some();
        if runs {
            let b = summary.get_network_settings_bytes();
            let ghost before = actions_view(acts@);
            acts.push(ManagerAction::ReplyNetworkSettings(w.0, b, w.1, w.2));
            assert(actions_view(acts@) =~= before.push(ManagerActionView::ReplyNetworkSettings(w.0, bytes, w.1, w.2)));
        }
        i = i + 1;
    }
    assert(waiting@.take(waiting@.len() as int) =~= waiting@);
    waiting.clear();
    acts
}

/// The name of the first running swarm with id `id`, where there is one.
pub open spec fn first_name(s: Seq<(u8, SwarmNameView)>, id: u8) -> Option<SwarmNameView>
    decreases s.len(),
{
    if s.len() == 0 {
        None
    } else if s[0].0 == id {
        Some(s[0].1)
    } else {
        first_name(s.drop_first(), id)
    }
}

/// Finds the name of the first running swarm with id `id`.
fn first_running_name(running: &Vec<(u8, SwarmName)>, id: u8) -> (r: Option<SwarmName>)
    ensures
        match first_name(swarms_view(running@), id) {
            Some(n) => r matches Some(m) && m@ == n,
            None => r is None,
        },
{
    let ghost s = swarms_view(running@);
    assert(s.skip(0) =~= s);
    let mut i: usize = 0;
    while i < running.len()
        invariant
            i <= running@.len(),
            s == swarms_view(running@),
            first_name(s, id) == first_name(s.skip(i as int), id),
        decreases running@.len() - i,
    {
        assert(s.skip(i as int)[0] == s[i as int]);
        if running[i].0 == id {
            return Some(running[i].1.duplicate());
        }
        assert(s.skip(i as int).drop_first() =~= s.skip(i as int + 1));
        i = i + 1;
    }
    assert(s.skip(i as int).len() == 0);
    None
}

/// What a swarm's request, for connection `conn`, for the settings of this
/// gnome gives the gnome `g` that asks: where the swarm runs and `g` founded it,
/// the bytes of all settings at once; else the request waits for an address.
pub open spec fn address_request_spec(
    running: Seq<(u8, SwarmNameView)>,
    s_id: u8,
    conn: u8,
    g: u64,
    v: NetworkSummaryView,
) -> Option<ManagerActionView> {
    match first_name(running, s_id) {
        Some(n) => if n.founder == g {
            Some(ManagerActionView::ReplyNetworkSettings(s_id, ns_list_bytes(summary_all_settings(v)), conn, g))
        } else {
            None
        },
        None => None,
    }
}

/// The running swarms, with those with id `id` renamed `name`.
pub open spec fn renamed(s: Seq<(u8, SwarmNameView)>, id: u8, name: SwarmNameView) -> Seq<(u8, SwarmNameView)> {
    s.map_values(|p: (u8, SwarmNameView)| if p.0 == id { (id, name) } else { p })
}

/// Gives the running swarms with id `id` the name `name`.
fn rename_running(running: &mut Vec<(u8, SwarmName)>, id: u8, name: &SwarmName)
    ensures
        swarms_view(final(running)@) == renamed(swarms_view(old(running)@), id, name@),
{
    let ghost target = renamed(swarms_view(old(running)@), id, name@);
    let mut out: Vec<(u8, SwarmName)> = Vec::new();
    let mut i: usize = 0;
    while i < running.len()
        invariant
            i <= running@.len(),
            running@ == old(running)@,
            target == renamed(swarms_view(old(running)@), id, name@),
            swarms_view(out@) == target.take(i as int),
        decreases running@.len() - i,
    {
        let k = running[i].0;
        let ghost before = swarms_view(out@);
        if k == id {
            out.push((k, name.duplicate()));
        } else {
            out.push((k, running[i].1.duplicate()));
        }
        assert(swarms_view(out@) =~= before.push(target[i as int]));
        i = i + 1;
        assert(target.take(i as int) =~= before.push(target[i - 1]));
    }
    assert(target.take(running@.len() as int) =~= target);
    *running = out;
}

/// What the founder of swarm `s_id` being determined as `name` gives: the
/// application is told; where this gnome did not found it, it will try to join
/// its own swarm after a while; where it was in the root swarm, networking is
/// told the founder.
pub open spec fn founder_actions_spec(my_id: u64, s_id: u8, name: SwarmNameView, had_root: bool) -> Seq<ManagerActionView> {
    seq![ManagerActionView::FounderDetermined(s_id, name)]
        + (if name.founder != my_id {
        seq![ManagerActionView::StartJoinTimer(SwarmNameView { founder: my_id, name: seq!['/'] })]
    } else {
        seq![]
    }) + (if had_root {
        seq![ManagerActionView::SetFounder(name.founder)]
    } else {
        seq![]
    })
}

/// Takes in that the founder of swarm `s_id` was determined, which named it
/// `name`.
fn on_founder_determined(running: &mut Vec<(u8, SwarmName)>, names: &mut SwarmIds, my_id: u64, s_id: u8, name: SwarmName) -> (r: Vec<ManagerAction>)
    requires
        old(names).wf(),
    ensures
        final(names).wf(),
        swarms_view(final(running)@) == renamed(swarms_view(old(running)@), s_id, name@),
        old(names)@.contains_key(root_swarm()) ==> {
            let e = old(names)@[root_swarm()];
            final(names)@ == old(names)@.remove(root_swarm()).insert(if e == s_id { name@ } else { root_swarm() }, e)
        },
        !old(names)@.contains_key(root_swarm()) ==> final(names)@ == old(names)@.insert(name@, s_id),
        actions_view(r@) == founder_actions_spec(my_id, s_id, name@, old(names)@.contains_key(root_swarm())),
{
    let mut acts: Vec<ManagerAction> = Vec::new();
    acts.push(ManagerAction::FounderDetermined(s_id, name.duplicate()));
    if name.founder.0 != my_id {
        acts.push(ManagerAction::StartJoinTimer(slash_name(GnomeId(my_id))));
    }
    rename_running(running, s_id, &name);
    let founder = names.founder_determined(s_id, name.duplicate());
    match founder {
        Some(f) => acts.push(ManagerAction::SetFounder(f)),
        None => {},
    }
    assert(actions_view(acts@) =~= founder_actions_spec(my_id, s_id, name@, old(names)@.contains_key(root_swarm())));
    acts
}

/// The reported (gnome, swarm) pairs whose swarm is joined by name, as (swarm,
/// gnome), in the order reported.
pub open spec fn reports_joined(rep: Seq<(u64, SwarmNameView)>, names: Map<SwarmNameView, u8>) -> Seq<(SwarmNameView, u64)>
    decreases rep.len(),
{
    if rep.len() == 0 {
        seq![]
    } else {
        let rest = reports_joined(rep.drop_last(), names);
        let p = rep.last();
        if names.contains_key(p.1) {
            rest.push((p.1, p.0))
        } else {
            rest
        }
    }
}

/// The swarms a report makes newly available, as (swarm, gnome): those reported
/// that are not joined; where there are none, the reported pairs whose gnome
/// founded some swarm in the book not joined yet.
pub open spec fn newly_available(v: NeighborBookView, rep: Seq<(u64, SwarmNameView)>, names: Map<SwarmNameView, u8>) -> Set<(SwarmNameView, u64)> {
    let first = Set::new(|p: (SwarmNameView, u64)| rep.contains((p.1, p.0)) && !names.contains_key(p.0));
    if first == Set::<(SwarmNameView, u64)>::empty() {
        Set::new(
            |p: (SwarmNameView, u64)|
                rep.contains((p.1, p.0)) && exists|n: SwarmNameView| #[trigger] v.swarms.contains(n) && !names.contains_key(n) && n.founder == p.1,
        )
    } else {
        first
    }
}

proof fn lemma_reports_joined(rep: Seq<(u64, SwarmNameView)>, joined: Seq<SwarmNameView>, names: Map<SwarmNameView, u8>)
    requires
        forall|n: SwarmNameView| joined.contains(n) <==> names.contains_key(n),
    ensures
        joined_reports(rep, joined) == reports_joined(rep, names),
    decreases rep.len(),
{
    if rep.len() > 0 {
        lemma_reports_joined(rep.drop_last(), joined, names);
    }
}

/// The actions that ask, through swarm `s_id`, each of the given (swarm,
/// gnome) pairs' gnome to join that swarm too.
pub open spec fn member_actions(s_id: u8, pairs: Seq<(SwarmNameView, u64)>) -> Seq<ManagerActionView> {
    pairs.map_values(|p: (SwarmNameView, u64)| ManagerActionView::ProvideNeighbors(s_id, p.0, p.1))
}

/// What a report of the swarms that swarm `s_id`'s neighbors are in gives:
/// where `s_id` runs, the gnomes reported in joined swarms are asked through it
/// to join us there; then the application is told the swarms made newly
/// available.
pub open spec fn neighboring_actions_spec(
    running: Seq<(u8, SwarmNameView)>,
    names: Map<SwarmNameView, u8>,
    after: NeighborBookView,
    s_id: u8,
    rep: Seq<(u64, SwarmNameView)>,
) -> Seq<ManagerActionView> {
    (if running_ids(running).contains(s_id) {
        member_actions(s_id, reports_joined(rep, names))
    } else {
        seq![]
    }).push(ManagerActionView::NewSwarmsAvailable(s_id, newly_available(after, rep, names)))
}

/// Takes in the swarms that swarm `s_id`'s neighbors are in.
fn on_neighboring_swarms(book: &mut NeighborBook, names: &SwarmIds, running: &Vec<(u8, SwarmName)>, s_id: u8, reported: &Vec<(u64, SwarmName)>) -> (r: Vec<ManagerAction>)
    requires
        names.wf(),
    ensures
        final(book)@.swarms == old(book)@.swarms.union(Set::new(|n: SwarmNameView| exists|g: u64| gnome_links_view(reported@).contains((g, n)))),
        final(book)@.swarm_gnomes == old(book)@.swarm_gnomes.union(Set::new(|p: (SwarmNameView, u64)| gnome_links_view(reported@).contains((p.1, p.0)))),
        final(book)@.gnomes == old(book)@.gnomes.union(Set::new(|g: u64| exists|n: SwarmNameView| gnome_links_view(reported@).contains((g, n)))),
        final(book)@.gnome_swarms == old(book)@.gnome_swarms.union(seq_set(gnome_links_view(reported@))),
        actions_view(r@) == neighboring_actions_spec(swarms_view(running@), names@, final(book)@, s_id, gnome_links_view(reported@)),
{
    let joined = names.names();
    let ghost rep = gnome_links_view(reported@);
    let (members, available) = book.take_neighboring_swarms(&joined, reported);
    proof {
        lemma_reports_joined(rep, names_view(joined@), names@);
        let j = names_view(joined@);
        assert(Set::new(|p: (SwarmNameView, u64)| rep.contains((p.1, p.0)) && !j.contains(p.0)) =~= Set::new(
            |p: (SwarmNameView, u64)| rep.contains((p.1, p.0)) && !names@.contains_key(p.0),
        ));
        assert(Set::new(
            |p: (SwarmNameView, u64)|
                rep.contains((p.1, p.0)) && exists|n: SwarmNameView| #[trigger] book@.swarms.contains(n) && !j.contains(n) && n.founder == p.1,
        ) =~= Set::new(
            |p: (SwarmNameView, u64)|
                rep.contains((p.1, p.0)) && exists|n: SwarmNameView| #[trigger] book@.swarms.contains(n) && !names@.contains_key(n) && n.founder == p.1,
        ));
        assert(available_from(book@, rep, j) == newly_available(book@, rep, names@));
    }
    let ghost mv = member_actions(s_id, pairs_view(members@));
    let mut acts: Vec<ManagerAction> = Vec::new();
    if running_name(running, s_id).is_some() {
        let mut i: usize = 0;
        while i < members.len()
            invariant
                i <= members@.len(),
                mv == member_actions(s_id, pairs_view(members@)),
                actions_view(acts@) == mv.take(i as int),
            decreases members@.len() - i,
        {
            let n = members[i].0.duplicate();
            let ghost before = actions_view(acts@);
            acts.push(ManagerAction::ProvideNeighbors(s_id, n, members[i].1));
            assert(mv[i as int] == ManagerActionView::ProvideNeighbors(s_id, members@[i as int].0@, members@[i as int].1));
            assert(actions_view(acts@) =~= before.push(mv[i as int]));
            assert(mv.take(i as int + 1) =~= mv.take(i as int).push(mv[i as int]));
            i = i + 1;
        }
        assert(mv.take(members@.len() as int) =~= mv);
    }
    let ghost head = actions_view(acts@);
    acts.push(ManagerAction::NewSwarmsAvailable(s_id, available));
    assert(actions_view(acts@) =~= head.push(ManagerActionView::NewSwarmsAvailable(s_id, newly_available(book@, rep, names@))));
    acts
}

/// What the manager does with a request. A join that comes while another join
/// waits for neighbors is queued, and nothing else happens. A join of a swarm
/// joined already does nothing. Otherwise the neighbors of that swarm that are
/// in other joined swarms are asked through them to join it; where an id is
/// free, the swarm gets the lowest one, starts, is waited for, and its timer
/// starts; where its founder is known, the other swarms are asked to tell their
/// neighbors of it. When the time for a swarm to find neighbors is up: the swarm
/// waited for is disconnected and reported (where it runs); another one waited
/// for is still waited for; with none waited for, the first queued join is asked
/// for again. A swarm left is forgotten by networking and disconnected, where it
/// runs.
#[verifier::spinoff_prover]
#[verifier::rlimit(80)]
pub fn manager_on_request(state: &mut ManagerState, request: ManagerRequest) -> (actions: Vec<ManagerAction>)
    requires
        old(state).wf(),
    ensures
        final(state).wf(),
        final(state).gnome_id == old(state).gnome_id,
        final(state).book@ == old(state).book@,
        request !is JoinRandom ==> final(state).prev_join@ == old(state).prev_join@,
        request !is PublicAddress ==> final(state).summary@ == old(state).summary@
            && final(state).waiting_for_settings@ == old(state).waiting_for_settings@,
        final(state).quitting == (old(state).quitting || request is Quit),
        match request {
            ManagerRequest::JoinRandom(exclude) => {
                let excl = match exclude { Some(e) => Some(e@), None => Some(old(state).prev_join@) };
                let joined = old(state).names@.dom();
                &&& final(state).names@ == old(state).names@
                &&& swarms_view(final(state).running@) == swarms_view(old(state).running@)
                &&& final(state).waiting_for_neighbors == old(state).waiting_for_neighbors
                &&& queue_view(final(state).join_queue@) == queue_view(old(state).join_queue@)
                &&& if old(state).running@.len() == 0 {
                    &&& actions_view(actions@) == seq![ManagerActionView::SelectedSwarm(Some(root_swarm())), ManagerActionView::RequestJoin(root_swarm(), None)]
                    &&& final(state).prev_join@ == root_swarm()
                } else if !exists|n: SwarmNameView| #[trigger] old(state).book@.swarms.contains(n) && !joined.contains(n) && excl != Some(n) {
                    &&& actions_view(actions@) == seq![ManagerActionView::SelectedSwarm(None)]
                    &&& final(state).prev_join@ == old(state).prev_join@
                } else {
                    exists|n: SwarmNameView, g: Option<u64>| #![trigger old(state).book@.swarms.contains(n), g is Some]
                        old(state).book@.swarms.contains(n) && !joined.contains(n) && excl != Some(n) && match g {
                            Some(x) => old(state).book@.swarm_gnomes.contains((n, x)),
                            None => gnomes_of(old(state).book@, n) == Set::<u64>::empty(),
                        } && actions_view(actions@) == seq![ManagerActionView::SelectedSwarm(Some(n)), ManagerActionView::RequestJoin(n, g)]
                        && final(state).prev_join@ == n
                }
            },
            ManagerRequest::JoinSwarm(name, aware) => if old(state).waiting_for_neighbors is Some {
                &&& actions@.len() == 0
                &&& queue_view(final(state).join_queue@) == queue_view(old(state).join_queue@).push((name@, aware))
                &&& final(state).names@ == old(state).names@
                &&& swarms_view(final(state).running@) == swarms_view(old(state).running@)
                &&& final(state).waiting_for_neighbors == old(state).waiting_for_neighbors
            } else if old(state).names@.contains_key(name@) {
                &&& actions@.len() == 0
                &&& queue_view(final(state).join_queue@) == queue_view(old(state).join_queue@)
                &&& final(state).names@ == old(state).names@
                &&& swarms_view(final(state).running@) == swarms_view(old(state).running@)
                &&& final(state).waiting_for_neighbors == old(state).waiting_for_neighbors
            } else {
                let taken = running_ids(swarms_view(old(state).running@));
                &&& queue_view(final(state).join_queue@) == queue_view(old(state).join_queue@)
                &&& exists|p: int| 0 <= p <= actions@.len() && provide_actions_ok(old(state).book@, old(state).names@, name@, actions_view(actions@).take(p))
                    && if forall|i: u8| taken.contains(i) {
                        &&& p == actions@.len()
                        &&& final(state).names@ == old(state).names@
                        &&& swarms_view(final(state).running@) == swarms_view(old(state).running@)
                        &&& final(state).waiting_for_neighbors == old(state).waiting_for_neighbors
                    } else {
                        exists|id: u8| #![trigger lowest_free(taken, id)] lowest_free(taken, id) && {
                            let running2 = swarms_view(old(state).running@).push((id, name@));
                            &&& final(state).names@ == old(state).names@.insert(name@, id)
                            &&& swarms_view(final(state).running@) == running2
                            &&& final(state).waiting_for_neighbors == Some(id)
                            &&& actions_view(actions@).skip(p) == seq![ManagerActionView::StartSwarm(id, name@), ManagerActionView::StartNeighborTimer(id)]
                                + if name@.founder == ANY_FOUNDER { seq![] } else {
                                notice_actions(notify_plan(old(state).book@, running2, id, name@, aware))
                            }
                        }
                    }
            },
            ManagerRequest::DisconnectSwarmIfNoNeighbors(s_id) => {
                &&& final(state).names@ == old(state).names@
                &&& swarms_view(final(state).running@) == swarms_view(old(state).running@)
                &&& if old(state).waiting_for_neighbors == Some(s_id) {
                    &&& final(state).waiting_for_neighbors is None
                    &&& queue_view(final(state).join_queue@) == queue_view(old(state).join_queue@)
                    &&& if running_ids(swarms_view(old(state).running@)).contains(s_id) {
                        actions@.len() == 2 && actions_view(actions@)[0] == ManagerActionView::Disconnect(s_id)
                            && reports_disconnect(actions_view(actions@)[1], s_id, swarms_view(old(state).running@))
                    } else {
                        actions@.len() == 0
                    }
                } else if old(state).waiting_for_neighbors is Some {
                    &&& final(state).waiting_for_neighbors == old(state).waiting_for_neighbors
                    &&& queue_view(final(state).join_queue@) == queue_view(old(state).join_queue@)
                    &&& actions@.len() == 0
                } else {
                    &&& final(state).waiting_for_neighbors is None
                    &&& if queue_view(old(state).join_queue@).len() == 0 {
                        actions@.len() == 0 && queue_view(final(state).join_queue@) == queue_view(old(state).join_queue@)
                    } else {
                        let first = queue_view(old(state).join_queue@)[0];
                        &&& actions_view(actions@) == seq![ManagerActionView::RequestJoin(first.0, first.1)]
                        &&& queue_view(final(state).join_queue@) == queue_view(old(state).join_queue@).drop_first()
                    }
                }
            },
            ManagerRequest::LeaveSwarm(s_id) => {
                &&& final(state).names@ == old(state).names@
                &&& swarms_view(final(state).running@) == swarms_view(old(state).running@)
                &&& final(state).waiting_for_neighbors == old(state).waiting_for_neighbors
                &&& queue_view(final(state).join_queue@) == queue_view(old(state).join_queue@)
                &&& if running_ids(swarms_view(old(state).running@)).contains(s_id) {
                    actions@.len() == 2 && removes_from_networking(actions_view(actions@)[0], s_id, swarms_view(old(state).running@))
                        && actions_view(actions@)[1] == ManagerActionView::Disconnect(s_id)
                } else {
                    actions@.len() == 0
                }
            },
            ManagerRequest::StartListeningSwarm(offered) => {
                let taken = running_ids(swarms_view(old(state).running@));
                &&& final(state).waiting_for_neighbors == old(state).waiting_for_neighbors
                &&& queue_view(final(state).join_queue@) == queue_view(old(state).join_queue@)
                &&& if forall|i: u8| taken.contains(i) {
                    &&& actions@.len() == 0
                    &&& final(state).names@ == old(state).names@
                    &&& swarms_view(final(state).running@) == swarms_view(old(state).running@)
                } else {
                    exists|id: u8| #![trigger lowest_free(taken, id)] lowest_free(taken, id) && {
                        &&& final(state).names@ == old(state).names@.insert(root_swarm(), id)
                        &&& swarms_view(final(state).running@) == swarms_view(old(state).running@).push((id, root_swarm()))
                        &&& actions_view(actions@) == seq![ManagerActionView::StartListening(id, root_swarm(), listening_settings_spec(old(state).gnome_id, offered@))]
                    }
                }
            },
            ManagerRequest::ExtendSwarm(name, s_id, g) => {
                &&& keeps_joins(*old(state), *final(state))
                &&& actions_view(actions@) == extend_actions_spec(old(state).book@, old(state).names@, swarms_view(old(state).running@), name@, s_id, g)
            },
            ManagerRequest::ProvidePublicIPs => {
                &&& keeps_joins(*old(state), *final(state))
                &&& actions_view(actions@) == public_ips_spec(old(state).summary@)
            },
            ManagerRequest::PublicAddress(ip, port, nat_type, rule, transport) => {
                &&& keeps_joins(*old(state), *final(state))
                &&& final(state).summary@ == summary_after(old(state).summary@, ip, port, nat_type, rule, transport)
                &&& final(state).waiting_for_settings@.len() == 0
                &&& actions_view(actions@) == settings_replies(
                    old(state).waiting_for_settings@,
                    running_ids(swarms_view(old(state).running@)),
                    ns_list_bytes(summary_all_settings(final(state).summary@)),
                )
            },
            ManagerRequest::Quit => {
                &&& keeps_joins(*old(state), *final(state))
                &&& actions_view(actions@) == quit_actions_spec(swarms_view(old(state).running@))
            },
        },
{
    let mut actions: Vec<ManagerAction> = Vec::new();
    match request {
        ManagerRequest::StartListeningSwarm(offered) => {
            start_listening(&mut state.running, &mut state.names, state.gnome_id, &offered)
        },
        ManagerRequest::ExtendSwarm(name, s_id, g) => {
            extend_actions(&state.book, &state.names, &state.running, name, s_id, g)
        },
        ManagerRequest::ProvidePublicIPs => {
            public_ips(&state.summary)
        },
        ManagerRequest::PublicAddress(ip, port, nat_type, rule, transport) => {
            take_public_address(&mut state.summary, &mut state.waiting_for_settings, &state.running, ip, port, nat_type, rule, transport)
        },
        ManagerRequest::Quit => {
            state.quitting = true;
            quit_actions(&state.running)
        },
        ManagerRequest::JoinRandom(exclude) => {
            let to_exclude = match exclude {
                Some(e) => Some(e),
                None => Some(state.prev_join.duplicate()),
            };
            let joined = state.names.names();
            let have_swarms = state.running.len() > 0;
            match state.book.next_avail_neighboring_swarm(&joined, have_swarms, &to_exclude) {
                Some((n, g)) => {
                    state.prev_join = n.duplicate();
                    actions.push(ManagerAction::SelectedSwarm(Some(n.duplicate())));
                    actions.push(ManagerAction::RequestJoin(n, g));
                    assert(actions_view(actions@) =~= seq![ManagerActionView::SelectedSwarm(Some(state.prev_join@)), ManagerActionView::RequestJoin(state.prev_join@, g)]);
                    proof {
                        if have_swarms {
                            let nv = state.prev_join@;
                            assert(joinable(old(state).book@, names_view(joined@), name_opt_view(to_exclude), nv));
                            assert(old(state).book@.swarms.contains(nv) && !old(state).names@.dom().contains(nv));
                        }
                    }
                },
                None => {
                    actions.push(ManagerAction::SelectedSwarm(None));
                    assert(actions_view(actions@) =~= seq![ManagerActionView::SelectedSwarm(None)]);
                    proof {
                        assert forall|n: SwarmNameView| !(#[trigger] old(state).book@.swarms.contains(n) && !old(state).names@.dom().contains(n)
                            && name_opt_view(to_exclude) != Some(n)) by {
                            if old(state).book@.swarms.contains(n) && !old(state).names@.dom().contains(n)
                                && name_opt_view(to_exclude) != Some(n) {
                                assert(joinable(old(state).book@, names_view(joined@), name_opt_view(to_exclude), n));
                            }
                        }
                    }
                },
            }
            actions
        },
        ManagerRequest::JoinSwarm(name, aware) => {
            if state.waiting_for_neighbors.is_some() {
                let ghost q = queue_view(state.join_queue@);
                state.join_queue.push((name, aware));
                assert(queue_view(state.join_queue@) =~= q.push((name@, aware)));
                return actions;
            }
            if state.names.get(&name).is_some() {
                return actions;
            }
            actions = provide_actions(&state.book, &state.names, &name);
            let p: usize = actions.len();
            let ghost provided = actions_view(actions@);
            assert(actions_view(actions@).take(p as int) =~= provided);
            let taken = ids_of(&state.running);
            match next_avail_swarm_id(&taken) {
                None => {
                    return actions;
                },
                Some(id) => {
                    assert(lowest_free(running_ids(swarms_view(old(state).running@)), id));
                    let ghost running2 = swarms_view(state.running@).push((id, name@));
                    state.running.push((id, name.duplicate()));
                    assert(swarms_view(state.running@) =~= running2);
                    state.names.insert(name.duplicate(), id);
                    state.waiting_for_neighbors = Some(id);
                    actions.push(ManagerAction::StartSwarm(id, name.duplicate()));
                    actions.push(ManagerAction::StartNeighborTimer(id));
                    let ghost head = actions_view(actions@);
                    assert(head.skip(p as int) =~= seq![ManagerActionView::StartSwarm(id, name@), ManagerActionView::StartNeighborTimer(id)]);
                    assert(head.take(p as int) =~= provided);
                    if !name.founder.is_any() {
                        let notices = state.book.notify_other_swarms(&state.running, id, &name, aware);
                        let mut j: usize = 0;
                        while j < notices.len()
                            invariant
                                j <= notices@.len(),
                                actions@.len() == head.len() + j,
                                actions_view(actions@) == head + notice_actions(notices_view(notices@)).take(j as int),
                            decreases notices@.len() - j,
                        {
                            let via = notices[j].0;
                            let ids = copy_ids(&notices[j].1);
                            let ghost before = actions_view(actions@);
                            assert(notices_view(notices@)[j as int] == (via, seq_set(notices@[j as int].1@)));
                            assert(notice_actions(notices_view(notices@))[j as int] == ManagerActionView::Notify(via, seq_set(ids@)));
                            actions.push(ManagerAction::Notify(via, ids));
                            assert(actions_view(actions@) =~= before.push(ManagerActionView::Notify(via, seq_set(ids@))));
                            assert(notice_actions(notices_view(notices@)).take(j as int + 1) =~= notice_actions(notices_view(notices@)).take(j as int).push(ManagerActionView::Notify(via, seq_set(ids@))));
                            j = j + 1;
                            assert(actions_view(actions@) =~= head + notice_actions(notices_view(notices@)).take(j as int));
                        }
                        assert(notice_actions(notices_view(notices@)).take(notices@.len() as int) =~= notice_actions(notices_view(notices@)));
                        assert(actions_view(actions@).take(p as int) =~= provided);
                        assert(actions_view(actions@).skip(p as int) =~= seq![ManagerActionView::StartSwarm(id, name@), ManagerActionView::StartNeighborTimer(id)]
                            + notice_actions(notify_plan(old(state).book@, running2, id, name@, aware)));
                    } else {
                        assert(actions_view(actions@).skip(p as int) =~= seq![ManagerActionView::StartSwarm(id, name@), ManagerActionView::StartNeighborTimer(id)]
                            + seq![]);
                    }
                    return actions;
                },
            }
        },
        ManagerRequest::DisconnectSwarmIfNoNeighbors(s_id) => {
            let (waiting, what) = on_neighbor_timeout(state.waiting_for_neighbors, s_id);
            state.waiting_for_neighbors = waiting;
            match what {
                TimeoutAction::Disconnect => {
                    match running_name(&state.running, s_id) {
                        Some(n) => {
                            actions.push(ManagerAction::Disconnect(s_id));
                            actions.push(ManagerAction::ReportDisconnected(s_id, n));
                        },
                        None => {},
                    }
                },
                TimeoutAction::KeepWaiting => {},
                TimeoutAction::NextJoin => {
                    match pop_join(&mut state.join_queue) {
                        Some((name, aware)) => {
                            actions.push(ManagerAction::RequestJoin(name, aware));
                            assert(actions_view(actions@) =~= seq![ManagerActionView::RequestJoin(name@, aware)]);
                        },
                        None => {},
                    }
                },
            }
            actions
        },
        ManagerRequest::LeaveSwarm(s_id) => {
            match running_name(&state.running, s_id) {
                Some(n) => {
                    actions.push(ManagerAction::RemoveFromNetworking(n));
                    actions.push(ManagerAction::Disconnect(s_id));
                },
                None => {},
            }
            actions
        },
    }
}

} // verus!
