//! The gnome manager's bookkeeping: which swarms its neighbors are in, which
//! gnomes are neighbors in each swarm, and the decisions it takes on them:
//! which swarm id a new swarm gets, which swarm to join next, and which of the
//! joined swarms tell which neighbors about a new swarm.
use vstd::prelude::*;
use crate::networking::common::{names_view, GnomeId, SwarmName, SwarmNameView, ANY_FOUNDER};
use crate::networking::NetworkSettings;
use crate::networking::client::same_ip;

verus! {

/// Whether `s` holds `x`: the membership of a list seen as a set.
pub open spec fn seq_set<A>(s: Seq<A>) -> Set<A> {
    Set::new(|x: A| s.contains(x))
}

/// What a list holds after a push: what it held, and the pushed value.
pub proof fn lemma_push_contains<A>(s: Seq<A>, x: A, y: A)
    ensures
        s.push(x).contains(y) <==> (s.contains(y) || y == x),
{
    if s.contains(y) {
        let k = choose|k: int| 0 <= k < s.len() && s[k] == y;
        assert(s.push(x)[k] == y);
    }
    if y == x {
        assert(s.push(x)[s.len() as int] == x);
    }
    if s.push(x).contains(y) {
        let k = choose|k: int| 0 <= k < s.push(x).len() && s.push(x)[k] == y;
        if k < s.len() {
            assert(s[k] == y);
        }
    }
}

/// The set of a list after a push is the set before with the pushed value.
pub proof fn lemma_push_set<A>(s: Seq<A>, x: A)
    ensures
        seq_set(s.push(x)) == seq_set(s).insert(x),
{
    assert forall|y: A| seq_set(s.push(x)).contains(y) <==> seq_set(s).insert(x).contains(y) by {
        lemma_push_contains(s, x, y);
    }
    assert(seq_set(s.push(x)) =~= seq_set(s).insert(x));
}

/// What the manager knows of its neighbors: for each neighboring swarm, the
/// gnomes it is known through, and for each neighboring gnome, the swarms it is
/// in. A swarm or gnome can be known with no link at all.
pub struct NeighborBook {
    swarm_keys: Vec<SwarmName>,
    swarm_links: Vec<(SwarmName, u64)>,
    gnome_keys: Vec<u64>,
    gnome_links: Vec<(u64, SwarmName)>,
}

/// What a `NeighborBook` holds, as sets.
pub struct NeighborBookView {
    /// The neighboring swarms.
    pub swarms: Set<SwarmNameView>,
    /// Which gnomes each neighboring swarm is known through.
    pub swarm_gnomes: Set<(SwarmNameView, u64)>,
    /// The neighboring gnomes.
    pub gnomes: Set<u64>,
    /// Which swarms each neighboring gnome is in.
    pub gnome_swarms: Set<(u64, SwarmNameView)>,
}

/// The views of a list of (name, gnome) links.
pub open spec fn swarm_links_view(s: Seq<(SwarmName, u64)>) -> Seq<(SwarmNameView, u64)> {
    s.map_values(|p: (SwarmName, u64)| (p.0@, p.1))
}

/// The views of a list of (gnome, name) links.
pub open spec fn gnome_links_view(s: Seq<(u64, SwarmName)>) -> Seq<(u64, SwarmNameView)> {
    s.map_values(|p: (u64, SwarmName)| (p.0, p.1@))
}

impl View for NeighborBook {
    type V = NeighborBookView;

    closed spec fn view(&self) -> NeighborBookView {
        NeighborBookView {
            swarms: seq_set(names_view(self.swarm_keys@)),
            swarm_gnomes: seq_set(swarm_links_view(self.swarm_links@)),
            gnomes: seq_set(self.gnome_keys@),
            gnome_swarms: seq_set(gnome_links_view(self.gnome_links@)),
        }
    }
}

/// The gnomes a neighboring swarm is known through.
pub open spec fn gnomes_of(v: NeighborBookView, name: SwarmNameView) -> Set<u64> {
    Set::new(|g: u64| v.swarm_gnomes.contains((name, g)))
}

/// Whether every link of a swarm to a gnome is also a link of that gnome to the
/// swarm, and every link's swarm and gnome are known.
pub open spec fn book_consistent(v: NeighborBookView) -> bool {
    &&& forall|n: SwarmNameView, g: u64| #[trigger] v.swarm_gnomes.contains((n, g)) ==> v.gnome_swarms.contains((g, n))
    &&& forall|n: SwarmNameView, g: u64| #[trigger] v.swarm_gnomes.contains((n, g)) ==> v.swarms.contains(n)
    &&& forall|g: u64, n: SwarmNameView| #[trigger] v.gnome_swarms.contains((g, n)) ==> v.gnomes.contains(g)
}

/// Whether `names` holds `name`.
fn names_hold(names: &Vec<SwarmName>, name: &SwarmName) -> (r: bool)
    ensures
        r == names_view(names@).contains(name@),
{
    let mut i: usize = 0;
    while i < names.len()
        invariant
            i <= names@.len(),
            forall|k: int| 0 <= k < i ==> names@[k]@ != name@,
        decreases names@.len() - i,
    {
        if names[i].same_as(name) {
            assert(names_view(names@)[i as int] == name@);
            return true;
        }
        i = i + 1;
    }
    assert forall|k: int| 0 <= k < names_view(names@).len() implies names_view(names@)[k]
        != name@ by {
        assert(names_view(names@)[k] == names@[k]@);
    }
    false
}

/// Whether `ids` holds `id`.
fn ids_hold(ids: &Vec<u64>, id: u64) -> (r: bool)
    ensures
        r == ids@.contains(id),
{
    let mut i: usize = 0;
    while i < ids.len()
        invariant
            i <= ids@.len(),
            forall|k: int| 0 <= k < i ==> ids@[k] != id,
        decreases ids@.len() - i,
    {
        if ids[i] == id {
            return true;
        }
        i = i + 1;
    }
    false
}

/// Whether `links` holds the link of `name` to `g`.
fn swarm_link_held(links: &Vec<(SwarmName, u64)>, name: &SwarmName, g: u64) -> (r: bool)
    ensures
        r == swarm_links_view(links@).contains((name@, g)),
{
    let mut i: usize = 0;
    while i < links.len()
        invariant
            i <= links@.len(),
            forall|k: int| 0 <= k < i ==> swarm_links_view(links@)[k] != (name@, g),
        decreases links@.len() - i,
    {
        if links[i].1 == g && links[i].0.same_as(name) {
            assert(swarm_links_view(links@)[i as int] == (name@, g));
            return true;
        }
        i = i + 1;
    }
    false
}

/// Whether `links` holds the link of `g` to `name`.
fn gnome_link_held(links: &Vec<(u64, SwarmName)>, g: u64, name: &SwarmName) -> (r: bool)
    ensures
        r == gnome_links_view(links@).contains((g, name@)),
{
    let mut i: usize = 0;
    while i < links.len()
        invariant
            i <= links@.len(),
            forall|k: int| 0 <= k < i ==> gnome_links_view(links@)[k] != (g, name@),
        decreases links@.len() - i,
    {
        if links[i].0 == g && links[i].1.same_as(name) {
            assert(gnome_links_view(links@)[i as int] == (g, name@));
            return true;
        }
        i = i + 1;
    }
    false
}

impl NeighborBook {
    /// A book with no neighbors.
    pub fn new() -> (r: Self)
        ensures
            r@.swarms == Set::<SwarmNameView>::empty(),
            r@.swarm_gnomes == Set::<(SwarmNameView, u64)>::empty(),
            r@.gnomes == Set::<u64>::empty(),
            r@.gnome_swarms == Set::<(u64, SwarmNameView)>::empty(),
            book_consistent(r@),
    {
        let r = NeighborBook {
            swarm_keys: Vec::new(),
            swarm_links: Vec::new(),
            gnome_keys: Vec::new(),
            gnome_links: Vec::new(),
        };
        assert(r@.swarms =~= Set::<SwarmNameView>::empty());
        assert(r@.swarm_gnomes =~= Set::<(SwarmNameView, u64)>::empty());
        assert(r@.gnomes =~= Set::<u64>::empty());
        assert(r@.gnome_swarms =~= Set::<(u64, SwarmNameView)>::empty());
        r
    }

    /// Knows `name` as a neighboring swarm.
    fn know_swarm(&mut self, name: &SwarmName)
        ensures
            final(self)@ == (NeighborBookView { swarms: old(self)@.swarms.insert(name@), ..old(self)@ }),
    {
        if !names_hold(&self.swarm_keys, name) {
            let ghost before = names_view(self.swarm_keys@);
            self.swarm_keys.push(name.duplicate());
            assert(names_view(self.swarm_keys@) =~= before.push(name@));
            proof {
                lemma_push_set(before, name@);
            }
        } else {
            assert(seq_set(names_view(self.swarm_keys@)) =~= old(self)@.swarms.insert(name@));
        }
    }

    /// Knows `g` as a neighboring gnome.
    fn know_gnome(&mut self, g: u64)
        ensures
            final(self)@ == (NeighborBookView { gnomes: old(self)@.gnomes.insert(g), ..old(self)@ }),
    {
        if !ids_hold(&self.gnome_keys, g) {
            let ghost before = self.gnome_keys@;
            self.gnome_keys.push(g);
            proof {
                lemma_push_set(before, g);
            }
        } else {
            assert(seq_set(self.gnome_keys@) =~= old(self)@.gnomes.insert(g));
        }
    }

    /// Adds the link of `name` to `g`.
    fn add_swarm_link(&mut self, name: &SwarmName, g: u64)
        ensures
            final(self)@ == (NeighborBookView {
                swarm_gnomes: old(self)@.swarm_gnomes.insert((name@, g)),
                ..old(self)@
            }),
    {
        if !swarm_link_held(&self.swarm_links, name, g) {
            let ghost before = swarm_links_view(self.swarm_links@);
            self.swarm_links.push((name.duplicate(), g));
            assert(swarm_links_view(self.swarm_links@) =~= before.push((name@, g)));
            proof {
                lemma_push_set(before, (name@, g));
            }
        } else {
            assert(seq_set(swarm_links_view(self.swarm_links@)) =~= old(self)@.swarm_gnomes.insert(
                (name@, g),
            ));
        }
    }

    /// Adds the link of `g` to `name`.
    fn add_gnome_link(&mut self, g: u64, name: &SwarmName)
        ensures
            final(self)@ == (NeighborBookView {
                gnome_swarms: old(self)@.gnome_swarms.insert((g, name@)),
                ..old(self)@
            }),
    {
        if !gnome_link_held(&self.gnome_links, g, name) {
            let ghost before = gnome_links_view(self.gnome_links@);
            self.gnome_links.push((g, name.duplicate()));
            assert(gnome_links_view(self.gnome_links@) =~= before.push((g, name@)));
            proof {
                lemma_push_set(before, (g, name@));
            }
        } else {
            assert(seq_set(gnome_links_view(self.gnome_links@)) =~= old(self)@.gnome_swarms.insert(
                (g, name@),
            ));
        }
    }

    /// Records that gnome `g` is a neighbor in swarm `name`.
    pub fn link(&mut self, name: &SwarmName, g: u64)
        ensures
            final(self)@.swarms == old(self)@.swarms.insert(name@),
            final(self)@.swarm_gnomes == old(self)@.swarm_gnomes.insert((name@, g)),
            final(self)@.gnomes == old(self)@.gnomes.insert(g),
            final(self)@.gnome_swarms == old(self)@.gnome_swarms.insert((g, name@)),
    {
        self.know_swarm(name);
        self.add_swarm_link(name, g);
        self.know_gnome(g);
        self.add_gnome_link(g, name);
    }

    /// Drops the links of swarms to gnomes that `drop` picks: those of `name` to
    /// `g`, or all of `name` where `g` is `None`.
    fn drop_swarm_links(&mut self, name: &SwarmName, g: Option<u64>)
        ensures
            final(self)@ == (NeighborBookView {
                swarm_gnomes: Set::new(
                    |p: (SwarmNameView, u64)|
                        old(self)@.swarm_gnomes.contains(p) && !(p.0 == name@ && (g is None
                            || g == Some(p.1))),
                ),
                ..old(self)@
            }),
    {
        let ghost old_links = swarm_links_view(self.swarm_links@);
        let mut kept: Vec<(SwarmName, u64)> = Vec::new();
        let mut i: usize = 0;
        while i < self.swarm_links.len()
            invariant
                i <= self.swarm_links@.len(),
                old_links == swarm_links_view(self.swarm_links@),
                forall|p: (SwarmNameView, u64)| #[trigger] swarm_links_view(kept@).contains(p) <==> (
                    old_links.take(i as int).contains(p) && !(p.0 == name@ && (g is None || g
                        == Some(p.1)))),
            decreases self.swarm_links@.len() - i,
        {
            let ghost before = swarm_links_view(kept@);
            assert(old_links.take(i as int + 1) =~= old_links.take(i as int).push(old_links[i as int]));
            let link_g = self.swarm_links[i].1;
            let picked = self.swarm_links[i].0.same_as(name) && match g {
                None => true,
                Some(x) => x == link_g,
            };
            if !picked {
                kept.push((self.swarm_links[i].0.duplicate(), link_g));
                assert(swarm_links_view(kept@) =~= before.push(old_links[i as int]));
            }
            assert forall|p: (SwarmNameView, u64)| #[trigger] swarm_links_view(kept@).contains(p) <==> (
                old_links.take(i as int + 1).contains(p) && !(p.0 == name@ && (g is None || g
                    == Some(p.1)))) by {
                lemma_push_contains(old_links.take(i as int), old_links[i as int], p);
                lemma_push_contains(before, old_links[i as int], p);
            }
            i = i + 1;
        }
        assert(old_links.take(i as int) =~= old_links);
        self.swarm_links = kept;
        assert(seq_set(swarm_links_view(self.swarm_links@)) =~= Set::new(
            |p: (SwarmNameView, u64)|
                old(self)@.swarm_gnomes.contains(p) && !(p.0 == name@ && (g is None || g == Some(
                    p.1,
                ))),
        ));
    }

    /// Drops the link of gnome `g` to swarm `name`.
    fn drop_gnome_link(&mut self, g: u64, name: &SwarmName)
        ensures
            final(self)@ == (NeighborBookView {
                gnome_swarms: old(self)@.gnome_swarms.remove((g, name@)),
                ..old(self)@
            }),
    {
        let ghost old_links = gnome_links_view(self.gnome_links@);
        let mut kept: Vec<(u64, SwarmName)> = Vec::new();
        let mut i: usize = 0;
        while i < self.gnome_links.len()
            invariant
                i <= self.gnome_links@.len(),
                old_links == gnome_links_view(self.gnome_links@),
                forall|p: (u64, SwarmNameView)| #[trigger] gnome_links_view(kept@).contains(p) <==> (
                    old_links.take(i as int).contains(p) && p != (g, name@)),
            decreases self.gnome_links@.len() - i,
        {
            let ghost before = gnome_links_view(kept@);
            assert(old_links.take(i as int + 1) =~= old_links.take(i as int).push(old_links[i as int]));
            let link_g = self.gnome_links[i].0;
            if !(link_g == g && self.gnome_links[i].1.same_as(name)) {
                kept.push((link_g, self.gnome_links[i].1.duplicate()));
                assert(gnome_links_view(kept@) =~= before.push(old_links[i as int]));
            }
            assert forall|p: (u64, SwarmNameView)| #[trigger] gnome_links_view(kept@).contains(p) <==> (
                old_links.take(i as int + 1).contains(p) && p != (g, name@)) by {
                lemma_push_contains(old_links.take(i as int), old_links[i as int], p);
                lemma_push_contains(before, old_links[i as int], p);
            }
            i = i + 1;
        }
        assert(old_links.take(i as int) =~= old_links);
        self.gnome_links = kept;
        assert(seq_set(gnome_links_view(self.gnome_links@)) =~= old(self)@.gnome_swarms.remove(
            (g, name@),
        ));
    }

    /// Drops swarm `name` from the neighboring swarms.
    fn drop_swarm_key(&mut self, name: &SwarmName)
        ensures
            final(self)@ == (NeighborBookView { swarms: old(self)@.swarms.remove(name@), ..old(self)@ }),
    {
        let ghost old_keys = names_view(self.swarm_keys@);
        let mut kept: Vec<SwarmName> = Vec::new();
        let mut i: usize = 0;
        while i < self.swarm_keys.len()
            invariant
                i <= self.swarm_keys@.len(),
                old_keys == names_view(self.swarm_keys@),
                forall|n: SwarmNameView| #[trigger] names_view(kept@).contains(n) <==> (
                    old_keys.take(i as int).contains(n) && n != name@),
            decreases self.swarm_keys@.len() - i,
        {
            let ghost before = names_view(kept@);
            assert(old_keys.take(i as int + 1) =~= old_keys.take(i as int).push(old_keys[i as int]));
            if !self.swarm_keys[i].same_as(name) {
                kept.push(self.swarm_keys[i].duplicate());
                assert(names_view(kept@) =~= before.push(old_keys[i as int]));
            }
            assert forall|n: SwarmNameView| #[trigger] names_view(kept@).contains(n) <==> (
                old_keys.take(i as int + 1).contains(n) && n != name@) by {
                lemma_push_contains(old_keys.take(i as int), old_keys[i as int], n);
                lemma_push_contains(before, old_keys[i as int], n);
            }
            i = i + 1;
        }
        assert(old_keys.take(i as int) =~= old_keys);
        self.swarm_keys = kept;
        assert(seq_set(names_view(self.swarm_keys@)) =~= old(self)@.swarms.remove(name@));
    }

    /// Records that gnome `g` left swarm `name`.
    pub fn unlink(&mut self, name: &SwarmName, g: u64)
        ensures
            final(self)@.swarms == old(self)@.swarms,
            final(self)@.swarm_gnomes == old(self)@.swarm_gnomes.remove((name@, g)),
            final(self)@.gnomes == old(self)@.gnomes,
            final(self)@.gnome_swarms == old(self)@.gnome_swarms.remove((g, name@)),
    {
        self.drop_gnome_link(g, name);
        self.drop_swarm_links(name, Some(g));
        assert(self@.swarm_gnomes =~= old(self)@.swarm_gnomes.remove((name@, g)));
    }

    /// Records that the neighbors in swarm `name` are now exactly `ids`.
    pub fn set_neighbors(&mut self, name: &SwarmName, ids: &Vec<u64>)
        ensures
            final(self)@.swarms == old(self)@.swarms.insert(name@),
            final(self)@.swarm_gnomes == Set::new(
                |p: (SwarmNameView, u64)|
                    (old(self)@.swarm_gnomes.contains(p) && p.0 != name@) || (p.0 == name@
                        && ids@.contains(p.1)),
            ),
            final(self)@.gnomes == old(self)@.gnomes.union(seq_set(ids@)),
            final(self)@.gnome_swarms == old(self)@.gnome_swarms.union(
                Set::new(|p: (u64, SwarmNameView)| ids@.contains(p.0) && p.1 == name@),
            ),
    {
        let ghost start = self@;
        self.drop_swarm_links(name, None);
        self.know_swarm(name);
        let mut i: usize = 0;
        while i < ids.len()
            invariant
                i <= ids@.len(),
                self@.swarms == start.swarms.insert(name@),
                self@.swarm_gnomes == Set::new(
                    |p: (SwarmNameView, u64)|
                        (start.swarm_gnomes.contains(p) && p.0 != name@) || (p.0 == name@
                            && ids@.take(i as int).contains(p.1)),
                ),
                self@.gnomes == start.gnomes.union(seq_set(ids@.take(i as int))),
                self@.gnome_swarms == start.gnome_swarms.union(
                    Set::new(|p: (u64, SwarmNameView)| ids@.take(i as int).contains(p.0) && p.1 == name@),
                ),
            decreases ids@.len() - i,
        {
            let g = ids[i];
            let ghost v0 = self@;
            self.add_swarm_link(name, g);
            self.know_gnome(g);
            self.add_gnome_link(g, name);
            assert(ids@.take(i as int + 1) =~= ids@.take(i as int).push(g));
            assert forall|p: (SwarmNameView, u64)| #[trigger] self@.swarm_gnomes.contains(p) <==> (
                (start.swarm_gnomes.contains(p) && p.0 != name@) || (p.0 == name@ && ids@.take(
                    i as int + 1,
                ).contains(p.1))) by {
                lemma_push_contains(ids@.take(i as int), g, p.1);
            }
            assert forall|x: u64| #[trigger] self@.gnomes.contains(x) <==> start.gnomes.union(
                seq_set(ids@.take(i as int + 1)),
            ).contains(x) by {
                lemma_push_contains(ids@.take(i as int), g, x);
            }
            assert forall|p: (u64, SwarmNameView)| #[trigger] self@.gnome_swarms.contains(p) <==> start.gnome_swarms.union(
                Set::new(|q: (u64, SwarmNameView)| ids@.take(i as int + 1).contains(q.0) && q.1 == name@),
            ).contains(p) by {
                lemma_push_contains(ids@.take(i as int), g, p.0);
            }
            assert(self@.swarm_gnomes =~= Set::new(
                |p: (SwarmNameView, u64)|
                    (start.swarm_gnomes.contains(p) && p.0 != name@) || (p.0 == name@ && ids@.take(
                        i as int + 1,
                    ).contains(p.1)),
            ));
            assert(self@.gnomes =~= start.gnomes.union(seq_set(ids@.take(i as int + 1))));
            assert(self@.gnome_swarms =~= start.gnome_swarms.union(
                Set::new(|q: (u64, SwarmNameView)| ids@.take(i as int + 1).contains(q.0) && q.1 == name@),
            ));
            i = i + 1;
        }
        assert(ids@.take(i as int) =~= ids@);
    }

    /// Forgets swarm `name`, once it is disconnected: its links, and the links
    /// of the gnomes it was known through to it.
    pub fn forget_swarm(&mut self, name: &SwarmName)
        ensures
            !old(self)@.swarms.contains(name@) ==> final(self)@ == old(self)@,
            old(self)@.swarms.contains(name@) ==> final(self)@ == (NeighborBookView {
                swarms: old(self)@.swarms.remove(name@),
                swarm_gnomes: Set::new(
                    |p: (SwarmNameView, u64)| old(self)@.swarm_gnomes.contains(p) && p.0 != name@,
                ),
                gnomes: old(self)@.gnomes,
                gnome_swarms: Set::new(
                    |p: (u64, SwarmNameView)|
                        old(self)@.gnome_swarms.contains(p) && !(p.1 == name@
                            && old(self)@.swarm_gnomes.contains((name@, p.0))),
                ),
            }),
    {
        let ghost start = self@;
        match self.neighbors_of(name) {
            None => {},
            Some(ids) => {
                let mut i: usize = 0;
                while i < ids.len()
                    invariant
                        i <= ids@.len(),
                        seq_set(ids@) == gnomes_of(start, name@),
                        self@.swarms == start.swarms,
                        self@.swarm_gnomes == start.swarm_gnomes,
                        self@.gnomes == start.gnomes,
                        self@.gnome_swarms == Set::new(
                            |p: (u64, SwarmNameView)|
                                start.gnome_swarms.contains(p) && !(p.1 == name@
                                    && ids@.take(i as int).contains(p.0)),
                        ),
                    decreases ids@.len() - i,
                {
                    let g = ids[i];
                    self.drop_gnome_link(g, name);
                    assert(ids@.take(i as int + 1) =~= ids@.take(i as int).push(g));
                    assert forall|p: (u64, SwarmNameView)| #[trigger] self@.gnome_swarms.contains(p) <==> (
                        start.gnome_swarms.contains(p) && !(p.1 == name@ && ids@.take(
                            i as int + 1,
                        ).contains(p.0))) by {
                        lemma_push_contains(ids@.take(i as int), g, p.0);
                    }
                    assert(self@.gnome_swarms =~= Set::new(
                        |p: (u64, SwarmNameView)|
                            start.gnome_swarms.contains(p) && !(p.1 == name@ && ids@.take(
                                i as int + 1,
                            ).contains(p.0)),
                    ));
                    i = i + 1;
                }
                assert(ids@.take(i as int) =~= ids@);
                assert forall|g: u64| ids@.contains(g) <==> start.swarm_gnomes.contains((name@, g)) by {
                    assert(seq_set(ids@).contains(g) == gnomes_of(start, name@).contains(g));
                }
                self.drop_swarm_key(name);
                self.drop_swarm_links(name, None);
                assert(self@.gnome_swarms =~= Set::new(
                    |p: (u64, SwarmNameView)|
                        start.gnome_swarms.contains(p) && !(p.1 == name@ && start.swarm_gnomes.contains(
                            (name@, p.0),
                        )),
                ));
                assert(self@.swarm_gnomes =~= Set::new(
                    |p: (SwarmNameView, u64)| start.swarm_gnomes.contains(p) && p.0 != name@,
                ));
            },
        }
    }

    /// The gnomes that neighboring swarm `name` is known through, or `None`
    /// where the swarm is not known.
    pub fn neighbors_of(&self, name: &SwarmName) -> (r: Option<Vec<u64>>)
        ensures
            r is None <==> !self@.swarms.contains(name@),
            r matches Some(ids) ==> seq_set(ids@) == gnomes_of(self@, name@),
    {
        if !names_hold(&self.swarm_keys, name) {
            return None;
        }
        let mut ids: Vec<u64> = Vec::new();
        let ghost links = swarm_links_view(self.swarm_links@);
        let mut i: usize = 0;
        while i < self.swarm_links.len()
            invariant
                i <= self.swarm_links@.len(),
                links == swarm_links_view(self.swarm_links@),
                forall|g: u64| #[trigger] ids@.contains(g) <==> links.take(i as int).contains((name@, g)),
            decreases self.swarm_links@.len() - i,
        {
            let ghost before = ids@;
            assert(links.take(i as int + 1) =~= links.take(i as int).push(links[i as int]));
            if self.swarm_links[i].0.same_as(name) {
                let g = self.swarm_links[i].1;
                ids.push(g);
                assert forall|h: u64| #[trigger] ids@.contains(h) <==> links.take(i as int + 1).contains((name@, h)) by {
                    lemma_push_contains(before, g, h);
                    lemma_push_contains(links.take(i as int), links[i as int], (name@, h));
                }
            } else {
                assert forall|h: u64| #[trigger] ids@.contains(h) <==> links.take(i as int + 1).contains((name@, h)) by {
                    lemma_push_contains(links.take(i as int), links[i as int], (name@, h));
                }
            }
            i = i + 1;
        }
        assert(links.take(i as int) =~= links);
        assert(seq_set(ids@) =~= gnomes_of(self@, name@));
        Some(ids)
    }
}

/// The root swarm's name: any founder, named "/".
pub open spec fn root_swarm() -> SwarmNameView {
    SwarmNameView { founder: ANY_FOUNDER, name: seq!['/'] }
}

/// The view of a name, where there is one.
pub open spec fn name_opt_view(o: Option<SwarmName>) -> Option<SwarmNameView> {
    match o {
        Some(n) => Some(n@),
        None => None,
    }
}

/// Whether `n` is a swarm the manager may join next: a neighboring swarm not
/// joined yet, other than `exclude`.
pub open spec fn joinable(v: NeighborBookView, joined: Seq<SwarmNameView>, exclude: Option<SwarmNameView>, n: SwarmNameView) -> bool {
    &&& v.swarms.contains(n)
    &&& !joined.contains(n)
    &&& exclude != Some(n)
}

impl NeighborBook {
    /// The first gnome that swarm `name` is known through, if there is one.
    fn first_neighbor(&self, name: &SwarmName) -> (r: Option<u64>)
        ensures
            r matches Some(g) ==> self@.swarm_gnomes.contains((name@, g)),
            r is None ==> gnomes_of(self@, name@) == Set::<u64>::empty(),
    {
        let ghost links = swarm_links_view(self.swarm_links@);
        let mut i: usize = 0;
        while i < self.swarm_links.len()
            invariant
                i <= self.swarm_links@.len(),
                links == swarm_links_view(self.swarm_links@),
                forall|k: int| 0 <= k < i ==> (#[trigger] links[k]).0 != name@,
            decreases self.swarm_links@.len() - i,
        {
            if self.swarm_links[i].0.same_as(name) {
                assert(links[i as int] == (name@, self.swarm_links@[i as int].1));
                return Some(self.swarm_links[i].1);
            }
            i = i + 1;
        }
        assert forall|g: u64| !gnomes_of(self@, name@).contains(g) by {
            if links.contains((name@, g)) {
                let k = choose|k: int| 0 <= k < links.len() && links[k] == (name@, g);
                assert(links[k].0 == name@);
            }
        }
        assert(gnomes_of(self@, name@) =~= Set::<u64>::empty());
        None
    }

    /// The swarm to join next, with a gnome it is known through where there is
    /// one. Where no swarm is joined yet, the root swarm. Else a neighboring
    /// swarm not joined yet, other than `exclude`; `None` where there is none.
    pub fn next_avail_neighboring_swarm(
        &self,
        joined: &Vec<SwarmName>,
        have_swarms: bool,
        exclude: &Option<SwarmName>,
    ) -> (r: Option<(SwarmName, Option<u64>)>)
        ensures
            !have_swarms ==> (r matches Some((n, g)) && n@ == root_swarm() && g is None),
            have_swarms ==> (r is None <==> !exists|n: SwarmNameView|
                joinable(self@, names_view(joined@), name_opt_view(*exclude), n)),
            have_swarms ==> (r matches Some((n, g)) ==> joinable(
                self@,
                names_view(joined@),
                name_opt_view(*exclude),
                n@,
            ) && match g {
                Some(x) => self@.swarm_gnomes.contains((n@, x)),
                None => gnomes_of(self@, n@) == Set::<u64>::empty(),
            }),
    {
        if !have_swarms {
            let root = "/";
            proof {
                reveal_strlit("/");
            }
            let root_name = root.to_owned();
            assert(root_name@ =~= seq!['/']);
            return Some((SwarmName { founder: GnomeId::any(), name: root_name }, None));
        }
        let ghost keys = names_view(self.swarm_keys@);
        let ghost ex = name_opt_view(*exclude);
        let mut i: usize = 0;
        while i < self.swarm_keys.len()
            invariant
                i <= self.swarm_keys@.len(),
                keys == names_view(self.swarm_keys@),
                ex == name_opt_view(*exclude),
                have_swarms,
                forall|k: int| 0 <= k < i ==> !joinable(self@, names_view(joined@), ex, #[trigger] keys[k]),
            decreases self.swarm_keys@.len() - i,
        {
            let name = &self.swarm_keys[i];
            assert(keys[i as int] == name@);
            assert(keys.contains(name@));
            let excluded = match exclude {
                Some(e) => e.same_as(name),
                None => false,
            };
            if !excluded && !names_hold(joined, name) {
                assert(ex != Some(name@));
                assert(self@.swarms.contains(name@));
                assert(joinable(self@, names_view(joined@), ex, name@));
                let g = self.first_neighbor(name);
                return Some((name.duplicate(), g));
            }
            i = i + 1;
        }
        assert forall|n: SwarmNameView| !joinable(self@, names_view(joined@), ex, n) by {
            if keys.contains(n) {
                let k = choose|k: int| 0 <= k < keys.len() && keys[k] == n;
                assert(!joinable(self@, names_view(joined@), ex, keys[k]));
            }
        }
        None
    }
}

/// The notices the joined swarms send out about a new swarm, from the first of
/// `swarms` on, to the gnomes in `not_yet`: the new swarm's own id `skip` is
/// passed over; a swarm that is a neighboring swarm tells those of its
/// neighbors not told yet, and is passed over where there are none; a swarm
/// that is not sends a notice to no one. Once everyone is told, no more
/// notices go out.
pub open spec fn notify_from(
    v: NeighborBookView,
    swarms: Seq<(u8, SwarmNameView)>,
    skip: u8,
    not_yet: Set<u64>,
) -> Seq<(u8, Set<u64>)>
    decreases swarms.len(),
{
    if swarms.len() == 0 {
        seq![]
    } else {
        let id = swarms[0].0;
        let cur = swarms[0].1;
        let rest = swarms.drop_first();
        if id == skip {
            notify_from(v, rest, skip, not_yet)
        } else if v.swarms.contains(cur) {
            let inter = not_yet.intersect(gnomes_of(v, cur));
            if inter == Set::<u64>::empty() {
                notify_from(v, rest, skip, not_yet)
            } else {
                let left = not_yet.difference(inter);
                seq![(id, inter)] + if left == Set::<u64>::empty() {
                    Seq::<(u8, Set<u64>)>::empty()
                } else {
                    notify_from(v, rest, skip, left)
                }
            }
        } else {
            seq![(id, Set::<u64>::empty())] + notify_from(v, rest, skip, not_yet)
        }
    }
}

/// The neighboring gnomes that do not know of swarm `name` yet: all but those
/// it is known through and the gnome that told us of it.
pub open spec fn not_yet_notified(v: NeighborBookView, name: SwarmNameView, aware: Option<u64>) -> Set<u64> {
    let known = if v.swarms.contains(name) {
        gnomes_of(v, name)
    } else {
        Set::<u64>::empty()
    };
    let told = match aware {
        Some(g) => known.insert(g),
        None => known,
    };
    v.gnomes.difference(told)
}

/// The notices about newly joined swarm `name` (with id `swarm_id`), where
/// anyone is left to tell.
pub open spec fn notify_plan(
    v: NeighborBookView,
    swarms: Seq<(u8, SwarmNameView)>,
    swarm_id: u8,
    name: SwarmNameView,
    aware: Option<u64>,
) -> Seq<(u8, Set<u64>)> {
    let not_yet = not_yet_notified(v, name, aware);
    if not_yet == Set::<u64>::empty() {
        seq![]
    } else {
        notify_from(v, swarms, swarm_id, not_yet)
    }
}

/// The views of the joined swarms: id and name.
pub open spec fn swarms_view(s: Seq<(u8, SwarmName)>) -> Seq<(u8, SwarmNameView)> {
    s.map_values(|p: (u8, SwarmName)| (p.0, p.1@))
}

/// The views of notices: swarm id and the set of gnomes to tell.
pub open spec fn notices_view(s: Seq<(u8, Vec<u64>)>) -> Seq<(u8, Set<u64>)> {
    s.map_values(|p: (u8, Vec<u64>)| (p.0, seq_set(p.1@)))
}

/// A list is empty exactly where its set is.
pub proof fn lemma_empty_set<A>(s: Seq<A>)
    ensures
        (s.len() == 0) == (seq_set(s) == Set::<A>::empty()),
{
    if s.len() > 0 {
        assert(seq_set(s).contains(s[0]));
    } else {
        assert(seq_set(s) =~= Set::<A>::empty());
    }
}

/// The ids of `src` that `other` holds (where `keep_in`) or does not hold.
fn filter_ids(src: &Vec<u64>, other: &Vec<u64>, keep_in: bool) -> (r: Vec<u64>)
    ensures
        seq_set(r@) == if keep_in {
            seq_set(src@).intersect(seq_set(other@))
        } else {
            seq_set(src@).difference(seq_set(other@))
        },
{
    let mut r: Vec<u64> = Vec::new();
    let mut i: usize = 0;
    while i < src.len()
        invariant
            i <= src@.len(),
            forall|x: u64| #[trigger] r@.contains(x) <==> (src@.take(i as int).contains(x) && (
                other@.contains(x) == keep_in)),
        decreases src@.len() - i,
    {
        let x = src[i];
        let ghost before = r@;
        assert(src@.take(i as int + 1) =~= src@.take(i as int).push(x));
        if ids_hold(other, x) == keep_in {
            r.push(x);
        }
        assert forall|y: u64| #[trigger] r@.contains(y) <==> (src@.take(i as int + 1).contains(y) && (
            other@.contains(y) == keep_in)) by {
            lemma_push_contains(src@.take(i as int), x, y);
            lemma_push_contains(before, x, y);
        }
        i = i + 1;
    }
    assert(src@.take(i as int) =~= src@);
    let ghost expected = if keep_in {
        seq_set(src@).intersect(seq_set(other@))
    } else {
        seq_set(src@).difference(seq_set(other@))
    };
    assert(seq_set(r@) =~= expected);
    r
}

impl NeighborBook {
    /// The notices that the joined `swarms` send about newly joined swarm
    /// `swarm_name` (with id `swarm_id`), which `aware_gnome` told us of: for
    /// each joined swarm in turn, the neighbors it tells.
    pub fn notify_other_swarms(
        &self,
        swarms: &Vec<(u8, SwarmName)>,
        swarm_id: u8,
        swarm_name: &SwarmName,
        aware_gnome: Option<u64>,
    ) -> (r: Vec<(u8, Vec<u64>)>)
        ensures
            notices_view(r@) == notify_plan(self@, swarms_view(swarms@), swarm_id, swarm_name@, aware_gnome),
    {
        let ghost v = self@;
        let ghost sv = swarms_view(swarms@);
        let mut told: Vec<u64> = match self.neighbors_of(swarm_name) {
            Some(ids) => ids,
            None => Vec::new(),
        };
        assert(seq_set(told@) == (if v.swarms.contains(swarm_name@) { gnomes_of(v, swarm_name@) } else { Set::<u64>::empty() })) by {
            if !v.swarms.contains(swarm_name@) {
                assert(seq_set(told@) =~= Set::<u64>::empty());
            }
        }
        if let Some(g) = aware_gnome {
            let ghost before = told@;
            told.push(g);
            proof {
                lemma_push_set(before, g);
            }
        }
        let mut not_yet = filter_ids(&self.gnome_keys, &told, false);
        assert(seq_set(not_yet@) =~= not_yet_notified(v, swarm_name@, aware_gnome));
        let mut plan: Vec<(u8, Vec<u64>)> = Vec::new();
        proof {
            lemma_empty_set(not_yet@);
        }
        if not_yet.len() == 0 {
            assert(notices_view(plan@) =~= Seq::<(u8, Set<u64>)>::empty());
            return plan;
        }
        let ghost goal = notify_plan(v, sv, swarm_id, swarm_name@, aware_gnome);
        assert(sv.skip(0) =~= sv);
        assert(notices_view(plan@) + notify_from(v, sv.skip(0), swarm_id, seq_set(not_yet@)) =~= goal);
        let mut done = false;
        let mut i: usize = 0;
        while i < swarms.len() && !done
            invariant
                i <= swarms@.len(),
                v == self@,
                sv == swarms_view(swarms@),
                goal == notify_plan(v, sv, swarm_id, swarm_name@, aware_gnome),
                done ==> notices_view(plan@) == goal,
                !done ==> not_yet@.len() > 0,
                !done ==> notices_view(plan@) + notify_from(v, sv.skip(i as int), swarm_id, seq_set(not_yet@)) == goal,
            decreases swarms@.len() - i,
        {
            let id = swarms[i].0;
            let ghost cur = swarms@[i as int].1@;
            let ghost ny = seq_set(not_yet@);
            let ghost rest = sv.skip(i as int + 1);
            assert(sv.skip(i as int)[0] == (id, cur));
            assert(sv.skip(i as int).drop_first() =~= rest);
            let ghost before = notices_view(plan@);
            proof {
                lemma_empty_set(not_yet@);
            }
            if id != swarm_id {
                match self.neighbors_of(&swarms[i].1) {
                    Some(cur_ids) => {
                        let inter = filter_ids(&not_yet, &cur_ids, true);
                        proof {
                            lemma_empty_set(inter@);
                        }
                        assert(seq_set(inter@) == ny.intersect(gnomes_of(v, cur)));
                        if inter.len() > 0 {
                            let left = filter_ids(&not_yet, &inter, false);
                            proof {
                                lemma_empty_set(left@);
                            }
                            assert(seq_set(left@) == ny.difference(seq_set(inter@)));
                            let ghost inter_set = seq_set(inter@);
                            plan.push((id, inter));
                            assert(notices_view(plan@) =~= before.push((id, inter_set)));
                            if left.len() == 0 {
                                done = true;
                                assert(notices_view(plan@) =~= before + seq![(id, inter_set)]);
                            } else {
                                not_yet = left;
                                assert(before + notify_from(v, sv.skip(i as int), swarm_id, ny) == before + (seq![(id, inter_set)] + notify_from(v, rest, swarm_id, seq_set(not_yet@))));
                                assert(notices_view(plan@) + notify_from(v, rest, swarm_id, seq_set(not_yet@)) =~= before + (seq![(id, inter_set)] + notify_from(v, rest, swarm_id, seq_set(not_yet@))));
                            }
                        }
                    },
                    None => {
                        let empty: Vec<u64> = Vec::new();
                        plan.push((id, empty));
                        assert(seq_set(Seq::<u64>::empty()) =~= Set::<u64>::empty());
                        assert(notices_view(plan@) =~= before.push((id, Set::<u64>::empty())));
                        assert(notices_view(plan@) + notify_from(v, rest, swarm_id, ny) =~= before + (seq![(id, Set::<u64>::empty())] + notify_from(v, rest, swarm_id, ny)));
                    },
                }
            }
            i = i + 1;
        }
        if !done {
            assert(sv.skip(i as int) =~= Seq::<(u8, SwarmNameView)>::empty());
            assert(notices_view(plan@) + Seq::<(u8, Set<u64>)>::empty() =~= notices_view(plan@));
        }
        plan
    }
}

/// Notices about a new swarm go to each gnome at most once, only to gnomes
/// that did not know of it, and never through the new swarm itself.
pub proof fn lemma_notices_sound(
    v: NeighborBookView,
    swarms: Seq<(u8, SwarmNameView)>,
    skip: u8,
    not_yet: Set<u64>,
)
    ensures
        forall|k: int| 0 <= k < notify_from(v, swarms, skip, not_yet).len() ==> {
            &&& (#[trigger] notify_from(v, swarms, skip, not_yet)[k]).1.subset_of(not_yet)
            &&& notify_from(v, swarms, skip, not_yet)[k].0 != skip
        },
        forall|j: int, k: int| 0 <= j < k < notify_from(v, swarms, skip, not_yet).len() ==>
            (#[trigger] notify_from(v, swarms, skip, not_yet)[j]).1.disjoint(
                #[trigger] notify_from(v, swarms, skip, not_yet)[k].1,
            ),
    decreases swarms.len(),
{
    if swarms.len() > 0 {
        let id = swarms[0].0;
        let cur = swarms[0].1;
        let rest = swarms.drop_first();
        let plan = notify_from(v, swarms, skip, not_yet);
        if id == skip {
            lemma_notices_sound(v, rest, skip, not_yet);
            assert(plan == notify_from(v, rest, skip, not_yet));
        } else if v.swarms.contains(cur) {
            let inter = not_yet.intersect(gnomes_of(v, cur));
            if inter == Set::<u64>::empty() {
                lemma_notices_sound(v, rest, skip, not_yet);
                assert(plan == notify_from(v, rest, skip, not_yet));
            } else {
                let left = not_yet.difference(inter);
                assert(inter.subset_of(not_yet));
                if left == Set::<u64>::empty() {
                    assert(plan =~= seq![(id, inter)]);
                    assert(plan[0].1.subset_of(not_yet));
                } else {
                    lemma_notices_sound(v, rest, skip, left);
                    let tail = notify_from(v, rest, skip, left);
                    assert(plan == seq![(id, inter)] + tail);
                    assert forall|k: int| 0 <= k < plan.len() implies (#[trigger] plan[k]).1.subset_of(not_yet) && plan[k].0 != skip by {
                        if k > 0 {
                            assert(plan[k] == tail[k - 1]);
                        }
                    }
                    assert forall|j: int, k: int| 0 <= j < k < plan.len() implies (#[trigger] plan[j]).1.disjoint(#[trigger] plan[k].1) by {
                        assert(plan[k] == tail[k - 1]);
                        if j > 0 {
                            assert(plan[j] == tail[j - 1]);
                        } else {
                            assert(tail[k - 1].1.subset_of(left));
                            assert forall|a: u64| !(inter.contains(a) && tail[k - 1].1.contains(a)) by {
                                if tail[k - 1].1.contains(a) {
                                    assert(left.contains(a));
                                }
                            }
                        }
                    }
                }
            }
        } else {
            lemma_notices_sound(v, rest, skip, not_yet);
            let tail = notify_from(v, rest, skip, not_yet);
            assert(plan == seq![(id, Set::<u64>::empty())] + tail);
            assert forall|k: int| 0 <= k < plan.len() implies (#[trigger] plan[k]).1.subset_of(not_yet) && plan[k].0 != skip by {
                if k > 0 {
                    assert(plan[k] == tail[k - 1]);
                }
            }
            assert forall|j: int, k: int| 0 <= j < k < plan.len() implies (#[trigger] plan[j]).1.disjoint(#[trigger] plan[k].1) by {
                assert(plan[k] == tail[k - 1]);
                if j > 0 {
                    assert(plan[j] == tail[j - 1]);
                }
            }
        }
    }
}

/// Whether `ns` is a joined swarm, other than `name`, that gnome `n` is in: one
/// through which `n` can be asked to become a neighbor in `name` too.
pub open spec fn shared_swarm(v: NeighborBookView, joined: Seq<SwarmNameView>, name: SwarmNameView, n: u64, ns: SwarmNameView) -> bool {
    &&& v.gnome_swarms.contains((n, ns))
    &&& joined.contains(ns)
    &&& ns != name
}

/// The views of (name, gnome) pairs.
pub open spec fn pairs_view(s: Seq<(SwarmName, u64)>) -> Seq<(SwarmNameView, u64)> {
    s.map_values(|p: (SwarmName, u64)| (p.0@, p.1))
}

impl NeighborBook {
    /// The first joined swarm other than `name` that gnome `n` is in.
    fn shared_swarm_of(&self, joined: &Vec<SwarmName>, name: &SwarmName, n: u64) -> (r: Option<SwarmName>)
        ensures
            r matches Some(ns) ==> shared_swarm(self@, names_view(joined@), name@, n, ns@),
            r is None ==> forall|ns: SwarmNameView| !shared_swarm(self@, names_view(joined@), name@, n, ns),
    {
        let ghost links = gnome_links_view(self.gnome_links@);
        let mut i: usize = 0;
        while i < self.gnome_links.len()
            invariant
                i <= self.gnome_links@.len(),
                links == gnome_links_view(self.gnome_links@),
                forall|k: int| 0 <= k < i ==> !((#[trigger] links[k]).0 == n && names_view(joined@).contains(links[k].1) && links[k].1 != name@),
            decreases self.gnome_links@.len() - i,
        {
            let ns = &self.gnome_links[i].1;
            assert(links[i as int] == (self.gnome_links@[i as int].0, ns@));
            if self.gnome_links[i].0 == n && !ns.same_as(name) && names_hold(joined, ns) {
                assert(links.contains((n, ns@)));
                return Some(ns.duplicate());
            }
            i = i + 1;
        }
        assert forall|ns: SwarmNameView| !shared_swarm(self@, names_view(joined@), name@, n, ns) by {
            if links.contains((n, ns)) {
                let k = choose|k: int| 0 <= k < links.len() && links[k] == (n, ns);
                assert(!(links[k].0 == n && names_view(joined@).contains(links[k].1) && links[k].1 != name@));
            }
        }
        None
    }

    /// Which neighbors of swarm `name` to ask, through which joined swarm, to
    /// become neighbors in `name` too: each neighbor in `name` that is in some
    /// other joined swarm, once, through one such swarm.
    pub fn provide_neighbors_plan(&self, name: &SwarmName, joined: &Vec<SwarmName>) -> (r: Vec<(SwarmName, u64)>)
        ensures
            forall|k: int| 0 <= k < r@.len() ==> {
                &&& self@.swarms.contains(name@)
                &&& gnomes_of(self@, name@).contains((#[trigger] r@[k]).1)
                &&& shared_swarm(self@, names_view(joined@), name@, r@[k].1, r@[k].0@)
            },
            forall|n: u64, ns: SwarmNameView|
                self@.swarms.contains(name@) && gnomes_of(self@, name@).contains(n) && #[trigger] shared_swarm(self@, names_view(joined@), name@, n, ns)
                    ==> exists|k: int| 0 <= k < r@.len() && r@[k].1 == n,
            forall|k1: int, k2: int| 0 <= k1 < k2 < r@.len() ==> (#[trigger] r@[k1]).1 != (#[trigger] r@[k2]).1,
    {
        let mut plan: Vec<(SwarmName, u64)> = Vec::new();
        match self.neighbors_of(name) {
            None => plan,
            Some(ids) => {
                let mut i: usize = 0;
                while i < ids.len()
                    invariant
                        i <= ids@.len(),
                        self@.swarms.contains(name@),
                        seq_set(ids@) == gnomes_of(self@, name@),
                        forall|k: int| 0 <= k < plan@.len() ==> {
                            &&& gnomes_of(self@, name@).contains((#[trigger] plan@[k]).1)
                            &&& shared_swarm(self@, names_view(joined@), name@, plan@[k].1, plan@[k].0@)
                        },
                        forall|j: int, ns: SwarmNameView| 0 <= j < i && #[trigger] shared_swarm(self@, names_view(joined@), name@, ids@[j], ns)
                            ==> exists|k: int| 0 <= k < plan@.len() && plan@[k].1 == ids@[j],
                        forall|k1: int, k2: int| 0 <= k1 < k2 < plan@.len() ==> (#[trigger] plan@[k1]).1 != (#[trigger] plan@[k2]).1,
                    decreases ids@.len() - i,
                {
                    let n = ids[i];
                    assert(seq_set(ids@).contains(n));
                    let ghost before = plan@;
                    let mut planned = false;
                    let mut q: usize = 0;
                    while q < plan.len()
                        invariant
                            q <= plan@.len(),
                            planned <==> exists|k: int| 0 <= k < q && plan@[k].1 == n,
                        decreases plan@.len() - q,
                    {
                        if plan[q].1 == n {
                            planned = true;
                        }
                        q = q + 1;
                    }
                    let found = if planned { None } else { self.shared_swarm_of(joined, name, n) };
                    if planned {
                        assert forall|j: int, ns2: SwarmNameView| 0 <= j < i + 1 && #[trigger] shared_swarm(self@, names_view(joined@), name@, ids@[j], ns2)
                            implies exists|k: int| 0 <= k < plan@.len() && plan@[k].1 == ids@[j] by {
                            if j == i {
                                let k = choose|k: int| 0 <= k < plan@.len() && plan@[k].1 == n;
                                assert(plan@[k].1 == ids@[j]);
                            }
                        }
                    }
                    match found {
                        Some(ns) => {
                            plan.push((ns, n));
                            assert(plan@[plan@.len() - 1].1 == n);
                            assert forall|j: int, ns2: SwarmNameView| 0 <= j < i + 1 && #[trigger] shared_swarm(self@, names_view(joined@), name@, ids@[j], ns2)
                                implies exists|k: int| 0 <= k < plan@.len() && plan@[k].1 == ids@[j] by {
                                if j < i {
                                    let k = choose|k: int| 0 <= k < before.len() && before[k].1 == ids@[j];
                                    assert(plan@[k] == before[k]);
                                } else {
                                    assert(plan@[plan@.len() - 1].1 == ids@[j]);
                                }
                            }
                        },
                        None => {},
                    }
                    i = i + 1;
                }
                assert forall|n: u64, ns: SwarmNameView|
                    self@.swarms.contains(name@) && gnomes_of(self@, name@).contains(n) && #[trigger] shared_swarm(self@, names_view(joined@), name@, n, ns)
                        implies exists|k: int| 0 <= k < plan@.len() && plan@[k].1 == n by {
                    assert(seq_set(ids@).contains(n));
                    let j = choose|j: int| 0 <= j < ids@.len() && ids@[j] == n;
                    assert(shared_swarm(self@, names_view(joined@), name@, ids@[j], ns));
                }
                plan
            },
        }
    }
}

/// The reported (gnome, swarm) pairs whose swarm is joined, as (swarm, gnome),
/// in the order reported.
pub open spec fn joined_reports(rep: Seq<(u64, SwarmNameView)>, joined: Seq<SwarmNameView>) -> Seq<(SwarmNameView, u64)>
    decreases rep.len(),
{
    if rep.len() == 0 {
        seq![]
    } else {
        let rest = joined_reports(rep.drop_last(), joined);
        let p = rep.last();
        if joined.contains(p.1) {
            rest.push((p.1, p.0))
        } else {
            rest
        }
    }
}

/// The swarms that a report makes newly available, as (swarm, gnome): those
/// reported that are not joined; where there are none, the reported pairs whose
/// gnome founded some neighboring swarm not joined yet.
pub open spec fn available_from(v: NeighborBookView, rep: Seq<(u64, SwarmNameView)>, joined: Seq<SwarmNameView>) -> Set<(SwarmNameView, u64)> {
    let first = Set::new(|p: (SwarmNameView, u64)| rep.contains((p.1, p.0)) && !joined.contains(p.0));
    if first == Set::<(SwarmNameView, u64)>::empty() {
        Set::new(
            |p: (SwarmNameView, u64)|
                rep.contains((p.1, p.0)) && exists|n: SwarmNameView| #[trigger] v.swarms.contains(n) && !joined.contains(n) && n.founder == p.1,
        )
    } else {
        first
    }
}

impl NeighborBook {
    /// The reported pairs whose gnome is `founder`, as (swarm, gnome).
    fn reports_by(reported: &Vec<(u64, SwarmName)>, founder: u64) -> (r: Vec<(SwarmName, u64)>)
        ensures
            seq_set(pairs_view(r@)) == Set::new(
                |p: (SwarmNameView, u64)| gnome_links_view(reported@).contains((p.1, p.0)) && p.1 == founder,
            ),
    {
        let ghost rep = gnome_links_view(reported@);
        let mut r: Vec<(SwarmName, u64)> = Vec::new();
        let mut i: usize = 0;
        while i < reported.len()
            invariant
                i <= reported@.len(),
                rep == gnome_links_view(reported@),
                forall|p: (SwarmNameView, u64)| #[trigger] pairs_view(r@).contains(p) <==> (rep.take(i as int).contains((p.1, p.0)) && p.1 == founder),
            decreases reported@.len() - i,
        {
            let ghost before = pairs_view(r@);
            assert(rep.take(i as int + 1) =~= rep.take(i as int).push(rep[i as int]));
            let g = reported[i].0;
            if g == founder {
                r.push((reported[i].1.duplicate(), g));
                assert(pairs_view(r@) =~= before.push((rep[i as int].1, g)));
            }
            assert forall|p: (SwarmNameView, u64)| #[trigger] pairs_view(r@).contains(p) <==> (rep.take(i as int + 1).contains((p.1, p.0)) && p.1 == founder) by {
                lemma_push_contains(rep.take(i as int), rep[i as int], (p.1, p.0));
                lemma_push_contains(before, (rep[i as int].1, g), p);
            }
            i = i + 1;
        }
        assert(rep.take(i as int) =~= rep);
        assert(seq_set(pairs_view(r@)) =~= Set::new(
            |p: (SwarmNameView, u64)| rep.contains((p.1, p.0)) && p.1 == founder,
        ));
        r
    }

    /// Takes in the (gnome, swarm) pairs that a swarm's gnome reported: links
    /// each, and gives the pairs whose swarm is joined (neighbors that may join
    /// us there too) and the swarms made newly available.
    pub fn take_neighboring_swarms(&mut self, joined: &Vec<SwarmName>, reported: &Vec<(u64, SwarmName)>) -> (r: (
        Vec<(SwarmName, u64)>,
        Vec<(SwarmName, u64)>,
    ))
        ensures
            final(self)@.swarms == old(self)@.swarms.union(Set::new(|n: SwarmNameView| exists|g: u64| gnome_links_view(reported@).contains((g, n)))),
            final(self)@.swarm_gnomes == old(self)@.swarm_gnomes.union(Set::new(|p: (SwarmNameView, u64)| gnome_links_view(reported@).contains((p.1, p.0)))),
            final(self)@.gnomes == old(self)@.gnomes.union(Set::new(|g: u64| exists|n: SwarmNameView| gnome_links_view(reported@).contains((g, n)))),
            final(self)@.gnome_swarms == old(self)@.gnome_swarms.union(seq_set(gnome_links_view(reported@))),
            pairs_view(r.0@) == joined_reports(gnome_links_view(reported@), names_view(joined@)),
            seq_set(pairs_view(r.1@)) == available_from(final(self)@, gnome_links_view(reported@), names_view(joined@)),
    {
        let ghost rep = gnome_links_view(reported@);
        let ghost jn = names_view(joined@);
        let ghost start = self@;
        let mut members: Vec<(SwarmName, u64)> = Vec::new();
        let mut available: Vec<(SwarmName, u64)> = Vec::new();
        let mut i: usize = 0;
        while i < reported.len()
            invariant
                i <= reported@.len(),
                rep == gnome_links_view(reported@),
                jn == names_view(joined@),
                self@.swarms == start.swarms.union(Set::new(|n: SwarmNameView| exists|g: u64| rep.take(i as int).contains((g, n)))),
                self@.swarm_gnomes == start.swarm_gnomes.union(Set::new(|p: (SwarmNameView, u64)| rep.take(i as int).contains((p.1, p.0)))),
                self@.gnomes == start.gnomes.union(Set::new(|g: u64| exists|n: SwarmNameView| rep.take(i as int).contains((g, n)))),
                self@.gnome_swarms == start.gnome_swarms.union(seq_set(rep.take(i as int))),
                pairs_view(members@) == joined_reports(rep.take(i as int), jn),
                forall|p: (SwarmNameView, u64)| #[trigger] pairs_view(available@).contains(p) <==> (rep.take(i as int).contains((p.1, p.0)) && !jn.contains(p.0)),
            decreases reported@.len() - i,
        {
            let g = reported[i].0;
            let name = &reported[i].1;
            let ghost t0 = rep.take(i as int);
            let ghost t1 = rep.take(i as int + 1);
            assert(t1 =~= t0.push((g, name@)));
            assert(t1.drop_last() =~= t0);
            let ghost v0 = self@;
            let ghost m0 = pairs_view(members@);
            let ghost a0 = pairs_view(available@);
            if names_hold(joined, name) {
                members.push((name.duplicate(), g));
                assert(pairs_view(members@) =~= m0.push((name@, g)));
            } else {
                available.push((name.duplicate(), g));
                assert(pairs_view(available@) =~= a0.push((name@, g)));
            }
            self.link(name, g);
            assert forall|p: (SwarmNameView, u64)| #[trigger] pairs_view(available@).contains(p) <==> (t1.contains((p.1, p.0)) && !jn.contains(p.0)) by {
                lemma_push_contains(t0, (g, name@), (p.1, p.0));
                lemma_push_contains(a0, (name@, g), p);
            }
            assert forall|n: SwarmNameView| #[trigger] self@.swarms.contains(n) <==> start.swarms.union(Set::new(|n2: SwarmNameView| exists|g2: u64| t1.contains((g2, n2)))).contains(n) by {
                if n == name@ {
                    assert(t1.contains((g, name@))) by { assert(t1[t1.len() - 1] == (g, name@)); }
                }
                if exists|g2: u64| t1.contains((g2, n)) {
                    let g2 = choose|g2: u64| t1.contains((g2, n));
                    lemma_push_contains(t0, (g, name@), (g2, n));
                }
                if exists|g2: u64| t0.contains((g2, n)) {
                    let g2 = choose|g2: u64| t0.contains((g2, n));
                    lemma_push_contains(t0, (g, name@), (g2, n));
                }
            }
            assert forall|x: u64| #[trigger] self@.gnomes.contains(x) <==> start.gnomes.union(Set::new(|g2: u64| exists|n2: SwarmNameView| t1.contains((g2, n2)))).contains(x) by {
                if x == g {
                    assert(t1.contains((g, name@))) by { assert(t1[t1.len() - 1] == (g, name@)); }
                }
                if exists|n2: SwarmNameView| t1.contains((x, n2)) {
                    let n2 = choose|n2: SwarmNameView| t1.contains((x, n2));
                    lemma_push_contains(t0, (g, name@), (x, n2));
                }
                if exists|n2: SwarmNameView| t0.contains((x, n2)) {
                    let n2 = choose|n2: SwarmNameView| t0.contains((x, n2));
                    lemma_push_contains(t0, (g, name@), (x, n2));
                }
            }
            assert forall|p: (SwarmNameView, u64)| #[trigger] self@.swarm_gnomes.contains(p) <==> start.swarm_gnomes.union(Set::new(|q: (SwarmNameView, u64)| t1.contains((q.1, q.0)))).contains(p) by {
                lemma_push_contains(t0, (g, name@), (p.1, p.0));
            }
            assert forall|p: (u64, SwarmNameView)| #[trigger] self@.gnome_swarms.contains(p) <==> start.gnome_swarms.union(seq_set(t1)).contains(p) by {
                lemma_push_contains(t0, (g, name@), p);
            }
            assert(self@.swarms =~= start.swarms.union(Set::new(|n: SwarmNameView| exists|g2: u64| t1.contains((g2, n)))));
            assert(self@.gnomes =~= start.gnomes.union(Set::new(|x: u64| exists|n2: SwarmNameView| t1.contains((x, n2)))));
            assert(self@.swarm_gnomes =~= start.swarm_gnomes.union(Set::new(|q: (SwarmNameView, u64)| t1.contains((q.1, q.0)))));
            assert(self@.gnome_swarms =~= start.gnome_swarms.union(seq_set(t1)));
            i = i + 1;
        }
        assert(rep.take(i as int) =~= rep);
        let ghost first = Set::new(|p: (SwarmNameView, u64)| rep.contains((p.1, p.0)) && !jn.contains(p.0));
        assert(seq_set(pairs_view(available@)) =~= first);
        proof {
            lemma_empty_set(pairs_view(available@));
        }
        if available.len() == 0 {
            let ghost v = self@;
            let ghost keys = names_view(self.swarm_keys@);
            let ghost target = Set::new(
                |p: (SwarmNameView, u64)|
                    rep.contains((p.1, p.0)) && exists|n: SwarmNameView| #[trigger] v.swarms.contains(n) && !jn.contains(n) && n.founder == p.1,
            );
            let mut k: usize = 0;
            while k < self.swarm_keys.len()
                invariant
                    k <= self.swarm_keys@.len(),
                    v == self@,
                    keys == names_view(self.swarm_keys@),
                    rep == gnome_links_view(reported@),
                    jn == names_view(joined@),
                    forall|p: (SwarmNameView, u64)| #[trigger] pairs_view(available@).contains(p) <==> (rep.contains((p.1, p.0)) && exists|j: int| 0 <= j < k && !jn.contains(keys[j]) && keys[j].founder == p.1),
                decreases self.swarm_keys@.len() - k,
            {
                let ghost a0 = pairs_view(available@);
                assert forall|p: (SwarmNameView, u64)| #[trigger] a0.contains(p) <==> (rep.contains((p.1, p.0)) && exists|j: int| 0 <= j < k && !jn.contains(keys[j]) && keys[j].founder == p.1) by {
                    assert(pairs_view(available@).contains(p) == a0.contains(p));
                }
                let key = &self.swarm_keys[k];
                assert(keys[k as int] == key@);
                let key_joined = names_hold(joined, key);
                if !key_joined {
                    let mut more = NeighborBook::reports_by(reported, key.founder.0);
                    let ghost mv = pairs_view(more@);
                    available.append(&mut more);
                    assert(pairs_view(available@) =~= a0 + mv);
                    assert forall|p: (SwarmNameView, u64)| #[trigger] pairs_view(available@).contains(p) <==> (rep.contains((p.1, p.0)) && exists|j: int| 0 <= j < k + 1 && !jn.contains(keys[j]) && keys[j].founder == p.1) by {
                        if (a0 + mv).contains(p) {
                            let x = choose|x: int| 0 <= x < (a0 + mv).len() && (a0 + mv)[x] == p;
                            if x < a0.len() {
                                assert(a0[x] == p);
                                assert(a0.contains(p));
                                let j = choose|j: int| 0 <= j < k && !jn.contains(keys[j]) && keys[j].founder == p.1;
                                assert(0 <= j < k + 1 && !jn.contains(keys[j]) && keys[j].founder == p.1);
                            } else {
                                assert(mv[x - a0.len()] == p);
                                assert(seq_set(mv).contains(p));
                                assert(!jn.contains(keys[k as int]) && keys[k as int].founder == p.1);
                            }
                        }
                        if rep.contains((p.1, p.0)) && exists|j: int| 0 <= j < k + 1 && !jn.contains(keys[j]) && keys[j].founder == p.1 {
                            let j = choose|j: int| 0 <= j < k + 1 && !jn.contains(keys[j]) && keys[j].founder == p.1;
                            if j < k {
                                assert(a0.contains(p));
                                let x = choose|x: int| 0 <= x < a0.len() && a0[x] == p;
                                assert((a0 + mv)[x] == p);
                            } else {
                                assert(seq_set(mv).contains(p));
                                let x = choose|x: int| 0 <= x < mv.len() && mv[x] == p;
                                assert((a0 + mv)[a0.len() + x] == p);
                            }
                        }
                    }
                } else {
                    assert forall|p: (SwarmNameView, u64)| #[trigger] pairs_view(available@).contains(p) <==> (rep.contains((p.1, p.0)) && exists|j: int| 0 <= j < k + 1 && !jn.contains(keys[j]) && keys[j].founder == p.1) by {
                        if a0.contains(p) {
                            let j = choose|j: int| 0 <= j < k && !jn.contains(keys[j]) && keys[j].founder == p.1;
                            assert(0 <= j < k + 1 && !jn.contains(keys[j]) && keys[j].founder == p.1);
                        }
                        if rep.contains((p.1, p.0)) && exists|j: int| 0 <= j < k + 1 && !jn.contains(keys[j]) && keys[j].founder == p.1 {
                            let j = choose|j: int| 0 <= j < k + 1 && !jn.contains(keys[j]) && keys[j].founder == p.1;
                            assert(j != k);
                            assert(0 <= j < k && !jn.contains(keys[j]) && keys[j].founder == p.1);
                        }
                    }
                }
                k = k + 1;
            }
            assert forall|p: (SwarmNameView, u64)| #[trigger] seq_set(pairs_view(available@)).contains(p) <==> target.contains(p) by {
                if exists|n: SwarmNameView| #[trigger] v.swarms.contains(n) && !jn.contains(n) && n.founder == p.1 {
                    let n = choose|n: SwarmNameView| #[trigger] v.swarms.contains(n) && !jn.contains(n) && n.founder == p.1;
                    assert(seq_set(keys).contains(n));
                    let j = choose|j: int| 0 <= j < keys.len() && keys[j] == n;
                    assert(keys[j] == n);
                }
                if exists|j: int| 0 <= j < k && !jn.contains(keys[j]) && keys[j].founder == p.1 {
                    let j = choose|j: int| 0 <= j < k && !jn.contains(keys[j]) && keys[j].founder == p.1;
                    assert(keys.contains(keys[j]));
                    assert(v.swarms.contains(keys[j]));
                }
            }
            assert(seq_set(pairs_view(available@)) =~= target);
        }
        (members, available)
    }
}

/// The swarms that the neighbors in swarm `q` are in, each with the neighbor
/// and whether we joined it: what the manager answers when asked for the
/// swarms neighboring `q`.
pub open spec fn neighboring_swarms_spec(v: NeighborBookView, q: SwarmNameView, joined: Seq<SwarmNameView>) -> Set<(SwarmNameView, u64, bool)> {
    Set::new(
        |t: (SwarmNameView, u64, bool)|
            v.swarms.contains(q) && v.swarm_gnomes.contains((q, t.1)) && v.gnome_swarms.contains((t.1, t.0)) && t.2 == joined.contains(t.0),
    )
}

/// The views of (swarm, gnome, joined) triples.
pub open spec fn triples_view(s: Seq<(SwarmName, u64, bool)>) -> Seq<(SwarmNameView, u64, bool)> {
    s.map_values(|t: (SwarmName, u64, bool)| (t.0@, t.1, t.2))
}

impl NeighborBook {
    /// The swarms that the neighbors in swarm `q` are in, each with the
    /// neighbor and whether it is among `joined`.
    pub fn neighboring_swarms_of(&self, q: &SwarmName, joined: &Vec<SwarmName>) -> (r: Vec<(SwarmName, u64, bool)>)
        ensures
            seq_set(triples_view(r@)) == neighboring_swarms_spec(self@, q@, names_view(joined@)),
    {
        let ghost jn = names_view(joined@);
        let ghost target = neighboring_swarms_spec(self@, q@, jn);
        let mut out: Vec<(SwarmName, u64, bool)> = Vec::new();
        match self.neighbors_of(q) {
            None => {
                assert(seq_set(triples_view(out@)) =~= target);
                out
            },
            Some(ids) => {
                let ghost links = gnome_links_view(self.gnome_links@);
                let mut i: usize = 0;
                while i < ids.len()
                    invariant
                        i <= ids@.len(),
                        self@.swarms.contains(q@),
                        seq_set(ids@) == gnomes_of(self@, q@),
                        links == gnome_links_view(self.gnome_links@),
                        jn == names_view(joined@),
                        forall|t: (SwarmNameView, u64, bool)| #[trigger] triples_view(out@).contains(t) <==> (ids@.take(i as int).contains(t.1) && links.contains((t.1, t.0)) && t.2 == jn.contains(t.0)),
                    decreases ids@.len() - i,
                {
                    let n = ids[i];
                    let ghost o0 = triples_view(out@);
                    assert(ids@.take(i as int + 1) =~= ids@.take(i as int).push(n));
                    let mut k: usize = 0;
                    while k < self.gnome_links.len()
                        invariant
                            k <= self.gnome_links@.len(),
                            links == gnome_links_view(self.gnome_links@),
                            jn == names_view(joined@),
                            forall|t: (SwarmNameView, u64, bool)| #[trigger] triples_view(out@).contains(t) <==> (o0.contains(t) || (t.1 == n && links.take(k as int).contains((t.1, t.0)) && t.2 == jn.contains(t.0))),
                        decreases self.gnome_links@.len() - k,
                    {
                        let ghost o1 = triples_view(out@);
                        assert(links.take(k as int + 1) =~= links.take(k as int).push(links[k as int]));
                        if self.gnome_links[k].0 == n {
                            let s_name = &self.gnome_links[k].1;
                            let is_joined = names_hold(joined, s_name);
                            out.push((s_name.duplicate(), n, is_joined));
                            assert(triples_view(out@) =~= o1.push((s_name@, n, is_joined)));
                            assert(links[k as int] == (n, s_name@));
                            assert forall|t: (SwarmNameView, u64, bool)| #[trigger] triples_view(out@).contains(t) <==> (o0.contains(t) || (t.1 == n && links.take(k as int + 1).contains((t.1, t.0)) && t.2 == jn.contains(t.0))) by {
                                lemma_push_contains(o1, (s_name@, n, is_joined), t);
                                lemma_push_contains(links.take(k as int), links[k as int], (t.1, t.0));
                            }
                        } else {
                            assert forall|t: (SwarmNameView, u64, bool)| #[trigger] triples_view(out@).contains(t) <==> (o0.contains(t) || (t.1 == n && links.take(k as int + 1).contains((t.1, t.0)) && t.2 == jn.contains(t.0))) by {
                                lemma_push_contains(links.take(k as int), links[k as int], (t.1, t.0));
                            }
                        }
                        k = k + 1;
                    }
                    assert(links.take(k as int) =~= links);
                    assert forall|t: (SwarmNameView, u64, bool)| #[trigger] triples_view(out@).contains(t) <==> (ids@.take(i as int + 1).contains(t.1) && links.contains((t.1, t.0)) && t.2 == jn.contains(t.0)) by {
                        lemma_push_contains(ids@.take(i as int), n, t.1);
                    }
                    i = i + 1;
                }
                assert(ids@.take(i as int) =~= ids@);
                assert forall|t: (SwarmNameView, u64, bool)| #[trigger] seq_set(triples_view(out@)).contains(t) <==> target.contains(t) by {
                    assert(seq_set(ids@).contains(t.1) == gnomes_of(self@, q@).contains(t.1));
                }
                assert(seq_set(triples_view(out@)) =~= target);
                out
            },
        }
    }
}

/// Whether no two entries of a list of (name, id) entries have the same name.
pub open spec fn names_unique(s: Seq<(SwarmNameView, u8)>) -> bool {
    forall|i: int, j: int| 0 <= i < j < s.len() ==> (#[trigger] s[i]).0 != (#[trigger] s[j]).0
}

/// The map from names to ids that a list of entries stands for.
pub open spec fn entries_map(s: Seq<(SwarmNameView, u8)>) -> Map<SwarmNameView, u8> {
    Map::new(
        |k: SwarmNameView| exists|i: int| 0 <= i < s.len() && s[i].0 == k,
        |k: SwarmNameView| s[choose|i: int| 0 <= i < s.len() && s[i].0 == k].1,
    )
}

/// The views of (name, id) entries.
pub open spec fn entries_view(s: Seq<(SwarmName, u8)>) -> Seq<(SwarmNameView, u8)> {
    s.map_values(|p: (SwarmName, u8)| (p.0@, p.1))
}

/// The ids of the joined swarms, by name.
pub struct SwarmIds {
    entries: Vec<(SwarmName, u8)>,
}

impl View for SwarmIds {
    type V = Map<SwarmNameView, u8>;

    closed spec fn view(&self) -> Map<SwarmNameView, u8> {
        entries_map(entries_view(self.entries@))
    }
}

/// In a list with unique names, the entry with a name gives its id.
proof fn lemma_entry_value(s: Seq<(SwarmNameView, u8)>, i: int)
    requires
        names_unique(s),
        0 <= i < s.len(),
    ensures
        entries_map(s).contains_key(s[i].0),
        entries_map(s)[s[i].0] == s[i].1,
{
    let k = s[i].0;
    assert(entries_map(s).dom().contains(k));
    let j = choose|j: int| 0 <= j < s.len() && s[j].0 == k;
    if j != i {
        if j < i {
            assert(s[j].0 != s[i].0);
        } else {
            assert(s[i].0 != s[j].0);
        }
    }
}

impl SwarmIds {
    /// Whether no two entries share a name.
    pub closed spec fn wf(&self) -> bool {
        names_unique(entries_view(self.entries@))
    }

    /// No swarm joined.
    pub fn new() -> (r: Self)
        ensures
            r@ == Map::<SwarmNameView, u8>::empty(),
            r.wf(),
    {
        let r = SwarmIds { entries: Vec::new() };
        assert(r@ =~= Map::<SwarmNameView, u8>::empty());
        r
    }

    /// The index of the entry named `name`, if there is one.
    fn index_of(&self, name: &SwarmName) -> (r: Option<usize>)
        requires
            self.wf(),
        ensures
            r matches Some(i) ==> i < self.entries@.len() && entries_view(self.entries@)[i as int].0 == name@,
            r is None ==> !self@.contains_key(name@),
    {
        let ghost es = entries_view(self.entries@);
        let mut i: usize = 0;
        while i < self.entries.len()
            invariant
                i <= self.entries@.len(),
                es == entries_view(self.entries@),
                forall|k: int| 0 <= k < i ==> (#[trigger] es[k]).0 != name@,
            decreases self.entries@.len() - i,
        {
            if self.entries[i].0.same_as(name) {
                assert(es[i as int].0 == name@);
                return Some(i);
            }
            i = i + 1;
        }
        assert(!self@.contains_key(name@)) by {
            if self@.contains_key(name@) {
                let k = choose|k: int| 0 <= k < es.len() && es[k].0 == name@;
                assert(es[k].0 != name@);
            }
        }
        None
    }

    /// The id of swarm `name`, if it is joined.
    pub fn get(&self, name: &SwarmName) -> (r: Option<u8>)
        requires
            self.wf(),
        ensures
            r == (if self@.contains_key(name@) { Some(self@[name@]) } else { None }),
    {
        match self.index_of(name) {
            Some(i) => {
                proof {
                    lemma_entry_value(entries_view(self.entries@), i as int);
                }
                Some(self.entries[i].1)
            },
            None => None,
        }
    }

    /// Takes swarm `name` out; gives its id, where it was joined.
    pub fn remove(&mut self, name: &SwarmName) -> (r: Option<u8>)
        requires
            old(self).wf(),
        ensures
            final(self).wf(),
            r == (if old(self)@.contains_key(name@) { Some(old(self)@[name@]) } else { None }),
            final(self)@ == old(self)@.remove(name@),
    {
        let ghost es = entries_view(self.entries@);
        match self.index_of(name) {
            None => {
                assert(self@ =~= old(self)@.remove(name@));
                None
            },
            Some(i) => {
                proof {
                    lemma_entry_value(es, i as int);
                }
                let (_n, id) = self.entries.remove(i);
                let ghost after = entries_view(self.entries@);
                assert(after =~= es.remove(i as int));
                assert(names_unique(after)) by {
                    assert forall|a: int, b: int| 0 <= a < b < after.len() implies (#[trigger] after[a]).0 != (#[trigger] after[b]).0 by {
                        let a0 = if a < i { a } else { a + 1 };
                        let b0 = if b < i { b } else { b + 1 };
                        assert(after[a] == es[a0]);
                        assert(after[b] == es[b0]);
                        assert(es[a0].0 != es[b0].0);
                    }
                }
                assert forall|k: SwarmNameView| #[trigger] self@.contains_key(k) <==> old(self)@.remove(name@).contains_key(k) by {
                    if exists|j: int| 0 <= j < after.len() && after[j].0 == k {
                        let j = choose|j: int| 0 <= j < after.len() && after[j].0 == k;
                        let j0 = if j < i { j } else { j + 1 };
                        assert(after[j] == es[j0]);
                        assert(es[j0].0 != es[i as int].0 || j0 == i);
                    }
                    if old(self)@.remove(name@).contains_key(k) {
                        let j0 = choose|j: int| 0 <= j < es.len() && es[j].0 == k;
                        assert(j0 != i);
                        let j = if j0 < i { j0 } else { j0 - 1 };
                        assert(after[j] == es[j0]);
                    }
                }
                assert forall|k: SwarmNameView| #[trigger] self@.contains_key(k) implies self@[k] == old(self)@.remove(name@)[k] by {
                    let j = choose|j: int| 0 <= j < after.len() && after[j].0 == k;
                    lemma_entry_value(after, j);
                    let j0 = if j < i { j } else { j + 1 };
                    assert(after[j] == es[j0]);
                    lemma_entry_value(es, j0);
                }
                assert(self@ =~= old(self)@.remove(name@));
                Some(id)
            },
        }
    }

    /// Joins swarm `name` under `id`, in place of what it had.
    pub fn insert(&mut self, name: SwarmName, id: u8)
        requires
            old(self).wf(),
        ensures
            final(self).wf(),
            final(self)@ == old(self)@.insert(name@, id),
    {
        let _ = self.remove(&name);
        let ghost es = entries_view(self.entries@);
        let ghost nv = name@;
        self.entries.push((name, id));
        let ghost after = entries_view(self.entries@);
        assert(after =~= es.push((nv, id)));
        assert(names_unique(after)) by {
            assert forall|a: int, b: int| 0 <= a < b < after.len() implies (#[trigger] after[a]).0 != (#[trigger] after[b]).0 by {
                if b == es.len() {
                    assert(after[a] == es[a]);
                    assert(!entries_map(es).contains_key(nv));
                    if es[a].0 == nv {
                        assert(entries_map(es).contains_key(nv));
                    }
                } else {
                    assert(after[a] == es[a]);
                    assert(after[b] == es[b]);
                }
            }
        }
        proof {
            lemma_entry_value(after, es.len() as int);
        }
        assert forall|k: SwarmNameView| #[trigger] self@.contains_key(k) <==> old(self)@.insert(nv, id).contains_key(k) by {
            if exists|j: int| 0 <= j < after.len() && after[j].0 == k {
                let j = choose|j: int| 0 <= j < after.len() && after[j].0 == k;
                if j < es.len() {
                    assert(after[j] == es[j]);
                    assert(entries_map(es).contains_key(k));
                }
            }
            if entries_map(es).contains_key(k) {
                let j = choose|j: int| 0 <= j < es.len() && es[j].0 == k;
                assert(after[j] == es[j]);
            }
        }
        assert forall|k: SwarmNameView| #[trigger] self@.contains_key(k) implies self@[k] == old(self)@.insert(nv, id)[k] by {
            let j = choose|j: int| 0 <= j < after.len() && after[j].0 == k;
            lemma_entry_value(after, j);
            if j < es.len() {
                assert(after[j] == es[j]);
                lemma_entry_value(es, j);
            }
        }
        assert(self@ =~= old(self)@.insert(nv, id));
    }

    /// Records that the founder of swarm `swarm_id` was determined, which gave
    /// it name `s_name`. Where we were in the generic root swarm, it keeps its
    /// id, under the new name where it is that swarm, and the founder is given
    /// back to be made known; else `s_name` is joined under `swarm_id`.
    pub fn founder_determined(&mut self, swarm_id: u8, s_name: SwarmName) -> (r: Option<u64>)
        requires
            old(self).wf(),
        ensures
            final(self).wf(),
            ({
                let root = SwarmNameView { founder: ANY_FOUNDER, name: seq!['/'] };
                if old(self)@.contains_key(root) {
                    let e = old(self)@[root];
                    &&& final(self)@ == old(self)@.remove(root).insert(if e == swarm_id { s_name@ } else { root }, e)
                    &&& r == Some(s_name@.founder)
                } else {
                    &&& final(self)@ == old(self)@.insert(s_name@, swarm_id)
                    &&& r is None
                }
            }),
    {
        let root = "/";
        proof {
            reveal_strlit("/");
        }
        let root_string = root.to_owned();
        assert(root_string@ =~= seq!['/']);
        let g_name = SwarmName { founder: GnomeId::any(), name: root_string };
        let founder = s_name.founder.0;
        match self.remove(&g_name) {
            Some(e_id) => {
                if e_id == swarm_id {
                    self.insert(s_name, e_id);
                } else {
                    self.insert(g_name, e_id);
                }
                Some(founder)
            },
            None => {
                self.insert(s_name, swarm_id);
                None
            },
        }
    }

    /// The name of a joined swarm with id `id`, if there is one.
    pub fn name_of(&self, id: u8) -> (r: Option<SwarmName>)
        requires
            self.wf(),
        ensures
            r matches Some(n) ==> self@.contains_key(n@) && self@[n@] == id,
            r is None ==> forall|k: SwarmNameView| #[trigger] self@.contains_key(k) ==> self@[k] != id,
    {
        let ghost es = entries_view(self.entries@);
        let mut i: usize = 0;
        while i < self.entries.len()
            invariant
                i <= self.entries@.len(),
                es == entries_view(self.entries@),
                names_unique(es),
                forall|k: int| 0 <= k < i ==> (#[trigger] es[k]).1 != id,
            decreases self.entries@.len() - i,
        {
            if self.entries[i].1 == id {
                proof {
                    lemma_entry_value(es, i as int);
                }
                return Some(self.entries[i].0.duplicate());
            }
            i = i + 1;
        }
        assert forall|k: SwarmNameView| #[trigger] self@.contains_key(k) implies self@[k] != id by {
            let j = choose|j: int| 0 <= j < es.len() && es[j].0 == k;
            lemma_entry_value(es, j);
        }
        None
    }

    /// The names of the joined swarms.
    pub fn names(&self) -> (r: Vec<SwarmName>)
        ensures
            forall|n: SwarmNameView| names_view(r@).contains(n) <==> self@.contains_key(n),
    {
        let ghost es = entries_view(self.entries@);
        let mut r: Vec<SwarmName> = Vec::new();
        let mut i: usize = 0;
        while i < self.entries.len()
            invariant
                i <= self.entries@.len(),
                es == entries_view(self.entries@),
                names_view(r@).len() == i,
                forall|k: int| 0 <= k < i ==> names_view(r@)[k] == (#[trigger] es[k]).0,
            decreases self.entries@.len() - i,
        {
            r.push(self.entries[i].0.duplicate());
            i = i + 1;
        }
        assert forall|n: SwarmNameView| names_view(r@).contains(n) <==> self@.contains_key(n) by {
            if names_view(r@).contains(n) {
                let k = choose|k: int| 0 <= k < names_view(r@).len() && names_view(r@)[k] == n;
                assert(es[k].0 == n);
            }
            if self@.contains_key(n) {
                let k = choose|k: int| 0 <= k < es.len() && es[k].0 == n;
                assert(names_view(r@)[k] == n);
            }
        }
        r
    }
}

/// What becomes of a join that waits for neighbors when its time is up.
#[derive(Debug, Clone, Copy, PartialEq, Eq, Structural)]
pub enum TimeoutAction {
    /// The swarm that got no neighbors in time is disconnected.
    Disconnect,
    /// Another swarm is being waited for: nothing happens.
    KeepWaiting,
    /// Nothing is waited for: the next queued join goes ahead.
    NextJoin,
}

/// Decides what happens when swarm `s_id`'s time to find neighbors is up,
/// given the swarm waited for; gives the swarm waited for afterwards.
pub fn on_neighbor_timeout(waiting_for_neighbors: Option<u8>, s_id: u8) -> (r: (Option<u8>, TimeoutAction))
    ensures
        waiting_for_neighbors == Some(s_id) ==> r == (None::<u8>, TimeoutAction::Disconnect),
        (waiting_for_neighbors is Some && waiting_for_neighbors != Some(s_id)) ==> r == (waiting_for_neighbors, TimeoutAction::KeepWaiting),
        waiting_for_neighbors is None ==> r == (None::<u8>, TimeoutAction::NextJoin),
{
    match waiting_for_neighbors {
        Some(w) => if w == s_id {
            (None, TimeoutAction::Disconnect)
        } else {
            (Some(w), TimeoutAction::KeepWaiting)
        },
        None => (None, TimeoutAction::NextJoin),
    }
}

/// The swarm waited for after swarm `s_id` reported its active neighbors: none
/// where it was the one waited for.
pub fn on_active_neighbors(waiting_for_neighbors: Option<u8>, s_id: u8) -> (r: Option<u8>)
    ensures
        r == if waiting_for_neighbors == Some(s_id) { None } else { waiting_for_neighbors },
{
    match waiting_for_neighbors {
        Some(w) => if w == s_id {
            None
        } else {
            Some(w)
        },
        None => None,
    }
}

/// Whether a request for our public address, asked through a swarm named
/// `swarm` (where the swarm is known) by gnome `g_id`, is answered at once:
/// where the gnome founded that swarm. Else it waits for our address.
pub fn reply_settings_now(swarm: &Option<SwarmName>, g_id: u64) -> (r: bool)
    ensures
        r == (swarm matches Some(n) && n.founder.0 == g_id),
{
    match swarm {
        Some(n) => n.founder.0 == g_id,
        None => false,
    }
}

/// Whether a join of a swarm waits in the queue: while another join waits for
/// neighbors.
pub fn join_waits(waiting_for_neighbors: Option<u8>) -> (r: bool)
    ensures
        r == waiting_for_neighbors is Some,
{
    waiting_for_neighbors.is_some()
}

/// The settings, in order, of every offered gnome other than `my_id`.
pub open spec fn settings_except(my_id: u64, offered: Seq<(u64, NetworkSettings)>) -> Seq<NetworkSettings>
    decreases offered.len(),
{
    if offered.len() == 0 {
        seq![]
    } else {
        let rest = settings_except(my_id, offered.drop_last());
        if offered.last().0 != my_id {
            rest.push(offered.last().1)
        } else {
            rest
        }
    }
}

/// The settings of the neighbors a listening swarm starts with, out of the
/// gnome ids and settings offered: `None` where none are offered, else the
/// settings of every gnome other than `my_id`.
pub open spec fn listening_settings_spec(my_id: u64, offered: Seq<(u64, NetworkSettings)>) -> Option<Seq<NetworkSettings>> {
    if offered.len() == 0 {
        None
    } else {
        Some(settings_except(my_id, offered))
    }
}

/// Picks the settings of the neighbors a listening swarm starts with.
pub fn listening_settings(my_id: u64, offered: &Vec<(u64, NetworkSettings)>) -> (r: Option<Vec<NetworkSettings>>)
    ensures
        r is None <==> listening_settings_spec(my_id, offered@) is None,
        r matches Some(v) ==> listening_settings_spec(my_id, offered@) == Some(v@),
{
    if offered.len() == 0 {
        return None;
    }
    let mut neighbors: Vec<NetworkSettings> = Vec::new();
    let mut i: usize = 0;
    while i < offered.len()
        invariant
            i <= offered@.len(),
            neighbors@ == settings_except(my_id, offered@.take(i as int)),
        decreases offered@.len() - i,
    {
        let (g_id, setting) = offered[i];
        assert(offered@.take(i as int + 1).drop_last() =~= offered@.take(i as int));
        assert(offered@.take(i as int + 1).last() == offered@[i as int]);
        if g_id != my_id {
            neighbors.push(setting);
        }
        i = i + 1;
    }
    assert(offered@.take(offered@.len() as int) =~= offered@);
    Some(neighbors)
}

/// Whether two settings are the same.
fn same_settings(a: &NetworkSettings, b: &NetworkSettings) -> (r: bool)
    ensures
        r == (*a == *b),
{
    same_ip(&a.pub_ip, &b.pub_ip) && a.pub_port == b.pub_port && a.nat_type == b.nat_type
        && a.port_allocation.0 == b.port_allocation.0 && a.port_allocation.1 == b.port_allocation.1
        && a.transport == b.transport
}

/// The settings, in order of first offer, of the gnomes other than `my_id`,
/// each kept once.
pub open spec fn distinct_settings_except(my_id: u64, offered: Seq<(u64, NetworkSettings)>) -> Seq<NetworkSettings>
    decreases offered.len(),
{
    if offered.len() == 0 {
        seq![]
    } else {
        let rest = distinct_settings_except(my_id, offered.drop_last());
        if offered.last().0 != my_id && !rest.contains(offered.last().1) {
            rest.push(offered.last().1)
        } else {
            rest
        }
    }
}

/// The neighbor settings a gnome starts its first swarm with: of those offered
/// at start, the settings of other gnomes, each once; `None` where none are
/// left.
pub fn initial_neighbor_settings(my_id: u64, offered: &Option<Vec<(u64, NetworkSettings)>>) -> (r: Option<Vec<NetworkSettings>>)
    ensures
        match offered {
            None => r is None,
            Some(list) => {
                let kept = distinct_settings_except(my_id, list@);
                &&& kept.len() == 0 ==> r is None
                &&& kept.len() > 0 ==> (r matches Some(v) && v@ == kept)
            },
        },
{
    let list = match offered {
        None => return None,
        Some(list) => list,
    };
    let mut filtered: Vec<NetworkSettings> = Vec::new();
    let mut i: usize = 0;
    while i < list.len()
        invariant
            i <= list@.len(),
            filtered@ == distinct_settings_except(my_id, list@.take(i as int)),
        decreases list@.len() - i,
    {
        assert(list@.take(i as int + 1).drop_last() =~= list@.take(i as int));
        assert(list@.take(i as int + 1).last() == list@[i as int]);
        let (g_id, ns) = list[i];
        if g_id != my_id {
            let mut seen = false;
            let mut k: usize = 0;
            while k < filtered.len()
                invariant
                    k <= filtered@.len(),
                    seen == filtered@.take(k as int).contains(ns),
                decreases filtered@.len() - k,
            {
                assert(filtered@.take(k as int + 1) =~= filtered@.take(k as int).push(filtered@[k as int]));
                proof {
                    lemma_push_contains(filtered@.take(k as int), filtered@[k as int], ns);
                }
                if same_settings(&filtered[k], &ns) {
                    seen = true;
                }
                k = k + 1;
            }
            assert(filtered@.take(filtered@.len() as int) =~= filtered@);
            if !seen {
                filtered.push(ns);
            }
        }
        i = i + 1;
    }
    assert(list@.take(list@.len() as int) =~= list@);
    if filtered.len() == 0 {
        None
    } else {
        Some(filtered)
    }
}

impl NeighborBook {
    /// Whether a request to extend swarm `name` with neighbor `g` is passed on to
    /// that swarm: where the swarm is running (`swarm_known`), `g` is a known
    /// neighbor in it, and the swarm has not been joined by name already (a joined
    /// swarm that has `g` as a neighbor needs no extending).
    pub fn extend_request_passed(&self, name: &SwarmName, joined: bool, swarm_known: bool, g: u64) -> (r: bool)
        ensures
            r == (swarm_known && !joined && self@.swarm_gnomes.contains((name@, g))),
    {
        let linked = swarm_link_held(&self.swarm_links, name, g);
        if joined && linked {
            return false;
        }
        swarm_known && linked
    }
}

/// Adding a link keeps the book consistent.
pub proof fn lemma_link_keeps_consistency(v: NeighborBookView, name: SwarmNameView, g: u64)
    requires
        book_consistent(v),
    ensures
        book_consistent(
            NeighborBookView {
                swarms: v.swarms.insert(name),
                swarm_gnomes: v.swarm_gnomes.insert((name, g)),
                gnomes: v.gnomes.insert(g),
                gnome_swarms: v.gnome_swarms.insert((g, name)),
            },
        ),
{
}

/// Taking a gnome's leave keeps the book consistent.
pub proof fn lemma_unlink_keeps_consistency(v: NeighborBookView, name: SwarmNameView, g: u64)
    requires
        book_consistent(v),
    ensures
        book_consistent(
            NeighborBookView {
                swarm_gnomes: v.swarm_gnomes.remove((name, g)),
                gnome_swarms: v.gnome_swarms.remove((g, name)),
                ..v
            },
        ),
{
}

/// Setting a swarm's neighbors keeps the book consistent.
pub proof fn lemma_set_neighbors_keeps_consistency(
    v: NeighborBookView,
    name: SwarmNameView,
    ids: Seq<u64>,
)
    requires
        book_consistent(v),
    ensures
        book_consistent(
            NeighborBookView {
                swarms: v.swarms.insert(name),
                swarm_gnomes: Set::new(
                    |p: (SwarmNameView, u64)|
                        (v.swarm_gnomes.contains(p) && p.0 != name) || (p.0 == name && ids.contains(
                            p.1,
                        )),
                ),
                gnomes: v.gnomes.union(seq_set(ids)),
                gnome_swarms: v.gnome_swarms.union(
                    Set::new(|p: (u64, SwarmNameView)| ids.contains(p.0) && p.1 == name),
                ),
            },
        ),
{
}

/// Forgetting a disconnected swarm keeps the book consistent.
pub proof fn lemma_forget_keeps_consistency(v: NeighborBookView, name: SwarmNameView)
    requires
        book_consistent(v),
    ensures
        book_consistent(
            NeighborBookView {
                swarms: v.swarms.remove(name),
                swarm_gnomes: Set::new(
                    |p: (SwarmNameView, u64)| v.swarm_gnomes.contains(p) && p.0 != name,
                ),
                gnomes: v.gnomes,
                gnome_swarms: Set::new(
                    |p: (u64, SwarmNameView)|
                        v.gnome_swarms.contains(p) && !(p.1 == name && v.swarm_gnomes.contains(
                            (name, p.0),
                        )),
                ),
            },
        ),
{
}

/// The lowest swarm id not taken, or `None` where all 256 are.
pub fn next_avail_swarm_id(taken: &Vec<u8>) -> (r: Option<u8>)
    ensures
        r matches Some(i) ==> !taken@.contains(i) && forall|j: u8| j < i ==> taken@.contains(j),
        r is None ==> forall|i: u8| taken@.contains(i),
{
    let mut i: u16 = 0;
    while i <= 255
        invariant
            i <= 256,
            forall|j: u8| j < i ==> taken@.contains(j),
        decreases 256 - i,
    {
        let id = i as u8;
        let mut k: usize = 0;
        let mut found = false;
        while k < taken.len()
            invariant
                k <= taken@.len(),
                found ==> taken@.contains(id),
                !found ==> forall|m: int| 0 <= m < k ==> taken@[m] != id,
            decreases taken@.len() - k,
        {
            if taken[k] == id {
                found = true;
            }
            k = k + 1;
        }
        if !found {
            return Some(id);
        }
        i = i + 1;
    }
    assert forall|j: u8| taken@.contains(j) by {
        assert(j < i);
    }
    None
}

} // verus!
