//! The console proxies' table: which WebSocket port serves the console of
//! which VM.

use vstd::prelude::*;

verus! {

/// Entries `(id, port)` as text; a later entry for an id overrides an earlier.
pub open spec fn entry_views(s: Seq<(String, u16)>) -> Seq<(Seq<char>, u16)> {
    s.map_values(|e: (String, u16)| (e.0@, e.1))
}

/// The map that entries give, later ones winning.
pub open spec fn ports_map(s: Seq<(Seq<char>, u16)>) -> Map<Seq<char>, u16>
    decreases s.len(),
{
    if s.len() == 0 {
        Map::empty()
    } else {
        ports_map(s.drop_last()).insert(s.last().0, s.last().1)
    }
}

/// The entries without those for `id`, in order.
pub open spec fn without(s: Seq<(Seq<char>, u16)>, id: Seq<char>) -> Seq<(Seq<char>, u16)>
    decreases s.len(),
{
    if s.len() == 0 {
        Seq::empty()
    } else if s.last().0 == id {
        without(s.drop_last(), id)
    } else {
        without(s.drop_last(), id).push(s.last())
    }
}

proof fn lemma_without(s: Seq<(Seq<char>, u16)>, id: Seq<char>)
    ensures
        ports_map(without(s, id)) == ports_map(s).remove(id),
    decreases s.len(),
{
    if s.len() > 0 {
        let init = s.drop_last();
        let l = s.last();
        lemma_without(init, id);
        assert(ports_map(s) == ports_map(init).insert(l.0, l.1));
        if l.0 == id {
            assert(without(s, id) == without(init, id));
            assert(ports_map(init).insert(id, l.1).remove(id) =~= ports_map(init).remove(id));
        } else {
            let w = without(init, id).push(l);
            assert(without(s, id) == w);
            assert(w.drop_last() =~= without(init, id));
            assert(ports_map(w) == ports_map(without(init, id)).insert(l.0, l.1));
            assert(ports_map(init).remove(id).insert(l.0, l.1) =~= ports_map(init).insert(l.0, l.1).remove(id));
        }
    } else {
        assert(ports_map(s).remove(id) =~= Map::empty());
    }
}

proof fn lemma_ports_dom(s: Seq<(Seq<char>, u16)>, id: Seq<char>)
    ensures
        ports_map(s).dom().contains(id) <==> exists|i: int| 0 <= i < s.len() && (#[trigger] s[i]).0 == id,
    decreases s.len(),
{
    if s.len() > 0 {
        let init = s.drop_last();
        lemma_ports_dom(init, id);
        if exists|i: int| 0 <= i < init.len() && (#[trigger] init[i]).0 == id {
            let i = choose|i: int| 0 <= i < init.len() && (#[trigger] init[i]).0 == id;
            assert(s[i] == init[i]);
        }
        if exists|i: int| 0 <= i < s.len() && (#[trigger] s[i]).0 == id {
            let i = choose|i: int| 0 <= i < s.len() && (#[trigger] s[i]).0 == id;
            if i < s.len() - 1 {
                assert(init[i] == s[i]);
            }
        }
    }
}

/// The WebSocket port of each VM whose console proxy runs.
pub struct ConsolePorts {
    entries: Vec<(String, u16)>,
}

impl View for ConsolePorts {
    type V = Map<Seq<char>, u16>;

    closed spec fn view(&self) -> Map<Seq<char>, u16> {
        ports_map(entry_views(self.entries@))
    }
}

impl ConsolePorts {
    /// No proxy runs.
    pub fn new() -> (r: ConsolePorts)
        ensures
            r@ == Map::<Seq<char>, u16>::empty(),
    {
        let r = ConsolePorts { entries: Vec::new() };
        assert(entry_views(r.entries@) =~= Seq::<(Seq<char>, u16)>::empty());
        r
    }

    /// The port of the console proxy of `id`, if one runs.
    pub fn port_of(&self, id: &str) -> (r: Option<u16>)
        ensures
            r == (if self@.dom().contains(id@) {
                Some(self@[id@])
            } else {
                None
            }),
    {
        let ghost sv = entry_views(self.entries@);
        let key = String::from_str(id);
        let mut found: Option<u16> = None;
        assert(sv.take(0) =~= Seq::<(Seq<char>, u16)>::empty());
        for i in 0..self.entries.len()
            invariant
                sv == entry_views(self.entries@),
                sv.len() == self.entries@.len(),
                key@ == id@,
                found == (if ports_map(sv.take(i as int)).dom().contains(id@) {
                    Some(ports_map(sv.take(i as int))[id@])
                } else {
                    None
                }),
        {
            assert(sv.take(i + 1).drop_last() =~= sv.take(i as int));
            assert(sv.take(i + 1).last() == sv[i as int]);
            assert(sv[i as int] == (self.entries@[i as int].0@, self.entries@[i as int].1));
            if self.entries[i].0 == key {
                found = Some(self.entries[i].1);
            }
        }
        assert(sv.take(self.entries@.len() as int) =~= sv);
        found
    }

    /// Whether the console proxy of `id` runs.
    pub fn is_running(&self, id: &str) -> (b: bool)
        ensures
            b == self@.dom().contains(id@),
    {
        self.port_of(id).is_some()
    }

    /// Forgets the proxy of `id`; says whether one was recorded.
    pub fn remove(&mut self, id: &str) -> (was: bool)
        ensures
            final(self)@ == old(self)@.remove(id@),
            was == old(self)@.dom().contains(id@),
    {
        let was = self.is_running(id);
        let ghost sv = entry_views(self.entries@);
        let key = String::from_str(id);
        let mut kept: Vec<(String, u16)> = Vec::new();
        assert(sv.take(0) =~= Seq::<(Seq<char>, u16)>::empty());
        for i in 0..self.entries.len()
            invariant
                sv == entry_views(self.entries@),
                sv.len() == self.entries@.len(),
                key@ == id@,
                entry_views(kept@) == without(sv.take(i as int), id@),
        {
            assert(sv.take(i + 1).drop_last() =~= sv.take(i as int));
            assert(sv.take(i + 1).last() == sv[i as int]);
            assert(sv[i as int] == (self.entries@[i as int].0@, self.entries@[i as int].1));
            if self.entries[i].0 != key {
                let ghost before = entry_views(kept@);
                let e = (self.entries[i].0.clone(), self.entries[i].1);
                kept.push(e);
                assert(entry_views(kept@) =~= before.push(sv[i as int]));
            }
        }
        assert(sv.take(self.entries@.len() as int) =~= sv);
        proof {
            lemma_without(sv, id@);
        }
        self.entries = kept;
        was
    }

    /// Records that the console proxy of `id` serves on `port`.
    pub fn insert(&mut self, id: &str, port: u16)
        ensures
            final(self)@ == old(self)@.insert(id@, port),
    {
        self.remove(id);
        let ghost before = entry_views(self.entries@);
        self.entries.push((String::from_str(id), port));
        assert(entry_views(self.entries@) =~= before.push((id@, port)));
        assert(before.push((id@, port)).drop_last() =~= before);
        assert(ports_map(entry_views(self.entries@)) =~= old(self)@.insert(id@, port));
    }

    /// The ids of the running proxies.
    pub fn ids(&self) -> (r: Vec<String>)
        ensures
            forall|k: Seq<char>|
                self@.dom().contains(k) <==> exists|i: int| 0 <= i < r@.len() && #[trigger] r@[i]@ == k,
    {
        let ghost sv = entry_views(self.entries@);
        let mut r: Vec<String> = Vec::new();
        for i in 0..self.entries.len()
            invariant
                sv == entry_views(self.entries@),
                sv.len() == self.entries@.len(),
                r@.len() == i,
                forall|j: int| 0 <= j < i ==> #[trigger] r@[j]@ == sv[j].0,
        {
            r.push(self.entries[i].0.clone());
        }
        proof {
            assert forall|k: Seq<char>| self@.dom().contains(k) <==> exists|i: int|
                0 <= i < r@.len() && #[trigger] r@[i]@ == k by {
                lemma_ports_dom(sv, k);
                if exists|i: int| 0 <= i < sv.len() && (#[trigger] sv[i]).0 == k {
                    let i = choose|i: int| 0 <= i < sv.len() && (#[trigger] sv[i]).0 == k;
                    assert(r@[i]@ == k);
                }
                if exists|i: int| 0 <= i < r@.len() && #[trigger] r@[i]@ == k {
                    let i = choose|i: int| 0 <= i < r@.len() && #[trigger] r@[i]@ == k;
                    assert(sv[i].0 == k);
                }
            }
        }
        r
    }
}

/// Opening the console of a VM whose proxy runs reuses that proxy: once a
/// port is recorded for `id`, it is the port found until `id` is removed,
/// whatever is recorded or removed for other VMs.
pub proof fn lemma_port_kept(
    ports: Map<Seq<char>, u16>,
    id: Seq<char>,
    port: u16,
    other: Seq<char>,
    other_port: u16,
)
    requires
        other != id,
    ensures
        ports.insert(id, port)[id] == port,
        ports.insert(id, port).insert(other, other_port)[id] == port,
        ports.insert(id, port).remove(other)[id] == port,
        !ports.insert(id, port).remove(id).dom().contains(id),
{
}

} // verus!
