//! Per-interface cumulative counter tracking.
//!
//! A [`NetworkData`] tracks the six cumulative counters of one interface and
//! the delta each counter moved during the last observation interval. The
//! [`Networks`] registry maps interface names to trackers; it merges each
//! raw snapshot into the map and never silently deletes an entry: an
//! interface absent from a snapshot keeps its last known values.

use crate::clamped_delta;
use vstd::prelude::*;

verus! {

/// A cumulative counter together with the delta of the last observation
/// interval.
#[derive(Clone, Copy, Debug, PartialEq, Eq, Structural)]
pub struct CounterDelta {
    /// The cumulative value of the last observation.
    pub total: u64,
    /// How far the counter moved between the two most recent observations,
    /// clamped at zero when the counter moved backwards.
    pub last: u64,
}

impl CounterDelta {
    pub open spec fn zero() -> Self {
        CounterDelta { total: 0, last: 0 }
    }

    /// The tracker after observing a new cumulative value.
    pub open spec fn spec_updated(self, new_total: u64) -> Self {
        CounterDelta { total: new_total, last: clamped_delta(new_total, self.total) as u64 }
    }

    /// Observes a new cumulative value: the stored delta becomes the
    /// (clamped) difference against the previous observation.
    pub fn update(&mut self, new_total: u64)
        ensures
            *final(self) == old(self).spec_updated(new_total),
    {
        self.last = crate::delta_u64(new_total, self.total);
        self.total = new_total;
    }
}

/// One raw observation of one interface, handed in by the OS adapter: the
/// interface name, its MTU, and the six cumulative counters.
pub struct InterfaceObservation {
    pub name: String,
    pub mtu: u32,
    pub received_bytes: u64,
    pub transmitted_bytes: u64,
    pub received_packets: u64,
    pub transmitted_packets: u64,
    pub receive_errors: u64,
    pub transmit_errors: u64,
}

/// The tracked counters of one network interface: cumulative totals and the
/// deltas of the last observation interval, in both directions.
#[derive(Clone, Copy, Debug, PartialEq, Eq, Structural)]
pub struct NetworkData {
    pub mtu: u32,
    pub received_bytes: CounterDelta,
    pub transmitted_bytes: CounterDelta,
    pub received_packets: CounterDelta,
    pub transmitted_packets: CounterDelta,
    pub receive_errors: CounterDelta,
    pub transmit_errors: CounterDelta,
}

impl NetworkData {
    pub open spec fn zero() -> Self {
        NetworkData {
            mtu: 0,
            received_bytes: CounterDelta::zero(),
            transmitted_bytes: CounterDelta::zero(),
            received_packets: CounterDelta::zero(),
            transmitted_packets: CounterDelta::zero(),
            receive_errors: CounterDelta::zero(),
            transmit_errors: CounterDelta::zero(),
        }
    }
}

impl Default for NetworkData {
    fn default() -> (r: Self)
        ensures
            r == NetworkData::zero(),
    {
        NetworkData {
            mtu: 0,
            received_bytes: CounterDelta { total: 0, last: 0 },
            transmitted_bytes: CounterDelta { total: 0, last: 0 },
            received_packets: CounterDelta { total: 0, last: 0 },
            transmitted_packets: CounterDelta { total: 0, last: 0 },
            receive_errors: CounterDelta { total: 0, last: 0 },
            transmit_errors: CounterDelta { total: 0, last: 0 },
        }
    }
}

/// The tracker after merging one observation: the MTU is taken over and
/// every counter steps by [`CounterDelta::spec_updated`].
pub open spec fn spec_refresh_counters(d: NetworkData, o: InterfaceObservation) -> NetworkData {
    NetworkData {
        mtu: o.mtu,
        received_bytes: d.received_bytes.spec_updated(o.received_bytes),
        transmitted_bytes: d.transmitted_bytes.spec_updated(o.transmitted_bytes),
        received_packets: d.received_packets.spec_updated(o.received_packets),
        transmitted_packets: d.transmitted_packets.spec_updated(o.transmitted_packets),
        receive_errors: d.receive_errors.spec_updated(o.receive_errors),
        transmit_errors: d.transmit_errors.spec_updated(o.transmit_errors),
    }
}

impl NetworkData {
    /// Merges one raw observation: every "last interval" field becomes
    /// `current - previous` (clamped at zero on counter rollback) and the
    /// totals become the observed cumulative values.
    pub fn refresh_counters(&mut self, o: &InterfaceObservation)
        ensures
            *final(self) == spec_refresh_counters(*old(self), *o),
    {
        self.mtu = o.mtu;
        self.received_bytes.update(o.received_bytes);
        self.transmitted_bytes.update(o.transmitted_bytes);
        self.received_packets.update(o.received_packets);
        self.transmitted_packets.update(o.transmitted_packets);
        self.receive_errors.update(o.receive_errors);
        self.transmit_errors.update(o.transmit_errors);
    }

    /// Bytes received during the last interval.
    pub fn get_received(&self) -> (r: u64)
        ensures
            r == self.received_bytes.last,
    {
        self.received_bytes.last
    }

    /// Cumulative bytes received.
    pub fn get_total_received(&self) -> (r: u64)
        ensures
            r == self.received_bytes.total,
    {
        self.received_bytes.total
    }

    /// Bytes transmitted during the last interval.
    pub fn get_transmitted(&self) -> (r: u64)
        ensures
            r == self.transmitted_bytes.last,
    {
        self.transmitted_bytes.last
    }

    /// Cumulative bytes transmitted.
    pub fn get_total_transmitted(&self) -> (r: u64)
        ensures
            r == self.transmitted_bytes.total,
    {
        self.transmitted_bytes.total
    }

    /// Packets received during the last interval.
    pub fn get_packets_received(&self) -> (r: u64)
        ensures
            r == self.received_packets.last,
    {
        self.received_packets.last
    }

    /// Cumulative packets received.
    pub fn get_total_packets_received(&self) -> (r: u64)
        ensures
            r == self.received_packets.total,
    {
        self.received_packets.total
    }

    /// Packets transmitted during the last interval.
    pub fn get_packets_transmitted(&self) -> (r: u64)
        ensures
            r == self.transmitted_packets.last,
    {
        self.transmitted_packets.last
    }

    /// Cumulative packets transmitted.
    pub fn get_total_packets_transmitted(&self) -> (r: u64)
        ensures
            r == self.transmitted_packets.total,
    {
        self.transmitted_packets.total
    }

    /// Receive errors during the last interval.
    pub fn get_errors_on_received(&self) -> (r: u64)
        ensures
            r == self.receive_errors.last,
    {
        self.receive_errors.last
    }

    /// Cumulative receive errors.
    pub fn get_total_errors_on_received(&self) -> (r: u64)
        ensures
            r == self.receive_errors.total,
    {
        self.receive_errors.total
    }

    /// Transmit errors during the last interval.
    pub fn get_errors_on_transmitted(&self) -> (r: u64)
        ensures
            r == self.transmit_errors.last,
    {
        self.transmit_errors.last
    }

    /// Cumulative transmit errors.
    pub fn get_total_errors_on_transmitted(&self) -> (r: u64)
        ensures
            r == self.transmit_errors.total,
    {
        self.transmit_errors.total
    }
}

/// The mathematical content of an interface registry: name to tracker,
/// built from the entry list front to back.
pub open spec fn map_of(s: Seq<(String, NetworkData)>) -> Map<Seq<char>, NetworkData>
    decreases s.len(),
{
    if s.len() == 0 {
        Map::empty()
    } else {
        map_of(s.drop_last()).insert(s.last().0@, s.last().1)
    }
}

/// No interface name occurs twice in the entry list.
pub open spec fn unique_names(s: Seq<(String, NetworkData)>) -> bool {
    forall|i: int, j: int| 0 <= i < j < s.len() ==> (#[trigger] s[i]).0@ != (#[trigger] s[j]).0@
}

/// Every listed entry is in the map, under its own name.
proof fn lemma_map_of_index(s: Seq<(String, NetworkData)>, i: int)
    requires
        unique_names(s),
        0 <= i < s.len(),
    ensures
        map_of(s).contains_key(s[i].0@),
        map_of(s)[s[i].0@] == s[i].1,
    decreases s.len(),
{
    if i < s.len() - 1 {
        assert(unique_names(s.drop_last())) by {
            assert(forall|x: int, y: int|
                0 <= x < y < s.drop_last().len() ==> s.drop_last()[x] == s[x] && s.drop_last()[y]
                    == s[y]);
        }
        lemma_map_of_index(s.drop_last(), i);
        assert(s[i].0@ != s.last().0@);
    }
}

/// A name listed nowhere is not in the map.
proof fn lemma_map_of_absent(s: Seq<(String, NetworkData)>, name: Seq<char>)
    requires
        forall|i: int| 0 <= i < s.len() ==> (#[trigger] s[i]).0@ != name,
    ensures
        !map_of(s).contains_key(name),
    decreases s.len(),
{
    if s.len() > 0 {
        assert(forall|i: int|
            0 <= i < s.drop_last().len() ==> s.drop_last()[i] == s[i]);
        lemma_map_of_absent(s.drop_last(), name);
    }
}

/// Replacing entry `i` by a new tracker under the same name updates exactly
/// that name in the map.
proof fn lemma_map_of_update(s: Seq<(String, NetworkData)>, i: int, p: (String, NetworkData))
    requires
        unique_names(s),
        0 <= i < s.len(),
        p.0 == s[i].0,
    ensures
        map_of(s.update(i, p)) =~= map_of(s).insert(s[i].0@, p.1),
        unique_names(s.update(i, p)),
    decreases s.len(),
{
    let t = s.update(i, p);
    assert(t.len() == s.len());
    if i == s.len() - 1 {
        assert(t.drop_last() =~= s.drop_last());
    } else {
        assert(unique_names(s.drop_last())) by {
            assert(forall|x: int, y: int|
                0 <= x < y < s.drop_last().len() ==> s.drop_last()[x] == s[x] && s.drop_last()[y]
                    == s[y]);
        }
        assert(t.drop_last() =~= s.drop_last().update(i, p));
        lemma_map_of_update(s.drop_last(), i, p);
        assert(t.last() == s.last());
        assert(s[i].0@ != s.last().0@);
        assert(map_of(t) =~= map_of(s).insert(s[i].0@, p.1));
    }
    assert(forall|x: int| 0 <= x < s.len() && x != i ==> t[x] == s[x]);
}

/// One observation merged into the registry's map: an absent name is
/// inserted with a zero baseline, a present one steps its tracker.
pub open spec fn spec_observe(
    m: Map<Seq<char>, NetworkData>,
    o: InterfaceObservation,
) -> Map<Seq<char>, NetworkData> {
    let base = if m.contains_key(o.name@) {
        m[o.name@]
    } else {
        NetworkData::zero()
    };
    m.insert(o.name@, spec_refresh_counters(base, o))
}

/// A whole snapshot merged into the registry's map, observation by
/// observation, in order.
pub open spec fn spec_refresh_seq(
    m: Map<Seq<char>, NetworkData>,
    obs: Seq<InterfaceObservation>,
) -> Map<Seq<char>, NetworkData>
    decreases obs.len(),
{
    if obs.len() == 0 {
        m
    } else {
        spec_refresh_seq(spec_observe(m, obs[0]), obs.drop_first())
    }
}

/// Merging one more observation at the end merges it into the result.
proof fn lemma_refresh_seq_snoc(
    m: Map<Seq<char>, NetworkData>,
    obs: Seq<InterfaceObservation>,
    o: InterfaceObservation,
)
    ensures
        spec_refresh_seq(m, obs.push(o)) == spec_observe(spec_refresh_seq(m, obs), o),
    decreases obs.len(),
{
    reveal_with_fuel(spec_refresh_seq, 2);
    if obs.len() == 0 {
        assert(obs.push(o).drop_first() =~= Seq::<InterfaceObservation>::empty());
        assert(obs.push(o)[0] == o);
    } else {
        assert(obs.push(o)[0] == obs[0]);
        assert(obs.push(o).drop_first() =~= obs.drop_first().push(o));
        lemma_refresh_seq_snoc(spec_observe(m, obs[0]), obs.drop_first(), o);
    }
}

/// Network interfaces, by name. Entries are never removed by a refresh:
/// an interface that vanishes from the snapshots keeps its last values.
pub struct Networks {
    pub interfaces: Vec<(String, NetworkData)>,
}

impl Default for Networks {
    fn default() -> (r: Self)
        ensures
            r.wf(),
            r.spec_map() == Map::<Seq<char>, NetworkData>::empty(),
            r.interfaces@.len() == 0,
    {
        Networks { interfaces: Vec::new() }
    }
}

impl Networks {
    /// The registry as a mathematical map from interface name to tracker.
    pub open spec fn spec_map(self) -> Map<Seq<char>, NetworkData> {
        map_of(self.interfaces@)
    }

    /// Interface names are unique.
    pub open spec fn wf(self) -> bool {
        unique_names(self.interfaces@)
    }

    /// The position of `name` in the entry list.
    fn position_of(&self, name: &String) -> (r: Option<usize>)
        ensures
            match r {
                Some(i) => i < self.interfaces@.len() && self.interfaces@[i as int].0@ == name@,
                None => forall|j: int|
                    0 <= j < self.interfaces@.len() ==> (#[trigger] self.interfaces@[j]).0@
                        != name@,
            },
    {
        let mut i: usize = 0;
        while i < self.interfaces.len()
            invariant
                0 <= i <= self.interfaces@.len(),
                forall|j: int|
                    0 <= j < i ==> (#[trigger] self.interfaces@[j]).0@ != name@,
            decreases self.interfaces@.len() - i,
        {
            if self.interfaces[i].0 == *name {
                return Some(i);
            }
            i = i + 1;
        }
        None
    }

    /// Looks one interface up by name.
    pub fn get(&self, name: &String) -> (r: Option<&NetworkData>)
        requires
            self.wf(),
        ensures
            match r {
                Some(d) => self.spec_map().contains_key(name@) && *d == self.spec_map()[name@],
                None => !self.spec_map().contains_key(name@),
            },
    {
        match self.position_of(name) {
            Some(i) => {
                proof {
                    lemma_map_of_index(self.interfaces@, i as int);
                }
                Some(&self.interfaces[i].1)
            },
            None => {
                proof {
                    lemma_map_of_absent(self.interfaces@, name@);
                }
                None
            },
        }
    }

    /// The entry list itself, for callers that walk all interfaces.
    pub fn entries(&self) -> (r: &Vec<(String, NetworkData)>)
        ensures
            *r == self.interfaces,
    {
        &self.interfaces
    }

    /// Merges a raw snapshot: every observed interface is looked up by name;
    /// an absent one is inserted with a zero baseline (its first deltas are
    /// the full cumulative values and must not be read as a rate), a present
    /// one steps its tracker. Repeated observations of one name are merged
    /// in order. Nothing is ever removed.
    pub fn refresh_networks_list(&mut self, observations: &Vec<InterfaceObservation>)
        requires
            old(self).wf(),
        ensures
            final(self).wf(),
            final(self).spec_map() == spec_refresh_seq(old(self).spec_map(), observations@),
    {
        let ghost pre = *self;
        let mut k: usize = 0;
        proof {
            assert(observations@.take(0) =~= Seq::<InterfaceObservation>::empty());
        }
        while k < observations.len()
            invariant
                0 <= k <= observations@.len(),
                self.wf(),
                self.spec_map() == spec_refresh_seq(pre.spec_map(), observations@.take(k as int)),
            decreases observations@.len() - k,
        {
            let obs = &observations[k];
            proof {
                assert(observations@.take(k as int).push(observations@[k as int]) =~= observations@.take(
                    k + 1,
                ));
                lemma_refresh_seq_snoc(
                    pre.spec_map(),
                    observations@.take(k as int),
                    observations@[k as int],
                );
            }
            match self.position_of(&obs.name) {
                Some(i) => {
                    proof {
                        lemma_map_of_index(self.interfaces@, i as int);
                    }
                    let key = self.interfaces[i].0.clone();
                    let mut nd = self.interfaces[i].1;
                    nd.refresh_counters(obs);
                    proof {
                        lemma_map_of_update(self.interfaces@, i as int, (key, nd));
                    }
                    self.interfaces.set(i, (key, nd));
                },
                None => {
                    let ghost before = self.interfaces@;
                    proof {
                        lemma_map_of_absent(before, obs.name@);
                    }
                    let mut nd = NetworkData::default();
                    nd.refresh_counters(obs);
                    let key = obs.name.clone();
                    self.interfaces.push((key, nd));
                    proof {
                        assert(self.interfaces@.drop_last() =~= before);
                        assert(forall|x: int, y: int|
                            0 <= x < y < before.len() ==> (#[trigger] self.interfaces@[x]).0@
                                != (#[trigger] self.interfaces@[y]).0@);
                        assert(forall|x: int|
                            0 <= x < before.len() ==> (#[trigger] self.interfaces@[x]).0@
                                != obs.name@);
                    }
                },
            }
            k = k + 1;
        }
        proof {
            assert(observations@.take(observations@.len() as int) =~= observations@);
        }
    }

    /// Refreshes the registry from a raw snapshot.
    pub fn refresh(&mut self, observations: &Vec<InterfaceObservation>)
        requires
            old(self).wf(),
        ensures
            final(self).wf(),
            final(self).spec_map() == spec_refresh_seq(old(self).spec_map(), observations@),
    {
        self.refresh_networks_list(observations);
    }
}

/// An interface present in the registry and absent from a snapshot retains
/// its last computed values unchanged, and is never deleted.
pub proof fn lemma_absent_interface_retained(
    m: Map<Seq<char>, NetworkData>,
    obs: Seq<InterfaceObservation>,
    name: Seq<char>,
)
    requires
        m.contains_key(name),
        forall|k: int| 0 <= k < obs.len() ==> (#[trigger] obs[k]).name@ != name,
    ensures
        spec_refresh_seq(m, obs).contains_key(name),
        spec_refresh_seq(m, obs)[name] == m[name],
    decreases obs.len(),
{
    if obs.len() > 0 {
        let m1 = spec_observe(m, obs[0]);
        assert(forall|k: int|
            0 <= k < obs.drop_first().len() ==> (#[trigger] obs.drop_first()[k]).name@ != name);
        lemma_absent_interface_retained(m1, obs.drop_first(), name);
    }
}

/// No refresh ever removes an interface from the registry.
pub proof fn lemma_interface_never_removed(
    m: Map<Seq<char>, NetworkData>,
    obs: Seq<InterfaceObservation>,
    name: Seq<char>,
)
    requires
        m.contains_key(name),
    ensures
        spec_refresh_seq(m, obs).contains_key(name),
    decreases obs.len(),
{
    if obs.len() > 0 {
        lemma_interface_never_removed(spec_observe(m, obs[0]), obs.drop_first(), name);
    }
}

} // verus!
