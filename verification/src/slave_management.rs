//! The slave registry: one record per known remote node.
//!
//! The registry owns the collection of [`SlaveNode`] records, keyed by the
//! node's address. Its view is a map from address to the node's timestamps;
//! every operation is a pure state transition stated over that map.

use vstd::prelude::*;

verus! {

/// How long a node may stay silent before the eviction sweep removes it,
/// in milliseconds.
pub const STALE_THRESHOLD_MS: i64 = 60000;

/// One known remote node.
pub struct SlaveNode {
    /// The node's network endpoint identifier; unique within a registry.
    pub address: String,
    /// When the most recent outbound time request to this node was sent,
    /// in milliseconds since the Unix epoch.
    pub request_time: i64,
    /// When the most recent inbound message from this node arrived,
    /// in milliseconds since the Unix epoch.
    pub last_response: i64,
}

impl SlaveNode {
    /// A record for a node first seen at clock reading `now`: both
    /// timestamps start there.
    pub fn new_at(address: String, now: i64) -> (r: SlaveNode)
        ensures
            r.address == address,
            r.request_time == now,
            r.last_response == now,
    {
        SlaveNode { address, request_time: now, last_response: now }
    }

    /// A record for a node first seen now: [`SlaveNode::new_at`] at the
    /// current clock reading.
    pub fn new(address: String) -> (r: SlaveNode)
        ensures
            r.address == address,
            r.last_response == r.request_time,
    {
        let now = crate::clock::now_millis();
        SlaveNode::new_at(address, now)
    }

    /// Stamps the record with an inbound message at clock reading `now`;
    /// address and `request_time` are untouched.
    pub fn stamp_response(&mut self, now: i64)
        ensures
            final(self).last_response == now,
            final(self).address == old(self).address,
            final(self).request_time == old(self).request_time,
    {
        self.last_response = now;
    }

    /// Stamps the record with an inbound message at the current clock
    /// reading: [`SlaveNode::stamp_response`] at that reading.
    pub fn update_last_response(&mut self)
        ensures
            final(self).address == old(self).address,
            final(self).request_time == old(self).request_time,
    {
        let now = crate::clock::now_millis();
        self.stamp_response(now);
    }

    /// Stamps the record with an outbound request sent at clock reading
    /// `now`; address and `last_response` are untouched.
    pub fn stamp_request(&mut self, now: i64)
        ensures
            final(self).request_time == now,
            final(self).address == old(self).address,
            final(self).last_response == old(self).last_response,
    {
        self.request_time = now;
    }

    /// Stamps the record with an outbound request at the current clock
    /// reading: [`SlaveNode::stamp_request`] at that reading.
    pub fn update_request_time(&mut self)
        ensures
            final(self).address == old(self).address,
            final(self).last_response == old(self).last_response,
    {
        let now = crate::clock::now_millis();
        self.stamp_request(now);
    }
}

impl Clone for SlaveNode {
    fn clone(&self) -> (r: Self)
        ensures
            r == *self,
    {
        SlaveNode {
            address: self.address.clone(),
            request_time: self.request_time,
            last_response: self.last_response,
        }
    }
}

/// The timestamps of one registry record, as the registry's map view holds
/// them.
#[derive(Clone, Copy, Debug, PartialEq, Eq, Structural)]
pub struct NodeState {
    /// When the most recent inbound message from the address arrived.
    pub last_response: i64,
    /// When the most recent outbound time request to the address was sent.
    pub request_time: i64,
}

/// The map entry that a node record stands for.
pub open spec fn node_state(n: SlaveNode) -> NodeState {
    NodeState { last_response: n.last_response, request_time: n.request_time }
}

/// No two records share an address.
spec fn unique_addrs(s: Seq<SlaveNode>) -> bool {
    forall|i: int, j: int|
        0 <= i < j < s.len() ==> s[i].address@ != s[j].address@
}

/// The records of `s` as a map from address to timestamps; on a duplicate
/// address the later record wins (the registry never holds duplicates).
spec fn map_of(s: Seq<SlaveNode>) -> Map<Seq<char>, NodeState>
    decreases s.len(),
{
    if s.len() == 0 {
        Map::empty()
    } else {
        map_of(s.drop_last()).insert(s.last().address@, node_state(s.last()))
    }
}

proof fn lemma_unique_drop_last(s: Seq<SlaveNode>)
    requires
        s.len() > 0,
        unique_addrs(s),
    ensures
        unique_addrs(s.drop_last()),
{
    assert forall|i: int, j: int|
        0 <= i < j < s.drop_last().len() implies s.drop_last()[i].address@
        != s.drop_last()[j].address@ by {
        assert(s.drop_last()[i] == s[i]);
        assert(s.drop_last()[j] == s[j]);
    }
}

/// An address is in the map view exactly where some record carries it.
proof fn lemma_map_of_contains(s: Seq<SlaveNode>, a: Seq<char>)
    ensures
        map_of(s).dom().contains(a) <==> exists|i: int|
            0 <= i < s.len() && s[i].address@ == a,
    decreases s.len(),
{
    if s.len() == 0 {
    } else {
        lemma_map_of_contains(s.drop_last(), a);
        if s.last().address@ == a {
            assert(s[s.len() - 1].address@ == a);
        } else {
            if exists|i: int| 0 <= i < s.len() && s[i].address@ == a {
                let i = choose|i: int| 0 <= i < s.len() && s[i].address@ == a;
                assert(i < s.len() - 1);
                assert(s.drop_last()[i].address@ == a);
            }
        }
    }
}

/// With unique addresses, the map view holds each record under its address.
proof fn lemma_map_of_get(s: Seq<SlaveNode>, i: int)
    requires
        unique_addrs(s),
        0 <= i < s.len(),
    ensures
        map_of(s).dom().contains(s[i].address@),
        map_of(s)[s[i].address@] == node_state(s[i]),
    decreases s.len(),
{
    if i == s.len() - 1 {
    } else {
        lemma_unique_drop_last(s);
        assert(s.drop_last()[i] == s[i]);
        lemma_map_of_get(s.drop_last(), i);
        assert(s.last().address@ != s[i].address@);
    }
}

/// Replacing the record at `i` by one with the same address updates exactly
/// that address in the map view.
proof fn lemma_map_of_update(s: Seq<SlaveNode>, i: int, n: SlaveNode)
    requires
        unique_addrs(s),
        0 <= i < s.len(),
        n.address@ == s[i].address@,
    ensures
        map_of(s.update(i, n)) == map_of(s).insert(n.address@, node_state(n)),
    decreases s.len(),
{
    let su = s.update(i, n);
    if i == s.len() - 1 {
        assert(su.drop_last() =~= s.drop_last());
        assert(su.last() == n);
        assert(map_of(su) =~= map_of(s).insert(n.address@, node_state(n)));
    } else {
        lemma_unique_drop_last(s);
        assert(s.drop_last()[i] == s[i]);
        lemma_map_of_update(s.drop_last(), i, n);
        assert(su.drop_last() =~= s.drop_last().update(i, n));
        assert(su.last() == s.last());
        assert(s.last().address@ != n.address@);
        assert(map_of(su) =~= map_of(s).insert(n.address@, node_state(n)));
    }
}

/// With unique addresses the map view has one entry per record.
proof fn lemma_map_of_dom_len(s: Seq<SlaveNode>)
    requires
        unique_addrs(s),
    ensures
        map_of(s).dom().finite(),
        map_of(s).dom().len() == s.len(),
    decreases s.len(),
{
    if s.len() == 0 {
        assert(map_of(s).dom() =~= Set::<Seq<char>>::empty());
    } else {
        lemma_unique_drop_last(s);
        lemma_map_of_dom_len(s.drop_last());
        lemma_map_of_contains(s.drop_last(), s.last().address@);
        assert forall|i: int| 0 <= i < s.drop_last().len() implies s.drop_last()[i].address@
            != s.last().address@ by {
            assert(s.drop_last()[i] == s[i]);
        }
        assert(!map_of(s.drop_last()).dom().contains(s.last().address@));
    }
}

/// What `upsert_introduction` and `record_response` do to the registry's
/// map view: the address's record comes to exist with `last_response = now`;
/// a fresh record starts with `request_time = now` as well, an existing one
/// keeps its `request_time`.
pub open spec fn upsert_model(
    m: Map<Seq<char>, NodeState>,
    a: Seq<char>,
    now: i64,
) -> Map<Seq<char>, NodeState> {
    m.insert(
        a,
        NodeState {
            last_response: now,
            request_time: if m.dom().contains(a) {
                m[a].request_time
            } else {
                now
            },
        },
    )
}

/// What `evict_stale` leaves: exactly the records with
/// `now - last_response < threshold` (in unbounded arithmetic), each
/// untouched.
pub open spec fn evict_model(
    m: Map<Seq<char>, NodeState>,
    now: i64,
    threshold: i64,
) -> Map<Seq<char>, NodeState> {
    Map::new(
        |a: Seq<char>| m.dom().contains(a) && now - m[a].last_response < threshold,
        |a: Seq<char>| m[a],
    )
}

/// Whether a record is stale: its age `now - last_response` has reached the
/// threshold, compared without overflow.
fn is_stale(now: i64, last_response: i64, threshold: i64) -> (r: bool)
    ensures
        r == (now - last_response >= threshold),
{
    match now.checked_sub(last_response) {
        Some(d) => d >= threshold,
        None => now >= last_response,
    }
}

/// The collection of known slave nodes, one record per address.
pub struct Registry {
    nodes: Vec<SlaveNode>,
}

impl View for Registry {
    type V = Map<Seq<char>, NodeState>;

    closed spec fn view(&self) -> Map<Seq<char>, NodeState> {
        map_of(self.nodes@)
    }
}

impl Registry {
    /// The registry's invariant: no two records share an address.
    pub closed spec fn wf(&self) -> bool {
        unique_addrs(self.nodes@)
    }

    /// An empty registry.
    pub fn new() -> (r: Registry)
        ensures
            r.wf(),
            r@ == Map::<Seq<char>, NodeState>::empty(),
    {
        Registry { nodes: Vec::new() }
    }

    /// The index of the record with the given address, if any.
    fn find_index(&self, address: &String) -> (r: Option<usize>)
        ensures
            match r {
                Some(i) => i < self.nodes@.len() && self.nodes@[i as int].address@ == address@,
                None => forall|i: int|
                    0 <= i < self.nodes@.len() ==> self.nodes@[i].address@ != address@,
            },
    {
        let mut i: usize = 0;
        while i < self.nodes.len()
            invariant
                i <= self.nodes@.len(),
                forall|j: int| 0 <= j < i ==> self.nodes@[j].address@ != address@,
            decreases self.nodes@.len() - i,
        {
            if self.nodes[i].address == *address {
                return Some(i);
            }
            i += 1;
        }
        None
    }

    /// Creates the record for `address` if absent, else refreshes it; either
    /// way `last_response` becomes `now`, and a fresh record's `request_time`
    /// starts at `now`. Repeated calls leave exactly one record.
    pub fn upsert_introduction(&mut self, address: String, now: i64)
        requires
            old(self).wf(),
        ensures
            final(self).wf(),
            final(self)@ == upsert_model(old(self)@, address@, now),
    {
        let ghost s0 = self.nodes@;
        match self.find_index(&address) {
            Some(i) => {
                let updated = SlaveNode {
                    address: self.nodes[i].address.clone(),
                    request_time: self.nodes[i].request_time,
                    last_response: now,
                };
                proof {
                    lemma_map_of_get(s0, i as int);
                    lemma_map_of_update(s0, i as int, updated);
                }
                self.nodes[i] = updated;
                proof {
                    assert forall|p: int, q: int|
                        0 <= p < q < self.nodes@.len() implies self.nodes@[p].address@
                        != self.nodes@[q].address@ by {
                        assert(s0[p].address@ != s0[q].address@);
                    }
                }
            },
            None => {
                let node = SlaveNode::new_at(address, now);
                self.nodes.push(node);
                proof {
                    lemma_map_of_contains(s0, node.address@);
                    assert(self.nodes@.drop_last() =~= s0);
                    assert(self.nodes@.last() == node);
                }
            },
        }
    }

    /// Records an inbound time report from `address`: identical
    /// auto-registration to [`Registry::upsert_introduction`] — an unknown
    /// address gains its record and its `last_response` in this one step.
    /// The reported clock reading itself is the coordinator's concern, not
    /// registry state.
    pub fn record_response(&mut self, address: String, observed_time: i64, now: i64)
        requires
            old(self).wf(),
        ensures
            final(self).wf(),
            final(self)@ == upsert_model(old(self)@, address@, now),
            final(self)@.dom().contains(address@),
            final(self)@[address@].last_response == now,
    {
        let _ = observed_time;
        self.upsert_introduction(address, now);
    }

    /// Notes that a time request was sent to `address` at `sent_at`; an
    /// unknown address is left alone.
    pub fn record_request_sent(&mut self, address: &String, sent_at: i64)
        requires
            old(self).wf(),
        ensures
            final(self).wf(),
            final(self)@ == (if old(self)@.dom().contains(address@) {
                old(self)@.insert(
                    address@,
                    NodeState {
                        last_response: old(self)@[address@].last_response,
                        request_time: sent_at,
                    },
                )
            } else {
                old(self)@
            }),
    {
        let ghost s0 = self.nodes@;
        match self.find_index(address) {
            Some(i) => {
                let updated = SlaveNode {
                    address: self.nodes[i].address.clone(),
                    request_time: sent_at,
                    last_response: self.nodes[i].last_response,
                };
                proof {
                    lemma_map_of_get(s0, i as int);
                    lemma_map_of_update(s0, i as int, updated);
                    lemma_map_of_contains(s0, address@);
                }
                self.nodes[i] = updated;
                proof {
                    assert forall|p: int, q: int|
                        0 <= p < q < self.nodes@.len() implies self.nodes@[p].address@
                        != self.nodes@[q].address@ by {
                        assert(s0[p].address@ != s0[q].address@);
                    }
                }
            },
            None => {
                proof {
                    lemma_map_of_contains(s0, address@);
                }
            },
        }
    }

    /// The timestamps of the record for `address`: `Some((last_response,
    /// request_time))` where the record exists, else `None`.
    pub fn lookup(&self, address: &String) -> (r: Option<(i64, i64)>)
        requires
            self.wf(),
        ensures
            match r {
                Some(p) => self@.dom().contains(address@) && self@[address@] == (NodeState {
                    last_response: p.0,
                    request_time: p.1,
                }),
                None => !self@.dom().contains(address@),
            },
    {
        proof {
            lemma_map_of_contains(self.nodes@, address@);
        }
        match self.find_index(address) {
            Some(i) => {
                proof {
                    lemma_map_of_get(self.nodes@, i as int);
                }
                Some((self.nodes[i].last_response, self.nodes[i].request_time))
            },
            None => None,
        }
    }

    /// How many nodes are known.
    pub fn len(&self) -> (r: usize)
        requires
            self.wf(),
        ensures
            self@.dom().finite(),
            r == self@.dom().len(),
    {
        proof {
            lemma_map_of_dom_len(self.nodes@);
        }
        self.nodes.len()
    }

    /// A point-in-time copy of every known address with the time of the last
    /// request sent to it, for the coordinator to iterate without holding the
    /// registry: the addresses are exactly the registry's keys, pairwise
    /// distinct, each with its record's `request_time`.
    pub fn snapshot_active(&self) -> (r: Vec<(String, i64)>)
        requires
            self.wf(),
        ensures
            self@.dom().finite(),
            r@.len() == self@.dom().len(),
            forall|i: int|
                0 <= i < r@.len() ==> self@.dom().contains(#[trigger] r@[i].0@) && self@[r@[i].0@].request_time
                    == r@[i].1,
            forall|i: int, j: int| 0 <= i < j < r@.len() ==> r@[i].0@ != r@[j].0@,
            forall|a: Seq<char>|
                self@.dom().contains(a) ==> exists|i: int| 0 <= i < r@.len() && r@[i].0@ == a,
    {
        proof {
            lemma_map_of_dom_len(self.nodes@);
        }
        let mut out: Vec<(String, i64)> = Vec::new();
        let mut i: usize = 0;
        while i < self.nodes.len()
            invariant
                self.wf(),
                i <= self.nodes@.len(),
                out@.len() == i,
                forall|k: int|
                    0 <= k < i ==> (#[trigger] out@[k].0@) == self.nodes@[k].address@ && out@[k].1
                        == self.nodes@[k].request_time,
            decreases self.nodes@.len() - i,
        {
            out.push((self.nodes[i].address.clone(), self.nodes[i].request_time));
            i += 1;
        }
        proof {
            assert forall|k: int| 0 <= k < out@.len() implies self@.dom().contains(
                #[trigger] out@[k].0@,
            ) && self@[out@[k].0@].request_time == out@[k].1 by {
                lemma_map_of_get(self.nodes@, k);
            }
            assert forall|a: Seq<char>| self@.dom().contains(a) implies exists|i: int|
                0 <= i < out@.len() && out@[i].0@ == a by {
                lemma_map_of_contains(self.nodes@, a);
                let i = choose|i: int| 0 <= i < self.nodes@.len() && self.nodes@[i].address@ == a;
                assert(out@[i].0@ == a);
            }
        }
        out
    }

    /// Removes exactly the records whose age `now - last_response` has
    /// reached `threshold` (milliseconds) and leaves every other record
    /// untouched.
    pub fn evict_stale(&mut self, now: i64, threshold: i64)
        requires
            old(self).wf(),
        ensures
            final(self).wf(),
            final(self)@ == evict_model(old(self)@, now, threshold),
    {
        let ghost s = self.nodes@;
        let mut kept: Vec<SlaveNode> = Vec::new();
        let mut i: usize = 0;
        while i < self.nodes.len()
            invariant
                self.nodes@ == s,
                unique_addrs(s),
                i <= s.len(),
                unique_addrs(kept@),
                map_of(kept@) == evict_model(map_of(s.take(i as int)), now, threshold),
                forall|k: int|
                    0 <= k < kept@.len() ==> exists|j: int|
                        0 <= j < i && (#[trigger] kept@[k].address@) == s[j].address@,
            decreases s.len() - i,
        {
            let ghost kept0 = kept@;
            let stale = is_stale(now, self.nodes[i].last_response, threshold);
            if !stale {
                kept.push(self.nodes[i].clone());
            }
            proof {
                let gi = i as int;
                assert(s.take(gi + 1).drop_last() =~= s.take(gi));
                assert(s.take(gi + 1).last() == s[gi]);
                lemma_map_of_contains(s.take(gi), s[gi].address@);
                assert forall|j: int| 0 <= j < gi implies s.take(gi)[j].address@
                    != s[gi].address@ by {
                    assert(s.take(gi)[j] == s[j]);
                }
                assert(!map_of(s.take(gi)).dom().contains(s[gi].address@));
                if !stale {
                    assert forall|k: int| 0 <= k < kept0.len() implies kept0[k].address@
                        != s[gi].address@ by {
                        let j = choose|j: int|
                            0 <= j < gi && (#[trigger] kept0[k].address@) == s[j].address@;
                        assert(s[j].address@ != s[gi].address@);
                    }
                    assert(kept@.drop_last() =~= kept0);
                    assert(kept@.last() == s[gi]);
                    assert(map_of(kept@) =~= evict_model(map_of(s.take(gi + 1)), now, threshold));
                } else {
                    assert(map_of(kept@) =~= evict_model(map_of(s.take(gi + 1)), now, threshold));
                }
            }
            i += 1;
        }
        proof {
            assert(s.take(s.len() as int) =~= s);
        }
        self.nodes = kept;
    }
}

/// Registers or refreshes `address` at the current clock reading, as
/// [`Registry::upsert_introduction`] does at a given one.
pub fn manage_node_introduction(registry: &mut Registry, address: String)
    requires
        old(registry).wf(),
    ensures
        final(registry).wf(),
        exists|t: i64| final(registry)@ == upsert_model(old(registry)@, address@, t),
{
    let now = crate::clock::now_millis();
    registry.upsert_introduction(address, now);
}

/// Sweeps out every record that is stale at the current clock reading, with
/// the fixed staleness threshold, as [`Registry::evict_stale`] does at a
/// given one.
pub fn clean_up_stale_nodes(registry: &mut Registry)
    requires
        old(registry).wf(),
    ensures
        final(registry).wf(),
        exists|t: i64| final(registry)@ == evict_model(old(registry)@, t, STALE_THRESHOLD_MS),
{
    let now = crate::clock::now_millis();
    registry.evict_stale(now, STALE_THRESHOLD_MS);
}

/// Re-applying an eviction sweep with the same clock and threshold is a
/// no-op: eviction removes precisely the stale records, so a second sweep
/// finds none.
pub proof fn lemma_evict_idempotent(m: Map<Seq<char>, NodeState>, now: i64, threshold: i64)
    ensures
        evict_model(evict_model(m, now, threshold), now, threshold) == evict_model(
            m,
            now,
            threshold,
        ),
{
    assert(evict_model(evict_model(m, now, threshold), now, threshold) =~= evict_model(
        m,
        now,
        threshold,
    ));
}

/// A run of registry updates from one address, oldest first: each message
/// was processed at the timestamp the sequence holds for it.
pub open spec fn apply_messages(
    m: Map<Seq<char>, NodeState>,
    a: Seq<char>,
    nows: Seq<i64>,
) -> Map<Seq<char>, NodeState>
    decreases nows.len(),
{
    if nows.len() == 0 {
        m
    } else {
        upsert_model(apply_messages(m, a, nows.drop_last()), a, nows.last())
    }
}

/// After any non-empty sequence of `introduce` / `time_report` messages from
/// address `a`, the registry holds exactly one entry for `a`, its
/// `last_response` is the timestamp of the most recently processed message,
/// and every other address is untouched.
pub proof fn lemma_registry_message_history(
    m: Map<Seq<char>, NodeState>,
    a: Seq<char>,
    nows: Seq<i64>,
)
    requires
        nows.len() > 0,
    ensures
        apply_messages(m, a, nows).dom() == m.dom().insert(a),
        apply_messages(m, a, nows).dom().contains(a),
        apply_messages(m, a, nows)[a].last_response == nows.last(),
        forall|b: Seq<char>|
            b != a && m.dom().contains(b) ==> apply_messages(m, a, nows)[b] == m[b],
    decreases nows.len(),
{
    if nows.len() == 1 {
        assert(nows.drop_last().len() == 0);
        assert(apply_messages(m, a, nows.drop_last()) == m);
        assert(apply_messages(m, a, nows) == upsert_model(m, a, nows.last()));
        assert(upsert_model(m, a, nows.last()).dom() =~= m.dom().insert(a));
    } else {
        lemma_registry_message_history(m, a, nows.drop_last());
        let prev = apply_messages(m, a, nows.drop_last());
        assert(upsert_model(prev, a, nows.last()).dom() =~= m.dom().insert(a));
    }
}

/// Messages processed in timestamp order never move `last_response`
/// backward: after any longer run of messages from `a` it is at least what
/// any shorter run left.
pub proof fn lemma_last_response_monotonic(
    m: Map<Seq<char>, NodeState>,
    a: Seq<char>,
    nows: Seq<i64>,
    k: int,
)
    requires
        0 < k <= nows.len(),
        forall|i: int, j: int| 0 <= i <= j < nows.len() ==> nows[i] <= nows[j],
    ensures
        apply_messages(m, a, nows.take(k))[a].last_response <= apply_messages(
            m,
            a,
            nows,
        )[a].last_response,
{
    lemma_registry_message_history(m, a, nows.take(k));
    lemma_registry_message_history(m, a, nows);
    assert(nows.take(k).last() == nows[k - 1]);
    assert(nows[k - 1] <= nows[nows.len() - 1]);
}

} // verus!
