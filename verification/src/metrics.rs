//! Metric label values and the byte accounting of proxied streams.
//!
//! The metrics registry and its text encoding live outside this library; what
//! is modelled here is the part the proxy's correctness depends on: which
//! label a counter carries, and that every byte observed on a proxied stream
//! is counted exactly once, in the direction it travelled.

use vstd::prelude::*;

verus! {

/// Label of the request counter: where a request came from and what it asked
/// for.
pub struct ReqLabels {
    pub referer: String,
    pub path: String,
}

/// Label of the proxied-traffic counters: one per (client, target, user)
/// triple.
pub struct AccessLabel {
    pub client: String,
    pub target: String,
    pub username: String,
}

/// Label of the host-wide network counters: one per transfer direction.
pub struct NetDirectionLabel {
    pub direction: String,
}

/// The mathematical value of an access label.
pub struct AccessLabelV {
    pub client: Seq<char>,
    pub target: Seq<char>,
    pub username: Seq<char>,
}

impl View for AccessLabel {
    type V = AccessLabelV;

    open spec fn view(&self) -> AccessLabelV {
        AccessLabelV { client: self.client@, target: self.target@, username: self.username@ }
    }
}

impl AccessLabel {
    /// A copy with the same label value.
    pub fn duplicate(&self) -> (r: AccessLabel)
        ensures
            r@ == self@,
    {
        AccessLabel {
            client: self.client.clone(),
            target: self.target.clone(),
            username: self.username.clone(),
        }
    }

    /// The label as log text: `client -> target`.
    pub fn tag(&self) -> (r: String)
        ensures
            r@ == self.client@ + " -> "@ + self.target@,
    {
        let mut s = self.client.clone();
        s.append(" -> ");
        s.append(self.target.as_str());
        s
    }

    /// Do two labels carry the same value?
    pub fn same_label(&self, other: &AccessLabel) -> (r: bool)
        ensures
            r == (self@ == other@),
    {
        let r = self.client == other.client && self.target == other.target && self.username
            == other.username;
        proof {
            if self@.client == other@.client && self@.target == other@.target && self@.username
                == other@.username {
                assert(self@ == other@);
            }
        }
        r
    }
}

/// One observed transfer on a proxied stream: `n` bytes, from the target
/// towards the client (`rx`) or the other way (`tx`).
pub struct TransferEvent {
    pub rx: bool,
    pub n: u64,
}

/// Bytes received from the target over `evs`.
pub open spec fn rx_bytes(evs: Seq<TransferEvent>) -> nat
    decreases evs.len(),
{
    if evs.len() == 0 {
        0
    } else {
        rx_bytes(evs.drop_last()) + if evs.last().rx {
            evs.last().n as nat
        } else {
            0
        }
    }
}

/// Bytes sent to the target over `evs`.
pub open spec fn tx_bytes(evs: Seq<TransferEvent>) -> nat
    decreases evs.len(),
{
    if evs.len() == 0 {
        0
    } else {
        tx_bytes(evs.drop_last()) + if evs.last().rx {
            0
        } else {
            evs.last().n as nat
        }
    }
}

/// All bytes observed over `evs`, in either direction.
pub open spec fn total_bytes(evs: Seq<TransferEvent>) -> nat
    decreases evs.len(),
{
    if evs.len() == 0 {
        0
    } else {
        total_bytes(evs.drop_last()) + evs.last().n as nat
    }
}

/// Every byte goes to exactly one of the two directions: the rx and tx
/// tallies of a transfer ledger add up to the bytes observed, to the byte.
pub proof fn lemma_rx_tx_partition(evs: Seq<TransferEvent>)
    ensures
        rx_bytes(evs) + tx_bytes(evs) == total_bytes(evs),
    decreases evs.len(),
{
    if evs.len() > 0 {
        lemma_rx_tx_partition(evs.drop_last());
    }
}

/// The per-label counters of one proxied connection, together with the
/// ledger of transfers they have counted.
pub struct TrafficCounters {
    pub label: AccessLabel,
    pub rx: u64,
    pub tx: u64,
    pub ledger: Ghost<Seq<TransferEvent>>,
}

impl TrafficCounters {
    /// The counters hold exactly what the ledger says.
    pub open spec fn wf(&self) -> bool {
        self.rx == rx_bytes(self.ledger@) && self.tx == tx_bytes(self.ledger@)
    }

    /// Fresh counters for one connection's access label.
    pub fn new(label: AccessLabel) -> (c: TrafficCounters)
        ensures
            c.wf(),
            c.rx == 0,
            c.tx == 0,
            c.label@ == label@,
            c.ledger@ == Seq::<TransferEvent>::empty(),
    {
        TrafficCounters { label, rx: 0, tx: 0, ledger: Ghost(Seq::empty()) }
    }

    /// Count `n` bytes read from the target (towards the client). Called
    /// once per successful read, with exactly the count the transport
    /// reported; failed reads count nothing.
    pub fn record_read(&mut self, n: u64)
        requires
            old(self).wf(),
            old(self).rx + n <= u64::MAX,
        ensures
            final(self).wf(),
            final(self).rx == old(self).rx + n,
            final(self).tx == old(self).tx,
            final(self).label == old(self).label,
            final(self).ledger@ == old(self).ledger@.push(TransferEvent { rx: true, n }),
    {
        proof {
            let evs = self.ledger@.push(TransferEvent { rx: true, n });
            assert(evs.drop_last() =~= self.ledger@);
        }
        self.ledger = Ghost(self.ledger@.push(TransferEvent { rx: true, n }));
        self.rx = self.rx + n;
    }

    /// Count `n` bytes written to the target. Called once per successful
    /// write, with exactly the count the transport reported; failed writes
    /// count nothing.
    pub fn record_write(&mut self, n: u64)
        requires
            old(self).wf(),
            old(self).tx + n <= u64::MAX,
        ensures
            final(self).wf(),
            final(self).tx == old(self).tx + n,
            final(self).rx == old(self).rx,
            final(self).label == old(self).label,
            final(self).ledger@ == old(self).ledger@.push(TransferEvent { rx: false, n }),
    {
        proof {
            let evs = self.ledger@.push(TransferEvent { rx: false, n });
            assert(evs.drop_last() =~= self.ledger@);
        }
        self.ledger = Ghost(self.ledger@.push(TransferEvent { rx: false, n }));
        self.tx = self.tx + n;
    }
}

/// The counters of one label family: first come, first slot. Mirrors a
/// metric family's get-or-create discipline; the periodic cleaner empties it
/// wholesale.
pub struct CounterFamily {
    pub entries: Vec<(AccessLabel, u64)>,
}

/// The family's mathematical value: label values and counts, in order.
pub open spec fn family_view(entries: Seq<(AccessLabel, u64)>) -> Seq<(AccessLabelV, u64)> {
    entries.map_values(|e: (AccessLabel, u64)| (e.0@, e.1))
}

impl View for CounterFamily {
    type V = Seq<(AccessLabelV, u64)>;

    open spec fn view(&self) -> Seq<(AccessLabelV, u64)> {
        family_view(self.entries@)
    }
}

/// The first slot carrying label `l`.
pub open spec fn spec_family_index(s: Seq<(AccessLabelV, u64)>, l: AccessLabelV) -> Option<int>
    decreases s.len(),
{
    if s.len() == 0 {
        None
    } else if s[0].0 == l {
        Some(0int)
    } else {
        match spec_family_index(s.drop_first(), l) {
            None => None,
            Some(i) => Some(i + 1),
        }
    }
}

/// The count under label `l`: the first slot's, or zero where none exists.
pub open spec fn spec_family_get(s: Seq<(AccessLabelV, u64)>, l: AccessLabelV) -> u64 {
    match spec_family_index(s, l) {
        Some(i) => s[i].1,
        None => 0u64,
    }
}

proof fn lemma_family_index_first_hit(s: Seq<(AccessLabelV, u64)>, l: AccessLabelV, i: int)
    requires
        0 <= i < s.len(),
        s[i].0 == l,
        forall|j: int| 0 <= j < i ==> s[j].0 != l,
    ensures
        spec_family_index(s, l) == Some(i),
    decreases i,
{
    if i > 0 {
        lemma_family_index_first_hit(s.drop_first(), l, i - 1);
    }
}

proof fn lemma_family_index_none(s: Seq<(AccessLabelV, u64)>, l: AccessLabelV)
    requires
        forall|j: int| 0 <= j < s.len() ==> s[j].0 != l,
    ensures
        spec_family_index(s, l) is None,
    decreases s.len(),
{
    if s.len() > 0 {
        lemma_family_index_none(s.drop_first(), l);
    }
}

impl CounterFamily {
    /// An empty family.
    pub fn new() -> (f: CounterFamily)
        ensures
            f@ == Seq::<(AccessLabelV, u64)>::empty(),
    {
        CounterFamily { entries: Vec::new() }
    }

    /// Add `n` to the counter of label `l`, saturating; a label not seen
    /// before gets a fresh slot at the end, starting at `n`.
    pub fn inc(&mut self, l: &AccessLabel, n: u64)
        ensures
            match spec_family_index(old(self)@, l@) {
                Some(i) => final(self)@ == old(self)@.update(
                    i,
                    (
                        l@,
                        if old(self)@[i].1 + n <= u64::MAX {
                            (old(self)@[i].1 + n) as u64
                        } else {
                            u64::MAX
                        },
                    ),
                ),
                None => final(self)@ == old(self)@.push((l@, n)),
            },
    {
        let ghost fv = self@;
        let mut i: usize = 0;
        while i < self.entries.len()
            invariant
                0 <= i <= self.entries@.len(),
                fv == family_view(self.entries@),
                fv == old(self)@,
                fv.len() == self.entries@.len(),
                self.entries == old(self).entries,
                forall|j: int|
                    0 <= j < self.entries@.len() ==> fv[j] == (
                        self.entries@[j].0@,
                        self.entries@[j].1,
                    ),
                forall|j: int| 0 <= j < i ==> fv[j].0 != l@,
            decreases self.entries@.len() - i,
        {
            if self.entries[i].0.same_label(l) {
                proof {
                    lemma_family_index_first_hit(fv, l@, i as int);
                }
                let cur = self.entries[i].1;
                let next: u64 = if cur <= u64::MAX - n {
                    cur + n
                } else {
                    u64::MAX
                };
                self.entries.set(i, (l.duplicate(), next));
                proof {
                    assert(self@ =~= fv.update(
                        i as int,
                        (
                            l@,
                            if fv[i as int].1 + n <= u64::MAX {
                                (fv[i as int].1 + n) as u64
                            } else {
                                u64::MAX
                            },
                        ),
                    ));
                }
                return ;
            }
            i = i + 1;
        }
        proof {
            lemma_family_index_none(fv, l@);
        }
        self.entries.push((l.duplicate(), n));
        proof {
            assert(self@ =~= fv.push((l@, n)));
        }
    }

    /// The count under label `l`.
    pub fn get(&self, l: &AccessLabel) -> (r: u64)
        ensures
            r == spec_family_get(self@, l@),
    {
        let ghost fv = self@;
        proof {
            assert(fv.skip(0) =~= fv);
        }
        let mut i: usize = 0;
        while i < self.entries.len()
            invariant
                0 <= i <= self.entries@.len(),
                fv == family_view(self.entries@),
                fv.len() == self.entries@.len(),
                spec_family_index(fv, l@) == match spec_family_index(fv.skip(i as int), l@) {
                    None => None::<int>,
                    Some(k) => Some(k + i),
                },
                forall|j: int|
                    0 <= j < self.entries@.len() ==> fv[j] == (
                        self.entries@[j].0@,
                        self.entries@[j].1,
                    ),
            decreases self.entries@.len() - i,
        {
            if self.entries[i].0.same_label(l) {
                proof {
                    assert(fv.skip(i as int)[0] == fv[i as int]);
                }
                return self.entries[i].1;
            }
            proof {
                assert(fv.skip(i as int).drop_first() =~= fv.skip(i as int + 1));
            }
            i = i + 1;
        }
        proof {
            assert(fv.skip(i as int) =~= Seq::<(AccessLabelV, u64)>::empty());
        }
        0
    }

    /// Reset the family wholesale, as the periodic metric cleaner does.
    pub fn clear(&mut self)
        ensures
            final(self)@ == Seq::<(AccessLabelV, u64)>::empty(),
    {
        self.entries = Vec::new();
        proof {
            assert(self@ =~= Seq::<(AccessLabelV, u64)>::empty());
        }
    }
}

/// For any run of transfers through a tunnel, the rx and tx counter deltas
/// of that connection's access label sum to exactly the bytes the stream
/// endpoints observed: counters that hold ledger `pre` before the run and
/// `pre + evs` after it moved, together, by `total_bytes(evs)`.
pub proof fn lemma_tunnel_accounting(pre: Seq<TransferEvent>, evs: Seq<TransferEvent>)
    ensures
        rx_bytes(pre + evs) + tx_bytes(pre + evs) - (rx_bytes(pre) + tx_bytes(pre))
            == total_bytes(evs),
    decreases evs.len(),
{
    if evs.len() == 0 {
        assert(pre + evs =~= pre);
    } else {
        assert((pre + evs).drop_last() =~= pre + evs.drop_last());
        lemma_tunnel_accounting(pre, evs.drop_last());
    }
}

} // verus!
