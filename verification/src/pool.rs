use vstd::prelude::*;
use crate::peer::{PeerView, UpstreamPeer};

verus! {

/// One idle upstream connection parked in the pool. `conn` is the driver's
/// handle for the underlying socket; `idle_since` is the instant, in
/// milliseconds, at which it was returned.
pub struct PoolEntry {
    pub conn: u64,
    pub peer: UpstreamPeer,
    pub idle_since: u64,
}

pub ghost struct EntryView {
    pub conn: u64,
    pub peer: PeerView,
    pub idle_since: u64,
}

impl View for PoolEntry {
    type V = EntryView;

    open spec fn view(&self) -> EntryView {
        EntryView { conn: self.conn, peer: self.peer@, idle_since: self.idle_since }
    }
}

/// An idle entry is still usable at `now` when its age is within the TTL.
pub open spec fn fresh_at(e: EntryView, now: u64, ttl_ms: u64) -> bool {
    now <= e.idle_since + ttl_ms
}

/// How many idle entries are keyed by `key`.
pub open spec fn count_for_peer(s: Seq<EntryView>, key: PeerView) -> nat
    decreases s.len(),
{
    if s.len() == 0 {
        0
    } else {
        count_for_peer(s.drop_last(), key) + if s.last().peer == key {
            1nat
        } else {
            0nat
        }
    }
}

/// The cache of reusable upstream connections, shared by all sessions.
/// Every mutation goes through `checkout`, `register_dial`, `release` and
/// `evict_expired`; the counters record each hand-out and each return so
/// that leaks are visible in the accounting.
pub struct Pool {
    pub entries: Vec<PoolEntry>,
    pub ttl_ms: u64,
    pub per_peer_cap: usize,
    /// Connections handed to exchanges: pool hits plus registered dials.
    pub acquired: u64,
    /// Connections returned healthy.
    pub released: u64,
    /// Connections returned unhealthy and closed.
    pub discarded: u64,
    /// Connections currently held by exchanges.
    pub outstanding: u64,
}

impl Pool {
    /// The idle entries as mathematical values.
    pub open spec fn idle(self) -> Seq<EntryView> {
        self.entries@.map_values(|e: PoolEntry| e@)
    }

    /// Pool invariant: the accounting balances, and no connection sits in
    /// the pool twice, so an idle connection can never be handed to two
    /// exchanges at once.
    pub open spec fn wf(self) -> bool {
        &&& self.acquired as int == self.released as int + self.discarded as int
            + self.outstanding as int
        &&& forall|i: int, j: int|
            0 <= i < j < self.idle().len() ==> self.idle()[i].conn != self.idle()[j].conn
    }

    pub open spec fn contains_conn(self, conn: u64) -> bool {
        exists|i: int| 0 <= i < self.idle().len() && self.idle()[i].conn == conn
    }

    pub fn new(ttl_ms: u64, per_peer_cap: usize) -> (p: Pool)
        ensures
            p.wf(),
            p.idle().len() == 0,
            p.ttl_ms == ttl_ms,
            p.per_peer_cap == per_peer_cap,
            p.acquired == 0 && p.released == 0 && p.discarded == 0 && p.outstanding == 0,
    {
        let p = Pool {
            entries: Vec::new(),
            ttl_ms,
            per_peer_cap,
            acquired: 0,
            released: 0,
            discarded: 0,
            outstanding: 0,
        };
        assert(p.idle() =~= Seq::<EntryView>::empty());
        p
    }

    /// Index of some idle entry for `peer` that is still within its TTL.
    fn find_fresh_idle(&self, peer: &UpstreamPeer, now: u64) -> (r: Option<usize>)
        ensures
            match r {
                Some(i) => i < self.idle().len() && self.idle()[i as int].peer == peer@
                    && fresh_at(self.idle()[i as int], now, self.ttl_ms),
                None => forall|j: int|
                    0 <= j < self.idle().len() && self.idle()[j].peer == peer@ ==> !fresh_at(
                        self.idle()[j],
                        now,
                        self.ttl_ms,
                    ),
            },
    {
        let n = self.entries.len();
        let mut i: usize = 0;
        while i < n
            invariant
                n == self.idle().len(),
                0 <= i <= n,
                forall|j: int|
                    0 <= j < i && self.idle()[j].peer == peer@ ==> !fresh_at(
                        self.idle()[j],
                        now,
                        self.ttl_ms,
                    ),
            decreases n - i,
        {
            let since = self.entries[i].idle_since;
            let stale = now >= since && now - since > self.ttl_ms;
            if !stale && self.entries[i].peer.same_identity(peer) {
                assert(fresh_at(self.idle()[i as int], now, self.ttl_ms));
                return Some(i);
            }
            assert(!(self.idle()[i as int].peer == peer@ && fresh_at(
                self.idle()[i as int],
                now,
                self.ttl_ms,
            )));
            i += 1;
        }
        None
    }

    /// Hands out a pooled idle connection for `peer` if a fresh one is
    /// there, removing it from the pool; otherwise the caller must dial and
    /// then call `register_dial`. A connection past its TTL is never
    /// returned.
    pub fn checkout(&mut self, peer: &UpstreamPeer, now: u64) -> (r: Option<u64>)
        requires
            old(self).wf(),
            old(self).acquired < u64::MAX,
        ensures
            final(self).wf(),
            final(self).ttl_ms == old(self).ttl_ms && final(self).per_peer_cap == old(self).per_peer_cap,
            final(self).released == old(self).released && final(self).discarded == old(self).discarded,
            match r {
                Some(c) => {
                    &&& exists|i: int|
                        0 <= i < old(self).idle().len() && old(self).idle()[i].peer == peer@
                            && fresh_at(old(self).idle()[i], now, old(self).ttl_ms) && old(self).idle()[i].conn == c && final(self).idle() == old(self).idle().remove(i)
                    &&& final(self).acquired == old(self).acquired + 1
                    &&& final(self).outstanding == old(self).outstanding + 1
                },
                None => {
                    &&& final(self).idle() == old(self).idle()
                    &&& final(self).acquired == old(self).acquired
                    &&& final(self).outstanding == old(self).outstanding
                    &&& forall|i: int|
                        0 <= i < old(self).idle().len() && old(self).idle()[i].peer == peer@
                            ==> !fresh_at(old(self).idle()[i], now, old(self).ttl_ms)
                },
            },
    {
        match self.find_fresh_idle(peer, now) {
            None => None,
            Some(i) => {
                let ghost before = self.idle();
                let e = self.entries.remove(i);
                proof {
                    assert(self.idle() =~= before.remove(i as int));
                }
                self.acquired = self.acquired + 1;
                self.outstanding = self.outstanding + 1;
                proof {
                    assert forall|a: int, b: int|
                        0 <= a < b < self.idle().len() implies self.idle()[a].conn
                        != self.idle()[b].conn by {
                        assert(self.idle()[a] == if a < i {
                            before[a]
                        } else {
                            before[a + 1]
                        });
                        assert(self.idle()[b] == if b < i {
                            before[b]
                        } else {
                            before[b + 1]
                        });
                    }
                    assert(e@ == before[i as int]);
                }
                Some(e.conn)
            },
        }
    }

    /// Records that the caller dialed a fresh connection for an exchange
    /// after `checkout` found nothing; the accounting counts it as one more
    /// successful acquire.
    pub fn register_dial(&mut self)
        requires
            old(self).wf(),
            old(self).acquired < u64::MAX,
        ensures
            final(self).wf(),
            final(self).idle() == old(self).idle(),
            final(self).ttl_ms == old(self).ttl_ms && final(self).per_peer_cap == old(self).per_peer_cap,
            final(self).released == old(self).released && final(self).discarded == old(self).discarded,
            final(self).acquired == old(self).acquired + 1,
            final(self).outstanding == old(self).outstanding + 1,
    {
        self.acquired = self.acquired + 1;
        self.outstanding = self.outstanding + 1;
        proof {
            assert(self.entries == old(self).entries);
            assert(self.idle() =~= old(self).idle());
        }
    }

    /// Takes a connection back from an exchange. A healthy one is parked
    /// for reuse unless the per-peer cap is already met; an unhealthy one is
    /// closed by the caller and counted as discarded. Either way the
    /// exchange no longer holds it.
    pub fn release(&mut self, conn: u64, peer: &UpstreamPeer, healthy: bool, now: u64)
        requires
            old(self).wf(),
            old(self).outstanding >= 1,
            !old(self).contains_conn(conn),
        ensures
            final(self).wf(),
            final(self).ttl_ms == old(self).ttl_ms && final(self).per_peer_cap == old(self).per_peer_cap,
            final(self).acquired == old(self).acquired,
            final(self).outstanding == old(self).outstanding - 1,
            healthy ==> final(self).released == old(self).released + 1 && final(self).discarded == old(self).discarded,
            !healthy ==> final(self).discarded == old(self).discarded + 1 && final(self).released == old(self).released && final(self).idle() == old(self).idle(),
            healthy && count_for_peer(old(self).idle(), peer@) < old(self).per_peer_cap
                ==> final(self).idle() == old(self).idle().push(
                EntryView { conn, peer: peer@, idle_since: now },
            ),
            healthy && count_for_peer(old(self).idle(), peer@) >= old(self).per_peer_cap
                ==> final(self).idle() == old(self).idle(),
    {
        proof {
            assert(old(self).released as int + 1 <= old(self).acquired as int);
            assert(old(self).discarded as int + 1 <= old(self).acquired as int);
        }
        self.outstanding = self.outstanding - 1;
        if !healthy {
            self.discarded = self.discarded + 1;
            proof {
                assert(self.entries == old(self).entries);
                assert(self.idle() =~= old(self).idle());
            }
            return ;
        }
        self.released = self.released + 1;
        let room = self.count_idle_for(peer) < self.per_peer_cap;
        if room {
            let ghost before = self.idle();
            let e = PoolEntry { conn, peer: peer.duplicate(), idle_since: now };
            assert(e@ == (EntryView { conn, peer: peer@, idle_since: now }));
            self.entries.push(e);
            proof {
                assert(before =~= old(self).idle());
                assert(self.idle() =~= before.push(
                    EntryView { conn, peer: peer@, idle_since: now },
                ));
                assert forall|a: int, b: int|
                    0 <= a < b < self.idle().len() implies self.idle()[a].conn
                    != self.idle()[b].conn by {
                    if b == self.idle().len() - 1 {
                        assert(self.idle()[a] == before[a]);
                        assert(self.idle()[b].conn == conn);
                        if before[a].conn == conn {
                            assert(before =~= old(self).idle());
                            assert(old(self).idle()[a].conn == conn);
                            assert(old(self).contains_conn(conn));
                        }
                    } else {
                        assert(self.idle()[a] == before[a]);
                        assert(self.idle()[b] == before[b]);
                    }
                }
            }
        } else {
            proof {
                assert(self.entries == old(self).entries);
                assert(self.idle() =~= old(self).idle());
            }
        }
    }

    /// How many idle entries are parked for `peer`.
    pub fn count_idle_for(&self, peer: &UpstreamPeer) -> (c: usize)
        ensures
            c == count_for_peer(self.idle(), peer@),
    {
        let n = self.entries.len();
        let mut c: usize = 0;
        let mut i: usize = 0;
        while i < n
            invariant
                n == self.idle().len(),
                0 <= i <= n,
                c <= i,
                c == count_for_peer(self.idle().take(i as int), peer@),
            decreases n - i,
        {
            proof {
                assert(self.idle().take(i + 1).drop_last() =~= self.idle().take(i as int));
                assert(self.idle().take(i + 1).last() == self.idle()[i as int]);
            }
            if self.entries[i].peer.same_identity(peer) {
                c = c + 1;
            }
            i += 1;
        }
        assert(self.idle().take(n as int) =~= self.idle());
        c
    }

    /// Closes and removes every idle connection older than the TTL; fresh
    /// entries all stay, in order. Bounded-resource rule of the pool: an
    /// idle socket does not outlive its TTL.
    pub fn evict_expired(&mut self, now: u64)
        requires
            old(self).wf(),
        ensures
            final(self).wf(),
            final(self).ttl_ms == old(self).ttl_ms && final(self).per_peer_cap == old(
                self,
            ).per_peer_cap,
            final(self).acquired == old(self).acquired && final(self).released == old(
                self,
            ).released && final(self).discarded == old(self).discarded && final(self).outstanding
                == old(self).outstanding,
            final(self).idle() == keep_fresh(old(self).idle(), now, old(self).ttl_ms),
            forall|k: int|
                0 <= k < final(self).idle().len() ==> fresh_at(
                    #[trigger] final(self).idle()[k],
                    now,
                    final(self).ttl_ms,
                ),
    {
        let ghost orig = self.idle();
        let n = self.entries.len();
        let mut kept: Vec<PoolEntry> = Vec::new();
        let mut i: usize = 0;
        proof {
            assert(kept@.map_values(|e: PoolEntry| e@) =~= keep_fresh(
                orig.take(0),
                now,
                self.ttl_ms,
            ));
        }
        while i < n
            invariant
                n == self.idle().len(),
                n == orig.len(),
                self.idle() == orig,
                self.ttl_ms == old(self).ttl_ms,
                self == old(self),
                0 <= i <= n,
                kept@.map_values(|e: PoolEntry| e@) == keep_fresh(
                    orig.take(i as int),
                    now,
                    self.ttl_ms,
                ),
            decreases n - i,
        {
            proof {
                assert(orig.take(i + 1).drop_last() =~= orig.take(i as int));
                assert(orig.take(i + 1).last() == orig[i as int]);
            }
            let since = self.entries[i].idle_since;
            let stale = now >= since && now - since > self.ttl_ms;
            if !stale {
                assert(fresh_at(orig[i as int], now, self.ttl_ms));
                let ghost kept_before = kept@;
                let e = PoolEntry {
                    conn: self.entries[i].conn,
                    peer: self.entries[i].peer.duplicate(),
                    idle_since: self.entries[i].idle_since,
                };
                assert(e@ == orig[i as int]);
                kept.push(e);
                proof {
                    assert(kept@.map_values(|x: PoolEntry| x@) =~= kept_before.map_values(
                        |x: PoolEntry| x@,
                    ).push(e@));
                }
            } else {
                assert(!fresh_at(orig[i as int], now, self.ttl_ms));
            }
            i += 1;
        }
        proof {
            assert(orig.take(n as int) =~= orig);
            lemma_keep_fresh_props(orig, now, self.ttl_ms);
            lemma_keep_fresh_distinct(orig, now, self.ttl_ms);
        }
        self.entries = kept;
    }
}

/// The idle entries still within their TTL at `now`, in order.
pub open spec fn keep_fresh(s: Seq<EntryView>, now: u64, ttl_ms: u64) -> Seq<EntryView>
    decreases s.len(),
{
    if s.len() == 0 {
        Seq::empty()
    } else {
        let rest = keep_fresh(s.drop_last(), now, ttl_ms);
        if fresh_at(s.last(), now, ttl_ms) {
            rest.push(s.last())
        } else {
            rest
        }
    }
}

/// What eviction keeps: every kept entry is fresh and was in the pool, and
/// every fresh entry is kept.
pub proof fn lemma_keep_fresh_props(s: Seq<EntryView>, now: u64, ttl_ms: u64)
    ensures
        forall|k: int|
            0 <= k < keep_fresh(s, now, ttl_ms).len() ==> fresh_at(
                #[trigger] keep_fresh(s, now, ttl_ms)[k],
                now,
                ttl_ms,
            ),
        forall|k: int|
            0 <= k < keep_fresh(s, now, ttl_ms).len() ==> s.contains(
                #[trigger] keep_fresh(s, now, ttl_ms)[k],
            ),
        forall|j: int|
            0 <= j < s.len() && fresh_at(#[trigger] s[j], now, ttl_ms) ==> keep_fresh(
                s,
                now,
                ttl_ms,
            ).contains(s[j]),
    decreases s.len(),
{
    if s.len() > 0 {
        let prev = s.drop_last();
        let rest = keep_fresh(prev, now, ttl_ms);
        let kf = keep_fresh(s, now, ttl_ms);
        lemma_keep_fresh_props(prev, now, ttl_ms);
        assert forall|k: int| 0 <= k < kf.len() implies fresh_at(#[trigger] kf[k], now, ttl_ms)
            && s.contains(kf[k]) by {
            if k < rest.len() {
                assert(kf[k] == rest[k]);
                let j = choose|j: int| 0 <= j < prev.len() && prev[j] == rest[k];
                assert(s[j] == kf[k]);
            } else {
                assert(kf[k] == s.last());
                assert(s[s.len() - 1] == kf[k]);
            }
        }
        assert forall|j: int|
            0 <= j < s.len() && fresh_at(#[trigger] s[j], now, ttl_ms) implies kf.contains(
            s[j],
        ) by {
            if j < s.len() - 1 {
                assert(prev[j] == s[j]);
                let k = choose|k: int| 0 <= k < rest.len() && rest[k] == s[j];
                assert(kf[k] == s[j]);
            } else {
                assert(kf[kf.len() - 1] == s[j]);
            }
        }
    }
}

/// Eviction never duplicates a connection: if the pool held each connection
/// once, so does what remains.
pub proof fn lemma_keep_fresh_distinct(s: Seq<EntryView>, now: u64, ttl_ms: u64)
    requires
        forall|i: int, j: int| 0 <= i < j < s.len() ==> s[i].conn != s[j].conn,
    ensures
        forall|i: int, j: int|
            0 <= i < j < keep_fresh(s, now, ttl_ms).len() ==> keep_fresh(s, now, ttl_ms)[i].conn
                != keep_fresh(s, now, ttl_ms)[j].conn,
    decreases s.len(),
{
    if s.len() > 0 {
        let prev = s.drop_last();
        let rest = keep_fresh(prev, now, ttl_ms);
        let kf = keep_fresh(s, now, ttl_ms);
        lemma_keep_fresh_props(prev, now, ttl_ms);
        lemma_keep_fresh_distinct(prev, now, ttl_ms);
        assert forall|i: int, j: int|
            0 <= i < j < kf.len() implies kf[i].conn != kf[j].conn by {
            if j < rest.len() {
                assert(kf[i] == rest[i] && kf[j] == rest[j]);
            } else if fresh_at(s.last(), now, ttl_ms) && j == rest.len() {
                assert(kf[i] == rest[i]);
                assert(kf[j] == s.last());
                let w = choose|w: int| 0 <= w < prev.len() && prev[w] == rest[i];
                assert(s[w] == rest[i]);
                assert(s[w].conn != s[s.len() - 1].conn);
            }
        }
    }
}

/// Conservation of connections: once no exchange holds one, the number of
/// releases plus discards over the pool equals the number of successful
/// acquires — no connection leaks.
pub proof fn lemma_no_leaked_connections(p: Pool)
    requires
        p.wf(),
        p.outstanding == 0,
    ensures
        p.acquired as int == p.released as int + p.discarded as int,
{
}

} // verus!
