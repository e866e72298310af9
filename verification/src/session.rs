//! The UDP session table: one session per client address, touched on every
//! packet, reaped after a period of inactivity. The table records the
//! session's upstream endpoint and last activity; the upstream socket itself
//! is owned by the caller, keyed by the client address. Times are monotonic
//! milliseconds supplied by the caller.

use vstd::prelude::*;
use crate::addr::Endpoint;

verus! {

/// One UDP session: the local endpoint of the upstream socket bound for this
/// client, and the time of the client's last packet.
#[derive(Clone, Copy, PartialEq, Eq, Structural, Debug)]
pub struct UdpSession {
    pub local_addr: Endpoint,
    pub last_activity: u64,
}

impl UdpSession {
    /// A fresh session, active now.
    pub fn new(local_addr: Endpoint, now: u64) -> (r: UdpSession)
        ensures
            r == (UdpSession { local_addr, last_activity: now }),
    {
        UdpSession { local_addr, last_activity: now }
    }

    /// Record activity. The last-activity time never moves backwards.
    pub fn update_activity(&mut self, now: u64)
        ensures
            final(self).local_addr == old(self).local_addr,
            final(self).last_activity == if now > old(self).last_activity {
                now
            } else {
                old(self).last_activity
            },
            final(self).last_activity >= old(self).last_activity,
    {
        if now > self.last_activity {
            self.last_activity = now;
        }
    }

    /// Whether the session has been inactive for longer than the timeout.
    pub open spec fn spec_is_expired(self, now: u64, timeout_millis: u64) -> bool {
        now - self.last_activity > timeout_millis
    }

    /// Whether the session has been inactive for longer than the timeout.
    pub fn is_expired(&self, now: u64, timeout_millis: u64) -> (r: bool)
        ensures
            r == self.spec_is_expired(now, timeout_millis),
    {
        now > self.last_activity && now - self.last_activity > timeout_millis
    }
}

/// How many sessions of a sequence are expired.
pub open spec fn count_expired(s: Seq<(Endpoint, UdpSession)>, now: u64, timeout_millis: u64) -> int
    decreases s.len(),
{
    if s.len() == 0 {
        0
    } else {
        count_expired(s.drop_last(), now, timeout_millis)
            + if s.last().1.spec_is_expired(now, timeout_millis) {
            1int
        } else {
            0int
        }
    }
}

/// The session table of one UDP forwarder.
pub struct UdpSessionManager {
    sessions: Vec<(Endpoint, UdpSession)>,
    session_timeout_millis: u64,
    cleanup_interval_millis: u64,
}

impl UdpSessionManager {
    /// The sessions, in insertion order, as client address and session pairs.
    pub closed spec fn sessions_seq(self) -> Seq<(Endpoint, UdpSession)> {
        self.sessions@
    }

    /// The configured inactivity bound.
    pub closed spec fn spec_session_timeout(self) -> u64 {
        self.session_timeout_millis
    }

    /// The configured reaping period.
    pub closed spec fn spec_cleanup_interval(self) -> u64 {
        self.cleanup_interval_millis
    }

    /// Whether the client address has a session.
    pub open spec fn spec_has(self, peer: Endpoint) -> bool {
        exists|k: int| 0 <= k < self.sessions_seq().len() && (#[trigger] self.sessions_seq()[k]).0 == peer
    }

    /// The session of the client address.
    pub open spec fn spec_get(self, peer: Endpoint) -> UdpSession {
        self.sessions_seq()[choose|k: int| 0 <= k < self.sessions_seq().len() && (#[trigger] self.sessions_seq()[k]).0 == peer].1
    }

    /// The number of sessions.
    pub open spec fn spec_count(self) -> int {
        self.sessions_seq().len() as int
    }

    /// Each client address has at most one session.
    pub open spec fn wf(self) -> bool {
        forall|i: int, j: int| 0 <= i < j < self.sessions_seq().len()
            ==> (#[trigger] self.sessions_seq()[i]).0 != (#[trigger] self.sessions_seq()[j]).0
    }

    /// An empty table with the given timing bounds, in milliseconds.
    pub fn new(session_timeout_millis: u64, cleanup_interval_millis: u64) -> (r: UdpSessionManager)
        ensures
            r.wf(),
            r.spec_count() == 0,
            r.spec_session_timeout() == session_timeout_millis,
            r.spec_cleanup_interval() == cleanup_interval_millis,
    {
        UdpSessionManager {
            sessions: Vec::new(),
            session_timeout_millis,
            cleanup_interval_millis,
        }
    }

    /// The configured inactivity bound, in milliseconds.
    pub fn session_timeout(&self) -> (r: u64)
        ensures
            r == self.spec_session_timeout(),
    {
        self.session_timeout_millis
    }

    /// The configured reaping period, in milliseconds.
    pub fn cleanup_interval(&self) -> (r: u64)
        ensures
            r == self.spec_cleanup_interval(),
    {
        self.cleanup_interval_millis
    }

    /// The number of sessions.
    pub fn active_session_count(&self) -> (r: usize)
        ensures
            r == self.spec_count(),
    {
        self.sessions.len()
    }

    /// Whether the client address has a session.
    pub fn contains_session(&self, peer: &Endpoint) -> (r: bool)
        ensures
            r == self.spec_has(*peer),
    {
        let n = self.sessions.len();
        let mut i: usize = 0;
        while i < n
            invariant
                n == self.sessions_seq().len(),
                0 <= i <= n,
                forall|k: int| 0 <= k < i ==> (#[trigger] self.sessions_seq()[k]).0 != *peer,
            decreases n - i,
        {
            if self.sessions[i].0 == *peer {
                return true;
            }
            i = i + 1;
        }
        false
    }

    /// Look up the session of a client address, touching it: a found
    /// session's activity is refreshed and `false` comes back (the caller
    /// must not spawn a second response pump); an absent address gets a fresh
    /// session around the given local endpoint and `true` comes back (the
    /// caller spawns the one response pump of this session).
    pub fn get_or_create_session(&mut self, peer: Endpoint, local_addr: Endpoint, now: u64) -> (created: bool)
        requires
            old(self).wf(),
        ensures
            final(self).wf(),
            created == !old(self).spec_has(peer),
            final(self).spec_has(peer),
            final(self).spec_session_timeout() == old(self).spec_session_timeout(),
            final(self).spec_cleanup_interval() == old(self).spec_cleanup_interval(),
            if created {
                final(self).spec_get(peer) == (UdpSession { local_addr, last_activity: now })
                    && final(self).spec_count() == old(self).spec_count() + 1
            } else {
                final(self).spec_get(peer) == (UdpSession {
                    local_addr: old(self).spec_get(peer).local_addr,
                    last_activity: if now > old(self).spec_get(peer).last_activity {
                        now
                    } else {
                        old(self).spec_get(peer).last_activity
                    },
                }) && final(self).spec_count() == old(self).spec_count()
            },
            forall|p: Endpoint| p != peer ==> final(self).spec_has(p) == old(self).spec_has(p),
            forall|p: Endpoint| p != peer && old(self).spec_has(p)
                ==> final(self).spec_get(p) == old(self).spec_get(p),
    {
        let n = self.sessions.len();
        let mut i: usize = 0;
        while i < n
            invariant
                self == old(self),
                old(self).wf(),
                n == self.sessions_seq().len(),
                0 <= i <= n,
                forall|k: int| 0 <= k < i ==> (#[trigger] self.sessions_seq()[k]).0 != peer,
            decreases n - i,
        {
            if self.sessions[i].0 == peer {
                let mut session = self.sessions[i].1;
                session.update_activity(now);
                self.sessions.set(i, (peer, session));
                proof {
                    let s_old = old(self).sessions@;
                    let s_new = self.sessions@;
                    lemma_unique_session_get(s_old, peer, i as int);
                    lemma_unique_session_get(s_new, peer, i as int);
                    assert forall|p: Endpoint| p != peer && old(self).spec_has(p)
                        implies self.spec_has(p) && self.spec_get(p) == old(self).spec_get(p) by {
                        let k = choose|k: int| 0 <= k < s_old.len() && (#[trigger] s_old[k]).0 == p;
                        assert(s_new[k] == s_old[k]);
                        lemma_unique_session_get(s_old, p, k);
                        lemma_unique_session_get(s_new, p, k);
                    }
                    assert forall|p: Endpoint| p != peer && self.spec_has(p)
                        implies old(self).spec_has(p) by {
                        let k = choose|k: int| 0 <= k < s_new.len() && (#[trigger] s_new[k]).0 == p;
                        assert(s_old[k] == s_new[k]);
                    }
                }
                return false;
            }
            i = i + 1;
        }
        self.sessions.push((peer, UdpSession::new(local_addr, now)));
        proof {
            let s_old = old(self).sessions@;
            let s_new = self.sessions@;
            let last = s_new.len() - 1;
            assert(s_new[last].0 == peer);
            assert forall|a: int, b: int| 0 <= a < b < s_new.len()
                implies (#[trigger] s_new[a]).0 != (#[trigger] s_new[b]).0 by {
                if b < last {
                    assert(s_new[a] == s_old[a]);
                    assert(s_new[b] == s_old[b]);
                } else {
                    assert(s_new[a] == s_old[a]);
                }
            }
            lemma_unique_session_get(s_new, peer, last);
            assert forall|p: Endpoint| p != peer && old(self).spec_has(p)
                implies self.spec_has(p) && self.spec_get(p) == old(self).spec_get(p) by {
                let k = choose|k: int| 0 <= k < s_old.len() && (#[trigger] s_old[k]).0 == p;
                assert(s_new[k] == s_old[k]);
                lemma_unique_session_get(s_old, p, k);
                lemma_unique_session_get(s_new, p, k);
            }
            assert forall|p: Endpoint| p != peer && self.spec_has(p)
                implies old(self).spec_has(p) by {
                let k = choose|k: int| 0 <= k < s_new.len() && (#[trigger] s_new[k]).0 == p;
                assert(s_old[k] == s_new[k]);
            }
        }
        true
    }

    /// Remove the session of a client address. Removing an unknown address
    /// is a no-op: the table is left exactly as it was.
    pub fn remove_session(&mut self, peer: &Endpoint)
        requires
            old(self).wf(),
        ensures
            final(self).wf(),
            !final(self).spec_has(*peer),
            !old(self).spec_has(*peer) ==> *final(self) == *old(self),
            old(self).spec_has(*peer) ==> final(self).spec_count() == old(self).spec_count() - 1,
            forall|p: Endpoint| p != *peer ==> final(self).spec_has(p) == old(self).spec_has(p),
            forall|p: Endpoint| p != *peer && old(self).spec_has(p)
                ==> final(self).spec_get(p) == old(self).spec_get(p),
            final(self).spec_session_timeout() == old(self).spec_session_timeout(),
            final(self).spec_cleanup_interval() == old(self).spec_cleanup_interval(),
    {
        let n = self.sessions.len();
        let mut i: usize = 0;
        while i < n
            invariant
                self == old(self),
                old(self).wf(),
                n == self.sessions_seq().len(),
                0 <= i <= n,
                forall|k: int| 0 <= k < i ==> (#[trigger] self.sessions_seq()[k]).0 != *peer,
            decreases n - i,
        {
            if self.sessions[i].0 == *peer {
                self.sessions.remove(i);
                proof {
                    let s_old = old(self).sessions@;
                    let s_new = self.sessions@;
                    s_old.remove_ensures(i as int);
                    assert forall|a: int, b: int| 0 <= a < b < s_new.len()
                        implies (#[trigger] s_new[a]).0 != (#[trigger] s_new[b]).0 by {
                        let a0: int = if a < i { a } else { a + 1 };
                        let b0: int = if b < i { b } else { b + 1 };
                        assert(s_new[a] == s_old[a0]);
                        assert(s_new[b] == s_old[b0]);
                    }
                    assert forall|k: int| 0 <= k < s_new.len()
                        implies (#[trigger] s_new[k]).0 != *peer by {
                        let k0: int = if k < i { k } else { k + 1 };
                        assert(s_new[k] == s_old[k0]);
                    }
                    assert forall|p: Endpoint| p != *peer && old(self).spec_has(p)
                        implies self.spec_has(p) && self.spec_get(p) == old(self).spec_get(p) by {
                        let k0 = choose|k: int| 0 <= k < s_old.len() && (#[trigger] s_old[k]).0 == p;
                        let k: int = if k0 < i { k0 } else { k0 - 1 };
                        assert(s_new[k] == s_old[k0]);
                        assert(self.spec_has(p));
                        lemma_unique_session_get(s_old, p, k0);
                        lemma_unique_session_get(s_new, p, k);
                    }
                    assert forall|p: Endpoint| p != *peer && self.spec_has(p)
                        implies old(self).spec_has(p) by {
                        let k = choose|k: int| 0 <= k < s_new.len() && (#[trigger] s_new[k]).0 == p;
                        let k0: int = if k < i { k } else { k + 1 };
                        assert(s_new[k] == s_old[k0]);
                    }
                }
                return;
            }
            i = i + 1;
        }
    }

    /// Reap: drop every session inactive for longer than the timeout, keep
    /// the rest untouched, in order.
    pub fn cleanup_expired_sessions(&mut self, now: u64)
        requires
            old(self).wf(),
        ensures
            final(self).wf(),
            final(self).sessions_seq() == old(self).sessions_seq().filter(
                |e: (Endpoint, UdpSession)| !e.1.spec_is_expired(now, old(self).spec_session_timeout()),
            ),
            final(self).spec_session_timeout() == old(self).spec_session_timeout(),
            final(self).spec_cleanup_interval() == old(self).spec_cleanup_interval(),
    {
        let ghost pred = |e: (Endpoint, UdpSession)|
            !e.1.spec_is_expired(now, old(self).spec_session_timeout());
        let timeout = self.session_timeout_millis;
        let n = self.sessions.len();
        let mut kept: Vec<(Endpoint, UdpSession)> = Vec::new();
        let mut i: usize = 0;
        while i < n
            invariant
                self == old(self),
                old(self).wf(),
                timeout == old(self).spec_session_timeout(),
                n == self.sessions_seq().len(),
                0 <= i <= n,
                kept@ == self.sessions@.subrange(0, i as int).filter(pred),
                pred == (|e: (Endpoint, UdpSession)|
                    !e.1.spec_is_expired(now, old(self).spec_session_timeout())),
            decreases n - i,
        {
            let entry = self.sessions[i];
            if !entry.1.is_expired(now, timeout) {
                kept.push(entry);
            }
            proof {
                reveal(Seq::filter);
                let prefix = self.sessions@.subrange(0, i as int);
                let prefix1 = self.sessions@.subrange(0, i + 1);
                assert(prefix1.drop_last() =~= prefix);
                assert(prefix1.last() == entry);
                assert(kept@ =~= prefix1.filter(pred));
            }
            i = i + 1;
        }
        proof {
            assert(self.sessions@.subrange(0, n as int) =~= self.sessions@);
        }
        self.sessions = kept;
        proof {
            lemma_filter_unique_keys(old(self).sessions@, pred);
        }
    }
}

/// Every element of a filtered sequence occurs in the original.
proof fn lemma_filter_members(
    s: Seq<(Endpoint, UdpSession)>,
    pred: spec_fn((Endpoint, UdpSession)) -> bool,
)
    ensures
        forall|a: int| 0 <= a < s.filter(pred).len()
            ==> exists|i: int| 0 <= i < s.len() && #[trigger] s[i] == #[trigger] s.filter(pred)[a],
    decreases s.len(),
{
    reveal(Seq::filter);
    if s.len() > 0 {
        lemma_filter_members(s.drop_last(), pred);
        let f = s.filter(pred);
        let fd = s.drop_last().filter(pred);
        assert forall|a: int| 0 <= a < f.len()
            implies exists|i: int| 0 <= i < s.len() && #[trigger] s[i] == #[trigger] f[a] by {
            if pred(s.last()) && a == f.len() - 1 {
                assert(s[s.len() - 1] == f[a]);
            } else {
                assert(f[a] == fd[a]);
                let i = choose|i: int| 0 <= i < s.drop_last().len() && #[trigger] s.drop_last()[i] == fd[a];
                assert(s[i] == f[a]);
            }
        }
    }
}

/// Filtering a uniquely keyed sequence keeps the keys unique.
proof fn lemma_filter_unique_keys(
    s: Seq<(Endpoint, UdpSession)>,
    pred: spec_fn((Endpoint, UdpSession)) -> bool,
)
    requires
        forall|i: int, j: int| 0 <= i < j < s.len() ==> (#[trigger] s[i]).0 != (#[trigger] s[j]).0,
    ensures
        forall|a: int, b: int| 0 <= a < b < s.filter(pred).len()
            ==> (#[trigger] s.filter(pred)[a]).0 != (#[trigger] s.filter(pred)[b]).0,
    decreases s.len(),
{
    reveal(Seq::filter);
    if s.len() > 0 {
        let sd = s.drop_last();
        assert forall|i: int, j: int| 0 <= i < j < sd.len()
            implies (#[trigger] sd[i]).0 != (#[trigger] sd[j]).0 by {
            assert(sd[i] == s[i]);
            assert(sd[j] == s[j]);
        }
        lemma_filter_unique_keys(sd, pred);
        lemma_filter_members(sd, pred);
        let f = s.filter(pred);
        let fd = sd.filter(pred);
        assert forall|a: int, b: int| 0 <= a < b < f.len()
            implies (#[trigger] f[a]).0 != (#[trigger] f[b]).0 by {
            if pred(s.last()) && b == f.len() - 1 {
                assert(f[a] == fd[a]);
                let i = choose|i: int| 0 <= i < sd.len() && #[trigger] sd[i] == fd[a];
                assert(s[i] == f[a]);
                assert(s[i].0 != s.last().0);
            } else {
                assert(f[a] == fd[a]);
                assert(f[b] == fd[b]);
            }
        }
    }
}

/// After a reap, the session count has dropped by exactly the number of
/// expired sessions: the kept sessions are those not expired.
pub proof fn lemma_reclamation_count(s: Seq<(Endpoint, UdpSession)>, now: u64, timeout_millis: u64)
    ensures
        s.filter(|e: (Endpoint, UdpSession)| !e.1.spec_is_expired(now, timeout_millis)).len()
            == s.len() - count_expired(s, now, timeout_millis),
    decreases s.len(),
{
    reveal(Seq::filter);
    if s.len() > 0 {
        lemma_reclamation_count(s.drop_last(), now, timeout_millis);
    }
}

/// In a sequence of uniquely keyed session entries, any index holding a key
/// determines the chosen one.
proof fn lemma_unique_session_get(s: Seq<(Endpoint, UdpSession)>, p: Endpoint, k: int)
    requires
        forall|i: int, j: int| 0 <= i < j < s.len() ==> (#[trigger] s[i]).0 != (#[trigger] s[j]).0,
        0 <= k < s.len(),
        s[k].0 == p,
    ensures
        (choose|i: int| 0 <= i < s.len() && (#[trigger] s[i]).0 == p) == k,
{
    let c = choose|i: int| 0 <= i < s.len() && (#[trigger] s[i]).0 == p;
    if c < k {
        assert(s[c].0 != s[k].0);
    } else if c > k {
        assert(s[k].0 != s[c].0);
    }
}

} // verus!
