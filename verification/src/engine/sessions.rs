//! The registry of live sessions shared by every frontend.
//!
//! One entry per session id: the session itself (a PTY child and its grid,
//! held opaquely), and its last-activity stamp. Ids are handed out
//! sequentially (`sess_001`, `sess_002`, ...) and never reused; the number
//! of live sessions never exceeds the cap.

use vstd::prelude::*;

use crate::engine::clock::{elapsed_nanos, instant_now};
use crate::engine::error::CoreError;
use crate::engine::utils::{lemma_session_id_injective, session_id, session_id_text};
use crate::text::{dec_chars, push_dec_u64, push_str, str_eq};

verus! {

/// Which sessions are stale, given how long each has been idle (in
/// nanoseconds): those idle longer than `max_idle_ms` milliseconds.
pub open spec fn stale(idle_nanos: Seq<u128>, max_idle_ms: u64) -> Seq<bool> {
    Seq::new(idle_nanos.len(), |i: int| idle_nanos[i] > max_idle_ms * 1000000)
}

/// Which sessions are stale, given how long each has been idle (in
/// nanoseconds): those idle longer than `max_idle_ms` milliseconds.
pub fn stale_of(idle_nanos: &Vec<u128>, max_idle_ms: u64) -> (f: Vec<bool>)
    ensures
        f@ == stale(idle_nanos@, max_idle_ms),
{
    let limit: u128 = max_idle_ms as u128 * 1000000;
    let mut f: Vec<bool> = Vec::new();
    let mut i: usize = 0;
    while i < idle_nanos.len()
        invariant
            i <= idle_nanos@.len(),
            limit == max_idle_ms * 1000000,
            f@ =~= stale(idle_nanos@, max_idle_ms).take(i as int),
        decreases idle_nanos@.len() - i,
    {
        f.push(idle_nanos[i] > limit);
        i = i + 1;
        assert(f@ =~= stale(idle_nanos@, max_idle_ms).take(i as int));
    }
    assert(stale(idle_nanos@, max_idle_ms).take(i as int) =~= stale(idle_nanos@, max_idle_ms));
    f
}

/// How a closed session ended.
#[derive(Debug, Clone, PartialEq)]
pub struct ClosedSession {
    /// The child exited on its own with success.
    pub exited_cleanly: bool,
    /// Termination signal name, if reported.
    pub signal: Option<String>,
}

/// Default cap on concurrent sessions.
pub const DEFAULT_MAX_SESSIONS: usize = 8;

/// Registry of live sessions of type `S`.
pub struct SessionRegistry<S> {
    ids: Vec<String>,
    counters: Vec<u64>,
    sessions: Vec<S>,
    stamps: Vec<std::time::Instant>,
    next_id: u64,
    max: usize,
}

/// The message refusing a spawn at the cap.
pub open spec fn limit_message(max: nat) -> Seq<char> {
    "session limit ("@ + dec_chars(max) + ") reached; close one first"@
}

/// The message naming an unknown session id.
pub open spec fn unknown_message(id: Seq<char>) -> Seq<char> {
    "unknown session: "@ + id
}

/// Index of `id` among `ids`.
pub open spec fn index_of(ids: Seq<Seq<char>>, id: Seq<char>) -> Option<int> {
    if exists|i: int| 0 <= i < ids.len() && ids[i] == id {
        Some(choose|i: int| 0 <= i < ids.len() && ids[i] == id)
    } else {
        None
    }
}

/// Whether no id occurs twice.
pub open spec fn ids_distinct(ids: Seq<Seq<char>>) -> bool {
    forall|i: int, j: int| 0 <= i < j < ids.len() ==> ids[i] != ids[j]
}

/// The items of `s` whose flag equals `keep`, in order.
pub open spec fn select<T>(s: Seq<T>, flags: Seq<bool>, keep: bool) -> Seq<T>
    decreases s.len(),
{
    if s.len() == 0 {
        seq![]
    } else {
        let rest = select(s.drop_last(), flags.drop_last(), keep);
        if flags.last() == keep {
            rest.push(s.last())
        } else {
            rest
        }
    }
}

impl<S> SessionRegistry<S> {
    /// Live session ids, in creation order.
    pub closed spec fn ids(&self) -> Seq<Seq<char>> {
        Seq::new(self.ids@.len(), |i: int| self.ids@[i]@)
    }

    /// Live sessions, aligned with [`Self::ids`].
    pub closed spec fn sessions(&self) -> Seq<S> {
        self.sessions@
    }

    /// The counter the next session id is made from.
    pub closed spec fn next_counter(&self) -> nat {
        self.next_id as nat
    }

    /// The cap on live sessions.
    pub closed spec fn cap(&self) -> nat {
        self.max as nat
    }

    /// The registry's internal consistency: aligned columns, ids made from
    /// strictly increasing counters below the next one, at most `cap` live.
    pub closed spec fn wf(&self) -> bool {
        &&& self.ids@.len() == self.counters@.len()
        &&& self.ids@.len() == self.sessions@.len()
        &&& self.ids@.len() == self.stamps@.len()
        &&& self.ids@.len() <= self.max
        &&& self.next_id >= 1
        &&& forall|i: int|
            0 <= i < self.ids@.len() ==> #[trigger] self.ids@[i]@ == session_id_text(
                self.counters@[i] as nat,
            ) && self.counters@[i] < self.next_id
        &&& forall|i: int, j: int|
            0 <= i < j < self.counters@.len() ==> self.counters@[i] < self.counters@[j]
    }

    /// The registry's standing guarantees: live ids are distinct, and
    /// there are never more live sessions than the cap.
    pub open spec fn bounded(&self) -> bool {
        &&& ids_distinct(self.ids())
        &&& self.ids().len() <= self.cap()
        &&& self.sessions().len() == self.ids().len()
    }

    /// A well-formed registry has distinct ids, within the cap.
    pub proof fn lemma_bounded(&self)
        requires
            self.wf(),
        ensures
            self.bounded(),
    {
        assert forall|i: int, j: int| 0 <= i < j < self.ids().len() implies self.ids()[i] != self.ids()[j] by {
            assert(self.ids@[i]@ == session_id_text(self.counters@[i] as nat));
            assert(self.ids@[j]@ == session_id_text(self.counters@[j] as nat));
            lemma_session_id_injective(self.counters@[i] as nat, self.counters@[j] as nat);
        }
    }

    /// Empty registry with the default cap.
    pub fn new() -> (r: Self)
        ensures
            r.ids().len() == 0,
            r.cap() == DEFAULT_MAX_SESSIONS,
            r.next_counter() == 1,
            r.wf(),
            r.bounded(),
    {
        Self::with_cap(DEFAULT_MAX_SESSIONS)
    }

    /// Empty registry with an explicit cap.
    pub fn with_cap(max: usize) -> (r: Self)
        ensures
            r.ids().len() == 0,
            r.cap() == max,
            r.next_counter() == 1,
            r.wf(),
            r.bounded(),
    {
        let r = SessionRegistry {
            ids: Vec::new(),
            counters: Vec::new(),
            sessions: Vec::new(),
            stamps: Vec::new(),
            next_id: 1,
            max,
        };
        assert(r.ids() =~= Seq::<Seq<char>>::empty());
        r
    }

    /// Live session count.
    pub fn len(&self) -> (n: usize)
        ensures
            n == self.ids().len(),
    {
        self.ids.len()
    }

    /// Whether no sessions are live.
    pub fn is_empty(&self) -> (b: bool)
        ensures
            b == (self.ids().len() == 0),
    {
        self.ids.len() == 0
    }

    /// The counter the next session id will be made from.
    pub fn next_id(&self) -> (n: u64)
        ensures
            n == self.next_counter(),
    {
        self.next_id
    }

    /// Refuse a spawn when the registry is at its cap. Frontends ask before
    /// starting a child, so a refused spawn creates nothing.
    pub fn check_capacity(&self) -> (r: Result<(), CoreError>)
        ensures
            r is Ok <==> self.ids().len() < self.cap(),
            r matches Err(CoreError::Message(m)) ==> m@ == limit_message(self.cap()),
            r is Err ==> r->Err_0 is Message,
    {
        if self.ids.len() >= self.max {
            let mut m = String::new();
            push_str(&mut m, "session limit (");
            push_dec_u64(&mut m, self.max as u64);
            push_str(&mut m, ") reached; close one first");
            return Err(CoreError::Message(m));
        }
        Ok(())
    }

    /// Register a spawned session under the next sequential id and return
    /// the id; at the cap, refuse it and change nothing.
    pub fn register(&mut self, session: S) -> (r: Result<String, CoreError>)
        requires
            old(self).wf(),
            old(self).next_counter() < u64::MAX,
        ensures
            final(self).wf(),
            match r {
                Ok(id) => {
                    &&& old(self).ids().len() < old(self).cap()
                    &&& id@ == session_id_text(old(self).next_counter())
                    &&& final(self).ids() == old(self).ids().push(id@)
                    &&& final(self).sessions() == old(self).sessions().push(session)
                    &&& final(self).next_counter() == old(self).next_counter() + 1
                    &&& final(self).cap() == old(self).cap()
                    &&& final(self).bounded()
                },
                Err(e) => {
                    &&& old(self).ids().len() >= old(self).cap()
                    &&& e matches CoreError::Message(m) && m@ == limit_message(old(self).cap())
                    &&& final(self).ids() == old(self).ids()
                    &&& final(self).sessions() == old(self).sessions()
                    &&& final(self).next_counter() == old(self).next_counter()
                    &&& final(self).cap() == old(self).cap()
                },
            },
    {
        match self.check_capacity() {
            Err(e) => return Err(e),
            Ok(_) => {},
        }
        let counter = self.next_id;
        let id = session_id(counter);
        let ghost old_ids = self.ids();
        let ghost old_raw = self.ids@;
        let ghost old_counters = self.counters@;
        assert forall|i: int| 0 <= i < old_counters.len() implies old_counters[i] < counter by {
            assert(self.ids@[i]@ == session_id_text(self.counters@[i] as nat));
        }
        self.next_id = counter + 1;
        self.ids.push(id.clone());
        self.counters.push(counter);
        self.sessions.push(session);
        let now = instant_now();
        self.stamps.push(now);
        assert(self.ids() =~= old_ids.push(id@));
        proof {
            assert(self.ids@ == old_raw.push(id));
            assert(self.counters@ == old_counters.push(counter));
            assert forall|i: int|
                0 <= i < self.ids@.len() implies #[trigger] self.ids@[i]@ == session_id_text(
                    self.counters@[i] as nat,
                ) && self.counters@[i] < self.next_id by {
                if i < old_raw.len() {
                    assert(self.ids@[i] == old_raw[i]);
                    assert(self.counters@[i] == old_counters[i]);
                }
            }
            assert forall|i: int, j: int|
                0 <= i < j < self.counters@.len() implies self.counters@[i] < self.counters@[j] by {
                if j == old_counters.len() {
                    assert(old_counters[i] < counter);
                } else {
                    assert(old_counters[i] < old_counters[j]);
                }
            }
            assert(self.wf());
            self.lemma_bounded();
        }
        Ok(id)
    }

    fn find(&self, id: &str) -> (r: Option<usize>)
        requires
            self.wf(),
        ensures
            match r {
                Some(i) => i < self.ids().len() && self.ids()[i as int] == id@ && index_of(self.ids(), id@) == Some(i as int),
                None => index_of(self.ids(), id@) is None,
            },
    {
        proof {
            self.lemma_bounded();
        }
        let mut i: usize = 0;
        while i < self.ids.len()
            invariant
                self.wf(),
                i <= self.ids@.len(),
                self.ids().len() == self.ids@.len(),
                forall|j: int| 0 <= j < i ==> self.ids()[j] != id@,
            decreases self.ids@.len() - i,
        {
            if str_eq(self.ids[i].as_str(), id) {
                assert(self.ids()[i as int] == id@);
                proof {
                    let k = choose|k: int| 0 <= k < self.ids().len() && self.ids()[k] == id@;
                    if k != i {
                        self.lemma_bounded();
                        if k < i {
                            assert(self.ids()[k] != self.ids()[i as int]);
                        } else {
                            assert(self.ids()[i as int] != self.ids()[k]);
                        }
                    }
                }
                return Some(i);
            }
            i = i + 1;
        }
        None
    }

    fn unknown(id: &str) -> (e: CoreError)
        ensures
            e matches CoreError::Message(m) && m@ == unknown_message(id@),
    {
        let mut m = String::new();
        push_str(&mut m, "unknown session: ");
        push_str(&mut m, id);
        CoreError::Message(m)
    }

    /// Mutable access to a live session, stamping its activity; an unknown
    /// id is an error naming it.
    pub fn get_mut(&mut self, id: &str) -> (r: Result<&mut S, CoreError>)
        requires
            old(self).wf(),
        ensures
            final(self).wf(),
            final(self).ids() == old(self).ids(),
            final(self).next_counter() == old(self).next_counter(),
            final(self).cap() == old(self).cap(),
            final(self).bounded(),
            match r {
                Ok(s) => {
                    &&& index_of(old(self).ids(), id@) is Some
                    &&& *s == old(self).sessions()[index_of(old(self).ids(), id@)->0]
                    &&& final(self).sessions() == old(self).sessions().update(
                        index_of(old(self).ids(), id@)->0,
                        *final(s),
                    )
                },
                Err(e) => {
                    &&& index_of(old(self).ids(), id@) is None
                    &&& e matches CoreError::Message(m) && m@ == unknown_message(id@)
                    &&& final(self).sessions() == old(self).sessions()
                },
            },
    {
        proof {
            self.lemma_bounded();
        }
        match self.find(id) {
            None => Err(Self::unknown(id)),
            Some(i) => {
                let now = instant_now();
                self.stamps.set(i, now);
                Ok(&mut self.sessions[i])
            },
        }
    }

    /// Remove a live session and hand it back for closing; an unknown id is
    /// an error naming it, not a no-op.
    pub fn remove(&mut self, id: &str) -> (r: Result<S, CoreError>)
        requires
            old(self).wf(),
        ensures
            final(self).wf(),
            final(self).bounded(),
            final(self).next_counter() == old(self).next_counter(),
            final(self).cap() == old(self).cap(),
            !final(self).ids().contains(id@),
            match r {
                Ok(s) => {
                    &&& index_of(old(self).ids(), id@) is Some
                    &&& s == old(self).sessions()[index_of(old(self).ids(), id@)->0]
                    &&& final(self).ids() == old(self).ids().remove(index_of(old(self).ids(), id@)->0)
                    &&& final(self).sessions() == old(self).sessions().remove(
                        index_of(old(self).ids(), id@)->0,
                    )
                },
                Err(e) => {
                    &&& index_of(old(self).ids(), id@) is None
                    &&& e matches CoreError::Message(m) && m@ == unknown_message(id@)
                    &&& final(self).ids() == old(self).ids()
                    &&& final(self).sessions() == old(self).sessions()
                },
            },
    {
        proof {
            self.lemma_bounded();
        }
        match self.find(id) {
            None => Err(Self::unknown(id)),
            Some(i) => {
                let ghost old_raw = self.ids@;
                let ghost old_counters = self.counters@;
                let ghost old_ids = self.ids();
                let _ = self.ids.remove(i);
                let _ = self.counters.remove(i);
                let _ = self.stamps.remove(i);
                let s = self.sessions.remove(i);
                proof {
                    assert(self.ids() =~= old_ids.remove(i as int));
                    assert forall|k: int|
                        0 <= k < self.ids@.len() implies #[trigger] self.ids@[k]@ == session_id_text(
                            self.counters@[k] as nat,
                        ) && self.counters@[k] < self.next_id by {
                        if k < i {
                            assert(old_raw[k]@ == session_id_text(old_counters[k] as nat));
                        } else {
                            assert(old_raw[k + 1]@ == session_id_text(old_counters[k + 1] as nat));
                        }
                    }
                    assert forall|a: int, b: int|
                        0 <= a < b < self.counters@.len() implies self.counters@[a] < self.counters@[b] by {
                        let oa = if a < i { a } else { a + 1 };
                        let ob = if b < i { b } else { b + 1 };
                        assert(old_counters[oa] < old_counters[ob]);
                    }
                    self.lemma_bounded();
                    let ghost k = index_of(old_ids, id@)->0;
                    assert(old_ids[k] == id@);
                    if self.ids().contains(id@) {
                        let j = choose|j: int| 0 <= j < self.ids().len() && self.ids()[j] == id@;
                        let oj = if j < i { j } else { j + 1 };
                        assert(old_ids[oj] == id@);
                        assert(oj != k);
                    }
                }
                Ok(s)
            },
        }
    }

    /// Whether each live session has been idle longer than `max_idle_ms`,
    /// by the clock; aligned with [`Self::ids`].
    fn idle_readings(&self) -> (idle: Vec<u128>)
        requires
            self.wf(),
        ensures
            idle@.len() == self.ids().len(),
    {
        let mut idle: Vec<u128> = Vec::new();
        let mut i: usize = 0;
        while i < self.stamps.len()
            invariant
                i <= self.stamps@.len(),
                idle@.len() == i,
            decreases self.stamps@.len() - i,
        {
            idle.push(elapsed_nanos(&self.stamps[i]));
            i = i + 1;
        }
        idle
    }

    /// Remove the sessions whose flag is set and hand them back with their
    /// ids, in order; the others stay, in order.
    pub fn remove_flagged(&mut self, flags: &Vec<bool>) -> (removed: Vec<(String, S)>)
        requires
            old(self).wf(),
            flags@.len() == old(self).ids().len(),
        ensures
            final(self).wf(),
            final(self).bounded(),
            final(self).next_counter() == old(self).next_counter(),
            final(self).cap() == old(self).cap(),
            final(self).ids() == select(old(self).ids(), flags@, false),
            final(self).sessions() == select(old(self).sessions(), flags@, false),
            Seq::new(removed@.len(), |k: int| removed@[k].0@) == select(old(self).ids(), flags@, true),
            Seq::new(removed@.len(), |k: int| removed@[k].1) == select(old(self).sessions(), flags@, true),
    {
        let ghost old_ids = self.ids();
        let ghost old_sessions = self.sessions();
        let ghost old_raw = self.ids@;
        let ghost old_counters = self.counters@;
        let ghost next = self.next_id;
        proof {
            self.lemma_bounded();
        }
        let mut ids: Vec<String> = Vec::new();
        let mut counters: Vec<u64> = Vec::new();
        let mut sessions: Vec<S> = Vec::new();
        let mut stamps: Vec<std::time::Instant> = Vec::new();
        std::mem::swap(&mut ids, &mut self.ids);
        std::mem::swap(&mut counters, &mut self.counters);
        std::mem::swap(&mut sessions, &mut self.sessions);
        std::mem::swap(&mut stamps, &mut self.stamps);
        let n = ids.len();
        let mut removed: Vec<(String, S)> = Vec::new();
        let mut k: usize = 0;
        assert(select(old_ids.take(0), flags@.take(0), false) =~= Seq::<Seq<char>>::empty());
        while k < n
            invariant
                n == old_raw.len(),
                k <= n,
                flags@.len() == n,
                ids@ == old_raw.skip(k as int),
                counters@ == old_counters.skip(k as int),
                sessions@ == old_sessions.skip(k as int),
                stamps@.len() == n - k,
                old_ids == Seq::new(old_raw.len(), |j: int| old_raw[j]@),
                old_sessions.len() == n,
                old_counters.len() == n,
                self.next_id >= 1,
                self.max == old(self).max,
                self.next_id == old(self).next_id,
                next == self.next_id,
                forall|j: int| 0 <= j < n ==> #[trigger] old_raw[j]@ == session_id_text(old_counters[j] as nat) && old_counters[j] < next,
                forall|a: int, b: int| 0 <= a < b < n ==> old_counters[a] < old_counters[b],
                self.ids@.len() == self.counters@.len(),
                self.ids@.len() == self.sessions@.len(),
                self.ids@.len() == self.stamps@.len(),
                self.ids() == select(old_ids.take(k as int), flags@.take(k as int), false),
                self.sessions@ == select(old_sessions.take(k as int), flags@.take(k as int), false),
                Seq::new(removed@.len(), |j: int| removed@[j].0@) == select(old_ids.take(k as int), flags@.take(k as int), true),
                Seq::new(removed@.len(), |j: int| removed@[j].1) == select(old_sessions.take(k as int), flags@.take(k as int), true),
                forall|j: int| 0 <= j < self.ids@.len() ==> #[trigger] self.ids@[j]@ == session_id_text(self.counters@[j] as nat) && self.counters@[j] < next,
                forall|a: int, b: int| 0 <= a < b < self.counters@.len() ==> self.counters@[a] < self.counters@[b],
                k < n ==> forall|j: int| 0 <= j < self.counters@.len() ==> self.counters@[j] < old_counters[k as int],
                self.ids@.len() <= k,
            decreases n - k,
        {
            let id = ids.remove(0);
            let counter = counters.remove(0);
            let session = sessions.remove(0);
            let stamp = stamps.remove(0);
            assert(old_raw.skip(k as int).drop_first() =~= old_raw.skip(k + 1));
            assert(old_counters.skip(k as int).drop_first() =~= old_counters.skip(k + 1));
            assert(old_sessions.skip(k as int).drop_first() =~= old_sessions.skip(k + 1));
            assert(old_ids.take(k + 1).drop_last() =~= old_ids.take(k as int));
            assert(old_sessions.take(k + 1).drop_last() =~= old_sessions.take(k as int));
            assert(flags@.take(k + 1).drop_last() =~= flags@.take(k as int));
            assert(old_ids.take(k + 1).last() == id@);
            assert(old_sessions.take(k + 1).last() == session);
            assert(flags@.take(k + 1).last() == flags@[k as int]);
            if flags[k] {
                let ghost before = removed@;
                removed.push((id, session));
                assert(Seq::new(removed@.len(), |j: int| removed@[j].0@) =~= Seq::new(before.len(), |j: int| before[j].0@).push(old_ids[k as int]));
                assert(Seq::new(removed@.len(), |j: int| removed@[j].1) =~= Seq::new(before.len(), |j: int| before[j].1).push(old_sessions[k as int]));
            } else {
                let ghost before_ids = self.ids();
                let ghost before_raw = self.ids@;
                let ghost before_counters = self.counters@;
                self.ids.push(id);
                self.counters.push(counter);
                self.sessions.push(session);
                self.stamps.push(stamp);
                assert(self.ids() =~= before_ids.push(old_ids[k as int]));
                assert forall|j: int| 0 <= j < self.ids@.len() implies #[trigger] self.ids@[j]@ == session_id_text(self.counters@[j] as nat) && self.counters@[j] < next by {
                    if j < before_raw.len() {
                        assert(before_raw[j]@ == session_id_text(before_counters[j] as nat));
                    } else {
                        assert(old_raw[k as int]@ == session_id_text(old_counters[k as int] as nat));
                    }
                }
                assert forall|a: int, b: int| 0 <= a < b < self.counters@.len() implies self.counters@[a] < self.counters@[b] by {
                    if b == before_counters.len() {
                        assert(before_counters[a] < old_counters[k as int]);
                    }
                }
            }
            k = k + 1;
            proof {
                if k < n {
                    assert forall|j: int| 0 <= j < self.counters@.len() implies self.counters@[j] < old_counters[k as int] by {
                        assert(old_counters[k - 1] < old_counters[k as int]);
                    }
                }
            }
        }
        assert(old_ids.take(n as int) =~= old_ids);
        assert(old_sessions.take(n as int) =~= old_sessions);
        assert(flags@.take(n as int) =~= flags@);
        proof {
            self.lemma_bounded();
        }
        removed
    }

    /// Remove the sessions idle longer than `max_idle_ms` and hand them back
    /// for closing. The clock is read once per session (nanoseconds since its
    /// last activity); whatever it reads, the sessions [`stale`] flags are
    /// removed and the rest stay, in order.
    pub fn reap_idle(&mut self, max_idle_ms: u64) -> (removed: Vec<(String, S)>)
        requires
            old(self).wf(),
        ensures
            final(self).wf(),
            final(self).bounded(),
            final(self).next_counter() == old(self).next_counter(),
            final(self).cap() == old(self).cap(),
            exists|idle: Seq<u128>|
                #![trigger stale(idle, max_idle_ms)]
                idle.len() == old(self).ids().len() && ({
                let flags = stale(idle, max_idle_ms);
                final(self).ids() == select(old(self).ids(), flags, false)
                    && final(self).sessions() == select(old(self).sessions(), flags, false)
                    && Seq::new(removed@.len(), |k: int| removed@[k].0@) == select(old(self).ids(), flags, true)
                    && Seq::new(removed@.len(), |k: int| removed@[k].1) == select(old(self).sessions(), flags, true)
            }),
    {
        let idle = self.idle_readings();
        let flags = stale_of(&idle, max_idle_ms);
        self.remove_flagged(&flags)
    }
}

} // verus!
