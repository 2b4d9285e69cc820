//! Bookkeeping of database sessions: which connections exist for which
//! stored configuration, which are in use, and which have expired.
//!
//! The registry decides; the caller performs the connection work it asks for
//! (connecting, closing, asking the server for its current database) and
//! reports back. Times are milliseconds on the caller's monotonic clock.
use vstd::prelude::*;
use crate::text::{
    str_eq, push_str, u64_to_decimal, decimal, digit_char, to_uppercase, unicode_uppercase,
    contains_seq, str_contains,
};
use crate::models::{opt_view, DatabaseType};

verus! {

// ---------------------------------------------------------------------------
// Session identifiers
// ---------------------------------------------------------------------------

/// The id of the `serial`-th session created, for configuration `config_id`.
pub open spec fn session_id_of(config_id: Seq<char>, serial: nat) -> Seq<char> {
    config_id + ":session:"@ + decimal(serial)
}

proof fn lemma_decimal_no_colon(n: nat)
    ensures
        forall|i: int| 0 <= i < decimal(n).len() ==> #[trigger] decimal(n)[i] != ':',
        decimal(n).len() >= 1,
        decimal(n).len() == 1 <==> n < 10,
    decreases n,
{
    if n >= 10 {
        lemma_decimal_no_colon(n / 10);
        let p = decimal(n / 10);
        assert(decimal(n) == p.push(digit_char(n % 10)));
        assert forall|i: int| 0 <= i < decimal(n).len() implies #[trigger] decimal(n)[i] != ':' by {
            if i < p.len() {
                assert(decimal(n)[i] == p[i]);
            }
        }
    }
}

proof fn lemma_decimal_injective(a: nat, b: nat)
    requires
        decimal(a) == decimal(b),
    ensures
        a == b,
    decreases a,
{
    lemma_decimal_no_colon(a);
    lemma_decimal_no_colon(b);
    if a >= 10 && b >= 10 {
        let pa = decimal(a / 10);
        let pb = decimal(b / 10);
        assert(decimal(a) == pa.push(digit_char(a % 10)));
        assert(decimal(b) == pb.push(digit_char(b % 10)));
        assert(decimal(a).drop_last() =~= pa);
        assert(decimal(b).drop_last() =~= pb);
        assert(digit_char(a % 10) == decimal(a).last());
        assert(digit_char(b % 10) == decimal(b).last());
        lemma_decimal_injective(a / 10, b / 10);
    } else if a < 10 && b < 10 {
        assert(decimal(a)[0] == digit_char(a));
        assert(decimal(b)[0] == digit_char(b));
    }
}

/// Distinct serials give distinct session ids, whatever the configurations.
pub proof fn law_session_ids_distinct(c1: Seq<char>, n1: nat, c2: Seq<char>, n2: nat)
    requires
        n1 != n2,
    ensures
        session_id_of(c1, n1) != session_id_of(c2, n2),
{
    reveal_strlit(":session:");
    let sep = ":session:"@;
    assert(sep.len() == 9 && sep[8] == ':');
    lemma_decimal_no_colon(n1);
    lemma_decimal_no_colon(n2);
    let d1 = decimal(n1);
    let d2 = decimal(n2);
    let x = session_id_of(c1, n1);
    let y = session_id_of(c2, n2);
    if x == y {
        if d1.len() < d2.len() {
            let k = x.len() - 1 - d1.len();
            assert(x[k] == sep[8]);
            assert(y[k] == d2[d2.len() - 1 - d1.len()]);
        } else if d2.len() < d1.len() {
            let k = y.len() - 1 - d2.len();
            assert(y[k] == sep[8]);
            assert(x[k] == d1[d1.len() - 1 - d2.len()]);
        } else {
            assert(d1 =~= x.subrange(x.len() - d1.len(), x.len() as int));
            assert(d2 =~= y.subrange(y.len() - d2.len(), y.len() as int));
            lemma_decimal_injective(n1, n2);
        }
    }
}

// ---------------------------------------------------------------------------
// Sessions
// ---------------------------------------------------------------------------

/// One open connection of a configuration.
#[derive(Debug)]
pub struct ConnectionSession {
    pub session_id: String,
    pub config_id: String,
    /// The database the connection is on.
    pub database: Option<String>,
    /// Which session of the registry this is (1 for the first).
    pub serial: u64,
    pub in_use: bool,
    pub last_active: u64,
    pub created_at: u64,
}

/// Idle for longer than `timeout`; a session in use never is.
pub open spec fn idle_expired(s: ConnectionSession, timeout: u64, now: u64) -> bool {
    !s.in_use && now - s.last_active > timeout
}

/// Open for longer than `max_lifetime`.
pub open spec fn lifetime_expired(s: ConnectionSession, max_lifetime: u64, now: u64) -> bool {
    now - s.created_at > max_lifetime
}

impl ConnectionSession {
    /// A session that was just opened and is not yet in use.
    pub fn new(session_id: String, config_id: String, database: Option<String>, serial: u64, now: u64) -> (r: ConnectionSession)
        ensures
            r.session_id == session_id,
            r.config_id == config_id,
            r.database == database,
            r.serial == serial,
            !r.in_use,
            r.last_active == now,
            r.created_at == now,
    {
        ConnectionSession { session_id, config_id, database, serial, in_use: false, last_active: now, created_at: now }
    }

    pub fn mark_in_use(&mut self, now: u64)
        ensures
            *final(self) == (ConnectionSession { in_use: true, last_active: now, ..*old(self) }),
    {
        self.in_use = true;
        self.update_last_active(now);
    }

    pub fn release(&mut self, now: u64)
        ensures
            *final(self) == (ConnectionSession { in_use: false, last_active: now, ..*old(self) }),
    {
        self.in_use = false;
        self.update_last_active(now);
    }

    pub fn update_last_active(&mut self, now: u64)
        ensures
            *final(self) == (ConnectionSession { last_active: now, ..*old(self) }),
    {
        self.last_active = now;
    }

    pub fn is_expired(&self, timeout: u64, now: u64) -> (r: bool)
        ensures
            r == idle_expired(*self, timeout, now),
    {
        if self.in_use {
            return false;
        }
        now > self.last_active && now - self.last_active > timeout
    }

    pub fn is_lifetime_expired(&self, max_lifetime: u64, now: u64) -> (r: bool)
        ensures
            r == lifetime_expired(*self, max_lifetime, now),
    {
        now > self.created_at && now - self.created_at > max_lifetime
    }
}

// ---------------------------------------------------------------------------
// The registry
// ---------------------------------------------------------------------------

/// Connection statistics.
#[derive(Debug, Clone, Copy)]
pub struct ConnectionStats {
    pub total_sessions: usize,
    pub active_sessions: usize,
    pub configs_with_sessions: usize,
}

/// What `list_sessions` reports of one session.
#[derive(Debug)]
pub struct SessionInfo {
    pub session_id: String,
    pub database: Option<String>,
    pub in_use: bool,
    /// Milliseconds since the session was last active.
    pub idle_time: u64,
    /// Milliseconds since the session was opened.
    pub lifetime: u64,
}

/// How a new session request is answered.
#[derive(Debug)]
pub enum SessionStart {
    /// An idle session on the requested database was taken.
    Reused(String),
    /// A connection has to be opened; once it is, register it with
    /// `add_connected_session` under this serial.
    Connect { session_id: String, serial: u64 },
}

/// What the server said about a session's database when it was released.
#[derive(Debug)]
pub enum DatabaseCheck {
    /// The connection cannot switch databases, or it is still on the
    /// configured one.
    Unchanged,
    /// The connection is now on this database.
    Switched(Option<String>),
    /// The server could not be asked.
    Failed,
}

/// What became of a released session.
#[derive(Debug, Clone, Copy, PartialEq, Eq, Structural)]
pub enum ReleaseOutcome {
    /// The session is idle again.
    Released,
    /// The session was dropped; its connection is to be closed.
    Closed,
}

/// Errors of the registry.
#[derive(Debug, Clone, PartialEq, Eq)]
pub enum SessionError {
    /// A failure of the registry, with its message (`session not found:
    /// <id>` where no session has the id).
    Internal(String),
    /// Every session serial has been handed out.
    SerialsExhausted,
}

/// The error for a session id that no session has.
fn session_not_found(session_id: &str) -> (e: SessionError)
    ensures
        e matches SessionError::Internal(m) && m@ == "session not found: "@ + session_id@,
{
    let mut m = crate::text::str_to_owned("session not found: ");
    push_str(&mut m, session_id);
    SessionError::Internal(m)
}

/// Sessions of all configurations, in the order they were opened.
pub struct ConnectionManager {
    sessions: Vec<ConnectionSession>,
    /// Idle time after which an unused session is closed (ms).
    idle_timeout: u64,
    /// Age after which any session is closed (ms).
    max_lifetime: u64,
    /// Serial of the last session id handed out.
    session_counter: u64,
}

/// Index of the first session with id `id`, or -1.
pub open spec fn index_of(s: Seq<ConnectionSession>, id: Seq<char>) -> int
    decreases s.len(),
{
    if s.len() == 0 {
        -1
    } else if s.last().session_id@ == id {
        let i = index_of(s.drop_last(), id);
        if i >= 0 {
            i
        } else {
            s.len() - 1
        }
    } else {
        index_of(s.drop_last(), id)
    }
}

/// Whether a session can serve a request for `database`: it is idle, of the
/// same configuration, and on that database, which must be named.
pub open spec fn can_reuse(s: ConnectionSession, config_id: Seq<char>, database: Option<Seq<char>>) -> bool {
    !s.in_use && s.config_id@ == config_id && database is Some && opt_view(s.database) == database
}

/// Index of the first session that can serve the request, or -1.
pub open spec fn reusable_index(s: Seq<ConnectionSession>, config_id: Seq<char>, database: Option<Seq<char>>) -> int
    decreases s.len(),
{
    if s.len() == 0 {
        -1
    } else {
        let i = reusable_index(s.drop_last(), config_id, database);
        if i >= 0 {
            i
        } else if can_reuse(s.last(), config_id, database) {
            s.len() - 1
        } else {
            -1
        }
    }
}

/// The sessions that survive a cleanup at `now`, in order.
pub open spec fn survivors(s: Seq<ConnectionSession>, idle: u64, max: u64, now: u64) -> Seq<ConnectionSession>
    decreases s.len(),
{
    if s.len() == 0 {
        s
    } else if idle_expired(s.last(), idle, now) || lifetime_expired(s.last(), max, now) {
        survivors(s.drop_last(), idle, max, now)
    } else {
        survivors(s.drop_last(), idle, max, now).push(s.last())
    }
}

/// The ids of the sessions that a cleanup at `now` drops, in order.
pub open spec fn expired_ids(s: Seq<ConnectionSession>, idle: u64, max: u64, now: u64) -> Seq<Seq<char>>
    decreases s.len(),
{
    if s.len() == 0 {
        Seq::empty()
    } else if idle_expired(s.last(), idle, now) || lifetime_expired(s.last(), max, now) {
        expired_ids(s.drop_last(), idle, max, now).push(s.last().session_id@)
    } else {
        expired_ids(s.drop_last(), idle, max, now)
    }
}

/// The sessions of other configurations than `config_id`, in order.
pub open spec fn without_config(s: Seq<ConnectionSession>, config_id: Seq<char>) -> Seq<ConnectionSession>
    decreases s.len(),
{
    if s.len() == 0 {
        s
    } else if s.last().config_id@ == config_id {
        without_config(s.drop_last(), config_id)
    } else {
        without_config(s.drop_last(), config_id).push(s.last())
    }
}

/// The sessions of `config_id`, in order.
pub open spec fn of_config(s: Seq<ConnectionSession>, config_id: Seq<char>) -> Seq<ConnectionSession>
    decreases s.len(),
{
    if s.len() == 0 {
        s
    } else if s.last().config_id@ == config_id {
        of_config(s.drop_last(), config_id).push(s.last())
    } else {
        of_config(s.drop_last(), config_id)
    }
}

pub open spec fn count_in_use(s: Seq<ConnectionSession>) -> nat
    decreases s.len(),
{
    if s.len() == 0 {
        0
    } else {
        count_in_use(s.drop_last()) + if s.last().in_use {
            1nat
        } else {
            0nat
        }
    }
}

/// The configurations that have sessions.
pub open spec fn config_set(s: Seq<ConnectionSession>) -> Set<Seq<char>> {
    Set::new(|c: Seq<char>| exists|i: int| 0 <= i < s.len() && (#[trigger] s[i]).config_id@ == c)
}

/// The registry's invariant: each session has the id of its serial and
/// configuration, serials are distinct and none is ahead of the counter.
pub open spec fn registry_wf(s: Seq<ConnectionSession>, counter: u64) -> bool {
    &&& forall|i: int| 0 <= i < s.len() ==> (#[trigger] s[i]).session_id@ == session_id_of(s[i].config_id@, s[i].serial as nat)
    &&& forall|i: int| 0 <= i < s.len() ==> 1 <= (#[trigger] s[i]).serial <= counter
    &&& forall|i: int, j: int| 0 <= i < j < s.len() ==> (#[trigger] s[i]).serial != (#[trigger] s[j]).serial
}

proof fn lemma_index_of(s: Seq<ConnectionSession>, id: Seq<char>)
    ensures
        -1 <= index_of(s, id) < s.len(),
        index_of(s, id) >= 0 ==> s[index_of(s, id)].session_id@ == id,
        index_of(s, id) >= 0 ==> forall|j: int| 0 <= j < index_of(s, id) ==> (#[trigger] s[j]).session_id@ != id,
        index_of(s, id) < 0 ==> forall|j: int| 0 <= j < s.len() ==> (#[trigger] s[j]).session_id@ != id,
    decreases s.len(),
{
    if s.len() > 0 {
        lemma_index_of(s.drop_last(), id);
        assert forall|j: int| 0 <= j < s.len() - 1 implies #[trigger] s[j] == s.drop_last()[j] by {}
    }
}

proof fn lemma_reusable_index(s: Seq<ConnectionSession>, c: Seq<char>, d: Option<Seq<char>>)
    ensures
        -1 <= reusable_index(s, c, d) < s.len(),
        reusable_index(s, c, d) >= 0 ==> can_reuse(s[reusable_index(s, c, d)], c, d),
        reusable_index(s, c, d) >= 0 ==> forall|j: int| 0 <= j < reusable_index(s, c, d) ==> !can_reuse(#[trigger] s[j], c, d),
        reusable_index(s, c, d) < 0 ==> forall|j: int| 0 <= j < s.len() ==> !can_reuse(#[trigger] s[j], c, d),
    decreases s.len(),
{
    if s.len() > 0 {
        lemma_reusable_index(s.drop_last(), c, d);
        assert forall|j: int| 0 <= j < s.len() - 1 implies #[trigger] s[j] == s.drop_last()[j] by {}
    }
}

proof fn lemma_wf_update(s: Seq<ConnectionSession>, counter: u64, k: int, x: ConnectionSession)
    requires
        registry_wf(s, counter),
        0 <= k < s.len(),
        x.session_id == s[k].session_id,
        x.config_id == s[k].config_id,
        x.serial == s[k].serial,
    ensures
        registry_wf(s.update(k, x), counter),
{
    let t = s.update(k, x);
    assert forall|i: int, j: int| 0 <= i < j < t.len() implies (#[trigger] t[i]).serial != (#[trigger] t[j]).serial by {
        assert(s[i].serial != s[j].serial);
    }
}

proof fn lemma_wf_remove(s: Seq<ConnectionSession>, counter: u64, k: int)
    requires
        registry_wf(s, counter),
        0 <= k < s.len(),
    ensures
        registry_wf(s.remove(k), counter),
{
    let t = s.remove(k);
    assert forall|i: int| 0 <= i < t.len() implies (#[trigger] t[i]) == s[if i < k { i } else { i + 1 }] by {}
    assert forall|i: int, j: int| 0 <= i < j < t.len() implies (#[trigger] t[i]).serial != (#[trigger] t[j]).serial by {
        let a = if i < k { i } else { i + 1 };
        let b = if j < k { j } else { j + 1 };
        assert(t[i] == s[a] && t[j] == s[b]);
    }
}

/// A subsequence of a well-formed registry is well formed.
proof fn lemma_wf_sub(s: Seq<ConnectionSession>, t: Seq<ConnectionSession>, counter: u64, m: Seq<int>)
    requires
        registry_wf(s, counter),
        m.len() == t.len(),
        forall|i: int| 0 <= i < m.len() ==> 0 <= #[trigger] m[i] < s.len() && t[i] == s[m[i]],
        forall|i: int, j: int| 0 <= i < j < m.len() ==> #[trigger] m[i] < #[trigger] m[j],
    ensures
        registry_wf(t, counter),
{
    assert forall|i: int, j: int| 0 <= i < j < t.len() implies (#[trigger] t[i]).serial != (#[trigger] t[j]).serial by {
        assert(m[i] < m[j]);
        assert(t[i] == s[m[i]] && t[j] == s[m[j]]);
    }
    assert forall|i: int| 0 <= i < t.len() implies (#[trigger] t[i]).session_id@ == session_id_of(t[i].config_id@, t[i].serial as nat) by {
        assert(t[i] == s[m[i]]);
    }
    assert forall|i: int| 0 <= i < t.len() implies 1 <= (#[trigger] t[i]).serial <= counter by {
        assert(t[i] == s[m[i]]);
    }
}

impl View for ConnectionManager {
    type V = Seq<ConnectionSession>;

    closed spec fn view(&self) -> Seq<ConnectionSession> {
        self.sessions@
    }
}

impl ConnectionManager {
    pub closed spec fn counter(&self) -> u64 {
        self.session_counter
    }

    pub closed spec fn idle_timeout_spec(&self) -> u64 {
        self.idle_timeout
    }

    pub closed spec fn max_lifetime_spec(&self) -> u64 {
        self.max_lifetime
    }

    /// The registry's invariant.
    pub closed spec fn wf(&self) -> bool {
        registry_wf(self.sessions@, self.session_counter)
    }

    /// An empty registry closing sessions idle for 5 minutes or open for 30.
    pub fn new() -> (r: ConnectionManager)
        ensures
            r.wf(),
            r@.len() == 0,
            r.counter() == 0,
            r.idle_timeout_spec() == 300_000,
            r.max_lifetime_spec() == 1_800_000,
    {
        Self::with_config(300_000, 1_800_000)
    }

    /// An empty registry with the given limits (ms).
    pub fn with_config(idle_timeout: u64, max_lifetime: u64) -> (r: ConnectionManager)
        ensures
            r.wf(),
            r@.len() == 0,
            r.counter() == 0,
            r.idle_timeout_spec() == idle_timeout,
            r.max_lifetime_spec() == max_lifetime,
    {
        ConnectionManager { sessions: Vec::new(), idle_timeout, max_lifetime, session_counter: 0 }
    }

    fn find(&self, session_id: &str) -> (r: Option<usize>)
        ensures
            match r {
                Some(i) => i == index_of(self@, session_id@),
                None => index_of(self@, session_id@) < 0,
            },
    {
        proof {
            lemma_index_of(self.sessions@, session_id@);
        }
        let mut i: usize = 0;
        while i < self.sessions.len()
            invariant
                i <= self.sessions.len(),
                forall|j: int| 0 <= j < i ==> (#[trigger] self.sessions@[j]).session_id@ != session_id@,
                -1 <= index_of(self.sessions@, session_id@) < self.sessions@.len(),
                index_of(self.sessions@, session_id@) >= 0 ==> self.sessions@[index_of(self.sessions@, session_id@)].session_id@ == session_id@,
                index_of(self.sessions@, session_id@) >= 0 ==> forall|j: int| 0 <= j < index_of(self.sessions@, session_id@) ==> (#[trigger] self.sessions@[j]).session_id@ != session_id@,
                index_of(self.sessions@, session_id@) < 0 ==> forall|j: int| 0 <= j < self.sessions@.len() ==> (#[trigger] self.sessions@[j]).session_id@ != session_id@,
            decreases self.sessions.len() - i,
        {
            if str_eq(self.sessions[i].session_id.as_str(), session_id) {
                return Some(i);
            }
            i += 1;
        }
        None
    }

    /// Takes an idle session of the configuration that is on the requested
    /// database, marking it in use; `None` where there is none.
    pub fn try_acquire_session(&mut self, config_id: &str, database: &Option<String>, now: u64) -> (r: Option<String>)
        requires
            old(self).wf(),
        ensures
            final(self).wf(),
            final(self).counter() == old(self).counter(),
            final(self).idle_timeout_spec() == old(self).idle_timeout_spec(),
            final(self).max_lifetime_spec() == old(self).max_lifetime_spec(),
            ({
                let k = reusable_index(old(self)@, config_id@, opt_view(*database));
                match r {
                    Some(id) => k >= 0 && id@ == old(self)@[k].session_id@ && !old(self)@[k].in_use
                        && old(self)@[k].config_id@ == config_id@ && database is Some
                        && opt_view(old(self)@[k].database) == opt_view(*database) && final(self)@ == old(self)@.update(
                        k,
                        ConnectionSession { in_use: true, last_active: now, ..old(self)@[k] },
                    ),
                    None => k < 0 && final(self)@ == old(self)@,
                }
            }),
    {
        proof {
            lemma_reusable_index(self.sessions@, config_id@, opt_view(*database));
        }
        let ghost k = reusable_index(self.sessions@, config_id@, opt_view(*database));
        let mut i: usize = 0;
        while i < self.sessions.len()
            invariant
                i <= self.sessions.len(),
                self.sessions@ == old(self).sessions@,
                self.session_counter == old(self).session_counter,
                self.idle_timeout == old(self).idle_timeout,
                self.max_lifetime == old(self).max_lifetime,
                registry_wf(self.sessions@, self.session_counter),
                k == reusable_index(self.sessions@, config_id@, opt_view(*database)),
                forall|j: int| 0 <= j < i ==> !can_reuse(#[trigger] self.sessions@[j], config_id@, opt_view(*database)),
                -1 <= k < self.sessions@.len(),
                k >= 0 ==> can_reuse(self.sessions@[k], config_id@, opt_view(*database)),
                k >= 0 ==> forall|j: int| 0 <= j < k ==> !can_reuse(#[trigger] self.sessions@[j], config_id@, opt_view(*database)),
                k < 0 ==> forall|j: int| 0 <= j < self.sessions@.len() ==> !can_reuse(#[trigger] self.sessions@[j], config_id@, opt_view(*database)),
            decreases self.sessions.len() - i,
        {
            let s = &self.sessions[i];
            let db_match = match database {
                Some(d) => match &s.database {
                    Some(sd) => str_eq(sd.as_str(), d.as_str()),
                    None => false,
                },
                None => false,
            };
            if !s.in_use && str_eq(s.config_id.as_str(), config_id) && db_match {
                assert(can_reuse(self.sessions@[i as int], config_id@, opt_view(*database)));
                let id = s.session_id.clone();
                let mut taken = self.sessions.remove(i);
                taken.mark_in_use(now);
                self.sessions.insert(i, taken);
                proof {
                    assert(k == i);
                    assert(self.sessions@ =~= old(self).sessions@.update(
                        k,
                        ConnectionSession { in_use: true, last_active: now, ..old(self).sessions@[k] },
                    ));
                    lemma_wf_update(old(self).sessions@, old(self).session_counter, k, self.sessions@[k]);
                }
                return Some(id);
            }
            i += 1;
        }
        None
    }

    /// Answers a request for a session: reuses an idle one on the requested
    /// database, or hands out the id of a new one to be connected.
    pub fn begin_session(&mut self, config_id: &str, database: &Option<String>, now: u64) -> (r: Result<SessionStart, SessionError>)
        requires
            old(self).wf(),
        ensures
            final(self).wf(),
            final(self).idle_timeout_spec() == old(self).idle_timeout_spec(),
            final(self).max_lifetime_spec() == old(self).max_lifetime_spec(),
            ({
                let k = reusable_index(old(self)@, config_id@, opt_view(*database));
                match r {
                    Ok(SessionStart::Reused(id)) => k >= 0 && id@ == old(self)@[k].session_id@ && !old(self)@[k].in_use
                        && old(self)@[k].config_id@ == config_id@ && database is Some
                        && opt_view(old(self)@[k].database) == opt_view(*database)
                        && final(self).counter() == old(self).counter()
                        && final(self)@ == old(self)@.update(
                        k,
                        ConnectionSession { in_use: true, last_active: now, ..old(self)@[k] },
                    ),
                    Ok(SessionStart::Connect { session_id, serial }) => k < 0 && serial == old(self).counter() + 1
                        && final(self).counter() == serial && session_id@ == session_id_of(config_id@, serial as nat)
                        && final(self)@ == old(self)@,
                    Err(e) => e == SessionError::SerialsExhausted && k < 0 && old(self).counter() == u64::MAX && final(self)@ == old(self)@
                        && final(self).counter() == old(self).counter(),
                }
            }),
    {
        match self.try_acquire_session(config_id, database, now) {
            Some(id) => Ok(SessionStart::Reused(id)),
            None => {
                if self.session_counter == u64::MAX {
                    return Err(SessionError::SerialsExhausted);
                }
                self.session_counter = self.session_counter + 1;
                let serial = self.session_counter;
                let mut id = crate::text::str_to_owned(config_id);
                push_str(&mut id, ":session:");
                let n = u64_to_decimal(serial);
                push_str(&mut id, n.as_str());
                proof {
                    let s = self.sessions@;
                    assert forall|i: int| 0 <= i < s.len() implies 1 <= (#[trigger] s[i]).serial <= self.session_counter by {}
                }
                Ok(SessionStart::Connect { session_id: id, serial })
            },
        }
    }

    /// Registers the connection opened for `serial`, in use; `None` (and
    /// nothing registered) where that serial was not handed out or is taken.
    pub fn add_connected_session(&mut self, config_id: &str, serial: u64, database: Option<String>, now: u64) -> (r: Option<String>)
        requires
            old(self).wf(),
        ensures
            final(self).wf(),
            final(self).counter() == old(self).counter(),
            final(self).idle_timeout_spec() == old(self).idle_timeout_spec(),
            final(self).max_lifetime_spec() == old(self).max_lifetime_spec(),
            (1 <= serial <= old(self).counter() && forall|i: int| 0 <= i < old(self)@.len() ==> (#[trigger] old(self)@[i]).serial != serial) ==> {
                &&& r is Some
                &&& r.unwrap()@ == session_id_of(config_id@, serial as nat)
                &&& final(self)@.len() == old(self)@.len() + 1
                &&& final(self)@.drop_last() == old(self)@
                &&& final(self)@.last().session_id@ == r.unwrap()@
                &&& final(self)@.last().config_id@ == config_id@
                &&& opt_view(final(self)@.last().database) == opt_view(database)
                &&& final(self)@.last().in_use
                &&& final(self)@.last().last_active == now
                &&& final(self)@.last().created_at == now
            },
            !(1 <= serial <= old(self).counter() && forall|i: int| 0 <= i < old(self)@.len() ==> (#[trigger] old(self)@[i]).serial != serial) ==> {
                r is None && final(self)@ == old(self)@
            },
    {
        if serial == 0 || serial > self.session_counter {
            return None;
        }
        let mut i: usize = 0;
        while i < self.sessions.len()
            invariant
                i <= self.sessions.len(),
                self.sessions@ == old(self).sessions@,
                self.session_counter == old(self).session_counter,
                self.idle_timeout == old(self).idle_timeout,
                self.max_lifetime == old(self).max_lifetime,
                registry_wf(self.sessions@, self.session_counter),
                forall|j: int| 0 <= j < i ==> (#[trigger] self.sessions@[j]).serial != serial,
            decreases self.sessions.len() - i,
        {
            if self.sessions[i].serial == serial {
                return None;
            }
            i += 1;
        }
        let mut id = crate::text::str_to_owned(config_id);
        push_str(&mut id, ":session:");
        let n = u64_to_decimal(serial);
        push_str(&mut id, n.as_str());
        let mut session = ConnectionSession::new(id.clone(), crate::text::str_to_owned(config_id), database, serial, now);
        session.mark_in_use(now);
        self.sessions.push(session);
        proof {
            let s = self.sessions@;
            let o = old(self).sessions@;
            assert(s.drop_last() =~= o);
            assert forall|a: int, b: int| 0 <= a < b < s.len() implies (#[trigger] s[a]).serial != (#[trigger] s[b]).serial by {
                if b == s.len() - 1 {
                    assert(s[a] == o[a]);
                } else {
                    assert(s[a] == o[a] && s[b] == o[b]);
                }
            }
            assert forall|a: int| 0 <= a < s.len() implies (#[trigger] s[a]).session_id@ == session_id_of(s[a].config_id@, s[a].serial as nat) by {
                if a < o.len() {
                    assert(s[a] == o[a]);
                }
            }
            assert forall|a: int| 0 <= a < s.len() implies 1 <= (#[trigger] s[a]).serial <= self.session_counter by {
                if a < o.len() {
                    assert(s[a] == o[a]);
                }
            }
        }
        Some(id)
    }

    /// Marks a session in use for a piece of work; `false` where there is
    /// no such session.
    pub fn touch_session(&mut self, session_id: &str, now: u64) -> (r: bool)
        requires
            old(self).wf(),
        ensures
            final(self).wf(),
            final(self).counter() == old(self).counter(),
            final(self).idle_timeout_spec() == old(self).idle_timeout_spec(),
            final(self).max_lifetime_spec() == old(self).max_lifetime_spec(),
            ({
                let k = index_of(old(self)@, session_id@);
                &&& r == (k >= 0)
                &&& r ==> final(self)@ == old(self)@.update(k, ConnectionSession { in_use: true, last_active: now, ..old(self)@[k] })
                &&& !r ==> final(self)@ == old(self)@
            }),
    {
        proof {
            lemma_index_of(self.sessions@, session_id@);
        }
        match self.find(session_id) {
            Some(i) => {
                let mut s = self.sessions.remove(i);
                s.mark_in_use(now);
                self.sessions.insert(i, s);
                proof {
                    let k = i as int;
                    assert(self.sessions@ =~= old(self).sessions@.update(k, ConnectionSession { in_use: true, last_active: now, ..old(self).sessions@[k] }));
                    lemma_wf_update(old(self).sessions@, old(self).session_counter, k, self.sessions@[k]);
                }
                true
            },
            None => false,
        }
    }

    /// Releases a session after a piece of work, given what the server
    /// says of its database: it becomes idle on that database, or, where the
    /// server could not be asked, it is dropped to be closed.
    pub fn release_session(&mut self, session_id: &str, check: DatabaseCheck, now: u64) -> (r: Result<ReleaseOutcome, SessionError>)
        requires
            old(self).wf(),
        ensures
            final(self).wf(),
            final(self).counter() == old(self).counter(),
            final(self).idle_timeout_spec() == old(self).idle_timeout_spec(),
            final(self).max_lifetime_spec() == old(self).max_lifetime_spec(),
            ({
                let k = index_of(old(self)@, session_id@);
                let s = old(self)@[k];
                match r {
                    Ok(ReleaseOutcome::Released) => k >= 0 && !(check is Failed) && final(self)@ == old(self)@.update(
                        k,
                        ConnectionSession {
                            in_use: false,
                            last_active: now,
                            database: match check {
                                DatabaseCheck::Switched(d) => d,
                                _ => s.database,
                            },
                            ..s
                        },
                    ),
                    Ok(ReleaseOutcome::Closed) => k >= 0 && check is Failed && final(self)@ == old(self)@.remove(k),
                    Err(e) => k < 0 && (e matches SessionError::Internal(m) && m@ == "session not found: "@ + session_id@) && final(self)@ == old(self)@,
                }
            }),
    {
        proof {
            lemma_index_of(self.sessions@, session_id@);
        }
        match self.find(session_id) {
            Some(i) => {
                let mut s = self.sessions.remove(i);
                match check {
                    DatabaseCheck::Failed => {
                        proof {
                            lemma_wf_remove(old(self).sessions@, old(self).session_counter, i as int);
                        }
                        Ok(ReleaseOutcome::Closed)
                    },
                    DatabaseCheck::Unchanged => {
                        s.release(now);
                        self.sessions.insert(i, s);
                        proof {
                            let k = i as int;
                            assert(self.sessions@ =~= old(self).sessions@.update(k, self.sessions@[k]));
                            lemma_wf_update(old(self).sessions@, old(self).session_counter, k, self.sessions@[k]);
                        }
                        Ok(ReleaseOutcome::Released)
                    },
                    DatabaseCheck::Switched(d) => {
                        s.database = d;
                        s.release(now);
                        self.sessions.insert(i, s);
                        proof {
                            let k = i as int;
                            assert(self.sessions@ =~= old(self).sessions@.update(k, self.sessions@[k]));
                            lemma_wf_update(old(self).sessions@, old(self).session_counter, k, self.sessions@[k]);
                        }
                        Ok(ReleaseOutcome::Released)
                    },
                }
            },
            None => Err(session_not_found(session_id)),
        }
    }

    /// Drops a session; its connection is to be closed.
    pub fn close_session(&mut self, session_id: &str) -> (r: Result<(), SessionError>)
        requires
            old(self).wf(),
        ensures
            final(self).wf(),
            final(self).counter() == old(self).counter(),
            final(self).idle_timeout_spec() == old(self).idle_timeout_spec(),
            final(self).max_lifetime_spec() == old(self).max_lifetime_spec(),
            ({
                let k = index_of(old(self)@, session_id@);
                match r {
                    Ok(()) => k >= 0 && final(self)@ == old(self)@.remove(k),
                    Err(e) => k < 0 && (e matches SessionError::Internal(m) && m@ == "session not found: "@ + session_id@) && final(self)@ == old(self)@,
                }
            }),
    {
        proof {
            lemma_index_of(self.sessions@, session_id@);
        }
        match self.find(session_id) {
            Some(i) => {
                self.sessions.remove(i);
                proof {
                    lemma_wf_remove(old(self).sessions@, old(self).session_counter, i as int);
                }
                Ok(())
            },
            None => Err(session_not_found(session_id)),
        }
    }

    /// Drops every session of a configuration and returns their ids, in
    /// order, for their connections to be closed.
    pub fn remove_all_sessions(&mut self, config_id: &str) -> (r: Vec<String>)
        requires
            old(self).wf(),
        ensures
            final(self).wf(),
            final(self).counter() == old(self).counter(),
            final(self).idle_timeout_spec() == old(self).idle_timeout_spec(),
            final(self).max_lifetime_spec() == old(self).max_lifetime_spec(),
            final(self)@ == without_config(old(self)@, config_id@),
            r@.map_values(|s: String| s@) == of_config(old(self)@, config_id@).map_values(|s: ConnectionSession| s.session_id@),
    {
        let mut all: Vec<ConnectionSession> = Vec::new();
        std::mem::swap(&mut all, &mut self.sessions);
        let ghost o = all@;
        let n = all.len();
        let mut kept: Vec<ConnectionSession> = Vec::new();
        let mut removed: Vec<String> = Vec::new();
        let ghost mut m: Seq<int> = Seq::empty();
        let mut idx: usize = 0;
        while idx < n
            invariant
                n == o.len(),
                all@ == o,
                idx <= n,
                kept@ == without_config(o.subrange(0, idx as int), config_id@),
                removed@.map_values(|s: String| s@) == of_config(o.subrange(0, idx as int), config_id@).map_values(|s: ConnectionSession| s.session_id@),
                m.len() == kept@.len(),
                forall|a: int| 0 <= a < m.len() ==> 0 <= #[trigger] m[a] < idx && kept@[a] == o[m[a]],
                forall|a: int, b: int| 0 <= a < b < m.len() ==> #[trigger] m[a] < #[trigger] m[b],
            decreases n - idx,
        {
            let ghost pre = o.subrange(0, idx as int);
            let ghost post = o.subrange(0, idx + 1);
            assert(post.drop_last() =~= pre);
            let s = &all[idx];
            if str_eq(s.config_id.as_str(), config_id) {
                let ghost before = removed@;
                removed.push(s.session_id.clone());
                proof {
                    assert(removed@.map_values(|s: String| s@) =~= before.map_values(|s: String| s@).push(o[idx as int].session_id@));
                    assert(of_config(post, config_id@).map_values(|s: ConnectionSession| s.session_id@) =~= of_config(pre, config_id@).map_values(|s: ConnectionSession| s.session_id@).push(o[idx as int].session_id@));
                }
            } else {
                let c = ConnectionSession {
                    session_id: s.session_id.clone(),
                    config_id: s.config_id.clone(),
                    database: match &s.database {
                        Some(d) => Some(d.clone()),
                        None => None,
                    },
                    serial: s.serial,
                    in_use: s.in_use,
                    last_active: s.last_active,
                    created_at: s.created_at,
                };
                assert(c == o[idx as int]);
                kept.push(c);
                proof {
                    m = m.push(idx as int);
                }
            }
            idx += 1;
        }
        proof {
            assert(o.subrange(0, n as int) =~= o);
            lemma_wf_sub(o, kept@, old(self).session_counter, m);
        }
        self.sessions = kept;
        removed
    }

    /// Drops the sessions idle past the timeout or open past the lifetime
    /// at `now`, and returns their ids for their connections to be closed.
    pub fn cleanup_expired_sessions(&mut self, now: u64) -> (r: Vec<String>)
        requires
            old(self).wf(),
        ensures
            final(self).wf(),
            final(self).counter() == old(self).counter(),
            final(self).idle_timeout_spec() == old(self).idle_timeout_spec(),
            final(self).max_lifetime_spec() == old(self).max_lifetime_spec(),
            final(self)@ == survivors(old(self)@, old(self).idle_timeout_spec(), old(self).max_lifetime_spec(), now),
            r@.map_values(|x: String| x@) == expired_ids(old(self)@, old(self).idle_timeout_spec(), old(self).max_lifetime_spec(), now),
            r@.len() + final(self)@.len() == old(self)@.len(),
    {
        let mut all: Vec<ConnectionSession> = Vec::new();
        std::mem::swap(&mut all, &mut self.sessions);
        let ghost o = all@;
        let n = all.len();
        let mut kept: Vec<ConnectionSession> = Vec::new();
        let mut removed: Vec<String> = Vec::new();
        let ghost mut m: Seq<int> = Seq::empty();
        let mut idx: usize = 0;
        while idx < n
            invariant
                n == o.len(),
                all@ == o,
                idx <= n,
                kept@ == survivors(o.subrange(0, idx as int), self.idle_timeout, self.max_lifetime, now),
                removed@.len() + kept@.len() == idx,
                removed@.map_values(|x: String| x@) == expired_ids(o.subrange(0, idx as int), self.idle_timeout, self.max_lifetime, now),
                m.len() == kept@.len(),
                forall|a: int| 0 <= a < m.len() ==> 0 <= #[trigger] m[a] < idx && kept@[a] == o[m[a]],
                forall|a: int, b: int| 0 <= a < b < m.len() ==> #[trigger] m[a] < #[trigger] m[b],
            decreases n - idx,
        {
            let ghost pre = o.subrange(0, idx as int);
            let ghost post = o.subrange(0, idx + 1);
            assert(post.drop_last() =~= pre);
            let s = &all[idx];
            if s.is_expired(self.idle_timeout, now) || s.is_lifetime_expired(self.max_lifetime, now) {
                let ghost before = removed@;
                removed.push(s.session_id.clone());
                assert(removed@.map_values(|x: String| x@) =~= before.map_values(|x: String| x@).push(o[idx as int].session_id@));
            } else {
                let c = ConnectionSession {
                    session_id: s.session_id.clone(),
                    config_id: s.config_id.clone(),
                    database: match &s.database {
                        Some(d) => Some(d.clone()),
                        None => None,
                    },
                    serial: s.serial,
                    in_use: s.in_use,
                    last_active: s.last_active,
                    created_at: s.created_at,
                };
                assert(c == o[idx as int]);
                kept.push(c);
                proof {
                    m = m.push(idx as int);
                }
                assert(removed@.map_values(|x: String| x@) == expired_ids(post, self.idle_timeout, self.max_lifetime, now));
                assert(removed@.map_values(|x: String| x@) == expired_ids(post, self.idle_timeout, self.max_lifetime, now));
            }
            idx += 1;
        }
        proof {
            assert(o.subrange(0, n as int) =~= o);
            lemma_wf_sub(o, kept@, old(self).session_counter, m);
        }
        self.sessions = kept;
        removed
    }

    /// Counts of sessions, of those in use, and of configurations with
    /// sessions.
    pub fn stats(&self) -> (r: ConnectionStats)
        ensures
            r.total_sessions == self@.len(),
            r.active_sessions == count_in_use(self@),
            r.configs_with_sessions == config_set(self@).len(),
    {
        let mut in_use: usize = 0;
        let mut configs: Vec<String> = Vec::new();
        let mut i: usize = 0;
        while i < self.sessions.len()
            invariant
                i <= self.sessions.len(),
                in_use == count_in_use(self.sessions@.subrange(0, i as int)),
                in_use <= i,
                configs@.len() <= i,
                configs@.map_values(|s: String| s@).to_set() == config_set(self.sessions@.subrange(0, i as int)),
                configs@.map_values(|s: String| s@).no_duplicates(),
            decreases self.sessions.len() - i,
        {
            let ghost pre = self.sessions@.subrange(0, i as int);
            let ghost post = self.sessions@.subrange(0, i + 1);
            assert(post.drop_last() =~= pre);
            if self.sessions[i].in_use {
                in_use += 1;
            }
            let c = self.sessions[i].config_id.as_str();
            let mut seen = false;
            let mut j: usize = 0;
            while j < configs.len()
                invariant
                    j <= configs.len(),
                    !seen ==> forall|a: int| 0 <= a < j ==> (#[trigger] configs@[a])@ != c@,
                    seen ==> exists|a: int| 0 <= a < configs@.len() && (#[trigger] configs@[a])@ == c@,
                decreases configs.len() - j,
            {
                if str_eq(configs[j].as_str(), c) {
                    seen = true;
                }
                j += 1;
            }
            let ghost before = configs@.map_values(|s: String| s@);
            proof {
                assert forall|x: Seq<char>| #[trigger] config_set(post).contains(x) <==> (config_set(pre).contains(x) || x == c@) by {
                    if config_set(post).contains(x) {
                        let a = choose|a: int| 0 <= a < post.len() && (#[trigger] post[a]).config_id@ == x;
                        if a < pre.len() {
                            assert(pre[a] == post[a]);
                        }
                    }
                    if config_set(pre).contains(x) {
                        let a = choose|a: int| 0 <= a < pre.len() && (#[trigger] pre[a]).config_id@ == x;
                        assert(post[a] == pre[a]);
                    }
                    if x == c@ {
                        assert(post[i as int].config_id@ == x);
                    }
                }
            }
            if !seen {
                configs.push(self.sessions[i].config_id.clone());
                proof {
                    let after = configs@.map_values(|s: String| s@);
                    assert(after =~= before.push(c@));
                    assert(!before.contains(c@)) by {
                        if before.contains(c@) {
                            let a = choose|a: int| 0 <= a < before.len() && before[a] == c@;
                            assert(configs@[a]@ == c@);
                        }
                    }
                    assert forall|x: Seq<char>| #[trigger] after.to_set().contains(x) == config_set(post).contains(x) by {
                        assert(after.to_set().contains(x) == after.contains(x));
                        assert(before.to_set().contains(x) == before.contains(x));
                        if after.contains(x) {
                            let a = choose|a: int| 0 <= a < after.len() && after[a] == x;
                            if a < before.len() {
                                assert(before[a] == x);
                            }
                        }
                        if before.contains(x) {
                            let a = choose|a: int| 0 <= a < before.len() && before[a] == x;
                            assert(after[a] == x);
                        }
                        if x == c@ {
                            assert(after[before.len() as int] == x);
                        }
                    }
                    assert(after.to_set() =~= config_set(post));
                }
            } else {
                proof {
                    let a = choose|a: int| 0 <= a < configs@.len() && (#[trigger] configs@[a])@ == c@;
                    assert(before[a] == c@);
                    assert(before.to_set() =~= config_set(post));
                }
            }
            i += 1;
        }
        proof {
            assert(self.sessions@.subrange(0, self.sessions@.len() as int) =~= self.sessions@);
            configs@.map_values(|s: String| s@).unique_seq_to_set();
        }
        ConnectionStats { total_sessions: self.sessions.len(), active_sessions: in_use, configs_with_sessions: configs.len() }
    }

    /// The sessions of a configuration, in the order they were opened, with
    /// their idle time and age at `now`.
    pub fn list_sessions(&self, config_id: &str, now: u64) -> (r: Vec<SessionInfo>)
        ensures
            r@.len() == of_config(self@, config_id@).len(),
            forall|i: int| 0 <= i < r@.len() ==> {
                let s = #[trigger] of_config(self@, config_id@)[i];
                &&& r@[i].session_id@ == s.session_id@
                &&& opt_view(r@[i].database) == opt_view(s.database)
                &&& r@[i].in_use == s.in_use
                &&& r@[i].idle_time == (if now > s.last_active { now - s.last_active } else { 0 })
                &&& r@[i].lifetime == (if now > s.created_at { now - s.created_at } else { 0 })
            },
    {
        let mut out: Vec<SessionInfo> = Vec::new();
        let mut i: usize = 0;
        while i < self.sessions.len()
            invariant
                i <= self.sessions.len(),
                out@.len() == of_config(self.sessions@.subrange(0, i as int), config_id@).len(),
                forall|a: int| 0 <= a < out@.len() ==> {
                    let s = #[trigger] of_config(self.sessions@.subrange(0, i as int), config_id@)[a];
                    &&& out@[a].session_id@ == s.session_id@
                    &&& opt_view(out@[a].database) == opt_view(s.database)
                    &&& out@[a].in_use == s.in_use
                    &&& out@[a].idle_time == (if now > s.last_active { now - s.last_active } else { 0 })
                    &&& out@[a].lifetime == (if now > s.created_at { now - s.created_at } else { 0 })
                },
            decreases self.sessions.len() - i,
        {
            let ghost pre = self.sessions@.subrange(0, i as int);
            let ghost post = self.sessions@.subrange(0, i + 1);
            assert(post.drop_last() =~= pre);
            let s = &self.sessions[i];
            if str_eq(s.config_id.as_str(), config_id) {
                let info = SessionInfo {
                    session_id: s.session_id.clone(),
                    database: match &s.database {
                        Some(d) => Some(d.clone()),
                        None => None,
                    },
                    in_use: s.in_use,
                    idle_time: if now > s.last_active { now - s.last_active } else { 0 },
                    lifetime: if now > s.created_at { now - s.created_at } else { 0 },
                };
                out.push(info);
                assert(of_config(post, config_id@) == of_config(pre, config_id@).push(post.last()));
            }
            i += 1;
        }
        assert(self.sessions@.subrange(0, self.sessions@.len() as int) =~= self.sessions@);
        out
    }
}


/// After a script ran on a session, the session stays open (idle) when the
/// run was transactional, or the script opens a transaction (`BEGIN` or
/// `START TRANSACTION`) that it does not end (`COMMIT`, `ROLLBACK`);
/// otherwise it is closed. Keywords are matched in upper case anywhere in
/// the script.
pub open spec fn keeps_session(script: Seq<char>, transactional: bool) -> bool {
    let u = unicode_uppercase(script);
    transactional || ((contains_seq(u, "BEGIN"@) || contains_seq(u, "START TRANSACTION"@))
        && !contains_seq(u, "COMMIT"@) && !contains_seq(u, "ROLLBACK"@))
}

pub fn should_keep_session(script: &str, transactional: bool) -> (r: bool)
    ensures
        r == keeps_session(script@, transactional),
{
    let upper = to_uppercase(script);
    let u = upper.as_str();
    let has_begin = str_contains(u, "BEGIN") || str_contains(u, "START TRANSACTION");
    let has_commit = str_contains(u, "COMMIT");
    let has_rollback = str_contains(u, "ROLLBACK");
    transactional || (has_begin && !has_commit && !has_rollback)
}


// ---------------------------------------------------------------------------
// Laws
// ---------------------------------------------------------------------------

/// After a cleanup no remaining session is expired, and every session that
/// was not expired is still there, in the same order.
pub proof fn law_cleanup_keeps_exactly_the_live(s: Seq<ConnectionSession>, idle: u64, max: u64, now: u64)
    ensures
        forall|i: int| 0 <= i < survivors(s, idle, max, now).len() ==> !idle_expired(
            #[trigger] survivors(s, idle, max, now)[i],
            idle,
            now,
        ) && !lifetime_expired(survivors(s, idle, max, now)[i], max, now),
        forall|i: int| 0 <= i < s.len() && !idle_expired(#[trigger] s[i], idle, now) && !lifetime_expired(s[i], max, now)
            ==> survivors(s, idle, max, now).contains(s[i]),
        survivors(s, idle, max, now).len() <= s.len(),
    decreases s.len(),
{
    if s.len() > 0 {
        let t = s.drop_last();
        law_cleanup_keeps_exactly_the_live(t, idle, max, now);
        let r = survivors(t, idle, max, now);
        assert forall|i: int| 0 <= i < s.len() && !idle_expired(#[trigger] s[i], idle, now) && !lifetime_expired(s[i], max, now)
            implies survivors(s, idle, max, now).contains(s[i]) by {
            if i < s.len() - 1 {
                assert(t[i] == s[i]);
                let j = choose|j: int| 0 <= j < r.len() && r[j] == t[i];
                if !(idle_expired(s.last(), idle, now) || lifetime_expired(s.last(), max, now)) {
                    assert(r.push(s.last())[j] == r[j]);
                }
            } else {
                assert(survivors(s, idle, max, now) == r.push(s.last()));
                assert(r.push(s.last())[r.len() as int] == s.last());
            }
        }
    }
}

/// Dropping a configuration's sessions leaves none of it, keeps all the
/// others, and returns exactly its sessions.
pub proof fn law_remove_config_partitions(s: Seq<ConnectionSession>, c: Seq<char>)
    ensures
        forall|i: int| 0 <= i < without_config(s, c).len() ==> (#[trigger] without_config(s, c)[i]).config_id@ != c,
        forall|i: int| 0 <= i < of_config(s, c).len() ==> (#[trigger] of_config(s, c)[i]).config_id@ == c,
        of_config(s, c).len() + without_config(s, c).len() == s.len(),
    decreases s.len(),
{
    if s.len() > 0 {
        law_remove_config_partitions(s.drop_last(), c);
        let w = without_config(s.drop_last(), c);
        let o = of_config(s.drop_last(), c);
        assert forall|i: int| 0 <= i < without_config(s, c).len() implies (#[trigger] without_config(s, c)[i]).config_id@ != c by {
            if i < w.len() {
                if s.last().config_id@ != c {
                    assert(w.push(s.last())[i] == w[i]);
                }
            }
        }
        assert forall|i: int| 0 <= i < of_config(s, c).len() implies (#[trigger] of_config(s, c)[i]).config_id@ == c by {
            if i < o.len() {
                if s.last().config_id@ == c {
                    assert(o.push(s.last())[i] == o[i]);
                }
            }
        }
    }
}

/// Taking an idle session and releasing it with its database unchanged
/// gives back the session as it was, but for its last activity.
pub proof fn law_acquire_then_release(s: Seq<ConnectionSession>, k: int, t1: u64, t2: u64)
    requires
        0 <= k < s.len(),
        !s[k].in_use,
    ensures
        ({
            let taken = s.update(k, ConnectionSession { in_use: true, last_active: t1, ..s[k] });
            let back = taken.update(k, ConnectionSession { in_use: false, last_active: t2, database: taken[k].database, ..taken[k] });
            back == s.update(k, ConnectionSession { last_active: t2, ..s[k] })
        }),
{
    let taken = s.update(k, ConnectionSession { in_use: true, last_active: t1, ..s[k] });
    let back = taken.update(k, ConnectionSession { in_use: false, last_active: t2, database: taken[k].database, ..taken[k] });
    assert(back =~= s.update(k, ConnectionSession { last_active: t2, ..s[k] }));
}

/// In a well-formed registry no two sessions share an id.
pub proof fn law_registry_ids_unique(m: ConnectionManager, i: int, j: int)
    requires
        m.wf(),
        0 <= i < m@.len(),
        0 <= j < m@.len(),
        i != j,
    ensures
        m@[i].session_id@ != m@[j].session_id@,
{
    let s = m@;
    if i < j {
        law_session_ids_distinct(s[i].config_id@, s[i].serial as nat, s[j].config_id@, s[j].serial as nat);
    } else {
        law_session_ids_distinct(s[j].config_id@, s[j].serial as nat, s[i].config_id@, s[i].serial as nat);
    }
}

/// A session is reused only for its own configuration, while idle, and on
/// exactly the database asked for (which must be named); where none is
/// reused, no idle session of the configuration is on that database.
pub proof fn law_reuse_only_on_requested_database(
    s: Seq<ConnectionSession>,
    config_id: Seq<char>,
    database: Option<Seq<char>>,
)
    ensures
        reusable_index(s, config_id, database) >= 0 ==> {
            let k = reusable_index(s, config_id, database);
            &&& 0 <= k < s.len()
            &&& !s[k].in_use
            &&& s[k].config_id@ == config_id
            &&& database is Some
            &&& opt_view(s[k].database) == database
        },
        reusable_index(s, config_id, database) < 0 && database is Some ==> forall|j: int|
            0 <= j < s.len() && !(#[trigger] s[j]).in_use && s[j].config_id@ == config_id ==> opt_view(s[j].database)
                != database,
{
    lemma_reusable_index(s, config_id, database);
}

} // verus!
