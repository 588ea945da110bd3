//! The session registry and the attach state machine. The registry maps
//! session names to session state; an attach request resolves to one of three
//! outcomes: spawn a fresh shell (Created), take over an idle session
//! (Attached), or leave a busy session untouched (Busy). The `pump_active`
//! flag models the per-session exclusive lock: it is held from the moment an
//! attach claims the session until its pump exits.

use vstd::prelude::*;
use crate::protocol::AttachStatus;
use crate::protocol::Session;

verus! {

/// What the daemon keeps of one session, as the verified core sees it: the
/// creation timestamp, whether a pump currently holds the session's exclusive
/// lock, and which client connection and shell process the session is bound
/// to (opaque handles, named by identifier; the live handles themselves stay
/// with the unverified I/O layer).
#[derive(Debug, PartialEq, Eq, Structural, Clone, Copy)]
pub struct SessionState {
    pub started_at_unix_ms: i64,
    pub pump_active: bool,
    pub client_conn: u64,
    pub shell_proc: u64,
}

/// How an attach request is to proceed, decided without blocking.
#[derive(Debug, PartialEq, Eq, Structural, Clone, Copy)]
pub enum AttachDecision {
    /// The name is unseen: spawn a shell, then register the session.
    SpawnNeeded,
    /// The session exists and is idle: replace its client stream.
    TakeOver,
    /// The session is being pumped: reply Busy and close the connection.
    Busy,
}

/// The state a fresh creation records: the pump starts at once, holding the
/// session's exclusive lock across the reply.
pub open spec fn created_session(started_at_unix_ms: i64, client_conn: u64, shell_proc: u64) -> SessionState {
    SessionState { started_at_unix_ms, pump_active: true, client_conn, shell_proc }
}

/// Takeover of an idle session: the new connection becomes the current
/// client stream and the lock is held again; everything else is kept.
pub open spec fn taken_over(s: SessionState, client_conn: u64) -> SessionState {
    SessionState { client_conn, pump_active: true, ..s }
}

/// A pump exiting releases the session's exclusive lock; nothing else moves.
pub open spec fn released(s: SessionState) -> SessionState {
    SessionState { pump_active: false, ..s }
}

/// The non-blocking attach decision over a registry view.
pub open spec fn decision_of(m: Map<Seq<char>, SessionState>, name: Seq<char>) -> AttachDecision {
    if !m.contains_key(name) {
        AttachDecision::SpawnNeeded
    } else if !m[name].pump_active {
        AttachDecision::TakeOver
    } else {
        AttachDecision::Busy
    }
}

/// The status the client is told for each decision.
pub open spec fn status_of(d: AttachDecision) -> AttachStatus {
    match d {
        AttachDecision::SpawnNeeded => AttachStatus::Created,
        AttachDecision::TakeOver => AttachStatus::Attached,
        AttachDecision::Busy => AttachStatus::Busy,
    }
}

/// The whole attach workflow as one step on the registry view: what the
/// registry becomes and what status the client is told.
pub open spec fn attach_step(
    m: Map<Seq<char>, SessionState>,
    name: Seq<char>,
    started_at_unix_ms: i64,
    client_conn: u64,
    shell_proc: u64,
) -> (Map<Seq<char>, SessionState>, AttachStatus) {
    match decision_of(m, name) {
        AttachDecision::SpawnNeeded => (
            m.insert(name, created_session(started_at_unix_ms, client_conn, shell_proc)),
            AttachStatus::Created,
        ),
        AttachDecision::TakeOver => (
            m.insert(name, taken_over(m[name], client_conn)),
            AttachStatus::Attached,
        ),
        AttachDecision::Busy => (m, AttachStatus::Busy),
    }
}

/// Law: for an unseen name the attach workflow reports Created, and the new
/// session carries the given timestamp, holds its exclusive lock, and is
/// bound to the new connection and the freshly spawned shell; for a session
/// that is not currently pumped, it reports Attached and the new connection
/// becomes the current client stream, while the creation timestamp and the
/// shell process are kept.
pub proof fn lemma_attach_not_pumped(
    m: Map<Seq<char>, SessionState>,
    name: Seq<char>,
    started_at_unix_ms: i64,
    client_conn: u64,
    shell_proc: u64,
)
    requires
        !m.contains_key(name) || !m[name].pump_active,
    ensures
        ({
            let (m2, status) = attach_step(m, name, started_at_unix_ms, client_conn, shell_proc);
            &&& status == if m.contains_key(name) {
                AttachStatus::Attached
            } else {
                AttachStatus::Created
            }
            &&& m2.contains_key(name)
            &&& m2[name].pump_active
            &&& m2[name].client_conn == client_conn
            &&& m2[name].started_at_unix_ms == if m.contains_key(name) {
                m[name].started_at_unix_ms
            } else {
                started_at_unix_ms
            }
            &&& m.contains_key(name) ==> m2[name].shell_proc == m[name].shell_proc
        }),
{
}

/// Law: an attach to a name whose pump is currently active reports Busy and
/// leaves the registry, every session's state included, exactly as it was.
pub proof fn lemma_attach_busy(
    m: Map<Seq<char>, SessionState>,
    name: Seq<char>,
    started_at_unix_ms: i64,
    client_conn: u64,
    shell_proc: u64,
)
    requires
        m.contains_key(name),
        m[name].pump_active,
    ensures
        attach_step(m, name, started_at_unix_ms, client_conn, shell_proc).1 == AttachStatus::Busy,
        attach_step(m, name, started_at_unix_ms, client_conn, shell_proc).0 == m,
{
}

/// Law: what a list reply reports — the registered names and their creation
/// timestamps — is independent of attach and release traffic: a takeover, a
/// busy rejection and a pump release keep every name and every timestamp,
/// and a creation only adds the one new name with its own timestamp.
pub proof fn lemma_list_view_stable(
    m: Map<Seq<char>, SessionState>,
    name: Seq<char>,
    started_at_unix_ms: i64,
    client_conn: u64,
    shell_proc: u64,
)
    ensures
        ({
            let m2 = attach_step(m, name, started_at_unix_ms, client_conn, shell_proc).0;
            &&& forall|k: Seq<char>| m.contains_key(k) ==> #[trigger] m2.contains_key(k)
            &&& forall|k: Seq<char>|
                m.contains_key(k) ==> #[trigger] m2[k].started_at_unix_ms
                    == m[k].started_at_unix_ms
            &&& forall|k: Seq<char>|
                #[trigger] m2.contains_key(k) ==> m.contains_key(k) || k == name
        }),
        m.contains_key(name) ==> ({
            let m3 = m.insert(name, released(m[name]));
            &&& forall|k: Seq<char>| m.contains_key(k) <==> #[trigger] m3.contains_key(k)
            &&& forall|k: Seq<char>|
                m.contains_key(k) ==> #[trigger] m3[k].started_at_unix_ms
                    == m[k].started_at_unix_ms
        }),
{
}

/// Names are pairwise distinct: the registry is a map, not a multimap.
pub open spec fn unique_names(s: Seq<(String, SessionState)>) -> bool {
    forall|i: int, j: int| 0 <= i < j < s.len() ==> s[i].0@ != s[j].0@
}

/// The map a sequence of name/state pairs denotes.
pub open spec fn map_of(s: Seq<(String, SessionState)>) -> Map<Seq<char>, SessionState>
    decreases s.len(),
{
    if s.len() == 0 {
        Map::empty()
    } else {
        map_of(s.drop_last()).insert(s.last().0@, s.last().1)
    }
}

proof fn lemma_map_of_contains(s: Seq<(String, SessionState)>, k: Seq<char>)
    ensures
        map_of(s).contains_key(k) <==> exists|i: int| 0 <= i < s.len() && s[i].0@ == k,
    decreases s.len(),
{
    if s.len() == 0 {
    } else {
        lemma_map_of_contains(s.drop_last(), k);
        if s.last().0@ == k {
            assert(s[s.len() - 1].0@ == k);
        } else {
            if exists|i: int| 0 <= i < s.len() && s[i].0@ == k {
                let i = choose|i: int| 0 <= i < s.len() && s[i].0@ == k;
                assert(s.drop_last()[i].0@ == k);
            }
        }
    }
}

proof fn lemma_map_of_index(s: Seq<(String, SessionState)>, i: int)
    requires
        unique_names(s),
        0 <= i < s.len(),
    ensures
        map_of(s).contains_key(s[i].0@),
        map_of(s)[s[i].0@] == s[i].1,
    decreases s.len(),
{
    if i == s.len() - 1 {
    } else {
        assert(unique_names(s.drop_last()));
        lemma_map_of_index(s.drop_last(), i);
        assert(s.drop_last()[i] == s[i]);
        assert(s[i].0@ != s.last().0@);
    }
}

proof fn lemma_map_of_update(s: Seq<(String, SessionState)>, i: int, v: SessionState)
    requires
        unique_names(s),
        0 <= i < s.len(),
    ensures
        map_of(s.update(i, (s[i].0, v))) == map_of(s).insert(s[i].0@, v),
    decreases s.len(),
{
    let t = s.update(i, (s[i].0, v));
    if i == s.len() - 1 {
        assert(t.drop_last() =~= s.drop_last());
        assert(map_of(t) =~= map_of(s).insert(s[i].0@, v));
    } else {
        assert(unique_names(s.drop_last()));
        lemma_map_of_update(s.drop_last(), i, v);
        assert(t.drop_last() =~= s.drop_last().update(i, (s[i].0, v)));
        assert(t.last() == s.last());
        assert(s[i].0@ != s.last().0@);
        assert(map_of(t) =~= map_of(s).insert(s[i].0@, v));
    }
}

/// The registry: a shared mapping from session name to session state,
/// created empty at daemon start, growing only by insert-on-create.
pub struct Registry {
    sessions: Vec<(String, SessionState)>,
}

impl View for Registry {
    type V = Map<Seq<char>, SessionState>;

    closed spec fn view(&self) -> Map<Seq<char>, SessionState> {
        map_of(self.sessions@)
    }
}

impl Registry {
    /// The registered names, in insertion order.
    pub closed spec fn names(&self) -> Seq<Seq<char>> {
        self.sessions@.map_values(|p: (String, SessionState)| p.0@)
    }

    /// Registry invariant: names are unique keys.
    pub closed spec fn wf(&self) -> bool {
        unique_names(self.sessions@)
    }

    /// A name is registered exactly when it appears among `names`.
    pub proof fn lemma_names_complete(&self, k: Seq<char>)
        ensures
            self@.contains_key(k) <==> exists|i: int| 0 <= i < self.names().len()
                && self.names()[i] == k,
    {
        lemma_map_of_contains(self.sessions@, k);
        if self@.contains_key(k) {
            let i = choose|i: int| 0 <= i < self.sessions@.len() && self.sessions@[i].0@ == k;
            assert(self.names()[i] == k);
        }
        if exists|i: int| 0 <= i < self.names().len() && self.names()[i] == k {
            let i = choose|i: int| 0 <= i < self.names().len() && self.names()[i] == k;
            assert(self.sessions@[i].0@ == k);
        }
    }

    /// The daemon starts with no sessions.
    pub fn new() -> (r: Registry)
        ensures
            r.wf(),
            r@ == Map::<Seq<char>, SessionState>::empty(),
            r.names() == Seq::<Seq<char>>::empty(),
    {
        let r = Registry { sessions: Vec::new() };
        proof {
            assert(r.names() =~= Seq::<Seq<char>>::empty());
        }
        r
    }

    fn find_index(&self, name: &String) -> (r: Option<usize>)
        ensures
            match r {
                Some(i) => i < self.sessions@.len() && self.sessions@[i as int].0@ == name@,
                None => forall|i: int|
                    0 <= i < self.sessions@.len() ==> self.sessions@[i].0@ != name@,
            },
    {
        let mut i: usize = 0;
        while i < self.sessions.len()
            invariant
                i <= self.sessions@.len(),
                forall|j: int| 0 <= j < i ==> self.sessions@[j].0@ != name@,
            decreases self.sessions@.len() - i,
        {
            if self.sessions[i].0 == *name {
                return Some(i);
            }
            i = i + 1;
        }
        None
    }

    /// The non-blocking resolution of an attach request: never waits on the
    /// session, never mutates anything.
    pub fn attach_decision(&self, name: &String) -> (d: AttachDecision)
        requires
            self.wf(),
        ensures
            d == decision_of(self@, name@),
    {
        proof {
            lemma_map_of_contains(self.sessions@, name@);
        }
        match self.find_index(name) {
            None => AttachDecision::SpawnNeeded,
            Some(i) => {
                proof {
                    lemma_map_of_index(self.sessions@, i as int);
                }
                if self.sessions[i].1.pump_active {
                    AttachDecision::Busy
                } else {
                    AttachDecision::TakeOver
                }
            },
        }
    }

    /// Record a freshly created session under an unseen name. The new
    /// session holds its exclusive lock (`pump_active`) from the start, so a
    /// concurrent attach can never observe it half initialized.
    pub fn register_created(
        &mut self,
        name: String,
        started_at_unix_ms: i64,
        client_conn: u64,
        shell_proc: u64,
    )
        requires
            old(self).wf(),
            !old(self)@.contains_key(name@),
        ensures
            final(self).wf(),
            final(self)@ == old(self)@.insert(
                name@,
                created_session(started_at_unix_ms, client_conn, shell_proc),
            ),
            final(self).names() == old(self).names().push(name@),
    {
        proof {
            lemma_map_of_contains(self.sessions@, name@);
        }
        let ghost old_seq = self.sessions@;
        let st = SessionState {
            started_at_unix_ms,
            pump_active: true,
            client_conn,
            shell_proc,
        };
        let ghost name_view = name@;
        self.sessions.push((name, st));
        proof {
            assert(self.sessions@.drop_last() =~= old_seq);
            assert(final(self).names() =~= old(self).names().push(name_view));
        }
    }

    /// Replace an idle session's client stream with the new connection and
    /// claim the exclusive lock again. The old, possibly dead stream is
    /// simply discarded; the timestamp and the shell process are kept.
    pub fn take_over(&mut self, name: &String, client_conn: u64)
        requires
            old(self).wf(),
            old(self)@.contains_key(name@),
            !old(self)@[name@].pump_active,
        ensures
            final(self).wf(),
            final(self)@ == old(self)@.insert(name@, taken_over(old(self)@[name@], client_conn)),
            final(self).names() == old(self).names(),
    {
        self.replace_state_at(name, true, client_conn);
    }

    /// Record that a session's pump has exited: the exclusive lock is
    /// released, so a later attach may take the session over.
    pub fn release(&mut self, name: &String)
        requires
            old(self).wf(),
            old(self)@.contains_key(name@),
        ensures
            final(self).wf(),
            final(self)@ == old(self)@.insert(name@, released(old(self)@[name@])),
            final(self).names() == old(self).names(),
    {
        proof {
            lemma_map_of_contains(self.sessions@, name@);
        }
        let idx = match self.find_index(name) {
            Some(i) => i,
            None => {
                proof {
                    assert(false);
                }
                0
            },
        };
        proof {
            lemma_map_of_index(self.sessions@, idx as int);
        }
        let ghost old_seq = self.sessions@;
        let (nm, st) = self.sessions.remove(idx);
        let new_st = SessionState { pump_active: false, ..st };
        self.sessions.insert(idx, (nm, new_st));
        proof {
            self.finish_update(old_seq, idx as int, new_st, name@);
        }
    }

    fn replace_state_at(&mut self, name: &String, pump_active: bool, client_conn: u64)
        requires
            old(self).wf(),
            old(self)@.contains_key(name@),
        ensures
            final(self).wf(),
            final(self)@ == old(self)@.insert(
                name@,
                SessionState {
                    pump_active,
                    client_conn,
                    ..old(self)@[name@]
                },
            ),
            final(self).names() == old(self).names(),
    {
        proof {
            lemma_map_of_contains(self.sessions@, name@);
        }
        let idx = match self.find_index(name) {
            Some(i) => i,
            None => {
                proof {
                    assert(false);
                }
                0
            },
        };
        proof {
            lemma_map_of_index(self.sessions@, idx as int);
        }
        let ghost old_seq = self.sessions@;
        let (nm, st) = self.sessions.remove(idx);
        let new_st = SessionState { pump_active, client_conn, ..st };
        self.sessions.insert(idx, (nm, new_st));
        proof {
            self.finish_update(old_seq, idx as int, new_st, name@);
        }
    }

    proof fn finish_update(
        &self,
        old_seq: Seq<(String, SessionState)>,
        idx: int,
        new_st: SessionState,
        k: Seq<char>,
    )
        requires
            unique_names(old_seq),
            0 <= idx < old_seq.len(),
            old_seq[idx].0@ == k,
            self.sessions@ == old_seq.remove(idx).insert(idx, (old_seq[idx].0, new_st)),
        ensures
            self.wf(),
            self@ == map_of(old_seq).insert(k, new_st),
            self.names() == old_seq.map_values(|p: (String, SessionState)| p.0@),
    {
        assert(self.sessions@ =~= old_seq.update(idx, (old_seq[idx].0, new_st)));
        assert(unique_names(self.sessions@));
        lemma_map_of_update(old_seq, idx, new_st);
        assert(self.names() =~= old_seq.map_values(|p: (String, SessionState)| p.0@));
    }

    /// A read-only snapshot for a list request: every registered session's
    /// name with its original creation timestamp, no per-session lock taken.
    pub fn list(&self) -> (r: Vec<Session>)
        requires
            self.wf(),
        ensures
            r@.len() == self.names().len(),
            forall|i: int|
                0 <= i < r@.len() ==> #[trigger] r@[i].name@ == self.names()[i]
                    && self@.contains_key(r@[i].name@)
                    && r@[i].started_at_unix_ms == self@[r@[i].name@].started_at_unix_ms,
            forall|k: Seq<char>|
                self@.contains_key(k) ==> exists|i: int| 0 <= i < r@.len() && #[trigger] r@[i].name@ == k,
    {
        let mut r: Vec<Session> = Vec::new();
        let mut i: usize = 0;
        while i < self.sessions.len()
            invariant
                i <= self.sessions@.len(),
                r@.len() == i,
                forall|j: int|
                    0 <= j < i ==> #[trigger] r@[j].name@ == self.sessions@[j].0@
                        && r@[j].started_at_unix_ms == self.sessions@[j].1.started_at_unix_ms,
                self.wf(),
            decreases self.sessions@.len() - i,
        {
            let name = self.sessions[i].0.clone();
            let started_at_unix_ms = self.sessions[i].1.started_at_unix_ms;
            r.push(Session { name, started_at_unix_ms });
            i = i + 1;
        }
        proof {
            assert forall|j: int| 0 <= j < r@.len() implies #[trigger] r@[j].name@ == self.names()[j]
                && self@.contains_key(r@[j].name@)
                && r@[j].started_at_unix_ms == self@[r@[j].name@].started_at_unix_ms by {
                lemma_map_of_index(self.sessions@, j);
            }
            assert forall|k: Seq<char>| self@.contains_key(k) implies exists|j: int|
                0 <= j < r@.len() && #[trigger] r@[j].name@ == k by {
                lemma_map_of_contains(self.sessions@, k);
                let j = choose|j: int| 0 <= j < self.sessions@.len() && self.sessions@[j].0@ == k;
                assert(r@[j].name@ == k);
            }
        }
        r
    }

    /// The whole attach workflow on the registry's state: resolve the
    /// request without blocking, then create, take over, or leave a busy
    /// session untouched — exactly the step `attach_step` describes. The
    /// caller spawns the shell before calling (the handle is only recorded
    /// on the creation path) and performs the I/O the returned status asks
    /// for: reply on the now-current stream and start the pump, or reply
    /// Busy and close the new connection.
    pub fn apply_attach(
        &mut self,
        name: &String,
        started_at_unix_ms: i64,
        client_conn: u64,
        shell_proc: u64,
    ) -> (status: AttachStatus)
        requires
            old(self).wf(),
        ensures
            final(self).wf(),
            final(self)@ == attach_step(
                old(self)@,
                name@,
                started_at_unix_ms,
                client_conn,
                shell_proc,
            ).0,
            status == attach_step(
                old(self)@,
                name@,
                started_at_unix_ms,
                client_conn,
                shell_proc,
            ).1,
    {
        let d = self.attach_decision(name);
        match d {
            AttachDecision::SpawnNeeded => {
                self.register_created(name.clone(), started_at_unix_ms, client_conn, shell_proc);
                AttachStatus::Created
            },
            AttachDecision::TakeOver => {
                self.take_over(name, client_conn);
                AttachStatus::Attached
            },
            AttachDecision::Busy => AttachStatus::Busy,
        }
    }

    /// The recorded state of a session, if the name is registered.
    pub fn get(&self, name: &String) -> (r: Option<SessionState>)
        requires
            self.wf(),
        ensures
            r == if self@.contains_key(name@) {
                Some(self@[name@])
            } else {
                None::<SessionState>
            },
    {
        proof {
            lemma_map_of_contains(self.sessions@, name@);
        }
        match self.find_index(name) {
            None => None,
            Some(i) => {
                proof {
                    lemma_map_of_index(self.sessions@, i as int);
                }
                Some(self.sessions[i].1)
            },
        }
    }

    /// Map a decision to the status the client is told.
    pub fn attach_status(d: &AttachDecision) -> (r: AttachStatus)
        ensures
            r == status_of(*d),
    {
        match d {
            AttachDecision::SpawnNeeded => AttachStatus::Created,
            AttachDecision::TakeOver => AttachStatus::Attached,
            AttachDecision::Busy => AttachStatus::Busy,
        }
    }
}

} // verus!
