//! The session manager: start, write, resize and stop terminal sessions, and
//! sweep them all away when the host exits.
//!
//! The manager decides; the host acts. Each session leaves the manager exactly
//! once: evicted by a new start under the same identifier, stopped, swept at
//! shutdown, or ended on its own when its output ends. The manager hands it
//! back then, and the host kills it and announces it with one exit event.

use vstd::prelude::*;
use crate::registry::{SessionRegistry, keys_unique, entries_map};
use crate::text::{is_blank, is_blank_text, trim_ws, trimmed};

verus! {

/// What can go wrong with a terminal request.
#[derive(Clone, Debug, PartialEq, Eq)]
pub enum TerminalError {
    /// The session identifier is empty or blank.
    MissingSessionId,
    /// The session store could not be locked.
    StoreUnavailable,
    /// No session is registered under the identifier.
    SessionNotFound,
    /// The pseudo-terminal could not be allocated.
    PtyAllocation(String),
    /// The shell could not be started.
    ShellSpawn(String),
    /// No reader could be cloned from the terminal.
    ReaderClone(String),
    /// No writer could be taken from the terminal.
    WriterOpen(String),
    /// Input could not be written to the terminal.
    Write(String),
    /// Input could not be flushed to the terminal.
    Flush(String),
    /// The terminal could not be resized.
    Resize(String),
}

/// The text shown to the user for an error.
pub open spec fn error_text(e: TerminalError) -> Seq<char> {
    match e {
        TerminalError::MissingSessionId => "session_id is required"@,
        TerminalError::StoreUnavailable => "Failed to lock PTY session store."@,
        TerminalError::SessionNotFound => "PTY session not found."@,
        TerminalError::PtyAllocation(d) => "Unable to allocate PTY: "@ + d@,
        TerminalError::ShellSpawn(d) => "Unable to start shell: "@ + d@,
        TerminalError::ReaderClone(d) => "Unable to clone PTY reader: "@ + d@,
        TerminalError::WriterOpen(d) => "Unable to open PTY writer: "@ + d@,
        TerminalError::Write(d) => "Failed to write PTY input: "@ + d@,
        TerminalError::Flush(d) => "Failed to flush PTY input: "@ + d@,
        TerminalError::Resize(d) => "Failed to resize PTY: "@ + d@,
    }
}

impl TerminalError {
    /// The text shown to the user for this error.
    pub fn message(&self) -> (r: String)
        ensures
            r@ == error_text(*self),
    {
        match self {
            TerminalError::MissingSessionId => String::from_str("session_id is required"),
            TerminalError::StoreUnavailable => String::from_str("Failed to lock PTY session store."),
            TerminalError::SessionNotFound => String::from_str("PTY session not found."),
            TerminalError::PtyAllocation(d) => String::from_str("Unable to allocate PTY: ").concat(
                d.as_str(),
            ),
            TerminalError::ShellSpawn(d) => String::from_str("Unable to start shell: ").concat(
                d.as_str(),
            ),
            TerminalError::ReaderClone(d) => String::from_str("Unable to clone PTY reader: ").concat(
                d.as_str(),
            ),
            TerminalError::WriterOpen(d) => String::from_str("Unable to open PTY writer: ").concat(
                d.as_str(),
            ),
            TerminalError::Write(d) => String::from_str("Failed to write PTY input: ").concat(
                d.as_str(),
            ),
            TerminalError::Flush(d) => String::from_str("Failed to flush PTY input: ").concat(
                d.as_str(),
            ),
            TerminalError::Resize(d) => String::from_str("Failed to resize PTY: ").concat(
                d.as_str(),
            ),
        }
    }
}

/// The answer to a successful start.
pub struct PtyStartResponse {
    pub session_id: String,
    pub cwd: String,
    pub shell: String,
}

/// The answer to a stop: whether a session was found and stopped.
pub struct PtyStopResponse {
    pub stopped: bool,
}

/// Output of a session's terminal.
pub struct PtyDataEvent {
    pub session_id: String,
    pub data: String,
}

/// The end of a session.
pub struct PtyExitEvent {
    pub session_id: String,
}

/// A session taken out of the manager: the host kills it and emits one exit
/// event for its identifier.
pub struct Evicted<S> {
    pub session_id: String,
    pub session: S,
}

impl<S> Evicted<S> {
    /// The exit event that announces the end of this session.
    pub fn exit_event(&self) -> (r: PtyExitEvent)
        ensures
            r.session_id@ == self.session_id@,
    {
        PtyExitEvent { session_id: self.session_id.clone() }
    }
}

/// The identifier under which a start request registers its session.
pub open spec fn normalized_id(raw: Seq<char>) -> Seq<char> {
    trim_ws(raw)
}

/// What a start request has cleared: the identifier its session will be
/// registered under, and the session that held it before, if any.
pub struct StartSlot<S> {
    pub session_id: String,
    pub evicted: Option<Evicted<S>>,
}

/// The sessions left after stopping (or evicting) `id`.
pub open spec fn after_stop<S>(m: Map<Seq<char>, S>, id: Seq<char>) -> Map<Seq<char>, S> {
    m.remove(id)
}

/// The sessions after a session is installed under `id`.
pub open spec fn after_install<S>(m: Map<Seq<char>, S>, id: Seq<char>, s: S) -> Map<
    Seq<char>,
    S,
> {
    m.insert(id, s)
}

/// The sessions after a series of starts, the `i`-th registering `ss[i]`
/// under `ids[i]`, each one evicting and then installing.
pub open spec fn after_starts<S>(m: Map<Seq<char>, S>, ids: Seq<Seq<char>>, ss: Seq<S>) -> Map<
    Seq<char>,
    S,
>
    decreases ids.len(),
{
    if ids.len() == 0 || ss.len() == 0 {
        m
    } else {
        let before = after_starts(m, ids.drop_last(), ss.drop_last());
        after_install(after_stop(before, ids.last()), ids.last(), ss.last())
    }
}

/// Starting under an identifier that a live session holds evicts that session
/// once: the identifier then reaches no session, so a second eviction finds
/// nothing, until the new session is installed, after which it reaches the new
/// session alone. Every other identifier keeps its session throughout.
pub proof fn lemma_colliding_start_evicts_once<S>(m: Map<Seq<char>, S>, raw: Seq<char>, s: S)
    requires
        !is_blank(raw),
        m.contains_key(normalized_id(raw)),
    ensures
        !after_stop(m, normalized_id(raw)).contains_key(normalized_id(raw)),
        after_stop(after_stop(m, normalized_id(raw)), normalized_id(raw)) == after_stop(
            m,
            normalized_id(raw),
        ),
        after_install(after_stop(m, normalized_id(raw)), normalized_id(raw), s)[normalized_id(raw)]
            == s,
        forall|k: Seq<char>|
            k != normalized_id(raw) ==> (#[trigger] after_install(
                after_stop(m, normalized_id(raw)),
                normalized_id(raw),
                s,
            ).contains_key(k) == m.contains_key(k)) && (m.contains_key(k) ==> after_install(
                after_stop(m, normalized_id(raw)),
                normalized_id(raw),
                s,
            )[k] == m[k]),
{
    let id = normalized_id(raw);
    assert(after_stop(after_stop(m, id), id) =~= after_stop(m, id));
}

/// Once a stop has found and stopped a session, its identifier reaches no
/// session: a write or a resize under it is answered with "not found".
pub proof fn lemma_stopped_session_is_gone<S>(m: Map<Seq<char>, S>, id: Seq<char>)
    requires
        m.contains_key(id),
    ensures
        !after_stop(m, id).contains_key(id),
{
}

/// Steps of starts under distinct identifiers commute, so starts that run
/// concurrently and interleave their steps end as in any sequential order.
pub proof fn lemma_distinct_start_steps_commute<S>(
    m: Map<Seq<char>, S>,
    a: Seq<char>,
    b: Seq<char>,
    x: S,
    y: S,
)
    requires
        a != b,
    ensures
        after_stop(after_install(m, b, y), a) == after_install(after_stop(m, a), b, y),
        after_stop(after_stop(m, b), a) == after_stop(after_stop(m, a), b),
        after_install(after_install(m, a, x), b, y) == after_install(after_install(m, b, y), a, x),
{
    assert(after_stop(after_install(m, b, y), a) =~= after_install(after_stop(m, a), b, y));
    assert(after_stop(after_stop(m, b), a) =~= after_stop(after_stop(m, a), b));
    assert(after_install(after_install(m, a, x), b, y) =~= after_install(
        after_install(m, b, y),
        a,
        x,
    ));
}

/// Starts under distinct identifiers leave exactly one session per identifier,
/// the one its own start installed, and every other identifier as it was.
pub proof fn lemma_distinct_starts_register_each<S>(
    m: Map<Seq<char>, S>,
    ids: Seq<Seq<char>>,
    ss: Seq<S>,
)
    requires
        ids.len() == ss.len(),
        ids.no_duplicates(),
    ensures
        forall|j: int|
            0 <= j < ids.len() ==> after_starts(m, ids, ss).contains_key(#[trigger] ids[j])
                && after_starts(m, ids, ss)[ids[j]] == ss[j],
        forall|k: Seq<char>|
            !ids.contains(k) ==> (#[trigger] after_starts(m, ids, ss).contains_key(k)
                == m.contains_key(k)) && (m.contains_key(k) ==> after_starts(m, ids, ss)[k]
                == m[k]),
        after_starts(m, ids, ss).dom() == m.dom() + ids.to_set(),
    decreases ids.len(),
{
    if ids.len() > 0 {
        let ids0 = ids.drop_last();
        let ss0 = ss.drop_last();
        assert(ids0.no_duplicates()) by {
            assert forall|i: int, j: int|
                0 <= i < ids0.len() && 0 <= j < ids0.len() && i != j implies ids0[i] != ids0[j] by {
                assert(ids0[i] == ids[i] && ids0[j] == ids[j]);
            }
        }
        lemma_distinct_starts_register_each(m, ids0, ss0);
        let before = after_starts(m, ids0, ss0);
        let last = ids.last();
        let r = after_starts(m, ids, ss);
        assert(r == after_install(after_stop(before, last), last, ss.last()));
        assert forall|j: int| 0 <= j < ids.len() implies r.contains_key(#[trigger] ids[j]) && r[ids[j]]
            == ss[j] by {
            if j < ids.len() - 1 {
                assert(ids0[j] == ids[j] && ss0[j] == ss[j]);
                assert(ids[j] != last);
            }
        }
        assert forall|k: Seq<char>| !ids.contains(k) implies (#[trigger] r.contains_key(k)
            == m.contains_key(k)) && (m.contains_key(k) ==> r[k] == m[k]) by {
            if ids0.contains(k) {
                let j = choose|j: int| 0 <= j < ids0.len() && ids0[j] == k;
                assert(ids[j] == k);
            }
            assert(k != ids[ids.len() - 1]);
        }
        assert forall|k: Seq<char>| r.dom().contains(k) == (m.dom() + ids.to_set()).contains(k) by {
            if ids0.contains(k) {
                let j = choose|j: int| 0 <= j < ids0.len() && ids0[j] == k;
                assert(ids[j] == k);
            }
            if ids.contains(k) && k != last {
                let j = choose|j: int| 0 <= j < ids.len() && ids[j] == k;
                assert(j != ids.len() - 1);
                assert(ids0[j] == k);
            }
        }
        assert(r.dom() =~= m.dom() + ids.to_set());
    } else {
        assert(ids.to_set() =~= Set::<Seq<char>>::empty());
        assert(m.dom() + ids.to_set() =~= m.dom());
    }
}

/// A session as the manager holds it: with the generation it was installed
/// under, which no other session of this manager shares.
pub struct Registered<S> {
    pub generation: u64,
    pub session: S,
}

/// The sessions of a map of registered sessions.
pub open spec fn sessions_of<S>(m: Map<Seq<char>, Registered<S>>) -> Map<Seq<char>, S> {
    m.map_values(|r: Registered<S>| r.session)
}

/// The generations of a map of registered sessions.
pub open spec fn generations_of<S>(m: Map<Seq<char>, Registered<S>>) -> Map<Seq<char>, u64> {
    m.map_values(|r: Registered<S>| r.generation)
}

proof fn lemma_remove_views<S>(m: Map<Seq<char>, Registered<S>>, k: Seq<char>)
    ensures
        sessions_of(m.remove(k)) == sessions_of(m).remove(k),
        generations_of(m.remove(k)) == generations_of(m).remove(k),
{
    assert(sessions_of(m.remove(k)) =~= sessions_of(m).remove(k));
    assert(generations_of(m.remove(k)) =~= generations_of(m).remove(k));
}

proof fn lemma_insert_views<S>(m: Map<Seq<char>, Registered<S>>, k: Seq<char>, r: Registered<S>)
    ensures
        sessions_of(m.insert(k, r)) == sessions_of(m).insert(k, r.session),
        generations_of(m.insert(k, r)) == generations_of(m).insert(k, r.generation),
{
    assert(sessions_of(m.insert(k, r)) =~= sessions_of(m).insert(k, r.session));
    assert(generations_of(m.insert(k, r)) =~= generations_of(m).insert(k, r.generation));
}

/// Each session's end is announced once. Once a session has left the manager
/// (stopped, evicted or ended), its identifier reaches no session until a new
/// one is installed, and the new one's generation differs from the old one's,
/// so the end of the old session's output hands nothing back.
pub proof fn lemma_each_session_ends_once<S>(m: SessionManager<S>, id: Seq<char>)
    requires
        m.wf(),
        m@.contains_key(id),
    ensures
        !after_stop(m@, id).contains_key(id),
        m.generations().contains_key(id),
        m.generations()[id] != m.next_generation(),
{
    m.lemma_generations_precede_next();
}

/// The live terminal sessions, each under its own identifier.
pub struct SessionManager<S> {
    sessions: SessionRegistry<Registered<S>>,
    next_generation: u64,
}

impl<S> SessionManager<S> {
    /// The sessions held, by identifier.
    pub closed spec fn view(&self) -> Map<Seq<char>, S> {
        sessions_of(self.sessions@)
    }

    /// The generation each held session was installed under.
    pub closed spec fn generations(&self) -> Map<Seq<char>, u64> {
        generations_of(self.sessions@)
    }

    /// The generation the next installed session receives.
    pub closed spec fn next_generation(&self) -> u64 {
        self.next_generation
    }

    /// The manager's internal invariant: every held session was installed
    /// before the next generation was due.
    pub closed spec fn wf(&self) -> bool {
        &&& self.sessions.wf()
        &&& forall|k: Seq<char>| #[trigger]
            self.sessions@.contains_key(k) ==> self.sessions@[k].generation < self.next_generation
    }

    /// What the invariant says of the views.
    pub proof fn lemma_generations_precede_next(&self)
        requires
            self.wf(),
        ensures
            self.generations().dom() == self@.dom(),
            forall|k: Seq<char>| #[trigger]
                self.generations().contains_key(k) ==> self.generations()[k]
                    < self.next_generation(),
    {
        assert(self.generations().dom() =~= self@.dom());
    }

    /// A manager with no session.
    pub fn new() -> (r: Self)
        ensures
            r.wf(),
            r@ == Map::<Seq<char>, S>::empty(),
            r.next_generation() == 0,
    {
        let r = SessionManager { sessions: SessionRegistry::new(), next_generation: 0 };
        assert(r@ =~= Map::<Seq<char>, S>::empty());
        r
    }

    /// The number of live sessions.
    pub fn len(&self) -> (r: usize)
        requires
            self.wf(),
        ensures
            r == self@.len(),
            self@.dom().finite(),
    {
        let r = self.sessions.len();
        assert(self@.dom() =~= self.sessions@.dom());
        r
    }

    /// Whether a session is registered under `session_id`.
    pub fn contains(&self, session_id: &str) -> (r: bool)
        requires
            self.wf(),
        ensures
            r == self@.contains_key(session_id@),
    {
        self.sessions.contains(session_id)
    }

    /// Whether another session can be installed: generations are not yet
    /// exhausted.
    pub fn can_install(&self) -> (r: bool)
        ensures
            r == (self.next_generation() < u64::MAX),
    {
        self.next_generation < u64::MAX
    }

    fn take(&mut self, session_id: &str) -> (r: Option<Registered<S>>)
        requires
            old(self).wf(),
        ensures
            final(self).wf(),
            final(self)@ == after_stop(old(self)@, session_id@),
            final(self).generations() == old(self).generations().remove(session_id@),
            final(self).next_generation() == old(self).next_generation(),
            match r {
                Some(reg) => {
                    &&& old(self)@.contains_key(session_id@)
                    &&& reg.session == old(self)@[session_id@]
                    &&& reg.generation == old(self).generations()[session_id@]
                },
                None => !old(self)@.contains_key(session_id@),
            },
    {
        let ghost before = self.sessions@;
        let r = self.sessions.remove(session_id);
        proof {
            lemma_remove_views(before, session_id@);
        }
        r
    }

    /// First half of a start: validates the identifier and evicts the session
    /// that holds it. The new session is installed with `install` once its
    /// terminal is running.
    pub fn begin_start(&mut self, session_id: &str) -> (r: Result<StartSlot<S>, TerminalError>)
        requires
            old(self).wf(),
        ensures
            final(self).wf(),
            final(self).next_generation() == old(self).next_generation(),
            is_blank(session_id@) <==> r is Err,
            match r {
                Err(e) => e == TerminalError::MissingSessionId && final(self)@ == old(self)@
                    && final(self).generations() == old(self).generations(),
                Ok(slot) => {
                    let id = normalized_id(session_id@);
                    &&& slot.session_id@ == id
                    &&& final(self)@ == after_stop(old(self)@, id)
                    &&& final(self).generations() == old(self).generations().remove(id)
                    &&& match slot.evicted {
                        Some(ev) => {
                            &&& old(self)@.contains_key(id)
                            &&& ev.session_id@ == id
                            &&& ev.session == old(self)@[id]
                        },
                        None => !old(self)@.contains_key(id),
                    }
                },
            },
    {
        if is_blank_text(session_id) {
            return Err(TerminalError::MissingSessionId);
        }
        let id = trimmed(session_id);
        let evicted = match self.take(id.as_str()) {
            Some(reg) => Some(Evicted { session_id: id.clone(), session: reg.session }),
            None => None,
        };
        Ok(StartSlot { session_id: id, evicted })
    }

    /// Second half of a start: registers the running session under a fresh
    /// generation, which it returns. A session that took the identifier in the
    /// meantime is handed back to be ended.
    pub fn install(&mut self, session_id: String, session: S) -> (r: (u64, Option<Evicted<S>>))
        requires
            old(self).wf(),
            old(self).next_generation() < u64::MAX,
        ensures
            final(self).wf(),
            final(self)@ == after_install(old(self)@, session_id@, session),
            r.0 == old(self).next_generation(),
            final(self).generations() == old(self).generations().insert(session_id@, r.0),
            final(self).next_generation() == old(self).next_generation() + 1,
            match r.1 {
                Some(ev) => {
                    &&& old(self)@.contains_key(session_id@)
                    &&& ev.session_id@ == session_id@
                    &&& ev.session == old(self)@[session_id@]
                },
                None => !old(self)@.contains_key(session_id@),
            },
    {
        let generation = self.next_generation;
        let key = session_id.clone();
        let ghost before = self.sessions@;
        let reg = Registered { generation, session };
        let displaced = self.sessions.insert(session_id, reg);
        self.next_generation = generation + 1;
        proof {
            lemma_insert_views(before, key@, reg);
        }
        let evicted = match displaced {
            Some(old_reg) => Some(Evicted { session_id: key, session: old_reg.session }),
            None => None,
        };
        (generation, evicted)
    }

    /// The session of `session_id`, for writing to or resizing its terminal.
    pub fn session_mut(&mut self, session_id: &str) -> (r: Result<&mut S, TerminalError>)
        requires
            old(self).wf(),
        ensures
            final(self).wf(),
            final(self).generations() == old(self).generations(),
            final(self).next_generation() == old(self).next_generation(),
            match r {
                Ok(s) => {
                    &&& old(self)@.contains_key(session_id@)
                    &&& *s == old(self)@[session_id@]
                    &&& final(self)@ == old(self)@.insert(session_id@, *final(s))
                },
                Err(e) => {
                    &&& e == TerminalError::SessionNotFound
                    &&& !old(self)@.contains_key(session_id@)
                    &&& final(self)@ == old(self)@
                },
            },
    {
        let ghost before = self.sessions@;
        match self.sessions.get_mut(session_id) {
            Some(reg) => {
                proof {
                    let g = before[session_id@].generation;
                    assert forall|v: S|
                        sessions_of(#[trigger] before.insert(session_id@, Registered { generation: g, session: v }))
                            == sessions_of(before).insert(session_id@, v)
                            && generations_of(before.insert(session_id@, Registered { generation: g, session: v }))
                            == generations_of(before) by {
                        lemma_insert_views(before, session_id@, Registered { generation: g, session: v });
                        assert(generations_of(before).insert(session_id@, g) =~= generations_of(before));
                    }
                }
                Ok(&mut reg.session)
            },
            None => Err(TerminalError::SessionNotFound),
        }
    }

    /// Stops the session of `session_id`: it leaves the manager and is handed
    /// back to be ended. Stopping an unknown identifier is no error.
    pub fn stop(&mut self, session_id: &str) -> (r: (PtyStopResponse, Option<Evicted<S>>))
        requires
            old(self).wf(),
        ensures
            final(self).wf(),
            final(self)@ == after_stop(old(self)@, session_id@),
            final(self).generations() == old(self).generations().remove(session_id@),
            final(self).next_generation() == old(self).next_generation(),
            r.0.stopped == old(self)@.contains_key(session_id@),
            match r.1 {
                Some(ev) => {
                    &&& old(self)@.contains_key(session_id@)
                    &&& ev.session_id@ == session_id@
                    &&& ev.session == old(self)@[session_id@]
                },
                None => !old(self)@.contains_key(session_id@),
            },
    {
        match self.take(session_id) {
            Some(reg) => (
                PtyStopResponse { stopped: true },
                Some(Evicted { session_id: String::from_str(session_id), session: reg.session }),
            ),
            None => (PtyStopResponse { stopped: false }, None),
        }
    }

    /// The output of the session installed under `generation` has ended. When
    /// that session is still registered it ended on its own: it leaves the
    /// manager and is handed back to be announced. Otherwise it was stopped,
    /// evicted or swept already, its end was announced then, and nothing
    /// changes.
    pub fn end_of_output(&mut self, session_id: &str, generation: u64) -> (r: Option<Evicted<S>>)
        requires
            old(self).wf(),
        ensures
            final(self).wf(),
            final(self).next_generation() == old(self).next_generation(),
            (old(self)@.contains_key(session_id@) && old(self).generations()[session_id@]
                == generation) <==> r is Some,
            match r {
                Some(ev) => {
                    &&& ev.session_id@ == session_id@
                    &&& ev.session == old(self)@[session_id@]
                    &&& final(self)@ == after_stop(old(self)@, session_id@)
                    &&& final(self).generations() == old(self).generations().remove(session_id@)
                },
                None => {
                    &&& final(self)@ == old(self)@
                    &&& final(self).generations() == old(self).generations()
                },
            },
    {
        let current = match self.sessions.get(session_id) {
            Some(reg) => reg.generation == generation,
            None => false,
        };
        if current {
            match self.take(session_id) {
                Some(reg) => Some(Evicted { session_id: String::from_str(session_id), session: reg.session }),
                None => None,
            }
        } else {
            None
        }
    }

    /// Takes every session out, each to be ended and announced.
    pub fn shutdown_all(&mut self) -> (r: Vec<(String, Registered<S>)>)
        requires
            old(self).wf(),
        ensures
            final(self).wf(),
            final(self)@ == Map::<Seq<char>, S>::empty(),
            final(self).next_generation() == old(self).next_generation(),
            keys_unique(r@),
            sessions_of(entries_map(r@)) == old(self)@,
    {
        let r = self.sessions.drain();
        assert(self@ =~= Map::<Seq<char>, S>::empty());
        r
    }
}

} // verus!
