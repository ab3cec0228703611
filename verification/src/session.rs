//! The search session: the one shared, mutable spot of a running
//! search.
//!
//! A session owns the buffer of matches found so far, the remaining
//! result quota, and the registry of in-flight traversal work.  Its
//! whole behaviour is a small state machine, written out as the spec
//! functions on [`SessionState`]; every executable operation is proved
//! to take exactly one such step.  A consumer polls [`SearchSession::read`]
//! to drain the buffer; the quota works "one past exhaustion": the
//! write that exhausts the quota is still accepted, and the first write
//! after that triggers self-termination — the buffer is discarded, the
//! session goes inactive, and the work registry is emptied so the
//! caller can cancel the registered work.

use vstd::prelude::*;
use crate::files::PitouFile;
use crate::msg::SearchMsg;
use crate::paths::PitouFilePath;

verus! {

/// One registered unit of traversal work: the directory it will
/// enumerate, and the depth left below it.
pub struct Task {
    pub dir: PitouFilePath,
    pub depth: u8,
}

impl Clone for Task {
    fn clone(&self) -> (r: Self)
        ensures
            r == *self,
    {
        Task { dir: self.dir.clone(), depth: self.depth }
    }
}

/// The mathematical state of a session.
///
/// `stream` is the live match buffer (`None` when the session is
/// inactive), `finds` the remaining quota (`None` once the search has
/// finished taking results), `ops` the registered traversal work.
/// `quota` and `accepted` keep the history of the current session:
/// what quota it began with and how many matches it has accepted.
pub ghost struct SessionState {
    pub stream: Option<Seq<PitouFile>>,
    pub finds: Option<nat>,
    pub ops: Seq<Task>,
    pub quota: nat,
    pub accepted: nat,
}

impl SessionState {
    /// The state before any search has begun.
    pub open spec fn inactive() -> SessionState {
        SessionState { stream: None, finds: None, ops: Seq::empty(), quota: 0, accepted: 0 }
    }

    /// The bookkeeping invariant: a session never accepts more than
    /// its quota.
    pub open spec fn wf(self) -> bool {
        &&& (self.finds matches Some(k) ==> self.accepted + k <= self.quota)
        &&& (self.finds is None ==> self.accepted <= self.quota)
    }

    /// `begin` opens a fresh buffer under a fresh quota.  Work already
    /// registered is left to its fate, as before.
    pub open spec fn step_begin(self, max_finds: nat) -> SessionState {
        SessionState {
            stream: Some(Seq::empty()),
            finds: Some(max_finds),
            ops: self.ops,
            quota: max_finds,
            accepted: 0,
        }
    }

    /// `write` with quota left appends to the live buffer and spends
    /// one unit of quota; with the quota already spent (or the search
    /// finished) it instead self-terminates the session.  A write to an
    /// inactive buffer still spends quota but stores nothing.
    pub open spec fn step_write(self, find: PitouFile) -> SessionState {
        match self.finds {
            Some(k) => if k > 0 {
                SessionState {
                    stream: match self.stream {
                        Some(b) => Some(b.push(find)),
                        None => None,
                    },
                    finds: Some((k - 1) as nat),
                    ops: self.ops,
                    quota: self.quota,
                    accepted: if self.stream is Some {
                        self.accepted + 1
                    } else {
                        self.accepted
                    },
                }
            } else {
                self.step_abort()
            },
            None => self.step_abort(),
        }
    }

    /// The self-termination branch of `write`: the buffer is
    /// discarded, the session goes inactive, and every registered unit
    /// of work is withdrawn.
    pub open spec fn step_abort(self) -> SessionState {
        SessionState {
            stream: None,
            finds: None,
            ops: Seq::empty(),
            quota: self.quota,
            accepted: self.accepted,
        }
    }

    /// `read` drains the live buffer and leaves it empty; an inactive
    /// session is left as it is.
    pub open spec fn step_read(self) -> SessionState {
        match self.stream {
            Some(_) => SessionState {
                stream: Some(Seq::empty()),
                finds: self.finds,
                ops: self.ops,
                quota: self.quota,
                accepted: self.accepted,
            },
            None => self,
        }
    }

    /// `terminate` drops the buffer and the quota, unconditionally and
    /// idempotently.  Registered work stays listed so the owner can
    /// still cancel or await it.
    pub open spec fn step_terminate(self) -> SessionState {
        SessionState {
            stream: None,
            finds: None,
            ops: self.ops,
            quota: self.quota,
            accepted: self.accepted,
        }
    }

    /// `append_handle` registers one more unit of traversal work.
    pub open spec fn step_append(self, t: Task) -> SessionState {
        SessionState {
            stream: self.stream,
            finds: self.finds,
            ops: self.ops.push(t),
            quota: self.quota,
            accepted: self.accepted,
        }
    }

    /// One step of a session history.
    pub open spec fn step(self, e: SessionEvent) -> SessionState {
        match e {
            SessionEvent::Wrote(f) => self.step_write(f),
            SessionEvent::Registered(t) => self.step_append(t),
        }
    }

    /// A whole run of steps, first event first.
    pub open spec fn run(self, es: Seq<SessionEvent>) -> SessionState
        decreases es.len(),
    {
        if es.len() == 0 {
            self
        } else {
            self.step(es[0]).run(es.drop_first())
        }
    }
}

/// What a traversal does to its session, one action at a time: it
/// writes a match, or registers a unit of work.
pub ghost enum SessionEvent {
    Wrote(PitouFile),
    Registered(Task),
}

/// Every step keeps the bookkeeping invariant.
pub proof fn lemma_step_preserves_wf(s: SessionState, e: SessionEvent)
    requires
        s.wf(),
    ensures
        s.step(e).wf(),
{
}

/// Every run keeps the bookkeeping invariant.
pub proof fn lemma_run_preserves_wf(s: SessionState, es: Seq<SessionEvent>)
    requires
        s.wf(),
    ensures
        s.run(es).wf(),
    decreases es.len(),
{
    if es.len() > 0 {
        lemma_step_preserves_wf(s, es[0]);
        lemma_run_preserves_wf(s.step(es[0]), es.drop_first());
    }
}

/// A run never takes back an accepted match.
pub proof fn lemma_run_accepted_monotone(s: SessionState, es: Seq<SessionEvent>)
    ensures
        s.run(es).accepted >= s.accepted,
    decreases es.len(),
{
    if es.len() > 0 {
        lemma_run_accepted_monotone(s.step(es[0]), es.drop_first());
    }
}

/// In a well-formed session, what has been accepted never exceeds the
/// quota the session began with.
pub proof fn lemma_accepted_bounded(s: SessionState)
    requires
        s.wf(),
    ensures
        s.accepted <= s.quota,
{
}

/// Cancellation, library side: once the session is terminated, no run
/// of traversal actions stores a match, accepts one, or revives the
/// buffer.  (A write already past its liveness check in a concurrent
/// driver lands before the terminate, not after: the session itself
/// never accepts late.)
pub proof fn lemma_no_acceptance_after_terminate(s: SessionState, es: Seq<SessionEvent>)
    ensures
        s.step_terminate().run(es).stream is None,
        s.step_terminate().run(es).accepted == s.accepted,
{
    lemma_dead_stream_stays_dead(s.step_terminate(), es);
}

proof fn lemma_dead_stream_stays_dead(s: SessionState, es: Seq<SessionEvent>)
    requires
        s.stream is None,
    ensures
        s.run(es).stream is None,
        s.run(es).accepted == s.accepted,
    decreases es.len(),
{
    if es.len() > 0 {
        lemma_dead_stream_stays_dead(s.step(es[0]), es.drop_first());
    }
}

/// Drain semantics: a read leaves the live buffer empty, so a second
/// read with no intervening write returns an empty batch.
pub proof fn lemma_read_drains(s: SessionState)
    ensures
        s.stream is Some ==> s.step_read().stream == Some(Seq::<PitouFile>::empty()),
        s.step_read().step_read().stream == s.step_read().stream,
{
}

/// The events of writing a row of matches, one after the other.
pub open spec fn write_events(files: Seq<PitouFile>) -> Seq<SessionEvent> {
    files.map_values(|f: PitouFile| SessionEvent::Wrote(f))
}

/// Quota semantics, exactly: a live session with `k` quota left that
/// is offered `n` matches accepts exactly the first `min(n, k)` of
/// them; when more are offered than the quota allows, the offer past
/// the threshold leaves the session inactive — buffer discarded, no
/// further results taken, all registered work withdrawn.
pub proof fn lemma_quota_is_exact(s: SessionState, files: Seq<PitouFile>)
    requires
        s.stream is Some,
        s.finds matches Some(k),
    ensures
        s.run(write_events(files)).accepted == s.accepted + (if files.len()
            <= s.finds->Some_0 {
            files.len()
        } else {
            s.finds->Some_0
        }),
        files.len() > s.finds->Some_0 ==> s.run(write_events(files)).finds is None,
        files.len() > s.finds->Some_0 ==> s.run(write_events(files)).ops.len() == 0,
        files.len() > s.finds->Some_0 ==> s.run(write_events(files)).stream is None,
    decreases files.len(),
{
    let k = s.finds->Some_0;
    if files.len() == 0 {
    } else {
        let e = SessionEvent::Wrote(files[0]);
        assert(write_events(files)[0] == e);
        assert(write_events(files).drop_first() =~= write_events(files.drop_first()));
        let s1 = s.step(e);
        if k > 0 {
            assert(s1.stream is Some);
            assert(s1.finds == Some((k - 1) as nat));
            lemma_quota_is_exact(s1, files.drop_first());
        } else {
            lemma_writes_to_finished(s1, files.drop_first());
        }
    }
}

/// Once the search has finished taking results, further writes accept
/// nothing; the first of them discards the buffer and empties the
/// registry, and both stay that way.
pub proof fn lemma_writes_to_finished(s: SessionState, files: Seq<PitouFile>)
    requires
        s.finds is None,
    ensures
        s.run(write_events(files)).accepted == s.accepted,
        s.run(write_events(files)).finds is None,
        s.run(write_events(files)).ops.len() == (if files.len() == 0 {
            s.ops.len()
        } else {
            0nat
        }),
        s.run(write_events(files)).stream == (if files.len() == 0 {
            s.stream
        } else {
            None
        }),
    decreases files.len(),
{
    if files.len() > 0 {
        let e = SessionEvent::Wrote(files[0]);
        assert(write_events(files)[0] == e);
        assert(write_events(files).drop_first() =~= write_events(files.drop_first()));
        lemma_writes_to_finished(s.step(e), files.drop_first());
    }
}

/// The search session, the shared object every traversal task writes
/// into and the consumer reads from.
pub struct SearchSession {
    buffer: Option<Vec<PitouFile>>,
    finds: Option<usize>,
    handles: Vec<Task>,
    quota: Ghost<nat>,
    accepted: Ghost<nat>,
}

impl View for SearchSession {
    type V = SessionState;

    closed spec fn view(&self) -> SessionState {
        SessionState {
            stream: match self.buffer {
                Some(b) => Some(b@),
                None => None,
            },
            finds: match self.finds {
                Some(k) => Some(k as nat),
                None => None,
            },
            ops: self.handles@,
            quota: self.quota@,
            accepted: self.accepted@,
        }
    }
}

impl SearchSession {
    /// A fresh, inactive session.
    pub fn new() -> (r: Self)
        ensures
            r@ == SessionState::inactive(),
    {
        let r = SearchSession {
            buffer: None,
            finds: None,
            handles: Vec::new(),
            quota: Ghost(0),
            accepted: Ghost(0),
        };
        proof {
            assert(r@ =~= SessionState::inactive());
        }
        r
    }

    /// True iff the session is inactive: never begun, terminated from
    /// outside, or self-terminated on quota exhaustion.
    pub fn is_terminated(&self) -> (r: bool)
        ensures
            r == (self@.stream is None),
    {
        self.buffer.is_none()
    }

    /// True iff the session is live.
    pub fn is_active(&self) -> (r: bool)
        ensures
            r == (self@.stream is Some),
    {
        self.buffer.is_some()
    }

    /// Opens the session: an empty buffer under the given quota.  A
    /// second `begin_stream` before `terminate_stream` replaces the
    /// prior buffer outright.
    pub fn begin_stream(&mut self, max_finds: usize)
        ensures
            final(self)@ == old(self)@.step_begin(max_finds as nat),
            final(self)@.wf(),
    {
        self.buffer = Some(Vec::new());
        self.finds = Some(max_finds);
        self.quota = Ghost(max_finds as nat);
        self.accepted = Ghost(0);
        proof {
            assert(self@ =~= old(self)@.step_begin(max_finds as nat));
        }
    }

    /// Spends one unit of quota if any is left, saying so; with the
    /// quota spent or the search finished it refuses.
    fn count_and_proceed(&mut self) -> (r: bool)
        ensures
            match old(self)@.finds {
                Some(k) => if k > 0 {
                    r && final(self)@ == (SessionState {
                        finds: Some((k - 1) as nat),
                        ..old(self)@
                    })
                } else {
                    !r && final(self)@ == old(self)@
                },
                None => !r && final(self)@ == old(self)@,
            },
    {
        match self.finds {
            Some(count) => {
                if count == 0 {
                    false
                } else {
                    self.finds = Some(count - 1);
                    proof {
                        assert(self@ =~= SessionState { finds: Some((count - 1) as nat), ..old(self)@ });
                    }
                    true
                }
            },
            None => false,
        }
    }

    /// Offers one match to the session: one `step_write`.  The
    /// returned list is the work the session withdrew, newest first;
    /// it is empty except on the write that triggers self-termination
    /// (which also discards the buffer and deactivates the session),
    /// and the caller is expected to cancel the returned work.
    pub fn write(&mut self, find: PitouFile) -> (aborted: Vec<Task>)
        ensures
            final(self)@ == old(self)@.step_write(find),
            aborted@ == (if (old(self)@.finds matches Some(k) && k > 0) {
                Seq::<Task>::empty()
            } else {
                old(self)@.ops.reverse()
            }),
    {
        let proceed = self.count_and_proceed();
        if proceed {
            let ghost pre = self@;
            match &mut self.buffer {
                Some(b) => {
                    b.push(find);
                    proof {
                        self.accepted@ = self.accepted@ + 1;
                    }
                },
                None => {},
            }
            proof {
                assert(self@ =~= old(self)@.step_write(find));
            }
            Vec::new()
        } else {
            self.finish_stream();
            let aborted = self.abort_remaining_ops();
            proof {
                assert(self@ =~= old(self)@.step_write(find));
            }
            aborted
        }
    }

    /// Ends the search from within: the buffer is discarded and no
    /// further results are taken.
    fn finish_stream(&mut self)
        ensures
            final(self)@ == (SessionState { stream: None, finds: None, ..old(self)@ }),
    {
        self.buffer = None;
        self.finds = None;
        proof {
            assert(self@ =~= SessionState { stream: None, finds: None, ..old(self)@ });
        }
    }

    /// Drains the whole buffer: the matches written since the last
    /// read, in the order they were written, under an `Active` tag.
    /// An inactive session answers `Terminated` with an empty batch.
    /// Either way a read right after another read returns an empty
    /// batch: the buffer is drained, not snapshotted.
    pub fn read(&mut self) -> (r: SearchMsg)
        ensures
            final(self)@ == old(self)@.step_read(),
            old(self)@.stream matches Some(b) ==> (r matches SearchMsg::Active(v) && v@ == b),
            old(self)@.stream is None ==> (r matches SearchMsg::Terminated(v) && v@.len() == 0),
    {
        let held = self.buffer.take();
        match held {
            Some(v) => {
                self.buffer = Some(Vec::new());
                proof {
                    assert(self@ =~= old(self)@.step_read());
                    assert(v@ =~= old(self)@.stream->Some_0);
                }
                SearchMsg::Active(v)
            },
            None => SearchMsg::Terminated(Vec::new()),
        }
    }

    /// Ends the session from outside: the buffer and the quota are
    /// dropped, whatever state they were in.  Idempotent.  Registered
    /// work stays listed for the owner to cancel or await.
    pub fn terminate_stream(&mut self)
        ensures
            final(self)@ == old(self)@.step_terminate(),
    {
        self.buffer = None;
        self.finds = None;
        proof {
            assert(self@ =~= old(self)@.step_terminate());
        }
    }

    /// Registers one unit of traversal work.
    pub fn append_handle(&mut self, handle: Task)
        ensures
            final(self)@ == old(self)@.step_append(handle),
    {
        self.handles.push(handle);
        proof {
            assert(self@ =~= old(self)@.step_append(handle));
        }
    }

    /// Withdraws every registered unit of work, newest first, for the
    /// caller to cancel.
    pub fn abort_remaining_ops(&mut self) -> (r: Vec<Task>)
        ensures
            final(self)@ == (SessionState { ops: Seq::empty(), ..old(self)@ }),
            r@ == old(self)@.ops.reverse(),
    {
        self.drain_handles()
    }

    /// Withdraws every registered unit of work, newest first, for the
    /// caller to await.
    pub fn wait_for_all_ops(&mut self) -> (r: Vec<Task>)
        ensures
            final(self)@ == (SessionState { ops: Seq::empty(), ..old(self)@ }),
            r@ == old(self)@.ops.reverse(),
    {
        self.drain_handles()
    }

    fn drain_handles(&mut self) -> (r: Vec<Task>)
        ensures
            final(self)@ == (SessionState { ops: Seq::empty(), ..old(self)@ }),
            r@ == old(self)@.ops.reverse(),
    {
        let mut out: Vec<Task> = Vec::new();
        loop
            invariant
                self.buffer == old(self).buffer,
                self.finds == old(self).finds,
                self.quota == old(self).quota,
                self.accepted == old(self).accepted,
                self.handles@ == old(self).handles@.take(self.handles@.len() as int),
                self.handles@.len() <= old(self).handles@.len(),
                out@ =~= old(self).handles@.skip(self.handles@.len() as int).reverse(),
            decreases self.handles@.len(),
        {
            let ghost j = self.handles@.len() as int;
            match self.handles.pop() {
                Some(t) => {
                    out.push(t);
                    proof {
                        let all = old(self).handles@;
                        assert(self.handles@ =~= all.take(j - 1));
                        assert(all.skip(j - 1) =~= seq![all[j - 1]] + all.skip(j));
                        assert(all.skip(j - 1).reverse() =~= all.skip(j).reverse().push(
                            all[j - 1],
                        ));
                        assert(out@ =~= all.skip(j - 1).reverse());
                    }
                },
                None => {
                    proof {
                        assert(self.handles@ =~= Seq::<Task>::empty());
                        assert(self@ =~= SessionState { ops: Seq::empty(), ..old(self)@ });
                        assert(old(self).handles@.skip(0) =~= old(self).handles@);
                    }
                    return out;
                },
            }
        }
    }
}

} // verus!
