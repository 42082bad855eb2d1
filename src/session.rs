//! The streaming session controller and the shared session state.
//!
//! A session goes `Starting -> Streaming -> {Completed, Cancelled, Failed}`.
//! The driver performs the I/O and hands each outcome to `StreamSession::step`
//! as a `StreamEvent`; `step` decides the next phase, updates the shared state
//! and returns the notifications for the UI.
use vstd::prelude::*;
use crate::decoder::{chunk_events, decode_chunk, events_view, DecodedEvent, EventView};

verus! {

/// The cancellation slot of the shared state. A handle is named by the id of
/// the session that armed it.
#[derive(PartialEq, Eq, Structural, Clone, Copy, Debug)]
pub enum CancelSlot {
    Unset,
    Armed(u64),
    Cancelled(u64),
}

/// The phase of one streaming session.
#[derive(PartialEq, Eq, Structural, Clone, Copy, Debug)]
pub enum Phase {
    Starting,
    Streaming,
    Completed,
    Cancelled,
    Failed,
}

impl Phase {
    pub open spec fn is_terminal(self) -> bool {
        self == Phase::Completed || self == Phase::Cancelled || self == Phase::Failed
    }
}

#[derive(PartialEq, Eq, Structural, Clone, Copy, Debug)]
pub enum SessionError {
    /// A cancellation was requested while no armed handle exists.
    NoActiveStream,
}

/// State shared by every session of the process: the generation context and
/// the cancellation slot.
#[derive(Clone, Debug, PartialEq, Eq)]
pub struct SessionState {
    pub context: Option<Vec<u8>>,
    pub cancel: CancelSlot,
    pub next_id: u64,
}

pub struct SharedView {
    pub context: Option<Seq<u8>>,
    pub cancel: CancelSlot,
    pub next_id: u64,
}

pub open spec fn opt_bytes_view(c: Option<Vec<u8>>) -> Option<Seq<u8>> {
    match c {
        Some(b) => Some(b@),
        None => None,
    }
}

impl View for SessionState {
    type V = SharedView;

    open spec fn view(&self) -> SharedView {
        SharedView { context: opt_bytes_view(self.context), cancel: self.cancel, next_id: self.next_id }
    }
}

/// One streaming session as the controller sees it.
#[derive(PartialEq, Eq, Structural, Clone, Copy, Debug)]
pub struct StreamSession {
    pub id: u64,
    pub phase: Phase,
}

/// What the driver observed and hands to the controller.
#[derive(Clone, Debug, PartialEq, Eq)]
pub enum StreamEvent {
    /// The server accepted the request; the byte stream is open.
    Opened,
    /// The stream could not be opened (transport failure or an error status),
    /// with the client's message.
    OpenFailed(String),
    /// The next chunk of the byte stream.
    Chunk(Vec<u8>),
    /// Reading the byte stream failed, with a diagnostic message.
    TransportError(String),
    /// The byte stream ended.
    EndOfStream,
    /// The session's cancellation signal fired.
    CancelFired,
}

pub enum StreamEventView {
    Opened,
    OpenFailed(Seq<char>),
    Chunk(Seq<u8>),
    TransportError(Seq<char>),
    EndOfStream,
    CancelFired,
}

impl View for StreamEvent {
    type V = StreamEventView;

    open spec fn view(&self) -> StreamEventView {
        match self {
            StreamEvent::Opened => StreamEventView::Opened,
            StreamEvent::OpenFailed(m) => StreamEventView::OpenFailed(m@),
            StreamEvent::Chunk(b) => StreamEventView::Chunk(b@),
            StreamEvent::TransportError(m) => StreamEventView::TransportError(m@),
            StreamEvent::EndOfStream => StreamEventView::EndOfStream,
            StreamEvent::CancelFired => StreamEventView::CancelFired,
        }
    }
}

/// A notification for the UI.
#[derive(Clone, Debug, PartialEq, Eq)]
pub enum Notice {
    Token(String),
    Completion,
    Cancelled,
    /// The stream failed to open or failed while being read, with a message.
    Error(String),
    /// A line of the stream that is not JSON; for the log, not for the UI.
    Diagnostic(String),
}

pub enum NoticeView {
    Token(Seq<char>),
    Completion,
    Cancelled,
    Error(Seq<char>),
    Diagnostic(Seq<char>),
}

impl View for Notice {
    type V = NoticeView;

    open spec fn view(&self) -> NoticeView {
        match self {
            Notice::Token(t) => NoticeView::Token(t@),
            Notice::Completion => NoticeView::Completion,
            Notice::Cancelled => NoticeView::Cancelled,
            Notice::Error(m) => NoticeView::Error(m@),
            Notice::Diagnostic(l) => NoticeView::Diagnostic(l@),
        }
    }
}

pub open spec fn notices_view(v: Seq<Notice>) -> Seq<NoticeView> {
    v.map_values(|n: Notice| n@)
}

/// Runs decoded events in order against the context: tokens become
/// notifications, lines that are not JSON become diagnostics, each context
/// update replaces the context, and a completion
/// ends the run (the rest is not read). Returns the notifications, the
/// context after the run, and whether a completion was met.
pub open spec fn run_events(evs: Seq<EventView>, ctx: Option<Seq<u8>>) -> (Seq<NoticeView>, Option<Seq<u8>>, bool)
    decreases evs.len(),
{
    if evs.len() == 0 {
        (seq![], ctx, false)
    } else {
        match evs[0] {
            EventView::Token(t) => {
                let rest = run_events(evs.drop_first(), ctx);
                (seq![NoticeView::Token(t)] + rest.0, rest.1, rest.2)
            },
            EventView::ContextUpdate(b) => run_events(evs.drop_first(), Some(b)),
            EventView::Complete => (seq![NoticeView::Completion], ctx, true),
            EventView::Unparseable(l) => {
                let rest = run_events(evs.drop_first(), ctx);
                (seq![NoticeView::Diagnostic(l)] + rest.0, rest.1, rest.2)
            },
        }
    }
}

/// The shared state once a session has ended: the cancellation slot is unset.
pub open spec fn released(sh: SharedView) -> SharedView {
    SharedView { cancel: CancelSlot::Unset, ..sh }
}

/// Whether the shared state holds a cancellation of session `id`.
pub open spec fn cancel_requested(sh: SharedView, id: u64) -> bool {
    sh.cancel == CancelSlot::Cancelled(id)
}

/// One step of the controller: the session and shared state after the event,
/// and the notifications it gives.
pub open spec fn step_spec(s: StreamSession, sh: SharedView, ev: StreamEventView) -> (
    StreamSession,
    SharedView,
    Seq<NoticeView>,
) {
    match s.phase {
        Phase::Starting => match ev {
            StreamEventView::Opened => (StreamSession { phase: Phase::Streaming, ..s }, sh, seq![]),
            StreamEventView::OpenFailed(m) => (
                StreamSession { phase: Phase::Failed, ..s },
                released(sh),
                seq![NoticeView::Error(m)],
            ),
            _ => (s, sh, seq![]),
        },
        Phase::Streaming => if ev is CancelFired || cancel_requested(sh, s.id) {
            (StreamSession { phase: Phase::Cancelled, ..s }, released(sh), seq![NoticeView::Cancelled])
        } else {
            match ev {
                StreamEventView::Chunk(b) => {
                    let r = run_events(chunk_events(b), sh.context);
                    let sh2 = SharedView { context: r.1, ..sh };
                    if r.2 {
                        (StreamSession { phase: Phase::Completed, ..s }, released(sh2), r.0)
                    } else {
                        (s, sh2, r.0)
                    }
                },
                StreamEventView::TransportError(m) => (
                    StreamSession { phase: Phase::Failed, ..s },
                    released(sh),
                    seq![NoticeView::Error(m)],
                ),
                StreamEventView::EndOfStream => (
                    StreamSession { phase: Phase::Completed, ..s },
                    released(sh),
                    seq![],
                ),
                _ => (s, sh, seq![]),
            }
        },
        _ => (s, sh, seq![]),
    }
}

/// The outcome of a cancellation request on the shared state.
pub open spec fn cancel_spec(sh: SharedView) -> (SharedView, Result<(), SessionError>) {
    match sh.cancel {
        CancelSlot::Armed(id) => (SharedView { cancel: CancelSlot::Cancelled(id), ..sh }, Ok(())),
        _ => (sh, Err(SessionError::NoActiveStream)),
    }
}

/// A cancellation requested while no handle is armed fails with
/// `NoActiveStream` and changes nothing.
pub proof fn lemma_cancel_without_session(sh: SharedView)
    requires
        !(sh.cancel is Armed),
    ensures
        cancel_spec(sh) == (sh, Err::<(), SessionError>(SessionError::NoActiveStream)),
{
}

/// A cancellation requested once while a session streams succeeds, and the
/// session's next step, whatever the driver observed, ends it as `Cancelled`
/// with one `Cancelled` notification and the slot unset, so a new session may start.
pub proof fn lemma_cancel_reaches_cancelled(s: StreamSession, sh: SharedView, ev: StreamEventView)
    requires
        s.phase == Phase::Streaming,
        sh.cancel == CancelSlot::Armed(s.id),
    ensures
        cancel_spec(sh).1 is Ok,
        step_spec(s, cancel_spec(sh).0, ev) == (
            StreamSession { phase: Phase::Cancelled, ..s },
            released(cancel_spec(sh).0),
            seq![NoticeView::Cancelled],
        ),
        released(cancel_spec(sh).0).cancel == CancelSlot::Unset,
{
}

/// A cancellation requested while the stream is still being opened is kept:
/// once the stream opens, the next step ends the session as `Cancelled`.
pub proof fn lemma_cancel_while_starting(s: StreamSession, sh: SharedView, ev: StreamEventView)
    requires
        s.phase == Phase::Starting,
        sh.cancel == CancelSlot::Armed(s.id),
    ensures
        ({
            let opened = step_spec(s, cancel_spec(sh).0, StreamEventView::Opened);
            &&& opened.0.phase == Phase::Streaming
            &&& step_spec(opened.0, opened.1, ev).0.phase == Phase::Cancelled
            &&& step_spec(opened.0, opened.1, ev).1.cancel == CancelSlot::Unset
        }),
{
}

/// Every transition into a terminal phase (completed, cancelled or failed)
/// leaves the cancellation slot unset.
pub proof fn lemma_terminal_unsets_slot(s: StreamSession, sh: SharedView, ev: StreamEventView)
    requires
        !s.phase.is_terminal(),
        step_spec(s, sh, ev).0.phase.is_terminal(),
    ensures
        step_spec(s, sh, ev).1.cancel == CancelSlot::Unset,
{
}

pub open spec fn no_completion(evs: Seq<EventView>) -> bool {
    forall|j: int| 0 <= j < evs.len() ==> !(#[trigger] evs[j] is Complete)
}

proof fn lemma_no_update_keeps_context(evs: Seq<EventView>, ctx: Option<Seq<u8>>)
    requires
        no_completion(evs),
        forall|j: int| 0 <= j < evs.len() ==> !(#[trigger] evs[j] is ContextUpdate),
    ensures
        run_events(evs, ctx).1 == ctx,
    decreases evs.len(),
{
    if evs.len() > 0 {
        let rest = evs.drop_first();
        assert(!(evs[0] is Complete) && !(evs[0] is ContextUpdate));
        assert forall|j: int| 0 <= j < rest.len() implies !(#[trigger] rest[j] is ContextUpdate) && !(
        rest[j] is Complete) by {
            assert(rest[j] == evs[j + 1]);
        }
        lemma_no_update_keeps_context(rest, ctx);
    }
}

/// Context updates replace the context and never merge: in a run that meets no
/// completion, the context afterwards is the bytes of the last context update,
/// whatever tokens, other updates or unparseable lines come before or after it.
pub proof fn lemma_context_last_write_wins(evs: Seq<EventView>, ctx: Option<Seq<u8>>, i: int)
    requires
        no_completion(evs),
        0 <= i < evs.len(),
        evs[i] is ContextUpdate,
        forall|j: int| i < j < evs.len() ==> !(#[trigger] evs[j] is ContextUpdate),
    ensures
        run_events(evs, ctx).1 == Some(evs[i]->ContextUpdate_0),
    decreases evs.len(),
{
    let rest = evs.drop_first();
    assert(!(evs[0] is Complete));
    assert forall|j: int| 0 <= j < rest.len() implies !(#[trigger] rest[j] is Complete) by {
        assert(rest[j] == evs[j + 1]);
    }
    if i == 0 {
        assert forall|j: int| 0 <= j < rest.len() implies !(#[trigger] rest[j] is ContextUpdate) by {
            assert(rest[j] == evs[j + 1]);
        }
        lemma_no_update_keeps_context(rest, Some(evs[0]->ContextUpdate_0));
    } else {
        assert(rest[i - 1] == evs[i]);
        assert forall|j: int| i - 1 < j < rest.len() implies !(#[trigger] rest[j] is ContextUpdate) by {
            assert(rest[j] == evs[j + 1]);
        }
        match evs[0] {
            EventView::ContextUpdate(b) => lemma_context_last_write_wins(rest, Some(b), i - 1),
            _ => lemma_context_last_write_wins(rest, ctx, i - 1),
        }
    }
}

/// Over a session, the context is last-write-wins chunk after chunk: a chunk
/// step that neither completes nor is cancelled leaves, whatever context the
/// earlier chunks left, the bytes of this chunk's last context update.
pub proof fn lemma_session_context_last_write_wins(s: StreamSession, sh: SharedView, b: Seq<u8>, i: int)
    requires
        s.phase == Phase::Streaming,
        !cancel_requested(sh, s.id),
        no_completion(chunk_events(b)),
        0 <= i < chunk_events(b).len(),
        chunk_events(b)[i] is ContextUpdate,
        forall|j: int| i < j < chunk_events(b).len() ==> !(#[trigger] chunk_events(b)[j] is ContextUpdate),
    ensures
        step_spec(s, sh, StreamEventView::Chunk(b)).1.context == Some(chunk_events(b)[i]->ContextUpdate_0),
        step_spec(s, sh, StreamEventView::Chunk(b)).0.phase == Phase::Streaming,
{
    lemma_context_last_write_wins(chunk_events(b), sh.context, i);
    lemma_no_completion_not_done(chunk_events(b), sh.context);
}

proof fn lemma_no_completion_not_done(evs: Seq<EventView>, ctx: Option<Seq<u8>>)
    requires
        no_completion(evs),
    ensures
        !run_events(evs, ctx).2,
    decreases evs.len(),
{
    if evs.len() > 0 {
        let rest = evs.drop_first();
        assert(!(evs[0] is Complete));
        assert forall|j: int| 0 <= j < rest.len() implies !(#[trigger] rest[j] is Complete) by {
            assert(rest[j] == evs[j + 1]);
        }
        match evs[0] {
            EventView::ContextUpdate(b) => lemma_no_completion_not_done(rest, Some(b)),
            _ => lemma_no_completion_not_done(rest, ctx),
        }
    }
}

impl SessionState {
    /// Fresh shared state: no context, no cancellation handle.
    pub fn new() -> (r: SessionState)
        ensures
            r@.context is None,
            r@.cancel == CancelSlot::Unset,
            r@.next_id == 0,
    {
        SessionState { context: None, cancel: CancelSlot::Unset, next_id: 0 }
    }

    /// Clears the generation context.
    pub fn reset_context(&mut self)
        ensures
            final(self)@ == (SharedView { context: None, ..old(self)@ }),
    {
        self.context = None;
    }

    /// Requests cancellation of the active session: an armed handle becomes
    /// cancelled; without one the request fails with `NoActiveStream`.
    pub fn request_cancel(&mut self) -> (r: Result<(), SessionError>)
        ensures
            (final(self)@, r) == cancel_spec(old(self)@),
    {
        match self.cancel {
            CancelSlot::Armed(id) => {
                self.cancel = CancelSlot::Cancelled(id);
                Ok(())
            },
            _ => Err(SessionError::NoActiveStream),
        }
    }

    /// A copy of the current generation context.
    pub fn current_context(&self) -> (r: Option<Vec<u8>>)
        ensures
            opt_bytes_view(r) == self@.context,
    {
        match &self.context {
            Some(b) => Some(b.clone()),
            None => None,
        }
    }

    /// The state of the cancellation slot.
    pub fn cancel_slot(&self) -> (r: CancelSlot)
        ensures
            r == self@.cancel,
    {
        self.cancel
    }
}

impl StreamSession {
    /// Starts a session: reads the current context, and arms a fresh cancellation
    /// handle in the shared state, displacing any earlier one.
    pub fn start(shared: &mut SessionState) -> (r: (StreamSession, Option<Vec<u8>>))
        ensures
            r.0.id == old(shared)@.next_id,
            r.0.phase == Phase::Starting,
            opt_bytes_view(r.1) == old(shared)@.context,
            final(shared)@ == (SharedView {
                cancel: CancelSlot::Armed(r.0.id),
                next_id: if old(shared)@.next_id < u64::MAX { (old(shared)@.next_id + 1) as u64 } else { 0 },
                ..old(shared)@
            }),
    {
        let id = shared.next_id;
        let ctx = shared.current_context();
        shared.cancel = CancelSlot::Armed(id);
        shared.next_id = if id < u64::MAX { id + 1 } else { 0 };
        (StreamSession { id, phase: Phase::Starting }, ctx)
    }

    /// Runs decoded events against the shared context, as `run_events` says.
    fn run_chunk(shared: &mut SessionState, evs: Vec<DecodedEvent>) -> (r: (Vec<Notice>, bool))
        ensures
            (notices_view(r.0@), final(shared)@.context, r.1) == run_events(events_view(evs@), old(shared)@.context),
            final(shared)@.cancel == old(shared)@.cancel,
            final(shared)@.next_id == old(shared)@.next_id,
    {
        let ghost all = events_view(evs@);
        let ghost ctx0 = shared@.context;
        let mut out: Vec<Notice> = Vec::new();
        let mut done = false;
        let mut i: usize = 0;
        let n = evs.len();
        proof {
            assert(all.skip(0) =~= all);
            assert(notices_view(out@) + run_events(all, ctx0).0 =~= run_events(all, ctx0).0);
        }
        while i < n && !done
            invariant
                n == evs@.len(),
                all == events_view(evs@),
                i <= n,
                shared@.cancel == old(shared)@.cancel,
                shared@.next_id == old(shared)@.next_id,
                !done ==> run_events(all, ctx0) == ({
                    let rest = run_events(all.skip(i as int), shared@.context);
                    (notices_view(out@) + rest.0, rest.1, rest.2)
                }),
                done ==> run_events(all, ctx0) == (notices_view(out@), shared@.context, true),
            decreases n - i,
        {
            let ghost rest_before = all.skip(i as int);
            proof {
                assert(rest_before.drop_first() =~= all.skip(i as int + 1));
                assert(rest_before[0] == evs@[i as int]@);
            }
            match &evs[i] {
                DecodedEvent::Token(t) => {
                    let ghost before = notices_view(out@);
                    out.push(Notice::Token(t.clone()));
                    proof {
                        assert(notices_view(out@) =~= before + seq![NoticeView::Token(t@)]);
                        let rest = run_events(all.skip(i as int + 1), shared@.context);
                        assert(before + (seq![NoticeView::Token(t@)] + rest.0) =~= notices_view(out@) + rest.0);
                    }
                },
                DecodedEvent::ContextUpdate(b) => {
                    shared.context = Some(b.clone());
                },
                DecodedEvent::Complete => {
                    let ghost before = notices_view(out@);
                    out.push(Notice::Completion);
                    proof {
                        assert(notices_view(out@) =~= before + seq![NoticeView::Completion]);
                    }
                    done = true;
                },
                DecodedEvent::Unparseable(l) => {
                    let ghost before = notices_view(out@);
                    out.push(Notice::Diagnostic(l.clone()));
                    proof {
                        assert(notices_view(out@) =~= before + seq![NoticeView::Diagnostic(l@)]);
                        let rest = run_events(all.skip(i as int + 1), shared@.context);
                        assert(before + (seq![NoticeView::Diagnostic(l@)] + rest.0) =~= notices_view(out@) + rest.0);
                    }
                },
            }
            i = i + 1;
        }
        proof {
            if !done {
                assert(all.skip(n as int).len() == 0);
                assert(notices_view(out@) + seq![] =~= notices_view(out@));
            }
        }
        (out, done)
    }

    /// Ends the session in a terminal phase and unsets the cancellation slot.
    fn finish(&mut self, shared: &mut SessionState, phase: Phase)
        ensures
            *final(self) == (StreamSession { phase, ..*old(self) }),
            final(shared)@ == released(old(shared)@),
    {
        self.phase = phase;
        shared.cancel = CancelSlot::Unset;
    }

    /// One step of the controller, as `step_spec` says.
    pub fn step(&mut self, shared: &mut SessionState, ev: StreamEvent) -> (r: Vec<Notice>)
        ensures
            (*final(self), final(shared)@, notices_view(r@)) == step_spec(*old(self), old(shared)@, ev@),
    {
        let mut out: Vec<Notice> = Vec::new();
        match self.phase {
            Phase::Starting => match ev {
                StreamEvent::Opened => {
                    self.phase = Phase::Streaming;
                },
                StreamEvent::OpenFailed(m) => {
                    self.finish(shared, Phase::Failed);
                    out.push(Notice::Error(m));
                },
                _ => {},
            },
            Phase::Streaming => {
                let cancelled = match shared.cancel {
                    CancelSlot::Cancelled(id) => id == self.id,
                    _ => false,
                };
                if cancelled || matches!(ev, StreamEvent::CancelFired) {
                    self.finish(shared, Phase::Cancelled);
                    out.push(Notice::Cancelled);
                } else {
                    match ev {
                        StreamEvent::Chunk(b) => {
                            let evs = decode_chunk(b.as_slice());
                            let (notes, completed) = Self::run_chunk(shared, evs);
                            out = notes;
                            if completed {
                                self.finish(shared, Phase::Completed);
                            }
                        },
                        StreamEvent::TransportError(m) => {
                            self.finish(shared, Phase::Failed);
                            out.push(Notice::Error(m));
                        },
                        StreamEvent::EndOfStream => {
                            self.finish(shared, Phase::Completed);
                        },
                        _ => {},
                    }
                }
            },
            _ => {},
        }
        proof {
            assert(notices_view(out@) =~= step_spec(*old(self), old(shared)@, ev@).2);
        }
        out
    }
}

} // verus!
