//! One client session: frames in, actions out.
//!
//! A session starts `Idle`. Its first text frame is the command to launch;
//! while the launch is under way (`Launching`) further text is held for the
//! process. Once the process runs (`Running`), text frames are forwarded to
//! its input through a [`WriteQueue`], and every line of its output is sent
//! back as a text frame. When its output ends the session is `Ended` and
//! further input is refused. Closing or losing the connection makes it
//! `Closed` for good, and the process is terminated.
use vstd::prelude::*;
use vstd::string::StringExecFns;
use crate::line_pump::LineEvent;
use crate::write_queue::{
    complete_spec, empty_queue, open_spec, opt_str_view, queue_wf, submit_spec, QueueModel,
    WriteQueue,
};

verus! {

/// A frame received from the client.
pub enum Inbound {
    Ping(Vec<u8>),
    Text(String),
    Binary(Vec<u8>),
    Close,
}

/// An error reported to the client.
pub enum SessionError {
    /// The command could not be launched; the reason the system gave.
    Spawn(String),
    /// Input could not be written to the process; the reason the system gave.
    Write(String),
    /// A line of output was not valid text.
    Decode,
    /// Input arrived after the process's output had ended, or for a launch
    /// that failed.
    StaleProcess,
}

/// What the session asks its host to do.
pub enum Action {
    /// Answer a ping with this payload.
    Pong(Vec<u8>),
    /// Send a binary frame.
    Binary(Vec<u8>),
    /// Send a text frame.
    Text(String),
    /// Send an error as a tagged text frame.
    Error(SessionError),
    /// Launch this command, with piped input and output, and report back.
    Spawn(String),
    /// Start reading the output of this process.
    StartPump(u64),
    /// Write this text to the process's input and report back when done.
    Write(String),
    /// Stop this process.
    Terminate(u64),
    /// Close the connection.
    Close,
}

#[derive(Clone, Copy, Debug, PartialEq, Eq, Structural)]
pub enum Phase {
    Idle,
    Launching,
    Running,
    Ended,
    Closed,
}

pub enum FrameModel {
    Ping(Seq<u8>),
    Text(Seq<char>),
    Binary(Seq<u8>),
    Close,
}

pub enum ErrorModel {
    Spawn(Seq<char>),
    Write(Seq<char>),
    Decode,
    StaleProcess,
}

pub enum ActionModel {
    Pong(Seq<u8>),
    Binary(Seq<u8>),
    Text(Seq<char>),
    Error(ErrorModel),
    Spawn(Seq<char>),
    StartPump(u64),
    Write(Seq<char>),
    Terminate(u64),
    Close,
}

/// Everything that can happen to a session.
pub enum EventModel {
    Frame(FrameModel),
    SpawnOk(u64),
    SpawnFailed(Seq<char>),
    Output(Option<Seq<char>>),
    OutputEnd,
    WriteOk,
    WriteFailed(Seq<char>),
    Disconnect,
}

pub struct SessionModel {
    pub phase: Phase,
    /// The session's process, once one was launched.
    pub process: Option<u64>,
    pub writes: QueueModel,
}

impl View for Inbound {
    type V = FrameModel;

    open spec fn view(&self) -> FrameModel {
        match self {
            Inbound::Ping(p) => FrameModel::Ping(p@),
            Inbound::Text(t) => FrameModel::Text(t@),
            Inbound::Binary(b) => FrameModel::Binary(b@),
            Inbound::Close => FrameModel::Close,
        }
    }
}

impl View for SessionError {
    type V = ErrorModel;

    open spec fn view(&self) -> ErrorModel {
        match self {
            SessionError::Spawn(r) => ErrorModel::Spawn(r@),
            SessionError::Write(r) => ErrorModel::Write(r@),
            SessionError::Decode => ErrorModel::Decode,
            SessionError::StaleProcess => ErrorModel::StaleProcess,
        }
    }
}

impl View for Action {
    type V = ActionModel;

    open spec fn view(&self) -> ActionModel {
        match self {
            Action::Pong(p) => ActionModel::Pong(p@),
            Action::Binary(b) => ActionModel::Binary(b@),
            Action::Text(t) => ActionModel::Text(t@),
            Action::Error(e) => ActionModel::Error(e@),
            Action::Spawn(c) => ActionModel::Spawn(c@),
            Action::StartPump(id) => ActionModel::StartPump(*id),
            Action::Write(t) => ActionModel::Write(t@),
            Action::Terminate(id) => ActionModel::Terminate(*id),
            Action::Close => ActionModel::Close,
        }
    }
}

pub open spec fn actions_view(v: Seq<Action>) -> Seq<ActionModel> {
    v.map_values(|a: Action| a@)
}

/// The event that the outcome of a launch is.
pub open spec fn spawn_event(outcome: Result<u64, String>) -> EventModel {
    match outcome {
        Ok(id) => EventModel::SpawnOk(id),
        Err(reason) => EventModel::SpawnFailed(reason@),
    }
}

/// The event that the outcome of a write is.
pub open spec fn write_event(outcome: Result<(), String>) -> EventModel {
    match outcome {
        Ok(()) => EventModel::WriteOk,
        Err(reason) => EventModel::WriteFailed(reason@),
    }
}

pub open spec fn new_session() -> SessionModel {
    SessionModel { phase: Phase::Idle, process: None, writes: empty_queue(false) }
}

/// The states a session can be in: a process exactly while it runs or its
/// output has ended, and writes flowing only once it exists.
pub open spec fn session_wf(s: SessionModel) -> bool {
    match s.phase {
        Phase::Idle => s.process is None && s.writes == empty_queue(false),
        Phase::Launching => s.process is None && !s.writes.open && s.writes.in_flight is None,
        Phase::Running | Phase::Ended => s.process is Some && s.writes.open && queue_wf(
            s.writes,
        ),
        Phase::Closed => true,
    }
}

pub open spec fn write_action(w: Option<Seq<char>>) -> Seq<ActionModel> {
    match w {
        Some(x) => seq![ActionModel::Write(x)],
        None => seq![],
    }
}

/// What closing a session asks for: its process, if any, is terminated.
pub open spec fn teardown(s: SessionModel) -> Seq<ActionModel> {
    match s.process {
        Some(id) => seq![ActionModel::Terminate(id)],
        None => seq![],
    }
}

pub open spec fn step_frame(s: SessionModel, f: FrameModel) -> (SessionModel, Seq<ActionModel>) {
    match f {
        FrameModel::Ping(p) => (s, seq![ActionModel::Pong(p)]),
        FrameModel::Binary(b) => (s, seq![ActionModel::Binary(b)]),
        FrameModel::Close => (
            SessionModel { phase: Phase::Closed, ..s },
            teardown(s).push(ActionModel::Close),
        ),
        FrameModel::Text(t) => match s.phase {
            Phase::Idle => (
                SessionModel { phase: Phase::Launching, ..s },
                seq![ActionModel::Spawn(t)],
            ),
            Phase::Ended => (s, seq![ActionModel::Error(ErrorModel::StaleProcess)]),
            _ => {
                let (q, w) = submit_spec(s.writes, t);
                (SessionModel { writes: q, ..s }, write_action(w))
            },
        },
    }
}

/// The session's answer to one event: its next state and the actions to
/// perform, in order.
pub open spec fn step(s: SessionModel, e: EventModel) -> (SessionModel, Seq<ActionModel>) {
    if s.phase == Phase::Closed {
        match e {
            EventModel::SpawnOk(id) => (s, seq![ActionModel::Terminate(id)]),
            _ => (s, seq![]),
        }
    } else {
        match e {
            EventModel::Frame(f) => step_frame(s, f),
            EventModel::SpawnOk(id) => if s.phase == Phase::Launching {
                let (q, w) = open_spec(s.writes);
                (
                    SessionModel { phase: Phase::Running, process: Some(id), writes: q },
                    seq![ActionModel::StartPump(id)] + write_action(w),
                )
            } else {
                (s, seq![ActionModel::Terminate(id)])
            },
            EventModel::SpawnFailed(r) => if s.phase == Phase::Launching {
                (
                    SessionModel { phase: Phase::Idle, writes: empty_queue(false), ..s },
                    if s.writes.pending.len() > 0 {
                        seq![
                            ActionModel::Error(ErrorModel::Spawn(r)),
                            ActionModel::Error(ErrorModel::StaleProcess),
                        ]
                    } else {
                        seq![ActionModel::Error(ErrorModel::Spawn(r))]
                    },
                )
            } else {
                (s, seq![])
            },
            EventModel::Output(Some(line)) => (s, seq![ActionModel::Text(line)]),
            EventModel::Output(None) => (s, seq![ActionModel::Error(ErrorModel::Decode)]),
            EventModel::OutputEnd => if s.phase == Phase::Running {
                (SessionModel { phase: Phase::Ended, ..s }, seq![])
            } else {
                (s, seq![])
            },
            EventModel::WriteOk => {
                let (q, w) = complete_spec(s.writes);
                (SessionModel { writes: q, ..s }, write_action(w))
            },
            EventModel::WriteFailed(r) => {
                let (q, w) = complete_spec(s.writes);
                (
                    SessionModel { writes: q, ..s },
                    seq![ActionModel::Error(ErrorModel::Write(r))] + write_action(w),
                )
            },
            EventModel::Disconnect => (SessionModel { phase: Phase::Closed, ..s }, teardown(s)),
        }
    }
}

/// Runs a sequence of events from `s`: the final state and all the actions,
/// in order.
pub open spec fn run(s: SessionModel, events: Seq<EventModel>) -> (SessionModel, Seq<ActionModel>)
    decreases events.len(),
{
    if events.len() == 0 {
        (s, seq![])
    } else {
        let (s1, a1) = run(s, events.drop_last());
        let (s2, a2) = step(s1, events.last());
        (s2, a1 + a2)
    }
}

/// Whether a sequence of actions asks to launch a process.
pub open spec fn launches(acts: Seq<ActionModel>) -> bool {
    exists|i: int| 0 <= i < acts.len() && acts[i] is Spawn
}

/// One process per session: every step keeps a session well formed, never
/// replaces or drops the process it holds, asks for a launch only while it
/// holds none and is not already launching one, and stops at once any
/// process that it did not ask for.
pub proof fn lemma_one_process(s: SessionModel, e: EventModel)
    requires
        session_wf(s),
    ensures
        session_wf(step(s, e).0),
        s.process is Some ==> step(s, e).0.process == s.process,
        launches(step(s, e).1) ==> s.phase == Phase::Idle && s.process is None
            && step(s, e).0.phase == Phase::Launching,
        e is SpawnOk && s.phase != Phase::Launching ==> step(s, e).1 == seq![
            ActionModel::Terminate(e->SpawnOk_0),
        ] && step(s, e).0 == s,
{
    let (s2, acts) = step(s, e);
    if launches(acts) {
        let i = choose|i: int| 0 <= i < acts.len() && acts[i] is Spawn;
        assert(acts[i] is Spawn);
    }
}

/// Over any run from a new session, the process that a session once holds
/// stays its process for the rest of the run.
pub proof fn lemma_process_never_replaced(events: Seq<EventModel>, k: int, id: u64)
    requires
        0 <= k <= events.len(),
        run(new_session(), events.take(k)).0.process == Some(id),
    ensures
        run(new_session(), events).0.process == Some(id),
        session_wf(run(new_session(), events).0),
    decreases events.len(),
{
    lemma_run_wf(events);
    if k < events.len() {
        let prev = events.drop_last();
        assert(prev.take(k) =~= events.take(k));
        lemma_process_never_replaced(prev, k, id);
        lemma_one_process(run(new_session(), prev).0, events.last());
    } else {
        assert(events.take(k) =~= events);
    }
}

proof fn lemma_run_wf(events: Seq<EventModel>)
    ensures
        session_wf(run(new_session(), events).0),
    decreases events.len(),
{
    if events.len() > 0 {
        lemma_run_wf(events.drop_last());
        lemma_one_process(run(new_session(), events.drop_last()).0, events.last());
    }
}

/// Leaving a session does not leak its process: closing or losing the
/// connection of a session that holds a process asks for that process to be
/// terminated, and the session then stays closed whatever else arrives.
pub proof fn lemma_disconnect_terminates(s: SessionModel, e: EventModel, id: u64)
    requires
        s.phase != Phase::Closed,
        s.process == Some(id),
        e is Disconnect || e == EventModel::Frame(FrameModel::Close),
    ensures
        step(s, e).1[0] == ActionModel::Terminate(id),
        step(s, e).0.phase == Phase::Closed,
        forall|e2: EventModel| #[trigger] step(step(s, e).0, e2).0 == step(s, e).0,
{
}

/// The text frame that reports an error: a bracketed tag naming the error,
/// which no ordinary line of output is taken to be, then the details.
pub open spec fn error_text_spec(e: ErrorModel) -> Seq<char> {
    match e {
        ErrorModel::Spawn(r) => "[spawn error] "@ + r,
        ErrorModel::Write(r) => "[write error] "@ + r,
        ErrorModel::Decode => "[decode error] output line is not valid UTF-8"@,
        ErrorModel::StaleProcess => "[stale process error] the process is not running"@,
    }
}

impl SessionError {
    /// The text of the frame that reports this error.
    pub fn wire_text(&self) -> (r: String)
        ensures
            r@ == error_text_spec(self@),
    {
        match self {
            SessionError::Spawn(reason) => {
                let mut t = String::from_str("[spawn error] ");
                t.append(reason.as_str());
                t
            },
            SessionError::Write(reason) => {
                let mut t = String::from_str("[write error] ");
                t.append(reason.as_str());
                t
            },
            SessionError::Decode => String::from_str("[decode error] output line is not valid UTF-8"),
            SessionError::StaleProcess => String::from_str(
                "[stale process error] the process is not running",
            ),
        }
    }
}

/// The state of one session.
pub struct Session {
    phase: Phase,
    process: Option<u64>,
    writes: WriteQueue,
}

impl View for Session {
    type V = SessionModel;

    closed spec fn view(&self) -> SessionModel {
        SessionModel { phase: self.phase, process: self.process, writes: self.writes@ }
    }
}

fn single(a: Action) -> (r: Vec<Action>)
    ensures
        actions_view(r@) == seq![a@],
{
    let r = vec![a];
    assert(actions_view(r@) =~= seq![a@]);
    r
}

fn push_action(v: &mut Vec<Action>, a: Action)
    ensures
        actions_view(final(v)@) == actions_view(old(v)@).push(a@),
{
    v.push(a);
    assert(actions_view(v@) =~= actions_view(old(v)@).push(a@));
}

fn push_write(v: &mut Vec<Action>, w: Option<String>)
    ensures
        actions_view(final(v)@) == actions_view(old(v)@) + write_action(opt_str_view(w)),
{
    match w {
        Some(x) => {
            push_action(v, Action::Write(x));
            assert(actions_view(old(v)@).push(ActionModel::Write(x@)) =~= actions_view(old(v)@)
                + write_action(opt_str_view(w)));
        },
        None => {
            assert(actions_view(v@) =~= actions_view(old(v)@) + write_action(opt_str_view(w)));
        },
    }
}

impl Session {
    /// A new session: idle, with no process.
    pub fn new() -> (s: Session)
        ensures
            s@ == new_session(),
    {
        Session { phase: Phase::Idle, process: None, writes: WriteQueue::new(false) }
    }

    pub fn phase(&self) -> (r: Phase)
        ensures
            r == self@.phase,
    {
        self.phase
    }

    /// The session's process, once one was launched.
    pub fn process(&self) -> (r: Option<u64>)
        ensures
            r == self@.process,
    {
        self.process
    }

    /// Whether input is being written to the process.
    pub fn is_writing(&self) -> (r: bool)
        ensures
            r == (self@.writes.in_flight is Some),
    {
        self.writes.is_busy()
    }

    /// Number of input chunks waiting to be written.
    pub fn waiting_input(&self) -> (r: usize)
        ensures
            r == self@.writes.pending.len(),
    {
        self.writes.waiting()
    }

    fn close(&mut self) -> (r: Vec<Action>)
        requires
            old(self)@.phase != Phase::Closed,
        ensures
            final(self)@ == (SessionModel { phase: Phase::Closed, ..old(self)@ }),
            actions_view(r@) == teardown(old(self)@),
    {
        self.phase = Phase::Closed;
        match self.process {
            Some(id) => single(Action::Terminate(id)),
            None => {
                let r: Vec<Action> = Vec::new();
                assert(actions_view(r@) =~= seq![]);
                r
            },
        }
    }

    /// A frame arrived from the client.
    pub fn on_frame(&mut self, f: Inbound) -> (r: Vec<Action>)
        ensures
            (final(self)@, actions_view(r@)) == step(old(self)@, EventModel::Frame(f@)),
    {
        if self.phase == Phase::Closed {
            let r: Vec<Action> = Vec::new();
            assert(actions_view(r@) =~= seq![]);
            return r;
        }
        match f {
            Inbound::Ping(p) => single(Action::Pong(p)),
            Inbound::Binary(b) => single(Action::Binary(b)),
            Inbound::Close => {
                let mut r = self.close();
                push_action(&mut r, Action::Close);
                r
            },
            Inbound::Text(t) => {
                if self.phase == Phase::Idle {
                    self.phase = Phase::Launching;
                    single(Action::Spawn(t))
                } else if self.phase == Phase::Ended {
                    single(Action::Error(SessionError::StaleProcess))
                } else {
                    let w = self.writes.submit(t);
                    let mut r: Vec<Action> = Vec::new();
                    push_write(&mut r, w);
                    assert(actions_view(r@) =~= write_action(opt_str_view(w)));
                    r
                }
            },
        }
    }

    /// The launch asked for by a `Spawn` action finished: `Ok` with the
    /// process's identity, or `Err` with the reason it failed.
    pub fn on_spawned(&mut self, outcome: Result<u64, String>) -> (r: Vec<Action>)
        ensures
            (final(self)@, actions_view(r@)) == step(old(self)@, spawn_event(outcome)),
    {
        match outcome {
            Ok(id) => {
                if self.phase != Phase::Launching {
                    return single(Action::Terminate(id));
                }
                self.phase = Phase::Running;
                self.process = Some(id);
                let w = self.writes.open();
                let mut r = single(Action::StartPump(id));
                push_write(&mut r, w);
                r
            },
            Err(reason) => {
                if self.phase != Phase::Launching {
                    let r: Vec<Action> = Vec::new();
                    assert(actions_view(r@) =~= seq![]);
                    return r;
                }
                let held = self.writes.waiting();
                self.phase = Phase::Idle;
                self.writes = WriteQueue::new(false);
                let mut r = single(Action::Error(SessionError::Spawn(reason)));
                if held > 0 {
                    push_action(&mut r, Action::Error(SessionError::StaleProcess));
                    assert(actions_view(r@) =~= seq![
                        ActionModel::Error(ErrorModel::Spawn(reason@)),
                        ActionModel::Error(ErrorModel::StaleProcess),
                    ]);
                }
                r
            },
        }
    }

    /// A line of the process's output was read.
    pub fn on_output(&mut self, line: LineEvent) -> (r: Vec<Action>)
        ensures
            (final(self)@, actions_view(r@)) == step(old(self)@, EventModel::Output(line@)),
    {
        if self.phase == Phase::Closed {
            let r: Vec<Action> = Vec::new();
            assert(actions_view(r@) =~= seq![]);
            return r;
        }
        match line {
            LineEvent::Line(text) => single(Action::Text(text)),
            LineEvent::Invalid => single(Action::Error(SessionError::Decode)),
        }
    }

    /// The process's output ended.
    pub fn on_output_end(&mut self) -> (r: Vec<Action>)
        ensures
            (final(self)@, actions_view(r@)) == step(old(self)@, EventModel::OutputEnd),
    {
        if self.phase == Phase::Running {
            self.phase = Phase::Ended;
        }
        let r: Vec<Action> = Vec::new();
        assert(actions_view(r@) =~= seq![]);
        r
    }

    /// The write asked for by the last `Write` action finished: `Ok`, or
    /// `Err` with the reason it failed.
    pub fn on_write_done(&mut self, outcome: Result<(), String>) -> (r: Vec<Action>)
        ensures
            (final(self)@, actions_view(r@)) == step(old(self)@, write_event(outcome)),
    {
        let mut r: Vec<Action> = Vec::new();
        assert(actions_view(r@) =~= seq![]);
        if self.phase == Phase::Closed {
            return r;
        }
        if let Err(reason) = outcome {
            push_action(&mut r, Action::Error(SessionError::Write(reason)));
        }
        let w = self.writes.complete();
        push_write(&mut r, w);
        r
    }

    /// The connection is gone.
    pub fn on_disconnect(&mut self) -> (r: Vec<Action>)
        ensures
            (final(self)@, actions_view(r@)) == step(old(self)@, EventModel::Disconnect),
    {
        if self.phase == Phase::Closed {
            let r: Vec<Action> = Vec::new();
            assert(actions_view(r@) =~= seq![]);
            return r;
        }
        self.close()
    }
}

} // verus!
