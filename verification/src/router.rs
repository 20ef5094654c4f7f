//! Event routing: one step function that reconciles the three input
//! channels — editor notifications, the periodic timer, and the presence
//! channel's health signal — into session mutations and outbound actions.
//!
//! The router owns the session state.  Each step consumes exactly one ready
//! message and says what the surrounding loop must do next: nothing, emit a
//! snapshot, reconnect the presence channel, or exit.

use vstd::prelude::*;
use crate::session::DiscordData;
use crate::session::DiscordView;
use crate::session::SessionState;
use crate::session::SessionView;
use crate::session::construct_data;
use crate::session::record_change_spec;
use crate::session::record_open_spec;
use crate::session::snapshot_spec;
use crate::text::str_eq;

verus! {

/// A decoded editor notification, as the reader task hands it over.
pub enum NvimMessage {
    NvimError(String),
    FileOpened { filename: String },
    FileChanged { filename: String, contents: String },
    Shutdown,
}

/// The periodic timer's message.
pub enum ClockMessage {
    Update,
}

/// What the presence channel's driver consumes: a snapshot to deliver, or
/// the transport error it reported back.
pub enum DiscordMessage {
    DiscordError(String),
    StateUpdate(DiscordData),
}

/// One ready message from any of the router's three sources.
pub enum RouterEvent {
    Editor(NvimMessage),
    Clock(ClockMessage),
    SinkError(String),
}

/// What the router asks its surrounding loop to do after a step.
pub enum RouterAction {
    Ignored,
    Emit(DiscordData),
    Reconnect,
    Exit,
}

/// The router's lifecycle: normal operation, then draining once a shutdown
/// was requested.
pub enum RouterPhase {
    Running,
    Draining,
}

/// The coordination state: the session table and the lifecycle phase.
pub struct EventRouter {
    pub state: SessionState,
    pub phase: RouterPhase,
}

#[verifier::ext_equal]
pub struct RouterView {
    pub session: SessionView,
    pub draining: bool,
}

impl View for EventRouter {
    type V = RouterView;

    open spec fn view(&self) -> RouterView {
        RouterView { session: self.state@, draining: self.phase is Draining }
    }
}

/// An event, reduced to the values the transition depends on.
pub enum EventView {
    Opened(Seq<char>),
    Changed(Seq<char>, Seq<char>),
    Malformed(Seq<char>),
    Shutdown,
    Tick,
    SinkError(Seq<char>),
}

/// An action, reduced to the values it carries.
pub enum ActionView {
    Ignored,
    Emit(DiscordView),
    Reconnect,
    Exit,
}

pub open spec fn event_view(e: RouterEvent) -> EventView {
    match e {
        RouterEvent::Editor(NvimMessage::NvimError(s)) => EventView::Malformed(s@),
        RouterEvent::Editor(NvimMessage::FileOpened { filename }) => EventView::Opened(filename@),
        RouterEvent::Editor(NvimMessage::FileChanged { filename, contents }) => EventView::Changed(
            filename@,
            contents@,
        ),
        RouterEvent::Editor(NvimMessage::Shutdown) => EventView::Shutdown,
        RouterEvent::Clock(ClockMessage::Update) => EventView::Tick,
        RouterEvent::SinkError(s) => EventView::SinkError(s@),
    }
}

pub open spec fn action_view(a: RouterAction) -> ActionView {
    match a {
        RouterAction::Ignored => ActionView::Ignored,
        RouterAction::Emit(d) => ActionView::Emit(d@),
        RouterAction::Reconnect => ActionView::Reconnect,
        RouterAction::Exit => ActionView::Exit,
    }
}

/// The router's transition: what one ready message does to the state and
/// which action it triggers.  While draining, nothing is processed any
/// more.  Open and change events mutate the session and emit nothing; a
/// malformed notification is dropped; a shutdown request turns to draining
/// and exits; a timer tick emits one snapshot of the current session and
/// changes nothing; a presence transport error asks for a reconnect and
/// leaves the session untouched.
pub open spec fn step_spec(m: RouterView, e: EventView) -> (RouterView, ActionView) {
    if m.draining {
        (m, ActionView::Ignored)
    } else {
        match e {
            EventView::Opened(f) => (
                RouterView { session: record_open_spec(m.session, f), ..m },
                ActionView::Ignored,
            ),
            EventView::Changed(f, c) => (
                RouterView { session: record_change_spec(m.session, f, c), ..m },
                ActionView::Ignored,
            ),
            EventView::Malformed(_) => (m, ActionView::Ignored),
            EventView::Shutdown => (RouterView { draining: true, ..m }, ActionView::Exit),
            EventView::Tick => (m, ActionView::Emit(snapshot_spec(m.session))),
            EventView::SinkError(_) => (m, ActionView::Reconnect),
        }
    }
}

impl EventRouter {
    pub open spec fn wf(&self) -> bool {
        self.state.wf()
    }

    /// A router in normal operation, owning the given session.
    pub fn new(state: SessionState) -> (r: EventRouter)
        ensures
            r@.session == state@,
            !r@.draining,
            state.wf() ==> r.wf(),
    {
        EventRouter { state, phase: RouterPhase::Running }
    }

    /// Processes exactly one ready message, as `step_spec` states.
    pub fn step(&mut self, event: RouterEvent) -> (a: RouterAction)
        ensures
            final(self)@ == step_spec(old(self)@, event_view(event)).0,
            action_view(a) == step_spec(old(self)@, event_view(event)).1,
            old(self).wf() ==> final(self).wf(),
    {
        match self.phase {
            RouterPhase::Draining => RouterAction::Ignored,
            RouterPhase::Running => match event {
                RouterEvent::Editor(NvimMessage::NvimError(_diagnostic)) => RouterAction::Ignored,
                RouterEvent::Editor(NvimMessage::FileOpened { filename }) => {
                    self.state.record_open(filename);
                    RouterAction::Ignored
                },
                RouterEvent::Editor(NvimMessage::FileChanged { filename, contents }) => {
                    self.state.record_change(filename, contents);
                    RouterAction::Ignored
                },
                RouterEvent::Editor(NvimMessage::Shutdown) => {
                    self.phase = RouterPhase::Draining;
                    RouterAction::Exit
                },
                RouterEvent::Clock(ClockMessage::Update) => {
                    RouterAction::Emit(construct_data(&self.state))
                },
                RouterEvent::SinkError(_diagnostic) => RouterAction::Reconnect,
            },
        }
    }
}

/// The snapshots one action contributes to a run's output.
pub open spec fn emitted(a: ActionView) -> Seq<DiscordView> {
    match a {
        ActionView::Emit(d) => seq![d],
        _ => Seq::empty(),
    }
}

/// The run of the router over a sequence of ready messages: the final state
/// and the snapshots emitted along the way, in order.
pub open spec fn run_spec(m: RouterView, es: Seq<EventView>) -> (RouterView, Seq<DiscordView>)
    decreases es.len(),
{
    if es.len() == 0 {
        (m, Seq::empty())
    } else {
        let s = step_spec(m, es[0]);
        let r = run_spec(s.0, es.skip(1));
        (r.0, emitted(s.1) + r.1)
    }
}

/// Law: a burst of change events emits no snapshot at all, and the one
/// timer tick after the burst emits exactly one snapshot, computed from the
/// session that already holds every change of the burst.
pub proof fn lemma_burst_then_tick(m: RouterView, es: Seq<EventView>)
    requires
        !m.draining,
        forall|i: int| 0 <= i < es.len() ==> es[i] is Changed,
    ensures
        run_spec(m, es).1 == Seq::<DiscordView>::empty(),
        !run_spec(m, es).0.draining,
        run_spec(m, es.push(EventView::Tick)).1 == seq![
            snapshot_spec(run_spec(m, es).0.session),
        ],
    decreases es.len(),
{
    let with_tick = es.push(EventView::Tick);
    if es.len() == 0 {
        assert(with_tick[0] == EventView::Tick);
        assert(with_tick.skip(1) =~= Seq::<EventView>::empty());
        assert(seq![snapshot_spec(m.session)] + Seq::<DiscordView>::empty() =~= seq![
            snapshot_spec(m.session),
        ]);
        assert(run_spec(m, with_tick.skip(1)) == (m, Seq::<DiscordView>::empty()));
        assert(step_spec(m, with_tick[0]).1 == ActionView::Emit(snapshot_spec(m.session)));
        assert(run_spec(m, with_tick).1 =~= seq![snapshot_spec(m.session)]);
    } else {
        assert(es[0] is Changed);
        let s = step_spec(m, es[0]);
        assert forall|i: int| 0 <= i < es.skip(1).len() implies es.skip(1)[i] is Changed by {
            assert(es.skip(1)[i] == es[i + 1]);
        }
        lemma_burst_then_tick(s.0, es.skip(1));
        assert(with_tick[0] == es[0]);
        assert(with_tick.skip(1) =~= es.skip(1).push(EventView::Tick));
        assert(emitted(s.1) =~= Seq::<DiscordView>::empty());
        assert(run_spec(m, es).1 =~= Seq::<DiscordView>::empty());
        assert(run_spec(m, with_tick).1 =~= seq![snapshot_spec(run_spec(m, es).0.session)]);
    }
}

/// Law: a presence transport failure asks for a reconnect and disturbs
/// nothing else — the session keeps its contents, and a following run of
/// events ends in the same state and emits the same snapshots as if the
/// failure had never happened.
pub proof fn lemma_sink_error_isolated(m: RouterView, err: Seq<char>, es: Seq<EventView>)
    requires
        !m.draining,
    ensures
        step_spec(m, EventView::SinkError(err)).0 == m,
        step_spec(m, EventView::SinkError(err)).1 == ActionView::Reconnect,
        run_spec(m, seq![EventView::SinkError(err)] + es).0 == run_spec(m, es).0,
        run_spec(m, seq![EventView::SinkError(err)] + es).1 == run_spec(m, es).1,
{
    let evs = seq![EventView::SinkError(err)] + es;
    assert(evs[0] == EventView::SinkError(err));
    assert(evs.skip(1) =~= es);
    assert(run_spec(m, evs).1 =~= run_spec(m, es).1);
}

/// The kind of an editor message, by its method name.
pub enum MethodKind {
    Initialize,
    DidOpen,
    DidChange,
    Shutdown,
    Other,
}

pub open spec fn spec_method_kind(m: Seq<char>) -> MethodKind {
    if m == "initialize"@ {
        MethodKind::Initialize
    } else if m == "textDocument/didOpen"@ {
        MethodKind::DidOpen
    } else if m == "textDocument/didChange"@ {
        MethodKind::DidChange
    } else if m == "shutdown"@ {
        MethodKind::Shutdown
    } else {
        MethodKind::Other
    }
}

/// The transient editor buffers whose open notifications are ignored: they
/// belong to completion and picker windows, not to files being edited.
pub open spec fn spec_blacklisted(language_id: Seq<char>) -> bool {
    ||| language_id == "cmp_docs"@
    ||| language_id == "TelescopeResults"@
    ||| language_id == "TelescopePrompt"@
    ||| language_id == "cmp_menu"@
}

/// Whether an opened buffer's language identifier marks a transient buffer
/// that the tracker ignores.
pub fn is_blacklisted(language_id: &str) -> (r: bool)
    ensures
        r == spec_blacklisted(language_id@),
{
    str_eq(language_id, "cmp_docs") || str_eq(language_id, "TelescopeResults") || str_eq(
        language_id,
        "TelescopePrompt",
    ) || str_eq(language_id, "cmp_menu")
}

/// Sorts a message's method name into the kinds the router's surroundings
/// dispatch on.
pub fn method_kind(method: &str) -> (k: MethodKind)
    ensures
        k == spec_method_kind(method@),
{
    if str_eq(method, "initialize") {
        MethodKind::Initialize
    } else if str_eq(method, "textDocument/didOpen") {
        MethodKind::DidOpen
    } else if str_eq(method, "textDocument/didChange") {
        MethodKind::DidChange
    } else if str_eq(method, "shutdown") {
        MethodKind::Shutdown
    } else {
        MethodKind::Other
    }
}

} // verus!
