//! The tray's side of the GUI lifecycle: what it believes about the GUI, and
//! what it does on each user request, message and connection change.
use crate::message::{GuiAction, GuiResponse};
use vstd::prelude::*;

verus! {

/// Capacity of each internal queue between the wire-facing tasks and the
/// tray: a full queue makes the producer wait, it never drops a message.
pub const BRIDGE_CAPACITY: usize = 4;

/// The tray's belief about the GUI's lifecycle.
#[derive(PartialEq, Eq, Structural, Debug, Clone, Copy)]
pub enum GuiState {
    /// No GUI is running.
    Closed,
    /// A GUI was launched and has not reported yet.
    OpenRequested,
    /// The GUI reported that it is up.
    Opened,
    /// The GUI was asked to close and has not reported yet.
    CloseRequested,
}

impl GuiState {
    /// Whether the tray's GUI entry can be used now: not while a request is
    /// on its way.
    pub fn menu_enabled(self) -> (r: bool)
        ensures
            r == (self is Opened || self is Closed),
    {
        match self {
            GuiState::Opened | GuiState::Closed => true,
            GuiState::OpenRequested | GuiState::CloseRequested => false,
        }
    }

    /// Whether the tray's GUI entry shows as ticked: the GUI is, or is about
    /// to be, open.
    pub fn menu_checked(self) -> (r: bool)
        ensures
            r == (self is Opened || self is OpenRequested),
    {
        match self {
            GuiState::Opened | GuiState::OpenRequested => true,
            GuiState::Closed | GuiState::CloseRequested => false,
        }
    }
}

/// Something that happened, as the tray sees it.
#[derive(PartialEq, Eq, Structural, Debug, Clone, Copy)]
pub enum TrayEvent {
    /// The user asked for the GUI.
    OpenRequest,
    /// The user asked the GUI to close.
    CloseRequest,
    /// The user used the GUI entry: open when closed, close when open.
    Toggle,
    /// The user asked the whole application to quit.
    QuitRequest,
    /// A GUI connection was accepted; it supersedes the current one.
    Accepted,
    /// A message arrived on the connection of the given generation.
    Received(u64, GuiResponse),
    /// The connection of the given generation ended: end of stream, or a
    /// transport, short-read or decode error. The GUI is taken to have
    /// exited, whether or not it had reported `Opened`.
    ConnectionLost(u64),
    /// An internal queue lost its consumer: the task that owns it stopped.
    BridgeFault,
}

/// Something the tray must do.
#[derive(PartialEq, Eq, Structural, Debug, Clone, Copy)]
pub enum TrayEffect {
    /// Launch a GUI process.
    SpawnGui,
    /// Queue an action for the GUI.
    Send(GuiAction),
    /// Serve the newly accepted connection.
    ServeConnection,
    /// Cancel the current connection's scope and release it.
    DropConnection,
    /// Cancel the root scope: the whole process shuts down.
    CancelRoot,
}

/// The tray's coordinator.
#[derive(PartialEq, Eq, Structural, Debug, Clone, Copy)]
pub struct Coordinator {
    /// What the tray believes about the GUI.
    pub gui: GuiState,
    /// Whether a GUI connection is being served.
    pub connected: bool,
    /// The generation of the latest connection accepted; events of any
    /// other are stale.
    pub generation: u64,
    /// Whether the root scope was cancelled; nothing happens after that.
    pub cancelled: bool,
}

/// The generation that follows `g`.
pub open spec fn next_generation(g: u64) -> u64 {
    if g == u64::MAX {
        0
    } else {
        (g + 1) as u64
    }
}

/// Whether an event of generation `g` concerns the connection being served.
pub open spec fn is_current(c: Coordinator, g: u64) -> bool {
    c.connected && g == c.generation
}

/// Whether the event ends the whole process.
pub open spec fn stops(e: TrayEvent) -> bool {
    e is QuitRequest || e is BridgeFault
}

/// A request to open: a GUI is launched only when none is running.
pub open spec fn open_step(c: Coordinator) -> (Coordinator, Seq<TrayEffect>) {
    if c.gui is Closed {
        (Coordinator { gui: GuiState::OpenRequested, ..c }, seq![TrayEffect::SpawnGui])
    } else {
        (c, seq![])
    }
}

/// A request to close: only an open GUI is asked to close.
pub open spec fn close_step(c: Coordinator) -> (Coordinator, Seq<TrayEffect>) {
    if c.gui is Opened {
        (
            Coordinator { gui: GuiState::CloseRequested, ..c },
            seq![TrayEffect::Send(GuiAction::Close)],
        )
    } else {
        (c, seq![])
    }
}

/// The coordinator after `e`, and what it does about it, in order.
pub open spec fn step(c: Coordinator, e: TrayEvent) -> (Coordinator, Seq<TrayEffect>) {
    if c.cancelled {
        (c, seq![])
    } else {
        match e {
            TrayEvent::OpenRequest => open_step(c),
            TrayEvent::CloseRequest => close_step(c),
            TrayEvent::Toggle => if c.gui is Closed {
                open_step(c)
            } else {
                close_step(c)
            },
            TrayEvent::QuitRequest => (
                Coordinator { cancelled: true, ..c },
                seq![TrayEffect::Send(GuiAction::Quit), TrayEffect::CancelRoot],
            ),
            TrayEvent::BridgeFault => (Coordinator { cancelled: true, ..c }, seq![TrayEffect::CancelRoot]),
            TrayEvent::Accepted => (
                Coordinator { connected: true, generation: next_generation(c.generation), ..c },
                if c.connected {
                    seq![TrayEffect::DropConnection, TrayEffect::ServeConnection]
                } else {
                    seq![TrayEffect::ServeConnection]
                },
            ),
            TrayEvent::Received(g, r) => if !is_current(c, g) {
                (c, seq![])
            } else if r is Opened {
                (Coordinator { gui: GuiState::Opened, ..c }, seq![])
            } else {
                (
                    Coordinator { gui: GuiState::Closed, connected: false, ..c },
                    seq![TrayEffect::DropConnection],
                )
            },
            TrayEvent::ConnectionLost(g) => if !is_current(c, g) {
                (c, seq![])
            } else {
                (
                    Coordinator { gui: GuiState::Closed, connected: false, ..c },
                    seq![TrayEffect::DropConnection],
                )
            },
        }
    }
}

impl Coordinator {
    /// The coordinator at tray startup: no GUI, no connection.
    pub fn new() -> (r: Coordinator)
        ensures
            r.gui == GuiState::Closed,
            !r.connected,
            r.generation == 0,
            !r.cancelled,
    {
        Coordinator { gui: GuiState::Closed, connected: false, generation: 0, cancelled: false }
    }

    fn open(&mut self) -> (r: Vec<TrayEffect>)
        ensures
            (*final(self), r@) == open_step(*old(self)),
    {
        let mut r: Vec<TrayEffect> = Vec::new();
        if self.gui == GuiState::Closed {
            self.gui = GuiState::OpenRequested;
            r.push(TrayEffect::SpawnGui);
        }
        proof {
            assert(r@ =~= open_step(*old(self)).1);
        }
        r
    }

    fn close(&mut self) -> (r: Vec<TrayEffect>)
        ensures
            (*final(self), r@) == close_step(*old(self)),
    {
        let mut r: Vec<TrayEffect> = Vec::new();
        if self.gui == GuiState::Opened {
            self.gui = GuiState::CloseRequested;
            r.push(TrayEffect::Send(GuiAction::Close));
        }
        proof {
            assert(r@ =~= close_step(*old(self)).1);
        }
        r
    }

    /// Applies `e`: updates the coordinator and returns what to do, in order.
    pub fn handle(&mut self, e: TrayEvent) -> (r: Vec<TrayEffect>)
        ensures
            (*final(self), r@) == step(*old(self), e),
    {
        let mut r: Vec<TrayEffect> = Vec::new();
        if self.cancelled {
            proof {
                assert(r@ =~= step(*old(self), e).1);
            }
            return r;
        }
        match e {
            TrayEvent::OpenRequest => {
                return self.open();
            },
            TrayEvent::CloseRequest => {
                return self.close();
            },
            TrayEvent::Toggle => {
                if self.gui == GuiState::Closed {
                    return self.open();
                } else {
                    return self.close();
                }
            },
            TrayEvent::QuitRequest => {
                self.cancelled = true;
                r.push(TrayEffect::Send(GuiAction::Quit));
                r.push(TrayEffect::CancelRoot);
            },
            TrayEvent::BridgeFault => {
                self.cancelled = true;
                r.push(TrayEffect::CancelRoot);
            },
            TrayEvent::Accepted => {
                if self.connected {
                    r.push(TrayEffect::DropConnection);
                }
                self.connected = true;
                self.generation = if self.generation == u64::MAX {
                    0
                } else {
                    self.generation + 1
                };
                r.push(TrayEffect::ServeConnection);
            },
            TrayEvent::Received(g, response) => {
                if self.connected && g == self.generation {
                    match response {
                        GuiResponse::Opened => {
                            self.gui = GuiState::Opened;
                        },
                        GuiResponse::Closed => {
                            r.push(TrayEffect::DropConnection);
                            self.gui = GuiState::Closed;
                            self.connected = false;
                        },
                    }
                }
            },
            TrayEvent::ConnectionLost(g) => {
                if self.connected && g == self.generation {
                    r.push(TrayEffect::DropConnection);
                    self.gui = GuiState::Closed;
                    self.connected = false;
                }
            },
        }
        proof {
            assert(r@ =~= step(*old(self), e).1);
        }
        r
    }

    /// Whether the GUI entry can be used now.
    pub fn menu_enabled(&self) -> (r: bool)
        ensures
            r == (self.gui is Opened || self.gui is Closed),
    {
        self.gui.menu_enabled()
    }

    /// Whether the GUI entry shows as ticked.
    pub fn menu_checked(&self) -> (r: bool)
        ensures
            r == (self.gui is Opened || self.gui is OpenRequested),
    {
        self.gui.menu_checked()
    }
}

/// The coordinator after each of `es` in turn, and everything it did, in
/// order.
pub open spec fn run(c: Coordinator, es: Seq<TrayEvent>) -> (Coordinator, Seq<TrayEffect>)
    decreases es.len(),
{
    if es.len() == 0 {
        (c, seq![])
    } else {
        let (c1, f1) = step(c, es[0]);
        let (c2, f2) = run(c1, es.drop_first());
        (c2, f1 + f2)
    }
}

/// How many times `fs` cancels the root scope.
pub open spec fn cancel_count(fs: Seq<TrayEffect>) -> nat
    decreases fs.len(),
{
    if fs.len() == 0 {
        0
    } else {
        (if fs[0] is CancelRoot {
            1nat
        } else {
            0nat
        }) + cancel_count(fs.drop_first())
    }
}

proof fn lemma_cancel_count_add(a: Seq<TrayEffect>, b: Seq<TrayEffect>)
    ensures
        cancel_count(a + b) == cancel_count(a) + cancel_count(b),
    decreases a.len(),
{
    if a.len() > 0 {
        assert((a + b).drop_first() =~= a.drop_first() + b);
        lemma_cancel_count_add(a.drop_first(), b);
    } else {
        assert(a + b =~= b);
    }
}

/// One step cancels the root scope once if it is a stopping event on a live
/// coordinator, and never otherwise; after it the coordinator is cancelled
/// exactly when it was before or the event stopped it.
proof fn lemma_step_cancels(c: Coordinator, e: TrayEvent)
    ensures
        cancel_count(step(c, e).1) == (if !c.cancelled && stops(e) {
            1nat
        } else {
            0nat
        }),
        step(c, e).0.cancelled == (c.cancelled || stops(e)),
{
    let fs = step(c, e).1;
    reveal_with_fuel(cancel_count, 3);
    if fs.len() == 1 {
        assert(fs.drop_first() =~= Seq::<TrayEffect>::empty());
    } else if fs.len() == 2 {
        assert(fs.drop_first().drop_first() =~= Seq::<TrayEffect>::empty());
    }
}

/// Over any run, the root scope is cancelled exactly once if the
/// coordinator was live and some event asked to stop (a quit request, or an
/// internal queue that lost its consumer), and never otherwise; a repeated
/// quit request changes nothing.
pub proof fn lemma_cancel_exactly_once(c: Coordinator, es: Seq<TrayEvent>)
    ensures
        cancel_count(run(c, es).1) == (if !c.cancelled && exists|i: int|
            0 <= i < es.len() && stops(#[trigger] es[i]) {
            1nat
        } else {
            0nat
        }),
        run(c, es).0.cancelled == (c.cancelled || exists|i: int|
            0 <= i < es.len() && stops(#[trigger] es[i])),
    decreases es.len(),
{
    if es.len() > 0 {
        let (c1, f1) = step(c, es[0]);
        let rest = es.drop_first();
        lemma_step_cancels(c, es[0]);
        lemma_cancel_exactly_once(c1, rest);
        lemma_cancel_count_add(f1, run(c1, rest).1);
        if exists|i: int| 0 <= i < rest.len() && stops(#[trigger] rest[i]) {
            let i = choose|i: int| 0 <= i < rest.len() && stops(#[trigger] rest[i]);
            assert(stops(es[i + 1]));
        }
        if exists|i: int| 0 <= i < es.len() && stops(#[trigger] es[i]) {
            let i = choose|i: int| 0 <= i < es.len() && stops(#[trigger] es[i]);
            if i > 0 {
                assert(stops(rest[i - 1]));
            }
        }
    }
}

/// A quit request, from any state and however often repeated, cancels the
/// root scope exactly once, and queues `Quit` for the GUI before it does.
pub proof fn lemma_quit_cancels_once(c: Coordinator, before: Seq<TrayEvent>, after: Seq<TrayEvent>)
    requires
        !c.cancelled,
        forall|i: int| 0 <= i < before.len() ==> !stops(#[trigger] before[i]),
    ensures
        cancel_count(run(c, before + seq![TrayEvent::QuitRequest] + after).1) == 1,
        run(c, before + seq![TrayEvent::QuitRequest] + after).0.cancelled,
        step(run(c, before).0, TrayEvent::QuitRequest).1 == seq![
            TrayEffect::Send(GuiAction::Quit),
            TrayEffect::CancelRoot,
        ],
{
    let es = before + seq![TrayEvent::QuitRequest] + after;
    assert(stops(es[before.len() as int]));
    lemma_cancel_exactly_once(c, es);
    lemma_cancel_exactly_once(c, before);
}

/// The open and close cycle: from `Closed`, a request to open launches the
/// GUI and waits in `OpenRequested`; once its connection is accepted,
/// `Opened` on it moves to `Opened`; a request to close queues `Close` and
/// waits in `CloseRequested`; `Closed` on it moves back to `Closed` and
/// releases the connection.
pub proof fn lemma_open_close_cycle(c: Coordinator)
    requires
        !c.cancelled,
        c.gui is Closed,
    ensures
        ({
            let (c1, f1) = step(c, TrayEvent::OpenRequest);
            let (c2, f2) = step(c1, TrayEvent::Accepted);
            let g = c2.generation;
            let (c3, f3) = step(c2, TrayEvent::Received(g, GuiResponse::Opened));
            let (c4, f4) = step(c3, TrayEvent::CloseRequest);
            let (c5, f5) = step(c4, TrayEvent::Received(g, GuiResponse::Closed));
            &&& c1.gui == GuiState::OpenRequested && f1 == seq![TrayEffect::SpawnGui]
            &&& c2.gui == GuiState::OpenRequested && c2.connected
            &&& c3.gui == GuiState::Opened && f3 == Seq::<TrayEffect>::empty()
            &&& c4.gui == GuiState::CloseRequested && f4 == seq![
                TrayEffect::Send(GuiAction::Close),
            ]
            &&& c5.gui == GuiState::Closed && f5 == seq![TrayEffect::DropConnection]
            &&& !c5.connected && !c5.cancelled
        }),
{
}

/// A connection that ends without `Closed`, in whatever state the GUI was,
/// leaves the tray believing it `Closed`, releases the
/// connection, and cancels nothing beyond it. The next connection is then
/// accepted and served as the first was; late events of the lost connection
/// change nothing; and a new GUI can be launched.
pub proof fn lemma_reconnect(c: Coordinator, late: GuiResponse)
    requires
        !c.cancelled,
        c.connected,
    ensures
        ({
            let old_g = c.generation;
            let (c1, f1) = step(c, TrayEvent::ConnectionLost(old_g));
            let (c2, f2) = step(c1, TrayEvent::Accepted);
            let (c3, f3) = step(c2, TrayEvent::Received(old_g, late));
            let (c4, f4) = step(c3, TrayEvent::ConnectionLost(old_g));
            let (c5, f5) = step(c4, TrayEvent::OpenRequest);
            &&& c1.gui == GuiState::Closed && !c1.connected && !c1.cancelled
            &&& f1 == seq![TrayEffect::DropConnection]
            &&& c2.gui == GuiState::Closed && c2.connected && !c2.cancelled
            &&& c2.generation != old_g
            &&& f2 == seq![TrayEffect::ServeConnection]
            &&& c3 == c2 && f3 == Seq::<TrayEffect>::empty()
            &&& c4 == c2 && f4 == Seq::<TrayEffect>::empty()
            &&& c5.gui == GuiState::OpenRequested && f5 == seq![TrayEffect::SpawnGui]
        }),
{
}

/// Losing a connection never cancels the root scope, whatever the state.
pub proof fn lemma_connection_loss_is_local(c: Coordinator, g: u64)
    ensures
        step(c, TrayEvent::ConnectionLost(g)).0.cancelled == c.cancelled,
        cancel_count(step(c, TrayEvent::ConnectionLost(g)).1) == 0,
{
    lemma_step_cancels(c, TrayEvent::ConnectionLost(g));
}

/// On a live coordinator, in any state: the GUI entry launches a GUI when
/// none runs and asks an open one to close, and does nothing while a
/// request is on its way; it never cancels the root scope.
pub proof fn lemma_toggle(c: Coordinator)
    requires
        !c.cancelled,
    ensures
        ({
            let (c1, f1) = step(c, TrayEvent::Toggle);
            &&& c.gui is Closed ==> c1.gui == GuiState::OpenRequested && f1 == seq![
                TrayEffect::SpawnGui,
            ]
            &&& c.gui is Opened ==> c1.gui == GuiState::CloseRequested && f1 == seq![
                TrayEffect::Send(GuiAction::Close),
            ]
            &&& (c.gui is OpenRequested || c.gui is CloseRequested) ==> c1 == c && f1
                == Seq::<TrayEffect>::empty()
            &&& !c1.cancelled && c1.connected == c.connected
        }),
{
}

/// On a live coordinator, in any state, a report on the connection being
/// served sets the belief to what the GUI reports; `Closed` also releases
/// the connection, and the end of the connection counts as `Closed`.
pub proof fn lemma_reports_on_current_connection(c: Coordinator, r: GuiResponse)
    requires
        !c.cancelled,
        c.connected,
    ensures
        ({
            let (c1, f1) = step(c, TrayEvent::Received(c.generation, r));
            &&& r is Opened ==> c1.gui == GuiState::Opened && c1.connected && f1
                == Seq::<TrayEffect>::empty()
            &&& r is Closed ==> c1.gui == GuiState::Closed && !c1.connected && f1 == seq![
                TrayEffect::DropConnection,
            ]
            &&& !c1.cancelled
        }),
        ({
            let (c2, f2) = step(c, TrayEvent::ConnectionLost(c.generation));
            &&& c2.gui == GuiState::Closed && !c2.connected && !c2.cancelled
            &&& f2 == seq![TrayEffect::DropConnection]
        }),
{
}

} // verus!
