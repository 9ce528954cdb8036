//! The GUI's side of the connection: it announces itself once, closes when
//! the tray asks, and reports its exit once, last.
use crate::message::{GuiAction, GuiResponse};
use vstd::prelude::*;

verus! {

/// Something that happened, as the GUI sees it.
#[derive(PartialEq, Eq, Structural, Debug, Clone, Copy)]
pub enum ClientEvent {
    /// The back-channel to the tray is up.
    Connected,
    /// An action arrived from the tray.
    Action(GuiAction),
    /// The GUI is about to exit, whatever the reason.
    Exiting,
}

/// Something the GUI must do.
#[derive(PartialEq, Eq, Structural, Debug, Clone, Copy)]
pub enum ClientEffect {
    /// Write this message to the tray.
    Send(GuiResponse),
    /// Begin the local shutdown: close the window.
    CloseWindow,
}

/// The GUI's connection state.
#[derive(PartialEq, Eq, Structural, Debug, Clone, Copy)]
pub struct GuiClient {
    /// `Opened` was sent.
    pub opened_sent: bool,
    /// The local shutdown began.
    pub closing: bool,
    /// `Closed` was sent: nothing more is.
    pub closed_sent: bool,
}

/// The client after `e`, and what it does about it, in order.
pub open spec fn client_step(c: GuiClient, e: ClientEvent) -> (GuiClient, Seq<ClientEffect>) {
    match e {
        ClientEvent::Connected => if !c.opened_sent && !c.closed_sent {
            (GuiClient { opened_sent: true, ..c }, seq![ClientEffect::Send(GuiResponse::Opened)])
        } else {
            (c, seq![])
        },
        ClientEvent::Action(_) => if !c.closing {
            (GuiClient { closing: true, ..c }, seq![ClientEffect::CloseWindow])
        } else {
            (c, seq![])
        },
        ClientEvent::Exiting => if !c.closed_sent {
            (
                GuiClient { closing: true, closed_sent: true, ..c },
                seq![ClientEffect::Send(GuiResponse::Closed)],
            )
        } else {
            (c, seq![])
        },
    }
}

impl GuiClient {
    /// A GUI that has not connected yet.
    pub fn new() -> (r: GuiClient)
        ensures
            !r.opened_sent,
            !r.closing,
            !r.closed_sent,
    {
        GuiClient { opened_sent: false, closing: false, closed_sent: false }
    }

    /// Whether actions from the tray are still read: not once the local
    /// shutdown began.
    pub fn should_read(&self) -> (r: bool)
        ensures
            r == !self.closing,
    {
        !self.closing
    }

    /// Applies `e`: updates the client and returns what to do, in order.
    pub fn handle(&mut self, e: ClientEvent) -> (r: Vec<ClientEffect>)
        ensures
            (*final(self), r@) == client_step(*old(self), e),
    {
        let mut r: Vec<ClientEffect> = Vec::new();
        match e {
            ClientEvent::Connected => {
                if !self.opened_sent && !self.closed_sent {
                    self.opened_sent = true;
                    r.push(ClientEffect::Send(GuiResponse::Opened));
                }
            },
            ClientEvent::Action(_) => {
                if !self.closing {
                    self.closing = true;
                    r.push(ClientEffect::CloseWindow);
                }
            },
            ClientEvent::Exiting => {
                if !self.closed_sent {
                    self.closing = true;
                    self.closed_sent = true;
                    r.push(ClientEffect::Send(GuiResponse::Closed));
                }
            },
        }
        proof {
            assert(r@ =~= client_step(*old(self), e).1);
        }
        r
    }
}

/// The client after each of `es` in turn, and everything it did, in order.
pub open spec fn client_run(c: GuiClient, es: Seq<ClientEvent>) -> (GuiClient, Seq<ClientEffect>)
    decreases es.len(),
{
    if es.len() == 0 {
        (c, seq![])
    } else {
        let (c1, f1) = client_step(c, es[0]);
        let (c2, f2) = client_run(c1, es.drop_first());
        (c2, f1 + f2)
    }
}

/// The messages among `fs`, in order.
pub open spec fn sent(fs: Seq<ClientEffect>) -> Seq<GuiResponse>
    decreases fs.len(),
{
    if fs.len() == 0 {
        seq![]
    } else {
        (match fs[0] {
            ClientEffect::Send(m) => seq![m],
            ClientEffect::CloseWindow => seq![],
        }) + sent(fs.drop_first())
    }
}

/// What a client in state `c` may still send over the rest of its life.
pub open spec fn may_still_send(c: GuiClient, s: Seq<GuiResponse>) -> bool {
    if c.closed_sent {
        s == Seq::<GuiResponse>::empty()
    } else if c.opened_sent {
        s == Seq::<GuiResponse>::empty() || s == seq![GuiResponse::Closed]
    } else {
        s == Seq::<GuiResponse>::empty() || s == seq![GuiResponse::Opened] || s == seq![
            GuiResponse::Closed,
        ] || s == seq![GuiResponse::Opened, GuiResponse::Closed]
    }
}

proof fn lemma_sent_add(a: Seq<ClientEffect>, b: Seq<ClientEffect>)
    ensures
        sent(a + b) == sent(a) + sent(b),
    decreases a.len(),
{
    if a.len() > 0 {
        assert((a + b).drop_first() =~= a.drop_first() + b);
        lemma_sent_add(a.drop_first(), b);
        assert((a + b)[0] == a[0]);
        assert(sent(a + b) =~= sent(a) + sent(b));
    } else {
        assert(a + b =~= b);
        assert(sent(a) + sent(b) =~= sent(b));
    }
}

/// From any state, the rest of a run sends only what that state still
/// allows.
pub proof fn lemma_client_sends_in_order(c: GuiClient, es: Seq<ClientEvent>)
    ensures
        may_still_send(c, sent(client_run(c, es).1)),
    decreases es.len(),
{
    if es.len() > 0 {
        let (c1, f1) = client_step(c, es[0]);
        let rest = client_run(c1, es.drop_first()).1;
        lemma_client_sends_in_order(c1, es.drop_first());
        lemma_sent_add(f1, rest);
        reveal_with_fuel(sent, 2);
        if f1.len() == 1 {
            assert(f1.drop_first() =~= Seq::<ClientEffect>::empty());
        }
        let s = sent(rest);
        if sent(f1).len() == 0 {
            assert(sent(f1) + s =~= s);
        } else {
            assert(sent(f1) + s =~= seq![sent(f1)[0]] + s);
            assert(seq![GuiResponse::Opened] + Seq::<GuiResponse>::empty() =~= seq![
                GuiResponse::Opened,
            ]);
            assert(seq![GuiResponse::Closed] + Seq::<GuiResponse>::empty() =~= seq![
                GuiResponse::Closed,
            ]);
            assert(seq![GuiResponse::Opened] + seq![GuiResponse::Closed] =~= seq![
                GuiResponse::Opened,
                GuiResponse::Closed,
            ]);
        }
    } else {
        assert(sent(Seq::<ClientEffect>::empty()) =~= Seq::<GuiResponse>::empty());
    }
}

/// Over its whole life, whatever happens, a GUI sends `Opened` at most once
/// and first, `Closed` at most once and last, and nothing else.
pub proof fn lemma_client_life(es: Seq<ClientEvent>)
    ensures
        ({
            let s = sent(client_run(GuiClient { opened_sent: false, closing: false, closed_sent: false }, es).1);
            ||| s == Seq::<GuiResponse>::empty()
            ||| s == seq![GuiResponse::Opened]
            ||| s == seq![GuiResponse::Closed]
            ||| s == seq![GuiResponse::Opened, GuiResponse::Closed]
        }),
{
    lemma_client_sends_in_order(
        GuiClient { opened_sent: false, closing: false, closed_sent: false },
        es,
    );
}

} // verus!
