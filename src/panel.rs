//! The decisions of the control panel: what each tick, edit and setpoint
//! request does to the panel's state, and which exchange with the device it
//! asks for. Performing the exchange is left to the caller.
use vstd::prelude::*;
use crate::frame::Status;
use crate::command::{Target, TargetKind, command_text, kind_of, renderable, set_command};

verus! {

/// Visual style of a panel button.
#[derive(Clone, Copy, Debug, PartialEq, Eq, Structural)]
pub enum Button {
    Primary,
    Secondary,
    Destructive,
}

/// An event delivered to the panel.
#[derive(Clone, Debug)]
pub enum Message {
    /// Write a setpoint to a channel.
    SetTarget(u64, Target),
    /// The text of a setpoint field was edited; the target is the parsed
    /// value, if the text parses.
    SetInput(u64, Option<Target>, String),
    /// A polling tick (`None`), or the outcome of a refresh (`Some`).
    Tick(Option<Status>),
}

/// The exchange with the device that the panel asks for.
#[derive(Clone, Debug)]
pub enum Action {
    Nothing,
    /// Read a fresh status report.
    Refresh,
    /// Write this command line, then read a fresh status report.
    SetThenRefresh(Vec<u8>),
}

/// State of the panel: whether a device is attached, the last status
/// received, and the text of the four setpoint fields.
#[derive(Clone, Debug)]
pub struct Panel {
    pub connected: bool,
    pub status: Option<Status>,
    pub vset1: String,
    pub vset2: String,
    pub iset1: String,
    pub iset2: String,
}

/// What `update` asks for on a message: a refresh on each tick and a write
/// followed by a refresh on each setpoint, both only while a device is
/// attached; nothing otherwise.
pub open spec fn action_ok(connected: bool, msg: Message, r: Action) -> bool {
    match msg {
        Message::Tick(None) => if connected {
            r is Refresh
        } else {
            r is Nothing
        },
        Message::SetTarget(ch, t) => if connected {
            r matches Action::SetThenRefresh(c) && c@ == command_text(ch, t)
        } else {
            r is Nothing
        },
        _ => r is Nothing,
    }
}

/// The panel's state after a message.
pub open spec fn next_panel(p: Panel, msg: Message) -> Panel {
    match msg {
        Message::Tick(Some(st)) => Panel { status: Some(st), ..p },
        Message::SetInput(ch, Some(t), val) => if ch == 1 && kind_of(t) == TargetKind::Volt {
            Panel { vset1: val, ..p }
        } else if ch == 2 && kind_of(t) == TargetKind::Volt {
            Panel { vset2: val, ..p }
        } else if ch == 1 && kind_of(t) == TargetKind::Ampere {
            Panel { iset1: val, ..p }
        } else if ch == 2 && kind_of(t) == TargetKind::Ampere {
            Panel { iset2: val, ..p }
        } else {
            p
        },
        _ => p,
    }
}

pub open spec fn message_ok(msg: Message) -> bool {
    match msg {
        Message::SetTarget(_, t) => renderable(t),
        _ => true,
    }
}

impl Panel {
    /// A panel with no status yet and empty setpoint fields.
    pub fn new(connected: bool) -> (r: Panel)
        ensures
            r.connected == connected,
            r.status is None,
            r.vset1@ == Seq::<char>::empty(),
            r.vset2@ == Seq::<char>::empty(),
            r.iset1@ == Seq::<char>::empty(),
            r.iset2@ == Seq::<char>::empty(),
    {
        Panel {
            connected,
            status: None,
            vset1: String::new(),
            vset2: String::new(),
            iset1: String::new(),
            iset2: String::new(),
        }
    }

    /// Applies a message and returns the exchange it asks for.
    pub fn update(&mut self, msg: Message) -> (r: Action)
        requires
            message_ok(msg),
        ensures
            *final(self) == next_panel(*old(self), msg),
            action_ok(old(self).connected, msg, r),
    {
        match msg {
            Message::Tick(None) => if self.connected {
                Action::Refresh
            } else {
                Action::Nothing
            },
            Message::Tick(Some(st)) => {
                self.status = Some(st);
                Action::Nothing
            },
            Message::SetInput(ch, Some(t), val) => {
                match t {
                    Target::Volt(_) => if ch == 1 {
                        self.vset1 = val;
                    } else if ch == 2 {
                        self.vset2 = val;
                    },
                    Target::Ampere(_) => if ch == 1 {
                        self.iset1 = val;
                    } else if ch == 2 {
                        self.iset2 = val;
                    },
                    _ => {},
                }
                Action::Nothing
            },
            Message::SetInput(_, None, _) => Action::Nothing,
            Message::SetTarget(ch, t) => if self.connected {
                Action::SetThenRefresh(set_command(ch, t))
            } else {
                Action::Nothing
            },
        }
    }
}

/// Without a setpoint in between, every polling tick asks for the same
/// exchange and leaves the panel as it was.
pub proof fn lemma_poll_idempotent(p: Panel, r1: Action, r2: Action)
    requires
        action_ok(p.connected, Message::Tick(None), r1),
        action_ok(next_panel(p, Message::Tick(None)).connected, Message::Tick(None), r2),
    ensures
        next_panel(next_panel(p, Message::Tick(None)), Message::Tick(None)) == p,
        (r1 is Refresh) == (r2 is Refresh),
        (r1 is Nothing) == (r2 is Nothing),
{
}

/// Without a device every tick and every setpoint asks for no exchange.
pub proof fn lemma_absent_device(p: Panel, msg: Message, r: Action)
    requires
        !p.connected,
        action_ok(p.connected, msg, r),
    ensures
        r is Nothing,
{
}

/// With a device a setpoint asks for its command line and exactly one
/// refresh after it.
pub proof fn lemma_set_refreshes_once(p: Panel, ch: u64, t: Target, r: Action)
    requires
        p.connected,
        action_ok(p.connected, Message::SetTarget(ch, t), r),
    ensures
        r matches Action::SetThenRefresh(c) && c@ == command_text(ch, t),
{
}

} // verus!
