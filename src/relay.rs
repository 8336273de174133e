use vstd::prelude::*;

verus! {

/// One end of a relayed connection.
#[derive(Debug, Clone, Copy, PartialEq, Eq, Structural)]
pub enum Side {
    Client,
    Target,
}

/// The other end.
pub open spec fn other(s: Side) -> Side {
    match s {
        Side::Client => Side::Target,
        Side::Target => Side::Client,
    }
}

/// What happened on the relay's connections.
#[derive(Debug, Clone)]
pub enum RelayEvent {
    /// A read from `from` returned these bytes; none at all is end of stream.
    Read { from: Side, bytes: Vec<u8> },
    /// A read from `from` failed.
    ReadFailed { from: Side },
    /// A write failed.
    WriteFailed,
}

/// What the relay does in answer.
#[derive(Debug, Clone)]
pub enum RelayAction {
    /// Write these bytes in full to `to`; when `last` is set, stop after that.
    Forward { to: Side, bytes: Vec<u8>, last: bool },
    /// Stop relaying; both connections are closed.
    Stop,
}

/// The relay's answer to one event while it is open or closed: whether it is
/// open afterwards, and the bytes to write and where, if any.
pub open spec fn relay_step(open: bool, ev: RelayEvent) -> (bool, Option<(Side, Seq<u8>)>) {
    if !open {
        (false, None)
    } else {
        match ev {
            RelayEvent::Read { from, bytes } => (bytes@.len() > 0, Some((other(from), bytes@))),
            _ => (false, None),
        }
    }
}

/// The model of an action: the bytes to write and where, if any.
pub open spec fn action_write(a: RelayAction) -> Option<(Side, Seq<u8>)> {
    match a {
        RelayAction::Forward { to, bytes, .. } => Some((to, bytes@)),
        RelayAction::Stop => None,
    }
}

/// Whether the relay is open after a run of events, starting open or closed.
pub open spec fn open_after(open: bool, events: Seq<RelayEvent>) -> bool
    decreases events.len(),
{
    if events.len() == 0 {
        open
    } else {
        open_after(relay_step(open, events[0]).0, events.drop_first())
    }
}

/// All bytes that a run of events has the relay write to `to`, in order.
pub open spec fn written_to(open: bool, events: Seq<RelayEvent>, to: Side) -> Seq<u8>
    decreases events.len(),
{
    if events.len() == 0 {
        Seq::empty()
    } else {
        let (next, w) = relay_step(open, events[0]);
        let here = match w {
            Some((side, bytes)) => if side == to {
                bytes
            } else {
                Seq::empty()
            },
            None => Seq::empty(),
        };
        here + written_to(next, events.drop_first(), to)
    }
}

/// All bytes read from `from` in a run of events while the relay was open,
/// in order.
pub open spec fn read_from(open: bool, events: Seq<RelayEvent>, from: Side) -> Seq<u8>
    decreases events.len(),
{
    if events.len() == 0 {
        Seq::empty()
    } else {
        let here = match events[0] {
            RelayEvent::Read { from: f, bytes } => if open && f == from {
                bytes@
            } else {
                Seq::empty()
            },
            _ => Seq::empty(),
        };
        here + read_from(relay_step(open, events[0]).0, events.drop_first(), from)
    }
}

/// The decisions of the two-way copy between a client and its target.
pub struct Relay {
    pub open: bool,
}

impl Relay {
    /// A relay that is open.
    pub fn new() -> (r: Relay)
        ensures
            r.open,
    {
        Relay { open: true }
    }

    /// Whether the relay still copies.
    pub fn is_open(&self) -> (r: bool)
        ensures
            r == self.open,
    {
        self.open
    }

    /// Answers one event. While open, bytes read from one side are forwarded
    /// verbatim to the other; an empty read is forwarded and then ends the
    /// relay; a failed read or write ends it at once. Once closed it stays so.
    pub fn on_event(&mut self, ev: RelayEvent) -> (r: RelayAction)
        ensures
            (final(self).open, action_write(r)) == relay_step(old(self).open, ev),
            r matches RelayAction::Forward { last, .. } ==> last == !final(self).open,
    {
        if !self.open {
            return RelayAction::Stop;
        }
        match ev {
            RelayEvent::Read { from, bytes } => {
                let to = match from {
                    Side::Client => Side::Target,
                    Side::Target => Side::Client,
                };
                let last = bytes.len() == 0;
                self.open = !last;
                RelayAction::Forward { to, bytes, last }
            },
            _ => {
                self.open = false;
                RelayAction::Stop
            },
        }
    }
}

/// Whatever the events, and however reads from the two sides interleave, the
/// bytes written to one side are exactly the bytes read from the other, in
/// order and nothing more, up to the event that ends the relay.
pub proof fn lemma_relay_verbatim(open: bool, events: Seq<RelayEvent>, to: Side)
    ensures
        written_to(open, events, to) == read_from(open, events, other(to)),
        written_to(open, events, to).len() == read_from(open, events, other(to)).len(),
    decreases events.len(),
{
    if events.len() > 0 {
        lemma_relay_verbatim(relay_step(open, events[0]).0, events.drop_first(), to);
        match events[0] {
            RelayEvent::Read { from, bytes } => {
                if open {
                    if from == other(to) {
                        assert(other(from) == to);
                    } else {
                        assert(other(from) != to);
                    }
                }
            },
            _ => {},
        }
    }
}

/// An empty read from either side ends the relay at once: it stays closed
/// and writes nothing more, whatever follows.
pub proof fn lemma_end_of_stream_closes(from: Side, ev: RelayEvent, rest: Seq<RelayEvent>, to: Side)
    requires
        ev matches RelayEvent::Read { from: f, bytes } && f == from && bytes@.len() == 0,
    ensures
        !relay_step(true, ev).0,
        !open_after(false, rest),
        written_to(false, rest, to) == Seq::<u8>::empty(),
    decreases rest.len(),
{
    if rest.len() > 0 {
        lemma_end_of_stream_closes(from, ev, rest.drop_first(), to);
    }
}

} // verus!
