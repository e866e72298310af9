//! The one-directional pump of a TCP connection pair. The caller owns the
//! sockets and timers and reduces what happened on the reading side to an
//! event; the pump decides what to do with it and meters the bytes. Data is
//! forwarded byte-exact and in order until the first terminating event:
//! cancellation, end of stream, an idle timeout or an I/O error.

use vstd::prelude::*;

verus! {

/// What the reading side of a pump observed.
#[derive(Debug)]
pub enum PumpEvent {
    /// Cancellation fired.
    Cancelled,
    /// A read returned these bytes.
    Data(Vec<u8>),
    /// The stream ended cleanly.
    Eof,
    /// No data arrived within the idle timeout.
    IdleTimeout,
    /// The read failed.
    ReadError,
    /// The forwarding write failed.
    WriteError,
}

/// Mathematical image of a pump event.
pub enum PumpEventView {
    Cancelled,
    Data(Seq<u8>),
    Eof,
    IdleTimeout,
    ReadError,
    WriteError,
}

impl View for PumpEvent {
    type V = PumpEventView;

    open spec fn view(&self) -> PumpEventView {
        match self {
            PumpEvent::Cancelled => PumpEventView::Cancelled,
            PumpEvent::Data(d) => PumpEventView::Data(d@),
            PumpEvent::Eof => PumpEventView::Eof,
            PumpEvent::IdleTimeout => PumpEventView::IdleTimeout,
            PumpEvent::ReadError => PumpEventView::ReadError,
            PumpEvent::WriteError => PumpEventView::WriteError,
        }
    }
}

/// What the pump asks the caller to do with an event.
#[derive(Debug)]
pub enum PumpAction {
    /// Write exactly these bytes to the other side, in this order.
    Forward(Vec<u8>),
    /// Close this direction; the total moved bytes are final.
    Stop,
}

/// Mathematical image of a pump action.
pub enum PumpActionView {
    Forward(Seq<u8>),
    Stop,
}

impl View for PumpAction {
    type V = PumpActionView;

    open spec fn view(&self) -> PumpActionView {
        match self {
            PumpAction::Forward(d) => PumpActionView::Forward(d@),
            PumpAction::Stop => PumpActionView::Stop,
        }
    }
}

/// The running state of one pump direction.
#[derive(Clone, Copy, PartialEq, Eq, Structural, Debug)]
pub struct PumpState {
    /// Bytes moved so far, clamped at the maximum.
    pub total_bytes: u64,
    /// Whether a terminating event has been seen.
    pub done: bool,
}

/// What one step does: data on a live pump is forwarded unchanged and
/// metered, clamping at the maximum; anything else ends the pump.
pub open spec fn spec_pump_step(s: PumpState, e: PumpEventView) -> (PumpState, PumpActionView) {
    if s.done {
        (s, PumpActionView::Stop)
    } else {
        match e {
            PumpEventView::Data(d) => (
                PumpState {
                    total_bytes: if s.total_bytes + d.len() > u64::MAX {
                        u64::MAX
                    } else {
                        (s.total_bytes + d.len()) as u64
                    },
                    done: false,
                },
                PumpActionView::Forward(d),
            ),
            _ => (PumpState { total_bytes: s.total_bytes, done: true }, PumpActionView::Stop),
        }
    }
}

impl PumpState {
    /// A fresh pump: nothing moved, running.
    pub fn new() -> (r: PumpState)
        ensures
            r == (PumpState { total_bytes: 0, done: false }),
    {
        PumpState { total_bytes: 0, done: false }
    }

    /// Feed one event to the pump and follow the returned action.
    pub fn step(&mut self, event: PumpEvent) -> (action: PumpAction)
        ensures
            (*final(self), action@) == spec_pump_step(*old(self), event@),
    {
        if self.done {
            return PumpAction::Stop;
        }
        match event {
            PumpEvent::Data(d) => {
                let len = d.len();
                self.total_bytes = self.total_bytes.saturating_add(len as u64);
                PumpAction::Forward(d)
            },
            _ => {
                self.done = true;
                PumpAction::Stop
            },
        }
    }
}

/// A whole pump run over a sequence of events: the final state and the
/// payloads forwarded, in order.
pub open spec fn spec_pump_run(s: PumpState, events: Seq<PumpEventView>) -> (PumpState, Seq<Seq<u8>>)
    decreases events.len(),
{
    if events.len() == 0 {
        (s, Seq::empty())
    } else {
        let (s1, a) = spec_pump_step(s, events.first());
        let (s2, rest) = spec_pump_run(s1, events.drop_first());
        match a {
            PumpActionView::Forward(d) => (s2, seq![d] + rest),
            PumpActionView::Stop => (s2, rest),
        }
    }
}

/// The payloads of the leading data events, in order, up to the first
/// terminating event: what a healthy peer hands the pump before anything
/// ends it.
pub open spec fn spec_leading_data(events: Seq<PumpEventView>) -> Seq<Seq<u8>>
    decreases events.len(),
{
    if events.len() == 0 {
        Seq::empty()
    } else {
        match events.first() {
            PumpEventView::Data(d) => seq![d] + spec_leading_data(events.drop_first()),
            _ => Seq::empty(),
        }
    }
}

/// The total length of a sequence of payloads.
pub open spec fn spec_total_len(payloads: Seq<Seq<u8>>) -> int
    decreases payloads.len(),
{
    if payloads.len() == 0 {
        0
    } else {
        payloads.first().len() + spec_total_len(payloads.drop_first())
    }
}

/// Transparency of a pump direction: a fresh pump forwards exactly the bytes
/// read before the first terminating event, byte-exact and in order, and
/// meters their total, clamped at the maximum.
pub proof fn lemma_pump_transparency(events: Seq<PumpEventView>)
    ensures
        spec_pump_run(PumpState { total_bytes: 0, done: false }, events).1
            == spec_leading_data(events),
        spec_pump_run(PumpState { total_bytes: 0, done: false }, events).0.total_bytes
            == if spec_total_len(spec_leading_data(events)) > u64::MAX {
            u64::MAX as int
        } else {
            spec_total_len(spec_leading_data(events))
        },
{
    lemma_pump_run_from(PumpState { total_bytes: 0, done: false }, events);
}

/// Transparency from any live pump state: the forwarded payloads are the
/// leading data payloads, and the metered total grows by their length,
/// clamped at the maximum.
proof fn lemma_pump_run_from(s: PumpState, events: Seq<PumpEventView>)
    requires
        !s.done,
    ensures
        spec_pump_run(s, events).1 == spec_leading_data(events),
        spec_pump_run(s, events).0.total_bytes
            == if s.total_bytes + spec_total_len(spec_leading_data(events)) > u64::MAX {
            u64::MAX as int
        } else {
            s.total_bytes + spec_total_len(spec_leading_data(events))
        },
    decreases events.len(),
{
    if events.len() > 0 {
        let (s1, a) = spec_pump_step(s, events.first());
        match events.first() {
            PumpEventView::Data(d) => {
                lemma_pump_run_from(s1, events.drop_first());
                let rest_led = spec_leading_data(events.drop_first());
                lemma_total_len_nonneg(rest_led);
                assert(spec_leading_data(events) == seq![d] + rest_led);
                assert((seq![d] + rest_led).first() == d);
                assert((seq![d] + rest_led).drop_first() =~= rest_led);
            },
            _ => {
                lemma_pump_run_stopped(s1, events.drop_first());
            },
        }
    }
}

/// A stopped pump forwards nothing and meters nothing, whatever still
/// arrives.
proof fn lemma_pump_run_stopped(s: PumpState, events: Seq<PumpEventView>)
    requires
        s.done,
    ensures
        spec_pump_run(s, events).1 == Seq::<Seq<u8>>::empty(),
        spec_pump_run(s, events).0 == s,
    decreases events.len(),
{
    if events.len() > 0 {
        lemma_pump_run_stopped(s, events.drop_first());
    }
}

/// Payload lengths sum to something non-negative.
proof fn lemma_total_len_nonneg(payloads: Seq<Seq<u8>>)
    ensures
        spec_total_len(payloads) >= 0,
    decreases payloads.len(),
{
    if payloads.len() > 0 {
        lemma_total_len_nonneg(payloads.drop_first());
    }
}

} // verus!
