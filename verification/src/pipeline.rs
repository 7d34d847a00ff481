//! The relay pipeline: what happens to one inbound payload.
//!
//! A payload is decoded, announced to every subscriber, and recorded, in
//! that order.  The pipeline itself talks to nobody.  It is a state machine:
//! each [`Stage`] names the one thing to be done next ([`Stage::action`]),
//! and the outcome of that thing, handed back as an [`Event`], leads to the
//! next stage ([`Stage::advance`]).  A payload that cannot be decoded is
//! dropped: nobody is notified and nothing is recorded.  A reading that
//! cannot be recorded leaves the notifications that were sent as they are.

use vstd::prelude::*;
use vstd::utf8::{decode_utf8, valid_utf8};
use crate::clock::now_rfc3339;
use crate::dispatch::{
    dispatch, DeliveryEntry, Dispatch, DispatchReport, DispatchState, NotifyError,
};
use crate::reading::{NewWeatherMessage, StoreError};
use crate::telemetry::{
    accept_fields, accepted, notification_of, payload_text, DecodeError, EspWeatherMessage,
};

verus! {

/// The outcome of what a stage asked for.
pub enum Event {
    /// The reader of the payload's text is done: `fields` holds the three
    /// numbers it found, or nothing.
    Parsed { fields: Option<EspWeatherMessage> },
    /// The registry gave its snapshot.
    Snapshot { chats: Vec<i64> },
    /// The delivery to the current recipient ended.
    Delivered { outcome: Result<(), NotifyError> },
    /// The log answered: the identifier of the new row, or its refusal.
    Persisted { answer: Result<i32, StoreError> },
}

/// What a stage asks for.
#[derive(Debug)]
pub enum Action {
    /// Read the three numbers out of `text`.
    Parse { text: String },
    /// Fetch the registry's snapshot.
    FetchSnapshot,
    /// Deliver `text` to `recipient`.
    Notify { recipient: i64, text: String },
    /// Append `record` to the log.
    Persist { record: NewWeatherMessage },
    /// Nothing: the payload has reached its end.
    Stop,
}

/// An [`Action`] with its texts as sequences of characters.
pub enum ActionView {
    Parse { text: Seq<char> },
    FetchSnapshot,
    Notify { recipient: i64, text: Seq<char> },
    Persist { record: NewWeatherMessage },
    Stop,
}

impl View for Action {
    type V = ActionView;

    open spec fn view(&self) -> ActionView {
        match *self {
            Action::Parse { text } => ActionView::Parse { text: text@ },
            Action::FetchSnapshot => ActionView::FetchSnapshot,
            Action::Notify { recipient, text } => ActionView::Notify { recipient, text: text@ },
            Action::Persist { record } => ActionView::Persist { record },
            Action::Stop => ActionView::Stop,
        }
    }
}

/// Where a payload stands.
pub enum Stage {
    /// The payload is text; its fields are being read.
    Parsing { text: String },
    /// The payload was dropped.
    DecodeFailed { error: DecodeError },
    /// The message is decoded and stamped; the snapshot is being fetched.
    Snapshotting { msg: EspWeatherMessage, record: NewWeatherMessage },
    /// The notification is on its way to the recipients, one at a time.
    Dispatching { record: NewWeatherMessage, fanout: Dispatch },
    /// Every recipient was attempted; the reading is being recorded.
    Persisting { record: NewWeatherMessage, report: DispatchReport },
    /// The reading is recorded under `id`.
    Done { report: DispatchReport, id: i32 },
    /// The reading was not recorded.  The notifications stay sent.
    PersistFailed { report: DispatchReport, refusal: StoreError },
}

/// A [`Stage`] as a mathematical value.
pub enum Phase {
    Parsing { text: Seq<char> },
    DecodeFailed { error: DecodeError },
    Snapshotting { msg: EspWeatherMessage, record: NewWeatherMessage },
    Dispatching { record: NewWeatherMessage, fanout: DispatchState },
    Persisting { record: NewWeatherMessage, report: Seq<DeliveryEntry> },
    Done { report: Seq<DeliveryEntry>, id: i32 },
    PersistFailed { report: Seq<DeliveryEntry>, refusal: StoreError },
}

impl View for Stage {
    type V = Phase;

    open spec fn view(&self) -> Phase {
        match *self {
            Stage::Parsing { text } => Phase::Parsing { text: text@ },
            Stage::DecodeFailed { error } => Phase::DecodeFailed { error },
            Stage::Snapshotting { msg, record } => Phase::Snapshotting { msg, record },
            Stage::Dispatching { record, fanout } => Phase::Dispatching { record, fanout: fanout@ },
            Stage::Persisting { record, report } => Phase::Persisting { record, report: report@ },
            Stage::Done { report, id } => Phase::Done { report: report@, id },
            Stage::PersistFailed { report, refusal } => Phase::PersistFailed {
                report: report@,
                refusal,
            },
        }
    }
}

/// The reading that `msg` becomes when it is taken in at the time `stamp`.
pub open spec fn stamped_of(msg: EspWeatherMessage, stamp: String) -> NewWeatherMessage {
    NewWeatherMessage {
        timestamp: stamp,
        temp: msg.temp,
        pressure: msg.pressure,
        humidity: msg.humidity,
    }
}

/// The stage a payload enters the pipeline in.
pub open spec fn received_of(payload: Seq<u8>) -> Phase {
    if valid_utf8(payload) {
        Phase::Parsing { text: decode_utf8(payload) }
    } else {
        Phase::DecodeFailed { error: DecodeError::InvalidEncoding }
    }
}

impl Phase {
    /// A fan-out under way is well-formed and has a recipient left.
    pub open spec fn wf(self) -> bool {
        match self {
            Phase::Dispatching { record, fanout } => fanout.wf() && fanout.pending(),
            _ => true,
        }
    }

    /// Whether the payload has reached its end.
    pub open spec fn terminal(self) -> bool {
        self is DecodeFailed || self is Done || self is PersistFailed
    }

    /// What the stage asks for.
    pub open spec fn action(self) -> ActionView {
        match self {
            Phase::Parsing { text } => ActionView::Parse { text },
            Phase::Snapshotting { .. } => ActionView::FetchSnapshot,
            Phase::Dispatching { record, fanout } => if fanout.pending() {
                ActionView::Notify { recipient: fanout.current(), text: fanout.text }
            } else {
                ActionView::Stop
            },
            Phase::Persisting { record, report } => ActionView::Persist { record },
            _ => ActionView::Stop,
        }
    }

    /// The stage after `event`.  `stamp` is the time at which a decoded
    /// message is taken in.  An event that the stage did not ask for changes
    /// nothing.
    pub open spec fn advanced(self, event: Event, stamp: String) -> Phase {
        match (self, event) {
            (Phase::Parsing { text }, Event::Parsed { fields }) => match accepted(fields) {
                Ok(msg) => Phase::Snapshotting { msg, record: stamped_of(msg, stamp) },
                Err(error) => Phase::DecodeFailed { error },
            },
            (Phase::Snapshotting { msg, record }, Event::Snapshot { chats }) => {
                let fanout = DispatchState::start(notification_of(msg), chats@);
                if fanout.pending() {
                    Phase::Dispatching { record, fanout }
                } else {
                    Phase::Persisting { record, report: fanout.entries }
                }
            },
            (Phase::Dispatching { record, fanout }, Event::Delivered { outcome }) => {
                let next = fanout.recorded(outcome);
                if next.pending() {
                    Phase::Dispatching { record, fanout: next }
                } else {
                    Phase::Persisting { record, report: next.entries }
                }
            },
            (Phase::Persisting { record, report }, Event::Persisted { answer }) => match answer {
                Ok(id) => Phase::Done { report, id },
                Err(refusal) => Phase::PersistFailed { report, refusal },
            },
            _ => self,
        }
    }
}

/// The stage that `events` lead to from `phase`, one after the other; the
/// message decoded by the event at index `i` is taken in at `stamps[i]`.
pub open spec fn run(phase: Phase, events: Seq<Event>, stamps: Seq<String>) -> Phase
    decreases events.len(),
{
    if events.len() == 0 {
        phase
    } else {
        run(phase, events.drop_last(), stamps).advanced(
            events.last(),
            stamps[events.len() - 1],
        )
    }
}

/// An end is an end: no event leads on from a stage that has reached its
/// end, and such a stage asks for nothing.
pub proof fn law_end_is_final(phase: Phase, events: Seq<Event>, stamps: Seq<String>)
    requires
        phase.terminal(),
    ensures
        run(phase, events, stamps) == phase,
        phase.action() == ActionView::Stop,
    decreases events.len(),
{
    if events.len() > 0 {
        law_end_is_final(phase, events.drop_last(), stamps);
    }
}

/// A payload that cannot be decoded is never recorded and reaches nobody.
/// Whatever events follow the receipt of `payload`: as long as the payload
/// is not UTF-8 text, or no reading of its fields gave three finite numbers,
/// no stage of the run asks for a reading to be appended or for a
/// notification to be delivered.
pub proof fn law_undecodable_is_dropped(
    payload: Seq<u8>,
    events: Seq<Event>,
    stamps: Seq<String>,
)
    requires
        !valid_utf8(payload) || forall|i: int|
            0 <= i < events.len() ==> (#[trigger] events[i] matches Event::Parsed { fields, .. }
                ==> accepted(fields) is Err),
    ensures
        run(received_of(payload), events, stamps) is Parsing || run(
            received_of(payload),
            events,
            stamps,
        ) is DecodeFailed,
        !valid_utf8(payload) ==> run(received_of(payload), events, stamps) == (Phase::DecodeFailed {
            error: DecodeError::InvalidEncoding,
        }),
        !(run(received_of(payload), events, stamps).action() is Persist),
        !(run(received_of(payload), events, stamps).action() is Notify),
    decreases events.len(),
{
    if events.len() > 0 {
        let before = events.drop_last();
        assert forall|i: int| 0 <= i < before.len() implies before[i] == events[i] by {}
        law_undecodable_is_dropped(payload, before, stamps);
        if valid_utf8(payload) {
            let last = events[events.len() - 1];
            assert(last matches Event::Parsed { fields, .. } ==> accepted(fields) is Err);
        }
    }
}

/// A payload that can be decoded is decoded as it is: where the bytes are text
/// and its fields are three finite numbers, the event that brings the fields
/// leads to the stage that holds exactly these numbers, in the message and
/// in the reading to be recorded.
pub proof fn law_fields_pass_unchanged(payload: Seq<u8>, msg: EspWeatherMessage, stamp: String)
    requires
        valid_utf8(payload),
        msg.wf(),
    ensures
        received_of(payload).advanced(Event::Parsed { fields: Some(msg) }, stamp) == (
        Phase::Snapshotting { msg, record: stamped_of(msg, stamp) }),
        stamped_of(msg, stamp).temp == msg.temp,
        stamped_of(msg, stamp).pressure == msg.pressure,
        stamped_of(msg, stamp).humidity == msg.humidity,
{
}

/// Recording follows the fan-out: the step that leaves a fan-out for the
/// recording leaves it with one entry for each recipient of the snapshot, in
/// the order of the snapshot, and asks for the reading that the message
/// became when it was taken in.
pub proof fn law_record_follows_fanout(
    record: NewWeatherMessage,
    fanout: DispatchState,
    event: Event,
    stamp: String,
)
    requires
        fanout.wf(),
        fanout.pending(),
        (Phase::Dispatching { record, fanout }).advanced(event, stamp) is Persisting,
    ensures
        (Phase::Dispatching { record, fanout }).advanced(event, stamp).action() == (
        ActionView::Persist { record }),
        (Phase::Dispatching { record, fanout }).advanced(event, stamp)->Persisting_report.len()
            == fanout.recipients.len(),
        forall|k: int|
            0 <= k < fanout.recipients.len() ==> (#[trigger] (Phase::Dispatching {
                record,
                fanout,
            }).advanced(event, stamp)->Persisting_report[k]).recipient == fanout.recipients[k],
{
    let next = (Phase::Dispatching { record, fanout }).advanced(event, stamp);
    match event {
        Event::Delivered { outcome } => {
            let after = fanout.recorded(outcome);
            assert(after.wf());
            assert(next->Persisting_report == after.entries);
        },
        _ => {},
    }
}

/// A whole run of a payload that can be decoded: after the fields, the
/// snapshot and one outcome for each recipient, the stage asks for the
/// reading to be recorded, and holds a report with the outcome of each
/// recipient's own delivery.
pub proof fn law_fanout_then_record(
    msg: EspWeatherMessage,
    record: NewWeatherMessage,
    chats: Vec<i64>,
    outcomes: Seq<Result<(), NotifyError>>,
    stamps: Seq<String>,
)
    requires
        outcomes.len() == chats@.len(),
    ensures
        run(
            (Phase::Snapshotting { msg, record }).advanced(Event::Snapshot { chats }, stamps[0]),
            deliveries(outcomes),
            stamps,
        ) == (Phase::Persisting {
            record,
            report: DispatchState::start(notification_of(msg), chats@).after(outcomes).entries,
        }),
{
    let start = DispatchState::start(notification_of(msg), chats@);
    lemma_run_deliveries(record, start, outcomes, stamps);
    crate::dispatch::lemma_after(start, outcomes);
    if chats@.len() == 0 {
        assert(outcomes =~= Seq::empty());
        assert(deliveries(outcomes) =~= Seq::empty());
    }
}

/// The events that bring `outcomes`, one delivery each.
pub open spec fn deliveries(outcomes: Seq<Result<(), NotifyError>>) -> Seq<Event> {
    Seq::new(outcomes.len(), |i: int| Event::Delivered { outcome: outcomes[i] })
}

/// The stage of a fan-out after some of its deliveries ended.
pub open spec fn fanout_phase(record: NewWeatherMessage, fanout: DispatchState) -> Phase {
    if fanout.pending() {
        Phase::Dispatching { record, fanout }
    } else {
        Phase::Persisting { record, report: fanout.entries }
    }
}

/// Delivery events move a fan-out as their outcomes do.
pub proof fn lemma_run_deliveries(
    record: NewWeatherMessage,
    start: DispatchState,
    outcomes: Seq<Result<(), NotifyError>>,
    stamps: Seq<String>,
)
    requires
        start.wf(),
        start.entries.len() + outcomes.len() <= start.recipients.len(),
    ensures
        run(fanout_phase(record, start), deliveries(outcomes), stamps) == fanout_phase(
            record,
            start.after(outcomes),
        ),
    decreases outcomes.len(),
{
    if outcomes.len() > 0 {
        let before = outcomes.drop_last();
        lemma_run_deliveries(record, start, before, stamps);
        crate::dispatch::lemma_after(start, before);
        assert(deliveries(outcomes).drop_last() =~= deliveries(before));
        assert(deliveries(outcomes).last() == (Event::Delivered { outcome: outcomes.last() }));
        assert(start.after(before).pending());
    } else {
        assert(deliveries(outcomes) =~= Seq::empty());
    }
}

impl Stage {
    /// Takes a payload in.  Bytes that are not UTF-8 text are dropped at
    /// once; otherwise the text waits for its fields to be read.
    pub fn receive(payload: Vec<u8>) -> (stage: Stage)
        ensures
            stage@ == received_of(payload@),
            stage@.wf(),
    {
        match payload_text(payload) {
            Ok(text) => Stage::Parsing { text },
            Err(error) => Stage::DecodeFailed { error },
        }
    }

    /// Whether the payload has reached its end.
    pub fn is_terminal(&self) -> (end: bool)
        ensures
            end == self@.terminal(),
    {
        match self {
            Stage::DecodeFailed { .. } => true,
            Stage::Done { .. } => true,
            Stage::PersistFailed { .. } => true,
            _ => false,
        }
    }

    /// What is to be done next.
    pub fn action(&self) -> (action: Action)
        ensures
            action@ == self@.action(),
    {
        match self {
            Stage::Parsing { text } => Action::Parse { text: text.clone() },
            Stage::Snapshotting { .. } => Action::FetchSnapshot,
            Stage::Dispatching { record, fanout } => match fanout.next() {
                Some(delivery) => Action::Notify {
                    recipient: delivery.recipient,
                    text: delivery.text,
                },
                None => Action::Stop,
            },
            Stage::Persisting { record, report } => Action::Persist { record: record.duplicate() },
            _ => Action::Stop,
        }
    }

    /// The stage after `event`, a decoded message being taken in at the time
    /// `stamp`.
    pub fn advance(self, event: Event, stamp: String) -> (stage: Stage)
        ensures
            stage@ == self@.advanced(event, stamp),
            self@.wf() ==> stage@.wf(),
    {
        match self {
            Stage::Parsing { text } => match event {
                Event::Parsed { fields } => match accept_fields(fields) {
                    Ok(msg) => Stage::Snapshotting {
                        msg,
                        record: NewWeatherMessage::stamped(
                            stamp,
                            msg.temp,
                            msg.pressure,
                            msg.humidity,
                        ),
                    },
                    Err(error) => Stage::DecodeFailed { error },
                },
                _ => Stage::Parsing { text },
            },
            Stage::Snapshotting { msg, record } => match event {
                Event::Snapshot { chats } => {
                    let fanout = dispatch(&msg, chats);
                    if fanout.pending() {
                        Stage::Dispatching { record, fanout }
                    } else {
                        Stage::Persisting { record, report: fanout.report() }
                    }
                },
                _ => Stage::Snapshotting { msg, record },
            },
            Stage::Dispatching { record, fanout } => match event {
                Event::Delivered { outcome } => {
                    let next = fanout.record(outcome);
                    if next.pending() {
                        Stage::Dispatching { record, fanout: next }
                    } else {
                        Stage::Persisting { record, report: next.report() }
                    }
                },
                _ => Stage::Dispatching { record, fanout },
            },
            Stage::Persisting { record, report } => match event {
                Event::Persisted { answer } => match answer {
                    Ok(id) => Stage::Done { report, id },
                    Err(refusal) => Stage::PersistFailed { report, refusal },
                },
                _ => Stage::Persisting { record, report },
            },
            Stage::DecodeFailed { error } => Stage::DecodeFailed { error },
            Stage::Done { report, id } => Stage::Done { report, id },
            Stage::PersistFailed { report, refusal } => Stage::PersistFailed { report, refusal },
        }
    }

    /// The stage after `event`, a decoded message being taken in now.
    pub fn step(self, event: Event) -> (stage: Stage)
        ensures
            exists|stamp: String| stage@ == self@.advanced(event, stamp),
            self@.wf() ==> stage@.wf(),
    {
        let stamp: String = now_rfc3339();
        self.advance(event, stamp)
    }
}

} // verus!
