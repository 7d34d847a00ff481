//! Fan-out of one notification to every subscriber.
//!
//! A fan-out goes through the recipients of a snapshot one by one.  For each
//! it names the delivery to attempt and takes back how the attempt ended.  A
//! failed delivery is written down and the fan-out goes on: every recipient
//! is attempted once, none twice.

use vstd::prelude::*;
use crate::telemetry::{notification_of, EspWeatherMessage};

verus! {

/// Why a delivery failed.
#[derive(Debug)]
pub struct NotifyError {
    /// What the notification channel said.
    pub cause: String,
}

/// How the delivery to one recipient ended.
#[derive(Debug)]
pub struct DeliveryEntry {
    pub recipient: i64,
    pub outcome: Result<(), NotifyError>,
}

/// One delivery to attempt.
#[derive(Debug)]
pub struct Delivery {
    pub recipient: i64,
    pub text: String,
}

/// How a fan-out ended: one entry for each recipient, in the order of the
/// snapshot.
#[derive(Debug)]
pub struct DispatchReport {
    pub entries: Vec<DeliveryEntry>,
}

impl View for DispatchReport {
    type V = Seq<DeliveryEntry>;

    open spec fn view(&self) -> Seq<DeliveryEntry> {
        self.entries@
    }
}

/// What a fan-out holds: the recipients, the text for them, and how the
/// deliveries attempted so far ended.
pub struct DispatchState {
    pub recipients: Seq<i64>,
    pub text: Seq<char>,
    pub entries: Seq<DeliveryEntry>,
}

impl DispatchState {
    /// The fan-out of `text` to `recipients` before the first delivery.
    pub open spec fn start(text: Seq<char>, recipients: Seq<i64>) -> DispatchState {
        DispatchState { recipients, text, entries: Seq::empty() }
    }

    /// The entries are those of the first recipients, in order.
    pub open spec fn wf(self) -> bool {
        &&& self.entries.len() <= self.recipients.len()
        &&& forall|i: int|
            0 <= i < self.entries.len() ==> #[trigger] self.entries[i].recipient
                == self.recipients[i]
    }

    /// Whether a recipient is left to attempt.
    pub open spec fn pending(self) -> bool {
        self.entries.len() < self.recipients.len()
    }

    /// The recipient to attempt next.
    pub open spec fn current(self) -> i64 {
        self.recipients[self.entries.len() as int]
    }

    /// The fan-out after the attempt for the current recipient ended with
    /// `outcome`.  Once no recipient is left an outcome changes nothing.
    pub open spec fn recorded(self, outcome: Result<(), NotifyError>) -> DispatchState {
        if self.pending() {
            DispatchState {
                recipients: self.recipients,
                text: self.text,
                entries: self.entries.push(DeliveryEntry { recipient: self.current(), outcome }),
            }
        } else {
            self
        }
    }

    /// The fan-out after the attempts ended with `outcomes`, one after the
    /// other.
    pub open spec fn after(self, outcomes: Seq<Result<(), NotifyError>>) -> DispatchState
        decreases outcomes.len(),
    {
        if outcomes.len() == 0 {
            self
        } else {
            self.after(outcomes.drop_last()).recorded(outcomes.last())
        }
    }
}

/// While recipients are left, each outcome adds the entry of the next one.
pub proof fn lemma_after(state: DispatchState, outcomes: Seq<Result<(), NotifyError>>)
    requires
        state.wf(),
        state.entries.len() + outcomes.len() <= state.recipients.len(),
    ensures
        state.after(outcomes).wf(),
        state.after(outcomes).recipients == state.recipients,
        state.after(outcomes).text == state.text,
        state.after(outcomes).entries.len() == state.entries.len() + outcomes.len(),
        forall|i: int|
            0 <= i < state.entries.len() ==> #[trigger] state.after(outcomes).entries[i]
                == state.entries[i],
        forall|k: int|
            0 <= k < outcomes.len() ==> #[trigger] state.after(outcomes).entries[state.entries.len()
                + k] == (DeliveryEntry {
                recipient: state.recipients[state.entries.len() + k],
                outcome: outcomes[k],
            }),
    decreases outcomes.len(),
{
    if outcomes.len() > 0 {
        lemma_after(state, outcomes.drop_last());
    }
}

/// Failures stay apart: when a fan-out to `n` recipients has been told the
/// outcome of `n` attempts, its report holds exactly `n` entries, the entry
/// of each recipient holds the outcome of the attempt for that recipient and
/// of no other, and no recipient is left.  So one failed delivery marks one
/// entry and leaves all others as they ended.
pub proof fn law_failures_stay_apart(
    text: Seq<char>,
    recipients: Seq<i64>,
    outcomes: Seq<Result<(), NotifyError>>,
)
    requires
        outcomes.len() == recipients.len(),
    ensures
        DispatchState::start(text, recipients).after(outcomes).entries.len() == recipients.len(),
        !DispatchState::start(text, recipients).after(outcomes).pending(),
        forall|k: int|
            0 <= k < recipients.len() ==> #[trigger] DispatchState::start(text, recipients).after(
                outcomes,
            ).entries[k] == (DeliveryEntry { recipient: recipients[k], outcome: outcomes[k] }),
{
    let start = DispatchState::start(text, recipients);
    lemma_after(start, outcomes);
    assert forall|k: int| 0 <= k < recipients.len() implies #[trigger] start.after(
        outcomes,
    ).entries[k] == (DeliveryEntry { recipient: recipients[k], outcome: outcomes[k] }) by {
        assert(start.after(outcomes).entries[start.entries.len() + k] == (DeliveryEntry {
            recipient: start.recipients[start.entries.len() + k],
            outcome: outcomes[k],
        }));
    }
}

/// A fan-out under way.
pub struct Dispatch {
    recipients: Vec<i64>,
    text: String,
    entries: Vec<DeliveryEntry>,
}

impl View for Dispatch {
    type V = DispatchState;

    closed spec fn view(&self) -> DispatchState {
        DispatchState { recipients: self.recipients@, text: self.text@, entries: self.entries@ }
    }
}

impl Dispatch {
    /// What every fan-out keeps: its entries are those of the first
    /// recipients, in order.
    #[verifier::type_invariant]
    spec fn inv(self) -> bool {
        self@.wf()
    }

    /// Starts the fan-out of `text` to the recipients of `snapshot`.
    pub fn begin(text: String, snapshot: Vec<i64>) -> (fanout: Dispatch)
        ensures
            fanout@ == DispatchState::start(text@, snapshot@),
            fanout@.wf(),
    {
        Dispatch { recipients: snapshot, text, entries: Vec::new() }
    }

    /// Whether a recipient is left to attempt.
    pub fn pending(&self) -> (left: bool)
        ensures
            left == self@.pending(),
            self@.wf(),
    {
        proof {
            use_type_invariant(self);
        }
        self.entries.len() < self.recipients.len()
    }

    /// The delivery to attempt next: the recipient and the text for it.
    pub fn next(&self) -> (delivery: Option<Delivery>)
        ensures
            delivery is Some <==> self@.pending(),
            delivery matches Some(d) ==> d.recipient == self@.current() && d.text@ == self@.text,
    {
        proof {
            use_type_invariant(self);
        }
        if self.entries.len() < self.recipients.len() {
            Some(
                Delivery {
                    recipient: self.recipients[self.entries.len()],
                    text: self.text.clone(),
                },
            )
        } else {
            None
        }
    }

    /// Takes the outcome of the delivery that [`Dispatch::next`] named, and
    /// gives the fan-out that goes on from there.
    pub fn record(self, outcome: Result<(), NotifyError>) -> (fanout: Dispatch)
        ensures
            fanout@ == self@.recorded(outcome),
            fanout@.wf(),
    {
        proof {
            use_type_invariant(&self);
        }
        let Dispatch { recipients, text, mut entries } = self;
        if entries.len() < recipients.len() {
            let recipient: i64 = recipients[entries.len()];
            entries.push(DeliveryEntry { recipient, outcome });
        }
        Dispatch { recipients, text, entries }
    }

    /// The report of the deliveries attempted so far.
    pub fn report(self) -> (report: DispatchReport)
        ensures
            report@ == self@.entries,
    {
        DispatchReport { entries: self.entries }
    }
}

/// Starts the fan-out of the notification for `reading` to the recipients
/// of `snapshot`.
pub fn dispatch(reading: &EspWeatherMessage, snapshot: Vec<i64>) -> (fanout: Dispatch)
    ensures
        fanout@ == DispatchState::start(notification_of(*reading), snapshot@),
        fanout@.wf(),
{
    Dispatch::begin(reading.render(), snapshot)
}

impl DispatchReport {
    /// The number of entries.
    pub fn len(&self) -> (n: usize)
        ensures
            n == self@.len(),
    {
        self.entries.len()
    }

    /// The number of entries whose delivery failed.
    pub fn failures(&self) -> (n: usize)
        ensures
            n == failures_of(self@),
    {
        let mut n: usize = 0;
        let mut i: usize = 0;
        while i < self.entries.len()
            invariant
                i <= self.entries@.len(),
                n <= i,
                n == failures_of(self.entries@.subrange(0, i as int)),
            decreases self.entries@.len() - i,
        {
            proof {
                let upto = self.entries@.subrange(0, i + 1);
                assert(upto.drop_last() =~= self.entries@.subrange(0, i as int));
                assert(upto.last() == self.entries@[i as int]);
            }
            if self.entries[i].outcome.is_err() {
                n = n + 1;
            }
            i = i + 1;
        }
        assert(self.entries@.subrange(0, i as int) =~= self.entries@);
        n
    }
}

/// The number of entries whose delivery failed.
pub open spec fn failures_of(entries: Seq<DeliveryEntry>) -> nat
    decreases entries.len(),
{
    if entries.len() == 0 {
        0
    } else {
        failures_of(entries.drop_last()) + if entries.last().outcome is Err {
            1nat
        } else {
            0nat
        }
    }
}

} // verus!
