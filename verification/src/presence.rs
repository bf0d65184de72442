//! The presence state machine: one authoritative flag, compared against each
//! fresh probe result, emitting at most one transition per evaluation.

use vstd::prelude::*;

verus! {

/// Last known connectivity of the monitored set.
#[derive(Clone, Copy, Debug, PartialEq, Eq, Structural)]
pub enum PresenceState {
    Present,
    Absent,
}

/// What one evaluation of a probe result found.
#[derive(Clone, Copy, Debug, PartialEq, Eq, Structural)]
pub enum TransitionEvent {
    NoChange,
    BecameAbsent,
    BecamePresent,
}

impl PresenceState {
    /// The state that a probe result stands for.
    pub open spec fn of(probed_present: bool) -> PresenceState {
        if probed_present {
            PresenceState::Present
        } else {
            PresenceState::Absent
        }
    }

    /// What `is_present` answers.
    pub open spec fn spec_is_present(self) -> bool {
        self == PresenceState::Present
    }

    /// The state that a probe result stands for.
    pub fn from_probe(probed_present: bool) -> (state: PresenceState)
        ensures
            state == PresenceState::of(probed_present),
    {
        if probed_present {
            PresenceState::Present
        } else {
            PresenceState::Absent
        }
    }

    /// Whether the state is `Present`.
    #[verifier::when_used_as_spec(spec_is_present)]
    pub fn is_present(self) -> (present: bool)
        ensures
            present == self.spec_is_present(),
    {
        match self {
            PresenceState::Present => true,
            PresenceState::Absent => false,
        }
    }
}

impl TransitionEvent {
    /// What `is_transition` answers.
    pub open spec fn spec_is_transition(self) -> bool {
        self != TransitionEvent::NoChange
    }

    /// Whether the event reports a change of presence.
    #[verifier::when_used_as_spec(spec_is_transition)]
    pub fn is_transition(self) -> (changed: bool)
        ensures
            changed == self.spec_is_transition(),
    {
        match self {
            TransitionEvent::NoChange => false,
            TransitionEvent::BecameAbsent => true,
            TransitionEvent::BecamePresent => true,
        }
    }
}

/// The event that a probe result gives against a prior state.
pub open spec fn transition(prior: PresenceState, probed_present: bool) -> TransitionEvent {
    match (prior, probed_present) {
        (PresenceState::Present, false) => TransitionEvent::BecameAbsent,
        (PresenceState::Absent, true) => TransitionEvent::BecamePresent,
        _ => TransitionEvent::NoChange,
    }
}

/// Holds the presence flag. The flag starts from a real probe, never from a
/// guess, and changes only in `evaluate`.
#[derive(Clone, Copy, Debug, PartialEq, Eq, Structural)]
pub struct PresenceMachine {
    state: PresenceState,
}

impl View for PresenceMachine {
    type V = PresenceState;

    closed spec fn view(&self) -> PresenceState {
        self.state
    }
}

impl PresenceMachine {
    /// Seeds the flag with the result of the startup probe.
    pub fn new(initial_probe: bool) -> (machine: PresenceMachine)
        ensures
            machine@ == PresenceState::of(initial_probe),
    {
        PresenceMachine { state: PresenceState::from_probe(initial_probe) }
    }

    /// The flag as it stands.
    pub fn state(&self) -> (state: PresenceState)
        ensures
            state == self@,
    {
        self.state
    }

    /// Compares the flag with a fresh probe result, reports the transition if
    /// there is one, and leaves the flag equal to the probe result. When the
    /// flag already matches, the event is `NoChange` and nothing is written.
    pub fn evaluate(&mut self, probed_present: bool) -> (event: TransitionEvent)
        ensures
            event == transition(old(self)@, probed_present),
            final(self)@ == PresenceState::of(probed_present),
            event == TransitionEvent::NoChange ==> *final(self) == *old(self),
    {
        match (self.state, probed_present) {
            (PresenceState::Present, false) => {
                self.state = PresenceState::Absent;
                TransitionEvent::BecameAbsent
            },
            (PresenceState::Absent, true) => {
                self.state = PresenceState::Present;
                TransitionEvent::BecamePresent
            },
            _ => TransitionEvent::NoChange,
        }
    }
}

/// The state reached when `probes` have been evaluated in order, starting
/// from `initial`.
pub open spec fn state_after(initial: PresenceState, probes: Seq<bool>) -> PresenceState {
    if probes.len() == 0 {
        initial
    } else {
        PresenceState::of(probes.last())
    }
}

/// The events emitted when `probes` are evaluated in order, starting from
/// `initial`: one event per probe.
pub open spec fn events_of(initial: PresenceState, probes: Seq<bool>) -> Seq<TransitionEvent>
    decreases probes.len(),
{
    if probes.len() == 0 {
        Seq::empty()
    } else {
        events_of(initial, probes.drop_last()).push(
            transition(state_after(initial, probes.drop_last()), probes.last()),
        )
    }
}

/// How many of the events report a change.
pub open spec fn transitions_in(events: Seq<TransitionEvent>) -> nat {
    events.filter(|e: TransitionEvent| e.is_transition()).len()
}

/// How many times a sequence of readings changes value from one element to
/// the next.
pub open spec fn alternations(readings: Seq<bool>) -> nat
    decreases readings.len(),
{
    if readings.len() < 2 {
        0
    } else {
        let rest = alternations(readings.drop_last());
        if readings[readings.len() - 1] != readings[readings.len() - 2] {
            rest + 1
        } else {
            rest
        }
    }
}

/// Evaluating the same probe result twice in a row emits nothing the second
/// time: whatever the prior state, after one evaluation of `probed_present`
/// a further evaluation of it is `NoChange`.
pub proof fn lemma_repeated_probe_is_silent(prior: PresenceState, probed_present: bool)
    ensures
        transition(PresenceState::of(probed_present), probed_present) == TransitionEvent::NoChange,
        transition(prior, probed_present) == TransitionEvent::NoChange ==> prior
            == PresenceState::of(probed_present),
{
}

/// For every starting state and every sequence of probe results, the machine
/// emits exactly one event per probe, and the number of `BecameAbsent` and
/// `BecamePresent` events among them equals the number of alternations in
/// the sequence of readings that begins with the starting state and goes on
/// with the probe results. Runs of equal results add no events.
pub proof fn lemma_transitions_equal_alternations(initial: PresenceState, probes: Seq<bool>)
    ensures
        events_of(initial, probes).len() == probes.len(),
        transitions_in(events_of(initial, probes)) == alternations(
            seq![initial.is_present()] + probes,
        ),
    decreases probes.len(),
{
    let readings = seq![initial.is_present()] + probes;
    let counted = |e: TransitionEvent| e.is_transition();
    if probes.len() == 0 {
        assert(events_of(initial, probes).filter(counted) =~= Seq::empty()) by {
            reveal(Seq::filter);
        }
    } else {
        let earlier = probes.drop_last();
        let step = transition(state_after(initial, earlier), probes.last());
        lemma_transitions_equal_alternations(initial, earlier);
        assert(readings.drop_last() =~= seq![initial.is_present()] + earlier);
        assert(readings[readings.len() - 1] == probes.last());
        assert(readings[readings.len() - 2] == state_after(initial, earlier).is_present());
        events_of(initial, earlier).lemma_filter_push(step, counted);
    }
}

/// A reading put in front of a sequence adds one alternation if it differs
/// from the sequence's first reading, and none otherwise.
proof fn lemma_alternations_with_first(first: bool, readings: Seq<bool>)
    ensures
        alternations(seq![first] + readings) == alternations(readings) + if readings.len() > 0
            && readings[0] != first {
            1nat
        } else {
            0nat
        },
    decreases readings.len(),
{
    let all = seq![first] + readings;
    if readings.len() > 0 {
        lemma_alternations_with_first(first, readings.drop_last());
        assert(all.drop_last() =~= seq![first] + readings.drop_last());
    }
}

/// Where the machine starts from the state that the first probe result
/// stands for, as it does when that probe seeded it, the number of
/// `BecameAbsent` and `BecamePresent` events it emits equals the number of
/// alternations in the sequence of probe results itself.
pub proof fn lemma_transitions_equal_alternations_of_probes(
    initial: PresenceState,
    probes: Seq<bool>,
)
    requires
        probes.len() > 0 ==> initial == PresenceState::of(probes[0]),
    ensures
        transitions_in(events_of(initial, probes)) == alternations(probes),
{
    lemma_transitions_equal_alternations(initial, probes);
    lemma_alternations_with_first(initial.is_present(), probes);
}

} // verus!
