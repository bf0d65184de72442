//! The watcher: the one place that holds the presence flag and the cooldown
//! window, and decides what each event leads to.
//!
//! The caller owns the event loop. It hands every event to `Watcher::step`
//! together with the time, carries out the action that comes back, and hands
//! in what the action came to as the next event:
//!
//! * a hardware-change signal may be answered with `Probe`: wait for the
//!   settle delay, list the host's devices, hand in `Inventory`;
//! * an inventory may be answered with `Launch`: run the tool with the
//!   arguments, hand in `CommandFinished`; so may a finished command, until
//!   the batch is through;
//! * `Wait` ends the cycle.
//!
//! Events are taken one at a time. One that does not fit the phase the
//! watcher is in changes nothing and is answered with `Wait`.

use vstd::prelude::*;
use crate::args::split_args;
use crate::config::{Config, ConfigView};
use crate::debounce::{CooldownWindow, DebounceGate, SETTLE_MILLIS};
use crate::dispatch::{CommandOutcome, Dispatch, DispatchView, LaunchResult, LaunchResultView};
use crate::identifier::DeviceIdentifier;
use crate::presence::{transition, PresenceMachine, PresenceState, TransitionEvent};
use crate::prober::{identifiers_in, listed, probe, probed, MonitoredSet};
use crate::signal::is_eligible;
use crate::text::copy_strings;

verus! {

/// What the watcher is in the middle of.
#[derive(Clone, Copy, Debug, PartialEq, Eq, Structural)]
pub enum Phase {
    /// Waiting for a hardware-change signal.
    Idle,
    /// A signal was accepted; the inventory is awaited.
    Probing,
    /// A transition was found; its batch is being run.
    Dispatching,
}

/// Something that happened, handed to the watcher.
#[derive(Clone, Debug, PartialEq, Eq)]
pub enum Event {
    /// A hardware-change notification with its signal code.
    Signal { code: u64 },
    /// The host's device inventory, or `None` where it could not be had.
    Inventory { devices: Option<Vec<DeviceIdentifier>> },
    /// What the launch of the last `Launch` action came to.
    CommandFinished { result: LaunchResult },
}

/// An event with its contents as sequences.
pub enum EventView {
    Signal { code: u64 },
    Inventory { devices: Option<Seq<DeviceIdentifier>> },
    CommandFinished { result: LaunchResultView },
}

impl View for Event {
    type V = EventView;

    open spec fn view(&self) -> EventView {
        match *self {
            Event::Signal { code } => EventView::Signal { code },
            Event::Inventory { devices } => EventView::Inventory { devices: listed(devices) },
            Event::CommandFinished { result } => EventView::CommandFinished { result: result@ },
        }
    }
}

/// What the caller is to do next.
#[derive(Clone, Debug, PartialEq, Eq)]
pub enum Action {
    /// Nothing: wait for the next hardware-change signal.
    Wait,
    /// Pause for `settle_millis`, then list the host's devices and hand in
    /// the inventory.
    Probe { settle_millis: u64 },
    /// Run the external tool with these arguments and hand in the result.
    Launch { args: Vec<String> },
}

/// An action with its arguments as character sequences.
pub enum ActionView {
    Wait,
    Probe { settle_millis: u64 },
    Launch { args: Seq<Seq<char>> },
}

impl View for Action {
    type V = ActionView;

    open spec fn view(&self) -> ActionView {
        match *self {
            Action::Wait => ActionView::Wait,
            Action::Probe { settle_millis } => ActionView::Probe { settle_millis },
            Action::Launch { args } => ActionView::Launch { args: args.deep_view() },
        }
    }
}

/// The watcher's state.
pub struct WatcherView {
    pub monitored: Seq<DeviceIdentifier>,
    pub disconnect_cmds: Seq<Seq<char>>,
    pub connect_cmds: Seq<Seq<char>>,
    pub presence: PresenceState,
    pub window: CooldownWindow,
    pub phase: Phase,
    /// The batch in progress or, between batches, the last one run.
    pub dispatch: DispatchView,
}

impl WatcherView {
    /// The state at startup: presence as the first probe found it, no signal
    /// accepted yet, no batch run.
    pub open spec fn initial(
        config: ConfigView,
        inventory: Option<Seq<DeviceIdentifier>>,
        threshold_millis: u64,
    ) -> WatcherView {
        let monitored = identifiers_in(config.monitored_devices);
        WatcherView {
            monitored,
            disconnect_cmds: config.disconnect_cmds,
            connect_cmds: config.connect_cmds,
            presence: PresenceState::of(probed(monitored, inventory)),
            window: CooldownWindow { last_accepted: None, threshold: threshold_millis },
            phase: Phase::Idle,
            dispatch: DispatchView::start(Seq::empty()),
        }
    }

    /// Whether a signal with this code at this time starts a cycle.
    pub open spec fn accepts(self, code: u64, now: u64) -> bool {
        self.phase == Phase::Idle && is_eligible(code) && !self.window.suppresses(
            now,
        )
    }

    /// The batch that goes with an event: none where nothing changed.
    pub open spec fn batch_for(self, event: TransitionEvent) -> Seq<Seq<char>> {
        match event {
            TransitionEvent::NoChange => Seq::empty(),
            TransitionEvent::BecameAbsent => self.disconnect_cmds,
            TransitionEvent::BecamePresent => self.connect_cmds,
        }
    }

    /// The state with the cycle closed at `now`: the cooldown starts there.
    pub open spec fn settled(self, now: u64) -> WatcherView {
        WatcherView {
            window: CooldownWindow { last_accepted: Some(now), ..self.window },
            phase: Phase::Idle,
            ..self
        }
    }

    /// The state after an inventory was evaluated in the probing phase.
    pub open spec fn probed_with(
        self,
        inventory: Option<Seq<DeviceIdentifier>>,
        now: u64,
    ) -> WatcherView {
        let present = probed(self.monitored, inventory);
        let event = transition(self.presence, present);
        let seen = WatcherView { presence: PresenceState::of(present), ..self };
        if event == TransitionEvent::NoChange {
            seen.settled(now)
        } else {
            let taken = WatcherView { dispatch: DispatchView::start(self.batch_for(event)), ..seen };
            if taken.dispatch.is_complete() {
                taken.settled(now)
            } else {
                WatcherView { phase: Phase::Dispatching, ..taken }
            }
        }
    }

    /// The state after a launch result was recorded in the dispatching phase.
    pub open spec fn launched_with(self, result: LaunchResultView, now: u64) -> WatcherView {
        let recorded = WatcherView { dispatch: self.dispatch.recorded(result), ..self };
        if recorded.dispatch.is_complete() {
            recorded.settled(now)
        } else {
            recorded
        }
    }

    /// The state that an event at time `now` leads to.
    pub open spec fn next(self, event: EventView, now: u64) -> WatcherView {
        match event {
            EventView::Signal { code } => if self.accepts(code, now) {
                WatcherView { phase: Phase::Probing, ..self }
            } else {
                self
            },
            EventView::Inventory { devices } => if self.phase == Phase::Probing {
                self.probed_with(devices, now)
            } else {
                self
            },
            EventView::CommandFinished { result } => if self.phase == Phase::Dispatching {
                self.launched_with(result, now)
            } else {
                self
            },
        }
    }

    /// The state after a series of launch results, the `k`-th of them handed
    /// in at `times[k]`.
    pub open spec fn fed(self, results: Seq<LaunchResultView>, times: Seq<u64>) -> WatcherView
        decreases results.len(),
    {
        if results.len() == 0 {
            self
        } else {
            self.fed(results.drop_last(), times.drop_last()).next(
                EventView::CommandFinished { result: results.last() },
                times.last(),
            )
        }
    }

    /// What holds of every state the watcher can be in: a batch is being run
    /// exactly while commands of it are left to launch.
    pub open spec fn consistent(self) -> bool {
        self.phase == Phase::Dispatching <==> !self.dispatch.is_complete()
    }

    /// What a state that was just reached asks of the caller: the launch of
    /// the command that is up while a batch is being run, nothing otherwise.
    pub open spec fn pending(self) -> ActionView {
        match (self.phase, self.dispatch.next_launch()) {
            (Phase::Dispatching, Some(args)) => ActionView::Launch { args },
            _ => ActionView::Wait,
        }
    }

    /// The action that answers an event at time `now`.
    pub open spec fn action(self, event: EventView, now: u64) -> ActionView {
        match event {
            EventView::Signal { code } => if self.accepts(code, now) {
                ActionView::Probe { settle_millis: SETTLE_MILLIS }
            } else {
                ActionView::Wait
            },
            EventView::Inventory { devices } => if self.phase == Phase::Probing {
                self.probed_with(devices, now).pending()
            } else {
                ActionView::Wait
            },
            EventView::CommandFinished { result } => if self.phase == Phase::Dispatching {
                self.launched_with(result, now).pending()
            } else {
                ActionView::Wait
            },
        }
    }
}

/// Holds the presence flag, the cooldown window and the configuration, and
/// takes the events one at a time.
pub struct Watcher {
    monitored: MonitoredSet,
    disconnect_cmds: Vec<String>,
    connect_cmds: Vec<String>,
    presence: PresenceMachine,
    gate: DebounceGate,
    phase: Phase,
    dispatch: Dispatch,
}

impl View for Watcher {
    type V = WatcherView;

    closed spec fn view(&self) -> WatcherView {
        WatcherView {
            monitored: self.monitored@,
            disconnect_cmds: self.disconnect_cmds.deep_view(),
            connect_cmds: self.connect_cmds.deep_view(),
            presence: self.presence@,
            window: self.gate@,
            phase: self.phase,
            dispatch: self.dispatch@,
        }
    }
}

impl Watcher {
    /// Sets the watcher up from its configuration and the inventory found at
    /// startup. The presence flag is what probing that inventory gives; it
    /// is never assumed.
    pub fn new(
        config: &Config,
        inventory: &Option<Vec<DeviceIdentifier>>,
        threshold_millis: u64,
    ) -> (watcher: Watcher)
        ensures
            watcher@ == WatcherView::initial(config@, listed(*inventory), threshold_millis),
    {
        let monitored = MonitoredSet::from_tokens(&config.monitored_devices);
        let present = probe(&monitored, inventory);
        let nothing: Vec<String> = Vec::new();
        assert(nothing.deep_view() =~= Seq::empty());
        Watcher {
            monitored,
            disconnect_cmds: copy_strings(&config.disconnect_cmds),
            connect_cmds: copy_strings(&config.connect_cmds),
            presence: PresenceMachine::new(present),
            gate: DebounceGate::new(threshold_millis),
            phase: Phase::Idle,
            dispatch: Dispatch::new(&nothing),
        }
    }

    /// The last known connectivity of the monitored set.
    pub fn presence(&self) -> (state: PresenceState)
        ensures
            state == self@.presence,
    {
        self.presence.state()
    }

    /// What the watcher is in the middle of.
    pub fn phase(&self) -> (phase: Phase)
        ensures
            phase == self@.phase,
    {
        self.phase
    }

    /// The cooldown window as it stands.
    pub fn window(&self) -> (window: CooldownWindow)
        ensures
            window == self@.window,
    {
        self.gate.window()
    }

    /// The outcomes of the batch in progress or, between batches, of the
    /// last one run: one per command attempted, in batch order.
    pub fn outcomes(&self) -> (outcomes: &Vec<CommandOutcome>)
        ensures
            outcomes.deep_view() == self@.dispatch.outcomes,
    {
        self.dispatch.outcomes()
    }

    /// Takes one event at time `now` and says what to do next.
    ///
    /// A signal is accepted only while idle, with a recognized code and
    /// outside the cooldown; it is answered with `Probe`. The inventory that
    /// follows is probed and evaluated against the presence flag: on a
    /// transition the matching batch is taken up and its first command
    /// launched, otherwise the cycle ends. Each finished command is recorded
    /// and the next one launched, whatever the result. When a cycle ends the
    /// cooldown starts at `now`.
    pub fn step(&mut self, event: Event, now: u64) -> (action: Action)
        ensures
            final(self)@ == old(self)@.next(event@, now),
            action@ == old(self)@.action(event@, now),
    {
        match event {
            Event::Signal { code } => {
                if matches!(self.phase, Phase::Idle) && self.gate.accept(code, now) {
                    self.phase = Phase::Probing;
                    Action::Probe { settle_millis: SETTLE_MILLIS }
                } else {
                    Action::Wait
                }
            },
            Event::Inventory { devices } => {
                if !matches!(self.phase, Phase::Probing) {
                    return Action::Wait;
                }
                let present = probe(&self.monitored, &devices);
                match self.presence.evaluate(present) {
                    TransitionEvent::NoChange => self.settle(now),
                    TransitionEvent::BecameAbsent => {
                        self.dispatch = Dispatch::new(&self.disconnect_cmds);
                        self.launch_or_settle(now)
                    },
                    TransitionEvent::BecamePresent => {
                        self.dispatch = Dispatch::new(&self.connect_cmds);
                        self.launch_or_settle(now)
                    },
                }
            },
            Event::CommandFinished { result } => {
                if !matches!(self.phase, Phase::Dispatching) {
                    return Action::Wait;
                }
                self.dispatch.record(result);
                self.launch_or_settle(now)
            },
        }
    }

    /// Takes a hardware-change notification received at `now`: the entry
    /// point for the event source. The same as `step` with a `Signal` event.
    pub fn on_notification(&mut self, signal_code: u64, now: u64) -> (action: Action)
        ensures
            final(self)@ == old(self)@.next(EventView::Signal { code: signal_code }, now),
            action@ == old(self)@.action(EventView::Signal { code: signal_code }, now),
    {
        self.step(Event::Signal { code: signal_code }, now)
    }

    /// Closes the cycle at `now`.
    fn settle(&mut self, now: u64) -> (action: Action)
        ensures
            final(self)@ == old(self)@.settled(now),
            action@ == ActionView::Wait,
    {
        self.gate.record(now);
        self.phase = Phase::Idle;
        Action::Wait
    }

    /// Launches the command that is up, or closes the cycle at `now` when
    /// none is.
    fn launch_or_settle(&mut self, now: u64) -> (action: Action)
        ensures
            final(self)@ == if old(self)@.dispatch.is_complete() {
                old(self)@.settled(now)
            } else {
                WatcherView { phase: Phase::Dispatching, ..old(self)@ }
            },
            action@ == final(self)@.pending(),
    {
        match self.dispatch.next_launch() {
            Some(args) => {
                self.phase = Phase::Dispatching;
                Action::Launch { args }
            },
            None => self.settle(now),
        }
    }
}

/// No event, whether it fits the phase or not, takes the watcher from a
/// consistent state to one that is not.
pub proof fn lemma_consistency_is_kept(state: WatcherView, event: EventView, now: u64)
    requires
        state.consistent(),
    ensures
        state.next(event, now).consistent(),
{
}

/// The watcher starts out idle and consistent, whatever its configuration
/// and whatever the first inventory.
pub proof fn lemma_initial_state_is_consistent(
    config: ConfigView,
    inventory: Option<Seq<DeviceIdentifier>>,
    threshold_millis: u64,
)
    ensures
        WatcherView::initial(config, inventory, threshold_millis).consistent(),
        WatcherView::initial(config, inventory, threshold_millis).phase == Phase::Idle,
{
}

/// One look per accepted signal. An inventory handed in while probing sets
/// the presence flag to what the probe finds. Where that is no change, or
/// the batch that goes with the change is empty, the cycle ends there and
/// the cooldown starts. Otherwise exactly the batch that goes with the change
/// is taken up, from its first command, and that command is launched.
pub proof fn lemma_inventory_decides_the_batch(
    state: WatcherView,
    inventory: Option<Seq<DeviceIdentifier>>,
    now: u64,
)
    requires
        state.consistent(),
        state.phase == Phase::Probing,
    ensures
        ({
            let event = transition(state.presence, probed(state.monitored, inventory));
            let batch = state.batch_for(event);
            let next = state.next(EventView::Inventory { devices: inventory }, now);
            let action = state.action(EventView::Inventory { devices: inventory }, now);
            &&& next.presence == PresenceState::of(probed(state.monitored, inventory))
            &&& next.consistent()
            &&& batch.len() == 0 ==> {
                &&& next.phase == Phase::Idle
                &&& next.window.last_accepted == Some(now)
                &&& action == ActionView::Wait
            }
            &&& batch.len() > 0 ==> {
                &&& next.phase == Phase::Dispatching
                &&& next.window == state.window
                &&& next.dispatch == DispatchView::start(batch)
                &&& action == ActionView::Launch { args: split_args(batch[0]) }
            }
            &&& event == TransitionEvent::NoChange ==> next.dispatch == state.dispatch
        }),
{
}

/// A batch runs to its end whatever its commands come to. From a state in
/// which a batch is being run, after any `n` launch results, `n` no more than
/// the commands left: the batch has moved on by `n` commands and holds their
/// outcomes; the presence flag is as it was, so no transition is taken back;
/// while commands are left the watcher goes on dispatching with the cooldown
/// window untouched, and asks for the next command's launch; with the last
/// result the watcher is idle again and the cooldown starts at the time of
/// that result.
pub proof fn lemma_batch_runs_to_its_end(
    state: WatcherView,
    results: Seq<LaunchResultView>,
    times: Seq<u64>,
)
    requires
        state.consistent(),
        state.phase == Phase::Dispatching,
        results.len() == times.len(),
        results.len() <= state.dispatch.remaining.len(),
    ensures
        ({
            let end = state.fed(results, times);
            let left = state.dispatch.remaining.len() - results.len();
            &&& end.dispatch == state.dispatch.after(results)
            &&& end.dispatch.remaining == state.dispatch.remaining.skip(results.len() as int)
            &&& end.presence == state.presence
            &&& end.consistent()
            &&& left > 0 ==> {
                &&& end.phase == Phase::Dispatching
                &&& end.window == state.window
                &&& end.pending() == ActionView::Launch {
                    args: split_args(state.dispatch.remaining[results.len() as int]),
                }
            }
            &&& left == 0 ==> {
                &&& end.phase == Phase::Idle
                &&& end.window.last_accepted == Some(times.last())
                &&& end.pending() == ActionView::Wait
            }
        }),
    decreases results.len(),
{
    if results.len() == 0 {
        assert(state.dispatch.remaining.skip(0) =~= state.dispatch.remaining);
    } else {
        let earlier = state.fed(results.drop_last(), times.drop_last());
        lemma_batch_runs_to_its_end(state, results.drop_last(), times.drop_last());
        let end = state.fed(results, times);
        assert(end.dispatch.remaining =~= state.dispatch.remaining.skip(results.len() as int));
    }
}

} // verus!
