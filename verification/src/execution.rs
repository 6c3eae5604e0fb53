//! The command executor: what each command does to the controller state and
//! to the drivers, and how the ignition sequence advances in time.
//!
//! The executor decides; its caller carries out. A command yields the row for
//! the command log, the driver lines to set and the reply to send. The
//! sequence is advanced by asking, with the monotonic clock in hand, what is
//! due.

use vstd::prelude::*;
use crate::clock::Timestamp;
use crate::config::{Action, Configuration, Step};
use crate::incoming::Command;
use crate::outgoing::{ErrorCause, Message};
use crate::logs::{make_text_row, text_row};
use crate::state::{ControllerState, StateGuard};

verus! {

/// A driver line to set to a level.
#[derive(Clone, Copy, Debug, PartialEq, Eq, Structural)]
pub struct Drive {
    /// The driver, by its index in the configuration.
    pub driver_id: u8,
    /// The level to set.
    pub value: bool,
}

/// What the dashboard is told in answer to a command.
#[derive(Clone, Copy, Debug, PartialEq, Eq, Structural)]
pub enum Reply {
    /// The controller is ready.
    Ready,
    /// The driver is protected and the controller is in Standby.
    Permission,
    /// The command names a driver that does not exist.
    UnknownDriver,
    /// An ignition sequence is already running.
    SequenceInProgress,
}

/// An ignition sequence in flight.
#[derive(Clone, Copy, Debug, PartialEq, Eq, Structural)]
pub struct Run {
    /// When the sequence started, on the monotonic clock, in nanoseconds.
    pub started: u64,
    /// The index of the step that comes next.
    pub next: usize,
}

/// What the executor was given to go by: for each driver whether it is
/// protected and what its safe level is, and the ignition sequence.
pub struct Rules {
    /// Whether each driver is protected.
    pub protected: Seq<bool>,
    /// The safe level of each driver.
    pub safe: Seq<bool>,
    /// The steps of the ignition sequence.
    pub sequence: Seq<Step>,
}

/// What the executor keeps track of: the controller state, the level that
/// each driver was last set to, and the sequence in flight.
pub struct Stand {
    /// The controller state.
    pub state: ControllerState,
    /// The commanded level of each driver.
    pub levels: Seq<bool>,
    /// The ignition sequence in flight, if any.
    pub run: Option<Run>,
}

/// What is due in an ignition sequence.
#[derive(Debug, PartialEq, Eq)]
pub enum Progress {
    /// No sequence is running.
    Idle,
    /// Nothing is due before `until`, a time on the monotonic clock in
    /// nanoseconds.
    Wait { until: u64 },
    /// A step was due that sets a driver: set the line.
    Actuated { drive: Drive },
    /// A step was due that only lets time pass.
    Slept,
    /// The sequence is over and the controller is back in Standby: set every
    /// line to its safe level.
    Finished { drives: Vec<Drive> },
}

/// What a command leads to, in the order in which it is to be carried out.
#[derive(Debug, PartialEq, Eq)]
pub struct Outcome {
    /// The row to append to the command log.
    pub log_row: Vec<u8>,
    /// The driver lines to set.
    pub drives: Vec<Drive>,
    /// The message to send to the dashboard, if there is one.
    pub reply: Option<Reply>,
}

impl Reply {
    /// The message that carries the reply to the dashboard, where
    /// `original_message` is the command as it was received. A refusal for
    /// want of permission is an error of cause `Permission`. The two other
    /// refusals are errors of cause `Malformed`, which hand the command back.
    pub open spec fn carried<'a>(&self, original_message: &'a str) -> Message<'a> {
        match self {
            Reply::Ready => Message::Ready,
            Reply::Permission => Message::Error {
                cause: ErrorCause::Permission,
                diagnostic: "driver is protected while the controller is in standby",
            },
            Reply::UnknownDriver => Message::Error {
                cause: ErrorCause::Malformed { original_message },
                diagnostic: "no such driver",
            },
            Reply::SequenceInProgress => Message::Error {
                cause: ErrorCause::Malformed { original_message },
                diagnostic: "sequence in progress",
            },
        }
    }

    /// The message that carries the reply to the dashboard, where
    /// `original_message` is the command as it was received.
    pub fn message<'a>(&self, original_message: &'a str) -> (message: Message<'a>)
        ensures
            message == self.carried(original_message),
    {
        match self {
            Reply::Ready => Message::Ready,
            Reply::Permission => Message::Error {
                cause: ErrorCause::Permission,
                diagnostic: "driver is protected while the controller is in standby",
            },
            Reply::UnknownDriver => Message::Error {
                cause: ErrorCause::Malformed { original_message },
                diagnostic: "no such driver",
            },
            Reply::SequenceInProgress => Message::Error {
                cause: ErrorCause::Malformed { original_message },
                diagnostic: "sequence in progress",
            },
        }
    }
}

/// The rules that a configuration gives.
pub open spec fn rules_of(config: &Configuration) -> Rules {
    Rules {
        protected: Seq::new(config.drivers@.len(), |i: int| config.drivers@[i].protected),
        safe: Seq::new(config.drivers@.len(), |i: int| config.drivers@[i].safe_level),
        sequence: config.ignition_sequence@,
    }
}

/// The stand at rest: Standby, every driver at its safe level, no sequence.
pub open spec fn at_rest(rules: Rules) -> Stand {
    Stand { state: ControllerState::Standby, levels: rules.safe, run: None }
}

/// What sets every driver to its safe level, in the order of the drivers.
pub open spec fn safe_drives(safe: Seq<bool>) -> Seq<Drive> {
    Seq::new(safe.len(), |i: int| Drive { driver_id: i as u8, value: safe[i] })
}

/// The reply that a command gets, if it gets one.
///
/// `Ready` is answered by `Ready`. `Actuate` is refused for a driver that does
/// not exist, and for a protected driver while the controller is in Standby.
/// `Ignition` is refused unless the controller is in Standby. What is not
/// refused is carried out without a reply.
pub open spec fn reply_to(rules: Rules, stand: Stand, command: Command) -> Option<Reply> {
    match command {
        Command::Ready => Some(Reply::Ready),
        Command::Actuate { driver_id, value } => if driver_id as int >= rules.safe.len() {
            Some(Reply::UnknownDriver)
        } else if rules.protected[driver_id as int] && stand.state == ControllerState::Standby {
            Some(Reply::Permission)
        } else {
            None
        },
        Command::EmergencyStop => None,
        Command::Ignition => if stand.state == ControllerState::Standby {
            None
        } else {
            Some(Reply::SequenceInProgress)
        },
    }
}

/// The driver lines that a command sets: the one line of an `Actuate` that is
/// not refused, every line for an `EmergencyStop`, none otherwise.
pub open spec fn drives_for(rules: Rules, stand: Stand, command: Command) -> Seq<Drive> {
    match command {
        Command::Actuate { driver_id, value } => if reply_to(rules, stand, command) is None {
            seq![Drive { driver_id, value }]
        } else {
            Seq::empty()
        },
        Command::EmergencyStop => safe_drives(rules.safe),
        _ => Seq::empty(),
    }
}

/// The stand after a command that arrived at `now` on the monotonic clock.
///
/// An `Actuate` that is not refused sets the level of its driver. An
/// `EmergencyStop` puts the stand at rest, whatever it was doing. An
/// `Ignition` that is not refused enters Ignite, by way of PreIgnite, and
/// starts the sequence at `now`. Nothing else changes anything.
pub open spec fn after_command(rules: Rules, stand: Stand, command: Command, now: u64) -> Stand {
    match command {
        Command::Ready => stand,
        Command::Actuate { driver_id, value } => if reply_to(rules, stand, command) is None {
            Stand { levels: stand.levels.update(driver_id as int, value), ..stand }
        } else {
            stand
        },
        Command::EmergencyStop => at_rest(rules),
        Command::Ignition => if reply_to(rules, stand, command) is None {
            Stand {
                state: ControllerState::Ignite,
                run: Some(Run { started: now, next: 0 }),
                ..stand
            }
        } else {
            stand
        },
    }
}

/// When a step is due that lies `offset_ms` milliseconds into a sequence
/// started at `started`: a time on the monotonic clock, in nanoseconds, or
/// the last such time where the clock cannot count that far.
pub open spec fn deadline(started: u64, offset_ms: u32) -> u64 {
    if started + offset_ms * 1_000_000 <= u64::MAX {
        (started + offset_ms * 1_000_000) as u64
    } else {
        u64::MAX
    }
}

/// The stand after asking, at `now`, what is due in the sequence.
///
/// Without a sequence nothing changes. A sequence whose steps are all done
/// ends: the stand is at rest again. A step that is due is done: an `Actuate`
/// sets the level of its driver, and in either case the sequence moves on to
/// the next step. A step that is not due yet changes nothing.
pub open spec fn after_advance(rules: Rules, stand: Stand, now: u64) -> Stand {
    match stand.run {
        None => stand,
        Some(run) => if run.next >= rules.sequence.len() {
            at_rest(rules)
        } else if now < deadline(run.started, rules.sequence[run.next as int].offset_ms) {
            stand
        } else {
            let moved = Some(Run { started: run.started, next: (run.next + 1) as usize });
            match rules.sequence[run.next as int].action {
                Action::Actuate { driver_id, value } => Stand {
                    levels: stand.levels.update(driver_id as int, value),
                    run: moved,
                    ..stand
                },
                Action::Sleep => Stand { run: moved, ..stand },
            }
        },
    }
}

/// What asking at `now` finds to be due: see `after_advance`.
pub open spec fn progress_at(rules: Rules, stand: Stand, now: u64) -> ProgressView {
    match stand.run {
        None => ProgressView::Idle,
        Some(run) => if run.next >= rules.sequence.len() {
            ProgressView::Finished { drives: safe_drives(rules.safe) }
        } else if now < deadline(run.started, rules.sequence[run.next as int].offset_ms) {
            ProgressView::Wait {
                until: deadline(run.started, rules.sequence[run.next as int].offset_ms),
            }
        } else {
            match rules.sequence[run.next as int].action {
                Action::Actuate { driver_id, value } => ProgressView::Actuated {
                    drive: Drive { driver_id, value },
                },
                Action::Sleep => ProgressView::Slept,
            }
        },
    }
}

/// What a `Progress` says, with its list as a sequence.
pub enum ProgressView {
    Idle,
    Wait { until: u64 },
    Actuated { drive: Drive },
    Slept,
    Finished { drives: Seq<Drive> },
}

impl Progress {
    /// What this value says.
    pub open spec fn view(&self) -> ProgressView {
        match self {
            Progress::Idle => ProgressView::Idle,
            Progress::Wait { until } => ProgressView::Wait { until: *until },
            Progress::Actuated { drive } => ProgressView::Actuated { drive: *drive },
            Progress::Slept => ProgressView::Slept,
            Progress::Finished { drives } => ProgressView::Finished { drives: drives@ },
        }
    }
}

/// Whether a stand can be what an executor with these rules keeps track of:
/// the rules name at most 256 drivers and a level is kept for each, the
/// sequence is one that fits in memory and every step of it names one of the
/// drivers, and a sequence is in flight exactly while the state is Ignite,
/// the only state besides Standby that outlasts a command.
pub open spec fn consistent(rules: Rules, stand: Stand) -> bool {
    &&& rules.safe.len() <= 256
    &&& rules.protected.len() == rules.safe.len()
    &&& stand.levels.len() == rules.safe.len()
    &&& rules.sequence.len() <= usize::MAX
    &&& forall|i: int|
        0 <= i < rules.sequence.len() ==> (#[trigger] rules.sequence[i]).resolves(rules.safe.len())
    &&& stand.run is Some <==> stand.state == ControllerState::Ignite
    &&& stand.run is None <==> stand.state == ControllerState::Standby
    &&& stand.run is Some ==> stand.run->0.next <= rules.sequence.len()
}

/// The command executor.
pub struct Executor {
    protected: Vec<bool>,
    safe: Vec<bool>,
    sequence: Vec<Step>,
    guard: StateGuard,
    levels: Vec<bool>,
    run: Option<Run>,
}

impl Executor {
    /// What the executor goes by.
    pub closed spec fn rules(&self) -> Rules {
        Rules { protected: self.protected@, safe: self.safe@, sequence: self.sequence@ }
    }

    /// What the executor keeps track of.
    pub closed spec fn stand(&self) -> Stand {
        Stand { state: self.guard.current(), levels: self.levels@, run: self.run }
    }

    /// Whether rules and stand fit together: true of every executor that
    /// `new` made, whatever it was asked since.
    pub open spec fn sound(&self) -> bool {
        consistent(self.rules(), self.stand())
    }

    /// An executor for a stand at rest, or the reason for which the
    /// configuration is refused.
    pub fn new(config: &Configuration) -> (made: Result<Executor, crate::config::ConfigFault>)
        ensures
            made is Ok <==> config.well_formed(),
            made matches Ok(executor) ==> executor.sound() && executor.rules() == rules_of(config)
                && executor.stand() == at_rest(rules_of(config)),
            made matches Err(fault) ==> config.first_fault(fault),
    {
        match config.validate() {
            Ok(()) => {},
            Err(fault) => {
                return Err(fault);
            },
        }
        let mut protected: Vec<bool> = Vec::new();
        let mut safe: Vec<bool> = Vec::new();
        let mut levels: Vec<bool> = Vec::new();
        let mut i: usize = 0;
        while i < config.drivers.len()
            invariant
                i <= config.drivers.len(),
                protected@ == rules_of(config).protected.take(i as int),
                safe@ == rules_of(config).safe.take(i as int),
                levels@ == safe@,
            decreases config.drivers.len() - i,
        {
            protected.push(config.drivers[i].protected);
            safe.push(config.drivers[i].safe_level);
            levels.push(config.drivers[i].safe_level);
            proof {
                assert(protected@ =~= rules_of(config).protected.take(i as int + 1));
                assert(safe@ =~= rules_of(config).safe.take(i as int + 1));
                assert(levels@ =~= safe@);
            }
            i += 1;
        }
        let mut sequence: Vec<Step> = Vec::new();
        let mut k: usize = 0;
        while k < config.ignition_sequence.len()
            invariant
                k <= config.ignition_sequence.len(),
                sequence@ == config.ignition_sequence@.take(k as int),
            decreases config.ignition_sequence.len() - k,
        {
            sequence.push(config.ignition_sequence[k]);
            proof {
                assert(sequence@ =~= config.ignition_sequence@.take(k as int + 1));
            }
            k += 1;
        }
        proof {
            assert(protected@ =~= rules_of(config).protected);
            assert(safe@ =~= rules_of(config).safe);
            assert(sequence@ =~= config.ignition_sequence@);
        }
        let executor = Executor {
            protected,
            safe,
            sequence,
            guard: StateGuard::new(ControllerState::Standby),
            levels,
            run: None,
        };
        Ok(executor)
    }

    /// The controller state.
    pub fn state(&self) -> (state: ControllerState)
        ensures
            state == self.stand().state,
    {
        self.guard.get()
    }

    /// The level that each driver was last set to.
    pub fn levels(&self) -> (levels: &[bool])
        ensures
            levels@ == self.stand().levels,
    {
        self.levels.as_slice()
    }

    /// Whether an ignition sequence is in flight.
    pub fn running(&self) -> (running: bool)
        ensures
            running == (self.stand().run is Some),
    {
        self.run.is_some()
    }

    /// What sets every driver to its safe level.
    fn make_safe(&self) -> (drives: Vec<Drive>)
        requires
            self.sound(),
        ensures
            drives@ == safe_drives(self.rules().safe),
    {
        let mut drives: Vec<Drive> = Vec::new();
        let mut i: usize = 0;
        while i < self.safe.len()
            invariant
                i <= self.safe.len() <= 256,
                drives@ == safe_drives(self.safe@).take(i as int),
            decreases self.safe.len() - i,
        {
            drives.push(Drive { driver_id: i as u8, value: self.safe[i] });
            proof {
                assert(drives@ =~= safe_drives(self.safe@).take(i as int + 1));
            }
            i += 1;
        }
        proof {
            assert(drives@ =~= safe_drives(self.safe@));
        }
        drives
    }

    /// Puts the stand at rest.
    fn rest(&mut self)
        requires
            old(self).sound(),
        ensures
            final(self).sound(),
            final(self).rules() == old(self).rules(),
            final(self).stand() == at_rest(old(self).rules()),
    {
        self.guard.force_standby();
        self.run = None;
        let mut i: usize = 0;
        while i < self.levels.len()
            invariant
                i <= self.levels.len(),
                self.levels.len() == self.safe.len(),
                self.rules() == old(self).rules(),
                self.guard.current() == ControllerState::Standby,
                self.run is None,
                forall|k: int| 0 <= k < i ==> self.levels@[k] == self.safe@[k],
            decreases self.levels.len() - i,
        {
            let level = self.safe[i];
            self.levels.set(i, level);
            i += 1;
        }
        proof {
            assert(self.levels@ =~= self.safe@);
        }
    }

    /// Handles a command that arrived at `wall` by the wall clock and at
    /// `now` on the monotonic clock.
    pub fn handle_command(&mut self, command: &Command, wall: Timestamp, now: u64) -> (outcome:
        Outcome)
        requires
            old(self).sound(),
        ensures
            final(self).sound(),
            final(self).rules() == old(self).rules(),
            final(self).stand() == after_command(old(self).rules(), old(self).stand(), *command, now),
            outcome.log_row@ == text_row(wall, command.wire()),
            outcome.drives@ == drives_for(old(self).rules(), old(self).stand(), *command),
            outcome.reply == reply_to(old(self).rules(), old(self).stand(), *command),
    {
        let text = command.to_json();
        let log_row = make_text_row(wall, text.as_slice());
        let mut drives: Vec<Drive> = Vec::new();
        let mut reply: Option<Reply> = None;
        match *command {
            Command::Ready => {
                reply = Some(Reply::Ready);
            },
            Command::Actuate { driver_id, value } => {
                let id = driver_id as usize;
                if id >= self.safe.len() {
                    reply = Some(Reply::UnknownDriver);
                } else if self.protected[id] && matches!(self.guard.get(), ControllerState::Standby) {
                    reply = Some(Reply::Permission);
                } else {
                    self.levels.set(id, value);
                    drives.push(Drive { driver_id, value });
                    assert(drives@ =~= seq![Drive { driver_id, value }]);
                }
            },
            Command::EmergencyStop => {
                drives = self.make_safe();
                self.rest();
            },
            Command::Ignition => {
                // Only Standby leads to PreIgnite, so the guard refuses an
                // ignition in any other state.
                if self.guard.try_transition(ControllerState::PreIgnite).is_ok()
                    && self.guard.try_transition(ControllerState::Ignite).is_ok() {
                    self.run = Some(Run { started: now, next: 0 });
                } else {
                    reply = Some(Reply::SequenceInProgress);
                }
            },
        }
        Outcome { log_row, drives, reply }
    }

    /// Says what is due in the ignition sequence at `now` on the monotonic
    /// clock, and takes note that it is being done.
    pub fn advance(&mut self, now: u64) -> (progress: Progress)
        requires
            old(self).sound(),
        ensures
            final(self).sound(),
            final(self).rules() == old(self).rules(),
            final(self).stand() == after_advance(old(self).rules(), old(self).stand(), now),
            progress@ == progress_at(old(self).rules(), old(self).stand(), now),
    {
        let run = match self.run {
            None => {
                return Progress::Idle;
            },
            Some(run) => run,
        };
        if run.next >= self.sequence.len() {
            let drives = self.make_safe();
            self.rest();
            return Progress::Finished { drives };
        }
        let step = self.sequence[run.next];
        let due_at: u128 = run.started as u128 + (step.offset_ms as u128) * 1_000_000u128;
        let due: u64 = if due_at <= u64::MAX as u128 {
            due_at as u64
        } else {
            u64::MAX
        };
        if now < due {
            return Progress::Wait { until: due };
        }
        self.run = Some(Run { started: run.started, next: run.next + 1 });
        match step.action {
            Action::Actuate { driver_id, value } => {
                self.levels.set(driver_id as usize, value);
                Progress::Actuated { drive: Drive { driver_id, value } }
            },
            Action::Sleep => Progress::Slept,
        }
    }
}

/// The stand after a run of commands, each with the time on the monotonic
/// clock at which it arrived.
pub open spec fn after_commands(rules: Rules, stand: Stand, arrivals: Seq<(Command, u64)>) -> Stand
    decreases arrivals.len(),
{
    if arrivals.len() == 0 {
        stand
    } else {
        after_command(
            rules,
            after_commands(rules, stand, arrivals.drop_last()),
            arrivals.last().0,
            arrivals.last().1,
        )
    }
}

/// The controller state after a run of commands without an `Ignition`, read
/// off the commands alone: Standby once an `EmergencyStop` has come, and the
/// state it started in until then.
pub open spec fn settled_state(state: ControllerState, arrivals: Seq<(Command, u64)>) -> ControllerState
    decreases arrivals.len(),
{
    if arrivals.len() == 0 {
        state
    } else if arrivals.last().0 == Command::EmergencyStop {
        ControllerState::Standby
    } else {
        settled_state(state, arrivals.drop_last())
    }
}

/// The level that a run of commands without an `Ignition` leaves a driver
/// at, read off the commands alone: the level of the last `EmergencyStop` or
/// `Actuate` that bears on the driver. An `EmergencyStop` bears on every
/// driver and sets its safe level. An `Actuate` bears on the driver it names,
/// unless the driver is protected and the controller is in Standby by then.
/// Where no command bears on the driver, it keeps the level it had.
pub open spec fn settled_level(
    rules: Rules,
    stand: Stand,
    arrivals: Seq<(Command, u64)>,
    driver: int,
) -> bool
    decreases arrivals.len(),
{
    if arrivals.len() == 0 {
        stand.levels[driver]
    } else {
        match arrivals.last().0 {
            Command::EmergencyStop => rules.safe[driver],
            Command::Actuate { driver_id, value } => if driver_id == driver && !(
            rules.protected[driver] && settled_state(stand.state, arrivals.drop_last())
                == ControllerState::Standby) {
                value
            } else {
                settled_level(rules, stand, arrivals.drop_last(), driver)
            },
            _ => settled_level(rules, stand, arrivals.drop_last(), driver),
        }
    }
}

/// No command breaks the fit of rules and stand.
pub proof fn command_keeps_consistent(rules: Rules, stand: Stand, command: Command, now: u64)
    requires
        consistent(rules, stand),
    ensures
        consistent(rules, after_command(rules, stand, command, now)),
{
}

/// Asking what is due does not break the fit of rules and stand.
pub proof fn advance_keeps_consistent(rules: Rules, stand: Stand, now: u64)
    requires
        consistent(rules, stand),
    ensures
        consistent(rules, after_advance(rules, stand, now)),
{
}

/// Without an `Ignition` among them, commands leave every driver at the
/// level of the last command that bears on it: the last `Actuate` for it that
/// was not refused, unless an `EmergencyStop` came later, which leaves it at
/// its safe level. The controller is in Standby once an `EmergencyStop` has
/// come, and until then in the state it started in.
pub proof fn levels_follow_commands(
    rules: Rules,
    stand: Stand,
    arrivals: Seq<(Command, u64)>,
    driver: int,
)
    requires
        consistent(rules, stand),
        forall|i: int| 0 <= i < arrivals.len() ==> (#[trigger] arrivals[i]).0 != Command::Ignition,
        0 <= driver < rules.safe.len(),
    ensures
        consistent(rules, after_commands(rules, stand, arrivals)),
        after_commands(rules, stand, arrivals).state == settled_state(stand.state, arrivals),
        after_commands(rules, stand, arrivals).levels[driver] == settled_level(
            rules,
            stand,
            arrivals,
            driver,
        ),
    decreases arrivals.len(),
{
    if arrivals.len() > 0 {
        let earlier = arrivals.drop_last();
        assert forall|i: int| 0 <= i < earlier.len() implies (#[trigger] earlier[i]).0
            != Command::Ignition by {
            assert(earlier[i] == arrivals[i]);
        }
        levels_follow_commands(rules, stand, earlier, driver);
        let before = after_commands(rules, stand, earlier);
        assert(arrivals.last() == arrivals[arrivals.len() - 1]);
        command_keeps_consistent(rules, before, arrivals.last().0, arrivals.last().1);
    }
}

/// An `EmergencyStop` is never refused, whatever the stand is doing, an
/// ignition sequence included. It sets every driver to its safe level and
/// leaves the stand at rest: in Standby, with no sequence in flight, so that
/// nothing is due any more and the next `Ignition` is accepted.
pub proof fn emergency_stop_makes_safe(rules: Rules, stand: Stand, now: u64, later: u64)
    requires
        consistent(rules, stand),
    ensures
        reply_to(rules, stand, Command::EmergencyStop) is None,
        drives_for(rules, stand, Command::EmergencyStop) == safe_drives(rules.safe),
        after_command(rules, stand, Command::EmergencyStop, now) == at_rest(rules),
        at_rest(rules).state == ControllerState::Standby,
        at_rest(rules).levels == rules.safe,
        progress_at(rules, at_rest(rules), later) == ProgressView::Idle,
        after_advance(rules, at_rest(rules), later) == at_rest(rules),
        reply_to(rules, at_rest(rules), Command::Ignition) is None,
{
}

/// While a sequence is in flight a second `Ignition` is refused and changes
/// nothing: at most one sequence runs at a time.
pub proof fn one_sequence_at_a_time(rules: Rules, stand: Stand, now: u64)
    requires
        consistent(rules, stand),
        stand.run is Some,
    ensures
        reply_to(rules, stand, Command::Ignition) == Some(Reply::SequenceInProgress),
        after_command(rules, stand, Command::Ignition, now) == stand,
{
}

/// The stand after asking what is due at each of a run of times, in order.
pub open spec fn after_advances(rules: Rules, stand: Stand, times: Seq<u64>) -> Stand
    decreases times.len(),
{
    if times.len() == 0 {
        stand
    } else {
        after_advances(rules, after_advance(rules, stand, times[0]), times.skip(1))
    }
}

/// A sequence that is left alone runs to its end: asked once for each step
/// that is left, and once more, at times at which those steps are due, the
/// stand does them all and comes to rest, in Standby with every driver at
/// its safe level.
pub proof fn sequence_runs_to_rest(rules: Rules, stand: Stand, times: Seq<u64>)
    requires
        consistent(rules, stand),
        stand.run is Some,
        times.len() == rules.sequence.len() - stand.run->0.next + 1,
        forall|i: int, k: int|
            0 <= i < times.len() && stand.run->0.next <= k < rules.sequence.len() ==> #[trigger] times[i]
                >= deadline(stand.run->0.started, (#[trigger] rules.sequence[k]).offset_ms),
    ensures
        after_advances(rules, stand, times) == at_rest(rules),
    decreases times.len(),
{
    let run = stand.run->0;
    let next = after_advance(rules, stand, times[0]);
    advance_keeps_consistent(rules, stand, times[0]);
    if run.next >= rules.sequence.len() {
        assert(times.skip(1).len() == 0);
        assert(after_advances(rules, next, times.skip(1)) == next);
    } else {
        assert(times[0] >= deadline(run.started, rules.sequence[run.next as int].offset_ms));
        assert(next.run == Some(Run { started: run.started, next: (run.next + 1) as usize }));
        let rest = times.skip(1);
        assert forall|i: int, k: int|
            0 <= i < rest.len() && next.run->0.next <= k < rules.sequence.len() implies #[trigger] rest[i]
                >= deadline(next.run->0.started, (#[trigger] rules.sequence[k]).offset_ms) by {
            assert(rest[i] == times[i + 1]);
        }
        sequence_runs_to_rest(rules, next, rest);
    }
}

/// The levels of the driver lines after a run of drives was carried out on
/// them, in order.
pub open spec fn driven(lines: Seq<bool>, drives: Seq<Drive>) -> Seq<bool>
    decreases drives.len(),
{
    if drives.len() == 0 {
        lines
    } else {
        let before = driven(lines, drives.drop_last());
        if (drives.last().driver_id as int) < before.len() {
            before.update(drives.last().driver_id as int, drives.last().value)
        } else {
            before
        }
    }
}

/// The drives that a `Progress` asks for.
pub open spec fn drives_of(progress: ProgressView) -> Seq<Drive> {
    match progress {
        ProgressView::Actuated { drive } => seq![drive],
        ProgressView::Finished { drives } => drives,
        _ => Seq::empty(),
    }
}

/// Carrying out the first drives of those that make every driver safe makes
/// the first drivers safe and leaves the others as they were.
proof fn safe_drives_make_safe(lines: Seq<bool>, safe: Seq<bool>, count: int)
    requires
        lines.len() == safe.len() <= 256,
        0 <= count <= safe.len(),
    ensures
        driven(lines, safe_drives(safe).take(count)).len() == lines.len(),
        forall|i: int|
            0 <= i < lines.len() ==> #[trigger] driven(lines, safe_drives(safe).take(count))[i] == if i
                < count {
                safe[i]
            } else {
                lines[i]
            },
    decreases count,
{
    if count > 0 {
        safe_drives_make_safe(lines, safe, count - 1);
        assert(safe_drives(safe).take(count).drop_last() =~= safe_drives(safe).take(count - 1));
    }
}

/// The driver lines follow the stand through every command: where the lines
/// are at the levels that the stand keeps, carrying out the drives of a
/// command leaves them at the levels that the stand keeps after it.
pub proof fn lines_follow_commands(rules: Rules, stand: Stand, command: Command, now: u64)
    requires
        consistent(rules, stand),
    ensures
        driven(stand.levels, drives_for(rules, stand, command)) == after_command(
            rules,
            stand,
            command,
            now,
        ).levels,
{
    let drives = drives_for(rules, stand, command);
    assert(driven(stand.levels, Seq::<Drive>::empty()) == stand.levels);
    match command {
        Command::EmergencyStop => {
            safe_drives_make_safe(stand.levels, rules.safe, rules.safe.len() as int);
            assert(safe_drives(rules.safe).take(rules.safe.len() as int) =~= safe_drives(rules.safe));
            assert(driven(stand.levels, drives) =~= rules.safe);
        },
        Command::Actuate { driver_id, value } => {
            if reply_to(rules, stand, command) is None {
                assert(drives.drop_last() =~= Seq::<Drive>::empty());
                assert(driven(stand.levels, drives) == stand.levels.update(
                    driver_id as int,
                    value,
                ));
            }
        },
        _ => {},
    }
}

/// The driver lines follow the stand through the ignition sequence: where
/// the lines are at the levels that the stand keeps, carrying out what is
/// found to be due leaves them at the levels that the stand keeps after it.
pub proof fn lines_follow_sequence(rules: Rules, stand: Stand, now: u64)
    requires
        consistent(rules, stand),
    ensures
        driven(stand.levels, drives_of(progress_at(rules, stand, now))) == after_advance(
            rules,
            stand,
            now,
        ).levels,
{
    let drives = drives_of(progress_at(rules, stand, now));
    assert(driven(stand.levels, Seq::<Drive>::empty()) == stand.levels);
    match progress_at(rules, stand, now) {
        ProgressView::Finished { .. } => {
            safe_drives_make_safe(stand.levels, rules.safe, rules.safe.len() as int);
            assert(safe_drives(rules.safe).take(rules.safe.len() as int) =~= safe_drives(rules.safe));
            assert(driven(stand.levels, drives) =~= rules.safe);
        },
        ProgressView::Actuated { drive } => {
            assert(drives.drop_last() =~= Seq::<Drive>::empty());
            assert(rules.sequence[stand.run->0.next as int].resolves(rules.safe.len()));
            assert(driven(stand.levels, drives) == stand.levels.update(
                drive.driver_id as int,
                drive.value,
            ));
        },
        _ => {},
    }
}

} // verus!
