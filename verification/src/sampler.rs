//! The sampler of one sensor group: what one round of reads leads to. Every
//! reading is logged and joins the rolling window of its sensor; a failed
//! read is reported; the dashboard gets the latest readings, but no more
//! often than the group allows; and the next round gets its deadline.

use vstd::prelude::*;
use crate::clock::Timestamp;
use crate::config::SensorGroup;
use crate::logs::{make_reading_row, reading_row};
use crate::outgoing::{ErrorCause, Message, SensorReading};
use crate::state::ControllerState;
use crate::window::{slid, RollingWindow, Sample};

verus! {

/// What became of the read of one sensor.
#[derive(Debug, PartialEq, Eq)]
pub enum Logged {
    /// The read succeeded: append this row to the log of the sensor.
    Row(Vec<u8>),
    /// The read failed: report it to the dashboard.
    Failed { group_id: u8, sensor_id: u8 },
}

/// What a `Logged` says, with its row as a sequence.
pub enum LoggedView {
    Row(Seq<u8>),
    Failed { group_id: u8, sensor_id: u8 },
}

impl Logged {
    /// What this value says.
    pub open spec fn view(&self) -> LoggedView {
        match self {
            Logged::Row(row) => LoggedView::Row(row@),
            Logged::Failed { group_id, sensor_id } => LoggedView::Failed {
                group_id: *group_id,
                sensor_id: *sensor_id,
            },
        }
    }
}

/// What one round of reads leads to.
#[derive(Debug, PartialEq, Eq)]
pub struct Sampling {
    /// For each sensor of the group, in order, what became of its read.
    pub sensors: Vec<Logged>,
    /// The readings to send to the dashboard as one `SensorValue`, if the
    /// round sends one.
    pub readings: Option<Vec<SensorReading>>,
}

/// The sampling period for a rate: a second divided by the rate, in
/// nanoseconds, rounded down.
pub open spec fn period_of(hz: u32) -> u64 {
    (1_000_000_000int / hz as int) as u64
}

/// What a sampler goes by: the index of its group, how many sensors it has,
/// how many samples each window holds, and the three periods in nanoseconds.
pub struct Cadence {
    pub group_id: u8,
    pub sensors: nat,
    pub capacity: nat,
    pub standby_period: u64,
    pub ignite_period: u64,
    pub dash_period: u64,
}

/// What a sampler keeps track of: the window of each sensor, the deadline of
/// the next round and the time of the last message to the dashboard, both on
/// the monotonic clock in nanoseconds.
pub struct Track {
    pub windows: Seq<Seq<Sample>>,
    pub next_round: u64,
    pub last_emit: Option<u64>,
}

/// The cadence that a group of the configuration gives.
pub open spec fn cadence_of(group_id: u8, group: &SensorGroup) -> Cadence {
    Cadence {
        group_id,
        sensors: group.sensors@.len(),
        capacity: group.window_size as nat,
        standby_period: period_of(group.frequency_standby_hz),
        ignite_period: period_of(group.frequency_ignite_hz),
        dash_period: period_of(group.frequency_dash_hz),
    }
}

/// The sampling period in a controller state: the standby period in Standby,
/// the ignite period in PreIgnite and in Ignite.
pub open spec fn sampling_period(cadence: Cadence, state: ControllerState) -> u64 {
    if state == ControllerState::Standby {
        cadence.standby_period
    } else {
        cadence.ignite_period
    }
}

/// The read of sensor `sensor` in a round of reads; a round that is too short
/// counts as failed reads for the sensors it leaves out.
pub open spec fn read_of(reads: Seq<Option<Sample>>, sensor: int) -> Option<Sample> {
    if 0 <= sensor < reads.len() {
        reads[sensor]
    } else {
        None
    }
}

/// A reading as it is logged: with the time at which it was read, or, where
/// the clock has not moved past the reading logged before it, with the
/// nanosecond after that one.
pub open spec fn stamped(window: Seq<Sample>, read: Sample) -> Sample {
    if window.len() > 0 {
        Sample { raw: read.raw, time: read.time.following(window.last().time) }
    } else {
        read
    }
}

/// The window of a sensor after its read: a reading joins it as it is logged;
/// a failed read changes nothing.
pub open spec fn window_after(window: Seq<Sample>, capacity: nat, read: Option<Sample>) -> Seq<
    Sample,
> {
    match read {
        Some(read) => slid(window, capacity, stamped(window, read)),
        None => window,
    }
}

/// What becomes of the read of sensor `sensor`: a reading gives a row of the
/// log, a failed read a report.
pub open spec fn logged_for(
    cadence: Cadence,
    sensor: int,
    window: Seq<Sample>,
    read: Option<Sample>,
) -> LoggedView {
    match read {
        Some(read) => LoggedView::Row(reading_row(stamped(window, read).time, read.raw)),
        None => LoggedView::Failed { group_id: cadence.group_id, sensor_id: sensor as u8 },
    }
}

/// The windows after a round of reads.
pub open spec fn windows_after(
    windows: Seq<Seq<Sample>>,
    capacity: nat,
    reads: Seq<Option<Sample>>,
) -> Seq<Seq<Sample>> {
    Seq::new(windows.len(), |s: int| window_after(windows[s], capacity, read_of(reads, s)))
}

/// The latest reading of each sensor that has one, in the order of the
/// sensors: the newest sample of its window, not a mean.
pub open spec fn latest_readings(windows: Seq<Seq<Sample>>) -> Seq<SensorReading>
    decreases windows.len(),
{
    if windows.len() == 0 {
        Seq::empty()
    } else {
        let earlier = latest_readings(windows.drop_last());
        let window = windows.last();
        if window.len() > 0 {
            earlier.push(
                SensorReading {
                    sensor_id: (windows.len() - 1) as u8,
                    reading: window.last().raw,
                    time: window.last().time,
                },
            )
        } else {
            earlier
        }
    }
}

/// Whether a round at `now` sends to the dashboard: a subscriber is
/// connected, and the dashboard period has passed since the last message, or
/// there was none.
pub open spec fn emits(last_emit: Option<u64>, dash_period: u64, now: u64, connected: bool) -> bool {
    connected && match last_emit {
        Some(last) => now >= last + dash_period,
        None => true,
    }
}

/// The deadline of the round after one that was due at `due` and is over at
/// `now`: one period after `due`; or `now`, where that lies more than one
/// period in the past. Missed rounds are dropped, not made up for.
pub open spec fn next_deadline(due: u64, period: u64, now: u64) -> u64 {
    let stepped: int = if due + period <= u64::MAX { due + period } else { u64::MAX as int };
    if stepped + period < now {
        now
    } else {
        stepped as u64
    }
}

/// What the sampler keeps track of after a round of reads that is over at
/// `now`, in controller state `state`, with or without a subscriber.
pub open spec fn after_round(
    cadence: Cadence,
    track: Track,
    reads: Seq<Option<Sample>>,
    now: u64,
    state: ControllerState,
    connected: bool,
) -> Track {
    Track {
        windows: windows_after(track.windows, cadence.capacity, reads),
        next_round: next_deadline(track.next_round, sampling_period(cadence, state), now),
        last_emit: if emits(track.last_emit, cadence.dash_period, now, connected) {
            Some(now)
        } else {
            track.last_emit
        },
    }
}

/// The message that reports a failed read.
pub fn failure_message(group_id: u8, sensor_id: u8) -> (message: Message<'static>)
    ensures
        message == (Message::Error {
            cause: ErrorCause::SensorFail { group_id, sensor_id },
            diagnostic: "sensor read failed",
        }),
{
    Message::Error {
        cause: ErrorCause::SensorFail { group_id, sensor_id },
        diagnostic: "sensor read failed",
    }
}

/// The sampler of one sensor group.
pub struct Sampler {
    group_id: u8,
    capacity: u32,
    standby_period: u64,
    ignite_period: u64,
    dash_period: u64,
    windows: Vec<RollingWindow>,
    next_round: u64,
    last_emit: Option<u64>,
}

/// The windows of a list, each as its samples.
pub open spec fn windows_of(windows: Seq<RollingWindow>) -> Seq<Seq<Sample>> {
    Seq::new(windows.len(), |s: int| windows[s]@)
}

impl Sampler {
    /// What the sampler goes by.
    pub closed spec fn cadence(&self) -> Cadence {
        Cadence {
            group_id: self.group_id,
            sensors: self.windows@.len(),
            capacity: self.capacity as nat,
            standby_period: self.standby_period,
            ignite_period: self.ignite_period,
            dash_period: self.dash_period,
        }
    }

    /// What the sampler keeps track of.
    pub closed spec fn track(&self) -> Track {
        Track {
            windows: windows_of(self.windows@),
            next_round: self.next_round,
            last_emit: self.last_emit,
        }
    }

    /// Whether the sampler is one that `new` made, whatever rounds it has
    /// seen since.
    pub closed spec fn sound(&self) -> bool {
        &&& self.windows@.len() <= 256
        &&& self.capacity > 0
        &&& forall|s: int|
            0 <= s < self.windows@.len() ==> (#[trigger] self.windows@[s]).sound()
                && self.windows@[s].capacity() == self.capacity
    }

    /// The sampler of the group of index `group_id`, with empty windows, its
    /// first round due at `now`; none where no sampler can be set up for the
    /// group.
    pub fn new(group_id: u8, group: &SensorGroup, now: u64) -> (made: Option<Sampler>)
        ensures
            made is Some <==> group.samplable(),
            made matches Some(sampler) ==> sampler.sound() && sampler.cadence() == cadence_of(
                group_id,
                group,
            ) && sampler.track() == (Track {
                windows: Seq::new(group.sensors@.len(), |s: int| Seq::<Sample>::empty()),
                next_round: now,
                last_emit: None,
            }),
    {
        if group.frequency_dash_hz == 0 || group.frequency_dash_hz > group.frequency_standby_hz
            || group.frequency_dash_hz > group.frequency_ignite_hz || group.window_size == 0
            || group.sensors.len() > 256 {
            return None;
        }
        let mut windows: Vec<RollingWindow> = Vec::new();
        let mut s: usize = 0;
        while s < group.sensors.len()
            invariant
                s <= group.sensors.len(),
                group.window_size > 0,
                windows@.len() == s,
                forall|k: int|
                    0 <= k < s ==> (#[trigger] windows@[k]).sound() && windows@[k].capacity()
                        == group.window_size && windows@[k]@ == Seq::<Sample>::empty(),
            decreases group.sensors.len() - s,
        {
            match RollingWindow::new(group.window_size) {
                Some(window) => {
                    windows.push(window);
                },
                None => {},
            }
            s += 1;
        }
        let sampler = Sampler {
            group_id,
            capacity: group.window_size,
            standby_period: 1_000_000_000u64 / group.frequency_standby_hz as u64,
            ignite_period: 1_000_000_000u64 / group.frequency_ignite_hz as u64,
            dash_period: 1_000_000_000u64 / group.frequency_dash_hz as u64,
            windows,
            next_round: now,
            last_emit: None,
        };
        proof {
            assert(sampler.track().windows =~= Seq::new(
                group.sensors@.len(),
                |s: int| Seq::<Sample>::empty(),
            ));
        }
        Some(sampler)
    }

    /// When the next round is due, on the monotonic clock in nanoseconds.
    pub fn due(&self) -> (due: u64)
        ensures
            due == self.track().next_round,
    {
        self.next_round
    }

    /// The mean of the window of sensor `sensor`, rounded down; none for a
    /// sensor that the group does not have or that has no reading yet.
    pub fn mean(&self, sensor: usize) -> (mean: Option<u16>)
        requires
            self.sound(),
        ensures
            mean is Some <==> sensor < self.track().windows.len() && self.track().windows[sensor as int].len()
                > 0,
            mean matches Some(m) ==> m as nat == crate::window::total(
                self.track().windows[sensor as int],
            ) / self.track().windows[sensor as int].len(),
    {
        if sensor < self.windows.len() {
            self.windows[sensor].mean()
        } else {
            None
        }
    }

    /// The latest reading of each sensor that has one.
    fn latest(&self) -> (readings: Vec<SensorReading>)
        requires
            self.sound(),
        ensures
            readings@ == latest_readings(self.track().windows),
    {
        let mut readings: Vec<SensorReading> = Vec::new();
        let mut s: usize = 0;
        while s < self.windows.len()
            invariant
                s <= self.windows.len() <= 256,
                readings@ == latest_readings(windows_of(self.windows@).take(s as int)),
            decreases self.windows.len() - s,
        {
            proof {
                let upto = windows_of(self.windows@).take(s as int + 1);
                assert(upto.drop_last() =~= windows_of(self.windows@).take(s as int));
                assert(upto.last() == self.windows@[s as int]@);
            }
            match self.windows[s].latest() {
                Some(sample) => {
                    readings.push(
                        SensorReading { sensor_id: s as u8, reading: sample.raw, time: sample.time },
                    );
                },
                None => {},
            }
            s += 1;
        }
        proof {
            assert(windows_of(self.windows@).take(s as int) =~= windows_of(self.windows@));
        }
        readings
    }

    /// Takes the reads of one round, which is over at `now` on the monotonic
    /// clock, in controller state `state`, with a subscriber connected or
    /// not, and says what they lead to.
    ///
    /// `reads` holds, for each sensor in order, the reading with the time at
    /// which it was taken, or nothing where the read failed.
    pub fn sample(
        &mut self,
        reads: &[Option<Sample>],
        now: u64,
        state: ControllerState,
        connected: bool,
    ) -> (sampling: Sampling)
        requires
            old(self).sound(),
        ensures
            final(self).sound(),
            final(self).cadence() == old(self).cadence(),
            final(self).track() == after_round(
                old(self).cadence(),
                old(self).track(),
                reads@,
                now,
                state,
                connected,
            ),
            sampling.sensors@.len() == old(self).cadence().sensors,
            forall|s: int|
                0 <= s < sampling.sensors@.len() ==> (#[trigger] sampling.sensors@[s])@ == logged_for(
                    old(self).cadence(),
                    s,
                    old(self).track().windows[s],
                    read_of(reads@, s),
                ),
            emits(old(self).track().last_emit, old(self).cadence().dash_period, now, connected)
                ==> sampling.readings is Some && sampling.readings->0@ == latest_readings(
                final(self).track().windows,
            ),
            !emits(old(self).track().last_emit, old(self).cadence().dash_period, now, connected)
                ==> sampling.readings is None,
    {
        let mut sensors: Vec<Logged> = Vec::new();
        let count = self.windows.len();
        let mut s: usize = 0;
        while s < count
            invariant
                s <= count <= 256,
                count == self.windows@.len(),
                count == old(self).windows@.len(),
                self.sound(),
                self.cadence() == old(self).cadence(),
                self.next_round == old(self).next_round,
                self.last_emit == old(self).last_emit,
                sensors@.len() == s,
                forall|k: int|
                    0 <= k < s ==> (#[trigger] sensors@[k])@ == logged_for(
                        old(self).cadence(),
                        k,
                        old(self).windows@[k]@,
                        read_of(reads@, k),
                    ),
                forall|k: int|
                    0 <= k < s ==> (#[trigger] self.windows@[k])@ == window_after(
                        old(self).windows@[k]@,
                        old(self).capacity as nat,
                        read_of(reads@, k),
                    ),
                forall|k: int| s <= k < count ==> (#[trigger] self.windows@[k]) == old(self).windows@[k],
            decreases count - s,
        {
            let read: Option<Sample> = if s < reads.len() {
                reads[s]
            } else {
                None
            };
            match read {
                Some(read) => {
                    let kept = match self.windows[s].latest() {
                        Some(last) => Sample { raw: read.raw, time: read.time.after(&last.time) },
                        None => read,
                    };
                    self.windows[s].push(kept);
                    sensors.push(Logged::Row(make_reading_row(kept.time, read.raw)));
                },
                None => {
                    sensors.push(Logged::Failed { group_id: self.group_id, sensor_id: s as u8 });
                },
            }
            s += 1;
        }
        let period = match state {
            ControllerState::Standby => self.standby_period,
            _ => self.ignite_period,
        };
        let stepped: u128 = self.next_round as u128 + period as u128;
        let stepped: u128 = if stepped <= u64::MAX as u128 {
            stepped
        } else {
            u64::MAX as u128
        };
        if stepped + (period as u128) < now as u128 {
            self.next_round = now;
        } else {
            self.next_round = stepped as u64;
        }
        let elapsed = match self.last_emit {
            Some(last) => now as u128 >= last as u128 + self.dash_period as u128,
            None => true,
        };
        proof {
            assert(windows_of(self.windows@) =~= windows_after(
                old(self).track().windows,
                old(self).cadence().capacity,
                reads@,
            ));
        }
        if connected && elapsed {
            self.last_emit = Some(now);
            let readings = self.latest();
            Sampling { sensors, readings: Some(readings) }
        } else {
            Sampling { sensors, readings: None }
        }
    }
}

/// Whether the times of a run of samples strictly increase.
pub open spec fn increasing(samples: Seq<Sample>) -> bool {
    forall|i: int, j: int|
        0 <= i < j < samples.len() ==> (#[trigger] samples[i]).time.nanos < (
        #[trigger] samples[j]).time.nanos
}

/// The log of a sensor after a run of reads: every reading is appended as it
/// is logged; a failed read appends nothing.
pub open spec fn log_after(log: Seq<Sample>, reads: Seq<Option<Sample>>) -> Seq<Sample>
    decreases reads.len(),
{
    if reads.len() == 0 {
        log
    } else {
        let before = log_after(log, reads.drop_last());
        match reads.last() {
            Some(read) => before.push(stamped(before, read)),
            None => before,
        }
    }
}

/// The window of a sensor after a run of reads.
pub open spec fn window_through(window: Seq<Sample>, capacity: nat, reads: Seq<Option<Sample>>) -> Seq<
    Sample,
>
    decreases reads.len(),
{
    if reads.len() == 0 {
        window
    } else {
        window_after(window_through(window, capacity, reads.drop_last()), capacity, reads.last())
    }
}

/// Whether a window ends as a log ends: both are empty, or they have the same
/// last sample.
pub open spec fn ends_alike(window: Seq<Sample>, log: Seq<Sample>) -> bool {
    &&& window.len() == 0 <==> log.len() == 0
    &&& window.len() > 0 ==> window.last() == log.last()
}

/// The window of a sensor and its log go together: after any run of reads
/// the window ends as the log ends, so that what the sampler stamps against
/// the window it stamps against the log.
pub proof fn window_follows_log(
    window: Seq<Sample>,
    capacity: nat,
    log: Seq<Sample>,
    reads: Seq<Option<Sample>>,
)
    requires
        capacity > 0,
        ends_alike(window, log),
    ensures
        ends_alike(window_through(window, capacity, reads), log_after(log, reads)),
    decreases reads.len(),
{
    if reads.len() > 0 {
        window_follows_log(window, capacity, log, reads.drop_last());
    }
}

/// The times in the log of a sensor strictly increase, whatever the clock
/// did between the reads, for as long as the log has not reached the last
/// nanosecond that a time can hold.
pub proof fn log_stays_increasing(log: Seq<Sample>, reads: Seq<Option<Sample>>)
    requires
        increasing(log),
        forall|i: int|
            0 <= i < log_after(log, reads).len() ==> (#[trigger] log_after(log, reads)[i]).time.nanos
                < u128::MAX,
    ensures
        increasing(log_after(log, reads)),
        log_after(log, reads).len() >= log.len(),
        forall|i: int| 0 <= i < log.len() ==> log_after(log, reads)[i] == log[i],
    decreases reads.len(),
{
    if reads.len() > 0 {
        let before = log_after(log, reads.drop_last());
        let after = log_after(log, reads);
        match reads.last() {
            Some(read) => {
                assert(after == before.push(stamped(before, read)));
                assert forall|i: int| 0 <= i < before.len() implies (#[trigger] before[i]).time.nanos
                    < u128::MAX by {
                    assert(after[i] == before[i]);
                }
                log_stays_increasing(log, reads.drop_last());
                assert forall|i: int, j: int| 0 <= i < j < after.len() implies (
                #[trigger] after[i]).time.nanos < (#[trigger] after[j]).time.nanos by {
                    if j < before.len() {
                        assert(after[i] == before[i] && after[j] == before[j]);
                    } else {
                        assert(after[i] == before[i]);
                        assert(before.len() > 0);
                        let last = before[before.len() - 1];
                        assert(last.time.nanos < u128::MAX);
                        assert(after[j].time.nanos > last.time.nanos);
                        if i < before.len() - 1 {
                            assert(before[i].time.nanos < last.time.nanos);
                        }
                    }
                }
            },
            None => {
                log_stays_increasing(log, reads.drop_last());
            },
        }
    }
}

/// The times at which a run of rounds sends to the dashboard, after the last
/// of which the time of the last message is the first component. Each round
/// is given by the time at which it is over and by whether a subscriber is
/// connected.
pub open spec fn emissions(last_emit: Option<u64>, dash_period: u64, rounds: Seq<(u64, bool)>) -> (
    Option<u64>,
    Seq<u64>,
)
    decreases rounds.len(),
{
    if rounds.len() == 0 {
        (last_emit, Seq::empty())
    } else {
        let (last, sent) = emissions(last_emit, dash_period, rounds.drop_last());
        if emits(last, dash_period, rounds.last().0, rounds.last().1) {
            (Some(rounds.last().0), sent.push(rounds.last().0))
        } else {
            (last, sent)
        }
    }
}

/// Whether each time of a run lies at least `gap` after the one before it.
pub open spec fn spaced(times: Seq<u64>, gap: u64) -> bool {
    forall|k: int| 0 <= k && k + 1 < times.len() ==> (#[trigger] times[k]) + gap <= times[k + 1]
}

/// Two messages to the dashboard are never closer together than the
/// dashboard period of the group, whatever the rounds and the clock do.
pub proof fn emissions_are_spaced(last_emit: Option<u64>, dash_period: u64, rounds: Seq<(u64, bool)>)
    ensures
        spaced(emissions(last_emit, dash_period, rounds).1, dash_period),
        emissions(last_emit, dash_period, rounds).1.len() > 0 ==> emissions(
            last_emit,
            dash_period,
            rounds,
        ).0 == Some(emissions(last_emit, dash_period, rounds).1.last()),
        emissions(last_emit, dash_period, rounds).1.len() == 0 ==> emissions(
            last_emit,
            dash_period,
            rounds,
        ).0 == last_emit,
    decreases rounds.len(),
{
    if rounds.len() > 0 {
        emissions_are_spaced(last_emit, dash_period, rounds.drop_last());
        let (last, sent) = emissions(last_emit, dash_period, rounds.drop_last());
        if emits(last, dash_period, rounds.last().0, rounds.last().1) {
            let now = rounds.last().0;
            let all = sent.push(now);
            assert forall|k: int| 0 <= k && k + 1 < all.len() implies (#[trigger] all[k])
                + dash_period <= all[k + 1] by {
                if k + 1 < sent.len() {
                    assert(all[k] == sent[k] && all[k + 1] == sent[k + 1]);
                } else {
                    assert(all[k] == sent.last());
                }
            }
        }
    }
}

/// Times that are spaced by `gap` are spaced by as many gaps as they are
/// steps apart.
pub proof fn spaced_by_steps(times: Seq<u64>, gap: u64, i: int, j: int)
    requires
        spaced(times, gap),
        0 <= i <= j < times.len(),
    ensures
        times[i] + (j - i) * gap <= times[j],
    decreases j - i,
{
    if i < j {
        spaced_by_steps(times, gap, i, j - 1);
        assert(times[j - 1] + gap <= times[j]);
        assert((j - i) * gap == (j - 1 - i) * gap + gap) by (nonlinear_arith);
    } else {
        assert((j - i) * gap == 0) by (nonlinear_arith)
            requires
                i == j,
        ;
    }
}

/// Decimation: the messages that a group sends within any span of time
/// number at most the periods that fit in the span, and one more.
pub proof fn decimation_bound(times: Seq<u64>, gap: u64, i: int, j: int, span: nat)
    requires
        spaced(times, gap),
        gap > 0,
        0 <= i <= j < times.len(),
        times[j] - times[i] <= span,
    ensures
        j - i + 1 <= span / gap as nat + 1,
{
    spaced_by_steps(times, gap, i, j);
    let steps = j - i;
    assert(steps * gap <= span);
    assert(steps <= span as int / gap as int) by (nonlinear_arith)
        requires
            steps * gap <= span,
            gap > 0,
            steps >= 0,
    ;
}

} // verus!
