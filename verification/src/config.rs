//! The configuration of a test stand: what is wired where, how fast each
//! sensor group is sampled, and the ignition sequence. It is fixed once
//! loaded, and every other component reads it.

use vstd::prelude::*;
use vstd::string::StringSliceAdditionalSpecFns;
use vstd::utf8::encode_utf8;
use crate::json::{
    array, boolean, decimal, joined, joined_push, push_boolean, push_bytes, push_decimal,
    push_quoted, push_text, quoted,
};

verus! {

/// An output line that drives a solenoid, a relay or a valve.
#[derive(Debug)]
pub struct Driver {
    /// The name shown to the operator.
    pub label: String,
    /// The GPIO line that drives it.
    pub pin: u8,
    /// Whether manual actuation is refused while the controller is in Standby.
    pub protected: bool,
    /// The level the line rests at, and returns to on an emergency stop.
    pub safe_level: bool,
}

/// One analog sensor on one channel of one converter.
#[derive(Debug)]
pub struct Sensor {
    /// The name shown to the operator.
    pub label: String,
    /// Which converter it is wired to: an index into the chip-select lines.
    pub adc: u8,
    /// Which channel of that converter.
    pub channel: u8,
    /// The unit of the calibrated value.
    pub unit: String,
    /// The intercept of the calibration line, as the number text of the
    /// configuration document.
    pub calibration_intercept: String,
    /// The slope of the calibration line, as the number text of the
    /// configuration document.
    pub calibration_slope: String,
}

/// Sensors that share a sampling cadence and a dashboard rate.
#[derive(Debug)]
pub struct SensorGroup {
    /// The name shown to the operator.
    pub label: String,
    /// Samples per second while the controller is in Standby.
    pub frequency_standby_hz: u32,
    /// Samples per second while it is in PreIgnite or Ignite.
    pub frequency_ignite_hz: u32,
    /// Dashboard messages per second, at most.
    pub frequency_dash_hz: u32,
    /// How many readings the rolling window of each sensor holds.
    pub window_size: u32,
    /// The sensors of the group.
    pub sensors: Vec<Sensor>,
}

/// What one step of the ignition sequence does.
#[derive(Clone, Copy, Debug, PartialEq, Eq, Structural)]
pub enum Action {
    /// Set a driver to a level.
    Actuate {
        /// The driver, by its index in the configuration.
        driver_id: u8,
        /// The level to set.
        value: bool,
    },
    /// Do nothing but let the time pass.
    Sleep,
}

/// One step of the ignition sequence.
#[derive(Clone, Copy, Debug, PartialEq, Eq, Structural)]
pub struct Step {
    /// When the step is due, in milliseconds after the start of the sequence.
    pub offset_ms: u32,
    /// What it does.
    pub action: Action,
}

/// The whole configuration.
#[derive(Debug)]
pub struct Configuration {
    /// The GPIO line of the SPI data output.
    pub spi_mosi: u8,
    /// The GPIO line of the SPI data input.
    pub spi_miso: u8,
    /// The GPIO line of the SPI clock.
    pub spi_clk: u8,
    /// The frequency of the SPI clock, in hertz.
    pub spi_frequency_clk: u32,
    /// The chip-select line of each converter.
    pub adc_cs: Vec<u8>,
    /// The drivers.
    pub drivers: Vec<Driver>,
    /// The sensor groups.
    pub sensor_groups: Vec<SensorGroup>,
    /// The ignition sequence, in the order of its offsets.
    pub ignition_sequence: Vec<Step>,
    /// The limit on the time before an ignition, in milliseconds. It is
    /// carried for the dashboard; the controller does not act on it.
    pub pre_ignite_time_ms: u32,
    /// The limit on the time after an ignition, in milliseconds. It is
    /// carried for the dashboard; the controller does not act on it.
    pub post_ignite_time_ms: u32,
    /// How often the driver lines are read back, in milliseconds.
    pub driver_poll_period_ms: u32,
}

/// The wire text of a string of characters: a JSON string of its UTF-8 bytes.
pub open spec fn string_wire(s: Seq<char>) -> Seq<u8> {
    quoted(encode_utf8(s))
}

impl Driver {
    /// The driver as a JSON object.
    #[verifier::opaque]
    pub open spec fn wire(&self) -> Seq<u8> {
        "{\"label\":".spec_bytes() + string_wire(self.label@) + ",\"pin\":".spec_bytes() + decimal(
            self.pin as nat,
        ) + ",\"protected\":".spec_bytes() + boolean(self.protected)
            + ",\"safe_level\":".spec_bytes() + boolean(self.safe_level) + "}".spec_bytes()
    }

    /// Appends the driver as a JSON object.
    pub fn write_wire(&self, out: &mut Vec<u8>)
        ensures
            final(out)@ == old(out)@ + self.wire(),
    {
        reveal(Driver::wire);
        let mut text: Vec<u8> = Vec::new();
        push_text(&mut text, "{\"label\":");
        assert(text@ =~= "{\"label\":".spec_bytes());
        push_quoted(&mut text, self.label.as_str());
        push_text(&mut text, ",\"pin\":");
        push_decimal(&mut text, self.pin as u128);
        push_text(&mut text, ",\"protected\":");
        push_boolean(&mut text, self.protected);
        push_text(&mut text, ",\"safe_level\":");
        push_boolean(&mut text, self.safe_level);
        push_text(&mut text, "}");
        push_bytes(out, text.as_slice());
    }
}

impl Sensor {
    /// The sensor as a JSON object. The calibration numbers stand as they were
    /// given.
    #[verifier::opaque]
    pub open spec fn wire(&self) -> Seq<u8> {
        "{\"label\":".spec_bytes() + string_wire(self.label@) + ",\"adc\":".spec_bytes() + decimal(
            self.adc as nat,
        ) + ",\"channel\":".spec_bytes() + decimal(self.channel as nat) + ",\"unit\":".spec_bytes()
            + string_wire(self.unit@) + ",\"calibration_intercept\":".spec_bytes() + encode_utf8(
            self.calibration_intercept@,
        ) + ",\"calibration_slope\":".spec_bytes() + encode_utf8(self.calibration_slope@)
            + "}".spec_bytes()
    }

    /// Appends the sensor as a JSON object.
    pub fn write_wire(&self, out: &mut Vec<u8>)
        ensures
            final(out)@ == old(out)@ + self.wire(),
    {
        reveal(Sensor::wire);
        let mut text: Vec<u8> = Vec::new();
        push_text(&mut text, "{\"label\":");
        assert(text@ =~= "{\"label\":".spec_bytes());
        push_quoted(&mut text, self.label.as_str());
        push_text(&mut text, ",\"adc\":");
        push_decimal(&mut text, self.adc as u128);
        push_text(&mut text, ",\"channel\":");
        push_decimal(&mut text, self.channel as u128);
        push_text(&mut text, ",\"unit\":");
        push_quoted(&mut text, self.unit.as_str());
        push_text(&mut text, ",\"calibration_intercept\":");
        push_text(&mut text, self.calibration_intercept.as_str());
        push_text(&mut text, ",\"calibration_slope\":");
        push_text(&mut text, self.calibration_slope.as_str());
        push_text(&mut text, "}");
        push_bytes(out, text.as_slice());
    }
}

/// The wire text of each sensor of a list.
pub open spec fn sensors_wire(sensors: Seq<Sensor>) -> Seq<Seq<u8>> {
    Seq::new(sensors.len(), |i: int| sensors[i].wire())
}

impl SensorGroup {
    /// The group as a JSON object.
    #[verifier::opaque]
    pub open spec fn wire(&self) -> Seq<u8> {
        "{\"label\":".spec_bytes() + string_wire(self.label@)
            + ",\"frequency_standby_hz\":".spec_bytes() + decimal(self.frequency_standby_hz as nat)
            + ",\"frequency_ignite_hz\":".spec_bytes() + decimal(self.frequency_ignite_hz as nat)
            + ",\"frequency_dash_hz\":".spec_bytes() + decimal(self.frequency_dash_hz as nat)
            + ",\"window_size\":".spec_bytes() + decimal(self.window_size as nat)
            + ",\"sensors\":".spec_bytes() + array(sensors_wire(self.sensors@)) + "}".spec_bytes()
    }

    /// Appends the group as a JSON object.
    pub fn write_wire(&self, out: &mut Vec<u8>)
        ensures
            final(out)@ == old(out)@ + self.wire(),
    {
        reveal(SensorGroup::wire);
        let mut text: Vec<u8> = Vec::new();
        push_text(&mut text, "{\"label\":");
        assert(text@ =~= "{\"label\":".spec_bytes());
        push_quoted(&mut text, self.label.as_str());
        push_text(&mut text, ",\"frequency_standby_hz\":");
        push_decimal(&mut text, self.frequency_standby_hz as u128);
        push_text(&mut text, ",\"frequency_ignite_hz\":");
        push_decimal(&mut text, self.frequency_ignite_hz as u128);
        push_text(&mut text, ",\"frequency_dash_hz\":");
        push_decimal(&mut text, self.frequency_dash_hz as u128);
        push_text(&mut text, ",\"window_size\":");
        push_decimal(&mut text, self.window_size as u128);
        push_text(&mut text, ",\"sensors\":");
        write_sensors(&mut text, &self.sensors);
        push_text(&mut text, "}");
        push_bytes(out, text.as_slice());
    }
}

/// Appends the sensors of a group as a JSON array.
fn write_sensors(out: &mut Vec<u8>, sensors: &Vec<Sensor>)
    ensures
        final(out)@ == old(out)@ + array(sensors_wire(sensors@)),
{
    out.push(0x5b);
    let mut i: usize = 0;
    while i < sensors.len()
        invariant
            i <= sensors.len(),
            out@ == old(out)@ + seq![0x5bu8] + joined(sensors_wire(sensors@.take(i as int))),
        decreases sensors.len() - i,
    {
        if i > 0 {
            out.push(0x2c);
        }
        sensors[i].write_wire(out);
        proof {
            let before = sensors_wire(sensors@.take(i as int));
            joined_push(before, sensors@[i as int].wire());
            assert(sensors_wire(sensors@.take(i as int + 1)) =~= before.push(
                sensors@[i as int].wire(),
            ));
        }
        i += 1;
    }
    out.push(0x5d);
    proof {
        assert(sensors@.take(i as int) =~= sensors@);
        assert(final(out)@ =~= old(out)@ + array(sensors_wire(sensors@)));
    }
}

impl Action {
    /// The action as a JSON object, tagged by `type`.
    pub open spec fn wire(&self) -> Seq<u8> {
        match self {
            Action::Actuate { driver_id, value } => "{\"type\":\"Actuate\",\"driver_id\":".spec_bytes()
                + decimal(*driver_id as nat) + ",\"value\":".spec_bytes() + boolean(*value)
                + "}".spec_bytes(),
            Action::Sleep => "{\"type\":\"Sleep\"}".spec_bytes(),
        }
    }

    /// Appends the action as a JSON object.
    pub fn write_wire(&self, out: &mut Vec<u8>)
        ensures
            final(out)@ == old(out)@ + self.wire(),
    {
        let mut text: Vec<u8> = Vec::new();
        match self {
            Action::Actuate { driver_id, value } => {
                push_text(&mut text, "{\"type\":\"Actuate\",\"driver_id\":");
                assert(text@ =~= "{\"type\":\"Actuate\",\"driver_id\":".spec_bytes());
                push_decimal(&mut text, *driver_id as u128);
                push_text(&mut text, ",\"value\":");
                push_boolean(&mut text, *value);
                push_text(&mut text, "}");
            },
            Action::Sleep => {
                push_text(&mut text, "{\"type\":\"Sleep\"}");
                assert(text@ =~= "{\"type\":\"Sleep\"}".spec_bytes());
            },
        }
        push_bytes(out, text.as_slice());
    }
}

impl Step {
    /// The step as a JSON object.
    #[verifier::opaque]
    pub open spec fn wire(&self) -> Seq<u8> {
        "{\"offset_ms\":".spec_bytes() + decimal(self.offset_ms as nat) + ",\"action\":".spec_bytes()
            + self.action.wire() + "}".spec_bytes()
    }

    /// Appends the step as a JSON object.
    pub fn write_wire(&self, out: &mut Vec<u8>)
        ensures
            final(out)@ == old(out)@ + self.wire(),
    {
        reveal(Step::wire);
        let mut text: Vec<u8> = Vec::new();
        push_text(&mut text, "{\"offset_ms\":");
        assert(text@ =~= "{\"offset_ms\":".spec_bytes());
        push_decimal(&mut text, self.offset_ms as u128);
        push_text(&mut text, ",\"action\":");
        self.action.write_wire(&mut text);
        push_text(&mut text, "}");
        push_bytes(out, text.as_slice());
    }
}

/// The decimal text of each number of a list.
pub open spec fn numbers_wire(numbers: Seq<u8>) -> Seq<Seq<u8>> {
    Seq::new(numbers.len(), |i: int| decimal(numbers[i] as nat))
}

/// The wire text of each driver of a list.
pub open spec fn drivers_wire(drivers: Seq<Driver>) -> Seq<Seq<u8>> {
    Seq::new(drivers.len(), |i: int| drivers[i].wire())
}

/// The wire text of each group of a list.
pub open spec fn groups_wire(groups: Seq<SensorGroup>) -> Seq<Seq<u8>> {
    Seq::new(groups.len(), |i: int| groups[i].wire())
}

/// The wire text of each step of a list.
pub open spec fn steps_wire(steps: Seq<Step>) -> Seq<Seq<u8>> {
    Seq::new(steps.len(), |i: int| steps[i].wire())
}

/// Appends a list of small numbers as a JSON array.
fn write_numbers(out: &mut Vec<u8>, numbers: &Vec<u8>)
    ensures
        final(out)@ == old(out)@ + array(numbers_wire(numbers@)),
{
    out.push(0x5b);
    let mut i: usize = 0;
    while i < numbers.len()
        invariant
            i <= numbers.len(),
            out@ == old(out)@ + seq![0x5bu8] + joined(numbers_wire(numbers@.take(i as int))),
        decreases numbers.len() - i,
    {
        if i > 0 {
            out.push(0x2c);
        }
        push_decimal(out, numbers[i] as u128);
        proof {
            let before = numbers_wire(numbers@.take(i as int));
            joined_push(before, decimal(numbers@[i as int] as nat));
            assert(numbers_wire(numbers@.take(i as int + 1)) =~= before.push(
                decimal(numbers@[i as int] as nat),
            ));
        }
        i += 1;
    }
    out.push(0x5d);
    proof {
        assert(numbers@.take(i as int) =~= numbers@);
        assert(final(out)@ =~= old(out)@ + array(numbers_wire(numbers@)));
    }
}

/// Appends the drivers as a JSON array.
fn write_drivers(out: &mut Vec<u8>, drivers: &Vec<Driver>)
    ensures
        final(out)@ == old(out)@ + array(drivers_wire(drivers@)),
{
    out.push(0x5b);
    let mut i: usize = 0;
    while i < drivers.len()
        invariant
            i <= drivers.len(),
            out@ == old(out)@ + seq![0x5bu8] + joined(drivers_wire(drivers@.take(i as int))),
        decreases drivers.len() - i,
    {
        if i > 0 {
            out.push(0x2c);
        }
        drivers[i].write_wire(out);
        proof {
            let before = drivers_wire(drivers@.take(i as int));
            joined_push(before, drivers@[i as int].wire());
            assert(drivers_wire(drivers@.take(i as int + 1)) =~= before.push(
                drivers@[i as int].wire(),
            ));
        }
        i += 1;
    }
    out.push(0x5d);
    proof {
        assert(drivers@.take(i as int) =~= drivers@);
        assert(final(out)@ =~= old(out)@ + array(drivers_wire(drivers@)));
    }
}

/// Appends the sensor groups as a JSON array.
fn write_groups(out: &mut Vec<u8>, groups: &Vec<SensorGroup>)
    ensures
        final(out)@ == old(out)@ + array(groups_wire(groups@)),
{
    out.push(0x5b);
    let mut i: usize = 0;
    while i < groups.len()
        invariant
            i <= groups.len(),
            out@ == old(out)@ + seq![0x5bu8] + joined(groups_wire(groups@.take(i as int))),
        decreases groups.len() - i,
    {
        if i > 0 {
            out.push(0x2c);
        }
        groups[i].write_wire(out);
        proof {
            let before = groups_wire(groups@.take(i as int));
            joined_push(before, groups@[i as int].wire());
            assert(groups_wire(groups@.take(i as int + 1)) =~= before.push(
                groups@[i as int].wire(),
            ));
        }
        i += 1;
    }
    out.push(0x5d);
    proof {
        assert(groups@.take(i as int) =~= groups@);
        assert(final(out)@ =~= old(out)@ + array(groups_wire(groups@)));
    }
}

/// Appends the steps of a sequence as a JSON array.
fn write_steps(out: &mut Vec<u8>, steps: &Vec<Step>)
    ensures
        final(out)@ == old(out)@ + array(steps_wire(steps@)),
{
    out.push(0x5b);
    let mut i: usize = 0;
    while i < steps.len()
        invariant
            i <= steps.len(),
            out@ == old(out)@ + seq![0x5bu8] + joined(steps_wire(steps@.take(i as int))),
        decreases steps.len() - i,
    {
        if i > 0 {
            out.push(0x2c);
        }
        steps[i].write_wire(out);
        proof {
            let before = steps_wire(steps@.take(i as int));
            joined_push(before, steps@[i as int].wire());
            assert(steps_wire(steps@.take(i as int + 1)) =~= before.push(steps@[i as int].wire()));
        }
        i += 1;
    }
    out.push(0x5d);
    proof {
        assert(steps@.take(i as int) =~= steps@);
        assert(final(out)@ =~= old(out)@ + array(steps_wire(steps@)));
    }
}

impl Configuration {
    /// The configuration as a JSON object, its fields in the order in which
    /// the type declares them.
    #[verifier::opaque]
    pub open spec fn wire(&self) -> Seq<u8> {
        "{\"spi_mosi\":".spec_bytes() + decimal(self.spi_mosi as nat) + ",\"spi_miso\":".spec_bytes()
            + decimal(self.spi_miso as nat) + ",\"spi_clk\":".spec_bytes() + decimal(
            self.spi_clk as nat,
        ) + ",\"spi_frequency_clk\":".spec_bytes() + decimal(self.spi_frequency_clk as nat)
            + ",\"adc_cs\":".spec_bytes() + array(numbers_wire(self.adc_cs@))
            + ",\"drivers\":".spec_bytes() + array(drivers_wire(self.drivers@))
            + ",\"sensor_groups\":".spec_bytes() + array(groups_wire(self.sensor_groups@))
            + ",\"ignition_sequence\":".spec_bytes() + array(steps_wire(self.ignition_sequence@))
            + ",\"pre_ignite_time_ms\":".spec_bytes() + decimal(self.pre_ignite_time_ms as nat)
            + ",\"post_ignite_time_ms\":".spec_bytes() + decimal(self.post_ignite_time_ms as nat)
            + ",\"driver_poll_period_ms\":".spec_bytes() + decimal(
            self.driver_poll_period_ms as nat,
        ) + "}".spec_bytes()
    }

    /// Appends the configuration as a JSON object.
    pub fn write_wire(&self, out: &mut Vec<u8>)
        ensures
            final(out)@ == old(out)@ + self.wire(),
    {
        reveal(Configuration::wire);
        let mut text: Vec<u8> = Vec::new();
        push_text(&mut text, "{\"spi_mosi\":");
        assert(text@ =~= "{\"spi_mosi\":".spec_bytes());
        push_decimal(&mut text, self.spi_mosi as u128);
        push_text(&mut text, ",\"spi_miso\":");
        push_decimal(&mut text, self.spi_miso as u128);
        push_text(&mut text, ",\"spi_clk\":");
        push_decimal(&mut text, self.spi_clk as u128);
        push_text(&mut text, ",\"spi_frequency_clk\":");
        push_decimal(&mut text, self.spi_frequency_clk as u128);
        push_text(&mut text, ",\"adc_cs\":");
        write_numbers(&mut text, &self.adc_cs);
        push_text(&mut text, ",\"drivers\":");
        write_drivers(&mut text, &self.drivers);
        push_text(&mut text, ",\"sensor_groups\":");
        write_groups(&mut text, &self.sensor_groups);
        push_text(&mut text, ",\"ignition_sequence\":");
        write_steps(&mut text, &self.ignition_sequence);
        push_text(&mut text, ",\"pre_ignite_time_ms\":");
        push_decimal(&mut text, self.pre_ignite_time_ms as u128);
        push_text(&mut text, ",\"post_ignite_time_ms\":");
        push_decimal(&mut text, self.post_ignite_time_ms as u128);
        push_text(&mut text, ",\"driver_poll_period_ms\":");
        push_decimal(&mut text, self.driver_poll_period_ms as u128);
        push_text(&mut text, "}");
        push_bytes(out, text.as_slice());
    }
}

/// A reason for which a configuration is refused at load.
#[derive(Clone, Copy, Debug, PartialEq, Eq, Structural)]
pub enum ConfigFault {
    /// The SPI clock frequency is zero.
    SpiClock,
    /// The driver poll period is zero.
    PollPeriod,
    /// There are more drivers than a driver index can name.
    DriverCount,
    /// There are more sensor groups than a group index can name.
    GroupCount,
    /// A group has a zero frequency, or a dashboard rate above a sampling rate.
    GroupRate { group: usize },
    /// A group has an empty rolling window.
    GroupWindow { group: usize },
    /// A group has more sensors than a sensor index can name.
    SensorCount { group: usize },
    /// A sensor names a converter that has no chip-select line.
    SensorAdc { group: usize, sensor: usize },
    /// A sensor names a channel that a converter does not have.
    SensorChannel { group: usize, sensor: usize },
    /// A calibration value of a sensor is not a number.
    SensorCalibration { group: usize, sensor: usize },
    /// A step of the ignition sequence names a driver that does not exist.
    StepDriver { step: usize },
    /// A step of the ignition sequence is due after the step that follows it.
    StepOrder { step: usize },
}

impl Sensor {
    /// Whether the sensor resolves to a channel of one of `adcs` converters
    /// and carries calibration numbers.
    pub open spec fn well_formed(&self, adcs: nat) -> bool {
        &&& (self.adc as nat) < adcs
        &&& self.channel < crate::adc::CHANNELS
        &&& self.calibrated()
    }

    /// Whether both calibration values are numbers.
    pub open spec fn calibrated(&self) -> bool {
        &&& crate::json::is_number(encode_utf8(self.calibration_intercept@))
        &&& crate::json::is_number(encode_utf8(self.calibration_slope@))
    }
}

impl SensorGroup {
    /// Whether the three rates are usable: none is zero, and the dashboard
    /// rate exceeds neither sampling rate.
    pub open spec fn rates_ok(&self) -> bool {
        &&& 0 < self.frequency_dash_hz
        &&& self.frequency_dash_hz <= self.frequency_standby_hz
        &&& self.frequency_dash_hz <= self.frequency_ignite_hz
    }

    /// Whether a sampler can be set up for the group: the rates are usable,
    /// the window is not empty, and a sensor index fits in a byte.
    pub open spec fn samplable(&self) -> bool {
        &&& self.rates_ok()
        &&& self.window_size > 0
        &&& self.sensors@.len() <= 256
    }

    /// Whether the group can be sampled on a stand with `adcs` converters.
    pub open spec fn well_formed(&self, adcs: nat) -> bool {
        &&& self.samplable()
        &&& forall|s: int| 0 <= s < self.sensors@.len() ==> (#[trigger] self.sensors@[s]).well_formed(adcs)
    }

    /// Checks the group, which is the group of index `group`, against a stand
    /// with `adcs` converters. The group is accepted exactly when it is well
    /// formed; a refusal names the first fault that it has.
    pub fn validate(&self, group: usize, adcs: usize) -> (outcome: Result<(), ConfigFault>)
        ensures
            outcome is Ok <==> self.well_formed(adcs as nat),
            outcome matches Err(fault) ==> self.first_fault(group, adcs as nat, fault),
    {
        if self.frequency_dash_hz == 0 || self.frequency_dash_hz > self.frequency_standby_hz
            || self.frequency_dash_hz > self.frequency_ignite_hz {
            return Err(ConfigFault::GroupRate { group });
        }
        if self.window_size == 0 {
            return Err(ConfigFault::GroupWindow { group });
        }
        if self.sensors.len() > 256 {
            return Err(ConfigFault::SensorCount { group });
        }
        let mut s: usize = 0;
        while s < self.sensors.len()
            invariant
                s <= self.sensors.len(),
                self.samplable(),
                forall|k: int| 0 <= k < s ==> (#[trigger] self.sensors@[k]).well_formed(adcs as nat),
            decreases self.sensors.len() - s,
        {
            let sensor = &self.sensors[s];
            if sensor.adc as usize >= adcs {
                return Err(ConfigFault::SensorAdc { group, sensor: s });
            }
            if sensor.channel >= crate::adc::CHANNELS {
                return Err(ConfigFault::SensorChannel { group, sensor: s });
            }
            if !crate::json::number_text(sensor.calibration_intercept.as_str())
                || !crate::json::number_text(sensor.calibration_slope.as_str()) {
                return Err(ConfigFault::SensorCalibration { group, sensor: s });
            }
            s += 1;
        }
        Ok(())
    }

    /// Whether `fault` is the first fault of this group, which is the group of
    /// index `group` on a stand with `adcs` converters: it is a fault of the
    /// group, and nothing that is checked before it is one. The rates are
    /// checked first, then the window, then the number of sensors, then the
    /// sensors in order, and of each its converter, its channel and its
    /// calibration.
    pub open spec fn first_fault(&self, group: usize, adcs: nat, fault: ConfigFault) -> bool {
        &&& self.has_fault(group, adcs, fault)
        &&& match fault {
            ConfigFault::GroupRate { .. } => true,
            ConfigFault::GroupWindow { .. } => self.rates_ok(),
            ConfigFault::SensorCount { .. } => self.rates_ok() && self.window_size > 0,
            ConfigFault::SensorAdc { sensor, .. } => self.samplable() && self.sensors_fine(
                adcs,
                sensor as int,
            ),
            ConfigFault::SensorChannel { sensor, .. } => self.samplable() && self.sensors_fine(
                adcs,
                sensor as int,
            ) && (self.sensors@[sensor as int].adc as nat) < adcs,
            ConfigFault::SensorCalibration { sensor, .. } => self.samplable() && self.sensors_fine(
                adcs,
                sensor as int,
            ) && (self.sensors@[sensor as int].adc as nat) < adcs
                && self.sensors@[sensor as int].channel < crate::adc::CHANNELS,
            _ => true,
        }
    }

    /// Whether the sensors before the one of index `upto` are well formed.
    pub open spec fn sensors_fine(&self, adcs: nat, upto: int) -> bool {
        forall|k: int|
            0 <= k < upto && k < self.sensors@.len() ==> (#[trigger] self.sensors@[k]).well_formed(
                adcs,
            )
    }

    /// Whether `fault` is a true statement about this group, which is the
    /// group of index `group` on a stand with `adcs` converters.
    pub open spec fn has_fault(&self, group: usize, adcs: nat, fault: ConfigFault) -> bool {
        match fault {
            ConfigFault::GroupRate { group: g } => g == group && !self.rates_ok(),
            ConfigFault::GroupWindow { group: g } => g == group && self.window_size == 0,
            ConfigFault::SensorCount { group: g } => g == group && self.sensors@.len() > 256,
            ConfigFault::SensorAdc { group: g, sensor } => g == group && sensor < self.sensors@.len()
                && self.sensors@[sensor as int].adc as nat >= adcs,
            ConfigFault::SensorChannel { group: g, sensor } => g == group && sensor
                < self.sensors@.len() && self.sensors@[sensor as int].channel
                >= crate::adc::CHANNELS,
            ConfigFault::SensorCalibration { group: g, sensor } => g == group && sensor
                < self.sensors@.len() && !self.sensors@[sensor as int].calibrated(),
            _ => false,
        }
    }
}

impl Step {
    /// Whether the step names a driver that exists among `drivers` drivers.
    pub open spec fn resolves(&self, drivers: nat) -> bool {
        match self.action {
            Action::Actuate { driver_id, .. } => (driver_id as nat) < drivers,
            Action::Sleep => true,
        }
    }
}

impl Configuration {
    /// Whether every index in the configuration resolves and every rate can be
    /// kept: what is checked once, at load.
    ///
    /// The SPI clock and the poll period are not zero. Driver, group and
    /// sensor indices fit in a byte. Every group is well formed: its rates
    /// are usable, its window is not empty, and each of its sensors names a
    /// converter and a channel that exist and carries calibration numbers.
    /// Every step of the ignition sequence names an existing driver, and no
    /// step is due after its successor.
    pub open spec fn well_formed(&self) -> bool {
        &&& self.spi_frequency_clk > 0
        &&& self.driver_poll_period_ms > 0
        &&& self.drivers@.len() <= 256
        &&& self.sensor_groups@.len() <= 256
        &&& forall|g: int|
            0 <= g < self.sensor_groups@.len() ==> (#[trigger] self.sensor_groups@[g]).well_formed(
                self.adc_cs@.len(),
            )
        &&& forall|i: int|
            0 <= i < self.ignition_sequence@.len() ==> (#[trigger] self.ignition_sequence@[i]).resolves(
                self.drivers@.len(),
            )
        &&& forall|i: int|
            0 <= i && i + 1 < self.ignition_sequence@.len() ==> (
            #[trigger] self.ignition_sequence@[i]).offset_ms <= self.ignition_sequence@[i
                + 1].offset_ms
    }

    /// Whether `fault` is a true statement about this configuration.
    pub open spec fn has_fault(&self, fault: ConfigFault) -> bool {
        match fault {
            ConfigFault::SpiClock => self.spi_frequency_clk == 0,
            ConfigFault::PollPeriod => self.driver_poll_period_ms == 0,
            ConfigFault::DriverCount => self.drivers@.len() > 256,
            ConfigFault::GroupCount => self.sensor_groups@.len() > 256,
            ConfigFault::StepDriver { step } => step < self.ignition_sequence@.len()
                && !self.ignition_sequence@[step as int].resolves(self.drivers@.len()),
            ConfigFault::StepOrder { step } => step + 1 < self.ignition_sequence@.len()
                && self.ignition_sequence@[step as int].offset_ms > self.ignition_sequence@[step
                + 1].offset_ms,
            ConfigFault::GroupRate { group } | ConfigFault::GroupWindow { group }
            | ConfigFault::SensorCount { group } | ConfigFault::SensorAdc { group, .. }
            | ConfigFault::SensorChannel { group, .. }
            | ConfigFault::SensorCalibration { group, .. } => group
                < self.sensor_groups@.len() && self.sensor_groups@[group as int].has_fault(
                group,
                self.adc_cs@.len(),
                fault,
            ),
        }
    }

    /// Whether the counts and periods of the configuration are usable.
    pub open spec fn sized(&self) -> bool {
        &&& self.spi_frequency_clk > 0
        &&& self.driver_poll_period_ms > 0
        &&& self.drivers@.len() <= 256
        &&& self.sensor_groups@.len() <= 256
    }

    /// Whether the groups before the one of index `upto` are well formed.
    pub open spec fn groups_fine(&self, upto: int) -> bool {
        forall|k: int|
            0 <= k < upto && k < self.sensor_groups@.len() ==> (
            #[trigger] self.sensor_groups@[k]).well_formed(self.adc_cs@.len())
    }

    /// Whether the steps before the one of index `upto` name existing drivers
    /// and are not due after their successors.
    pub open spec fn steps_fine(&self, upto: int) -> bool {
        forall|k: int|
            0 <= k < upto && k < self.ignition_sequence@.len() ==> (
            #[trigger] self.ignition_sequence@[k]).resolves(self.drivers@.len()) && (k + 1
                < self.ignition_sequence@.len() ==> self.ignition_sequence@[k].offset_ms
                <= self.ignition_sequence@[k + 1].offset_ms)
    }

    /// Whether `fault` is the first fault of this configuration: it is a fault
    /// of the configuration, and nothing that is checked before it is one.
    /// The SPI clock is checked first, then the poll period, the number of
    /// drivers and the number of groups, then the groups in order, then the
    /// steps of the ignition sequence in order, and of each its driver and
    /// its place before its successor.
    pub open spec fn first_fault(&self, fault: ConfigFault) -> bool {
        &&& self.has_fault(fault)
        &&& match fault {
            ConfigFault::SpiClock => true,
            ConfigFault::PollPeriod => self.spi_frequency_clk > 0,
            ConfigFault::DriverCount => self.spi_frequency_clk > 0 && self.driver_poll_period_ms > 0,
            ConfigFault::GroupCount => self.spi_frequency_clk > 0 && self.driver_poll_period_ms > 0
                && self.drivers@.len() <= 256,
            ConfigFault::StepDriver { step } => self.sized() && self.groups_fine(
                self.sensor_groups@.len() as int,
            ) && self.steps_fine(step as int),
            ConfigFault::StepOrder { step } => self.sized() && self.groups_fine(
                self.sensor_groups@.len() as int,
            ) && self.steps_fine(step as int) && self.ignition_sequence@[step as int].resolves(
                self.drivers@.len(),
            ),
            ConfigFault::GroupRate { group } | ConfigFault::GroupWindow { group }
            | ConfigFault::SensorCount { group } | ConfigFault::SensorAdc { group, .. }
            | ConfigFault::SensorChannel { group, .. }
            | ConfigFault::SensorCalibration { group, .. } => self.sized() && self.groups_fine(
                group as int,
            ) && self.sensor_groups@[group as int].first_fault(group, self.adc_cs@.len(), fault),
        }
    }

    /// Checks the configuration as it is checked at load. It is accepted
    /// exactly when it is well formed; a refusal names the first fault that
    /// it has.
    pub fn validate(&self) -> (outcome: Result<(), ConfigFault>)
        ensures
            outcome is Ok <==> self.well_formed(),
            outcome matches Err(fault) ==> self.first_fault(fault),
    {
        if self.spi_frequency_clk == 0 {
            return Err(ConfigFault::SpiClock);
        }
        if self.driver_poll_period_ms == 0 {
            return Err(ConfigFault::PollPeriod);
        }
        if self.drivers.len() > 256 {
            return Err(ConfigFault::DriverCount);
        }
        if self.sensor_groups.len() > 256 {
            return Err(ConfigFault::GroupCount);
        }
        let adcs = self.adc_cs.len();
        let mut g: usize = 0;
        while g < self.sensor_groups.len()
            invariant
                g <= self.sensor_groups.len(),
                adcs == self.adc_cs@.len(),
                self.sized(),
                forall|k: int|
                    0 <= k < g ==> (#[trigger] self.sensor_groups@[k]).well_formed(adcs as nat),
            decreases self.sensor_groups.len() - g,
        {
            match self.sensor_groups[g].validate(g, adcs) {
                Ok(()) => {},
                Err(fault) => {
                    return Err(fault);
                },
            }
            g += 1;
        }
        let steps = self.ignition_sequence.len();
        let mut i: usize = 0;
        while i < steps
            invariant
                i <= steps,
                steps == self.ignition_sequence@.len(),
                forall|k: int|
                    0 <= k < i ==> (#[trigger] self.ignition_sequence@[k]).resolves(
                        self.drivers@.len(),
                    ),
                forall|k: int|
                    0 <= k < i && k + 1 < steps ==> (#[trigger] self.ignition_sequence@[k]).offset_ms
                        <= self.ignition_sequence@[k + 1].offset_ms,
                self.sized(),
                self.groups_fine(self.sensor_groups@.len() as int),
            decreases steps - i,
        {
            let step = &self.ignition_sequence[i];
            match step.action {
                Action::Actuate { driver_id, .. } => {
                    if driver_id as usize >= self.drivers.len() {
                        return Err(ConfigFault::StepDriver { step: i });
                    }
                },
                Action::Sleep => {},
            }
            if i + 1 < steps && step.offset_ms > self.ignition_sequence[i + 1].offset_ms {
                return Err(ConfigFault::StepOrder { step: i });
            }
            i += 1;
        }
        Ok(())
    }
}

/// A group has at most one first fault.
pub proof fn first_fault_of_group_is_one(
    group: &SensorGroup,
    index: usize,
    adcs: nat,
    a: ConfigFault,
    b: ConfigFault,
)
    requires
        group.first_fault(index, adcs, a),
        group.first_fault(index, adcs, b),
    ensures
        a == b,
{
    match (a, b) {
        (
            ConfigFault::SensorAdc { sensor: x, .. } | ConfigFault::SensorChannel { sensor: x, .. }
            | ConfigFault::SensorCalibration { sensor: x, .. },
            ConfigFault::SensorAdc { sensor: y, .. } | ConfigFault::SensorChannel { sensor: y, .. }
            | ConfigFault::SensorCalibration { sensor: y, .. },
        ) => {
            if x < y {
                assert(group.sensors@[x as int].well_formed(adcs));
            } else if y < x {
                assert(group.sensors@[y as int].well_formed(adcs));
            }
        },
        _ => {},
    }
}

/// A configuration has at most one first fault: what a refusal names is
/// settled by the configuration.
pub proof fn first_fault_is_one(config: &Configuration, a: ConfigFault, b: ConfigFault)
    requires
        config.first_fault(a),
        config.first_fault(b),
    ensures
        a == b,
{
    let adcs = config.adc_cs@.len();
    let in_group = |f: ConfigFault|
        match f {
            ConfigFault::GroupRate { group } | ConfigFault::GroupWindow { group }
            | ConfigFault::SensorCount { group } | ConfigFault::SensorAdc { group, .. }
            | ConfigFault::SensorChannel { group, .. }
            | ConfigFault::SensorCalibration { group, .. } => Some(group),
            _ => None,
        };
    let at_step = |f: ConfigFault|
        match f {
            ConfigFault::StepDriver { step } | ConfigFault::StepOrder { step } => Some(step),
            _ => None,
        };
    match (in_group(a), in_group(b)) {
        (Some(x), Some(y)) => {
            if x < y {
                assert(config.sensor_groups@[x as int].well_formed(adcs));
            } else if y < x {
                assert(config.sensor_groups@[y as int].well_formed(adcs));
            } else {
                first_fault_of_group_is_one(&config.sensor_groups@[x as int], x, adcs, a, b);
            }
        },
        (Some(x), None) => {
            if at_step(b) is Some {
                assert(config.sensor_groups@[x as int].well_formed(adcs));
            }
        },
        (None, Some(y)) => {
            if at_step(a) is Some {
                assert(config.sensor_groups@[y as int].well_formed(adcs));
            }
        },
        (None, None) => {
            match (at_step(a), at_step(b)) {
                (Some(x), Some(y)) => {
                    if x < y {
                        assert(config.ignition_sequence@[x as int].resolves(config.drivers@.len()));
                    } else if y < x {
                        assert(config.ignition_sequence@[y as int].resolves(config.drivers@.len()));
                    }
                },
                _ => {},
            }
        },
    }
}

} // verus!
