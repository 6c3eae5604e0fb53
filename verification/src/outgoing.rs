//! What travels from the controller to the dashboard: the messages, their
//! wire text, and the channel that carries them to at most one subscriber.

use vstd::prelude::*;
use vstd::string::StringSliceAdditionalSpecFns;
use crate::clock::Timestamp;
use crate::config::{string_wire, Configuration};
use crate::json::{
    array, boolean, decimal, joined, joined_push, push_boolean, push_bytes, push_decimal,
    push_quoted, push_text,
};
use crate::logs::{make_text_row, text_row};

verus! {

/// An individual reading on a sensor.
#[derive(Clone, Copy, Debug, PartialEq, Eq, Structural)]
pub struct SensorReading {
    /// The index, within its group, of the sensor that was read.
    pub sensor_id: u8,
    /// The raw value read on the sensor.
    pub reading: u16,
    /// The time at which the reading was taken.
    pub time: Timestamp,
}

/// The causes of an error that the dashboard can be told of.
#[derive(Clone, Copy, Debug)]
pub enum ErrorCause<'a> {
    /// A command from the dashboard could not be accepted.
    Malformed {
        /// The command as it was received.
        original_message: &'a str,
    },
    /// A read from a sensor failed.
    SensorFail {
        /// The group that holds the sensor.
        group_id: u8,
        /// The index of the sensor within the group.
        sensor_id: u8,
    },
    /// The command is not permitted in the state the controller is in.
    Permission,
}

/// The messages that the controller sends to the dashboard.
#[derive(Clone, Copy, Debug)]
pub enum Message<'a> {
    /// The controller is ready.
    Ready,
    /// The configuration the controller runs with.
    Config {
        /// The whole configuration.
        config: &'a Configuration,
    },
    /// The latest readings of one sensor group.
    SensorValue {
        /// The group that was read.
        group_id: u8,
        /// One reading for each sensor that has one.
        readings: &'a [SensorReading],
    },
    /// The logic level of every driver.
    DriverValue {
        /// The level of each driver, in the order of the configuration.
        values: &'a [bool],
    },
    /// A line of text for the operator.
    Display {
        /// The text.
        message: &'a str,
    },
    /// Something went wrong.
    Error {
        /// What went wrong.
        cause: ErrorCause<'a>,
        /// An explanation for the operator.
        diagnostic: &'a str,
    },
}

/// Which of the six messages a message is.
#[derive(Clone, Copy, Debug, PartialEq, Eq, Structural)]
pub enum MessageKind {
    Ready,
    Config,
    SensorValue,
    DriverValue,
    Display,
    Error,
}

impl MessageKind {
    /// The value of the `type` field that announces a message of this kind.
    pub open spec fn tag(&self) -> Seq<u8> {
        match self {
            MessageKind::Ready => "Ready".spec_bytes(),
            MessageKind::Config => "Config".spec_bytes(),
            MessageKind::SensorValue => "SensorValue".spec_bytes(),
            MessageKind::DriverValue => "DriverValue".spec_bytes(),
            MessageKind::Display => "Display".spec_bytes(),
            MessageKind::Error => "Error".spec_bytes(),
        }
    }
}

impl SensorReading {
    /// The reading as a JSON object; the time is given as whole seconds since
    /// the Unix epoch and the nanoseconds beyond them.
    #[verifier::opaque]
    pub open spec fn wire(&self) -> Seq<u8> {
        "{\"sensor_id\":".spec_bytes() + decimal(self.sensor_id as nat) + ",\"reading\":".spec_bytes()
            + decimal(self.reading as nat) + ",\"time\":{\"secs_since_epoch\":".spec_bytes()
            + decimal(self.time.secs_since_epoch()) + ",\"nanos_since_epoch\":".spec_bytes()
            + decimal(self.time.nanos_since_epoch()) + "}}".spec_bytes()
    }

    /// Appends the reading as a JSON object.
    pub fn write_wire(&self, out: &mut Vec<u8>)
        ensures
            final(out)@ == old(out)@ + self.wire(),
    {
        reveal(SensorReading::wire);
        let mut text: Vec<u8> = Vec::new();
        push_text(&mut text, "{\"sensor_id\":");
        assert(text@ =~= "{\"sensor_id\":".spec_bytes());
        push_decimal(&mut text, self.sensor_id as u128);
        push_text(&mut text, ",\"reading\":");
        push_decimal(&mut text, self.reading as u128);
        push_text(&mut text, ",\"time\":{\"secs_since_epoch\":");
        push_decimal(&mut text, self.time.nanos / 1_000_000_000);
        push_text(&mut text, ",\"nanos_since_epoch\":");
        push_decimal(&mut text, self.time.nanos % 1_000_000_000);
        push_text(&mut text, "}}");
        push_bytes(out, text.as_slice());
    }
}

/// The wire text of each reading of a list.
pub open spec fn readings_wire(readings: Seq<SensorReading>) -> Seq<Seq<u8>> {
    Seq::new(readings.len(), |i: int| readings[i].wire())
}

/// The wire text of each level of a list.
pub open spec fn levels_wire(levels: Seq<bool>) -> Seq<Seq<u8>> {
    Seq::new(levels.len(), |i: int| boolean(levels[i]))
}

impl ErrorCause<'_> {
    /// The cause as a JSON object, tagged by `type`.
    pub open spec fn wire(&self) -> Seq<u8> {
        match self {
            ErrorCause::Malformed { original_message } =>
                "{\"type\":\"Malformed\",\"original_message\":".spec_bytes() + string_wire(
                    original_message@,
                ) + "}".spec_bytes(),
            ErrorCause::SensorFail { group_id, sensor_id } =>
                "{\"type\":\"SensorFail\",\"group_id\":".spec_bytes() + decimal(*group_id as nat)
                    + ",\"sensor_id\":".spec_bytes() + decimal(*sensor_id as nat)
                    + "}".spec_bytes(),
            ErrorCause::Permission => "{\"type\":\"Permission\"}".spec_bytes(),
        }
    }

    /// Appends the cause as a JSON object.
    pub fn write_wire(&self, out: &mut Vec<u8>)
        ensures
            final(out)@ == old(out)@ + self.wire(),
    {
        let mut text: Vec<u8> = Vec::new();
        match self {
            ErrorCause::Malformed { original_message } => {
                push_text(&mut text, "{\"type\":\"Malformed\",\"original_message\":");
                assert(text@ =~= "{\"type\":\"Malformed\",\"original_message\":".spec_bytes());
                push_quoted(&mut text, original_message);
                push_text(&mut text, "}");
            },
            ErrorCause::SensorFail { group_id, sensor_id } => {
                push_text(&mut text, "{\"type\":\"SensorFail\",\"group_id\":");
                assert(text@ =~= "{\"type\":\"SensorFail\",\"group_id\":".spec_bytes());
                push_decimal(&mut text, *group_id as u128);
                push_text(&mut text, ",\"sensor_id\":");
                push_decimal(&mut text, *sensor_id as u128);
                push_text(&mut text, "}");
            },
            ErrorCause::Permission => {
                push_text(&mut text, "{\"type\":\"Permission\"}");
                assert(text@ =~= "{\"type\":\"Permission\"}".spec_bytes());
            },
        }
        push_bytes(out, text.as_slice());
    }
}

/// Appends a list of readings as a JSON array.
fn write_readings(out: &mut Vec<u8>, readings: &[SensorReading])
    ensures
        final(out)@ == old(out)@ + array(readings_wire(readings@)),
{
    out.push(0x5b);
    let mut i: usize = 0;
    while i < readings.len()
        invariant
            i <= readings.len(),
            out@ == old(out)@ + seq![0x5bu8] + joined(readings_wire(readings@.take(i as int))),
        decreases readings.len() - i,
    {
        if i > 0 {
            out.push(0x2c);
        }
        readings[i].write_wire(out);
        proof {
            let before = readings_wire(readings@.take(i as int));
            joined_push(before, readings@[i as int].wire());
            assert(readings_wire(readings@.take(i as int + 1)) =~= before.push(
                readings@[i as int].wire(),
            ));
        }
        i += 1;
    }
    out.push(0x5d);
    proof {
        assert(readings@.take(i as int) =~= readings@);
        assert(final(out)@ =~= old(out)@ + array(readings_wire(readings@)));
    }
}

/// Appends a list of levels as a JSON array.
fn write_levels(out: &mut Vec<u8>, levels: &[bool])
    ensures
        final(out)@ == old(out)@ + array(levels_wire(levels@)),
{
    out.push(0x5b);
    let mut i: usize = 0;
    while i < levels.len()
        invariant
            i <= levels.len(),
            out@ == old(out)@ + seq![0x5bu8] + joined(levels_wire(levels@.take(i as int))),
        decreases levels.len() - i,
    {
        if i > 0 {
            out.push(0x2c);
        }
        push_boolean(out, levels[i]);
        proof {
            let before = levels_wire(levels@.take(i as int));
            joined_push(before, boolean(levels@[i as int]));
            assert(levels_wire(levels@.take(i as int + 1)) =~= before.push(
                boolean(levels@[i as int]),
            ));
        }
        i += 1;
    }
    out.push(0x5d);
    proof {
        assert(levels@.take(i as int) =~= levels@);
        assert(final(out)@ =~= old(out)@ + array(levels_wire(levels@)));
    }
}

impl Message<'_> {
    /// Which of the six messages this is.
    pub open spec fn kind(&self) -> MessageKind {
        match self {
            Message::Ready => MessageKind::Ready,
            Message::Config { .. } => MessageKind::Config,
            Message::SensorValue { .. } => MessageKind::SensorValue,
            Message::DriverValue { .. } => MessageKind::DriverValue,
            Message::Display { .. } => MessageKind::Display,
            Message::Error { .. } => MessageKind::Error,
        }
    }

    /// The frame that carries the message: one JSON object, without white
    /// space, whose first field `type` names the kind and whose other fields
    /// are those of the kind, in the order in which the type declares them.
    pub open spec fn wire(&self) -> Seq<u8> {
        match self {
            Message::Ready => "{\"type\":\"Ready\"}".spec_bytes(),
            Message::Config { config } => "{\"type\":\"Config\",\"config\":".spec_bytes()
                + config.wire() + "}".spec_bytes(),
            Message::SensorValue { group_id, readings } =>
                "{\"type\":\"SensorValue\",\"group_id\":".spec_bytes() + decimal(*group_id as nat)
                    + ",\"readings\":".spec_bytes() + array(readings_wire(readings@))
                    + "}".spec_bytes(),
            Message::DriverValue { values } => "{\"type\":\"DriverValue\",\"values\":".spec_bytes()
                + array(levels_wire(values@)) + "}".spec_bytes(),
            Message::Display { message } => "{\"type\":\"Display\",\"message\":".spec_bytes()
                + string_wire(message@) + "}".spec_bytes(),
            Message::Error { cause, diagnostic } => "{\"type\":\"Error\",\"cause\":".spec_bytes()
                + cause.wire() + ",\"diagnostic\":".spec_bytes() + string_wire(diagnostic@)
                + "}".spec_bytes(),
        }
    }

    /// The frame that carries the message.
    pub fn to_json(&self) -> (frame: Vec<u8>)
        ensures
            frame@ == self.wire(),
    {
        let mut out: Vec<u8> = Vec::new();
        match self {
            Message::Ready => {
                push_text(&mut out, "{\"type\":\"Ready\"}");
                assert(out@ =~= "{\"type\":\"Ready\"}".spec_bytes());
            },
            Message::Config { config } => {
                push_text(&mut out, "{\"type\":\"Config\",\"config\":");
                assert(out@ =~= "{\"type\":\"Config\",\"config\":".spec_bytes());
                config.write_wire(&mut out);
                push_text(&mut out, "}");
            },
            Message::SensorValue { group_id, readings } => {
                push_text(&mut out, "{\"type\":\"SensorValue\",\"group_id\":");
                assert(out@ =~= "{\"type\":\"SensorValue\",\"group_id\":".spec_bytes());
                push_decimal(&mut out, *group_id as u128);
                push_text(&mut out, ",\"readings\":");
                write_readings(&mut out, readings);
                push_text(&mut out, "}");
            },
            Message::DriverValue { values } => {
                push_text(&mut out, "{\"type\":\"DriverValue\",\"values\":");
                assert(out@ =~= "{\"type\":\"DriverValue\",\"values\":".spec_bytes());
                write_levels(&mut out, values);
                push_text(&mut out, "}");
            },
            Message::Display { message } => {
                push_text(&mut out, "{\"type\":\"Display\",\"message\":");
                assert(out@ =~= "{\"type\":\"Display\",\"message\":".spec_bytes());
                push_quoted(&mut out, message);
                push_text(&mut out, "}");
            },
            Message::Error { cause, diagnostic } => {
                push_text(&mut out, "{\"type\":\"Error\",\"cause\":");
                assert(out@ =~= "{\"type\":\"Error\",\"cause\":".spec_bytes());
                cause.write_wire(&mut out);
                push_text(&mut out, ",\"diagnostic\":");
                push_quoted(&mut out, diagnostic);
                push_text(&mut out, "}");
            },
        }
        out
    }
}

/// The bytes that open every frame, up to the value of the `type` field.
pub open spec fn opening() -> Seq<u8> {
    "{\"type\":\"".spec_bytes()
}

/// What a frame of each kind opens with: the text up to and including the
/// quote that closes the tag.
proof fn literal_heads()
    ensures
        "{\"type\":\"Ready\"}".spec_bytes().subrange(0, 15) == opening() + "Ready".spec_bytes()
            + seq![0x22u8],
        "{\"type\":\"Config\",\"config\":".spec_bytes().subrange(0, 16) == opening()
            + "Config".spec_bytes() + seq![0x22u8],
        "{\"type\":\"SensorValue\",\"group_id\":".spec_bytes().subrange(0, 21) == opening()
            + "SensorValue".spec_bytes() + seq![0x22u8],
        "{\"type\":\"DriverValue\",\"values\":".spec_bytes().subrange(0, 21) == opening()
            + "DriverValue".spec_bytes() + seq![0x22u8],
        "{\"type\":\"Display\",\"message\":".spec_bytes().subrange(0, 17) == opening()
            + "Display".spec_bytes() + seq![0x22u8],
        "{\"type\":\"Error\",\"cause\":".spec_bytes().subrange(0, 15) == opening()
            + "Error".spec_bytes() + seq![0x22u8],
        opening().len() == 9,
        "Ready".spec_bytes().len() == 5,
        "Config".spec_bytes().len() == 6,
        "SensorValue".spec_bytes().len() == 11,
        "DriverValue".spec_bytes().len() == 11,
        "Display".spec_bytes().len() == 7,
        "Error".spec_bytes().len() == 5,
        "{\"type\":\"Ready\"}".spec_bytes().len() == 16,
        "{\"type\":\"Config\",\"config\":".spec_bytes().len() == 26,
        "{\"type\":\"SensorValue\",\"group_id\":".spec_bytes().len() == 33,
        "{\"type\":\"DriverValue\",\"values\":".spec_bytes().len() == 31,
        "{\"type\":\"Display\",\"message\":".spec_bytes().len() == 28,
        "{\"type\":\"Error\",\"cause\":".spec_bytes().len() == 24,
{
    broadcast use vstd::string::group_string_axioms;

    reveal_strlit("{\"type\":\"");
    assert(vstd::string::is_ascii("{\"type\":\""));
    assert({
        &&& "{\"type\":\"Ready\"}".spec_bytes().subrange(0, 15) =~= opening()
            + "Ready".spec_bytes() + seq![0x22u8]
        &&& "Ready".spec_bytes().len() == 5
        &&& "{\"type\":\"Ready\"}".spec_bytes().len() == 16
    }) by {
        reveal_strlit("Ready");
        reveal_strlit("{\"type\":\"Ready\"}");
        assert(vstd::string::is_ascii("Ready"));
        assert(vstd::string::is_ascii("{\"type\":\"Ready\"}"));
    }
    assert({
        &&& "{\"type\":\"Config\",\"config\":".spec_bytes().subrange(0, 16) =~= opening()
            + "Config".spec_bytes() + seq![0x22u8]
        &&& "Config".spec_bytes().len() == 6
        &&& "{\"type\":\"Config\",\"config\":".spec_bytes().len() == 26
    }) by {
        reveal_strlit("Config");
        reveal_strlit("{\"type\":\"Config\",\"config\":");
        assert(vstd::string::is_ascii("Config"));
        assert(vstd::string::is_ascii("{\"type\":\"Config\",\"config\":"));
    }
    assert({
        &&& "{\"type\":\"SensorValue\",\"group_id\":".spec_bytes().subrange(0, 21) =~= opening()
            + "SensorValue".spec_bytes() + seq![0x22u8]
        &&& "SensorValue".spec_bytes().len() == 11
        &&& "{\"type\":\"SensorValue\",\"group_id\":".spec_bytes().len() == 33
    }) by {
        reveal_strlit("SensorValue");
        reveal_strlit("{\"type\":\"SensorValue\",\"group_id\":");
        assert(vstd::string::is_ascii("SensorValue"));
        assert(vstd::string::is_ascii("{\"type\":\"SensorValue\",\"group_id\":"));
    }
    assert({
        &&& "{\"type\":\"DriverValue\",\"values\":".spec_bytes().subrange(0, 21) =~= opening()
            + "DriverValue".spec_bytes() + seq![0x22u8]
        &&& "DriverValue".spec_bytes().len() == 11
        &&& "{\"type\":\"DriverValue\",\"values\":".spec_bytes().len() == 31
    }) by {
        reveal_strlit("DriverValue");
        reveal_strlit("{\"type\":\"DriverValue\",\"values\":");
        assert(vstd::string::is_ascii("DriverValue"));
        assert(vstd::string::is_ascii("{\"type\":\"DriverValue\",\"values\":"));
    }
    assert({
        &&& "{\"type\":\"Display\",\"message\":".spec_bytes().subrange(0, 17) =~= opening()
            + "Display".spec_bytes() + seq![0x22u8]
        &&& "Display".spec_bytes().len() == 7
        &&& "{\"type\":\"Display\",\"message\":".spec_bytes().len() == 28
    }) by {
        reveal_strlit("Display");
        reveal_strlit("{\"type\":\"Display\",\"message\":");
        assert(vstd::string::is_ascii("Display"));
        assert(vstd::string::is_ascii("{\"type\":\"Display\",\"message\":"));
    }
    assert({
        &&& "{\"type\":\"Error\",\"cause\":".spec_bytes().subrange(0, 15) =~= opening()
            + "Error".spec_bytes() + seq![0x22u8]
        &&& "Error".spec_bytes().len() == 5
        &&& "{\"type\":\"Error\",\"cause\":".spec_bytes().len() == 24
    }) by {
        reveal_strlit("Error");
        reveal_strlit("{\"type\":\"Error\",\"cause\":");
        assert(vstd::string::is_ascii("Error"));
        assert(vstd::string::is_ascii("{\"type\":\"Error\",\"cause\":"));
    }
}

/// What a text opens with is not changed by what is appended to it.
proof fn head_of_longer(first: Seq<u8>, rest: Seq<u8>, n: int)
    requires
        0 <= n <= first.len(),
    ensures
        (first + rest).subrange(0, n) == first.subrange(0, n),
        (first + rest).len() >= first.len(),
{
    assert((first + rest).subrange(0, n) =~= first.subrange(0, n));
}

/// Every frame opens with the `type` field, and its value is the tag of the
/// kind of the message, whatever the message carries.
pub proof fn wire_opens_with_tag(message: Message)
    ensures
        message.wire().len() > opening().len() + message.kind().tag().len(),
        message.wire().subrange(0, (opening().len() + message.kind().tag().len() + 1) as int)
            == opening() + message.kind().tag() + seq![0x22u8],
{
    literal_heads();
    match message {
        Message::Ready => {},
        Message::Config { config } => {
            let first = "{\"type\":\"Config\",\"config\":".spec_bytes();
            head_of_longer(first, config.wire(), 16);
            head_of_longer(first + config.wire(), "}".spec_bytes(), 16);
        },
        Message::SensorValue { group_id, readings } => {
            let first = "{\"type\":\"SensorValue\",\"group_id\":".spec_bytes();
            let a = first + decimal(group_id as nat);
            let b = a + ",\"readings\":".spec_bytes();
            let c = b + array(readings_wire(readings@));
            head_of_longer(first, decimal(group_id as nat), 21);
            head_of_longer(a, ",\"readings\":".spec_bytes(), 21);
            head_of_longer(b, array(readings_wire(readings@)), 21);
            head_of_longer(c, "}".spec_bytes(), 21);
        },
        Message::DriverValue { values } => {
            let first = "{\"type\":\"DriverValue\",\"values\":".spec_bytes();
            head_of_longer(first, array(levels_wire(values@)), 21);
            head_of_longer(first + array(levels_wire(values@)), "}".spec_bytes(), 21);
        },
        Message::Display { message } => {
            let first = "{\"type\":\"Display\",\"message\":".spec_bytes();
            head_of_longer(first, string_wire(message@), 17);
            head_of_longer(first + string_wire(message@), "}".spec_bytes(), 17);
        },
        Message::Error { cause, diagnostic } => {
            let first = "{\"type\":\"Error\",\"cause\":".spec_bytes();
            let a = first + cause.wire();
            let b = a + ",\"diagnostic\":".spec_bytes();
            let c = b + string_wire(diagnostic@);
            head_of_longer(first, cause.wire(), 15);
            head_of_longer(a, ",\"diagnostic\":".spec_bytes(), 15);
            head_of_longer(b, string_wire(diagnostic@), 15);
            head_of_longer(c, "}".spec_bytes(), 15);
        },
    }
}

/// No tag of one kind, closed by its quote, is the start of the tag of
/// another: a reader that has seen the value of the `type` field knows the
/// kind.
pub proof fn tag_names_one_kind(a: MessageKind, b: MessageKind)
    requires
        (a.tag() + seq![0x22u8]).is_prefix_of(b.tag() + seq![0x22u8]),
    ensures
        a == b,
{
    broadcast use vstd::string::group_string_axioms;

    reveal_strlit("Ready");
    reveal_strlit("Config");
    reveal_strlit("SensorValue");
    reveal_strlit("DriverValue");
    reveal_strlit("Display");
    reveal_strlit("Error");
    assert(vstd::string::is_ascii("Ready"));
    assert(vstd::string::is_ascii("Config"));
    assert(vstd::string::is_ascii("SensorValue"));
    assert(vstd::string::is_ascii("DriverValue"));
    assert(vstd::string::is_ascii("Display"));
    assert(vstd::string::is_ascii("Error"));
    let x = a.tag() + seq![0x22u8];
    let y = b.tag() + seq![0x22u8];
    assert(x.len() <= y.len());
    assert(x[0] == y[0]);
    assert(x[1] == y[1]);
    assert(x[(x.len() - 1) as int] == y[(x.len() - 1) as int]);
}

/// Of two texts that both open one frame, behind the same opening, the
/// shorter is the start of the longer.
proof fn heads_nest(frame: Seq<u8>, open: Seq<u8>, x: Seq<u8>, y: Seq<u8>)
    requires
        x.len() <= y.len(),
        open.len() + y.len() <= frame.len(),
        frame.subrange(0, (open.len() + x.len()) as int) == open + x,
        frame.subrange(0, (open.len() + y.len()) as int) == open + y,
    ensures
        x.is_prefix_of(y),
{
    let n = open.len() as int;
    assert forall|i: int| 0 <= i < x.len() implies x[i] == y[i] by {
        assert((open + x)[n + i] == frame[n + i]);
        assert((open + y)[n + i] == frame[n + i]);
    }
    assert(x =~= y.subrange(0, x.len() as int));
}

/// Two messages with the same frame are of the same kind: the `type` tag
/// identifies the variant.
pub proof fn frame_determines_kind(a: Message, b: Message)
    requires
        a.wire() == b.wire(),
    ensures
        a.kind() == b.kind(),
{
    wire_opens_with_tag(a);
    wire_opens_with_tag(b);
    let frame = a.wire();
    let x = a.kind().tag() + seq![0x22u8];
    let y = b.kind().tag() + seq![0x22u8];
    assert(opening() + a.kind().tag() + seq![0x22u8] =~= opening() + x);
    assert(opening() + b.kind().tag() + seq![0x22u8] =~= opening() + y);
    if x.len() <= y.len() {
        heads_nest(frame, opening(), x, y);
        tag_names_one_kind(a.kind(), b.kind());
    } else {
        heads_nest(frame, opening(), y, x);
        tag_names_one_kind(b.kind(), a.kind());
    }
}

/// Which of the three causes a cause is.
#[derive(Clone, Copy, Debug, PartialEq, Eq, Structural)]
pub enum CauseKind {
    Malformed,
    SensorFail,
    Permission,
}

impl ErrorCause<'_> {
    /// Which of the three causes this is.
    pub open spec fn kind(&self) -> CauseKind {
        match self {
            ErrorCause::Malformed { .. } => CauseKind::Malformed,
            ErrorCause::SensorFail { .. } => CauseKind::SensorFail,
            ErrorCause::Permission => CauseKind::Permission,
        }
    }
}

/// Two causes with the same text are the same kind of cause: their `type`
/// tags differ in the first letter.
pub proof fn text_determines_cause(a: ErrorCause, b: ErrorCause)
    requires
        a.wire() == b.wire(),
    ensures
        a.kind() == b.kind(),
{
    broadcast use vstd::string::group_string_axioms;

    reveal_strlit("{\"type\":\"Malformed\",\"original_message\":");
    reveal_strlit("{\"type\":\"SensorFail\",\"group_id\":");
    reveal_strlit("{\"type\":\"Permission\"}");
    assert(vstd::string::is_ascii("{\"type\":\"Malformed\",\"original_message\":"));
    assert(vstd::string::is_ascii("{\"type\":\"SensorFail\",\"group_id\":"));
    assert(vstd::string::is_ascii("{\"type\":\"Permission\"}"));
    assert(a.wire()[9] == match a.kind() {
        CauseKind::Malformed => 0x4du8,
        CauseKind::SensorFail => 0x53u8,
        CauseKind::Permission => 0x50u8,
    });
    assert(b.wire()[9] == match b.kind() {
        CauseKind::Malformed => 0x4du8,
        CauseKind::SensorFail => 0x53u8,
        CauseKind::Permission => 0x50u8,
    });
}

/// Whether `text` holds `part` from the index `at` on.
pub open spec fn holds_at(text: Seq<u8>, part: Seq<u8>, at: int) -> bool {
    0 <= at && at + part.len() <= text.len() && text.subrange(at, at + part.len()) == part
}

/// Whether `text` holds `part` somewhere.
pub open spec fn holds(text: Seq<u8>, part: Seq<u8>) -> bool {
    exists|at: int| holds_at(text, part, at)
}

/// A field name as it stands in a frame: between quotes, followed by a
/// colon.
pub open spec fn field(name: &str) -> Seq<u8> {
    seq![0x22u8] + name.spec_bytes() + seq![0x22u8, 0x3au8]
}

/// What a text holds, it still holds with more text after it.
proof fn holds_before(text: Seq<u8>, part: Seq<u8>, more: Seq<u8>)
    requires
        holds(text, part),
    ensures
        holds(text + more, part),
{
    let at = choose|at: int| holds_at(text, part, at);
    assert((text + more).subrange(at, at + part.len()) =~= part);
    assert(holds_at(text + more, part, at));
}

/// What a text holds, it still holds with more text before it.
proof fn holds_after(more: Seq<u8>, text: Seq<u8>, part: Seq<u8>)
    requires
        holds(text, part),
    ensures
        holds(more + text, part),
{
    let at = choose|at: int| holds_at(text, part, at);
    assert((more + text).subrange(more.len() + at, more.len() + at + part.len()) =~= part);
    assert(holds_at(more + text, part, more.len() + at));
}

/// The field names that the fixed text of `Ready` holds.
proof fn ready_literals()
    ensures
        holds("{\"type\":\"Ready\"}".spec_bytes(), field("type")),
{
    broadcast use vstd::string::group_string_axioms;

    assert(holds("{\"type\":\"Ready\"}".spec_bytes(), field("type"))) by {
        reveal_strlit("{\"type\":\"Ready\"}");
        reveal_strlit("type");
        assert(vstd::string::is_ascii("{\"type\":\"Ready\"}"));
        assert(vstd::string::is_ascii("type"));
        assert("{\"type\":\"Ready\"}".spec_bytes().subrange(1, 8) =~= field("type"));
        assert(holds_at("{\"type\":\"Ready\"}".spec_bytes(), field("type"), 1));
    }
}

/// The field names that the fixed texts of `Config` hold.
proof fn config_literals()
    ensures
        holds("{\"type\":\"Config\",\"config\":".spec_bytes(), field("type")),
        holds("{\"type\":\"Config\",\"config\":".spec_bytes(), field("config")),
{
    broadcast use vstd::string::group_string_axioms;

    assert(holds("{\"type\":\"Config\",\"config\":".spec_bytes(), field("type"))) by {
        reveal_strlit("{\"type\":\"Config\",\"config\":");
        reveal_strlit("type");
        assert(vstd::string::is_ascii("{\"type\":\"Config\",\"config\":"));
        assert(vstd::string::is_ascii("type"));
        assert("{\"type\":\"Config\",\"config\":".spec_bytes().subrange(1, 8) =~= field("type"));
        assert(holds_at("{\"type\":\"Config\",\"config\":".spec_bytes(), field("type"), 1));
    }
    assert(holds("{\"type\":\"Config\",\"config\":".spec_bytes(), field("config"))) by {
        reveal_strlit("{\"type\":\"Config\",\"config\":");
        reveal_strlit("config");
        assert(vstd::string::is_ascii("{\"type\":\"Config\",\"config\":"));
        assert(vstd::string::is_ascii("config"));
        assert("{\"type\":\"Config\",\"config\":".spec_bytes().subrange(17, 26) =~= field("config"));
        assert(holds_at("{\"type\":\"Config\",\"config\":".spec_bytes(), field("config"), 17));
    }
}

/// The field names that the fixed texts of `SensorValue` hold.
proof fn sensor_value_literals()
    ensures
        holds("{\"type\":\"SensorValue\",\"group_id\":".spec_bytes(), field("type")),
        holds("{\"type\":\"SensorValue\",\"group_id\":".spec_bytes(), field("group_id")),
        holds(",\"readings\":".spec_bytes(), field("readings")),
{
    broadcast use vstd::string::group_string_axioms;

    assert(holds("{\"type\":\"SensorValue\",\"group_id\":".spec_bytes(), field("type"))) by {
        reveal_strlit("{\"type\":\"SensorValue\",\"group_id\":");
        reveal_strlit("type");
        assert(vstd::string::is_ascii("{\"type\":\"SensorValue\",\"group_id\":"));
        assert(vstd::string::is_ascii("type"));
        assert("{\"type\":\"SensorValue\",\"group_id\":".spec_bytes().subrange(1, 8) =~= field("type"));
        assert(holds_at("{\"type\":\"SensorValue\",\"group_id\":".spec_bytes(), field("type"), 1));
    }
    assert(holds("{\"type\":\"SensorValue\",\"group_id\":".spec_bytes(), field("group_id"))) by {
        reveal_strlit("{\"type\":\"SensorValue\",\"group_id\":");
        reveal_strlit("group_id");
        assert(vstd::string::is_ascii("{\"type\":\"SensorValue\",\"group_id\":"));
        assert(vstd::string::is_ascii("group_id"));
        assert("{\"type\":\"SensorValue\",\"group_id\":".spec_bytes().subrange(22, 33) =~= field("group_id"));
        assert(holds_at("{\"type\":\"SensorValue\",\"group_id\":".spec_bytes(), field("group_id"), 22));
    }
    assert(holds(",\"readings\":".spec_bytes(), field("readings"))) by {
        reveal_strlit(",\"readings\":");
        reveal_strlit("readings");
        assert(vstd::string::is_ascii(",\"readings\":"));
        assert(vstd::string::is_ascii("readings"));
        assert(",\"readings\":".spec_bytes().subrange(1, 12) =~= field("readings"));
        assert(holds_at(",\"readings\":".spec_bytes(), field("readings"), 1));
    }
}

/// The field names that the fixed texts of `DriverValue` hold.
proof fn driver_value_literals()
    ensures
        holds("{\"type\":\"DriverValue\",\"values\":".spec_bytes(), field("type")),
        holds("{\"type\":\"DriverValue\",\"values\":".spec_bytes(), field("values")),
{
    broadcast use vstd::string::group_string_axioms;

    assert(holds("{\"type\":\"DriverValue\",\"values\":".spec_bytes(), field("type"))) by {
        reveal_strlit("{\"type\":\"DriverValue\",\"values\":");
        reveal_strlit("type");
        assert(vstd::string::is_ascii("{\"type\":\"DriverValue\",\"values\":"));
        assert(vstd::string::is_ascii("type"));
        assert("{\"type\":\"DriverValue\",\"values\":".spec_bytes().subrange(1, 8) =~= field("type"));
        assert(holds_at("{\"type\":\"DriverValue\",\"values\":".spec_bytes(), field("type"), 1));
    }
    assert(holds("{\"type\":\"DriverValue\",\"values\":".spec_bytes(), field("values"))) by {
        reveal_strlit("{\"type\":\"DriverValue\",\"values\":");
        reveal_strlit("values");
        assert(vstd::string::is_ascii("{\"type\":\"DriverValue\",\"values\":"));
        assert(vstd::string::is_ascii("values"));
        assert("{\"type\":\"DriverValue\",\"values\":".spec_bytes().subrange(22, 31) =~= field("values"));
        assert(holds_at("{\"type\":\"DriverValue\",\"values\":".spec_bytes(), field("values"), 22));
    }
}

/// The field names that the fixed texts of `Display` hold.
proof fn display_literals()
    ensures
        holds("{\"type\":\"Display\",\"message\":".spec_bytes(), field("type")),
        holds("{\"type\":\"Display\",\"message\":".spec_bytes(), field("message")),
{
    broadcast use vstd::string::group_string_axioms;

    assert(holds("{\"type\":\"Display\",\"message\":".spec_bytes(), field("type"))) by {
        reveal_strlit("{\"type\":\"Display\",\"message\":");
        reveal_strlit("type");
        assert(vstd::string::is_ascii("{\"type\":\"Display\",\"message\":"));
        assert(vstd::string::is_ascii("type"));
        assert("{\"type\":\"Display\",\"message\":".spec_bytes().subrange(1, 8) =~= field("type"));
        assert(holds_at("{\"type\":\"Display\",\"message\":".spec_bytes(), field("type"), 1));
    }
    assert(holds("{\"type\":\"Display\",\"message\":".spec_bytes(), field("message"))) by {
        reveal_strlit("{\"type\":\"Display\",\"message\":");
        reveal_strlit("message");
        assert(vstd::string::is_ascii("{\"type\":\"Display\",\"message\":"));
        assert(vstd::string::is_ascii("message"));
        assert("{\"type\":\"Display\",\"message\":".spec_bytes().subrange(18, 28) =~= field("message"));
        assert(holds_at("{\"type\":\"Display\",\"message\":".spec_bytes(), field("message"), 18));
    }
}

/// The field names that the fixed texts of `Error` hold.
proof fn error_literals()
    ensures
        holds("{\"type\":\"Error\",\"cause\":".spec_bytes(), field("type")),
        holds("{\"type\":\"Error\",\"cause\":".spec_bytes(), field("cause")),
        holds(",\"diagnostic\":".spec_bytes(), field("diagnostic")),
{
    broadcast use vstd::string::group_string_axioms;

    assert(holds("{\"type\":\"Error\",\"cause\":".spec_bytes(), field("type"))) by {
        reveal_strlit("{\"type\":\"Error\",\"cause\":");
        reveal_strlit("type");
        assert(vstd::string::is_ascii("{\"type\":\"Error\",\"cause\":"));
        assert(vstd::string::is_ascii("type"));
        assert("{\"type\":\"Error\",\"cause\":".spec_bytes().subrange(1, 8) =~= field("type"));
        assert(holds_at("{\"type\":\"Error\",\"cause\":".spec_bytes(), field("type"), 1));
    }
    assert(holds("{\"type\":\"Error\",\"cause\":".spec_bytes(), field("cause"))) by {
        reveal_strlit("{\"type\":\"Error\",\"cause\":");
        reveal_strlit("cause");
        assert(vstd::string::is_ascii("{\"type\":\"Error\",\"cause\":"));
        assert(vstd::string::is_ascii("cause"));
        assert("{\"type\":\"Error\",\"cause\":".spec_bytes().subrange(16, 24) =~= field("cause"));
        assert(holds_at("{\"type\":\"Error\",\"cause\":".spec_bytes(), field("cause"), 16));
    }
    assert(holds(",\"diagnostic\":".spec_bytes(), field("diagnostic"))) by {
        reveal_strlit(",\"diagnostic\":");
        reveal_strlit("diagnostic");
        assert(vstd::string::is_ascii(",\"diagnostic\":"));
        assert(vstd::string::is_ascii("diagnostic"));
        assert(",\"diagnostic\":".spec_bytes().subrange(1, 14) =~= field("diagnostic"));
        assert(holds_at(",\"diagnostic\":".spec_bytes(), field("diagnostic"), 1));
    }
}

/// The field names that the fixed texts of `Malformed` hold.
proof fn malformed_literals()
    ensures
        holds("{\"type\":\"Malformed\",\"original_message\":".spec_bytes(), field("type")),
        holds("{\"type\":\"Malformed\",\"original_message\":".spec_bytes(), field("original_message")),
{
    broadcast use vstd::string::group_string_axioms;

    assert(holds("{\"type\":\"Malformed\",\"original_message\":".spec_bytes(), field("type"))) by {
        reveal_strlit("{\"type\":\"Malformed\",\"original_message\":");
        reveal_strlit("type");
        assert(vstd::string::is_ascii("{\"type\":\"Malformed\",\"original_message\":"));
        assert(vstd::string::is_ascii("type"));
        assert("{\"type\":\"Malformed\",\"original_message\":".spec_bytes().subrange(1, 8) =~= field("type"));
        assert(holds_at("{\"type\":\"Malformed\",\"original_message\":".spec_bytes(), field("type"), 1));
    }
    assert(holds("{\"type\":\"Malformed\",\"original_message\":".spec_bytes(), field("original_message"))) by {
        reveal_strlit("{\"type\":\"Malformed\",\"original_message\":");
        reveal_strlit("original_message");
        assert(vstd::string::is_ascii("{\"type\":\"Malformed\",\"original_message\":"));
        assert(vstd::string::is_ascii("original_message"));
        assert("{\"type\":\"Malformed\",\"original_message\":".spec_bytes().subrange(20, 39) =~= field("original_message"));
        assert(holds_at("{\"type\":\"Malformed\",\"original_message\":".spec_bytes(), field("original_message"), 20));
    }
}

/// The field names that the fixed texts of `SensorFail` hold.
proof fn sensor_fail_literals()
    ensures
        holds("{\"type\":\"SensorFail\",\"group_id\":".spec_bytes(), field("type")),
        holds("{\"type\":\"SensorFail\",\"group_id\":".spec_bytes(), field("group_id")),
        holds(",\"sensor_id\":".spec_bytes(), field("sensor_id")),
{
    broadcast use vstd::string::group_string_axioms;

    assert(holds("{\"type\":\"SensorFail\",\"group_id\":".spec_bytes(), field("type"))) by {
        reveal_strlit("{\"type\":\"SensorFail\",\"group_id\":");
        reveal_strlit("type");
        assert(vstd::string::is_ascii("{\"type\":\"SensorFail\",\"group_id\":"));
        assert(vstd::string::is_ascii("type"));
        assert("{\"type\":\"SensorFail\",\"group_id\":".spec_bytes().subrange(1, 8) =~= field("type"));
        assert(holds_at("{\"type\":\"SensorFail\",\"group_id\":".spec_bytes(), field("type"), 1));
    }
    assert(holds("{\"type\":\"SensorFail\",\"group_id\":".spec_bytes(), field("group_id"))) by {
        reveal_strlit("{\"type\":\"SensorFail\",\"group_id\":");
        reveal_strlit("group_id");
        assert(vstd::string::is_ascii("{\"type\":\"SensorFail\",\"group_id\":"));
        assert(vstd::string::is_ascii("group_id"));
        assert("{\"type\":\"SensorFail\",\"group_id\":".spec_bytes().subrange(21, 32) =~= field("group_id"));
        assert(holds_at("{\"type\":\"SensorFail\",\"group_id\":".spec_bytes(), field("group_id"), 21));
    }
    assert(holds(",\"sensor_id\":".spec_bytes(), field("sensor_id"))) by {
        reveal_strlit(",\"sensor_id\":");
        reveal_strlit("sensor_id");
        assert(vstd::string::is_ascii(",\"sensor_id\":"));
        assert(vstd::string::is_ascii("sensor_id"));
        assert(",\"sensor_id\":".spec_bytes().subrange(1, 13) =~= field("sensor_id"));
        assert(holds_at(",\"sensor_id\":".spec_bytes(), field("sensor_id"), 1));
    }
}

/// The field names that the fixed text of `Permission` holds.
proof fn permission_literals()
    ensures
        holds("{\"type\":\"Permission\"}".spec_bytes(), field("type")),
{
    broadcast use vstd::string::group_string_axioms;

    assert(holds("{\"type\":\"Permission\"}".spec_bytes(), field("type"))) by {
        reveal_strlit("{\"type\":\"Permission\"}");
        reveal_strlit("type");
        assert(vstd::string::is_ascii("{\"type\":\"Permission\"}"));
        assert(vstd::string::is_ascii("type"));
        assert("{\"type\":\"Permission\"}".spec_bytes().subrange(1, 8) =~= field("type"));
        assert(holds_at("{\"type\":\"Permission\"}".spec_bytes(), field("type"), 1));
    }
}

/// The field names that the fixed texts of a reading hold.
proof fn reading_literals()
    ensures
        holds("{\"sensor_id\":".spec_bytes(), field("sensor_id")),
        holds(",\"reading\":".spec_bytes(), field("reading")),
        holds(",\"time\":{\"secs_since_epoch\":".spec_bytes(), field("time")),
        holds(",\"time\":{\"secs_since_epoch\":".spec_bytes(), field("secs_since_epoch")),
        holds(",\"nanos_since_epoch\":".spec_bytes(), field("nanos_since_epoch")),
{
    broadcast use vstd::string::group_string_axioms;

    assert(holds("{\"sensor_id\":".spec_bytes(), field("sensor_id"))) by {
        reveal_strlit("{\"sensor_id\":");
        reveal_strlit("sensor_id");
        assert(vstd::string::is_ascii("{\"sensor_id\":"));
        assert(vstd::string::is_ascii("sensor_id"));
        assert("{\"sensor_id\":".spec_bytes().subrange(1, 13) =~= field("sensor_id"));
        assert(holds_at("{\"sensor_id\":".spec_bytes(), field("sensor_id"), 1));
    }
    assert(holds(",\"reading\":".spec_bytes(), field("reading"))) by {
        reveal_strlit(",\"reading\":");
        reveal_strlit("reading");
        assert(vstd::string::is_ascii(",\"reading\":"));
        assert(vstd::string::is_ascii("reading"));
        assert(",\"reading\":".spec_bytes().subrange(1, 11) =~= field("reading"));
        assert(holds_at(",\"reading\":".spec_bytes(), field("reading"), 1));
    }
    assert(holds(",\"time\":{\"secs_since_epoch\":".spec_bytes(), field("time"))) by {
        reveal_strlit(",\"time\":{\"secs_since_epoch\":");
        reveal_strlit("time");
        assert(vstd::string::is_ascii(",\"time\":{\"secs_since_epoch\":"));
        assert(vstd::string::is_ascii("time"));
        assert(",\"time\":{\"secs_since_epoch\":".spec_bytes().subrange(1, 8) =~= field("time"));
        assert(holds_at(",\"time\":{\"secs_since_epoch\":".spec_bytes(), field("time"), 1));
    }
    assert(holds(",\"time\":{\"secs_since_epoch\":".spec_bytes(), field("secs_since_epoch"))) by {
        reveal_strlit(",\"time\":{\"secs_since_epoch\":");
        reveal_strlit("secs_since_epoch");
        assert(vstd::string::is_ascii(",\"time\":{\"secs_since_epoch\":"));
        assert(vstd::string::is_ascii("secs_since_epoch"));
        assert(",\"time\":{\"secs_since_epoch\":".spec_bytes().subrange(9, 28) =~= field("secs_since_epoch"));
        assert(holds_at(",\"time\":{\"secs_since_epoch\":".spec_bytes(), field("secs_since_epoch"), 9));
    }
    assert(holds(",\"nanos_since_epoch\":".spec_bytes(), field("nanos_since_epoch"))) by {
        reveal_strlit(",\"nanos_since_epoch\":");
        reveal_strlit("nanos_since_epoch");
        assert(vstd::string::is_ascii(",\"nanos_since_epoch\":"));
        assert(vstd::string::is_ascii("nanos_since_epoch"));
        assert(",\"nanos_since_epoch\":".spec_bytes().subrange(1, 21) =~= field("nanos_since_epoch"));
        assert(holds_at(",\"nanos_since_epoch\":".spec_bytes(), field("nanos_since_epoch"), 1));
    }
}

/// Every frame holds the `type` field and the fields of its kind.
pub proof fn message_fields_are_present(message: Message)
    ensures
        holds(message.wire(), field("type")),
        message is Config ==> holds(message.wire(), field("config")),
        message is SensorValue ==> holds(message.wire(), field("group_id")) && holds(
            message.wire(),
            field("readings"),
        ),
        message is DriverValue ==> holds(message.wire(), field("values")),
        message is Display ==> holds(message.wire(), field("message")),
        message is Error ==> holds(message.wire(), field("cause")) && holds(
            message.wire(),
            field("diagnostic"),
        ),
{
    let close = "}".spec_bytes();
    match message {
        Message::Ready => {
            ready_literals();
        },
        Message::Config { config } => {
            config_literals();
            let first = "{\"type\":\"Config\",\"config\":".spec_bytes();
            holds_before(first, field("type"), config.wire());
            holds_before(first + config.wire(), field("type"), close);
            holds_before(first, field("config"), config.wire());
            holds_before(first + config.wire(), field("config"), close);
        },
        Message::SensorValue { group_id, readings } => {
            sensor_value_literals();
            let first = "{\"type\":\"SensorValue\",\"group_id\":".spec_bytes();
            let second = ",\"readings\":".spec_bytes();
            let a = first + decimal(group_id as nat);
            let b = a + second;
            let c = b + array(readings_wire(readings@));
            holds_before(first, field("type"), decimal(group_id as nat));
            holds_before(a, field("type"), second);
            holds_before(b, field("type"), array(readings_wire(readings@)));
            holds_before(c, field("type"), close);
            holds_before(first, field("group_id"), decimal(group_id as nat));
            holds_before(a, field("group_id"), second);
            holds_before(b, field("group_id"), array(readings_wire(readings@)));
            holds_before(c, field("group_id"), close);
            holds_after(a, second, field("readings"));
            holds_before(b, field("readings"), array(readings_wire(readings@)));
            holds_before(c, field("readings"), close);
        },
        Message::DriverValue { values } => {
            driver_value_literals();
            let first = "{\"type\":\"DriverValue\",\"values\":".spec_bytes();
            holds_before(first, field("type"), array(levels_wire(values@)));
            holds_before(first + array(levels_wire(values@)), field("type"), close);
            holds_before(first, field("values"), array(levels_wire(values@)));
            holds_before(first + array(levels_wire(values@)), field("values"), close);
        },
        Message::Display { message } => {
            display_literals();
            let first = "{\"type\":\"Display\",\"message\":".spec_bytes();
            holds_before(first, field("type"), string_wire(message@));
            holds_before(first + string_wire(message@), field("type"), close);
            holds_before(first, field("message"), string_wire(message@));
            holds_before(first + string_wire(message@), field("message"), close);
        },
        Message::Error { cause, diagnostic } => {
            error_literals();
            let first = "{\"type\":\"Error\",\"cause\":".spec_bytes();
            let second = ",\"diagnostic\":".spec_bytes();
            let a = first + cause.wire();
            let b = a + second;
            let c = b + string_wire(diagnostic@);
            holds_before(first, field("type"), cause.wire());
            holds_before(a, field("type"), second);
            holds_before(b, field("type"), string_wire(diagnostic@));
            holds_before(c, field("type"), close);
            holds_before(first, field("cause"), cause.wire());
            holds_before(a, field("cause"), second);
            holds_before(b, field("cause"), string_wire(diagnostic@));
            holds_before(c, field("cause"), close);
            holds_after(a, second, field("diagnostic"));
            holds_before(b, field("diagnostic"), string_wire(diagnostic@));
            holds_before(c, field("diagnostic"), close);
        },
    }
}

/// Every cause holds the `type` field and the fields of its kind.
pub proof fn cause_fields_are_present(cause: ErrorCause)
    ensures
        holds(cause.wire(), field("type")),
        cause is Malformed ==> holds(cause.wire(), field("original_message")),
        cause is SensorFail ==> holds(cause.wire(), field("group_id")) && holds(
            cause.wire(),
            field("sensor_id"),
        ),
{
    let close = "}".spec_bytes();
    match cause {
        ErrorCause::Malformed { original_message } => {
            malformed_literals();
            let first = "{\"type\":\"Malformed\",\"original_message\":".spec_bytes();
            holds_before(first, field("type"), string_wire(original_message@));
            holds_before(first + string_wire(original_message@), field("type"), close);
            holds_before(first, field("original_message"), string_wire(original_message@));
            holds_before(first + string_wire(original_message@), field("original_message"), close);
        },
        ErrorCause::SensorFail { group_id, sensor_id } => {
            sensor_fail_literals();
            let first = "{\"type\":\"SensorFail\",\"group_id\":".spec_bytes();
            let second = ",\"sensor_id\":".spec_bytes();
            let a = first + decimal(group_id as nat);
            let b = a + second;
            let c = b + decimal(sensor_id as nat);
            holds_before(first, field("type"), decimal(group_id as nat));
            holds_before(a, field("type"), second);
            holds_before(b, field("type"), decimal(sensor_id as nat));
            holds_before(c, field("type"), close);
            holds_before(first, field("group_id"), decimal(group_id as nat));
            holds_before(a, field("group_id"), second);
            holds_before(b, field("group_id"), decimal(sensor_id as nat));
            holds_before(c, field("group_id"), close);
            holds_after(a, second, field("sensor_id"));
            holds_before(b, field("sensor_id"), decimal(sensor_id as nat));
            holds_before(c, field("sensor_id"), close);
        },
        ErrorCause::Permission => {
            permission_literals();
        },
    }
}

/// Every reading holds its three fields, and its time the two of a time.
pub proof fn reading_fields_are_present(reading: SensorReading)
    ensures
        holds(reading.wire(), field("sensor_id")),
        holds(reading.wire(), field("reading")),
        holds(reading.wire(), field("time")),
        holds(reading.wire(), field("secs_since_epoch")),
        holds(reading.wire(), field("nanos_since_epoch")),
{
    reveal(SensorReading::wire);
    reading_literals();
    let l0 = "{\"sensor_id\":".spec_bytes();
    let l1 = ",\"reading\":".spec_bytes();
    let l2 = ",\"time\":{\"secs_since_epoch\":".spec_bytes();
    let l3 = ",\"nanos_since_epoch\":".spec_bytes();
    let l4 = "}}".spec_bytes();
    let x0 = decimal(reading.sensor_id as nat);
    let x1 = decimal(reading.reading as nat);
    let x2 = decimal(reading.time.secs_since_epoch());
    let x3 = decimal(reading.time.nanos_since_epoch());
    let a = l0 + x0;
    let b = a + l1;
    let c = b + x1;
    let d = c + l2;
    let e = d + x2;
    let f = e + l3;
    let g = f + x3;
    assert(reading.wire() == g + l4);
    holds_before(l0, field("sensor_id"), x0);
    holds_before(a, field("sensor_id"), l1);
    holds_before(b, field("sensor_id"), x1);
    holds_before(c, field("sensor_id"), l2);
    holds_before(d, field("sensor_id"), x2);
    holds_before(e, field("sensor_id"), l3);
    holds_before(f, field("sensor_id"), x3);
    holds_before(g, field("sensor_id"), l4);
    holds_after(a, l1, field("reading"));
    holds_before(b, field("reading"), x1);
    holds_before(c, field("reading"), l2);
    holds_before(d, field("reading"), x2);
    holds_before(e, field("reading"), l3);
    holds_before(f, field("reading"), x3);
    holds_before(g, field("reading"), l4);
    holds_after(c, l2, field("time"));
    holds_before(d, field("time"), x2);
    holds_before(e, field("time"), l3);
    holds_before(f, field("time"), x3);
    holds_before(g, field("time"), l4);
    holds_after(c, l2, field("secs_since_epoch"));
    holds_before(d, field("secs_since_epoch"), x2);
    holds_before(e, field("secs_since_epoch"), l3);
    holds_before(f, field("secs_since_epoch"), x3);
    holds_before(g, field("secs_since_epoch"), l4);
    holds_after(e, l3, field("nanos_since_epoch"));
    holds_before(f, field("nanos_since_epoch"), x3);
    holds_before(g, field("nanos_since_epoch"), l4);
}

/// A channel to the dashboard: the writer of the subscriber, if one is
/// connected, and the writer of the log of messages sent.
///
/// The channel decides what is written and what a failed write means. The
/// writing itself is done by its owner, through `target_mut` and `log_mut`.
///
/// # Types
///
/// * `C`: the writer that reaches the dashboard.
/// * `M`: the writer of the log of messages sent.
pub struct DashChannel<C, M> {
    /// The writer of the subscriber. It is `None` until a dashboard connects
    /// and again as soon as a write to it fails.
    dash_channel: Option<C>,
    /// The log of all messages that were sent.
    message_log: M,
}

impl<C, M> DashChannel<C, M> {
    /// The writer of the subscriber, if one is connected.
    pub closed spec fn target(&self) -> Option<C> {
        self.dash_channel
    }

    /// The writer of the log of messages sent.
    pub closed spec fn log(&self) -> M {
        self.message_log
    }

    /// A channel without a subscriber, which logs to `message_log`.
    pub fn new(message_log: M) -> (channel: DashChannel<C, M>)
        ensures
            channel.target() is None,
            channel.log() == message_log,
    {
        DashChannel { dash_channel: None, message_log }
    }

    /// Whether a subscriber is connected.
    pub fn has_target(&self) -> (connected: bool)
        ensures
            connected == (self.target() is Some),
    {
        self.dash_channel.is_some()
    }

    /// Replaces the subscriber by `channel`, or by none. The writer of the
    /// subscriber that was connected before, if any, is dropped.
    pub fn set_channel(&mut self, channel: Option<C>)
        ensures
            final(self).target() == channel,
            final(self).log() == old(self).log(),
    {
        self.dash_channel = channel;
    }

    /// Opens a send: the frame to write to the subscriber, or nothing where
    /// no subscriber is connected, in which case the message is dropped and
    /// the send is over.
    pub fn send(&self, message: &Message) -> (frame: Option<Vec<u8>>)
        ensures
            self.target() is None ==> frame is None,
            self.target() is Some ==> frame is Some && frame->0@ == message.wire(),
    {
        if self.dash_channel.is_some() {
            Some(message.to_json())
        } else {
            None
        }
    }

    /// Closes a send whose frame `frame` was handed to the subscriber's
    /// writer at `now`. Where the write succeeded, the subscriber stays and
    /// the result is the row to append to the log of messages sent. Where it
    /// failed, the subscriber is dropped and nothing is logged: to the
    /// producer of the message a lost subscriber is no error.
    pub fn settle(&mut self, written: bool, frame: &[u8], now: Timestamp) -> (row: Option<Vec<u8>>)
        ensures
            final(self).log() == old(self).log(),
            written ==> final(self).target() == old(self).target() && row is Some && row->0@
                == text_row(now, frame@),
            !written ==> final(self).target() is None && row is None,
    {
        if written {
            Some(make_text_row(now, frame))
        } else {
            self.dash_channel = None;
            None
        }
    }

    /// The writer of the subscriber, to write a frame with.
    pub fn target_mut(&mut self) -> (writer: Option<&mut C>)
        ensures
            old(self).target() is None ==> writer is None && final(self).target() is None,
            old(self).target() is Some ==> writer is Some && *writer->0 == old(self).target()->0
                && final(self).target() == Some(*final(writer->0)),
            final(self).log() == old(self).log(),
    {
        match &mut self.dash_channel {
            Some(writer) => Some(writer),
            None => None,
        }
    }

    /// The writer of the log of messages sent, to append a row with.
    pub fn log_mut(&mut self) -> (writer: &mut M)
        ensures
            *writer == old(self).log(),
            final(self).log() == *final(writer),
            final(self).target() == old(self).target(),
    {
        &mut self.message_log
    }
}

} // verus!
