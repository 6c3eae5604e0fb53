//! What travels from the dashboard to the controller: the commands, the
//! framing of the byte stream that carries them, and their decoding.

use vstd::prelude::*;
use vstd::string::StringSliceAdditionalSpecFns;
use crate::json::{boolean, decimal, push_boolean, push_decimal, push_text};

verus! {

/// A command from the dashboard.
#[derive(Clone, Copy, Debug, PartialEq, Eq, Structural)]
pub enum Command {
    /// Asks the controller to confirm that it is ready.
    Ready,
    /// Asks for one driver to be set to a level.
    Actuate {
        /// The driver, by its index in the configuration.
        driver_id: u8,
        /// The level to set.
        value: bool,
    },
    /// Asks for the ignition sequence to be started.
    Ignition,
    /// Asks for everything to be stopped and made safe, at once.
    EmergencyStop,
}

/// Why no command came out of the stream.
#[derive(Debug, PartialEq, Eq)]
pub enum ParseError {
    /// The stream ended between two frames.
    SourceClosed,
    /// A frame did not hold a command; these are its bytes.
    Malformed(Vec<u8>),
    /// Reading the stream failed; this is the description of the failure.
    Io(String),
}

impl Command {
    /// The command as a JSON object, tagged by `type`.
    pub open spec fn wire(&self) -> Seq<u8> {
        match self {
            Command::Ready => "{\"type\":\"Ready\"}".spec_bytes(),
            Command::Actuate { driver_id, value } =>
                "{\"type\":\"Actuate\",\"driver_id\":".spec_bytes() + decimal(*driver_id as nat)
                    + ",\"value\":".spec_bytes() + boolean(*value) + "}".spec_bytes(),
            Command::Ignition => "{\"type\":\"Ignition\"}".spec_bytes(),
            Command::EmergencyStop => "{\"type\":\"EmergencyStop\"}".spec_bytes(),
        }
    }

    /// The command as a JSON object.
    pub fn to_json(&self) -> (text: Vec<u8>)
        ensures
            text@ == self.wire(),
    {
        let mut text: Vec<u8> = Vec::new();
        match self {
            Command::Ready => {
                push_text(&mut text, "{\"type\":\"Ready\"}");
                assert(text@ =~= "{\"type\":\"Ready\"}".spec_bytes());
            },
            Command::Actuate { driver_id, value } => {
                push_text(&mut text, "{\"type\":\"Actuate\",\"driver_id\":");
                assert(text@ =~= "{\"type\":\"Actuate\",\"driver_id\":".spec_bytes());
                push_decimal(&mut text, *driver_id as u128);
                push_text(&mut text, ",\"value\":");
                push_boolean(&mut text, *value);
                push_text(&mut text, "}");
            },
            Command::Ignition => {
                push_text(&mut text, "{\"type\":\"Ignition\"}");
                assert(text@ =~= "{\"type\":\"Ignition\"}".spec_bytes());
            },
            Command::EmergencyStop => {
                push_text(&mut text, "{\"type\":\"EmergencyStop\"}");
                assert(text@ =~= "{\"type\":\"EmergencyStop\"}".spec_bytes());
            },
        }
        text
    }
}

/// The command that a frame holds, given what its three fields hold: the text
/// of `type`, the number of `driver_id` and the boolean of `value`, each
/// `None` where the field is missing or of another type.
///
/// `type` decides. `Actuate` needs a `driver_id` that fits in a byte and a
/// `value`; the other three need nothing more. Fields that a command does not
/// need are ignored.
pub open spec fn command_of(
    tag: Option<Seq<char>>,
    driver_id: Option<u64>,
    value: Option<bool>,
) -> Option<Command> {
    if tag == Some("Ready"@) {
        Some(Command::Ready)
    } else if tag == Some("Ignition"@) {
        Some(Command::Ignition)
    } else if tag == Some("EmergencyStop"@) {
        Some(Command::EmergencyStop)
    } else if tag == Some("Actuate"@) && driver_id is Some && driver_id->0 <= 255 && value is Some {
        Some(Command::Actuate { driver_id: driver_id->0 as u8, value: value->0 })
    } else {
        None
    }
}

/// Whether `text` reads `word`.
fn reads(text: &str, word: &str) -> (same: bool)
    ensures
        same == (text@ == word@),
{
    let a = text.to_owned();
    let b = word.to_owned();
    a == b
}

/// The text that the JSON document `frame` holds under `key`, where `frame`
/// is an object whose member `key` is a string; `None` in every other case.
pub uninterp spec fn json_text_field(frame: Seq<u8>, key: Seq<char>) -> Option<Seq<char>>;

/// The number that the JSON document `frame` holds under `key`, where `frame`
/// is an object whose member `key` is a non-negative integer that fits in 64
/// bits; `None` in every other case.
pub uninterp spec fn json_u64_field(frame: Seq<u8>, key: Seq<char>) -> Option<u64>;

/// The boolean that the JSON document `frame` holds under `key`, where
/// `frame` is an object whose member `key` is a boolean; `None` in every other
/// case.
pub uninterp spec fn json_bool_field(frame: Seq<u8>, key: Seq<char>) -> Option<bool>;

/// Reads a string member of a JSON document with `serde_json::from_slice`,
/// `serde_json::Value::get` and `serde_json::Value::as_str`. The contract
/// says only that the outcome is a function of the two arguments, and gives
/// it its name.
#[verifier::external_body]
fn text_field(frame: &[u8], key: &str) -> (field: Option<String>)
    ensures
        match field {
            Some(text) => json_text_field(frame@, key@) == Some(text@),
            None => json_text_field(frame@, key@) is None,
        },
{
    match serde_json::from_slice::<serde_json::Value>(frame) {
        Ok(document) => document.get(key).and_then(serde_json::Value::as_str).map(str::to_owned),
        Err(_) => None,
    }
}

/// Reads a numeric member of a JSON document with `serde_json::from_slice`,
/// `serde_json::Value::get` and `serde_json::Value::as_u64`. The contract
/// says only that the outcome is a function of the two arguments, and gives
/// it its name.
#[verifier::external_body]
fn u64_field(frame: &[u8], key: &str) -> (field: Option<u64>)
    ensures
        field == json_u64_field(frame@, key@),
{
    match serde_json::from_slice::<serde_json::Value>(frame) {
        Ok(document) => document.get(key).and_then(serde_json::Value::as_u64),
        Err(_) => None,
    }
}

/// Reads a boolean member of a JSON document with `serde_json::from_slice`,
/// `serde_json::Value::get` and `serde_json::Value::as_bool`. The contract
/// says only that the outcome is a function of the two arguments, and gives
/// it its name.
#[verifier::external_body]
fn bool_field(frame: &[u8], key: &str) -> (field: Option<bool>)
    ensures
        field == json_bool_field(frame@, key@),
{
    match serde_json::from_slice::<serde_json::Value>(frame) {
        Ok(document) => document.get(key).and_then(serde_json::Value::as_bool),
        Err(_) => None,
    }
}

/// The text that `bytes` read as: the text they encode where they are UTF-8,
/// and otherwise that text with U+FFFD in place of whatever is not.
pub uninterp spec fn lossy(bytes: Seq<u8>) -> Seq<char>;

/// Reads bytes as text with `String::from_utf8_lossy`. The contract says
/// only that the outcome is a function of the bytes, and gives it its name.
#[verifier::external_body]
pub(crate) fn lossy_text(bytes: &[u8]) -> (text: String)
    ensures
        text@ == lossy(bytes@),
{
    String::from_utf8_lossy(bytes).into_owned()
}

/// The command that a frame holds, if it holds one: the one that its fields
/// `type`, `driver_id` and `value` spell.
pub open spec fn command_in(frame: Seq<u8>) -> Option<Command> {
    command_of(
        json_text_field(frame, "type"@),
        json_u64_field(frame, "driver_id"@),
        json_bool_field(frame, "value"@),
    )
}

impl Command {
    /// The command that the three fields of a frame spell, if they spell one.
    pub fn from_fields(tag: Option<&str>, driver_id: Option<u64>, value: Option<bool>) -> (command:
        Option<Command>)
        ensures
            command == command_of(
                match tag {
                    Some(text) => Some(text@),
                    None => None,
                },
                driver_id,
                value,
            ),
    {
        let text = match tag {
            Some(text) => text,
            None => {
                return None;
            },
        };
        if reads(text, "Ready") {
            Some(Command::Ready)
        } else if reads(text, "Ignition") {
            Some(Command::Ignition)
        } else if reads(text, "EmergencyStop") {
            Some(Command::EmergencyStop)
        } else if reads(text, "Actuate") {
            match (driver_id, value) {
                (Some(id), Some(level)) => {
                    if id <= 255 {
                        Some(Command::Actuate { driver_id: id as u8, value: level })
                    } else {
                        None
                    }
                },
                _ => None,
            }
        } else {
            None
        }
    }

    /// The command that the frame `frame` holds: the one that its fields
    /// `type`, `driver_id` and `value` spell. A frame that spells none is
    /// handed back as malformed, byte for byte.
    pub fn decode(frame: &[u8]) -> (outcome: Result<Command, ParseError>)
        ensures
            match command_in(frame@) {
                Some(command) => outcome matches Ok(c) && c == command,
                None => outcome matches Err(ParseError::Malformed(bytes)) && bytes@ == frame@,
            },
    {
        let tag = text_field(frame, "type");
        let driver_id = u64_field(frame, "driver_id");
        let value = bool_field(frame, "value");
        let command = match &tag {
            Some(text) => Command::from_fields(Some(text.as_str()), driver_id, value),
            None => Command::from_fields(None, driver_id, value),
        };
        match command {
            Some(command) => Ok(command),
            None => {
                let mut bytes: Vec<u8> = Vec::new();
                bytes.extend_from_slice(frame);
                assert(bytes@ =~= frame@);
                Err(ParseError::Malformed(bytes))
            },
        }
    }
}

/// Where a scan of the stream stands: the bytes of the frame that is open,
/// and how its text is nested at this point.
pub struct Scan {
    /// The bytes of the open frame so far.
    pub pending: Seq<u8>,
    /// How many braces are open.
    pub depth: nat,
    /// Whether the scan is inside a string.
    pub in_string: bool,
    /// Whether the last byte was a backslash that escapes the next one.
    pub escaped: bool,
}

/// The scan between two frames.
pub open spec fn idle() -> Scan {
    Scan { pending: Seq::empty(), depth: 0, in_string: false, escaped: false }
}

/// Whether `b` is white space between frames: a space, a tab, a line feed or
/// a carriage return.
pub open spec fn is_space(b: u8) -> bool {
    b == 0x20 || b == 0x09 || b == 0x0a || b == 0x0d
}

/// One byte of the stream: where the scan stands after it, and the frame that
/// it closes, if it closes one.
///
/// White space between frames is skipped. Every other byte joins the open
/// frame. Inside a string a backslash escapes the byte that follows it, and a
/// quote that is not escaped ends the string; braces there do not count.
/// Outside a string a quote opens one, an opening brace goes one level down,
/// and a closing brace comes one level up. The closing brace that comes up to
/// the top level closes the frame, and the scan is between frames again; so
/// does a closing brace that has no opening one.
pub open spec fn scan_byte(s: Scan, b: u8) -> (Scan, Option<Seq<u8>>) {
    let pending = s.pending.push(b);
    if s.in_string {
        if s.escaped {
            (Scan { pending, escaped: false, ..s }, None)
        } else if b == 0x5c {
            (Scan { pending, escaped: true, ..s }, None)
        } else if b == 0x22 {
            (Scan { pending, in_string: false, ..s }, None)
        } else {
            (Scan { pending, ..s }, None)
        }
    } else if b == 0x22 {
        (Scan { pending, in_string: true, ..s }, None)
    } else if b == 0x7b {
        (Scan { pending, depth: s.depth + 1, ..s }, None)
    } else if b == 0x7d {
        if s.depth <= 1 {
            (idle(), Some(pending))
        } else {
            (Scan { pending, depth: (s.depth - 1) as nat, ..s }, None)
        }
    } else if is_space(b) && s.pending.len() == 0 {
        (s, None)
    } else {
        (Scan { pending, ..s }, None)
    }
}

/// A run of bytes of the stream: where the scan stands after them, and the
/// frames that they close, in order.
pub open spec fn scan(s: Scan, bytes: Seq<u8>) -> (Scan, Seq<Seq<u8>>)
    decreases bytes.len(),
{
    if bytes.len() == 0 {
        (s, Seq::empty())
    } else {
        let (before, frames) = scan(s, bytes.drop_last());
        let (after, frame) = scan_byte(before, bytes.last());
        (
            after,
            match frame {
                Some(frame) => frames.push(frame),
                None => frames,
            },
        )
    }
}

/// The bytes of each frame of a list.
pub open spec fn frames_of(frames: Seq<Vec<u8>>) -> Seq<Seq<u8>> {
    Seq::new(frames.len(), |i: int| frames[i]@)
}

/// It makes no difference where the stream is cut into reads: scanning a run
/// of bytes and then another gives the frames, and leaves the scan, that
/// scanning both as one run gives.
pub proof fn scan_in_pieces(s: Scan, first: Seq<u8>, second: Seq<u8>)
    ensures
        scan(s, first + second) == (
            scan(scan(s, first).0, second).0,
            scan(s, first).1 + scan(scan(s, first).0, second).1,
        ),
    decreases second.len(),
{
    if second.len() == 0 {
        assert(first + second =~= first);
        assert(scan(s, first).1 + Seq::<Seq<u8>>::empty() =~= scan(s, first).1);
    } else {
        let all = first + second;
        assert(all.drop_last() =~= first + second.drop_last());
        assert(all.last() == second.last());
        scan_in_pieces(s, first, second.drop_last());
        let middle = scan(s, first).0;
        let head = scan(s, first).1;
        let (before, frames) = scan(middle, second.drop_last());
        let (after, frame) = scan_byte(before, second.last());
        match frame {
            Some(frame) => {
                assert((head + frames).push(frame) =~= head + frames.push(frame));
            },
            None => {},
        }
    }
}

/// Splits the byte stream of the dashboard into frames, one top-level JSON
/// object at a time, whatever the reads that deliver the stream look like.
pub struct FrameScanner {
    pending: Vec<u8>,
    depth: usize,
    in_string: bool,
    escaped: bool,
}

impl FrameScanner {
    /// Whether the scanner counts no more open braces than it holds bytes:
    /// true of every scanner that `new` made, whatever it was fed since.
    pub closed spec fn sound(&self) -> bool {
        self.depth <= self.pending@.len()
    }

    /// Where the scan stands.
    pub closed spec fn view(&self) -> Scan {
        Scan {
            pending: self.pending@,
            depth: self.depth as nat,
            in_string: self.in_string,
            escaped: self.escaped,
        }
    }

    /// A scanner at the start of a stream.
    pub fn new() -> (scanner: FrameScanner)
        ensures
            scanner.sound(),
            scanner@ == idle(),
    {
        FrameScanner { pending: Vec::new(), depth: 0, in_string: false, escaped: false }
    }

    /// Takes the next byte of the stream and returns the frame that it
    /// closes, if it closes one.
    pub fn push(&mut self, byte: u8) -> (frame: Option<Vec<u8>>)
        requires
            old(self).sound(),
        ensures
            final(self).sound(),
            final(self)@ == scan_byte(old(self)@, byte).0,
            match frame {
                Some(bytes) => scan_byte(old(self)@, byte).1 == Some(bytes@),
                None => scan_byte(old(self)@, byte).1 is None,
            },
    {
        if !self.in_string && (byte == 0x20 || byte == 0x09 || byte == 0x0a || byte == 0x0d)
            && self.pending.len() == 0 {
            return None;
        }
        self.pending.push(byte);
        let held = self.pending.len();
        assert(self.depth < held);
        if self.in_string {
            if self.escaped {
                self.escaped = false;
            } else if byte == 0x5c {
                self.escaped = true;
            } else if byte == 0x22 {
                self.in_string = false;
            }
            None
        } else if byte == 0x22 {
            self.in_string = true;
            None
        } else if byte == 0x7b {
            self.depth = self.depth + 1;
            None
        } else if byte == 0x7d {
            if self.depth <= 1 {
                self.depth = 0;
                self.escaped = false;
                let mut frame: Vec<u8> = Vec::new();
                std::mem::swap(&mut self.pending, &mut frame);
                assert(self@.pending =~= idle().pending);
                Some(frame)
            } else {
                self.depth = self.depth - 1;
                None
            }
        } else {
            None
        }
    }

    /// Takes the next bytes of the stream and returns the frames that they
    /// close, in order.
    pub fn feed(&mut self, bytes: &[u8]) -> (frames: Vec<Vec<u8>>)
        requires
            old(self).sound(),
        ensures
            final(self).sound(),
            final(self)@ == scan(old(self)@, bytes@).0,
            frames_of(frames@) == scan(old(self)@, bytes@).1,
    {
        let mut frames: Vec<Vec<u8>> = Vec::new();
        let mut i: usize = 0;
        assert(frames_of(frames@) =~= Seq::<Seq<u8>>::empty());
        while i < bytes.len()
            invariant
                i <= bytes.len(),
                self.sound(),
                self@ == scan(old(self)@, bytes@.take(i as int)).0,
                frames_of(frames@) == scan(old(self)@, bytes@.take(i as int)).1,
            decreases bytes.len() - i,
        {
            let ghost before = frames_of(frames@);
            let frame = self.push(bytes[i]);
            proof {
                assert(bytes@.take(i as int + 1).drop_last() =~= bytes@.take(i as int));
            }
            match frame {
                Some(frame) => {
                    frames.push(frame);
                    assert(frames_of(frames@) =~= before.push(frame@));
                },
                None => {},
            }
            i += 1;
        }
        proof {
            assert(bytes@.take(i as int) =~= bytes@);
        }
        frames
    }

    /// What the end of the stream means here: between two frames the source
    /// has closed; inside a frame the bytes read so far are a malformed
    /// frame.
    pub fn finish(self) -> (end: ParseError)
        ensures
            self@.pending.len() == 0 ==> end is SourceClosed,
            self@.pending.len() > 0 ==> (end matches ParseError::Malformed(bytes) && bytes@
                == self@.pending),
    {
        if self.pending.len() == 0 {
            ParseError::SourceClosed
        } else {
            ParseError::Malformed(self.pending)
        }
    }
}

} // verus!
