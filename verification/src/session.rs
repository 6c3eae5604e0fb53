//! One dashboard connection, from the moment it is accepted to the moment it
//! ends: what is sent first, and what each read of the stream leads to.

use vstd::prelude::*;
use crate::config::Configuration;
use crate::incoming::{
    command_in, frames_of, idle, lossy, lossy_text, scan, Command, FrameScanner, ParseError, Scan,
};
use crate::outgoing::{ErrorCause, Message, MessageKind};

verus! {

/// What the owner of a connection is to do next.
#[derive(Debug, PartialEq, Eq)]
pub enum Directive {
    /// Hand the command to the executor. `original_message` is the frame as
    /// it was received, for a reply that hands it back.
    Execute { command: Command, original_message: String },
    /// Tell the dashboard that the frame was malformed, and go on.
    Reject { original_message: String },
    /// The dashboard has gone: end the session and wait for the next one.
    Close,
    /// Reading failed: end the session with an I/O error of this description.
    Abort { description: String },
}

/// What a `Directive` says, with its texts as sequences.
pub enum DirectiveView {
    Execute { command: Command, original_message: Seq<char> },
    Reject { original_message: Seq<char> },
    Close,
    Abort { description: Seq<char> },
}

impl Directive {
    /// What this value says.
    pub open spec fn view(&self) -> DirectiveView {
        match self {
            Directive::Execute { command, original_message } => DirectiveView::Execute {
                command: *command,
                original_message: original_message@,
            },
            Directive::Reject { original_message } => DirectiveView::Reject {
                original_message: original_message@,
            },
            Directive::Close => DirectiveView::Close,
            Directive::Abort { description } => DirectiveView::Abort { description: description@ },
        }
    }
}

/// What a frame leads to: the command it holds is executed; a frame that
/// holds none is rejected. Either way the text of the frame goes along.
pub open spec fn directive_for(frame: Seq<u8>) -> DirectiveView {
    match command_in(frame) {
        Some(command) => DirectiveView::Execute { command, original_message: lossy(frame) },
        None => DirectiveView::Reject { original_message: lossy(frame) },
    }
}

/// What each frame of a list leads to.
pub open spec fn directives_for(frames: Seq<Seq<u8>>) -> Seq<DirectiveView> {
    Seq::new(frames.len(), |i: int| directive_for(frames[i]))
}

/// What each directive of a list says.
pub open spec fn directives_of(directives: Seq<Directive>) -> Seq<DirectiveView> {
    Seq::new(directives.len(), |i: int| directives[i]@)
}

/// What the end of the stream leads to where the scan stands at `s`: between
/// two frames the session closes; inside a frame the bytes read so far are
/// rejected first.
pub open spec fn directives_at_end(s: Scan) -> Seq<DirectiveView> {
    if s.pending.len() == 0 {
        seq![DirectiveView::Close]
    } else {
        seq![DirectiveView::Reject { original_message: lossy(s.pending) }, DirectiveView::Close]
    }
}

/// The first message of every session: the whole configuration.
pub fn greeting<'a>(config: &'a Configuration) -> (message: Message<'a>)
    ensures
        message == (Message::Config { config }),
        message.kind() == MessageKind::Config,
{
    Message::Config { config }
}

/// The message that tells the dashboard that a frame held no command, and
/// hands the frame back.
pub fn rejection<'a>(original_message: &'a str) -> (message: Message<'a>)
    ensures
        message == (Message::Error {
            cause: ErrorCause::Malformed { original_message },
            diagnostic: "malformed command",
        }),
{
    Message::Error { cause: ErrorCause::Malformed { original_message }, diagnostic: "malformed command" }
}

/// What a missing command leads to, by the reason for which it is missing: a
/// closed source closes the session, a malformed frame is rejected and the
/// session goes on, a failed read aborts the session.
pub open spec fn directive_after(error: ParseError) -> DirectiveView {
    match error {
        ParseError::SourceClosed => DirectiveView::Close,
        ParseError::Malformed(bytes) => DirectiveView::Reject { original_message: lossy(bytes@) },
        ParseError::Io(description) => DirectiveView::Abort { description: description@ },
    }
}

/// What a missing command leads to.
pub fn after_error(error: ParseError) -> (directive: Directive)
    ensures
        directive@ == directive_after(error),
{
    match error {
        ParseError::SourceClosed => Directive::Close,
        ParseError::Malformed(bytes) => Directive::Reject {
            original_message: lossy_text(bytes.as_slice()),
        },
        ParseError::Io(description) => Directive::Abort { description },
    }
}

/// What one frame leads to.
pub fn directive(frame: &[u8]) -> (directive: Directive)
    ensures
        directive@ == directive_for(frame@),
{
    match Command::decode(frame) {
        Ok(command) => Directive::Execute { command, original_message: lossy_text(frame) },
        Err(error) => after_error(error),
    }
}

/// One dashboard connection.
pub struct Session {
    scanner: FrameScanner,
}

impl Session {
    /// Where the scan of the stream stands.
    pub closed spec fn scan(&self) -> Scan {
        self.scanner@
    }

    /// Whether the session is one that `new` made, whatever it has received
    /// since.
    pub closed spec fn sound(&self) -> bool {
        self.scanner.sound()
    }

    /// The session of a dashboard that has just been accepted.
    pub fn new() -> (session: Session)
        ensures
            session.sound(),
            session.scan() == idle(),
    {
        Session { scanner: FrameScanner::new() }
    }

    /// Takes what a read of the stream delivered and says what it leads to:
    /// one directive for each frame that these bytes close, in order.
    pub fn receive(&mut self, bytes: &[u8]) -> (directives: Vec<Directive>)
        requires
            old(self).sound(),
        ensures
            final(self).sound(),
            final(self).scan() == scan(old(self).scan(), bytes@).0,
            directives_of(directives@) == directives_for(scan(old(self).scan(), bytes@).1),
    {
        let frames = self.scanner.feed(bytes);
        let mut directives: Vec<Directive> = Vec::new();
        let mut i: usize = 0;
        while i < frames.len()
            invariant
                i <= frames.len(),
                directives@.len() == i,
                forall|k: int| 0 <= k < i ==> (#[trigger] directives@[k])@ == directive_for(frames@[k]@),
            decreases frames.len() - i,
        {
            let next = directive(frames[i].as_slice());
            directives.push(next);
            i += 1;
        }
        proof {
            let closed = scan(old(self).scan(), bytes@).1;
            assert(frames_of(frames@) == closed);
            assert forall|k: int| 0 <= k < closed.len() implies directives_of(directives@)[k]
                == directives_for(closed)[k] by {
                assert(frames_of(frames@)[k] == frames@[k]@);
            }
            assert(directives_of(directives@) =~= directives_for(closed));
        }
        directives
    }

    /// Takes the end of the stream and says what it leads to.
    pub fn end(self) -> (directives: Vec<Directive>)
        ensures
            directives_of(directives@) == directives_at_end(self.scan()),
    {
        let mut directives: Vec<Directive> = Vec::new();
        let error = self.scanner.finish();
        let inside = match &error {
            ParseError::Malformed(_) => true,
            _ => false,
        };
        directives.push(after_error(error));
        if inside {
            directives.push(Directive::Close);
        }
        assert(directives_of(directives@) =~= directives_at_end(self.scan()));
        directives
    }

    /// Takes a failure to read the stream and says what it leads to: the
    /// session is over, with an I/O error that carries the description.
    pub fn fail(self, description: String) -> (directive: Directive)
        ensures
            directive@ == (DirectiveView::Abort { description: description@ }),
    {
        after_error(ParseError::Io(description))
    }
}

} // verus!
