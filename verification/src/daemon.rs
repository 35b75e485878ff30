//! The daemon's decisions: which socket it may take, what a client's line asks
//! for, and what each event of the compositor is followed by.
use vstd::prelude::*;
use vstd::string::*;
use crate::business::operation::{Operation, OperationModel};
use crate::config::FactsModel;
use crate::error::{failure, outcome, Error};
use crate::niri::events::{EventModel, NiriEvent};
use crate::protocol::{Response, ResponseModel};
use crate::text;

verus! {

/// What to do when another daemon already owns the socket.
#[derive(Debug, Clone, Copy, PartialEq, Eq, Structural)]
pub enum Takeover {
    /// Refuse to start, so an accidental second instance cannot hijack the
    /// socket of a running daemon.
    Refuse,
    /// Take the socket over (`nsticky --replace`).
    Replace,
}

/// Maximum size of a CLI request, so a client cannot make the daemon allocate
/// without bound.
pub const MAX_REQUEST_BYTES: usize = 65536;

/// Upper bound on how much of an oversized request is read and discarded before
/// the connection is dropped.
pub const MAX_DISCARDED_BYTES: usize = 1048576;

/// Why a socket on which a daemon answers is left alone.
pub open spec fn occupied_message(path: Seq<char>) -> Seq<char> {
    "Another nsticky daemon is already running on "@ + text::quoted_path_text(path)
        + ". Restart that one, or use `nsticky --replace` to take the socket over."@
}

/// Whether the socket may be bound. A socket that accepts connections means that
/// a daemon is already running, which is hijacked only on purpose.
pub fn claim_socket(path: &str, answers: bool, takeover: Takeover) -> (r: Result<(), Error>)
    ensures
        outcome(r) == (if answers && takeover == Takeover::Refuse {
            Err(failure(occupied_message(path@)))
        } else {
            Ok(())
        }),
{
    if !answers {
        return Ok(());
    }
    match takeover {
        Takeover::Replace => Ok(()),
        Takeover::Refuse => {
            let mut message = "Another nsticky daemon is already running on ".to_owned();
            message.append(text::quoted_path(path).as_str());
            message.append(
                ". Restart that one, or use `nsticky --replace` to take the socket over.",
            );
            Err(Error::new(message.as_str()))
        },
    }
}

// Lines of a client.

/// Whether there is a line break among the bytes.
pub open spec fn has_break(bytes: Seq<u8>) -> bool {
    bytes.contains(10u8)
}

/// The bytes up to the first line break and with it; all of them where there is
/// none.
pub open spec fn line_part(bytes: Seq<u8>) -> Seq<u8>
    decreases bytes.len(),
{
    if bytes.len() == 0 {
        bytes
    } else if bytes[0] == 10 {
        seq![10u8]
    } else {
        seq![bytes[0]] + line_part(bytes.drop_first())
    }
}

/// The smaller of two numbers.
pub open spec fn least(a: int, b: int) -> int {
    if a <= b {
        a
    } else {
        b
    }
}

/// One line of a client while it is read: at most so many bytes are kept, the
/// rest is discarded up to a hard limit.
///
/// Discarding (rather than stopping at the limit) keeps the socket in a state
/// where the error reply can still be delivered.
#[derive(Debug)]
pub struct BoundedLine {
    kept: Vec<u8>,
    discarded: usize,
    ended: bool,
}

/// [`BoundedLine`] as a mathematical value.
#[verifier::ext_equal]
pub struct LineModel {
    pub kept: Seq<u8>,
    pub discarded: int,
    pub ended: bool,
}

impl DeepView for BoundedLine {
    type V = LineModel;

    closed spec fn deep_view(&self) -> LineModel {
        LineModel { kept: self.kept@, discarded: self.discarded as int, ended: self.ended }
    }
}

/// The state of a line of which these bytes were read: a prefix is kept, the
/// others are counted as far as the limit, and the line is over at a line break
/// or when too much was discarded.
pub open spec fn line_of(read: Seq<u8>, max: int) -> LineModel {
    let kept = least(read.len() as int, max);
    LineModel {
        kept: read.take(kept),
        discarded: least(read.len() - kept, MAX_DISCARDED_BYTES + 1),
        ended: has_break(read) || read.len() - kept > MAX_DISCARDED_BYTES,
    }
}

proof fn line_part_facts(bytes: Seq<u8>)
    ensures
        line_part(bytes).len() <= bytes.len(),
        line_part(bytes) == bytes.take(line_part(bytes).len() as int),
        has_break(bytes) <==> has_break(line_part(bytes)),
        !has_break(bytes) ==> line_part(bytes) == bytes,
        forall|i: int| 0 <= i < line_part(bytes).len() - 1 ==> line_part(bytes)[i] != 10,
    decreases bytes.len(),
{
    let part = line_part(bytes);
    if bytes.len() == 0 {
        assert(part =~= bytes.take(0));
    } else if bytes[0] == 10 {
        assert(part =~= bytes.take(1));
        assert(part[0] == 10);
    } else {
        let rest = bytes.drop_first();
        line_part_facts(rest);
        assert(part =~= bytes.take(part.len() as int)) by {
            assert forall|i: int| 0 <= i < part.len() implies part[i] == bytes[i] by {
                if i > 0 {
                    assert(line_part(rest)[i - 1] == rest.take(line_part(rest).len() as int)[i
                        - 1]);
                }
            }
        }
        if has_break(rest) {
            let i = choose|i: int| 0 <= i < rest.len() && rest[i] == 10;
            assert(bytes[i + 1] == 10);
            let k = choose|k: int| 0 <= k < line_part(rest).len() && line_part(rest)[k] == 10;
            assert(part[k + 1] == 10);
        }
        if has_break(bytes) {
            let i = choose|i: int| 0 <= i < bytes.len() && bytes[i] == 10;
            assert(rest[i - 1] == 10);
        }
        if has_break(part) {
            let k = choose|k: int| 0 <= k < part.len() && part[k] == 10;
            assert(line_part(rest)[k - 1] == 10);
        }
        if !has_break(bytes) {
            assert(part =~= bytes);
        }
    }
}

/// The number of bytes up to the first line break and with it.
fn break_position(chunk: &[u8]) -> (r: (usize, bool))
    ensures
        r.0 == line_part(chunk@).len(),
        r.1 == has_break(chunk@),
{
    let mut i: usize = 0;
    proof {
        line_part_facts(chunk@);
        assert(chunk@.skip(0) =~= chunk@);
    }
    while i < chunk.len()
        invariant
            i <= chunk@.len(),
            line_part(chunk@).len() == i + line_part(chunk@.skip(i as int)).len(),
            forall|j: int| 0 <= j < i ==> chunk@[j] != 10,
        decreases chunk.len() - i,
    {
        assert(chunk@.skip(i as int).drop_first() =~= chunk@.skip(i + 1));
        if chunk[i] == 10u8 {
            assert(chunk@[i as int] == 10);
            return (i + 1, true);
        }
        i = i + 1;
    }
    (i, false)
}

impl BoundedLine {
    /// A line of which nothing was read yet: nothing is kept or discarded, and it
    /// is not over.
    pub fn new() -> (r: Self)
        ensures
            r.deep_view() == (LineModel { kept: Seq::empty(), discarded: 0, ended: false }),
            forall|max: int| max >= 0 ==> r.deep_view() == #[trigger] line_of(Seq::empty(), max),
    {
        let r = BoundedLine { kept: Vec::new(), discarded: 0, ended: false };
        assert(r.kept@ =~= Seq::empty());
        assert forall|max: int| max >= 0 implies r.deep_view() == #[trigger] line_of(
            Seq::empty(),
            max,
        ) by {
            assert(Seq::<u8>::empty().take(0) =~= Seq::empty());
            assert(!has_break(Seq::empty()));
        }
        r
    }

    /// Take what belongs to the line from the next bytes of the stream, and say
    /// how many bytes that were.
    pub fn feed(&mut self, chunk: &[u8], max: usize) -> (r: usize)
        requires
            !old(self).deep_view().ended,
        ensures
            r == line_part(chunk@).len(),
            forall|read: Seq<u8>|
                old(self).deep_view() == #[trigger] line_of(read, max as int)
                    ==> final(self).deep_view() == line_of(read + line_part(chunk@), max as int),
    {
        let ghost before = self.deep_view();
        let (available, over) = break_position(chunk);
        proof {
            line_part_facts(chunk@);
        }
        let room: usize = if self.kept.len() < max {
            max - self.kept.len()
        } else {
            0
        };
        let keep: usize = if available <= room {
            available
        } else {
            room
        };
        let mut i: usize = 0;
        let ghost start = self.kept@;
        while i < keep
            invariant
                i <= keep <= chunk@.len(),
                self.kept@ == start + chunk@.take(i as int),
                self.discarded == before.discarded,
                self.ended == before.ended,
            decreases keep - i,
        {
            self.kept.push(chunk[i]);
            assert(start + chunk@.take(i + 1) =~= (start + chunk@.take(i as int)).push(
                chunk@[i as int],
            ));
            i = i + 1;
        }
        let lost: usize = available - keep;
        if self.discarded <= MAX_DISCARDED_BYTES {
            if lost <= MAX_DISCARDED_BYTES - self.discarded {
                self.discarded = self.discarded + lost;
            } else {
                self.discarded = MAX_DISCARDED_BYTES + 1;
            }
        }
        if over || self.discarded > MAX_DISCARDED_BYTES {
            self.ended = true;
        }
        proof {
            let part = line_part(chunk@);
            assert forall|read: Seq<u8>|
                before == #[trigger] line_of(read, max as int) implies self.deep_view()
                == line_of(read + part, max as int) by {
                let all = read + part;
                let kept = least(all.len() as int, max as int);
                assert(self.kept@ =~= all.take(kept));
                if has_break(all) {
                    let i = choose|i: int| 0 <= i < all.len() && all[i] == 10;
                    if i < read.len() {
                        assert(read[i] == 10);
                    } else {
                        assert(part[i - read.len()] == 10);
                    }
                }
                if has_break(part) {
                    let i = choose|i: int| 0 <= i < part.len() && part[i] == 10;
                    assert(all[read.len() + i] == 10);
                }
            }
        }
        available
    }

    /// Whether nothing more belongs to the line.
    pub fn is_over(&self) -> (r: bool)
        ensures
            r == self.deep_view().ended,
    {
        self.ended
    }

    /// What was kept, without the white space around it.
    pub fn text(&self) -> (r: String)
        ensures
            r@ == text::trimmed(text::lossy_text(self.deep_view().kept)),
    {
        text::trim(text::decode(&self.kept).as_str()).to_owned()
    }

    /// Whether something was discarded.
    pub fn is_truncated(&self) -> (r: bool)
        ensures
            r == (self.deep_view().discarded > 0),
    {
        self.discarded > 0
    }

    /// Whether so much was discarded that the connection is to be dropped.
    pub fn is_exhausted(&self) -> (r: bool)
        ensures
            r == (self.deep_view().discarded > MAX_DISCARDED_BYTES),
    {
        self.discarded > MAX_DISCARDED_BYTES
    }
}

/// What a client's line asks for.
#[derive(Debug, PartialEq, Eq)]
pub enum Incoming {
    /// The client is done.
    Close,
    /// Nothing that can be carried out: this is the answer.
    Refuse(Response),
    /// A request, still to be read.
    Request(String),
}

/// [`Incoming`] as a mathematical value.
pub enum IncomingModel {
    Close,
    Refuse(ResponseModel),
    Request(Seq<char>),
}

impl DeepView for Incoming {
    type V = IncomingModel;

    open spec fn deep_view(&self) -> IncomingModel {
        match *self {
            Incoming::Close => IncomingModel::Close,
            Incoming::Refuse(response) => IncomingModel::Refuse(response.deep_view()),
            Incoming::Request(line) => IncomingModel::Request(line@),
        }
    }
}

/// The answer to a request that is too large.
pub open spec fn too_large() -> ResponseModel {
    ResponseModel::Error {
        message: "Request too large: at most "@ + text::decimal(MAX_REQUEST_BYTES as nat)
            + " bytes are accepted"@,
    }
}

/// What a line asks for. An oversized request is answered with an error instead
/// of being buffered without limit.
pub open spec fn incoming_of(line: LineModel) -> IncomingModel {
    let text = text::trimmed(text::lossy_text(line.kept));
    if line.discarded > 0 {
        IncomingModel::Refuse(too_large())
    } else if text.len() == 0 {
        IncomingModel::Close
    } else {
        IncomingModel::Request(text)
    }
}

/// A request of more than the maximum size is refused, whatever it holds, and no
/// more than that size is ever kept of it; any other is read as it was sent.
pub proof fn oversized_requests_are_refused(read: Seq<u8>)
    ensures
        line_of(read, MAX_REQUEST_BYTES as int).kept.len() <= MAX_REQUEST_BYTES,
        read.len() > MAX_REQUEST_BYTES ==> incoming_of(line_of(read, MAX_REQUEST_BYTES as int))
            == IncomingModel::Refuse(too_large()),
        read.len() <= MAX_REQUEST_BYTES ==> incoming_of(line_of(read, MAX_REQUEST_BYTES as int))
            == (if text::trimmed(text::lossy_text(read)).len() == 0 {
            IncomingModel::Close
        } else {
            IncomingModel::Request(text::trimmed(text::lossy_text(read)))
        }),
{
    if read.len() <= MAX_REQUEST_BYTES {
        assert(read.take(read.len() as int) =~= read);
    }
}

/// What a line asks for.
pub fn incoming(line: &BoundedLine) -> (r: Incoming)
    ensures
        r.deep_view() == incoming_of(line.deep_view()),
{
    if line.is_truncated() {
        let mut message = "Request too large: at most ".to_owned();
        message.append(text::number(MAX_REQUEST_BYTES as u64).as_str());
        message.append(" bytes are accepted");
        return Incoming::Refuse(Response::Error { message });
    }
    let text = line.text();
    if text.as_str().is_empty() {
        Incoming::Close
    } else {
        Incoming::Request(text)
    }
}

/// The answer to a line that is not a request.
pub fn unreadable_request(cause: &str) -> (r: Response)
    ensures
        r.deep_view() == (ResponseModel::Error { message: "Failed to parse request: "@ + cause@ }),
{
    let mut message = "Failed to parse request: ".to_owned();
    message.append(cause);
    Response::Error { message }
}

// Events.

/// What an event is followed by. A workspace can become active on its output
/// without taking focus (for example when a window is moved to it), and moving
/// sticky windows then would drag them away for no reason.
pub open spec fn operation_of(event: EventModel) -> Option<OperationModel> {
    match event {
        EventModel::WorkspaceActivated { id, focused } => if focused {
            Some(OperationModel::WorkspaceActivated { id })
        } else {
            None
        },
        EventModel::WindowOpenedOrChanged { id, app_id, title, floating } => Some(
            OperationModel::WindowOpenedOrChanged {
                id,
                facts: FactsModel { app_id, title, floating },
            },
        ),
        EventModel::WorkspacesChanged => Some(OperationModel::ParkingOrder),
        EventModel::ConfigLoaded { .. } => Some(OperationModel::Reload),
        EventModel::WindowClosed { id } => Some(OperationModel::WindowClosed { id }),
    }
}

/// What an event is followed by.
pub fn operation_for(event: NiriEvent) -> (r: Option<Operation>)
    ensures
        r.deep_view() == operation_of(event.deep_view()),
{
    match event {
        NiriEvent::WorkspaceActivated { id, focused } => {
            if focused {
                Some(Operation::WorkspaceActivated { id })
            } else {
                None
            }
        },
        NiriEvent::WindowOpenedOrChanged { id, app_id, title, floating } => Some(
            Operation::WindowOpenedOrChanged { id, app_id, title, floating },
        ),
        // Workspaces come and go (a window on the empty tail creates one): keep
        // the parking areas where they belong, at the end.
        NiriEvent::WorkspacesChanged => Some(Operation::ParkingOrder),
        // niri reloads its config on demand; do the same, so both configs move
        // together.
        NiriEvent::ConfigLoaded { .. } => Some(Operation::Reload),
        NiriEvent::WindowClosed { id } => Some(Operation::WindowClosed { id }),
    }
}

// What the program was started as.

/// What the first argument asks for.
#[derive(Debug, Clone, Copy, PartialEq, Eq, Structural)]
pub enum Invocation {
    /// Start the daemon, taking the socket over if asked to.
    Daemon(Takeover),
    /// A subcommand: the CLI talks to the daemon instead.
    Cli,
}

/// What the first argument asks for. Only that one decides: everything after it
/// belongs to the CLI, which reads its own options.
pub fn parse_invocation(first: Option<&str>) -> (r: Invocation)
    ensures
        r == (match first {
            None => Invocation::Daemon(Takeover::Refuse),
            Some(argument) => if argument@ == "--replace"@ {
                Invocation::Daemon(Takeover::Replace)
            } else {
                Invocation::Cli
            },
        }),
{
    match first {
        None => Invocation::Daemon(Takeover::Refuse),
        Some(argument) => {
            if text::same(argument, "--replace") {
                Invocation::Daemon(Takeover::Replace)
            } else {
                Invocation::Cli
            }
        },
    }
}

} // verus!
