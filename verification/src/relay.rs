//! One direction of a connection: what to do next with the two sockets.
//!
//! A relay names an action. Whoever owns the sockets performs it and reports what came of
//! it as an event, and the relay then names the next action.
use crate::config::{Args, Rules};
use crate::connection::{Connection, ConnectionView, Verdict};
use crate::context::{in_context, Errorize};
use crate::proto::{
    header_word1, header_word2, Packet, PacketReader, PacketView, Progress, ProgressView, ReadError,
};
use vstd::prelude::*;
use vstd::slice::slice_to_vec;
use vstd::string::*;

verus! {

/// Who sends the messages.
#[derive(Clone, Copy, Debug, PartialEq, Eq, Structural)]
pub enum Direction {
    ClientToServer,
    ServerToClient,
}

/// The pieces in which a message is written.
#[derive(Clone, Copy, Debug, PartialEq, Eq, Structural)]
pub enum Part {
    Word1,
    Word2,
    Body,
}

impl Part {
    /// The piece of a message.
    pub open spec fn of(self, packet: PacketView) -> Seq<u8> {
        match self {
            Part::Word1 => packet.word1(),
            Part::Word2 => packet.word2(),
            Part::Body => packet.body,
        }
    }

    /// How the piece is called where writing it fails.
    pub open spec fn name(self) -> Seq<char> {
        match self {
            Part::Word1 => "header word 1"@,
            Part::Word2 => "header word 2"@,
            Part::Body => "body"@,
        }
    }

    fn bytes(&self, packet: &Packet) -> (r: Vec<u8>)
        ensures
            r@ == self.of(packet@),
    {
        match *self {
            Part::Word1 => header_word1(packet),
            Part::Word2 => header_word2(packet),
            Part::Body => slice_to_vec(packet.body.as_slice()),
        }
    }

    fn label(&self) -> (r: &'static str)
        ensures
            r@ == self.name(),
    {
        match *self {
            Part::Word1 => "header word 1",
            Part::Word2 => "header word 2",
            Part::Body => "body",
        }
    }
}

/// What is to be done with the sockets.
pub enum Action {
    /// Read exactly so many bytes, and take the file descriptors that come with them.
    Read(usize),
    /// Write the bytes, and send the file descriptors with the first of them.
    Write { bytes: Vec<u8>, fds: Vec<i32> },
    /// Close the file descriptors.
    Close(Vec<i32>),
    /// Stop.
    Finish(Result<(), String>),
}

/// What is to be done with the sockets.
pub enum ActionView {
    Read(nat),
    Write { bytes: Seq<u8>, fds: Seq<i32> },
    Close(Seq<i32>),
    Finish(Result<(), Seq<char>>),
}

/// How a relay or a server stops.
pub open spec fn stop_of(r: Result<(), String>) -> Result<(), Seq<char>> {
    match r {
        Ok(()) => Ok(()),
        Err(s) => Err(s@),
    }
}

impl View for Action {
    type V = ActionView;

    open spec fn view(&self) -> ActionView {
        match *self {
            Action::Read(n) => ActionView::Read(n as nat),
            Action::Write { bytes, fds } => ActionView::Write { bytes: bytes@, fds: fds@ },
            Action::Close(fds) => ActionView::Close(fds@),
            Action::Finish(r) => ActionView::Finish(stop_of(r)),
        }
    }
}

/// What came of an action.
pub enum Event {
    /// The bytes were read.
    Read { bytes: Vec<u8>, fds: Vec<i32> },
    /// Reading them failed; some file descriptors may have come before.
    ReadFailed { error: ReadError, fds: Vec<i32> },
    /// The bytes were written.
    Written,
    /// Writing them failed.
    WriteFailed,
    /// The file descriptors were closed.
    Closed,
}

/// What came of an action.
pub enum EventView {
    Read { bytes: Seq<u8>, fds: Seq<i32> },
    ReadFailed { error: ReadError, fds: Seq<i32> },
    Written,
    WriteFailed,
    Closed,
}

impl View for Event {
    type V = EventView;

    open spec fn view(&self) -> EventView {
        match *self {
            Event::Read { bytes, fds } => EventView::Read { bytes: bytes@, fds: fds@ },
            Event::ReadFailed { error, fds } => EventView::ReadFailed { error, fds: fds@ },
            Event::Written => EventView::Written,
            Event::WriteFailed => EventView::WriteFailed,
            Event::Closed => EventView::Closed,
        }
    }
}

/// What a relay is at.
pub enum Phase {
    Reading(PacketReader),
    Sending { packet: Packet, part: Part },
    Closing,
    Finished(Result<(), String>),
}

/// What a relay is at.
pub enum PhaseView {
    Reading(PacketReader),
    Sending { packet: PacketView, part: Part },
    Closing,
    Finished(Result<(), Seq<char>>),
}

impl View for Phase {
    type V = PhaseView;

    open spec fn view(&self) -> PhaseView {
        match *self {
            Phase::Reading(reader) => PhaseView::Reading(reader),
            Phase::Sending { packet, part } => PhaseView::Sending { packet: packet@, part },
            Phase::Closing => PhaseView::Closing,
            Phase::Finished(r) => PhaseView::Finished(stop_of(r)),
        }
    }
}

/// One direction of a connection.
pub struct Relay {
    direction: Direction,
    phase: Phase,
    fds: Vec<i32>,
}

/// One direction of a connection: what it is at, and the file descriptors that it holds.
#[verifier::ext_equal]
pub struct RelayView {
    pub direction: Direction,
    pub phase: PhaseView,
    pub fds: Seq<i32>,
}

impl View for Relay {
    type V = RelayView;

    closed spec fn view(&self) -> RelayView {
        RelayView { direction: self.direction, phase: self.phase@, fds: self.fds@ }
    }
}

impl Direction {
    /// What becomes of a message: the connection after it, and the message to pass on, if
    /// any, or the error that ends the connection.
    pub open spec fn decide(self, c: ConnectionView, packet: PacketView, rules: Rules) -> (
        ConnectionView,
        Result<Option<PacketView>, Seq<char>>,
    ) {
        match self {
            Direction::ClientToServer => c.from_client(packet, rules),
            Direction::ServerToClient => match c.from_server(packet, rules) {
                (after, Ok(true)) => (after, Ok(Some(packet))),
                (after, Ok(false)) => (after, Ok(None)),
                (after, Err(e)) => (after, Err(e)),
            },
        }
    }
}

/// What a relay is at once a message was decided on.
pub open spec fn decided(decision: Result<Option<PacketView>, Seq<char>>) -> PhaseView {
    match decision {
        Ok(Some(packet)) => PhaseView::Sending { packet, part: Part::Word1 },
        Ok(None) => PhaseView::Closing,
        Err(e) => PhaseView::Finished(Err(e)),
    }
}

impl RelayView {
    /// A relay that waits for its first message.
    pub open spec fn fresh(direction: Direction) -> RelayView {
        RelayView {
            direction,
            phase: PhaseView::Reading(PacketReader::Word1),
            fds: Seq::empty(),
        }
    }

    /// What is to be done next. The file descriptors that came with a message go out with
    /// its first piece.
    pub open spec fn action(self) -> ActionView {
        match self.phase {
            PhaseView::Reading(reader) => ActionView::Read(reader.wants()),
            PhaseView::Sending { packet, part } => ActionView::Write {
                bytes: part.of(packet),
                fds: if part is Word1 {
                    self.fds
                } else {
                    Seq::empty()
                },
            },
            PhaseView::Closing => ActionView::Close(self.fds),
            PhaseView::Finished(r) => ActionView::Finish(r),
        }
    }

    /// Whether the relay waits for a message of which nothing was read yet.
    pub open spec fn idle(self) -> bool {
        self.phase == PhaseView::Reading(PacketReader::Word1)
    }

    /// Whether the event is one that the action can bring.
    pub open spec fn expects(self, event: EventView) -> bool {
        match (self.phase, event) {
            (PhaseView::Reading(reader), EventView::Read { bytes, .. }) => bytes.len()
                == reader.wants(),
            (PhaseView::Reading(_), EventView::ReadFailed { .. }) => true,
            (PhaseView::Sending { .. }, EventView::Written) => true,
            (PhaseView::Sending { .. }, EventView::WriteFailed) => true,
            (PhaseView::Closing, EventView::Closed) => true,
            _ => false,
        }
    }

    /// The relay and the connection after a read.
    pub open spec fn after_read(
        self,
        c: ConnectionView,
        rules: Rules,
        progress: ProgressView,
    ) -> (RelayView, ConnectionView) {
        match progress {
            ProgressView::Reading(reader) => (
                RelayView { phase: PhaseView::Reading(reader), ..self },
                c,
            ),
            ProgressView::Complete(packet) => {
                let (after, decision) = self.direction.decide(c, packet, rules);
                (RelayView { phase: decided(decision), ..self }, after)
            },
            ProgressView::Closed => (RelayView { phase: PhaseView::Finished(Ok(())), ..self }, c),
            ProgressView::Failed(text) => (
                RelayView {
                    phase: PhaseView::Finished(Err(in_context("Error reading message"@, text))),
                    ..self
                },
                c,
            ),
        }
    }

    /// The relay and the connection after an event. One that the action cannot bring is
    /// passed over.
    pub open spec fn next(self, c: ConnectionView, rules: Rules, event: EventView) -> (
        RelayView,
        ConnectionView,
    ) {
        match (self.phase, event) {
            _ if !self.expects(event) => (self, c),
            (PhaseView::Reading(reader), EventView::Read { bytes, fds }) => RelayView {
                fds: self.fds + fds,
                ..self
            }.after_read(c, rules, reader.after(Ok(bytes))),
            (PhaseView::Reading(reader), EventView::ReadFailed { error, fds }) => RelayView {
                fds: self.fds + fds,
                ..self
            }.after_read(c, rules, reader.after(Err(error))),
            (PhaseView::Sending { packet, part }, EventView::Written) => (
                RelayView {
                    phase: match part {
                        Part::Word1 => PhaseView::Sending { packet, part: Part::Word2 },
                        Part::Word2 => PhaseView::Sending { packet, part: Part::Body },
                        Part::Body => PhaseView::Closing,
                    },
                    ..self
                },
                c,
            ),
            (PhaseView::Sending { part, .. }, EventView::WriteFailed) => (
                RelayView {
                    phase: PhaseView::Finished(
                        Err(in_context("Error writing message"@, part.name())),
                    ),
                    ..self
                },
                c,
            ),
            (PhaseView::Closing, EventView::Closed) => (
                RelayView {
                    phase: PhaseView::Reading(PacketReader::Word1),
                    fds: Seq::empty(),
                    ..self
                },
                c,
            ),
            _ => (self, c),
        }
    }
}

/// The message that an event completes, if it does.
pub open spec fn completed(relay: RelayView, event: EventView) -> Option<PacketView> {
    match (relay.phase, event) {
        (PhaseView::Reading(reader), EventView::Read { bytes, .. }) if relay.expects(event) =>
            match reader.after(Ok(bytes)) {
                ProgressView::Complete(packet) => Some(packet),
                _ => None,
            },
        _ => None,
    }
}

fn error_in(text: &str, e: &'static str) -> (r: Result<(), String>)
    ensures
        stop_of(r) == Err::<(), Seq<char>>(in_context(text@, e@)),
{
    let failed: Result<(), &str> = Err(e);
    failed.context(text)
}

impl Relay {
    /// A relay that waits for its first message.
    pub fn new(direction: Direction) -> (r: Self)
        ensures
            r@ == RelayView::fresh(direction),
    {
        let r = Relay {
            direction,
            phase: Phase::Reading(PacketReader::Word1),
            fds: Vec::new(),
        };
        assert(r@ =~= RelayView::fresh(direction));
        r
    }

    /// What is to be done next.
    pub fn action(&self) -> (r: Action)
        ensures
            r@ == self@.action(),
    {
        match &self.phase {
            Phase::Reading(reader) => Action::Read(reader.wanted()),
            Phase::Sending { packet, part } => {
                let fds: Vec<i32> = match part {
                    Part::Word1 => slice_to_vec(self.fds.as_slice()),
                    _ => Vec::new(),
                };
                Action::Write { bytes: part.bytes(packet), fds }
            },
            Phase::Closing => Action::Close(slice_to_vec(self.fds.as_slice())),
            Phase::Finished(Ok(())) => Action::Finish(Ok(())),
            Phase::Finished(Err(e)) => Action::Finish(Err(e.clone())),
        }
    }

    /// Whether the relay waits for a message of which nothing was read yet.
    pub fn is_idle(&self) -> (r: bool)
        ensures
            r == self@.idle(),
    {
        match self.phase {
            Phase::Reading(PacketReader::Word1) => true,
            _ => false,
        }
    }

    /// The message that an event completes, if it does, and how many file descriptors came
    /// with it.
    pub fn completes(&self, event: &Event) -> (r: Option<(Packet, usize)>)
        ensures
            match r {
                Some((packet, fds)) => {
                    &&& completed(self@, event@) == Some(packet@)
                    &&& event@ matches EventView::Read { fds: more, .. }
                    &&& fds == (self@.fds + more).len()
                },
                None => completed(self@, event@) is None,
            },
    {
        if let Event::Read { bytes, fds } = event {
            if let Phase::Reading(PacketReader::Body { id, opcode, len }) = self.phase {
                if bytes.len() == len as usize {
                    let mut all: Vec<i32> = slice_to_vec(self.fds.as_slice());
                    let mut more: Vec<i32> = slice_to_vec(fds.as_slice());
                    all.append(&mut more);
                    let packet = Packet { id, opcode, body: slice_to_vec(bytes.as_slice()) };
                    return Some((packet, all.len()));
                }
            }
        }
        None
    }

    fn decide(&self, conn: &mut Connection, args: &Args, mut packet: Packet) -> (r: Phase)
        ensures
            final(conn)@ == self@.direction.decide(old(conn)@, packet@, args@).0,
            r@ == decided(self@.direction.decide(old(conn)@, packet@, args@).1),
    {
        let verdict = match self.direction {
            Direction::ClientToServer => conn.client_packet(&mut packet, args),
            Direction::ServerToClient => conn.server_packet(&packet, args),
        };
        match verdict {
            Ok(Verdict::Forward) => Phase::Sending { packet, part: Part::Word1 },
            Ok(Verdict::Discard) => Phase::Closing,
            Err(e) => Phase::Finished(Err(e)),
        }
    }

    fn take_progress(&mut self, conn: &mut Connection, args: &Args, progress: Progress)
        ensures
            (final(self)@, final(conn)@) == old(self)@.after_read(old(conn)@, args@, progress@),
    {
        let phase = match progress {
            Progress::Reading(reader) => Phase::Reading(reader),
            Progress::Complete(packet) => self.decide(conn, args, packet),
            Progress::Closed => Phase::Finished(Ok(())),
            Progress::Failed(text) => Phase::Finished(error_in("Error reading message", text)),
        };
        self.phase = phase;
    }

    /// Takes what came of the action.
    pub fn step(&mut self, conn: &mut Connection, args: &Args, event: Event)
        ensures
            (final(self)@, final(conn)@) == old(self)@.next(old(conn)@, args@, event@),
    {
        match event {
            Event::Read { bytes, mut fds } => {
                if let Phase::Reading(reader) = self.phase {
                    if bytes.len() == reader.wanted() {
                        self.fds.append(&mut fds);
                        self.take_progress(conn, args, reader.advance(Ok(bytes)));
                    }
                }
            },
            Event::ReadFailed { error, mut fds } => {
                if let Phase::Reading(reader) = self.phase {
                    self.fds.append(&mut fds);
                    self.take_progress(conn, args, reader.advance(Err(error)));
                }
            },
            Event::Written => {
                if let Phase::Sending { packet: _, part } = &mut self.phase {
                    match *part {
                        Part::Word1 => {
                            *part = Part::Word2;
                        },
                        Part::Word2 => {
                            *part = Part::Body;
                        },
                        Part::Body => {
                            self.phase = Phase::Closing;
                        },
                    }
                }
            },
            Event::WriteFailed => {
                if let Phase::Sending { packet: _, part } = &self.phase {
                    self.phase = Phase::Finished(error_in("Error writing message", part.label()));
                }
            },
            Event::Closed => {
                if let Phase::Closing = self.phase {
                    self.phase = Phase::Reading(PacketReader::Word1);
                    self.fds.clear();
                }
            },
        }
    }
}

} // verus!
