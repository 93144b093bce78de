//! What holds of a relay as a whole.
use crate::config::Rules;
use crate::connection::{parse_global, ConnectionView, GlobalView};
use crate::context::in_context;
use crate::filter_laws::{announcement_is_filtered, announces, forbidden};
use crate::proto::{
    packet_written_back, parse_packet, parse_stream, piecewise_reading, stream_bytes,
    PacketReader, PacketView, ProgressView, ReadError,
};
use crate::relay::{
    completed, decided, ActionView, Direction, EventView, Part, PhaseView, RelayView,
};
use crate::wire_laws::{
    half_value, message_has_these_bytes, reader_takes_piece_by_piece, word_value,
};
use vstd::prelude::*;

verus! {

// ---------------------------------------------------------------------------
// File descriptors
// ---------------------------------------------------------------------------

/// The file descriptors that an event brings.
pub open spec fn received(event: EventView) -> Seq<i32> {
    match event {
        EventView::Read { fds, .. } => fds,
        EventView::ReadFailed { fds, .. } => fds,
        _ => Seq::empty(),
    }
}

/// The file descriptors that an event tells to be closed: those that the action named.
pub open spec fn closed(relay: RelayView, event: EventView) -> Seq<i32> {
    match (relay.action(), event) {
        (ActionView::Close(fds), EventView::Closed) => fds,
        _ => Seq::empty(),
    }
}

/// No file descriptor is lost, and none is closed twice: those that a relay held and those
/// that it received are those that were closed and those that it holds.
pub proof fn descriptors_are_conserved(
    relay: RelayView,
    c: ConnectionView,
    rules: Rules,
    event: EventView,
)
    requires
        relay.expects(event),
    ensures
        relay.fds + received(event) == closed(relay, event) + relay.next(c, rules, event).0.fds,
{
    let after = relay.next(c, rules, event).0;
    assert(relay.fds + received(event) =~= closed(relay, event) + after.fds);
}

/// A message that is discarded has its file descriptors closed at once.
pub proof fn discarded_descriptors_are_closed(
    relay: RelayView,
    c: ConnectionView,
    rules: Rules,
    bytes: Seq<u8>,
    fds: Seq<i32>,
    reader: PacketReader,
    packet: PacketView,
)
    requires
        relay.phase == PhaseView::Reading(reader),
        bytes.len() == reader.wants(),
        reader.after(Ok(bytes)) == ProgressView::Complete(packet),
        relay.direction.decide(c, packet, rules).1 == Ok::<Option<PacketView>, Seq<char>>(None),
    ensures
        relay.next(c, rules, EventView::Read { bytes, fds }).0.action() == ActionView::Close(
            relay.fds + fds,
        ),
{
}

/// A message that is passed on takes all its file descriptors along with its first piece,
/// sends none with the others, and then has them closed.
pub proof fn passed_descriptors_are_sent_once(
    relay: RelayView,
    c: ConnectionView,
    rules: Rules,
    packet: PacketView,
)
    requires
        relay.phase == (PhaseView::Sending { packet, part: Part::Word1 }),
    ensures
        ({
            let second = relay.next(c, rules, EventView::Written).0;
            let third = second.next(c, rules, EventView::Written).0;
            let last = third.next(c, rules, EventView::Written).0;
            &&& relay.action() == ActionView::Write { bytes: packet.word1(), fds: relay.fds }
            &&& second.action() == ActionView::Write {
                bytes: packet.word2(),
                fds: Seq::<i32>::empty(),
            }
            &&& third.action() == ActionView::Write { bytes: packet.body, fds: Seq::<i32>::empty() }
            &&& last.action() == ActionView::Close(relay.fds)
            &&& packet.word1() + packet.word2() + packet.body == packet.bytes()
        }),
{
}

/// A relay that finished does nothing more.
pub proof fn finished_is_final(
    relay: RelayView,
    c: ConnectionView,
    rules: Rules,
    event: EventView,
)
    requires
        relay.phase is Finished,
    ensures
        relay.next(c, rules, event) == (relay, c),
{
}

// ---------------------------------------------------------------------------
// Whole streams
// ---------------------------------------------------------------------------

/// Where each phase stands between two reads of the stream.
pub open spec fn rank(phase: PhaseView) -> nat {
    match phase {
        PhaseView::Reading(PacketReader::Body { .. }) => 6,
        PhaseView::Sending { part: Part::Word1, .. } => 5,
        PhaseView::Sending { part: Part::Word2, .. } => 4,
        PhaseView::Sending { part: Part::Body, .. } => 3,
        PhaseView::Closing => 2,
        PhaseView::Reading(_) => 1,
        PhaseView::Finished(_) => 0,
    }
}

/// What a relay makes of a stream that gives `bytes` and then fails with `end`, where
/// every write succeeds: the bytes that it writes, the connection in the end, and how it
/// stops.
pub open spec fn driven(
    relay: RelayView,
    c: ConnectionView,
    rules: Rules,
    bytes: Seq<u8>,
    end: ReadError,
) -> (Seq<u8>, ConnectionView, Result<(), Seq<char>>)
    decreases bytes.len(), rank(relay.phase),
{
    match relay.action() {
        ActionView::Read(n) => {
            let (event, left) = if n <= bytes.len() {
                (
                    EventView::Read { bytes: bytes.take(n as int), fds: Seq::empty() },
                    bytes.skip(n as int),
                )
            } else {
                (EventView::ReadFailed { error: end, fds: Seq::empty() }, Seq::empty())
            };
            let (next, after) = relay.next(c, rules, event);
            driven(next, after, rules, left, end)
        },
        ActionView::Write { bytes: written, .. } => {
            let (next, after) = relay.next(c, rules, EventView::Written);
            let (out, last, stop) = driven(next, after, rules, bytes, end);
            (written + out, last, stop)
        },
        ActionView::Close(_) => {
            let (next, after) = relay.next(c, rules, EventView::Closed);
            driven(next, after, rules, bytes, end)
        },
        ActionView::Finish(stop) => (Seq::empty(), c, stop),
    }
}

/// What is to become of the messages `packets`, behind which the stream stops as `stop`
/// tells: the messages that are passed on, one after the other, up to the first error.
pub open spec fn relayed(
    direction: Direction,
    c: ConnectionView,
    rules: Rules,
    packets: Seq<PacketView>,
    stop: Result<(), Seq<char>>,
) -> (Seq<u8>, ConnectionView, Result<(), Seq<char>>)
    decreases packets.len(),
{
    if packets.len() == 0 {
        (
            Seq::empty(),
            c,
            match stop {
                Ok(()) => Ok(()),
                Err(e) => Err(in_context("Error reading message"@, e)),
            },
        )
    } else {
        let (after, decision) = direction.decide(c, packets[0], rules);
        let (out, last, stopped) = relayed(direction, after, rules, packets.drop_first(), stop);
        match decision {
            Ok(Some(packet)) => (packet.bytes() + out, last, stopped),
            Ok(None) => (out, last, stopped),
            Err(e) => (Seq::empty(), after, Err(e)),
        }
    }
}

/// A relay at this phase that holds no file descriptors.
pub open spec fn at_phase(direction: Direction, phase: PhaseView) -> RelayView {
    RelayView { direction, phase, fds: Seq::empty() }
}

/// Reading a message through, a relay comes to where the message, once read, is decided on.
proof fn driven_through_message(
    relay: RelayView,
    c: ConnectionView,
    rules: Rules,
    reader: PacketReader,
    bytes: Seq<u8>,
    end: ReadError,
)
    requires
        relay.phase == PhaseView::Reading(reader),
        relay.fds == Seq::<i32>::empty(),
    ensures
        ({
            let (outcome, left) = reader.finish(bytes, end);
            let progress = match outcome {
                Ok(Some(packet)) => ProgressView::Complete(packet),
                Ok(None) => ProgressView::Closed,
                Err(text) => ProgressView::Failed(text),
            };
            let (next, after) = relay.after_read(c, rules, progress);
            driven(relay, c, rules, bytes, end) == driven(next, after, rules, left, end)
        }),
    decreases reader.reads_after_next(),
{
    let n = reader.wants();
    assert(relay.fds + Seq::<i32>::empty() =~= relay.fds);
    let (got, left) = if n <= bytes.len() {
        (Ok(bytes.take(n as int)), bytes.skip(n as int))
    } else {
        (Err(end), Seq::empty())
    };
    if let ProgressView::Reading(next) = reader.after(got) {
        let further = RelayView { phase: PhaseView::Reading(next), ..relay };
        driven_through_message(further, c, rules, next, left, end);
    }
}

/// A relay that has closed the file descriptors goes on as a fresh one.
proof fn driven_through_closing(
    direction: Direction,
    c: ConnectionView,
    rules: Rules,
    bytes: Seq<u8>,
    end: ReadError,
)
    ensures
        driven(at_phase(direction, PhaseView::Closing), c, rules, bytes, end) == driven(
            RelayView::fresh(direction),
            c,
            rules,
            bytes,
            end,
        ),
{
}

/// A relay that has a message to send writes its bytes and then goes on as a fresh one.
proof fn driven_through_sending(
    direction: Direction,
    c: ConnectionView,
    rules: Rules,
    packet: PacketView,
    bytes: Seq<u8>,
    end: ReadError,
)
    ensures
        ({
            let sending = at_phase(direction, PhaseView::Sending { packet, part: Part::Word1 });
            let (out, last, stop) = driven(RelayView::fresh(direction), c, rules, bytes, end);
            driven(sending, c, rules, bytes, end) == (packet.bytes() + out, last, stop)
        }),
{
    let first = at_phase(direction, PhaseView::Sending { packet, part: Part::Word1 });
    let second = at_phase(direction, PhaseView::Sending { packet, part: Part::Word2 });
    let third = at_phase(direction, PhaseView::Sending { packet, part: Part::Body });
    let closing = at_phase(direction, PhaseView::Closing);
    driven_through_closing(direction, c, rules, bytes, end);
    let (out, last, stop) = driven(closing, c, rules, bytes, end);
    assert(driven(third, c, rules, bytes, end) == (packet.body + out, last, stop));
    assert(driven(second, c, rules, bytes, end) == (
        packet.word2() + (packet.body + out),
        last,
        stop,
    ));
    assert(driven(first, c, rules, bytes, end) == (
        packet.word1() + (packet.word2() + (packet.body + out)),
        last,
        stop,
    ));
    assert(packet.word1() + (packet.word2() + (packet.body + out)) =~= packet.bytes() + out);
}

/// A relay that decided on a message does what was decided, and goes on as a fresh one
/// unless it was an error.
proof fn driven_through_decision(
    direction: Direction,
    c: ConnectionView,
    rules: Rules,
    decision: Result<Option<PacketView>, Seq<char>>,
    bytes: Seq<u8>,
    end: ReadError,
)
    ensures
        ({
            let (out, last, stop) = driven(RelayView::fresh(direction), c, rules, bytes, end);
            driven(at_phase(direction, decided(decision)), c, rules, bytes, end) == match decision {
                Ok(Some(packet)) => (packet.bytes() + out, last, stop),
                Ok(None) => (out, last, stop),
                Err(e) => (Seq::empty(), c, Err(e)),
            }
        }),
{
    match decision {
        Ok(Some(packet)) => driven_through_sending(direction, c, rules, packet, bytes, end),
        Ok(None) => driven_through_closing(direction, c, rules, bytes, end),
        Err(_) => {},
    }
}

/// A fresh relay reads a message, if there is one, and comes to where it is decided on.
proof fn driven_from_fresh(
    direction: Direction,
    c: ConnectionView,
    rules: Rules,
    bytes: Seq<u8>,
    end: ReadError,
)
    ensures
        ({
            let (outcome, left) = parse_packet(bytes, end);
            driven(RelayView::fresh(direction), c, rules, bytes, end) == match outcome {
                Ok(Some(packet)) => {
                    let (after, decision) = direction.decide(c, packet, rules);
                    driven(at_phase(direction, decided(decision)), after, rules, left, end)
                },
                Ok(None) => (Seq::empty(), c, Ok(())),
                Err(text) => (
                    Seq::empty(),
                    c,
                    Err(in_context("Error reading message"@, text)),
                ),
            }
        }),
{
    piecewise_reading(bytes, end);
    driven_through_message(
        RelayView::fresh(direction),
        c,
        rules,
        PacketReader::Word1,
        bytes,
        end,
    );
}

/// Reading a stream of messages, one at a time.
proof fn stream_unfolds(bytes: Seq<u8>, end: ReadError)
    ensures
        ({
            let (packets, stop) = parse_stream(bytes, end);
            match parse_packet(bytes, end) {
                (Ok(Some(packet)), left) => {
                    &&& left.len() < bytes.len()
                    &&& packets.len() > 0
                    &&& packets[0] == packet
                    &&& packets.drop_first() == parse_stream(left, end).0
                    &&& stop == parse_stream(left, end).1
                },
                (Ok(None), _) => packets.len() == 0 && stop == Ok::<(), Seq<char>>(()),
                (Err(text), _) => packets.len() == 0 && stop == Err::<(), Seq<char>>(text),
            }
        }),
{
    if let (Ok(Some(packet)), left) = parse_packet(bytes, end) {
        assert(parse_stream(bytes, end).0.drop_first() =~= parse_stream(left, end).0);
    }
}

/// A relay writes, in their order, the messages that are passed on, byte for byte, and
/// stops where the stream ends or at the first error.
pub proof fn stream_is_relayed(
    direction: Direction,
    c: ConnectionView,
    rules: Rules,
    bytes: Seq<u8>,
    end: ReadError,
)
    ensures
        ({
            let (packets, stop) = parse_stream(bytes, end);
            driven(RelayView::fresh(direction), c, rules, bytes, end) == relayed(
                direction,
                c,
                rules,
                packets,
                stop,
            )
        }),
    decreases bytes.len(),
{
    stream_unfolds(bytes, end);
    driven_from_fresh(direction, c, rules, bytes, end);
    if let (Ok(Some(packet)), left) = parse_packet(bytes, end) {
        let (after, decision) = direction.decide(c, packet, rules);
        driven_through_decision(direction, after, rules, decision, left, end);
        stream_is_relayed(direction, after, rules, left, end);
    }
}

// ---------------------------------------------------------------------------
// One message
// ---------------------------------------------------------------------------

/// What becomes of a message of the compositor, passed on or not, follows from the message:
/// it is withheld exactly where it announces a blocked interface on a registry that is
/// listened to, and otherwise it is passed on as it is. An error is the connection's error.
pub proof fn server_messages_are_copied(c: ConnectionView, packet: PacketView, rules: Rules)
    ensures
        ({
            let (after, decision) = Direction::ServerToClient.decide(c, packet, rules);
            let withheld = exists|global: GlobalView|
                #[trigger] announces(c, packet, global) && forbidden(rules, global.interface);
            &&& after == c.from_server(packet, rules).0
            &&& decision is Err <==> c.from_server(packet, rules).1 is Err
            &&& decision matches Err(e) ==> c.from_server(packet, rules).1 == Err::<
                bool,
                Seq<char>,
            >(e)
            &&& decision is Ok && withheld ==> decision == Ok::<Option<PacketView>, Seq<char>>(None)
            &&& decision is Ok && !withheld ==> decision == Ok::<Option<PacketView>, Seq<char>>(
                Some(packet),
            )
        }),
{
    if c.registries.contains(packet.id) && packet.opcode == 0 {
        if parse_global(packet.body) is Ok {
            let global = parse_global(packet.body)->Ok_0;
            assert(announces(c, packet, global));
            announcement_is_filtered(c, packet, rules, global);
            assert(forall|other: GlobalView| #[trigger]
                announces(c, packet, other) ==> other == global);
        }
    } else {
        assert(forall|other: GlobalView| !#[trigger] announces(c, packet, other));
    }
}

/// What becomes of a message of the client is what the connection makes of it.
pub proof fn client_messages_are_decided_on(c: ConnectionView, packet: PacketView, rules: Rules)
    ensures
        Direction::ClientToServer.decide(c, packet, rules) == c.from_client(packet, rules),
{
}

/// When a message is complete, its relay goes on to send what is passed on, from its first
/// piece, or to close what came with it, or it stops with the error. The file descriptors
/// that came with the message stay with the relay until then.
pub proof fn complete_message_is_dealt_with(
    relay: RelayView,
    c: ConnectionView,
    rules: Rules,
    bytes: Seq<u8>,
    fds: Seq<i32>,
    id: u32,
    opcode: u16,
    len: u16,
)
    requires
        relay.phase == PhaseView::Reading(PacketReader::Body { id, opcode, len }),
        bytes.len() == len,
    ensures
        ({
            let packet = PacketView { id, opcode, body: bytes };
            let (after, decision) = relay.direction.decide(c, packet, rules);
            let (next, connection) = relay.next(c, rules, EventView::Read { bytes, fds });
            &&& completed(relay, EventView::Read { bytes, fds }) == Some(packet)
            &&& connection == after
            &&& next.direction == relay.direction
            &&& next.fds == relay.fds + fds
            &&& decision matches Ok(Some(q)) ==> next.phase == (PhaseView::Sending {
                packet: q,
                part: Part::Word1,
            })
            &&& decision matches Ok(None) ==> next.phase is Closing
            &&& decision matches Err(e) ==> next.action() == ActionView::Finish(Err(e))
        }),
{
}

/// Only a read that gives all of a body completes a message.
pub proof fn only_bodies_complete_messages(relay: RelayView, event: EventView)
    ensures
        completed(relay, event) matches Some(packet) ==> {
            &&& relay.phase == PhaseView::Reading(
                PacketReader::Body {
                    id: packet.id,
                    opcode: packet.opcode,
                    len: packet.body.len() as u16,
                },
            )
            &&& event matches EventView::Read { bytes, .. } && bytes == packet.body
        },
{
}

/// With nothing blocked, a message of the compositor that is not in error is sent to the
/// client with its id, its opcode and its body.
pub proof fn unfiltered_server_message_is_sent(
    relay: RelayView,
    c: ConnectionView,
    rules: Rules,
    bytes: Seq<u8>,
    fds: Seq<i32>,
    id: u32,
    opcode: u16,
    len: u16,
)
    requires
        relay.direction == Direction::ServerToClient,
        relay.phase == PhaseView::Reading(PacketReader::Body { id, opcode, len }),
        bytes.len() == len,
        rules.block.len() == 0,
        c.from_server(PacketView { id, opcode, body: bytes }, rules).1 is Ok,
    ensures
        relay.next(c, rules, EventView::Read { bytes, fds }).0.phase == (PhaseView::Sending {
            packet: PacketView { id, opcode, body: bytes },
            part: Part::Word1,
        }),
{
    server_messages_are_copied(c, PacketView { id, opcode, body: bytes }, rules);
}

/// The pieces of a message, in the order in which they are written.
pub proof fn message_is_written_in_pieces(packet: PacketView)
    ensures
        Part::Word1.of(packet) == packet.bytes().take(4),
        Part::Word2.of(packet) == packet.bytes().subrange(4, 8),
        Part::Body.of(packet) == packet.bytes().skip(8),
{
    message_has_these_bytes(packet);
}

// ---------------------------------------------------------------------------
// One step
// ---------------------------------------------------------------------------

/// A new relay waits for the first word of a message and holds nothing.
pub proof fn new_relay_waits(direction: Direction)
    ensures
        RelayView::fresh(direction).direction == direction,
        RelayView::fresh(direction).fds == Seq::<i32>::empty(),
        RelayView::fresh(direction).action() == ActionView::Read(4),
        RelayView::fresh(direction).idle(),
{
}

/// What is to be done in each phase.
pub proof fn relay_acts_by_its_phase(relay: RelayView)
    ensures
        match relay.phase {
            PhaseView::Reading(PacketReader::Body { len, .. }) => relay.action()
                == ActionView::Read(len as nat),
            PhaseView::Reading(_) => relay.action() == ActionView::Read(4),
            PhaseView::Sending { packet, part: Part::Word1 } => relay.action()
                == ActionView::Write { bytes: packet.bytes().take(4), fds: relay.fds },
            PhaseView::Sending { packet, part: Part::Word2 } => relay.action()
                == ActionView::Write {
                bytes: packet.bytes().subrange(4, 8),
                fds: Seq::<i32>::empty(),
            },
            PhaseView::Sending { packet, part: Part::Body } => relay.action()
                == ActionView::Write { bytes: packet.bytes().skip(8), fds: Seq::<i32>::empty() },
            PhaseView::Closing => relay.action() == ActionView::Close(relay.fds),
            PhaseView::Finished(r) => relay.action() == ActionView::Finish(r),
        },
        relay.idle() <==> relay.phase == PhaseView::Reading(PacketReader::Word1),
{
    if let PhaseView::Sending { packet, part } = relay.phase {
        message_is_written_in_pieces(packet);
    }
}

/// Which events an action can bring: a read gives exactly the bytes asked for or fails, a
/// write is done or fails, and what is to be closed is closed.
pub proof fn actions_bring_such_events(relay: RelayView, event: EventView)
    ensures
        relay.expects(event) <==> match (relay.action(), event) {
            (ActionView::Read(n), EventView::Read { bytes, .. }) => bytes.len() == n,
            (ActionView::Read(_), EventView::ReadFailed { .. }) => true,
            (ActionView::Write { .. }, EventView::Written) => true,
            (ActionView::Write { .. }, EventView::WriteFailed) => true,
            (ActionView::Close(_), EventView::Closed) => true,
            _ => false,
        },
{
}

/// An event that the action cannot bring changes nothing.
pub proof fn other_events_are_passed_over(
    relay: RelayView,
    c: ConnectionView,
    rules: Rules,
    event: EventView,
)
    requires
        !relay.expects(event),
    ensures
        relay.next(c, rules, event) == (relay, c),
{
}

/// File descriptors have no say in what becomes of a message.
pub proof fn descriptors_have_no_say(
    relay: RelayView,
    c: ConnectionView,
    rules: Rules,
    bytes: Seq<u8>,
    fds: Seq<i32>,
    others: Seq<i32>,
)
    requires
        relay.expects(EventView::Read { bytes, fds }),
    ensures
        ({
            let one = relay.next(c, rules, EventView::Read { bytes, fds });
            let two = relay.next(c, rules, EventView::Read { bytes, fds: others });
            one.0.phase == two.0.phase && one.0.direction == two.0.direction && one.1 == two.1
        }),
{
}

/// Reading a header word touches neither the connection nor what the relay held, and leads on
/// to the next piece; a size that is too small ends the relay.
pub proof fn header_words_lead_on(
    relay: RelayView,
    c: ConnectionView,
    rules: Rules,
    b: Seq<u8>,
    fds: Seq<i32>,
    id: u32,
)
    requires
        b.len() == 4,
    ensures
        ({
            let (next, connection) = relay.next(c, rules, EventView::Read { bytes: b, fds });
            let size = half_value(b, 2);
            &&& relay.phase == PhaseView::Reading(PacketReader::Word1) ==> {
                &&& connection == c
                &&& next.direction == relay.direction
                &&& next.fds == relay.fds + fds
                &&& next.phase == PhaseView::Reading(
                    PacketReader::Word2 { id: word_value(b, 0) as u32 },
                )
            }
            &&& relay.phase == PhaseView::Reading(PacketReader::Word2 { id }) ==> {
                &&& connection == c
                &&& next.direction == relay.direction
                &&& next.fds == relay.fds + fds
                &&& size >= 8 ==> next.phase == PhaseView::Reading(
                    PacketReader::Body {
                        id,
                        opcode: half_value(b, 0) as u16,
                        len: (size - 8) as u16,
                    },
                )
                &&& size < 8 ==> next.action() == ActionView::Finish(
                    Err("Error reading message"@ + ": "@ + "message size too small"@),
                )
            }
        }),
{
    reader_takes_piece_by_piece(b, id, 0, 0);
}

/// A failed read ends the relay: in order where the peer is gone between two messages, and
/// with an error that names the piece otherwise. The connection is not touched.
pub proof fn failed_reads_end_the_relay(
    relay: RelayView,
    c: ConnectionView,
    rules: Rules,
    error: ReadError,
    fds: Seq<i32>,
    reader: PacketReader,
)
    requires
        relay.phase == PhaseView::Reading(reader),
    ensures
        ({
            let (next, connection) = relay.next(c, rules, EventView::ReadFailed { error, fds });
            &&& connection == c
            &&& next.fds == relay.fds + fds
            &&& next.action() == ActionView::Finish(
                match reader {
                    PacketReader::Word1 => if error is Other {
                        Err("Error reading message"@ + ": "@ + "header word 1"@)
                    } else {
                        Ok(())
                    },
                    PacketReader::Word2 { .. } => Err(
                        "Error reading message"@ + ": "@ + "header word 2"@,
                    ),
                    PacketReader::Body { .. } => Err("Error reading message"@ + ": "@ + "body"@),
                },
            )
        }),
{
}

/// A failed write ends the relay with an error that names the piece, and a write that is done
/// leads on to the next piece, or to the closing. Neither touches the connection.
pub proof fn writes_lead_on(
    relay: RelayView,
    c: ConnectionView,
    rules: Rules,
    packet: PacketView,
    part: Part,
)
    requires
        relay.phase == (PhaseView::Sending { packet, part }),
    ensures
        relay.next(c, rules, EventView::WriteFailed) == (
            RelayView {
                direction: relay.direction,
                phase: PhaseView::Finished(
                    Err(
                        "Error writing message"@ + ": "@ + match part {
                            Part::Word1 => "header word 1"@,
                            Part::Word2 => "header word 2"@,
                            Part::Body => "body"@,
                        },
                    ),
                ),
                fds: relay.fds,
            },
            c,
        ),
        relay.next(c, rules, EventView::Written) == (
            RelayView {
                direction: relay.direction,
                phase: match part {
                    Part::Word1 => PhaseView::Sending { packet, part: Part::Word2 },
                    Part::Word2 => PhaseView::Sending { packet, part: Part::Body },
                    Part::Body => PhaseView::Closing,
                },
                fds: relay.fds,
            },
            c,
        ),
{
}

/// Once what came with a message is closed, the relay is as new.
pub proof fn closing_makes_a_relay_new(relay: RelayView, c: ConnectionView, rules: Rules)
    requires
        relay.phase is Closing,
    ensures
        relay.next(c, rules, EventView::Closed) == (RelayView::fresh(relay.direction), c),
{
}

// ---------------------------------------------------------------------------
// Streams that are copied
// ---------------------------------------------------------------------------

/// The messages that a stream gives, one after the other, are the bytes that it begins with.
pub proof fn stream_begins_with_its_messages(bytes: Seq<u8>, end: ReadError)
    ensures
        stream_bytes(parse_stream(bytes, end).0).len() <= bytes.len(),
        stream_bytes(parse_stream(bytes, end).0) == bytes.take(
            stream_bytes(parse_stream(bytes, end).0).len() as int,
        ),
    decreases bytes.len(),
{
    stream_unfolds(bytes, end);
    if let (Ok(Some(packet)), left) = parse_packet(bytes, end) {
        packet_written_back(bytes, end);
        stream_begins_with_its_messages(left, end);
        let tail = stream_bytes(parse_stream(left, end).0);
        assert(stream_bytes(parse_stream(bytes, end).0) == packet.bytes() + tail);
        assert(packet.bytes() + tail =~= bytes.take((packet.bytes() + tail).len() as int));
    } else {
        assert(stream_bytes(parse_stream(bytes, end).0) =~= bytes.take(0));
    }
}

/// Where each message of a direction that is not in error is passed on as it is, the messages
/// written are the messages read.
proof fn copied_in_order(
    direction: Direction,
    c: ConnectionView,
    rules: Rules,
    packets: Seq<PacketView>,
    stop: Result<(), Seq<char>>,
)
    requires
        rules.block.len() == 0,
        direction is ServerToClient || rules.title is None && rules.app_id is None && c.blocked
            == Set::<u32>::empty(),
    ensures
        ({
            let (out, _, stopped) = relayed(direction, c, rules, packets, stop);
            &&& stopped is Ok ==> out == stream_bytes(packets)
            &&& exists|n: int| 0 <= n <= packets.len() && out == stream_bytes(
                #[trigger] packets.take(n),
            )
        }),
    decreases packets.len(),
{
    let (out, last, stopped) = relayed(direction, c, rules, packets, stop);
    if packets.len() == 0 {
        assert(packets.take(0) =~= packets);
        assert(out == stream_bytes(packets.take(0)));
    } else {
        let packet = packets[0];
        let rest = packets.drop_first();
        let (after, decision) = direction.decide(c, packet, rules);
        assert(packets.take(0) =~= Seq::empty());
        if direction is ServerToClient {
            server_messages_are_copied(c, packet, rules);
        } else {
            nothing_is_changed_on_the_way_up(c, packet, rules);
        }
        if decision is Err {
            assert(out == stream_bytes(packets.take(0)));
        } else {
            assert(decision == Ok::<Option<PacketView>, Seq<char>>(Some(packet)));
            copied_in_order(direction, after, rules, rest, stop);
            let (more, _, _) = relayed(direction, after, rules, rest, stop);
            let n = choose|n: int| 0 <= n <= rest.len() && more == stream_bytes(
                #[trigger] rest.take(n),
            );
            let some = packets.take(n + 1);
            assert(some.drop_first() =~= rest.take(n));
            assert(some[0] == packet);
            assert(out == stream_bytes(some));
        }
    }
}

proof fn nothing_is_changed_on_the_way_up(c: ConnectionView, packet: PacketView, rules: Rules)
    requires
        rules.block.len() == 0,
        rules.title is None,
        rules.app_id is None,
        c.blocked == Set::<u32>::empty(),
    ensures
        c.from_client(packet, rules).0.blocked == Set::<u32>::empty(),
        c.from_client(packet, rules).1 matches Ok(q) ==> q == Some(packet),
{
}

/// With nothing blocked, what a relay from the compositor writes to the client is, byte for
/// byte, what it read: all the messages where it stops in order, and those before the first
/// error otherwise.
pub proof fn unfiltered_server_stream_is_copied(
    c: ConnectionView,
    rules: Rules,
    bytes: Seq<u8>,
    end: ReadError,
)
    requires
        rules.block.len() == 0,
    ensures
        ({
            let (out, _, stop) = driven(
                RelayView::fresh(Direction::ServerToClient),
                c,
                rules,
                bytes,
                end,
            );
            let packets = parse_stream(bytes, end).0;
            &&& out == bytes.take(out.len() as int) && out.len() <= bytes.len()
            &&& stop is Ok ==> out == stream_bytes(packets)
            &&& exists|n: int| 0 <= n <= packets.len() && out == stream_bytes(
                #[trigger] packets.take(n),
            )
        }),
{
    let (packets, stop) = parse_stream(bytes, end);
    stream_is_relayed(Direction::ServerToClient, c, rules, bytes, end);
    copied_in_order(Direction::ServerToClient, c, rules, packets, stop);
    stream_begins_with_its_messages(bytes, end);
    let (out, _, _) = relayed(Direction::ServerToClient, c, rules, packets, stop);
    let n = choose|n: int| 0 <= n <= packets.len() && out == stream_bytes(
        #[trigger] packets.take(n),
    );
    stream_of_first(packets, n);
    assert(out =~= bytes.take(out.len() as int));
}

/// With nothing blocked and neither a title nor an app id set, what the relay of a new
/// connection writes to the compositor is, byte for byte, what it read from the client.
pub proof fn unfiltered_client_stream_is_copied(
    rules: Rules,
    bytes: Seq<u8>,
    end: ReadError,
)
    requires
        rules.block.len() == 0,
        rules.title is None,
        rules.app_id is None,
    ensures
        ({
            let (out, _, stop) = driven(
                RelayView::fresh(Direction::ClientToServer),
                ConnectionView::fresh(),
                rules,
                bytes,
                end,
            );
            let packets = parse_stream(bytes, end).0;
            &&& out == bytes.take(out.len() as int) && out.len() <= bytes.len()
            &&& stop is Ok ==> out == stream_bytes(packets)
            &&& exists|n: int| 0 <= n <= packets.len() && out == stream_bytes(
                #[trigger] packets.take(n),
            )
        }),
{
    let c = ConnectionView::fresh();
    let (packets, stop) = parse_stream(bytes, end);
    stream_is_relayed(Direction::ClientToServer, c, rules, bytes, end);
    copied_in_order(Direction::ClientToServer, c, rules, packets, stop);
    stream_begins_with_its_messages(bytes, end);
    let (out, _, _) = relayed(Direction::ClientToServer, c, rules, packets, stop);
    let n = choose|n: int| 0 <= n <= packets.len() && out == stream_bytes(
        #[trigger] packets.take(n),
    );
    stream_of_first(packets, n);
    assert(out =~= bytes.take(out.len() as int));
}

/// The first of some messages, one after the other, are what all of them begin with.
proof fn stream_of_first(packets: Seq<PacketView>, n: int)
    requires
        0 <= n <= packets.len(),
    ensures
        stream_bytes(packets.take(n)).len() <= stream_bytes(packets).len(),
        stream_bytes(packets.take(n)) == stream_bytes(packets).take(
            stream_bytes(packets.take(n)).len() as int,
        ),
    decreases n,
{
    let some = packets.take(n);
    if n > 0 {
        stream_of_first(packets.drop_first(), n - 1);
        assert(some.drop_first() =~= packets.drop_first().take(n - 1));
        assert(some[0] == packets[0]);
    }
    assert(stream_bytes(some) =~= stream_bytes(packets).take(stream_bytes(some).len() as int));
}

} // verus!
