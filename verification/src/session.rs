//! A connection with both its directions.
use crate::config::{Args, Rules};
use crate::connection::{Connection, ConnectionView, ObjType};
use crate::context::{in_context, Errorize};
use crate::laws::{after, after_all, announces_blocked, binds_blocked, Message};
use crate::proto::text_of;
use crate::relay::{
    completed, stop_of, Action, ActionView, Direction, Event, EventView, PhaseView, Relay, RelayView,
};
use crate::remarks::{client_remarks, server_remarks, told, told_of, Remark};
use crate::relay_laws::{closed, descriptors_are_conserved, received};
use vstd::prelude::*;
use vstd::string::*;

verus! {

/// A connection and its two relays, which may be at work at the same time.
pub struct Session {
    connection: Connection,
    up: Relay,
    down: Relay,
}

/// A connection and its two relays: the one to the compositor and the one to the client.
#[verifier::ext_equal]
pub struct SessionView {
    pub connection: ConnectionView,
    pub up: RelayView,
    pub down: RelayView,
}

impl View for Session {
    type V = SessionView;

    closed spec fn view(&self) -> SessionView {
        SessionView { connection: self.connection@, up: self.up@, down: self.down@ }
    }
}

impl SessionView {
    /// A connection on which nothing was said, with two relays that wait.
    pub open spec fn fresh() -> SessionView {
        SessionView {
            connection: ConnectionView::fresh(),
            up: RelayView::fresh(Direction::ClientToServer),
            down: RelayView::fresh(Direction::ServerToClient),
        }
    }

    /// The relay of a direction.
    pub open spec fn relay(self, direction: Direction) -> RelayView {
        match direction {
            Direction::ClientToServer => self.up,
            Direction::ServerToClient => self.down,
        }
    }

    /// The session after what came of an action in one direction. The other direction is
    /// left as it is.
    pub open spec fn next(
        self,
        rules: Rules,
        direction: Direction,
        event: EventView,
    ) -> SessionView {
        let (relay, connection) = self.relay(direction).next(self.connection, rules, event);
        match direction {
            Direction::ClientToServer => SessionView { connection, up: relay, ..self },
            Direction::ServerToClient => SessionView { connection, down: relay, ..self },
        }
    }
}

/// Starts to handle the connection of a client and a compositor.
pub fn handle_connection() -> (r: Session)
    ensures
        r@ == SessionView::fresh(),
{
    Session {
        connection: Connection::new(),
        up: Relay::new(Direction::ClientToServer),
        down: Relay::new(Direction::ServerToClient),
    }
}

impl Session {
    /// What is to be done next in a direction.
    pub fn action(&self, direction: Direction) -> (r: Action)
        ensures
            r@ == self@.relay(direction).action(),
    {
        match direction {
            Direction::ClientToServer => self.up.action(),
            Direction::ServerToClient => self.down.action(),
        }
    }

    /// Takes what came of the action in a direction.
    pub fn step(&mut self, direction: Direction, args: &Args, event: Event)
        ensures
            final(self)@ == old(self)@.next(args@, direction, event@),
    {
        match direction {
            Direction::ClientToServer => self.up.step(&mut self.connection, args, event),
            Direction::ServerToClient => self.down.step(&mut self.connection, args, event),
        }
    }

    /// Whether a direction waits for a message of which nothing was read yet.
    pub fn is_idle(&self, direction: Direction) -> (r: bool)
        ensures
            r == self@.relay(direction).idle(),
    {
        match direction {
            Direction::ClientToServer => self.up.is_idle(),
            Direction::ServerToClient => self.down.is_idle(),
        }
    }

    /// What is worth telling of an event before it is taken.
    pub fn remarks(&self, direction: Direction, args: &Args, event: &Event) -> (r: Vec<Remark>)
        ensures
            told(r@) == told_of(
                self@.connection,
                self@.relay(direction),
                direction,
                args@,
                event@,
            ),
    {
        let relay = match direction {
            Direction::ClientToServer => &self.up,
            Direction::ServerToClient => &self.down,
        };
        match relay.completes(event) {
            Some((packet, fds)) => match direction {
                Direction::ClientToServer => client_remarks(&self.connection, packet, args, fds),
                Direction::ServerToClient => server_remarks(&self.connection, packet, args, fds),
            },
            None => {
                let none: Vec<Remark> = Vec::new();
                assert(told(none@) =~= Seq::empty());
                none
            },
        }
    }

    /// What is known of the connection.
    pub fn connection(&self) -> (r: &Connection)
        ensures
            r@ == self@.connection,
    {
        &self.connection
    }
}

/// Where a relay is said to have failed.
pub open spec fn farewell_context(direction: Direction) -> Seq<char> {
    match direction {
        Direction::ClientToServer => "Warning, client->server thread exiting with error"@,
        Direction::ServerToClient => "Warning, server->client thread exiting with error"@,
    }
}

/// What is printed when a relay stops.
pub open spec fn farewell_text(direction: Direction, r: Result<(), Seq<char>>) -> Option<Seq<char>> {
    match r {
        Ok(()) => None,
        Err(e) => Some(in_context(farewell_context(direction), e)),
    }
}

/// What to print when a relay stops: nothing, or the error.
pub fn farewell(direction: Direction, r: Result<(), String>) -> (text: Option<String>)
    ensures
        text_of(text) == farewell_text(direction, stop_of(r)),
{
    let told = match direction {
        Direction::ClientToServer => r.context("Warning, client->server thread exiting with error"),
        Direction::ServerToClient => r.context("Warning, server->client thread exiting with error"),
    };
    match told {
        Ok(()) => None,
        Err(text) => Some(text),
    }
}

// ---------------------------------------------------------------------------
// What holds however the two directions take turns
// ---------------------------------------------------------------------------

/// What came of an action, and in which direction.
pub struct Turn {
    pub direction: Direction,
    pub event: EventView,
}

/// The session after some turns.
pub open spec fn after_turns(s: SessionView, rules: Rules, turns: Seq<Turn>) -> SessionView
    decreases turns.len(),
{
    if turns.len() == 0 {
        s
    } else {
        after_turns(s, rules, turns.drop_last()).next(
            rules,
            turns.last().direction,
            turns.last().event,
        )
    }
}

/// The messages that some turns complete, in their order.
pub open spec fn traffic(s: SessionView, rules: Rules, turns: Seq<Turn>) -> Seq<Message>
    decreases turns.len(),
{
    if turns.len() == 0 {
        Seq::empty()
    } else {
        let before = traffic(s, rules, turns.drop_last());
        let turn = turns.last();
        let relay = after_turns(s, rules, turns.drop_last()).relay(turn.direction);
        match completed(relay, turn.event) {
            Some(packet) => before.push(
                match turn.direction {
                    Direction::ClientToServer => Message::Client(packet),
                    Direction::ServerToClient => Message::Server(packet),
                },
            ),
            None => before,
        }
    }
}

/// The relay to the compositor and the relay to the client keep their directions.
pub proof fn directions_stay(rules: Rules, turns: Seq<Turn>)
    ensures
        after_turns(SessionView::fresh(), rules, turns).up.direction == Direction::ClientToServer,
        after_turns(SessionView::fresh(), rules, turns).down.direction == Direction::ServerToClient,
    decreases turns.len(),
{
    if turns.len() > 0 {
        directions_stay(rules, turns.drop_last());
    }
}

/// A new session has a new connection and, in each direction, a relay that waits for the
/// first word of a message and holds nothing.
pub proof fn new_session_waits(direction: Direction)
    ensures
        SessionView::fresh().connection == ConnectionView::fresh(),
        SessionView::fresh().relay(direction).direction == direction,
        SessionView::fresh().relay(direction).action() == ActionView::Read(4),
        SessionView::fresh().relay(direction).fds == Seq::<i32>::empty(),
{
}

/// A step in one direction is that of its relay on the connection, and leaves the relay of the
/// other direction as it is.
pub proof fn step_is_that_of_one_relay(
    s: SessionView,
    rules: Rules,
    event: EventView,
)
    ensures
        ({
            let up = s.next(rules, Direction::ClientToServer, event);
            let down = s.next(rules, Direction::ServerToClient, event);
            &&& (up.up, up.connection) == s.up.next(s.connection, rules, event)
            &&& up.down == s.down
            &&& (down.down, down.connection) == s.down.next(s.connection, rules, event)
            &&& down.up == s.up
            &&& s.relay(Direction::ClientToServer) == s.up
            &&& s.relay(Direction::ServerToClient) == s.down
        }),
{
}

/// Nothing is said of a relay that stops in order; of one that fails, its direction and the
/// error are told.
pub proof fn failures_are_told(direction: Direction, e: Seq<char>)
    ensures
        farewell_text(direction, Ok(())) is None,
        farewell_text(Direction::ClientToServer, Err(e)) == Some(
            "Warning, client->server thread exiting with error"@ + ": "@ + e,
        ),
        farewell_text(Direction::ServerToClient, Err(e)) == Some(
            "Warning, server->client thread exiting with error"@ + ": "@ + e,
        ),
{
}

/// A message more, after some traffic.
proof fn one_message_more(
    c: ConnectionView,
    said: Seq<Message>,
    rules: Rules,
    message: Message,
)
    ensures
        after_all(c, said.push(message), rules) == after(
            after_all(c, said, rules),
            message,
            rules,
        ),
    decreases said.len(),
{
    let all = said.push(message);
    if said.len() > 0 {
        one_message_more(after(c, said[0], rules), said.drop_first(), rules, message);
        assert(all.drop_first() =~= said.drop_first().push(message));
        assert(all[0] == said[0]);
    } else {
        assert(all.drop_first() =~= Seq::empty());
        assert(after_all(after(c, message, rules), all.drop_first(), rules) == after(
            c,
            message,
            rules,
        ));
    }
}

/// However the two directions take turns, what is known of the connection follows from the
/// messages alone, in the order in which they were completed.
pub proof fn connection_follows_traffic(rules: Rules, turns: Seq<Turn>)
    ensures
        after_turns(SessionView::fresh(), rules, turns).connection == after_all(
            ConnectionView::fresh(),
            traffic(SessionView::fresh(), rules, turns),
            rules,
        ),
    decreases turns.len(),
{
    let s = SessionView::fresh();
    if turns.len() > 0 {
        let before = turns.drop_last();
        let turn = turns.last();
        connection_follows_traffic(rules, before);
        directions_stay(rules, before);
        let relay = after_turns(s, rules, before).relay(turn.direction);
        if let Some(packet) = completed(relay, turn.event) {
            let message = match turn.direction {
                Direction::ClientToServer => Message::Client(packet),
                Direction::ServerToClient => Message::Server(packet),
            };
            one_message_more(
                ConnectionView::fresh(),
                traffic(s, rules, before),
                rules,
                message,
            );
        }
    }
}

/// However the two directions take turns, nothing is ever written to the compositor that
/// is meant for an object bound to a blocked interface.
pub proof fn blocked_objects_are_out_of_reach(rules: Rules, turns: Seq<Turn>)
    ensures
        ({
            let s = after_turns(SessionView::fresh(), rules, turns);
            s.up.phase matches PhaseView::Sending { packet, .. } ==> !s.connection.blocked.contains(
                packet.id,
            )
        }),
    decreases turns.len(),
{
    if turns.len() > 0 {
        blocked_objects_are_out_of_reach(rules, turns.drop_last());
        directions_stay(rules, turns.drop_last());
    }
}

/// However the two directions take turns, a request to bind a blocked interface that was
/// completed on a registry is not written to the compositor.
pub proof fn blocked_bind_is_not_written(rules: Rules, turns: Seq<Turn>, turn: Turn)
    requires
        ({
            let s = after_turns(SessionView::fresh(), rules, turns);
            &&& turn.direction == Direction::ClientToServer
            &&& completed(s.up, turn.event) matches Some(packet)
            &&& s.connection.object(packet.id) == Some(ObjType::Registry)
            &&& packet.opcode == 0
            &&& binds_blocked(packet, rules)
        }),
    ensures
        after_turns(SessionView::fresh(), rules, turns.push(turn)).up.phase is Closing,
{
    directions_stay(rules, turns);
    assert(turns.push(turn).drop_last() =~= turns);
}

/// However the two directions take turns, the announcement of a blocked interface that was
/// completed on a registry is not written to the client, even where the client gave the
/// registry's id to another object.
pub proof fn blocked_global_is_not_written(rules: Rules, turns: Seq<Turn>, turn: Turn)
    requires
        ({
            let s = after_turns(SessionView::fresh(), rules, turns);
            &&& turn.direction == Direction::ServerToClient
            &&& completed(s.down, turn.event) matches Some(packet)
            &&& s.connection.registries.contains(packet.id)
            &&& packet.opcode == 0
            &&& announces_blocked(packet, rules)
        }),
    ensures
        after_turns(SessionView::fresh(), rules, turns.push(turn)).down.phase is Closing,
{
    directions_stay(rules, turns);
    assert(turns.push(turn).drop_last() =~= turns);
}

/// Whether each event is one that the action before it can bring.
pub open spec fn in_order(s: SessionView, rules: Rules, turns: Seq<Turn>) -> bool
    decreases turns.len(),
{
    turns.len() > 0 ==> {
        let before = turns.drop_last();
        let turn = turns.last();
        &&& in_order(s, rules, before)
        &&& after_turns(s, rules, before).relay(turn.direction).expects(turn.event)
    }
}

/// All the file descriptors that came in a direction.
pub open spec fn all_received(turns: Seq<Turn>, direction: Direction) -> Seq<i32>
    decreases turns.len(),
{
    if turns.len() == 0 {
        Seq::empty()
    } else if turns.last().direction == direction {
        all_received(turns.drop_last(), direction) + received(turns.last().event)
    } else {
        all_received(turns.drop_last(), direction)
    }
}

/// All the file descriptors that were closed in a direction.
pub open spec fn all_closed(
    s: SessionView,
    rules: Rules,
    turns: Seq<Turn>,
    direction: Direction,
) -> Seq<i32>
    decreases turns.len(),
{
    if turns.len() == 0 {
        Seq::empty()
    } else if turns.last().direction == direction {
        all_closed(s, rules, turns.drop_last(), direction) + closed(
            after_turns(s, rules, turns.drop_last()).relay(direction),
            turns.last().event,
        )
    } else {
        all_closed(s, rules, turns.drop_last(), direction)
    }
}

/// However the two directions take turns, the file descriptors that came in a direction
/// are those that were closed, in the same order and each once, and then those that its
/// relay still holds.
pub proof fn no_descriptor_is_lost(rules: Rules, turns: Seq<Turn>, direction: Direction)
    requires
        in_order(SessionView::fresh(), rules, turns),
    ensures
        all_received(turns, direction) == all_closed(
            SessionView::fresh(),
            rules,
            turns,
            direction,
        ) + after_turns(SessionView::fresh(), rules, turns).relay(direction).fds,
    decreases turns.len(),
{
    let s = SessionView::fresh();
    if turns.len() > 0 {
        let before = turns.drop_last();
        let turn = turns.last();
        no_descriptor_is_lost(rules, before, direction);
        if turn.direction == direction {
            let then = after_turns(s, rules, before);
            let relay = then.relay(direction);
            let gone = all_closed(s, rules, before, direction);
            descriptors_are_conserved(relay, then.connection, rules, turn.event);
            let held = relay.next(then.connection, rules, turn.event).0.fds;
            assert((gone + relay.fds) + received(turn.event) =~= gone + (relay.fds + received(
                turn.event,
            )));
            assert(gone + (closed(relay, turn.event) + held) =~= (gone + closed(relay, turn.event))
                + held);
        }
    } else {
        assert(Seq::<i32>::empty() + Seq::<i32>::empty() =~= Seq::empty());
    }
}

} // verus!
