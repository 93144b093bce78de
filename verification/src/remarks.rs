//! What a proxy that was asked for debug messages tells of each message.
use crate::config::{Args, Rules};
use crate::connection::{
    parse_bind, parse_global, read_bind, read_global, replacement, rewrite, rewritten, BindView,
    Connection, ConnectionView, GlobalView, ObjType, MAX_XDG_VERSION,
};
use crate::filter_laws::{announces, carrying, client_text, forbidden, reaches, requests};
use crate::interfaces::is_blocked_interface;
use crate::laws::{announces_blocked, binds_blocked};
use crate::proto::{Packet, PacketView};
use crate::relay::{completed, Direction, EventView, RelayView};
use vstd::prelude::*;
use vstd::slice::slice_to_vec;

verus! {

/// Something worth telling.
#[derive(Debug, PartialEq)]
pub enum Remark {
    /// The client sent a message, to an object that may be tracked, with so many file
    /// descriptors.
    FromClient { object: Option<ObjType>, fds: usize, packet: Packet },
    /// The compositor sent a message with so many file descriptors.
    FromServer { fds: usize, packet: Packet },
    /// The client asked to bind a blocked interface.
    BlockedBind(String),
    /// The compositor announced a blocked interface.
    BlockedGlobal(String),
    /// A toplevel's title was changed.
    ModifiedTitle(Packet),
    /// A toplevel's app id was changed.
    ModifiedAppId(Packet),
}

/// Something worth telling.
pub enum RemarkView {
    FromClient { object: Option<ObjType>, fds: nat, packet: PacketView },
    FromServer { fds: nat, packet: PacketView },
    BlockedBind(Seq<char>),
    BlockedGlobal(Seq<char>),
    ModifiedTitle(PacketView),
    ModifiedAppId(PacketView),
}

impl View for Remark {
    type V = RemarkView;

    open spec fn view(&self) -> RemarkView {
        match *self {
            Remark::FromClient { object, fds, packet } => RemarkView::FromClient {
                object,
                fds: fds as nat,
                packet: packet@,
            },
            Remark::FromServer { fds, packet } => RemarkView::FromServer {
                fds: fds as nat,
                packet: packet@,
            },
            Remark::BlockedBind(name) => RemarkView::BlockedBind(name@),
            Remark::BlockedGlobal(name) => RemarkView::BlockedGlobal(name@),
            Remark::ModifiedTitle(packet) => RemarkView::ModifiedTitle(packet@),
            Remark::ModifiedAppId(packet) => RemarkView::ModifiedAppId(packet@),
        }
    }
}

/// What some remarks tell.
pub open spec fn told(remarks: Seq<Remark>) -> Seq<RemarkView> {
    remarks.map_values(|r: Remark| r@)
}

/// What is told of a decision on a message from the client.
pub open spec fn client_decision(
    object: Option<ObjType>,
    packet: PacketView,
    rules: Rules,
) -> Option<RemarkView> {
    match object {
        Some(ObjType::Registry) if packet.opcode == 0 && binds_blocked(packet, rules) => Some(
            RemarkView::BlockedBind(parse_bind(packet.body)->Ok_0.interface->0),
        ),
        Some(ObjType::XdgToplevel { .. }) if object->0.unsupported() is None && replacement(
            packet.opcode,
            rules,
        ) is Some => match rewritten(packet, rules) {
            Ok(q) if packet.opcode == 2 => Some(RemarkView::ModifiedTitle(q)),
            Ok(q) => Some(RemarkView::ModifiedAppId(q)),
            Err(_) => None,
        },
        _ => None,
    }
}

/// What is told of a message from the client. Nothing is told of those to blocked objects.
pub open spec fn told_of_client(
    c: ConnectionView,
    packet: PacketView,
    rules: Rules,
    fds: nat,
) -> Seq<RemarkView> {
    let object = c.object(packet.id);
    let received = seq![RemarkView::FromClient { object, fds, packet }];
    if c.blocked.contains(packet.id) {
        Seq::empty()
    } else {
        match client_decision(object, packet, rules) {
            Some(remark) => received.push(remark),
            None => received,
        }
    }
}

/// What is told of a message from the compositor.
pub open spec fn told_of_server(
    c: ConnectionView,
    packet: PacketView,
    rules: Rules,
    fds: nat,
) -> Seq<RemarkView> {
    let received = seq![RemarkView::FromServer { fds, packet }];
    if c.registries.contains(packet.id) && packet.opcode == 0 && announces_blocked(packet, rules) {
        received.push(RemarkView::BlockedGlobal(parse_global(packet.body)->Ok_0.interface->0))
    } else {
        received
    }
}

/// What is told of an event: of the message that it completes, if it does.
pub open spec fn told_of(
    c: ConnectionView,
    relay: RelayView,
    direction: Direction,
    rules: Rules,
    event: EventView,
) -> Seq<RemarkView> {
    match (completed(relay, event), event) {
        (Some(packet), EventView::Read { fds, .. }) => match direction {
            Direction::ClientToServer => told_of_client(c, packet, rules, (relay.fds + fds).len()),
            Direction::ServerToClient => told_of_server(c, packet, rules, (relay.fds + fds).len()),
        },
        _ => Seq::empty(),
    }
}

/// A blocked bind is told of exactly where it is discarded, and a changed message is told of
/// as it is passed on.
pub proof fn client_remarks_are_true(c: ConnectionView, packet: PacketView, rules: Rules)
    requires
        !c.blocked.contains(packet.id),
    ensures
        ({
            let remark = client_decision(c.object(packet.id), packet, rules);
            let decision = c.from_client(packet, rules).1;
            &&& (remark is Some && remark->0 is BlockedBind) <==> decision == Ok::<
                Option<PacketView>,
                Seq<char>,
            >(None)
            &&& remark matches Some(RemarkView::ModifiedTitle(q)) ==> decision == Ok::<
                Option<PacketView>,
                Seq<char>,
            >(Some(q))
            &&& remark matches Some(RemarkView::ModifiedAppId(q)) ==> decision == Ok::<
                Option<PacketView>,
                Seq<char>,
            >(Some(q))
            &&& decision matches Ok(Some(q)) ==> q == packet || remark is Some
        }),
{
}

/// A blocked global is told of exactly where it is discarded.
pub proof fn server_remarks_are_true(
    c: ConnectionView,
    packet: PacketView,
    rules: Rules,
    fds: nat,
)
    ensures
        told_of_server(c, packet, rules, fds).len() == 2 <==> c.from_server(packet, rules).1
            == Ok::<bool, Seq<char>>(false),
{
}

/// Of a message to a blocked object nothing is told. Of any other message of the client it is
/// told that it came, to which object, with how many file descriptors and with what in it.
pub proof fn client_messages_are_told_of(
    c: ConnectionView,
    packet: PacketView,
    rules: Rules,
    fds: nat,
)
    ensures
        ({
            let r = told_of_client(c, packet, rules, fds);
            &&& c.blocked.contains(packet.id) ==> r.len() == 0
            &&& !c.blocked.contains(packet.id) ==> {
                &&& 1 <= r.len() <= 2
                &&& r[0] == (RemarkView::FromClient { object: c.object(packet.id), fds, packet })
            }
        }),
{
}

/// What else is told of a message of the client: the interface where a bind was discarded, and
/// the message as it is passed on where a toplevel's title or app id was replaced; of any
/// other message nothing.
pub proof fn client_decisions_are_told_of(
    c: ConnectionView,
    packet: PacketView,
    rules: Rules,
    fds: nat,
    bind: BindView,
    ver: u32,
    setting: Seq<char>,
    text: Seq<char>,
)
    ensures
        ({
            let r = told_of_client(c, packet, rules, fds);
            let withheld = requests(c, packet, bind) && forbidden(rules, bind.interface);
            let toplevel = reaches(c, packet, ObjType::XdgToplevel { ver }) && ver <= 6
                && client_text(packet, text);
            &&& withheld ==> r.len() == 2 && r[1] == RemarkView::BlockedBind(bind.interface->0)
            &&& toplevel && packet.opcode == 2 && rules.title == Some(setting) ==> r.len() == 2
                && r[1] == RemarkView::ModifiedTitle(
                carrying(
                    packet,
                    if rules.prefix_title {
                        setting + text
                    } else {
                        setting
                    },
                ),
            )
            &&& toplevel && packet.opcode == 3 && rules.app_id == Some(setting) ==> r.len() == 2
                && r[1] == RemarkView::ModifiedAppId(
                carrying(
                    packet,
                    if rules.prefix_app_id {
                        setting + text
                    } else {
                        setting
                    },
                ),
            )
        }),
{
    if requests(c, packet, bind) && forbidden(rules, bind.interface) {
        assert(rules.block.contains(bind.interface->0));
    }
    assert(setting + Seq::<char>::empty() =~= setting);
}

/// More is told of a message of the client only where a bind was discarded, or a toplevel's
/// text was replaced.
pub proof fn nothing_more_is_told_of_clients(
    c: ConnectionView,
    packet: PacketView,
    rules: Rules,
    fds: nat,
)
    requires
        told_of_client(c, packet, rules, fds).len() == 2,
    ensures
        ({
            let passed = c.from_client(packet, rules).1;
            let object = c.object(packet.id);
            ||| passed == Ok::<Option<PacketView>, Seq<char>>(None)
            ||| {
                &&& object matches Some(ObjType::XdgToplevel { .. })
                &&& passed is Ok
                &&& packet.opcode == 2 && rules.title is Some || packet.opcode == 3
                    && rules.app_id is Some
            }
        }),
{
    client_remarks_are_true(c, packet, rules);
}

/// Of a message of the compositor it is told that it came, with how many file descriptors and
/// with what in it, and, where it was withheld, which interface it announced.
pub proof fn server_messages_are_told_of(
    c: ConnectionView,
    packet: PacketView,
    rules: Rules,
    fds: nat,
    global: GlobalView,
)
    ensures
        ({
            let r = told_of_server(c, packet, rules, fds);
            &&& 1 <= r.len() <= 2
            &&& r[0] == (RemarkView::FromServer { fds, packet })
            &&& announces(c, packet, global) && forbidden(rules, global.interface) ==> r.len() == 2
                && r[1] == RemarkView::BlockedGlobal(global.interface->0)
            &&& c.from_server(packet, rules).1 != Ok::<bool, Seq<char>>(false) ==> r.len() == 1
        }),
{
    if announces(c, packet, global) && forbidden(rules, global.interface) {
        assert(rules.block.contains(global.interface->0));
    }
    server_remarks_are_true(c, packet, rules, fds);
}

/// Only an event that completes a message is told of. The file descriptors that are counted
/// are those that the relay held and those that came with the event.
pub proof fn complete_messages_are_told_of(
    c: ConnectionView,
    relay: RelayView,
    rules: Rules,
    event: EventView,
    packet: PacketView,
    bytes: Seq<u8>,
    fds: Seq<i32>,
)
    ensures
        completed(relay, event) is None ==> told_of(
            c,
            relay,
            Direction::ClientToServer,
            rules,
            event,
        ).len() == 0 && told_of(c, relay, Direction::ServerToClient, rules, event).len() == 0,
        event == (EventView::Read { bytes, fds }) && completed(relay, event) == Some(packet) ==> {
            &&& told_of(c, relay, Direction::ClientToServer, rules, event) == told_of_client(
                c,
                packet,
                rules,
                relay.fds.len() + fds.len(),
            )
            &&& told_of(c, relay, Direction::ServerToClient, rules, event) == told_of_server(
                c,
                packet,
                rules,
                relay.fds.len() + fds.len(),
            )
        },
{
}

fn copy_of(packet: &Packet) -> (r: Packet)
    ensures
        r@ == packet@,
{
    Packet {
        id: packet.id,
        opcode: packet.opcode,
        body: slice_to_vec(packet.body.as_slice()),
    }
}

fn decision_remark(object: Option<ObjType>, packet: &Packet, args: &Args) -> (r: Option<Remark>)
    ensures
        match r {
            Some(remark) => client_decision(object, packet@, args@) == Some(remark@),
            None => client_decision(object, packet@, args@) is None,
        },
{
    match object {
        Some(ObjType::Registry) => {
            if packet.opcode == 0 {
                if let Ok(bind) = read_bind(packet.body.as_slice()) {
                    if let Some(name) = bind.interface {
                        if is_blocked_interface(name.as_str(), args.block.as_slice()) {
                            return Some(Remark::BlockedBind(name));
                        }
                    }
                }
            }
            None
        },
        Some(ObjType::XdgToplevel { ver }) => {
            let wanted = match packet.opcode {
                2 => args.title.is_some(),
                3 => args.app_id.is_some(),
                _ => false,
            };
            if !wanted || ver > MAX_XDG_VERSION {
                return None;
            }
            let mut changed = copy_of(packet);
            match rewrite(&mut changed, args) {
                Ok(()) => if packet.opcode == 2 {
                    Some(Remark::ModifiedTitle(changed))
                } else {
                    Some(Remark::ModifiedAppId(changed))
                },
                Err(_) => None,
            }
        },
        _ => None,
    }
}

/// What to tell of a message from the client, with so many file descriptors.
pub fn client_remarks(c: &Connection, packet: Packet, args: &Args, fds: usize) -> (r: Vec<Remark>)
    ensures
        told(r@) == told_of_client(c@, packet@, args@, fds as nat),
{
    let mut out: Vec<Remark> = Vec::new();
    assert(told(out@) =~= Seq::empty());
    if c.is_blocked(packet.id) {
        return out;
    }
    let object = c.object(packet.id);
    let decision = decision_remark(object, &packet, args);
    let ghost received = RemarkView::FromClient { object, fds: fds as nat, packet: packet@ };
    out.push(Remark::FromClient { object, fds, packet });
    assert(told(out@) =~= seq![received]);
    if let Some(remark) = decision {
        out.push(remark);
        assert(told(out@) =~= seq![received].push(remark@));
    }
    out
}

/// What to tell of a message from the compositor, with so many file descriptors.
pub fn server_remarks(c: &Connection, packet: Packet, args: &Args, fds: usize) -> (r: Vec<Remark>)
    ensures
        told(r@) == told_of_server(c@, packet@, args@, fds as nat),
{
    let mut blocked: Option<String> = None;
    if c.is_registry(packet.id) && packet.opcode == 0 {
        if let Ok(global) = read_global(packet.body.as_slice()) {
            if let Some(name) = global.interface {
                if is_blocked_interface(name.as_str(), args.block.as_slice()) {
                    blocked = Some(name);
                }
            }
        }
    }
    let mut out: Vec<Remark> = Vec::new();
    let ghost received = RemarkView::FromServer { fds: fds as nat, packet: packet@ };
    out.push(Remark::FromServer { fds, packet });
    assert(told(out@) =~= seq![received]);
    if let Some(name) = blocked {
        out.push(Remark::BlockedGlobal(name));
        assert(told(out@) =~= seq![received].push(RemarkView::BlockedGlobal(name@)));
    }
    out
}

} // verus!
