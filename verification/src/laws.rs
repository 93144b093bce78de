//! What holds of a connection as a whole.
use crate::config::Rules;
use crate::connection::{
    parse_bind, parse_global, replaced, replacement, rewritten, ConnectionView, ObjType,
    DISPLAY_ID, MAX_XDG_VERSION,
};
use crate::proto::{
    padded, parse_string, parse_uint, string_bytes, string_round_trip, PacketView,
};
use vstd::prelude::*;
use vstd::utf8::*;

verus! {

/// A message, and who sent it.
pub enum Message {
    Client(PacketView),
    Server(PacketView),
}

/// The connection after a message.
pub open spec fn after(c: ConnectionView, message: Message, rules: Rules) -> ConnectionView {
    match message {
        Message::Client(packet) => c.from_client(packet, rules).0,
        Message::Server(packet) => c.from_server(packet, rules).0,
    }
}

/// The connection after some traffic.
pub open spec fn after_all(
    c: ConnectionView,
    traffic: Seq<Message>,
    rules: Rules,
) -> ConnectionView
    decreases traffic.len(),
{
    if traffic.len() == 0 {
        c
    } else {
        after_all(after(c, traffic[0], rules), traffic.drop_first(), rules)
    }
}

// ---------------------------------------------------------------------------
// Blocking
// ---------------------------------------------------------------------------

/// Whether a bind request asks for a blocked interface.
pub open spec fn binds_blocked(packet: PacketView, rules: Rules) -> bool {
    parse_bind(packet.body) matches Ok(bind) && bind.interface matches Some(name) && rules.blocks(
        name,
    )
}

/// Whether an announcement tells of a blocked interface.
pub open spec fn announces_blocked(packet: PacketView, rules: Rules) -> bool {
    parse_global(packet.body) matches Ok(global) && global.interface matches Some(name)
        && rules.blocks(name)
}

/// A request to bind a blocked interface is never passed on, and no message to the object
/// that it names will be.
pub proof fn blocked_bind_is_discarded(c: ConnectionView, packet: PacketView, rules: Rules)
    requires
        c.object(packet.id) == Some(ObjType::Registry),
        packet.opcode == 0,
        binds_blocked(packet, rules),
    ensures
        c.from_client(packet, rules).1 == Ok::<Option<PacketView>, Seq<char>>(None),
        !c.blocked.contains(packet.id) ==> c.from_client(packet, rules).0.blocked
            == c.blocked.insert(parse_bind(packet.body)->Ok_0.id),
{
}

/// A message to a blocked object is discarded and changes nothing.
pub proof fn blocked_object_is_mute(c: ConnectionView, packet: PacketView, rules: Rules)
    requires
        c.blocked.contains(packet.id),
    ensures
        c.from_client(packet, rules) == (c, Ok::<Option<PacketView>, Seq<char>>(None)),
{
}

/// An object that is blocked stays blocked, whatever is said on the connection.
pub proof fn blocked_stays_blocked(
    c: ConnectionView,
    traffic: Seq<Message>,
    rules: Rules,
    id: u32,
)
    requires
        c.blocked.contains(id),
    ensures
        after_all(c, traffic, rules).blocked.contains(id),
    decreases traffic.len(),
{
    if traffic.len() > 0 {
        blocked_stays_blocked(after(c, traffic[0], rules), traffic.drop_first(), rules, id);
    }
}

/// Once a client asked to bind a blocked interface, no message to the object it named is
/// passed on, whatever was said in between.
pub proof fn blocked_interface_is_out_of_reach(
    c: ConnectionView,
    request: PacketView,
    traffic: Seq<Message>,
    packet: PacketView,
    rules: Rules,
)
    requires
        c.object(request.id) == Some(ObjType::Registry),
        !c.blocked.contains(request.id),
        request.opcode == 0,
        binds_blocked(request, rules),
        parse_bind(request.body)->Ok_0.id == packet.id,
    ensures
        ({
            let later = after_all(c.from_client(request, rules).0, traffic, rules);
            later.from_client(packet, rules) == (later, Ok::<Option<PacketView>, Seq<char>>(None))
        }),
{
    let bound = c.from_client(request, rules).0;
    blocked_stays_blocked(bound, traffic, rules, packet.id);
}

/// The announcement of a global on a registry is passed on exactly where its interface is
/// not blocked.
pub proof fn blocked_global_is_discarded(c: ConnectionView, packet: PacketView, rules: Rules)
    requires
        c.registries.contains(packet.id),
        packet.opcode == 0,
        parse_global(packet.body) is Ok,
    ensures
        c.from_server(packet, rules).1 == Ok::<bool, Seq<char>>(
            !announces_blocked(packet, rules),
        ),
{
}

/// Nothing but an announcement is withheld from the client.
pub proof fn only_globals_are_withheld(c: ConnectionView, packet: PacketView, rules: Rules)
    ensures
        c.from_server(packet, rules).1 == Ok::<bool, Seq<char>>(false) ==> {
            &&& c.registries.contains(packet.id)
            &&& packet.opcode == 0
            &&& announces_blocked(packet, rules)
        },
{
}

/// With nothing blocked, every message that is not in error is passed on, either way.
pub proof fn nothing_blocked_nothing_lost(c: ConnectionView, packet: PacketView, rules: Rules)
    requires
        rules.block.len() == 0,
        !c.blocked.contains(packet.id),
    ensures
        c.from_client(packet, rules).1 != Ok::<Option<PacketView>, Seq<char>>(None),
        c.from_server(packet, rules).1 != Ok::<bool, Seq<char>>(false),
        c.from_client(packet, rules).0.blocked == c.blocked,
{
}

// ---------------------------------------------------------------------------
// Passing on
// ---------------------------------------------------------------------------

/// A message that is passed on keeps its object and its opcode.
pub proof fn address_is_kept(c: ConnectionView, packet: PacketView, rules: Rules)
    ensures
        c.from_client(packet, rules).1 matches Ok(Some(q)) ==> q.id == packet.id && q.opcode
            == packet.opcode,
{
}

/// Only the title and the app id of a tracked toplevel are ever changed, and only where
/// the settings ask for it.
pub proof fn only_toplevels_are_rewritten(c: ConnectionView, packet: PacketView, rules: Rules)
    ensures
        c.from_client(packet, rules).1 matches Ok(Some(q)) && q != packet ==> {
            &&& c.object(packet.id) matches Some(ObjType::XdgToplevel { .. })
            &&& replacement(packet.opcode, rules) is Some
            &&& packet.opcode == 2 || packet.opcode == 3
        },
{
}

/// With neither a title nor an app id set, what is passed on is passed on unchanged.
pub proof fn plain_proxy_changes_nothing(c: ConnectionView, packet: PacketView, rules: Rules)
    requires
        rules.title is None,
        rules.app_id is None,
    ensures
        c.from_client(packet, rules).1 matches Ok(Some(q)) ==> q == packet,
{
}

/// A message to an object that is not tracked is passed on unchanged and changes nothing.
pub proof fn unknown_object_passes(c: ConnectionView, packet: PacketView, rules: Rules)
    requires
        c.object(packet.id) is None,
        !c.blocked.contains(packet.id),
    ensures
        c.from_client(packet, rules) == (c, Ok::<Option<PacketView>, Seq<char>>(Some(packet))),
{
}

/// The compositor reads the text that the settings ask for: in the place of the client's
/// text, or before it. The message has to hold that text.
pub proof fn rewritten_text_is_read_back(
    c: ConnectionView,
    packet: PacketView,
    rules: Rules,
    ver: u32,
)
    requires
        c.object(packet.id) == Some(ObjType::XdgToplevel { ver }),
        ver <= MAX_XDG_VERSION,
        !c.blocked.contains(packet.id),
        replacement(packet.opcode, rules) is Some,
        parse_string(packet.body).0 is Ok,
        ({
            let (text, prefix) = replacement(packet.opcode, rules)->0;
            let shown = replaced(text, prefix, parse_string(packet.body).0->Ok_0);
            padded(encode_utf8(shown).len() + 1) < 0x1_0000_0000
        }),
    ensures
        ({
            let (text, prefix) = replacement(packet.opcode, rules)->0;
            let shown = replaced(text, prefix, parse_string(packet.body).0->Ok_0);
            &&& c.from_client(packet, rules).1 matches Ok(Some(q))
            &&& parse_string(q.body) == (
                Ok::<Option<Seq<char>>, Seq<char>>(Some(shown)),
                Seq::<u8>::empty(),
            )
        }),
{
    let (text, prefix) = replacement(packet.opcode, rules)->0;
    let shown = replaced(text, prefix, parse_string(packet.body).0->Ok_0);
    string_round_trip(shown, Seq::empty());
    assert(string_bytes(shown) + Seq::<u8>::empty() =~= string_bytes(shown));
}

/// Which interfaces are blocked makes no difference to a toplevel's messages.
pub proof fn blocking_leaves_toplevels_alone(
    c: ConnectionView,
    packet: PacketView,
    rules: Rules,
    block: Seq<Seq<char>>,
    ver: u32,
)
    requires
        c.object(packet.id) == Some(ObjType::XdgToplevel { ver }),
    ensures
        c.from_client(packet, rules) == c.from_client(packet, Rules { block, ..rules }),
{
    assert(rewritten(packet, rules) == rewritten(packet, Rules { block, ..rules }));
}

/// A message from the client that is in error changes nothing.
pub proof fn client_error_changes_nothing(c: ConnectionView, packet: PacketView, rules: Rules)
    ensures
        c.from_client(packet, rules).1 is Err ==> c.from_client(packet, rules).0 == c,
{
}

// ---------------------------------------------------------------------------
// Tracking
// ---------------------------------------------------------------------------

/// Whether the surfaces and toplevels that are tracked have versions that are understood.
pub open spec fn understood(c: ConnectionView) -> bool {
    forall|id: u32|
        c.objects.contains_key(id) && (c.objects[id] is XdgSurface || c.objects[id] is XdgToplevel)
            ==> (#[trigger] c.objects[id]).unsupported() is None
}

/// Surfaces and toplevels are tracked only with versions that are understood, whatever is
/// said on a connection from its start.
pub proof fn versions_are_understood(traffic: Seq<Message>, rules: Rules)
    ensures
        understood(after_all(ConnectionView::fresh(), traffic, rules)),
{
    versions_stay_understood(ConnectionView::fresh(), traffic, rules);
}

/// Where the surfaces and toplevels that are tracked have versions that are understood,
/// they still have after any traffic.
pub proof fn versions_stay_understood(c: ConnectionView, traffic: Seq<Message>, rules: Rules)
    requires
        understood(c),
    ensures
        understood(after_all(c, traffic, rules)),
    decreases traffic.len(),
{
    if traffic.len() > 0 {
        let next = after(c, traffic[0], rules);
        assert(understood(next));
        versions_stay_understood(next, traffic.drop_first(), rules);
    }
}

/// An object becomes tracked as an xdg_wm_base only where the client bound the global that
/// was announced under that name; it then has the version that the client asked for.
pub proof fn only_the_announced_global_is_tracked(
    c: ConnectionView,
    packet: PacketView,
    rules: Rules,
    id: u32,
)
    requires
        !(c.object(id) matches Some(ObjType::XdgWmBase { .. })),
    ensures
        c.from_client(packet, rules).0.object(id) matches Some(ObjType::XdgWmBase { ver }) ==> {
            &&& parse_bind(packet.body) matches Ok(bind)
            &&& bind.id == id
            &&& bind.version == ver
            &&& c.xdg_wm_base matches Some((type_id, _)) && type_id == bind.type_id
        },
{
}

/// After the compositor deleted an object, messages to it are passed on unchanged.
pub proof fn deleted_object_passes(
    c: ConnectionView,
    deletion: PacketView,
    packet: PacketView,
    rules: Rules,
)
    requires
        deletion.id == DISPLAY_ID,
        deletion.opcode == 1,
        parse_uint(deletion.body).0 == Ok::<u32, Seq<char>>(packet.id),
        !c.blocked.contains(packet.id),
    ensures
        ({
            let (left, passed) = c.from_server(deletion, rules);
            &&& passed == Ok::<bool, Seq<char>>(true)
            &&& left.object(packet.id) is None
            &&& left.from_client(packet, rules) == (
                left,
                Ok::<Option<PacketView>, Seq<char>>(Some(packet)),
            )
        }),
{
}

/// Whether the message is the compositor's word that the id is free again.
pub open spec fn deletes(message: Message, id: u32) -> bool {
    message matches Message::Server(packet) && {
        &&& packet.id == DISPLAY_ID
        &&& packet.opcode == 1
        &&& parse_uint(packet.body).0 == Ok::<u32, Seq<char>>(id)
    }
}

/// A registry is listened to until the compositor deletes it, whatever the client does.
pub proof fn registry_until_deleted(
    c: ConnectionView,
    traffic: Seq<Message>,
    rules: Rules,
    id: u32,
)
    requires
        c.registries.contains(id),
        forall|k: int| 0 <= k < traffic.len() ==> !deletes(#[trigger] traffic[k], id),
    ensures
        after_all(c, traffic, rules).registries.contains(id),
    decreases traffic.len(),
{
    if traffic.len() > 0 {
        let rest = traffic.drop_first();
        assert(!deletes(traffic[0], id));
        assert(forall|k: int| 0 <= k < rest.len() ==> rest[k] == traffic[k + 1]);
        registry_until_deleted(after(c, traffic[0], rules), rest, rules, id);
    }
}

/// Each registry that the client asks for has its blocked announcements discarded, however
/// many there were before and whatever is said in between, until the compositor deletes it.
pub proof fn every_registry_is_filtered(
    c: ConnectionView,
    request: PacketView,
    traffic: Seq<Message>,
    packet: PacketView,
    rules: Rules,
)
    requires
        c.object(request.id) == Some(ObjType::Display),
        !c.blocked.contains(request.id),
        request.opcode == 1,
        parse_uint(request.body).0 == Ok::<u32, Seq<char>>(packet.id),
        forall|k: int| 0 <= k < traffic.len() ==> !deletes(#[trigger] traffic[k], packet.id),
        packet.opcode == 0,
        announces_blocked(packet, rules),
    ensures
        after_all(c.from_client(request, rules).0, traffic, rules).from_server(packet, rules).1
            == Ok::<bool, Seq<char>>(false),
{
    registry_until_deleted(c.from_client(request, rules).0, traffic, rules, packet.id);
}

/// Whether every object that is tracked as a registry is listened to.
pub open spec fn listens_to_registries(c: ConnectionView) -> bool {
    forall|id: u32|
        c.objects.contains_key(id) && (#[trigger] c.objects[id]) is Registry
            ==> c.registries.contains(id)
}

/// Every object that is tracked as a registry is listened to, whatever is said on a
/// connection from its start.
pub proof fn registries_are_listened_to(traffic: Seq<Message>, rules: Rules)
    ensures
        listens_to_registries(after_all(ConnectionView::fresh(), traffic, rules)),
{
    registries_stay_listened_to(ConnectionView::fresh(), traffic, rules);
}

/// Where every object that is tracked as a registry is listened to, it still is after any
/// traffic.
pub proof fn registries_stay_listened_to(c: ConnectionView, traffic: Seq<Message>, rules: Rules)
    requires
        listens_to_registries(c),
    ensures
        listens_to_registries(after_all(c, traffic, rules)),
    decreases traffic.len(),
{
    if traffic.len() > 0 {
        let next = after(c, traffic[0], rules);
        assert(listens_to_registries(next));
        registries_stay_listened_to(next, traffic.drop_first(), rules);
    }
}

/// The ids that the client gives to a registry, an xdg_wm_base, its surface and its
/// toplevel are tracked one after the other, with the version of the xdg_wm_base.
pub proof fn object_chain_is_tracked(
    c: ConnectionView,
    packet: PacketView,
    rules: Rules,
    parent: ObjType,
    child: ObjType,
    id: u32,
)
    requires
        !c.blocked.contains(packet.id),
        parse_uint(packet.body).0 == Ok::<u32, Seq<char>>(id),
        c.object(packet.id) == Some(parent),
        parent.unsupported() is None,
        parent.creates(packet.opcode) matches Some((made, _)) && made == child,
    ensures
        c.from_client(packet, rules) == (
            c.track(id, child),
            Ok::<Option<PacketView>, Seq<char>>(Some(packet)),
        ),
{
}

/// Whether a request gives the id to an object that is tracked from then on: it makes an
/// object, or it binds the xdg_wm_base.
pub open spec fn gives_id(
    c: ConnectionView,
    packet: PacketView,
    rules: Rules,
    id: u32,
) -> bool {
    &&& !c.blocked.contains(packet.id)
    &&& c.object(packet.id) matches Some(object)
    &&& object.unsupported() is None
    &&& {
        ||| {
            &&& object.creates(packet.opcode) is Some
            &&& parse_uint(packet.body).0 == Ok::<u32, Seq<char>>(id)
        }
        ||| {
            &&& object is Registry
            &&& packet.opcode == 0
            &&& parse_bind(packet.body) matches Ok(bind)
            &&& bind.id == id
            &&& bind.interface matches Some(name) && !rules.blocks(name)
            &&& c.xdg_wm_base matches Some((type_id, _)) && type_id == bind.type_id
        }
    }
}

/// Whether a message, as things stand, frees the id or gives it to another object.
pub open spec fn reassigns(c: ConnectionView, message: Message, rules: Rules, id: u32) -> bool {
    match message {
        Message::Client(packet) => gives_id(c, packet, rules, id),
        Message::Server(_) => deletes(message, id),
    }
}

/// What an id stands for changes only with a message that frees it or gives it away.
pub proof fn only_reassigned_ids_change(
    c: ConnectionView,
    message: Message,
    rules: Rules,
    id: u32,
)
    requires
        !reassigns(c, message, rules, id),
    ensures
        after(c, message, rules).object(id) == c.object(id),
{
}

/// An object stays tracked as what it is, and an id that is not tracked stays so, until the
/// compositor deletes it or the client gives the id to another.
pub proof fn tracked_until_deleted_or_replaced(
    c: ConnectionView,
    traffic: Seq<Message>,
    rules: Rules,
    id: u32,
)
    requires
        forall|k: int|
            0 <= k < traffic.len() ==> !reassigns(
                after_all(c, traffic.take(k), rules),
                #[trigger] traffic[k],
                rules,
                id,
            ),
    ensures
        after_all(c, traffic, rules).object(id) == c.object(id),
    decreases traffic.len(),
{
    if traffic.len() > 0 {
        let next = after(c, traffic[0], rules);
        let rest = traffic.drop_first();
        assert(traffic.take(0) =~= Seq::empty());
        assert(!reassigns(after_all(c, traffic.take(0), rules), traffic[0], rules, id));
        only_reassigned_ids_change(c, traffic[0], rules, id);
        assert forall|k: int| 0 <= k < rest.len() implies !reassigns(
            after_all(next, rest.take(k), rules),
            #[trigger] rest[k],
            rules,
            id,
        ) by {
            assert(rest[k] == traffic[k + 1]);
            assert(traffic.take(k + 1).drop_first() =~= rest.take(k));
            assert(traffic.take(k + 1)[0] == traffic[0]);
        }
        tracked_until_deleted_or_replaced(next, rest, rules, id);
    }
}

} // verus!
