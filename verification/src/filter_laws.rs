//! What each message does: which objects it makes known, what it blocks, what is passed on
//! of it, and when it is in error.
use crate::config::Rules;
use crate::connection::{parse_bind, parse_global, BindView, ConnectionView, GlobalView, ObjType};
use crate::context::decimal;
use crate::laws::{
    after, after_all, reassigns, tracked_until_deleted_or_replaced, Message,
};
use crate::proto::{
    padded, parse_string, parse_uint, string_bytes, string_round_trip, u32_bytes, uint_round_trip,
    PacketView,
};
use vstd::prelude::*;
use vstd::utf8::*;

verus! {

/// The first argument of a message, where it is a number.
pub open spec fn names_id(packet: PacketView, id: u32) -> bool {
    parse_uint(packet.body).0 == Ok::<u32, Seq<char>>(id)
}

/// Whether a message from the client reaches an object of this type.
pub open spec fn reaches(c: ConnectionView, packet: PacketView, object: ObjType) -> bool {
    &&& !c.blocked.contains(packet.id)
    &&& c.objects.contains_key(packet.id)
    &&& c.objects[packet.id] == object
}

/// Whether a message is a bind request on a registry, and which.
pub open spec fn requests(c: ConnectionView, packet: PacketView, bind: BindView) -> bool {
    &&& reaches(c, packet, ObjType::Registry)
    &&& packet.opcode == 0
    &&& parse_bind(packet.body) == Ok::<BindView, Seq<char>>(bind)
}

/// Whether a message is an announcement on a registry, and which.
pub open spec fn announces(c: ConnectionView, packet: PacketView, global: GlobalView) -> bool {
    &&& c.registries.contains(packet.id)
    &&& packet.opcode == 0
    &&& parse_global(packet.body) == Ok::<GlobalView, Seq<char>>(global)
}

/// Whether the name is on the block list.
pub open spec fn forbidden(rules: Rules, name: Option<Seq<char>>) -> bool {
    name matches Some(n) && exists|i: int| 0 <= i < rules.block.len() && rules.block[i] == n
}

/// What is passed on of a message from the client.
pub open spec fn passed_up(c: ConnectionView, packet: PacketView, rules: Rules) -> Result<
    Option<PacketView>,
    Seq<char>,
> {
    c.from_client(packet, rules).1
}

/// Whether a message from the compositor is passed on.
pub open spec fn passed_down(c: ConnectionView, packet: PacketView, rules: Rules) -> Result<
    bool,
    Seq<char>,
> {
    c.from_server(packet, rules).1
}

// ---------------------------------------------------------------------------
// The start
// ---------------------------------------------------------------------------

/// A new connection knows the display, under the id one, and nothing else.
pub proof fn nothing_is_known_at_first(id: u32)
    ensures
        ConnectionView::fresh().object(id) == if id == 1 {
            Some(ObjType::Display)
        } else {
            None
        },
        !ConnectionView::fresh().blocked.contains(id),
        !ConnectionView::fresh().registries.contains(id),
        ConnectionView::fresh().xdg_wm_base is None,
{
}

/// An object is known exactly where its id is tracked.
pub proof fn object_is_what_is_tracked(c: ConnectionView, id: u32)
    ensures
        c.object(id) is Some <==> c.objects.contains_key(id),
        c.object(id) matches Some(object) ==> c.objects[id] == object,
{
}

// ---------------------------------------------------------------------------
// The objects that a client makes
// ---------------------------------------------------------------------------

/// A request for a registry makes the id that it names known as a registry and as one that
/// is listened to, touches nothing else, and is passed on unchanged.
pub proof fn registry_becomes_known(c: ConnectionView, packet: PacketView, rules: Rules, id: u32)
    requires
        reaches(c, packet, ObjType::Display),
        packet.opcode == 1,
        names_id(packet, id),
    ensures
        c.from_client(packet, rules).0.objects == c.objects.insert(id, ObjType::Registry),
        c.from_client(packet, rules).0.registries == c.registries.insert(id),
        c.from_client(packet, rules).0.blocked == c.blocked,
        c.from_client(packet, rules).0.xdg_wm_base == c.xdg_wm_base,
        passed_up(c, packet, rules) == Ok::<Option<PacketView>, Seq<char>>(Some(packet)),
{
}

/// A request for a surface of an xdg_wm_base makes the id that it names known as a surface
/// of the same version, touches nothing else, and is passed on unchanged.
pub proof fn surface_becomes_known(
    c: ConnectionView,
    packet: PacketView,
    rules: Rules,
    id: u32,
    ver: u32,
)
    requires
        reaches(c, packet, ObjType::XdgWmBase { ver }),
        ver <= 6,
        packet.opcode == 2,
        names_id(packet, id),
    ensures
        c.from_client(packet, rules).0.objects == c.objects.insert(
            id,
            ObjType::XdgSurface { ver },
        ),
        c.from_client(packet, rules).0.registries == c.registries,
        c.from_client(packet, rules).0.blocked == c.blocked,
        c.from_client(packet, rules).0.xdg_wm_base == c.xdg_wm_base,
        passed_up(c, packet, rules) == Ok::<Option<PacketView>, Seq<char>>(Some(packet)),
{
}

/// A request for a toplevel of a surface makes the id that it names known as a toplevel of
/// the same version, touches nothing else, and is passed on unchanged.
pub proof fn toplevel_becomes_known(
    c: ConnectionView,
    packet: PacketView,
    rules: Rules,
    id: u32,
    ver: u32,
)
    requires
        reaches(c, packet, ObjType::XdgSurface { ver }),
        ver <= 6,
        packet.opcode == 1,
        names_id(packet, id),
    ensures
        c.from_client(packet, rules).0.objects == c.objects.insert(
            id,
            ObjType::XdgToplevel { ver },
        ),
        c.from_client(packet, rules).0.registries == c.registries,
        c.from_client(packet, rules).0.blocked == c.blocked,
        c.from_client(packet, rules).0.xdg_wm_base == c.xdg_wm_base,
        passed_up(c, packet, rules) == Ok::<Option<PacketView>, Seq<char>>(Some(packet)),
{
}

/// A request to bind an interface that is not blocked is passed on unchanged. It makes its id
/// known as an xdg_wm_base, with the version that it asks for, exactly where it names the
/// global that was announced as xdg_wm_base, and touches nothing else.
pub proof fn allowed_bind_passes(
    c: ConnectionView,
    packet: PacketView,
    rules: Rules,
    bind: BindView,
)
    requires
        requests(c, packet, bind),
        !forbidden(rules, bind.interface),
    ensures
        passed_up(c, packet, rules) == Ok::<Option<PacketView>, Seq<char>>(Some(packet)),
        c.from_client(packet, rules).0.blocked == c.blocked,
        c.from_client(packet, rules).0.registries == c.registries,
        c.from_client(packet, rules).0.xdg_wm_base == c.xdg_wm_base,
        c.from_client(packet, rules).0.objects == if bind.interface is Some && (
        c.xdg_wm_base matches Some((name, _)) && name == bind.type_id) {
            c.objects.insert(bind.id, ObjType::XdgWmBase { ver: bind.version })
        } else {
            c.objects
        },
{
    if let Some(name) = bind.interface {
        if rules.block.contains(name) {
            let i = choose|i: int| 0 <= i < rules.block.len() && rules.block[i] == name;
            assert(forbidden(rules, bind.interface));
        }
    }
}

/// A request to bind a blocked interface is discarded. It blocks the object that it names,
/// and touches nothing else.
pub proof fn forbidden_bind_blocks(
    c: ConnectionView,
    packet: PacketView,
    rules: Rules,
    bind: BindView,
)
    requires
        requests(c, packet, bind),
        forbidden(rules, bind.interface),
    ensures
        passed_up(c, packet, rules) == Ok::<Option<PacketView>, Seq<char>>(None),
        c.from_client(packet, rules).0.blocked == c.blocked.insert(bind.id),
        c.from_client(packet, rules).0.objects == c.objects,
        c.from_client(packet, rules).0.registries == c.registries,
        c.from_client(packet, rules).0.xdg_wm_base == c.xdg_wm_base,
{
    assert(rules.block.contains(bind.interface->0));
}

/// An object becomes blocked only by a bind request on a registry that names it and asks for
/// a blocked interface: any other message of the client leaves the blocked objects as they
/// are, and so does every message of the compositor.
pub proof fn only_forbidden_binds_block(c: ConnectionView, packet: PacketView, rules: Rules)
    ensures
        c.from_server(packet, rules).0.blocked == c.blocked,
        c.from_client(packet, rules).0.blocked != c.blocked ==> exists|bind: BindView|
            #[trigger] requests(c, packet, bind) && forbidden(rules, bind.interface)
                && c.from_client(packet, rules).0.blocked == c.blocked.insert(bind.id),
{
    if c.from_client(packet, rules).0.blocked != c.blocked {
        let bind = parse_bind(packet.body)->Ok_0;
        assert(requests(c, packet, bind));
        forbidden_or_not(rules, bind.interface);
    }
}

/// Being on the block list, put in two ways.
proof fn forbidden_or_not(rules: Rules, name: Option<Seq<char>>)
    ensures
        forbidden(rules, name) <==> (name matches Some(n) && rules.block.contains(n)),
{
    if name is Some && rules.block.contains(name->0) {
        let i = choose|i: int| 0 <= i < rules.block.len() && rules.block[i] == name->0;
        assert(forbidden(rules, name));
    }
}

/// The objects that are known change only with the requests that make objects: a registry
/// asked of the display, a surface, a toplevel, or an xdg_wm_base that is bound.
pub proof fn only_such_requests_make_objects(c: ConnectionView, packet: PacketView, rules: Rules)
    ensures
        c.from_client(packet, rules).0.xdg_wm_base == c.xdg_wm_base,
        c.from_client(packet, rules).0.registries != c.registries ==> reaches(
            c,
            packet,
            ObjType::Display,
        ) && packet.opcode == 1,
        c.from_client(packet, rules).0.objects != c.objects ==> {
            &&& !c.blocked.contains(packet.id)
            &&& c.object(packet.id) matches Some(object)
            &&& match object {
                ObjType::Display => packet.opcode == 1 && parse_uint(packet.body).0 is Ok,
                ObjType::Registry => packet.opcode == 0 && parse_bind(packet.body) is Ok,
                ObjType::XdgWmBase { ver } => packet.opcode == 2 && ver <= 6 && parse_uint(
                    packet.body,
                ).0 is Ok,
                ObjType::XdgSurface { ver } => packet.opcode == 1 && ver <= 6 && parse_uint(
                    packet.body,
                ).0 is Ok,
                ObjType::XdgToplevel { .. } => false,
            }
        },
{
}

// ---------------------------------------------------------------------------
// What reaches the compositor
// ---------------------------------------------------------------------------

/// A message of the client is discarded exactly where its object is blocked, or it is a
/// request to bind a blocked interface.
pub proof fn what_is_discarded_on_the_way_up(c: ConnectionView, packet: PacketView, rules: Rules)
    ensures
        passed_up(c, packet, rules) == Ok::<Option<PacketView>, Seq<char>>(None) <==> {
            ||| c.blocked.contains(packet.id)
            ||| exists|bind: BindView|
                #[trigger] requests(c, packet, bind) && forbidden(rules, bind.interface)
        },
        c.blocked.contains(packet.id) ==> c.from_client(packet, rules).0 == c,
{
    if reaches(c, packet, ObjType::Registry) && packet.opcode == 0 && parse_bind(packet.body) is Ok {
        let bind = parse_bind(packet.body)->Ok_0;
        assert(requests(c, packet, bind));
        forbidden_or_not(rules, bind.interface);
    }
}

/// A message to an object that is neither known nor blocked is passed on unchanged, and
/// touches nothing.
pub proof fn messages_to_strangers_pass(c: ConnectionView, packet: PacketView, rules: Rules)
    requires
        !c.objects.contains_key(packet.id),
        !c.blocked.contains(packet.id),
    ensures
        c.from_client(packet, rules) == (c, Ok::<Option<PacketView>, Seq<char>>(Some(packet))),
{
}

/// Any request to a display but that for a registry, and any to a registry but that to bind,
/// is passed on unchanged, and touches nothing.
pub proof fn other_requests_of_globals_pass(
    c: ConnectionView,
    packet: PacketView,
    rules: Rules,
    object: ObjType,
)
    requires
        reaches(c, packet, object),
        match object {
            ObjType::Display => packet.opcode != 1,
            ObjType::Registry => packet.opcode != 0,
            ObjType::XdgWmBase { ver } => packet.opcode != 2 && ver <= 6,
            ObjType::XdgSurface { ver } => packet.opcode != 1 && ver <= 6,
            ObjType::XdgToplevel { ver } => packet.opcode != 2 && packet.opcode != 3 && ver <= 6,
        },
    ensures
        c.from_client(packet, rules) == (c, Ok::<Option<PacketView>, Seq<char>>(Some(packet))),
{
}

/// Where no app id is set, a toplevel's app id is passed on unchanged, and where no title is
/// set, its title is, whatever else is set.
pub proof fn texts_without_a_setting_pass(
    c: ConnectionView,
    packet: PacketView,
    rules: Rules,
    ver: u32,
)
    requires
        reaches(c, packet, ObjType::XdgToplevel { ver }),
        ver <= 6,
        packet.opcode == 3 && rules.app_id is None || packet.opcode == 2 && rules.title is None,
    ensures
        c.from_client(packet, rules) == (c, Ok::<Option<PacketView>, Seq<char>>(Some(packet))),
{
}

/// The message with another text in its body.
pub open spec fn carrying(packet: PacketView, text: Seq<char>) -> PacketView {
    PacketView { id: packet.id, opcode: packet.opcode, body: string_bytes(text) }
}

/// The client's text in a message; the null string counts as empty.
pub open spec fn client_text(packet: PacketView, text: Seq<char>) -> bool {
    ||| parse_string(packet.body).0 == Ok::<Option<Seq<char>>, Seq<char>>(Some(text))
    ||| parse_string(packet.body).0 == Ok::<Option<Seq<char>>, Seq<char>>(None) && text
        == Seq::<char>::empty()
}

/// With an app id set, a toplevel's app id goes out as the setting followed by the client's
/// text where the app id is to be prefixed, and as the setting alone otherwise, whatever is
/// set for the title and whatever is blocked.
pub proof fn app_id_is_filtered(
    c: ConnectionView,
    packet: PacketView,
    rules: Rules,
    ver: u32,
    setting: Seq<char>,
    text: Seq<char>,
)
    requires
        reaches(c, packet, ObjType::XdgToplevel { ver }),
        ver <= 6,
        packet.opcode == 3,
        rules.app_id == Some(setting),
        client_text(packet, text),
    ensures
        c.from_client(packet, rules).0 == c,
        rules.prefix_app_id ==> passed_up(c, packet, rules) == Ok::<Option<PacketView>, Seq<char>>(
            Some(carrying(packet, setting + text)),
        ),
        !rules.prefix_app_id ==> passed_up(c, packet, rules) == Ok::<Option<PacketView>, Seq<char>>(
            Some(carrying(packet, setting)),
        ),
{
    assert(setting + Seq::<char>::empty() =~= setting);
}

/// With a title set, a toplevel's title goes out as the setting followed by the client's text
/// where the title is to be prefixed, and as the setting alone otherwise, whatever is set for
/// the app id and whatever is blocked.
pub proof fn title_is_filtered(
    c: ConnectionView,
    packet: PacketView,
    rules: Rules,
    ver: u32,
    setting: Seq<char>,
    text: Seq<char>,
)
    requires
        reaches(c, packet, ObjType::XdgToplevel { ver }),
        ver <= 6,
        packet.opcode == 2,
        rules.title == Some(setting),
        client_text(packet, text),
    ensures
        c.from_client(packet, rules).0 == c,
        rules.prefix_title ==> passed_up(c, packet, rules) == Ok::<Option<PacketView>, Seq<char>>(
            Some(carrying(packet, setting + text)),
        ),
        !rules.prefix_title ==> passed_up(c, packet, rules) == Ok::<Option<PacketView>, Seq<char>>(
            Some(carrying(packet, setting)),
        ),
{
    assert(setting + Seq::<char>::empty() =~= setting);
}

/// What the compositor reads in a message that carries a text is that text, and nothing
/// follows it.
pub proof fn carried_text_is_read(packet: PacketView, text: Seq<char>)
    requires
        padded(encode_utf8(text).len() + 1) < 0x1_0000_0000,
    ensures
        parse_string(carrying(packet, text).body) == (
            Ok::<Option<Seq<char>>, Seq<char>>(Some(text)),
            Seq::<u8>::empty(),
        ),
{
    string_round_trip(text, Seq::empty());
    assert(string_bytes(text) + Seq::<u8>::empty() =~= string_bytes(text));
}

/// The settings of one text have no say in what becomes of the other.
pub proof fn filters_are_apart(
    c: ConnectionView,
    packet: PacketView,
    rules: Rules,
    other: Rules,
)
    requires
        rules.block == other.block,
        packet.opcode != 2 || rules.title == other.title && rules.prefix_title
            == other.prefix_title,
        packet.opcode != 3 || rules.app_id == other.app_id && rules.prefix_app_id
            == other.prefix_app_id,
    ensures
        c.from_client(packet, rules) == c.from_client(packet, other),
        c.from_server(packet, rules) == c.from_server(packet, other),
{
}

// ---------------------------------------------------------------------------
// Errors of the client
// ---------------------------------------------------------------------------

/// A message to an object of an xdg interface whose version is not understood is in error,
/// and the error names the interface and the version.
pub proof fn newer_versions_are_errors(
    c: ConnectionView,
    packet: PacketView,
    rules: Rules,
    ver: u32,
)
    requires
        ver > 6,
    ensures
        reaches(c, packet, ObjType::XdgWmBase { ver }) ==> c.from_client(packet, rules) == (
            c,
            Err::<Option<PacketView>, Seq<char>>(
                "Unsupported xdg_wm_base object version "@ + decimal(ver as nat),
            ),
        ),
        reaches(c, packet, ObjType::XdgSurface { ver }) ==> c.from_client(packet, rules) == (
            c,
            Err::<Option<PacketView>, Seq<char>>(
                "Unsupported xdg_surface object version "@ + decimal(ver as nat),
            ),
        ),
        reaches(c, packet, ObjType::XdgToplevel { ver }) ==> c.from_client(packet, rules) == (
            c,
            Err::<Option<PacketView>, Seq<char>>(
                "Unsupported xdg_toplevel object version "@ + decimal(ver as nat),
            ),
        ),
{
}

/// A request that makes an object but does not hold its id is in error, and the error names
/// the request.
pub proof fn missing_ids_are_errors(
    c: ConnectionView,
    packet: PacketView,
    rules: Rules,
    ver: u32,
    e: Seq<char>,
)
    requires
        parse_uint(packet.body).0 == Err::<u32, Seq<char>>(e),
        ver <= 6,
    ensures
        reaches(c, packet, ObjType::Display) && packet.opcode == 1 ==> c.from_client(packet, rules)
            == (
            c,
            Err::<Option<PacketView>, Seq<char>>("Error reading registry id"@ + ": "@ + e),
        ),
        reaches(c, packet, ObjType::XdgWmBase { ver }) && packet.opcode == 2 ==> c.from_client(
            packet,
            rules,
        ) == (
            c,
            Err::<Option<PacketView>, Seq<char>>(
                "Error reading xdg wm base create surface id"@ + ": "@ + e,
            ),
        ),
        reaches(c, packet, ObjType::XdgSurface { ver }) && packet.opcode == 1 ==> c.from_client(
            packet,
            rules,
        ) == (
            c,
            Err::<Option<PacketView>, Seq<char>>(
                "Error reading xdg surface create toplevel id"@ + ": "@ + e,
            ),
        ),
{
}

/// A bind request that cannot be read, and a text that is to be replaced but cannot be read,
/// are errors.
pub proof fn unreadable_requests_are_errors(
    c: ConnectionView,
    packet: PacketView,
    rules: Rules,
    ver: u32,
    e: Seq<char>,
)
    ensures
        reaches(c, packet, ObjType::Registry) && packet.opcode == 0 && parse_bind(packet.body)
            == Err::<BindView, Seq<char>>(e) ==> c.from_client(packet, rules) == (
            c,
            Err::<Option<PacketView>, Seq<char>>(e),
        ),
        reaches(c, packet, ObjType::XdgToplevel { ver }) && ver <= 6 && (packet.opcode == 2
            && rules.title is Some || packet.opcode == 3 && rules.app_id is Some) && parse_string(
            packet.body,
        ).0 == Err::<Option<Seq<char>>, Seq<char>>(e) ==> c.from_client(packet, rules) == (
            c,
            Err::<Option<PacketView>, Seq<char>>("Error reading app id message body"@ + ": "@ + e),
        ),
{
}

// ---------------------------------------------------------------------------
// What reaches the client
// ---------------------------------------------------------------------------

/// Whether a message is the display's word that an id is free again.
pub open spec fn is_deletion(packet: PacketView) -> bool {
    packet.id == 1 && packet.opcode == 1
}

/// A deletion is passed on. The id that it names is no longer known, nor listened to as a
/// registry, and nothing else is touched.
pub proof fn deletion_frees_one_id(c: ConnectionView, packet: PacketView, rules: Rules, id: u32)
    requires
        is_deletion(packet),
        names_id(packet, id),
    ensures
        passed_down(c, packet, rules) == Ok::<bool, Seq<char>>(true),
        c.from_server(packet, rules).0.objects == c.objects.remove(id),
        c.from_server(packet, rules).0.registries == c.registries.remove(id),
        c.from_server(packet, rules).0.blocked == c.blocked,
        c.from_server(packet, rules).0.xdg_wm_base == c.xdg_wm_base,
{
}

/// An announcement is passed on exactly where its interface is not blocked. It makes the
/// xdg_wm_base known, by name and version, where it announces that, and touches nothing else.
pub proof fn announcement_is_filtered(
    c: ConnectionView,
    packet: PacketView,
    rules: Rules,
    global: GlobalView,
)
    requires
        announces(c, packet, global),
    ensures
        passed_down(c, packet, rules) == Ok::<bool, Seq<char>>(
            !forbidden(rules, global.interface),
        ),
        c.from_server(packet, rules).0.objects == c.objects,
        c.from_server(packet, rules).0.registries == c.registries,
        c.from_server(packet, rules).0.blocked == c.blocked,
        c.from_server(packet, rules).0.xdg_wm_base == if global.interface == Some(
            "xdg_wm_base"@,
        ) {
            Some((global.type_id, global.version))
        } else {
            c.xdg_wm_base
        },
{
    forbidden_or_not(rules, global.interface);
}

/// Any message of the compositor that is neither a deletion nor an event of that kind on a
/// registry is passed on, and touches nothing.
pub proof fn other_events_pass(c: ConnectionView, packet: PacketView, rules: Rules)
    requires
        !is_deletion(packet),
        !(c.registries.contains(packet.id) && packet.opcode == 0),
    ensures
        c.from_server(packet, rules) == (c, Ok::<bool, Seq<char>>(true)),
{
}

/// A deletion without an id, and an announcement that cannot be read, are errors; they touch
/// nothing.
pub proof fn unreadable_events_are_errors(
    c: ConnectionView,
    packet: PacketView,
    rules: Rules,
    e: Seq<char>,
)
    ensures
        is_deletion(packet) && parse_uint(packet.body).0 == Err::<u32, Seq<char>>(e)
            ==> c.from_server(packet, rules) == (
            c,
            Err::<bool, Seq<char>>("Error reading display delete obj id"@ + ": "@ + e),
        ),
        c.registries.contains(packet.id) && packet.opcode == 0 && parse_global(packet.body) == Err::<
            GlobalView,
            Seq<char>,
        >(e) ==> c.from_server(packet, rules) == (c, Err::<bool, Seq<char>>(e)),
{
}

// ---------------------------------------------------------------------------
// The xdg_wm_base
// ---------------------------------------------------------------------------

/// Whether a message, as things stand, announces the xdg_wm_base.
pub open spec fn announces_base(c: ConnectionView, message: Message) -> bool {
    message matches Message::Server(packet) && exists|global: GlobalView|
        #[trigger] announces(c, packet, global) && global.interface == Some("xdg_wm_base"@)
}

/// What is known of the xdg_wm_base stays as it is through any traffic that does not announce
/// it again, whatever else is announced, bound, made or deleted.
pub proof fn base_stays_known(c: ConnectionView, traffic: Seq<Message>, rules: Rules)
    requires
        forall|k: int|
            0 <= k < traffic.len() ==> !announces_base(
                after_all(c, traffic.take(k), rules),
                #[trigger] traffic[k],
            ),
    ensures
        after_all(c, traffic, rules).xdg_wm_base == c.xdg_wm_base,
    decreases traffic.len(),
{
    if traffic.len() > 0 {
        let next = after(c, traffic[0], rules);
        let rest = traffic.drop_first();
        assert(traffic.take(0) =~= Seq::empty());
        assert(!announces_base(after_all(c, traffic.take(0), rules), traffic[0]));
        match traffic[0] {
            Message::Client(packet) => only_such_requests_make_objects(c, packet, rules),
            Message::Server(packet) => {
                if c.registries.contains(packet.id) && packet.opcode == 0 && parse_global(
                    packet.body,
                ) is Ok {
                    let global = parse_global(packet.body)->Ok_0;
                    assert(announces(c, packet, global));
                    announcement_is_filtered(c, packet, rules, global);
                }
            },
        }
        assert(next.xdg_wm_base == c.xdg_wm_base);
        assert forall|k: int| 0 <= k < rest.len() implies !announces_base(
            after_all(next, rest.take(k), rules),
            #[trigger] rest[k],
        ) by {
            assert(rest[k] == traffic[k + 1]);
            assert(traffic.take(k + 1).drop_first() =~= rest.take(k));
            assert(traffic.take(k + 1)[0] == traffic[0]);
        }
        base_stays_known(next, rest, rules);
    }
}

/// Once the xdg_wm_base was announced, a request to bind it by its name makes its id known as
/// an xdg_wm_base of the version asked for, whatever was said in between that did not
/// announce it again.
pub proof fn announced_base_can_be_bound(
    c: ConnectionView,
    announcement: PacketView,
    global: GlobalView,
    traffic: Seq<Message>,
    request: PacketView,
    bind: BindView,
    rules: Rules,
)
    requires
        announces(c, announcement, global),
        global.interface == Some("xdg_wm_base"@),
        forall|k: int|
            0 <= k < traffic.len() ==> !announces_base(
                after_all(c.from_server(announcement, rules).0, traffic.take(k), rules),
                #[trigger] traffic[k],
            ),
        requests(
            after_all(c.from_server(announcement, rules).0, traffic, rules),
            request,
            bind,
        ),
        bind.interface is Some,
        !forbidden(rules, bind.interface),
        bind.type_id == global.type_id,
    ensures
        ({
            let then = after_all(c.from_server(announcement, rules).0, traffic, rules);
            &&& then.xdg_wm_base == Some((global.type_id, global.version))
            &&& then.from_client(request, rules).0.object(bind.id) == Some(
                ObjType::XdgWmBase { ver: bind.version },
            )
        }),
{
    let known = c.from_server(announcement, rules).0;
    announcement_is_filtered(c, announcement, rules, global);
    base_stays_known(known, traffic, rules);
    allowed_bind_passes(after_all(known, traffic, rules), request, rules, bind);
}

/// A toplevel that is known has its texts replaced after any traffic, until its id is freed,
/// given away or blocked: the compositor reads the setting, with the client's text behind it
/// where it is to be a prefix.
pub proof fn known_toplevel_stays_filtered(
    c: ConnectionView,
    traffic: Seq<Message>,
    packet: PacketView,
    rules: Rules,
    ver: u32,
    setting: Seq<char>,
    text: Seq<char>,
)
    requires
        c.object(packet.id) == Some(ObjType::XdgToplevel { ver }),
        ver <= 6,
        forall|k: int|
            0 <= k < traffic.len() ==> !reassigns(
                after_all(c, traffic.take(k), rules),
                #[trigger] traffic[k],
                rules,
                packet.id,
            ),
        !after_all(c, traffic, rules).blocked.contains(packet.id),
        packet.opcode == 2 && rules.title == Some(setting) || packet.opcode == 3 && rules.app_id
            == Some(setting),
        client_text(packet, text),
        padded(encode_utf8(setting + text).len() + 1) < 0x1_0000_0000,
        padded(encode_utf8(setting).len() + 1) < 0x1_0000_0000,
    ensures
        ({
            let prefix = if packet.opcode == 2 {
                rules.prefix_title
            } else {
                rules.prefix_app_id
            };
            &&& passed_up(after_all(c, traffic, rules), packet, rules) matches Ok(Some(q))
            &&& q.id == packet.id && q.opcode == packet.opcode
            &&& parse_string(q.body).0 == Ok::<Option<Seq<char>>, Seq<char>>(
                Some(
                    if prefix {
                        setting + text
                    } else {
                        setting
                    },
                ),
            )
        }),
{
    let then = after_all(c, traffic, rules);
    tracked_until_deleted_or_replaced(c, traffic, rules, packet.id);
    carried_text_is_read(packet, setting);
    carried_text_is_read(packet, setting + text);
    if packet.opcode == 2 {
        title_is_filtered(then, packet, rules, ver, setting, text);
    } else {
        app_id_is_filtered(then, packet, rules, ver, setting, text);
    }
}

// ---------------------------------------------------------------------------
// The arguments of registry messages
// ---------------------------------------------------------------------------

/// The arguments of an announcement, one after the other.
pub open spec fn global_body(global: GlobalView) -> Seq<u8> {
    u32_bytes(global.type_id) + interface_bytes(global.interface) + u32_bytes(global.version)
}

/// The arguments of a bind request, one after the other.
pub open spec fn bind_body(bind: BindView) -> Seq<u8> {
    u32_bytes(bind.type_id) + interface_bytes(bind.interface) + u32_bytes(bind.version)
        + u32_bytes(bind.id)
}

/// An interface as an argument; the null string where there is none.
pub open spec fn interface_bytes(name: Option<Seq<char>>) -> Seq<u8> {
    match name {
        Some(name) => string_bytes(name),
        None => u32_bytes(0),
    }
}

proof fn interface_is_read(name: Option<Seq<char>>, tail: Seq<u8>)
    requires
        name matches Some(n) ==> padded(encode_utf8(n).len() + 1) < 0x1_0000_0000,
    ensures
        parse_string(interface_bytes(name) + tail) == (
            Ok::<Option<Seq<char>>, Seq<char>>(name),
            tail,
        ),
{
    match name {
        Some(n) => string_round_trip(n, tail),
        None => {
            uint_round_trip(0, tail);
            assert((u32_bytes(0) + tail).skip(4) =~= tail);
        },
    }
}

proof fn global_of_parts(
    body: Seq<u8>,
    second: Seq<u8>,
    third: Seq<u8>,
    tail: Seq<u8>,
    global: GlobalView,
)
    requires
        parse_uint(body) == (Ok::<u32, Seq<char>>(global.type_id), second),
        parse_string(second) == (Ok::<Option<Seq<char>>, Seq<char>>(global.interface), third),
        parse_uint(third) == (Ok::<u32, Seq<char>>(global.version), tail),
    ensures
        parse_global(body) == Ok::<GlobalView, Seq<char>>(global),
{
}

proof fn bind_of_parts(
    body: Seq<u8>,
    second: Seq<u8>,
    third: Seq<u8>,
    last: Seq<u8>,
    tail: Seq<u8>,
    bind: BindView,
)
    requires
        parse_uint(body) == (Ok::<u32, Seq<char>>(bind.type_id), second),
        parse_string(second) == (Ok::<Option<Seq<char>>, Seq<char>>(bind.interface), third),
        parse_uint(third) == (Ok::<u32, Seq<char>>(bind.version), last),
        parse_uint(last) == (Ok::<u32, Seq<char>>(bind.id), tail),
    ensures
        parse_bind(body) == Ok::<BindView, Seq<char>>(bind),
{
}

/// Four pieces in a row, put together in two ways.
proof fn in_a_row(a: Seq<u8>, b: Seq<u8>, d: Seq<u8>, e: Seq<u8>, tail: Seq<u8>)
    ensures
        a + b + d + tail == a + (b + (d + tail)),
        a + b + d + e + tail == a + (b + (d + (e + tail))),
{
    assert(a + b + d + tail =~= a + (b + (d + tail)));
    assert(a + b + d + e + tail =~= a + (b + (d + (e + tail))));
}

/// What is read of an announcement's arguments is what they were made of, whatever follows.
#[verifier::spinoff_prover]
pub proof fn global_is_read(global: GlobalView, tail: Seq<u8>)
    requires
        global.interface matches Some(n) ==> padded(encode_utf8(n).len() + 1) < 0x1_0000_0000,
    ensures
        parse_global(global_body(global) + tail) == Ok::<GlobalView, Seq<char>>(global),
{
    let name = interface_bytes(global.interface);
    let third = u32_bytes(global.version) + tail;
    let second = name + third;
    let body = u32_bytes(global.type_id) + second;
    assert(parse_uint(body) == (Ok::<u32, Seq<char>>(global.type_id), second)) by {
        uint_round_trip(global.type_id, second);
    }
    assert(parse_string(second) == (
        Ok::<Option<Seq<char>>, Seq<char>>(global.interface),
        third,
    )) by {
        interface_is_read(global.interface, third);
    }
    assert(parse_uint(third) == (Ok::<u32, Seq<char>>(global.version), tail)) by {
        uint_round_trip(global.version, tail);
    }
    assert(global_body(global) + tail == body) by {
        in_a_row(u32_bytes(global.type_id), name, u32_bytes(global.version), name, tail);
    }
    global_of_parts(body, second, third, tail, global);
}

/// What is read of a bind request's arguments is what they were made of, whatever follows.
#[verifier::spinoff_prover]
pub proof fn bind_is_read(bind: BindView, tail: Seq<u8>)
    requires
        bind.interface matches Some(n) ==> padded(encode_utf8(n).len() + 1) < 0x1_0000_0000,
    ensures
        parse_bind(bind_body(bind) + tail) == Ok::<BindView, Seq<char>>(bind),
{
    let name = interface_bytes(bind.interface);
    let last = u32_bytes(bind.id) + tail;
    let third = u32_bytes(bind.version) + last;
    let second = name + third;
    let body = u32_bytes(bind.type_id) + second;
    assert(parse_uint(body) == (Ok::<u32, Seq<char>>(bind.type_id), second)) by {
        uint_round_trip(bind.type_id, second);
    }
    assert(parse_string(second) == (
        Ok::<Option<Seq<char>>, Seq<char>>(bind.interface),
        third,
    )) by {
        interface_is_read(bind.interface, third);
    }
    assert(parse_uint(third) == (Ok::<u32, Seq<char>>(bind.version), last)) by {
        uint_round_trip(bind.version, last);
    }
    assert(parse_uint(last) == (Ok::<u32, Seq<char>>(bind.id), tail)) by {
        uint_round_trip(bind.id, tail);
    }
    assert(bind_body(bind) + tail == body) by {
        in_a_row(
            u32_bytes(bind.type_id),
            name,
            u32_bytes(bind.version),
            u32_bytes(bind.id),
            tail,
        );
    }
    bind_of_parts(body, second, third, last, tail, bind);
}

/// The arguments of an announcement are read in their order, and the first that cannot be
/// read is the error.
pub proof fn global_is_read_in_order(body: Seq<u8>)
    ensures
        ({
            let (a, after_a) = parse_uint(body);
            let (b, after_b) = parse_string(after_a);
            let (d, _) = parse_uint(after_b);
            let r = parse_global(body);
            &&& r is Ok <==> a is Ok && b is Ok && d is Ok
            &&& r matches Ok(global) ==> {
                &&& a == Ok::<u32, Seq<char>>(global.type_id)
                &&& b == Ok::<Option<Seq<char>>, Seq<char>>(global.interface)
                &&& d == Ok::<u32, Seq<char>>(global.version)
            }
            &&& a matches Err(e) ==> r == Err::<GlobalView, Seq<char>>(
                "Error reading global message type id"@ + ": "@ + e,
            )
            &&& a is Ok ==> (b matches Err(e) ==> r == Err::<GlobalView, Seq<char>>(
                "Error reading global message type string"@ + ": "@ + e,
            ))
            &&& a is Ok && b is Ok ==> (d matches Err(e) ==> r == Err::<GlobalView, Seq<char>>(
                "Error reading global message version"@ + ": "@ + e,
            ))
        }),
{
}

/// The arguments of a bind request are read in their order, and the first that cannot be read
/// is the error.
pub proof fn bind_is_read_in_order(body: Seq<u8>)
    ensures
        ({
            let (a, after_a) = parse_uint(body);
            let (b, after_b) = parse_string(after_a);
            let (d, after_d) = parse_uint(after_b);
            let (f, _) = parse_uint(after_d);
            let r = parse_bind(body);
            &&& r is Ok <==> a is Ok && b is Ok && d is Ok && f is Ok
            &&& r matches Ok(bind) ==> {
                &&& a == Ok::<u32, Seq<char>>(bind.type_id)
                &&& b == Ok::<Option<Seq<char>>, Seq<char>>(bind.interface)
                &&& d == Ok::<u32, Seq<char>>(bind.version)
                &&& f == Ok::<u32, Seq<char>>(bind.id)
            }
            &&& a matches Err(e) ==> r == Err::<BindView, Seq<char>>(
                "Error/eof reading bind object type id"@ + ": "@ + e,
            )
            &&& a is Ok ==> (b matches Err(e) ==> r == Err::<BindView, Seq<char>>(
                "Error reading bind message type string"@ + ": "@ + e,
            ))
            &&& a is Ok && b is Ok ==> (d matches Err(e) ==> r == Err::<BindView, Seq<char>>(
                "Error reading bind message version"@ + ": "@ + e,
            ))
            &&& a is Ok && b is Ok && d is Ok ==> (f matches Err(e) ==> r == Err::<
                BindView,
                Seq<char>,
            >("Error/eof reading bind object id"@ + ": "@ + e))
        }),
{
}

} // verus!
