//! One client's connection: which objects are known, and what becomes of each message.
use crate::config::{Args, Rules};
use crate::context::{decimal, decimal_text, in_context, Errorize};
use crate::interfaces::is_blocked_interface;
use crate::proto::{
    parse_string, parse_uint, read_arg_string, read_arg_uint, string_bytes, text_of,
    write_arg_string, ByteReader, Packet, PacketView,
};
use std::collections::{HashMap, HashSet};
use vstd::prelude::*;
use vstd::string::*;

verus! {

broadcast use vstd::std_specs::hash::group_hash_axioms;

/// The newest version of the xdg shell interfaces whose requests are understood.
pub const MAX_XDG_VERSION: u32 = 6;

/// The object that every connection starts with.
pub const DISPLAY_ID: u32 = 1;

/// What is known of an object.
#[derive(Clone, Copy, Debug, PartialEq, Eq, Structural)]
pub enum ObjType {
    Display,
    Registry,
    XdgWmBase { ver: u32 },
    XdgSurface { ver: u32 },
    XdgToplevel { ver: u32 },
}

impl ObjType {
    /// The complaint about an object whose version is not understood.
    pub open spec fn unsupported(self) -> Option<Seq<char>> {
        match self {
            ObjType::XdgWmBase { ver } if ver > MAX_XDG_VERSION => Some(
                "Unsupported xdg_wm_base object version "@ + decimal(ver as nat),
            ),
            ObjType::XdgSurface { ver } if ver > MAX_XDG_VERSION => Some(
                "Unsupported xdg_surface object version "@ + decimal(ver as nat),
            ),
            ObjType::XdgToplevel { ver } if ver > MAX_XDG_VERSION => Some(
                "Unsupported xdg_toplevel object version "@ + decimal(ver as nat),
            ),
            _ => None,
        }
    }

    /// The object that a request makes, whose id is the request's first argument, and the
    /// context in which a missing id is reported.
    pub open spec fn creates(self, opcode: u16) -> Option<(ObjType, Seq<char>)> {
        match (self, opcode) {
            (ObjType::Display, 1) => Some((ObjType::Registry, "Error reading registry id"@)),
            (ObjType::XdgWmBase { ver }, 2) => Some(
                (ObjType::XdgSurface { ver }, "Error reading xdg wm base create surface id"@),
            ),
            (ObjType::XdgSurface { ver }, 1) => Some(
                (ObjType::XdgToplevel { ver }, "Error reading xdg surface create toplevel id"@),
            ),
            _ => None,
        }
    }

    fn complaint(&self) -> (r: Option<String>)
        ensures
            text_of(r) == self.unsupported(),
    {
        let (text, ver): (&str, u32) = match *self {
            ObjType::XdgWmBase { ver } => ("Unsupported xdg_wm_base object version ", ver),
            ObjType::XdgSurface { ver } => ("Unsupported xdg_surface object version ", ver),
            ObjType::XdgToplevel { ver } => ("Unsupported xdg_toplevel object version ", ver),
            _ => return None,
        };
        if ver <= MAX_XDG_VERSION {
            return None;
        }
        let mut out = text.to_owned();
        out.append(decimal_text(ver).as_str());
        Some(out)
    }

    fn child(&self, opcode: u16) -> (r: Option<(ObjType, &'static str)>)
        ensures
            match r {
                Some((child, text)) => self.creates(opcode) == Some((child, text@)),
                None => self.creates(opcode) is None,
            },
    {
        match *self {
            ObjType::Display => if opcode == 1 {
                Some((ObjType::Registry, "Error reading registry id"))
            } else {
                None
            },
            ObjType::XdgWmBase { ver } => if opcode == 2 {
                Some((ObjType::XdgSurface { ver }, "Error reading xdg wm base create surface id"))
            } else {
                None
            },
            ObjType::XdgSurface { ver } => if opcode == 1 {
                Some(
                    (ObjType::XdgToplevel { ver }, "Error reading xdg surface create toplevel id"),
                )
            } else {
                None
            },
            _ => None,
        }
    }
}

// ---------------------------------------------------------------------------
// Registry messages
// ---------------------------------------------------------------------------

/// A client's request to bind a global.
pub struct Bind {
    pub type_id: u32,
    pub interface: Option<String>,
    pub version: u32,
    pub id: u32,
}

/// A client's request to bind a global.
pub struct BindView {
    pub type_id: u32,
    pub interface: Option<Seq<char>>,
    pub version: u32,
    pub id: u32,
}

impl View for Bind {
    type V = BindView;

    open spec fn view(&self) -> BindView {
        BindView {
            type_id: self.type_id,
            interface: text_of(self.interface),
            version: self.version,
            id: self.id,
        }
    }
}

/// The bind request in `body`.
pub open spec fn parse_bind(body: Seq<u8>) -> Result<BindView, Seq<char>> {
    let (type_id, rest) = parse_uint(body);
    let (interface, rest) = parse_string(rest);
    let (version, rest) = parse_uint(rest);
    let (id, _) = parse_uint(rest);
    match (type_id, interface, version, id) {
        (Err(e), _, _, _) => Err(in_context("Error/eof reading bind object type id"@, e)),
        (_, Err(e), _, _) => Err(in_context("Error reading bind message type string"@, e)),
        (_, _, Err(e), _) => Err(in_context("Error reading bind message version"@, e)),
        (_, _, _, Err(e)) => Err(in_context("Error/eof reading bind object id"@, e)),
        (Ok(type_id), Ok(interface), Ok(version), Ok(id)) => Ok(
            BindView { type_id, interface, version, id },
        ),
    }
}

/// Reads the bind request in `body`.
pub fn read_bind(body: &[u8]) -> (r: Result<Bind, String>)
    ensures
        match parse_bind(body@) {
            Ok(bind) => r matches Ok(b) && b@ == bind,
            Err(e) => r matches Err(s) && s@ == e,
        },
{
    let mut cursor = ByteReader::new(body);
    let type_id = read_arg_uint(&mut cursor).context("Error/eof reading bind object type id")?;
    let interface = read_arg_string(&mut cursor).context(
        "Error reading bind message type string",
    )?;
    let version = read_arg_uint(&mut cursor).context("Error reading bind message version")?;
    let id = read_arg_uint(&mut cursor).context("Error/eof reading bind object id")?;
    Ok(Bind { type_id, interface, version, id })
}

/// The compositor's announcement of a global.
pub struct Global {
    pub type_id: u32,
    pub interface: Option<String>,
    pub version: u32,
}

/// The compositor's announcement of a global.
pub struct GlobalView {
    pub type_id: u32,
    pub interface: Option<Seq<char>>,
    pub version: u32,
}

impl View for Global {
    type V = GlobalView;

    open spec fn view(&self) -> GlobalView {
        GlobalView {
            type_id: self.type_id,
            interface: text_of(self.interface),
            version: self.version,
        }
    }
}

/// The announcement in `body`.
pub open spec fn parse_global(body: Seq<u8>) -> Result<GlobalView, Seq<char>> {
    let (type_id, rest) = parse_uint(body);
    let (interface, rest) = parse_string(rest);
    let (version, _) = parse_uint(rest);
    match (type_id, interface, version) {
        (Err(e), _, _) => Err(in_context("Error reading global message type id"@, e)),
        (_, Err(e), _) => Err(in_context("Error reading global message type string"@, e)),
        (_, _, Err(e)) => Err(in_context("Error reading global message version"@, e)),
        (Ok(type_id), Ok(interface), Ok(version)) => Ok(
            GlobalView { type_id, interface, version },
        ),
    }
}

/// Reads the announcement in `body`.
pub fn read_global(body: &[u8]) -> (r: Result<Global, String>)
    ensures
        match parse_global(body@) {
            Ok(global) => r matches Ok(g) && g@ == global,
            Err(e) => r matches Err(s) && s@ == e,
        },
{
    let mut cursor = ByteReader::new(body);
    let type_id = read_arg_uint(&mut cursor).context("Error reading global message type id")?;
    let interface = read_arg_string(&mut cursor).context(
        "Error reading global message type string",
    )?;
    let version = read_arg_uint(&mut cursor).context("Error reading global message version")?;
    Ok(Global { type_id, interface, version })
}

// ---------------------------------------------------------------------------
// Toplevel messages
// ---------------------------------------------------------------------------

/// The text that a toplevel request with this opcode is to carry, and whether it goes
/// before the client's text or in its place.
pub open spec fn replacement(opcode: u16, rules: Rules) -> Option<(Seq<char>, bool)> {
    match (opcode, rules.title, rules.app_id) {
        (2, Some(title), _) => Some((title, rules.prefix_title)),
        (3, _, Some(app_id)) => Some((app_id, rules.prefix_app_id)),
        _ => None,
    }
}

/// The text that becomes of the client's text; a null string counts as empty.
pub open spec fn replaced(text: Seq<char>, prefix: bool, original: Option<Seq<char>>) -> Seq<char> {
    match original {
        Some(original) if prefix => text + original,
        _ => text,
    }
}

/// What becomes of a request to a toplevel.
pub open spec fn rewritten(packet: PacketView, rules: Rules) -> Result<PacketView, Seq<char>> {
    match (replacement(packet.opcode, rules), parse_string(packet.body).0) {
        (None, _) => Ok(packet),
        (Some(_), Err(e)) => Err(in_context("Error reading app id message body"@, e)),
        (Some((text, prefix)), Ok(original)) => Ok(
            PacketView { body: string_bytes(replaced(text, prefix, original)), ..packet },
        ),
    }
}

/// Makes a request to a toplevel carry the text that the settings ask for.
pub fn rewrite(packet: &mut Packet, args: &Args) -> (r: Result<(), String>)
    ensures
        match rewritten(old(packet)@, args@) {
            Ok(q) => r is Ok && final(packet)@ == q,
            Err(e) => r matches Err(s) && s@ == e && final(packet)@ == old(packet)@,
        },
{
    let (setting, prefix): (&Option<String>, bool) = match packet.opcode {
        2 => (&args.title, args.prefix_title),
        3 => (&args.app_id, args.prefix_app_id),
        _ => return Ok(()),
    };
    if let Some(text) = setting {
        let original = read_arg_string(&mut ByteReader::new(packet.body.as_slice())).context(
            "Error reading app id message body",
        )?;
        let mut new_text = text.clone();
        if prefix {
            if let Some(original) = original {
                new_text.append(original.as_str());
            }
        }
        let mut body: Vec<u8> = Vec::new();
        let _ = write_arg_string(&mut body, new_text.as_str());
        assert(body@ =~= string_bytes(new_text@));
        packet.body = body;
    }
    Ok(())
}

// ---------------------------------------------------------------------------
// The connection
// ---------------------------------------------------------------------------

/// What is known of a connection.
pub struct Connection {
    objects: HashMap<u32, ObjType>,
    xdg_wm_base: Option<(u32, u32)>,
    blocked: HashSet<u32>,
    registries: HashSet<u32>,
}

/// What is known of a connection: the objects that are tracked, the name and version of
/// the xdg_wm_base global once it was announced, the objects that were bound to blocked
/// interfaces, and the registries that the client asked for and the compositor did not
/// delete.
#[verifier::ext_equal]
pub struct ConnectionView {
    pub objects: Map<u32, ObjType>,
    pub xdg_wm_base: Option<(u32, u32)>,
    pub blocked: Set<u32>,
    pub registries: Set<u32>,
}

impl View for Connection {
    type V = ConnectionView;

    closed spec fn view(&self) -> ConnectionView {
        ConnectionView {
            objects: self.objects@,
            xdg_wm_base: self.xdg_wm_base,
            blocked: self.blocked@,
            registries: self.registries@,
        }
    }
}

impl ConnectionView {
    /// A connection on which nothing was said.
    pub open spec fn fresh() -> ConnectionView {
        ConnectionView {
            objects: Map::empty().insert(DISPLAY_ID, ObjType::Display),
            xdg_wm_base: None,
            blocked: Set::empty(),
            registries: Set::empty(),
        }
    }

    /// The object with this id, if it is tracked.
    pub open spec fn object(self, id: u32) -> Option<ObjType> {
        if self.objects.contains_key(id) {
            Some(self.objects[id])
        } else {
            None
        }
    }

    /// The connection with one more object, or another in its place. A registry is still
    /// listened to where the client gives its id to another object.
    pub open spec fn track(self, id: u32, object: ObjType) -> ConnectionView {
        ConnectionView {
            objects: self.objects.insert(id, object),
            registries: if object is Registry {
                self.registries.insert(id)
            } else {
                self.registries
            },
            ..self
        }
    }

    /// The connection without the object that the compositor deleted.
    pub open spec fn forget(self, id: u32) -> ConnectionView {
        ConnectionView {
            objects: self.objects.remove(id),
            registries: self.registries.remove(id),
            ..self
        }
    }

    /// What becomes of a bind request: the connection after it, and whether it is passed
    /// on.
    pub open spec fn bind(self, bind: BindView, rules: Rules) -> (ConnectionView, bool) {
        match (bind.interface, self.xdg_wm_base) {
            (Some(name), _) if rules.blocks(name) => (
                ConnectionView { blocked: self.blocked.insert(bind.id), ..self },
                false,
            ),
            (Some(_), Some((type_id, _))) if bind.type_id == type_id => (
                self.track(bind.id, ObjType::XdgWmBase { ver: bind.version }),
                true,
            ),
            _ => (self, true),
        }
    }

    /// What becomes of a message from the client: the connection after it, and the message
    /// to pass on, if any, or the error that ends the connection.
    pub open spec fn from_client(self, packet: PacketView, rules: Rules) -> (
        ConnectionView,
        Result<Option<PacketView>, Seq<char>>,
    ) {
        match self.object(packet.id) {
            _ if self.blocked.contains(packet.id) => (self, Ok(None)),
            None => (self, Ok(Some(packet))),
            Some(object) => match (object.unsupported(), object.creates(packet.opcode), object) {
                (Some(complaint), _, _) => (self, Err(complaint)),
                (None, Some((child, text)), _) => match parse_uint(packet.body).0 {
                    Ok(id) => (self.track(id, child), Ok(Some(packet))),
                    Err(e) => (self, Err(in_context(text, e))),
                },
                (None, None, ObjType::Registry) if packet.opcode == 0 => match parse_bind(
                    packet.body,
                ) {
                    Ok(bind) => {
                        let (after, pass) = self.bind(bind, rules);
                        (
                            after,
                            Ok(
                                if pass {
                                    Some(packet)
                                } else {
                                    None
                                },
                            ),
                        )
                    },
                    Err(e) => (self, Err(e)),
                },
                (None, None, ObjType::XdgToplevel { .. }) => match rewritten(packet, rules) {
                    Ok(q) => (self, Ok(Some(q))),
                    Err(e) => (self, Err(e)),
                },
                _ => (self, Ok(Some(packet))),
            },
        }
    }

    /// The connection after the deletion that a message from the compositor may tell of.
    pub open spec fn after_deletion(self, packet: PacketView) -> Result<
        ConnectionView,
        Seq<char>,
    > {
        if packet.id == DISPLAY_ID && packet.opcode == 1 {
            match parse_uint(packet.body).0 {
                Ok(id) => Ok(self.forget(id)),
                Err(e) => Err(in_context("Error reading display delete obj id"@, e)),
            }
        } else {
            Ok(self)
        }
    }

    /// The connection after the announcement of a global.
    pub open spec fn announced(self, global: GlobalView) -> ConnectionView {
        if global.interface == Some("xdg_wm_base"@) {
            ConnectionView { xdg_wm_base: Some((global.type_id, global.version)), ..self }
        } else {
            self
        }
    }

    /// What becomes of a message from the compositor: the connection after it, and whether
    /// it is passed on, or the error that ends the connection.
    pub open spec fn from_server(self, packet: PacketView, rules: Rules) -> (
        ConnectionView,
        Result<bool, Seq<char>>,
    ) {
        match self.after_deletion(packet) {
            Err(e) => (self, Err(e)),
            Ok(left) => if left.registries.contains(packet.id) && packet.opcode == 0 {
                match parse_global(packet.body) {
                    Ok(global) => (
                        left.announced(global),
                        Ok(!(global.interface matches Some(name) && rules.blocks(name))),
                    ),
                    Err(e) => (left, Err(e)),
                }
            } else {
                (left, Ok(true))
            },
        }
    }
}

/// Whether a message is passed on.
#[derive(Clone, Copy, Debug, PartialEq, Eq, Structural)]
pub enum Verdict {
    Forward,
    Discard,
}

impl Connection {
    /// A connection on which nothing was said.
    pub fn new() -> (r: Self)
        ensures
            r@ == ConnectionView::fresh(),
    {
        let mut objects: HashMap<u32, ObjType> = HashMap::new();
        objects.insert(DISPLAY_ID, ObjType::Display);
        Connection {
            objects,
            xdg_wm_base: None,
            blocked: HashSet::new(),
            registries: HashSet::new(),
        }
    }

    /// The object with this id, if it is tracked.
    pub fn object(&self, id: u32) -> (r: Option<ObjType>)
        ensures
            r == self@.object(id),
    {
        match self.objects.get(&id) {
            Some(object) => Some(*object),
            None => None,
        }
    }

    /// Whether the object with this id was bound to a blocked interface.
    pub fn is_blocked(&self, id: u32) -> (r: bool)
        ensures
            r == self@.blocked.contains(id),
    {
        self.blocked.contains(&id)
    }

    /// Whether the client asked for a registry with this id and the compositor did not
    /// delete it.
    pub fn is_registry(&self, id: u32) -> (r: bool)
        ensures
            r == self@.registries.contains(id),
    {
        self.registries.contains(&id)
    }

    fn track(&mut self, id: u32, object: ObjType)
        ensures
            final(self)@ == old(self)@.track(id, object),
    {
        self.objects.insert(id, object);
        if let ObjType::Registry = object {
            self.registries.insert(id);
        }
    }

    fn bind(&mut self, bind: &Bind, args: &Args) -> (r: bool)
        ensures
            (final(self)@, r) == old(self)@.bind(bind@, args@),
    {
        if let Some(name) = &bind.interface {
            if is_blocked_interface(name.as_str(), args.block.as_slice()) {
                self.blocked.insert(bind.id);
                return false;
            }
            if let Some((type_id, _)) = self.xdg_wm_base {
                if bind.type_id == type_id {
                    self.track(bind.id, ObjType::XdgWmBase { ver: bind.version });
                }
            }
        }
        true
    }

    /// Takes a message from the client, and makes of it what is to be passed on.
    pub fn client_packet(&mut self, packet: &mut Packet, args: &Args) -> (r: Result<
        Verdict,
        String,
    >)
        ensures
            final(self)@ == old(self)@.from_client(old(packet)@, args@).0,
            match old(self)@.from_client(old(packet)@, args@).1 {
                Ok(Some(q)) => r == Ok::<Verdict, String>(Verdict::Forward) && final(packet)@ == q,
                Ok(None) => r == Ok::<Verdict, String>(Verdict::Discard) && final(packet)@ == old(
                    packet,
                )@,
                Err(e) => r matches Err(s) && s@ == e && final(packet)@ == old(packet)@,
            },
    {
        if self.is_blocked(packet.id) {
            return Ok(Verdict::Discard);
        }
        let object = match self.object(packet.id) {
            Some(object) => object,
            None => return Ok(Verdict::Forward),
        };
        if let Some(complaint) = object.complaint() {
            return Err(complaint);
        }
        if let Some((child, text)) = object.child(packet.opcode) {
            let id = read_arg_uint(&mut ByteReader::new(packet.body.as_slice())).context(text)?;
            self.track(id, child);
            return Ok(Verdict::Forward);
        }
        match object {
            ObjType::Registry => {
                if packet.opcode == 0 {
                    let bind = read_bind(packet.body.as_slice())?;
                    if !self.bind(&bind, args) {
                        return Ok(Verdict::Discard);
                    }
                }
            },
            ObjType::XdgToplevel { .. } => {
                rewrite(packet, args)?;
            },
            _ => {},
        }
        Ok(Verdict::Forward)
    }

    fn forget(&mut self, id: u32)
        ensures
            final(self)@ == old(self)@.forget(id),
    {
        self.objects.remove(&id);
        self.registries.remove(&id);
    }

    /// Takes a message from the compositor.
    pub fn server_packet(&mut self, packet: &Packet, args: &Args) -> (r: Result<Verdict, String>)
        ensures
            final(self)@ == old(self)@.from_server(packet@, args@).0,
            match old(self)@.from_server(packet@, args@).1 {
                Ok(true) => r == Ok::<Verdict, String>(Verdict::Forward),
                Ok(false) => r == Ok::<Verdict, String>(Verdict::Discard),
                Err(e) => r matches Err(s) && s@ == e,
            },
    {
        if packet.id == DISPLAY_ID && packet.opcode == 1 {
            let id = read_arg_uint(&mut ByteReader::new(packet.body.as_slice())).context(
                "Error reading display delete obj id",
            )?;
            self.forget(id);
        }
        if self.is_registry(packet.id) && packet.opcode == 0 {
            let global = read_global(packet.body.as_slice())?;
            if let Some(name) = &global.interface {
                if *name == "xdg_wm_base".to_owned() {
                    self.xdg_wm_base = Some((global.type_id, global.version));
                }
                if is_blocked_interface(name.as_str(), args.block.as_slice()) {
                    return Ok(Verdict::Discard);
                }
            }
        }
        Ok(Verdict::Forward)
    }
}

} // verus!
