//! Connections, with both sockets in memory.
use std::path::PathBuf;
use wlproxy::connection::{Connection, Verdict};
use wlproxy::proto::{
    read_arg_string, read_arg_uint, read_packet, write_arg_string, write_arg_uint, write_packet,
    ByteReader, Packet, ReadError,
};
use wlproxy::relay::{Action, Direction, Event, Relay};
use wlproxy::remarks::Remark;
use wlproxy::session::{farewell, Session};
use wlproxy::{handle_connection, Args, ObjType};

/// One direction, and what it wrote and closed so far.
struct Lane {
    direction: Direction,
    written: Vec<u8>,
    read: usize,
    sent_fds: Vec<Vec<i32>>,
    closed_fds: Vec<i32>,
    remarks: Vec<Remark>,
    finished: Option<Result<(), String>>,
}

impl Lane {
    fn new(direction: Direction) -> Lane {
        Lane {
            direction,
            written: vec![],
            read: 0,
            sent_fds: vec![],
            closed_fds: vec![],
            remarks: vec![],
            finished: None,
        }
    }

    /// Hands the lane some bytes, with the file descriptors that come with the first of
    /// them, until it waits for more.
    fn feed(&mut self, session: &mut Session, args: &Args, input: &[u8], fds: &[i32]) {
        let mut at = 0;
        let mut fds = fds.to_vec();
        loop {
            let event = match session.action(self.direction) {
                Action::Read(n) if n > input.len() - at => return,
                Action::Read(n) => {
                    let bytes = input[at..at + n].to_vec();
                    at += n;
                    Event::Read { bytes, fds: std::mem::take(&mut fds) }
                }
                Action::Write { bytes, fds } => {
                    self.written.extend(bytes);
                    if !fds.is_empty() {
                        self.sent_fds.push(fds);
                    }
                    Event::Written
                }
                Action::Close(fds) => {
                    self.closed_fds.extend(fds);
                    Event::Closed
                }
                Action::Finish(r) => {
                    self.finished = Some(r);
                    return;
                }
            };
            self.remarks.extend(session.remarks(self.direction, args, &event));
            session.step(self.direction, args, event);
        }
    }

    /// Lets the lane's next read fail.
    fn fail(&mut self, session: &mut Session, args: &Args, error: ReadError) {
        session.step(self.direction, args, Event::ReadFailed { error, fds: vec![] });
        self.feed(session, args, &[], &[]);
    }

    /// The next message that the lane wrote.
    fn receive(&mut self) -> Option<Packet> {
        let mut reader = ByteReader::new(&self.written[self.read..]);
        let packet = read_packet(&mut reader).unwrap();
        if let Some(p) = &packet {
            self.read += 8 + p.body.len();
        }
        packet
    }
}

/// A connection between a client and a compositor.
struct Proxy {
    args: Args,
    session: Session,
    up: Lane,
    down: Lane,
}

impl Proxy {
    fn new(args: Args) -> Proxy {
        Proxy {
            args,
            session: handle_connection(),
            up: Lane::new(Direction::ClientToServer),
            down: Lane::new(Direction::ServerToClient),
        }
    }

    fn client_sends(&mut self, packet: &Packet) {
        self.client_sends_with(packet, &[]);
    }

    fn client_sends_with(&mut self, packet: &Packet, fds: &[i32]) {
        self.up.feed(&mut self.session, &self.args, &wire(packet), fds);
    }

    fn compositor_sends(&mut self, packet: &Packet) {
        self.compositor_sends_with(packet, &[]);
    }

    fn compositor_sends_with(&mut self, packet: &Packet, fds: &[i32]) {
        self.down.feed(&mut self.session, &self.args, &wire(packet), fds);
    }

    fn compositor_receives(&mut self) -> Packet {
        self.up.receive().unwrap()
    }

    fn client_receives(&mut self) -> Packet {
        self.down.receive().unwrap()
    }

    fn client_closes(&mut self) -> Result<(), String> {
        self.up.fail(&mut self.session, &self.args, ReadError::UnexpectedEof);
        self.up.finished.clone().unwrap()
    }

    fn compositor_closes(&mut self) -> Result<(), String> {
        self.down.fail(&mut self.session, &self.args, ReadError::UnexpectedEof);
        self.down.finished.clone().unwrap()
    }
}

fn wire(packet: &Packet) -> Vec<u8> {
    let mut bytes = vec![];
    write_packet(&mut bytes, packet).unwrap();
    bytes
}

fn base_args() -> Args {
    Args {
        upstream: None,
        app_id: None,
        prefix_app_id: false,
        title: None,
        prefix_title: false,
        block: vec![],
        quiet: true,
        debug: false,
        downstream: PathBuf::from("/nonexistent/test"),
    }
}

fn blocking(names: &[&str]) -> Args {
    Args { block: names.iter().map(|s| s.to_string()).collect(), ..base_args() }
}

fn message(id: u32, opcode: u16, body: Vec<u8>) -> Packet {
    Packet { id, opcode, body }
}

fn uint(n: u32) -> Vec<u8> {
    let mut body = vec![];
    write_arg_uint(&mut body, n).unwrap();
    body
}

fn text(s: &str) -> Vec<u8> {
    let mut body = vec![];
    write_arg_string(&mut body, s).unwrap();
    body
}

fn get_registry(id: u32) -> Packet {
    message(1, 1, uint(id))
}

fn delete_id(id: u32) -> Packet {
    message(1, 1, uint(id))
}

fn global(registry: u32, type_id: u32, name: &str, version: u32) -> Packet {
    let mut body = uint(type_id);
    body.extend(text(name));
    body.extend(uint(version));
    message(registry, 0, body)
}

fn bind(registry: u32, type_id: u32, name: &str, version: u32, id: u32) -> Packet {
    let mut packet = global(registry, type_id, name, version);
    packet.body.extend(uint(id));
    packet
}

fn text_in(packet: &Packet) -> Option<String> {
    read_arg_string(&mut ByteReader::new(&packet.body)).unwrap()
}

fn interface_in(packet: &Packet) -> Option<String> {
    let mut reader = ByteReader::new(&packet.body);
    read_arg_uint(&mut reader).unwrap();
    read_arg_string(&mut reader).unwrap()
}

/// Makes the toplevel 5 of the surface 4 of the base 3 from the registry 2.
fn build_object_chain(proxy: &mut Proxy) {
    proxy.client_sends(&get_registry(2));
    let _ = proxy.compositor_receives();
    proxy.compositor_sends(&global(2, 0, "xdg_wm_base", 1));
    let _ = proxy.client_receives();
    proxy.client_sends(&bind(2, 0, "xdg_wm_base", 1, 3));
    let _ = proxy.compositor_receives();
    proxy.client_sends(&message(3, 2, uint(4)));
    let _ = proxy.compositor_receives();
    proxy.client_sends(&message(4, 1, uint(5)));
    let _ = proxy.compositor_receives();
}

/// What the compositor gets where the toplevel's client sends `original`.
fn rewritten(args: Args, opcode: u16, original: &str) -> Option<String> {
    let mut proxy = Proxy::new(args);
    build_object_chain(&mut proxy);
    proxy.client_sends(&message(5, opcode, text(original)));
    let packet = proxy.compositor_receives();
    assert_eq!(packet.id, 5);
    assert_eq!(packet.opcode, opcode);
    assert_eq!(proxy.client_closes(), Ok(()));
    text_in(&packet)
}

// ---------------------------------------------------------------------------
// From the client to the server
// ---------------------------------------------------------------------------

#[test]
fn c2s_passthrough() {
    let mut proxy = Proxy::new(base_args());
    proxy.client_sends(&message(1, 1, uint(2)));
    assert_eq!(proxy.client_closes(), Ok(()));

    let pkt = proxy.compositor_receives();
    assert_eq!(pkt.id, 1);
    assert_eq!(pkt.opcode, 1);
    let new_id = read_arg_uint(&mut ByteReader::new(&pkt.body)).unwrap();
    assert_eq!(new_id, 2);
    assert_eq!(proxy.session.connection().object(2), Some(ObjType::Registry));
}

#[test]
fn c2s_app_id_replacement() {
    let args = Args { app_id: Some("my-app".to_string()), ..base_args() };
    assert_eq!(rewritten(args, 3, "orig"), Some("my-app".to_string()));
}

#[test]
fn c2s_title_replacement() {
    let args = Args { title: Some("my-title".to_string()), ..base_args() };
    assert_eq!(rewritten(args, 2, "orig-title"), Some("my-title".to_string()));
}

#[test]
fn c2s_app_id_prefix() {
    let args = Args {
        app_id: Some("pfx-".to_string()),
        prefix_app_id: true,
        ..base_args()
    };
    assert_eq!(rewritten(args, 3, "orig"), Some("pfx-orig".to_string()));
}

#[test]
fn c2s_blocked_interface_drops_bind() {
    let mut proxy = Proxy::new(blocking(&["wl_output"]));
    proxy.client_sends(&get_registry(2));
    proxy.client_sends(&bind(2, 0, "wl_output", 1, 3));
    proxy.client_sends(&message(3, 0, vec![]));
    assert_eq!(proxy.client_closes(), Ok(()));

    let pkt = proxy.compositor_receives();
    assert_eq!(pkt.id, 1);
    assert_eq!(pkt.opcode, 1);
    assert!(proxy.up.receive().is_none());
}

#[test]
fn c2s_object_chain() {
    let mut proxy = Proxy::new(base_args());
    build_object_chain(&mut proxy);
    assert_eq!(proxy.session.connection().object(1), Some(ObjType::Display));
    assert_eq!(proxy.session.connection().object(2), Some(ObjType::Registry));
    assert_eq!(proxy.session.connection().object(3), Some(ObjType::XdgWmBase { ver: 1 }));
    assert_eq!(proxy.session.connection().object(4), Some(ObjType::XdgSurface { ver: 1 }));
    assert_eq!(proxy.session.connection().object(5), Some(ObjType::XdgToplevel { ver: 1 }));
    assert_eq!(proxy.session.connection().object(6), None);
}

#[test]
fn c2s_other_requests_of_a_toplevel_pass() {
    let args = Args {
        app_id: Some("a".to_string()),
        title: Some("t".to_string()),
        ..base_args()
    };
    let mut proxy = Proxy::new(args);
    build_object_chain(&mut proxy);
    for opcode in [0, 1, 4, 13] {
        let sent = message(5, opcode, text("orig"));
        proxy.client_sends(&sent);
        assert_eq!(proxy.compositor_receives(), sent);
    }
}

#[test]
fn c2s_null_text_is_replaced() {
    let args = Args {
        title: Some("pfx-".to_string()),
        prefix_title: true,
        ..base_args()
    };
    let mut proxy = Proxy::new(args);
    build_object_chain(&mut proxy);
    proxy.client_sends(&message(5, 2, uint(0)));
    assert_eq!(text_in(&proxy.compositor_receives()), Some("pfx-".to_string()));
}

/// How the connection ends where the client sends one more message.
fn client_error(proxy: &mut Proxy, packet: &Packet) -> String {
    proxy.client_sends(packet);
    assert!(proxy.up.receive().is_none());
    proxy.up.finished.clone().unwrap().unwrap_err()
}

#[test]
fn c2s_errors_of_short_messages() {
    let errors = [
        (message(1, 1, vec![1, 2]), "Error reading registry id: "),
        (message(2, 0, vec![1]), "Error/eof reading bind object type id: "),
        (message(2, 0, uint(1)), "Error reading bind message type string: "),
        (
            message(2, 0, [uint(1), text("wl_shm")].concat()),
            "Error reading bind message version: ",
        ),
        (global(2, 1, "wl_shm", 1), "Error/eof reading bind object id: "),
        (message(3, 2, vec![]), "Error reading xdg wm base create surface id: "),
        (message(4, 1, vec![]), "Error reading xdg surface create toplevel id: "),
        (message(5, 2, vec![]), "Error reading app id message body: "),
        (message(5, 3, vec![]), "Error reading app id message body: "),
    ];
    for (packet, expected) in errors {
        let args = Args {
            app_id: Some("a".to_string()),
            title: Some("t".to_string()),
            ..base_args()
        };
        let mut proxy = Proxy::new(args);
        build_object_chain(&mut proxy);
        let e = client_error(&mut proxy, &packet);
        assert!(e.starts_with(expected), "{e:?} for {packet:?}");
        assert!(e.len() > expected.len());
    }
}

#[test]
fn c2s_text_that_is_not_replaced_is_not_read() {
    let mut proxy = Proxy::new(base_args());
    build_object_chain(&mut proxy);
    for opcode in [2, 3] {
        let sent = message(5, opcode, vec![]);
        proxy.client_sends(&sent);
        assert_eq!(proxy.compositor_receives(), sent);
    }
}

#[test]
fn c2s_unsupported_versions() {
    let mut proxy = Proxy::new(base_args());
    proxy.client_sends(&get_registry(2));
    proxy.compositor_sends(&global(2, 0, "xdg_wm_base", 7));
    proxy.client_sends(&bind(2, 0, "xdg_wm_base", 7, 3));
    for _ in 0..2 {
        let _ = proxy.compositor_receives();
    }
    assert_eq!(proxy.session.connection().object(3), Some(ObjType::XdgWmBase { ver: 7 }));
    assert_eq!(
        client_error(&mut proxy, &message(3, 0, vec![])),
        "Unsupported xdg_wm_base object version 7"
    );
}

#[test]
fn c2s_supported_versions() {
    for ver in 0..=6 {
        let mut proxy = Proxy::new(base_args());
        proxy.client_sends(&get_registry(2));
        proxy.compositor_sends(&global(2, 0, "xdg_wm_base", 6));
        proxy.client_sends(&bind(2, 0, "xdg_wm_base", ver, 3));
        proxy.client_sends(&message(3, 2, uint(4)));
        proxy.client_sends(&message(4, 1, uint(5)));
        assert_eq!(proxy.session.connection().object(5), Some(ObjType::XdgToplevel { ver }));
        assert_eq!(proxy.up.finished, None);
    }
}

#[test]
fn c2s_bind_by_number_not_by_name() {
    let mut proxy = Proxy::new(base_args());
    proxy.client_sends(&get_registry(2));
    proxy.client_sends(&bind(2, 0, "xdg_wm_base", 1, 3));
    assert_eq!(proxy.session.connection().object(3), None);
    proxy.compositor_sends(&global(2, 9, "xdg_wm_base", 1));
    proxy.client_sends(&bind(2, 8, "xdg_wm_base", 1, 4));
    assert_eq!(proxy.session.connection().object(4), None);
    proxy.client_sends(&bind(2, 9, "anything", 1, 5));
    assert_eq!(proxy.session.connection().object(5), Some(ObjType::XdgWmBase { ver: 1 }));
    assert_eq!(proxy.up.finished, None);
}

#[test]
fn c2s_verdicts() {
    let args = blocking(&["wl_output"]);
    let mut conn = Connection::new();
    let mut packet = get_registry(2);
    assert!(matches!(conn.client_packet(&mut packet, &args), Ok(Verdict::Forward)));
    assert_eq!(packet, get_registry(2));
    let mut packet = bind(2, 0, "wl_output", 1, 3);
    assert!(matches!(conn.client_packet(&mut packet, &args), Ok(Verdict::Discard)));
    assert!(conn.is_blocked(3));
    assert!(!conn.is_blocked(2));
    let mut packet = message(3, 77, vec![1, 2, 3]);
    assert!(matches!(conn.client_packet(&mut packet, &args), Ok(Verdict::Discard)));
}

// ---------------------------------------------------------------------------
// From the server to the client
// ---------------------------------------------------------------------------

#[test]
fn s2c_passthrough() {
    let mut proxy = Proxy::new(base_args());
    proxy.client_sends(&get_registry(2));
    proxy.compositor_sends(&global(2, 0, "wl_output", 1));
    assert_eq!(proxy.compositor_closes(), Ok(()));

    let pkt = proxy.client_receives();
    assert_eq!(pkt.id, 2);
    assert_eq!(pkt.opcode, 0);
    assert_eq!(interface_in(&pkt), Some("wl_output".to_string()));
}

#[test]
fn s2c_global_filtering() {
    let mut proxy = Proxy::new(blocking(&["wl_output"]));
    proxy.client_sends(&get_registry(2));
    proxy.compositor_sends(&global(2, 0, "wl_output", 1));
    proxy.compositor_sends(&global(2, 1, "wl_compositor", 4));
    assert_eq!(proxy.compositor_closes(), Ok(()));

    let pkt = proxy.client_receives();
    assert_eq!(pkt.id, 2);
    assert_eq!(interface_in(&pkt), Some("wl_compositor".to_string()));
    assert!(proxy.down.receive().is_none());
}

#[test]
fn s2c_errors_of_short_messages() {
    let errors = [
        (message(1, 1, vec![1, 2, 3]), "Error reading display delete obj id: "),
        (message(2, 0, vec![]), "Error reading global message type id: "),
        (message(2, 0, uint(3)), "Error reading global message type string: "),
        (
            message(2, 0, [uint(3), text("wl_shm")].concat()),
            "Error reading global message version: ",
        ),
    ];
    for (packet, expected) in errors {
        let mut proxy = Proxy::new(base_args());
        proxy.client_sends(&get_registry(2));
        proxy.compositor_sends(&packet);
        let e = proxy.down.finished.clone().unwrap().unwrap_err();
        assert!(e.starts_with(expected), "{e:?}");
        assert!(proxy.down.receive().is_none());
    }
}

#[test]
fn s2c_other_events_of_a_registry_pass() {
    let mut proxy = Proxy::new(blocking(&["wl_output"]));
    proxy.client_sends(&get_registry(2));
    let removed = message(2, 1, uint(0));
    proxy.compositor_sends(&removed);
    assert_eq!(proxy.client_receives(), removed);
}

#[test]
fn s2c_every_registry_is_filtered() {
    let mut proxy = Proxy::new(blocking(&["wl_output"]));
    proxy.client_sends(&get_registry(2));
    proxy.client_sends(&get_registry(3));
    let first = global(2, 0, "wl_compositor", 4);
    proxy.compositor_sends(&first);
    proxy.compositor_sends_with(&global(3, 1, "wl_output", 1), &[42]);
    proxy.compositor_sends(&global(2, 1, "wl_output", 1));
    let second = global(3, 0, "wl_compositor", 4);
    proxy.compositor_sends(&second);
    assert_eq!(proxy.compositor_closes(), Ok(()));
    assert_eq!(proxy.client_receives(), first);
    assert_eq!(proxy.client_receives(), second);
    assert!(proxy.down.receive().is_none());
    assert_eq!(proxy.down.closed_fds, vec![42]);
}

#[test]
fn s2c_registry_is_filtered_after_its_id_was_given_away() {
    let mut proxy = Proxy::new(blocking(&["wl_output"]));
    build_object_chain(&mut proxy);
    proxy.client_sends(&message(3, 2, uint(2)));
    assert_eq!(proxy.session.connection().object(2), Some(ObjType::XdgSurface { ver: 1 }));
    assert!(proxy.session.connection().is_registry(2));
    proxy.compositor_sends(&global(2, 1, "wl_output", 1));
    assert!(proxy.down.receive().is_none());
    let other = global(2, 1, "wl_shm", 1);
    proxy.compositor_sends(&other);
    assert_eq!(proxy.client_receives(), other);

    proxy.compositor_sends(&delete_id(2));
    assert_eq!(proxy.client_receives(), delete_id(2));
    assert!(!proxy.session.connection().is_registry(2));
    let free = global(2, 1, "wl_output", 1);
    proxy.compositor_sends(&free);
    assert_eq!(proxy.client_receives(), free);
}

#[test]
fn objects_stay_tracked_through_ordinary_traffic() {
    let mut proxy = Proxy::new(base_args());
    build_object_chain(&mut proxy);
    proxy.client_sends(&message(77, 1, uint(5)));
    proxy.client_sends(&message(1, 0, uint(5)));
    proxy.client_sends(&message(3, 1, uint(5)));
    proxy.client_sends(&bind(2, 9, "wl_shm", 1, 5));
    proxy.compositor_sends(&message(1, 0, uint(5)));
    assert_eq!(proxy.session.connection().object(5), Some(ObjType::XdgToplevel { ver: 1 }));
    proxy.client_sends(&message(3, 2, uint(5)));
    assert_eq!(proxy.session.connection().object(5), Some(ObjType::XdgSurface { ver: 1 }));
}

#[test]
fn s2c_xdg_wm_base_is_learnt_from_any_registry() {
    let args = Args { app_id: Some("filtered".to_string()), ..base_args() };
    let mut proxy = Proxy::new(args);
    proxy.client_sends(&get_registry(2));
    proxy.client_sends(&get_registry(3));
    proxy.compositor_sends(&global(2, 0, "wl_compositor", 4));
    proxy.compositor_sends(&global(3, 7, "xdg_wm_base", 6));
    proxy.client_sends(&bind(3, 7, "xdg_wm_base", 6, 4));
    assert_eq!(proxy.session.connection().object(4), Some(ObjType::XdgWmBase { ver: 6 }));
}

#[test]
fn s2c_verdicts() {
    let args = blocking(&["wl_output"]);
    let mut conn = Connection::new();
    conn.client_packet(&mut get_registry(2), &args).unwrap();
    assert!(matches!(
        conn.server_packet(&global(2, 0, "wl_output", 1), &args),
        Ok(Verdict::Discard)
    ));
    assert!(matches!(
        conn.server_packet(&global(2, 0, "wl_shm", 1), &args),
        Ok(Verdict::Forward)
    ));
}

// ---------------------------------------------------------------------------
// Reading and writing
// ---------------------------------------------------------------------------

#[test]
fn relay_ends_where_the_peer_is_gone() {
    let gone = [
        ReadError::UnexpectedEof,
        ReadError::BrokenPipe,
        ReadError::NotConnected,
        ReadError::ConnectionAborted,
        ReadError::ConnectionRefused,
        ReadError::ConnectionReset,
    ];
    for error in gone {
        let mut proxy = Proxy::new(base_args());
        proxy.up.fail(&mut proxy.session, &proxy.args, error);
        assert_eq!(proxy.up.finished, Some(Ok(())));
    }
    let mut proxy = Proxy::new(base_args());
    proxy.up.fail(&mut proxy.session, &proxy.args, ReadError::Other);
    let e = proxy.up.finished.unwrap().unwrap_err();
    assert!(e.starts_with("Error reading message: "), "{e:?}");
}

#[test]
fn relay_errs_on_half_a_message() {
    let mut proxy = Proxy::new(base_args());
    proxy.up.feed(&mut proxy.session, &proxy.args, &wire(&get_registry(2))[..4], &[]);
    proxy.up.fail(&mut proxy.session, &proxy.args, ReadError::UnexpectedEof);
    let e = proxy.up.finished.unwrap().unwrap_err();
    assert!(e.starts_with("Error reading message: "), "{e:?}");
    assert!(proxy.up.written.is_empty());
}

#[test]
fn relay_errs_where_a_piece_cannot_be_written() {
    for (writes, piece) in ["header word 1", "header word 2", "body"].iter().enumerate() {
        let args = base_args();
        let mut conn = Connection::new();
        let mut relay = Relay::new(Direction::ServerToClient);
        let bytes = wire(&message(9, 4, vec![1, 2, 3, 4]));
        let mut at = 0;
        let mut written = 0;
        let result = loop {
            let event = match relay.action() {
                Action::Read(n) => {
                    at += n;
                    Event::Read { bytes: bytes[at - n..at].to_vec(), fds: vec![] }
                }
                Action::Write { .. } if written == writes => Event::WriteFailed,
                Action::Write { .. } => {
                    written += 1;
                    Event::Written
                }
                Action::Close(_) => unreachable!(),
                Action::Finish(r) => break r,
            };
            relay.step(&mut conn, &args, event);
        };
        assert_eq!(result, Err(format!("Error writing message: {piece}")));
    }
}

#[test]
fn relay_passes_over_misplaced_events() {
    let args = base_args();
    let mut conn = Connection::new();
    let mut relay = Relay::new(Direction::ClientToServer);
    relay.step(&mut conn, &args, Event::Written);
    relay.step(&mut conn, &args, Event::WriteFailed);
    relay.step(&mut conn, &args, Event::Closed);
    relay.step(&mut conn, &args, Event::Read { bytes: vec![1, 2, 3], fds: vec![7] });
    assert!(matches!(relay.action(), Action::Read(4)));
}

#[test]
fn relay_carries_a_stream_of_messages() {
    let mut proxy = Proxy::new(base_args());
    let packets: Vec<Packet> = (0..5).map(|i| message(i + 20, i as u16, vec![i as u8; 4])).collect();
    let stream: Vec<u8> = packets.iter().flat_map(wire).collect();
    proxy.down.feed(&mut proxy.session, &proxy.args, &stream, &[]);
    assert_eq!(proxy.down.written, stream);
    for packet in &packets {
        assert_eq!(&proxy.client_receives(), packet);
    }
    assert_eq!(proxy.compositor_closes(), Ok(()));
}

#[test]
fn relay_sends_descriptors_with_the_first_piece() {
    let args = base_args();
    let mut conn = Connection::new();
    let mut relay = Relay::new(Direction::ClientToServer);
    let bytes = wire(&message(9, 4, vec![1, 2, 3, 4]));
    relay.step(&mut conn, &args, Event::Read { bytes: bytes[..4].to_vec(), fds: vec![3] });
    relay.step(&mut conn, &args, Event::Read { bytes: bytes[4..8].to_vec(), fds: vec![] });
    relay.step(&mut conn, &args, Event::Read { bytes: bytes[8..].to_vec(), fds: vec![4, 5] });
    let mut writes = vec![];
    while let Action::Write { bytes, fds } = relay.action() {
        writes.push((bytes, fds));
        relay.step(&mut conn, &args, Event::Written);
    }
    assert_eq!(
        writes,
        vec![
            (bytes[..4].to_vec(), vec![3, 4, 5]),
            (bytes[4..8].to_vec(), vec![]),
            (bytes[8..].to_vec(), vec![]),
        ]
    );
    match relay.action() {
        Action::Close(fds) => assert_eq!(fds, vec![3, 4, 5]),
        _ => panic!("the descriptors are not closed"),
    }
}

#[test]
fn relay_keeps_descriptors_apart() {
    let mut proxy = Proxy::new(base_args());
    proxy.client_sends_with(&message(9, 4, vec![]), &[3]);
    proxy.client_sends_with(&message(9, 4, vec![]), &[]);
    proxy.client_sends_with(&message(9, 4, vec![]), &[4, 5]);
    assert_eq!(proxy.up.sent_fds, vec![vec![3], vec![4, 5]]);
    assert_eq!(proxy.up.closed_fds, vec![3, 4, 5]);
}

// ---------------------------------------------------------------------------
// Both directions
// ---------------------------------------------------------------------------

#[test]
fn wlproxy_basic_passthrough() {
    let mut proxy = Proxy::new(base_args());
    let sent = message(1, 0, vec![0xAB, 0xCD, 0x00, 0x00]);
    proxy.client_sends(&sent);
    assert_eq!(proxy.compositor_receives(), sent);
    let reply = message(1, 0, vec![0xAA]);
    proxy.compositor_sends(&reply);
    assert_eq!(proxy.client_receives(), reply);
}

#[test]
fn wlproxy_multiple_concurrent_connections() {
    let mut proxy1 = Proxy::new(base_args());
    let mut proxy2 = Proxy::new(base_args());
    let msg1 = message(1, 0, vec![0x11, 0x22, 0x00, 0x00]);
    proxy1.client_sends(&msg1);
    assert_eq!(proxy1.compositor_receives(), msg1);
    let msg2 = message(1, 0, vec![0x33, 0x44, 0x00, 0x00]);
    proxy2.client_sends(&msg2);
    assert_eq!(proxy2.compositor_receives(), msg2);
    let reply1 = message(1, 0, vec![0xAA]);
    proxy1.compositor_sends(&reply1);
    assert_eq!(proxy1.client_receives(), reply1);
    let reply2 = message(1, 0, vec![0xBB]);
    proxy2.compositor_sends(&reply2);
    assert_eq!(proxy2.client_receives(), reply2);
}

#[test]
fn wlproxy_object_chain_and_app_id_replacement() {
    let args = Args { app_id: Some("filtered".to_string()), ..base_args() };
    assert_eq!(rewritten(args, 3, "my-app").as_deref(), Some("filtered"));
}

#[test]
fn wlproxy_title_replacement() {
    let args = Args { title: Some("filtered-title".to_string()), ..base_args() };
    assert_eq!(rewritten(args, 2, "my-title").as_deref(), Some("filtered-title"));
}

#[test]
fn wlproxy_app_id_prefix() {
    let args = Args {
        app_id: Some("pfx-".to_string()),
        prefix_app_id: true,
        ..base_args()
    };
    assert_eq!(rewritten(args, 3, "my-app").as_deref(), Some("pfx-my-app"));
}

#[test]
fn wlproxy_empty_app_id() {
    let args = Args { app_id: Some("fallback".to_string()), ..base_args() };
    assert_eq!(rewritten(args, 3, "").as_deref(), Some("fallback"));
}

#[test]
fn wlproxy_empty_title_prefix() {
    let args = Args {
        title: Some("pfx-".to_string()),
        prefix_title: true,
        ..base_args()
    };
    assert_eq!(rewritten(args, 2, "").as_deref(), Some("pfx-"));
}

#[test]
fn wlproxy_title_prefix() {
    let args = Args {
        title: Some("pfx-".to_string()),
        prefix_title: true,
        ..base_args()
    };
    assert_eq!(rewritten(args, 2, "my-title").as_deref(), Some("pfx-my-title"));
}

#[test]
fn wlproxy_delete_id() {
    let args = Args { app_id: Some("filtered".to_string()), ..base_args() };
    let mut proxy = Proxy::new(args);
    build_object_chain(&mut proxy);

    proxy.compositor_sends(&delete_id(5));
    let _ = proxy.client_receives();

    proxy.client_sends(&message(5, 3, text("my-app")));
    assert_eq!(text_in(&proxy.compositor_receives()).as_deref(), Some("my-app"));
}

#[test]
fn wlproxy_delete_id_registry() {
    let args = Args { app_id: Some("filtered".to_string()), ..base_args() };
    let mut proxy = Proxy::new(args);
    proxy.client_sends(&get_registry(2));
    let _ = proxy.compositor_receives();
    proxy.compositor_sends(&global(2, 0, "xdg_wm_base", 6));
    let _ = proxy.client_receives();
    proxy.compositor_sends(&delete_id(2));
    let _ = proxy.client_receives();
    proxy.client_sends(&get_registry(3));
    let _ = proxy.compositor_receives();
    proxy.compositor_sends(&global(3, 0, "wl_compositor", 4));
    let p = proxy.client_receives();
    assert_eq!(p.id, 3);
    assert_eq!(p.opcode, 0);
    assert_eq!(interface_in(&p).as_deref(), Some("wl_compositor"));
}

#[test]
fn registry_after_a_deleted_one_is_filtered() {
    let mut proxy = Proxy::new(blocking(&["wl_output"]));
    proxy.client_sends(&get_registry(2));
    proxy.compositor_sends(&global(2, 0, "wl_output", 1));
    proxy.compositor_sends(&delete_id(2));
    proxy.client_sends(&get_registry(3));
    proxy.compositor_sends(&global(3, 0, "wl_output", 1));
    assert_eq!(proxy.client_receives(), delete_id(2));
    assert!(proxy.down.receive().is_none());
}

#[test]
fn wlproxy_global_filtering() {
    let args = Args { app_id: Some("filtered".to_string()), ..base_args() };
    let mut proxy = Proxy::new(args);
    proxy.client_sends(&get_registry(2));
    let _ = proxy.compositor_receives();
    proxy.compositor_sends(&global(2, 0, "wl_compositor", 4));
    let _ = proxy.client_receives();
    proxy.compositor_sends(&global(2, 1, "xdg_wm_base", 6));
    let _ = proxy.client_receives();
    proxy.client_sends(&bind(2, 0, "wl_compositor", 4, 3));
    let _ = proxy.compositor_receives();
    proxy.client_sends(&bind(2, 1, "xdg_wm_base", 6, 4));
    let _ = proxy.compositor_receives();
    proxy.client_sends(&message(4, 2, uint(5)));
    let _ = proxy.compositor_receives();
    proxy.client_sends(&message(5, 1, uint(6)));
    let _ = proxy.compositor_receives();

    proxy.client_sends(&message(3, 3, text("my-app-3")));
    assert_eq!(text_in(&proxy.compositor_receives()).as_deref(), Some("my-app-3"));
    proxy.client_sends(&message(6, 3, text("some-app")));
    assert_eq!(text_in(&proxy.compositor_receives()).as_deref(), Some("filtered"));
}

#[test]
fn wlproxy_fd_forwarding_server_to_client() {
    let mut proxy = Proxy::new(base_args());
    let packet = message(1, 0, vec![]);
    assert_eq!(wire(&packet).len(), 8);
    proxy.compositor_sends_with(&packet, &[42]);
    assert_eq!(proxy.down.sent_fds, vec![vec![42]]);
    assert_eq!(proxy.client_receives(), packet);
    assert_eq!(proxy.down.closed_fds, vec![42]);
}

#[test]
fn wlproxy_fd_forwarding_client_to_server() {
    let mut proxy = Proxy::new(base_args());
    let packet = message(1, 0, vec![]);
    assert_eq!(wire(&packet).len(), 8);
    proxy.client_sends_with(&packet, &[42]);
    assert_eq!(proxy.up.sent_fds, vec![vec![42]]);
    assert_eq!(proxy.compositor_receives(), packet);
    assert_eq!(proxy.up.closed_fds, vec![42]);
}

#[test]
fn wlproxy_block_interfaces() {
    let mut proxy = Proxy::new(blocking(&[
        "zwlr_layer_shell_v1",
        "ext_data_control_manager_v1",
        "zwlr_screencopy_manager_v1",
    ]));
    proxy.client_sends(&get_registry(2));
    let _ = proxy.compositor_receives();
    proxy.compositor_sends(&global(2, 0, "wl_compositor", 4));
    proxy.compositor_sends(&global(2, 1, "zwlr_layer_shell_v1", 5));
    proxy.compositor_sends(&global(2, 2, "xdg_wm_base", 6));
    proxy.compositor_sends(&global(2, 3, "ext_data_control_manager_v1", 1));
    proxy.compositor_sends(&global(2, 4, "wl_shm", 1));
    proxy.compositor_sends(&global(2, 5, "zwlr_screencopy_manager_v1", 3));
    proxy.compositor_sends(&delete_id(999));

    for expected in ["wl_compositor", "xdg_wm_base", "wl_shm"] {
        let p = proxy.client_receives();
        assert_eq!(p.id, 2);
        assert_eq!(p.opcode, 0);
        assert_eq!(interface_in(&p).as_deref(), Some(expected));
    }
    assert_eq!(proxy.client_receives(), delete_id(999));
}

#[test]
fn wlproxy_block_interfaces_app_id_still_works() {
    let args = Args {
        app_id: Some("filtered".to_string()),
        ..blocking(&["zwlr_layer_shell_v1", "ext_data_control_manager_v1"])
    };
    assert_eq!(rewritten(args, 3, "my-app").as_deref(), Some("filtered"));
}

#[test]
fn wlproxy_block_interfaces_does_not_leak_fds() {
    let mut proxy = Proxy::new(blocking(&["zwlr_layer_shell_v1"]));
    proxy.client_sends(&get_registry(2));
    let _ = proxy.compositor_receives();
    proxy.compositor_sends_with(&global(2, 0, "zwlr_layer_shell_v1", 5), &[42]);
    assert_eq!(proxy.down.closed_fds, vec![42]);
    proxy.compositor_sends(&global(2, 1, "wl_compositor", 4));
    proxy.compositor_sends(&delete_id(999));

    let p = proxy.client_receives();
    assert_eq!(p.id, 2);
    assert_eq!(p.opcode, 0);
    assert_eq!(interface_in(&p).as_deref(), Some("wl_compositor"));
    let sentinel = proxy.client_receives();
    assert_eq!(sentinel.id, 1);
    assert_eq!(sentinel.opcode, 1);
    assert_eq!(read_arg_uint(&mut ByteReader::new(&sentinel.body)).unwrap(), 999);
    assert!(proxy.down.sent_fds.is_empty());
}

#[test]
fn wlproxy_block_interfaces_does_not_leak_fds_on_bind() {
    let mut proxy = Proxy::new(blocking(&["zwlr_layer_shell_v1"]));
    proxy.client_sends(&get_registry(2));
    let _ = proxy.compositor_receives();
    proxy.client_sends_with(&bind(2, 0, "zwlr_layer_shell_v1", 5, 3), &[42]);
    proxy.client_sends(&message(1, 0, uint(999)));

    let received = proxy.compositor_receives();
    assert_eq!(received.id, 1);
    assert_eq!(received.opcode, 0);
    assert_eq!(proxy.up.closed_fds, vec![42]);
    assert!(proxy.up.sent_fds.is_empty());
}

#[test]
fn wlproxy_block_interfaces_and_title_prefix() {
    let args = Args {
        title: Some("pfx-".to_string()),
        prefix_title: true,
        ..blocking(&["zwlr_layer_shell_v1"])
    };
    assert_eq!(rewritten(args, 2, "my-title").as_deref(), Some("pfx-my-title"));
}

#[test]
fn wlproxy_block_interfaces_blocks_bind_requests() {
    let args = Args {
        app_id: Some("filtered".to_string()),
        ..blocking(&["zwlr_layer_shell_v1"])
    };
    let mut proxy = Proxy::new(args);
    proxy.client_sends(&get_registry(2));
    let _ = proxy.compositor_receives();
    proxy.compositor_sends(&global(2, 0, "xdg_wm_base", 6));
    proxy.compositor_sends(&global(2, 1, "zwlr_layer_shell_v1", 5));
    let p = proxy.client_receives();
    assert_eq!(p.id, 2);
    assert_eq!(p.opcode, 0);
    assert_eq!(interface_in(&p).as_deref(), Some("xdg_wm_base"));

    proxy.client_sends(&bind(2, 1, "zwlr_layer_shell_v1", 5, 3));
    proxy.client_sends(&bind(2, 0, "xdg_wm_base", 6, 4));
    proxy.compositor_sends(&delete_id(999));

    let received = proxy.compositor_receives();
    assert_eq!(received.id, 2);
    assert_eq!(received.opcode, 0);
    assert_eq!(interface_in(&received).as_deref(), Some("xdg_wm_base"));
    let sentinel = proxy.client_receives();
    assert_eq!(sentinel.id, 1);
    assert_eq!(sentinel.opcode, 1);

    proxy.client_sends(&message(4, 2, uint(5)));
    let _ = proxy.compositor_receives();
    proxy.client_sends(&message(5, 1, uint(6)));
    let _ = proxy.compositor_receives();
}

#[test]
fn wlproxy_block_interfaces_drops_messages_to_blocked_object() {
    let mut proxy = Proxy::new(blocking(&["zwlr_layer_shell_v1"]));
    proxy.client_sends(&get_registry(2));
    let _ = proxy.compositor_receives();
    proxy.client_sends(&bind(2, 1, "zwlr_layer_shell_v1", 5, 3));
    proxy.client_sends(&message(3, 0, uint(10)));
    proxy.client_sends(&message(1, 0, vec![0; 4]));
    let received = proxy.compositor_receives();
    assert_eq!(received.id, 1);
    assert_eq!(received.opcode, 0);
}

#[test]
fn blocked_object_stays_blocked_when_deleted() {
    let mut proxy = Proxy::new(blocking(&["zwlr_layer_shell_v1"]));
    proxy.client_sends(&get_registry(2));
    let _ = proxy.compositor_receives();
    proxy.client_sends(&bind(2, 1, "zwlr_layer_shell_v1", 5, 3));
    proxy.compositor_sends(&delete_id(3));
    proxy.client_sends(&message(3, 0, uint(10)));
    assert!(proxy.up.receive().is_none());
    assert!(proxy.session.connection().is_blocked(3));
}

#[test]
fn wlproxy_block_multiple_flags() {
    let mut proxy = Proxy::new(blocking(&[
        "zwlr_layer_shell_v1",
        "ext_data_control_manager_v1",
    ]));
    proxy.client_sends(&get_registry(2));
    let _ = proxy.compositor_receives();
    proxy.compositor_sends(&global(2, 0, "wl_compositor", 4));
    proxy.compositor_sends(&global(2, 1, "zwlr_layer_shell_v1", 5));
    proxy.compositor_sends(&global(2, 2, "ext_data_control_manager_v1", 1));
    proxy.compositor_sends(&global(2, 3, "xdg_wm_base", 6));
    proxy.compositor_sends(&delete_id(999));

    for expected in ["wl_compositor", "xdg_wm_base"] {
        let p = proxy.client_receives();
        assert_eq!(p.id, 2);
        assert_eq!(p.opcode, 0);
        assert_eq!(interface_in(&p).as_deref(), Some(expected));
    }
    let sentinel = proxy.client_receives();
    assert_eq!(sentinel.id, 1);
    assert_eq!(sentinel.opcode, 1);
}

// ---------------------------------------------------------------------------
// Sessions
// ---------------------------------------------------------------------------

#[test]
fn session_starts_fresh() {
    let session = handle_connection();
    assert_eq!(session.connection().object(1), Some(ObjType::Display));
    assert_eq!(session.connection().object(2), None);
    assert!(matches!(session.action(Direction::ClientToServer), Action::Read(4)));
    assert!(matches!(session.action(Direction::ServerToClient), Action::Read(4)));
}

#[test]
fn directions_take_turns_within_messages() {
    let mut proxy = Proxy::new(blocking(&["wl_output"]));
    let registry = wire(&get_registry(2));
    let announced = wire(&global(2, 0, "wl_output", 1));
    proxy.up.feed(&mut proxy.session, &proxy.args, &registry[..4], &[3]);
    proxy.down.feed(&mut proxy.session, &proxy.args, &announced[..8], &[4]);
    proxy.up.feed(&mut proxy.session, &proxy.args, &registry[4..], &[5]);
    proxy.down.feed(&mut proxy.session, &proxy.args, &announced[8..], &[]);
    assert_eq!(proxy.up.written, registry);
    assert_eq!(proxy.up.sent_fds, vec![vec![3, 5]]);
    assert_eq!(proxy.up.closed_fds, vec![3, 5]);
    assert!(proxy.down.written.is_empty());
    assert_eq!(proxy.down.closed_fds, vec![4]);
}

#[test]
fn farewell_tells_the_error() {
    assert_eq!(farewell(Direction::ClientToServer, Ok(())), None);
    assert_eq!(farewell(Direction::ServerToClient, Ok(())), None);
    assert_eq!(
        farewell(Direction::ClientToServer, Err("e".to_string())),
        Some("Warning, client->server thread exiting with error: e".to_string())
    );
    assert_eq!(
        farewell(Direction::ServerToClient, Err("e".to_string())),
        Some("Warning, server->client thread exiting with error: e".to_string())
    );
}

// ---------------------------------------------------------------------------
// Remarks
// ---------------------------------------------------------------------------

fn from_client(object: Option<ObjType>, fds: usize, packet: Packet) -> Remark {
    Remark::FromClient { object, fds, packet }
}

#[test]
fn remarks_on_what_the_client_sends() {
    let args = Args {
        app_id: Some("app".to_string()),
        title: Some("pfx-".to_string()),
        prefix_title: true,
        ..blocking(&["wl_output"])
    };
    let mut proxy = Proxy::new(args);
    build_object_chain(&mut proxy);
    proxy.up.remarks.clear();

    proxy.client_sends_with(&message(77, 9, vec![1]), &[3, 4]);
    proxy.client_sends(&bind(2, 5, "wl_output", 1, 6));
    proxy.client_sends(&message(6, 0, vec![]));
    proxy.client_sends(&message(5, 2, text("t")));
    proxy.client_sends(&message(5, 3, text("a")));
    proxy.client_sends(&message(5, 4, vec![]));
    proxy.client_sends(&message(5, 3, vec![]));
    let toplevel = Some(ObjType::XdgToplevel { ver: 1 });
    assert_eq!(
        proxy.up.remarks,
        vec![
            from_client(None, 2, message(77, 9, vec![1])),
            from_client(Some(ObjType::Registry), 0, bind(2, 5, "wl_output", 1, 6)),
            Remark::BlockedBind("wl_output".to_string()),
            from_client(toplevel, 0, message(5, 2, text("t"))),
            Remark::ModifiedTitle(message(5, 2, text("pfx-t"))),
            from_client(toplevel, 0, message(5, 3, text("a"))),
            Remark::ModifiedAppId(message(5, 3, text("app"))),
            from_client(toplevel, 0, message(5, 4, vec![])),
            from_client(toplevel, 0, message(5, 3, vec![])),
        ]
    );
}

#[test]
fn remarks_on_what_the_compositor_sends() {
    let mut proxy = Proxy::new(blocking(&["wl_output"]));
    proxy.client_sends(&get_registry(2));
    proxy.compositor_sends_with(&global(2, 0, "wl_output", 1), &[3]);
    proxy.compositor_sends(&global(2, 1, "wl_shm", 1));
    proxy.compositor_sends(&global(9, 0, "wl_output", 1));
    assert_eq!(
        proxy.down.remarks,
        vec![
            Remark::FromServer { fds: 1, packet: global(2, 0, "wl_output", 1) },
            Remark::BlockedGlobal("wl_output".to_string()),
            Remark::FromServer { fds: 0, packet: global(2, 1, "wl_shm", 1) },
            Remark::FromServer { fds: 0, packet: global(9, 0, "wl_output", 1) },
        ]
    );
}

#[test]
fn session_is_idle_between_messages() {
    let mut proxy = Proxy::new(base_args());
    assert!(proxy.session.is_idle(Direction::ClientToServer));
    proxy.up.feed(&mut proxy.session, &proxy.args, &wire(&get_registry(2))[..4], &[]);
    assert!(!proxy.session.is_idle(Direction::ClientToServer));
    assert!(proxy.session.is_idle(Direction::ServerToClient));
    proxy.up.feed(&mut proxy.session, &proxy.args, &wire(&get_registry(2))[4..], &[]);
    assert!(proxy.session.is_idle(Direction::ClientToServer));
}
