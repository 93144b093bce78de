//! The Wayland wire format.
//!
//! A message is two header words and a body. Word one is the object id; word two holds
//! the opcode in its low half and the size of the whole message in its high half. Words
//! are little-endian. A string argument is the length of its bytes with the terminating
//! zero, the bytes, the zero, and padding up to a multiple of four; length zero stands
//! for the null string.
use vstd::prelude::*;
use vstd::slice::{slice_subrange, slice_to_vec};
use vstd::string::*;
use vstd::utf8::*;

verus! {

/// Size of the two header words, which the size field of a message includes.
pub const HEADER_SIZE: u16 = 8;

// ---------------------------------------------------------------------------
// Words
// ---------------------------------------------------------------------------

/// The two bytes of `v`, low byte first.
pub open spec fn u16_bytes(v: u16) -> Seq<u8> {
    seq![(v % 256) as u8, (v / 256) as u8]
}

/// The number whose two bytes, low byte first, begin `b`.
pub open spec fn bytes_u16(b: Seq<u8>) -> u16 {
    (b[0] + 256 * b[1]) as u16
}

/// The four bytes of `v`, low byte first.
pub open spec fn u32_bytes(v: u32) -> Seq<u8> {
    seq![
        (v % 256) as u8,
        (v / 256 % 256) as u8,
        (v / 65536 % 256) as u8,
        (v / 16777216) as u8,
    ]
}

/// The number whose four bytes, low byte first, begin `b`.
pub open spec fn bytes_u32(b: Seq<u8>) -> u32 {
    (b[0] + 256 * b[1] + 65536 * b[2] + 16777216 * b[3]) as u32
}

fn decode_u16(b: &[u8], at: usize) -> (v: u16)
    requires
        at + 2 <= b@.len(),
    ensures
        v == bytes_u16(b@.skip(at as int)),
{
    b[at] as u16 + 256 * (b[at + 1] as u16)
}

fn decode_u32(b: &[u8]) -> (v: u32)
    requires
        b@.len() >= 4,
    ensures
        v == bytes_u32(b@),
{
    b[0] as u32 + 256 * (b[1] as u32) + 65536 * (b[2] as u32) + 16777216 * (b[3] as u32)
}

fn push_u16(out: &mut Vec<u8>, v: u16)
    ensures
        final(out)@ == old(out)@ + u16_bytes(v),
{
    out.push((v % 256) as u8);
    out.push((v / 256) as u8);
    assert(out@ =~= old(out)@ + u16_bytes(v));
}

fn push_u32(out: &mut Vec<u8>, v: u32)
    ensures
        final(out)@ == old(out)@ + u32_bytes(v),
{
    out.push((v % 256) as u8);
    out.push((v / 256 % 256) as u8);
    out.push((v / 65536 % 256) as u8);
    out.push((v / 16777216) as u8);
    assert(out@ =~= old(out)@ + u32_bytes(v));
}

/// A half word is recovered from its bytes, whatever follows them.
pub proof fn u16_round_trip(v: u16, tail: Seq<u8>)
    ensures
        bytes_u16(u16_bytes(v) + tail) == v,
{
}

/// A word is recovered from its bytes, whatever follows them.
pub proof fn u32_round_trip(v: u32, tail: Seq<u8>)
    ensures
        bytes_u32(u32_bytes(v) + tail) == v,
{
    let b = u32_bytes(v) + tail;
    assert(b[0] == v % 256 && b[1] == v / 256 % 256);
    assert(b[2] == v / 65536 % 256 && b[3] == v / 16777216);
}

/// The bytes of the number that two bytes make are these two bytes.
pub proof fn u16_bytes_back(b: Seq<u8>)
    requires
        b.len() >= 2,
    ensures
        u16_bytes(bytes_u16(b)) == b.take(2),
{
    assert(u16_bytes(bytes_u16(b)) =~= b.take(2));
}

/// The bytes of the number that four bytes make are these four bytes.
pub proof fn u32_bytes_back(b: Seq<u8>)
    requires
        b.len() >= 4,
    ensures
        u32_bytes(bytes_u32(b)) == b.take(4),
{
    let v = bytes_u32(b);
    let h3 = b[3] as int;
    let h2 = b[2] + 256 * h3;
    let h1 = b[1] + 256 * h2;
    assert(v == b[0] + 256 * h1);
    assert(v / 256 == h1);
    assert(v / 65536 == h2);
    assert(v / 16777216 == h3);
    assert(v % 256 == b[0]);
    assert(h1 % 256 == b[1]);
    assert(h2 % 256 == b[2]);
    assert(u32_bytes(v) =~= b.take(4));
}

// ---------------------------------------------------------------------------
// Reading bytes
// ---------------------------------------------------------------------------

/// How a byte stream stops giving bytes.
#[derive(Clone, Copy, Debug, PartialEq, Eq, Structural)]
pub enum ReadError {
    UnexpectedEof,
    BrokenPipe,
    NotConnected,
    ConnectionAborted,
    ConnectionRefused,
    ConnectionReset,
    Other,
}

impl ReadError {
    /// Whether the peer is gone, as opposed to any other failure.
    pub open spec fn disconnects(self) -> bool {
        !(self is Other)
    }

    /// Whether the peer is gone, as opposed to any other failure.
    pub fn is_disconnect(&self) -> (r: bool)
        ensures
            r == self.disconnects(),
    {
        match self {
            ReadError::Other => false,
            _ => true,
        }
    }
}

/// A stream that gives the bytes of a slice and then fails.
pub struct ByteReader<'a> {
    data: &'a [u8],
    pos: usize,
    end: ReadError,
}

impl<'a> ByteReader<'a> {
    #[verifier::type_invariant]
    spec fn in_bounds(self) -> bool {
        self.pos <= self.data@.len()
    }

    /// The bytes that are still to come.
    pub closed spec fn rest(&self) -> Seq<u8> {
        self.data@.skip(self.pos as int)
    }

    /// The failure that follows the last byte.
    pub closed spec fn end(&self) -> ReadError {
        self.end
    }

    /// A stream that ends after `data`.
    pub fn new(data: &'a [u8]) -> (r: Self)
        ensures
            r.rest() == data@,
            r.end() == ReadError::UnexpectedEof,
    {
        Self::failing(data, ReadError::UnexpectedEof)
    }

    /// A stream that fails with `end` after `data`.
    pub fn failing(data: &'a [u8], end: ReadError) -> (r: Self)
        ensures
            r.rest() == data@,
            r.end() == end,
    {
        assert(data@.skip(0) =~= data@);
        ByteReader { data, pos: 0, end }
    }
}

/// Takes exactly `size` bytes off the stream. Where it has fewer, they are used up and
/// the stream's own failure is returned.
pub fn read(reader: &mut ByteReader, size: usize) -> (r: Result<Vec<u8>, ReadError>)
    ensures
        final(reader).end() == old(reader).end(),
        size <= old(reader).rest().len() ==> {
            &&& r matches Ok(bytes)
            &&& bytes@ == old(reader).rest().take(size as int)
            &&& final(reader).rest() == old(reader).rest().skip(size as int)
        },
        size > old(reader).rest().len() ==> {
            &&& r == Err::<Vec<u8>, ReadError>(old(reader).end())
            &&& final(reader).rest() == Seq::<u8>::empty()
        },
{
    proof {
        use_type_invariant(&*reader);
    }
    let left: usize = reader.data.len() - reader.pos;
    if size <= left {
        let start: usize = reader.pos;
        let out = slice_to_vec(slice_subrange(reader.data, start, start + size));
        assert(out@ =~= reader.rest().take(size as int));
        assert(reader.data@.skip(start + size) =~= reader.rest().skip(size as int));
        reader.pos = start + size;
        Ok(out)
    } else {
        reader.pos = reader.data.len();
        Err(reader.end)
    }
}

// ---------------------------------------------------------------------------
// Writing bytes
// ---------------------------------------------------------------------------

/// The failure of a write.
#[derive(Clone, Copy, Debug, PartialEq, Eq, Structural)]
pub struct WriteError;

/// Whether `n` bytes go where there is room for so many; `None` is room without end.
pub open spec fn goes_in(n: nat, room: Option<nat>) -> bool {
    room matches Some(limit) ==> n <= limit
}

/// Those of the bytes that are written where there is room for so many.
pub open spec fn taken(bytes: Seq<u8>, room: Option<nat>) -> Seq<u8> {
    match room {
        Some(limit) if limit < bytes.len() => bytes.take(limit as int),
        _ => bytes,
    }
}

/// The room that is left when `n` bytes were to be written.
pub open spec fn room_after(n: nat, room: Option<nat>) -> Option<nat> {
    match room {
        Some(limit) if limit < n => Some(0),
        Some(limit) => Some((limit - n) as nat),
        None => None,
    }
}

/// Writing two pieces one after the other writes what writing them as one does, as a piece
/// that does not go in leaves no room.
pub proof fn taken_of_two(a: Seq<u8>, b: Seq<u8>, room: Option<nat>)
    ensures
        taken(a, room) + taken(b, room_after(a.len(), room)) == taken(a + b, room),
        room_after(b.len(), room_after(a.len(), room)) == room_after((a + b).len(), room),
        goes_in(a.len(), room) && goes_in(b.len(), room_after(a.len(), room)) <==> goes_in(
            (a + b).len(),
            room,
        ),
        !goes_in(a.len(), room) ==> taken(a, room) == taken(a + b, room) && room_after(
            a.len(),
            room,
        ) == room_after((a + b).len(), room),
{
    assert(taken(a, room) + taken(b, room_after(a.len(), room)) =~= taken(a + b, room));
    if !goes_in(a.len(), room) {
        assert(taken(a, room) =~= taken(a + b, room));
    }
}

/// What bytes can be written to, and what may fail.
pub trait ByteSink: Sized {
    /// The bytes that were written.
    spec fn written(&self) -> Seq<u8>;

    /// How many bytes can still be written before writing fails.
    spec fn room(&self) -> Option<nat>;

    /// Writes all the bytes, or as many as there is room for, and then fails.
    fn write_all(&mut self, bytes: &[u8]) -> (r: Result<(), WriteError>)
        ensures
            r is Ok <==> goes_in(bytes@.len(), old(self).room()),
            final(self).written() == old(self).written() + taken(bytes@, old(self).room()),
            final(self).room() == room_after(bytes@.len(), old(self).room()),
    ;
}

impl ByteSink for Vec<u8> {
    open spec fn written(&self) -> Seq<u8> {
        self@
    }

    open spec fn room(&self) -> Option<nat> {
        None
    }

    fn write_all(&mut self, bytes: &[u8]) -> (r: Result<(), WriteError>) {
        let mut more = slice_to_vec(bytes);
        self.append(&mut more);
        Ok(())
    }
}

/// A stream that takes some bytes and then fails.
pub struct ByteWriter {
    out: Vec<u8>,
    room: usize,
}

impl ByteWriter {
    /// A stream that takes `room` bytes.
    pub fn new(room: usize) -> (r: Self)
        ensures
            r.written() == Seq::<u8>::empty(),
            r.room() == Some(room as nat),
    {
        ByteWriter { out: Vec::new(), room }
    }

    /// The bytes that were written.
    pub fn bytes(&self) -> (r: &[u8])
        ensures
            r@ == self.written(),
    {
        self.out.as_slice()
    }
}

impl ByteSink for ByteWriter {
    closed spec fn written(&self) -> Seq<u8> {
        self.out@
    }

    closed spec fn room(&self) -> Option<nat> {
        Some(self.room as nat)
    }

    fn write_all(&mut self, bytes: &[u8]) -> (r: Result<(), WriteError>) {
        if bytes.len() <= self.room {
            let mut more = slice_to_vec(bytes);
            self.out.append(&mut more);
            self.room = self.room - bytes.len();
            Ok(())
        } else {
            let mut more = slice_to_vec(slice_subrange(bytes, 0, self.room));
            assert(more@ =~= bytes@.take(self.room as int));
            self.out.append(&mut more);
            self.room = 0;
            Err(WriteError)
        }
    }
}

// ---------------------------------------------------------------------------
// Arguments
// ---------------------------------------------------------------------------

/// `n` rounded up to a multiple of four.
pub open spec fn padded(n: nat) -> nat {
    (n + 3) / 4 * 4
}

/// Rounding up gives the least multiple of four that is not below `n`.
pub proof fn padded_is_next_multiple(n: nat)
    ensures
        padded(n) % 4 == 0,
        n <= padded(n) < n + 4,
{
}

/// `n` zero bytes.
pub open spec fn zeros(n: nat) -> Seq<u8> {
    Seq::new(n, |i: int| 0u8)
}

/// Reading a number off `bytes`: what comes of it, and the bytes that are left.
pub open spec fn parse_uint(bytes: Seq<u8>) -> (Result<u32, Seq<char>>, Seq<u8>) {
    if bytes.len() < 4 {
        (Err("uint"@), Seq::empty())
    } else {
        (Ok(bytes_u32(bytes)), bytes.skip(4))
    }
}

/// How many bytes of a string argument follow its length word `n`. The sum wraps around:
/// the three lengths that have no multiple of four above them leave nothing.
pub open spec fn string_extent(n: u32) -> nat {
    padded(n as nat) % 0x1_0000_0000
}

/// The text bytes of a string argument whose length word is `n`, the bytes after that
/// word being `body`.
pub open spec fn string_content(n: u32, body: Seq<u8>) -> Seq<u8> {
    if string_extent(n) < n {
        Seq::empty()
    } else {
        body.take(n - 1)
    }
}

/// Reading a string off `bytes`: what comes of it, and the bytes that are left.
pub open spec fn parse_string(bytes: Seq<u8>) -> (
    Result<Option<Seq<char>>, Seq<char>>,
    Seq<u8>,
) {
    let n = bytes_u32(bytes);
    let body = bytes.skip(4);
    if bytes.len() < 4 {
        (Err("null terminated string length"@), Seq::empty())
    } else if n == 0 {
        (Ok(None), body)
    } else if body.len() < string_extent(n) {
        (Err("string body"@), Seq::empty())
    } else if !valid_utf8(string_content(n, body)) {
        (Err("bad utf-8"@), body.skip(string_extent(n) as int))
    } else {
        (Ok(Some(decode_utf8(string_content(n, body)))), body.skip(string_extent(n) as int))
    }
}

/// The bytes of the string argument `text`. The length word keeps the low 32 bits.
pub open spec fn string_bytes(text: Seq<char>) -> Seq<u8> {
    let content = encode_utf8(text);
    let n = content.len() + 1;
    u32_bytes((n % 0x1_0000_0000) as u32) + content + zeros((padded(n) - content.len()) as nat)
}

/// What a `Result` with a message for its error stands for.
pub open spec fn outcome<T>(r: Result<T, &str>) -> Result<T, Seq<char>> {
    match r {
        Ok(v) => Ok(v),
        Err(e) => Err(e@),
    }
}

/// What an optional string stands for.
pub open spec fn text_of(s: Option<String>) -> Option<Seq<char>> {
    match s {
        Some(s) => Some(s@),
        None => None,
    }
}

/// What reading a string gave.
pub open spec fn string_outcome(r: Result<Option<String>, &str>) -> Result<
    Option<Seq<char>>,
    Seq<char>,
> {
    match r {
        Ok(s) => Ok(text_of(s)),
        Err(e) => Err(e@),
    }
}

/// `String::from_utf8`: it succeeds on the well-formed UTF-8 byte sequences, and the
/// string then holds the characters that they encode.
#[verifier::external_body]
fn string_from_utf8(bytes: Vec<u8>) -> (r: Option<String>)
    ensures
        r is Some == valid_utf8(bytes@),
        r matches Some(s) ==> s@ == decode_utf8(bytes@),
{
    String::from_utf8(bytes).ok()
}

/// Reads a number.
pub fn read_arg_uint(serial: &mut ByteReader) -> (r: Result<u32, &'static str>)
    ensures
        outcome(r) == parse_uint(old(serial).rest()).0,
        final(serial).rest() == parse_uint(old(serial).rest()).1,
        final(serial).end() == old(serial).end(),
{
    match read(serial, 4) {
        Ok(word) => Ok(decode_u32(word.as_slice())),
        Err(_) => Err("uint"),
    }
}

/// Writes a number.
pub fn write_arg_uint<W: ByteSink>(serial: &mut W, data: u32) -> (r: Result<(), &'static str>)
    ensures
        outcome(r) == if goes_in(4, old(serial).room()) {
            Ok(())
        } else {
            Err("arg"@)
        },
        final(serial).written() == old(serial).written() + taken(
            u32_bytes(data),
            old(serial).room(),
        ),
        final(serial).room() == room_after(4, old(serial).room()),
{
    let mut word: Vec<u8> = Vec::new();
    push_u32(&mut word, data);
    assert(word@ =~= u32_bytes(data));
    match serial.write_all(word.as_slice()) {
        Ok(()) => Ok(()),
        Err(_) => Err("arg"),
    }
}

/// Reads a string; `None` is the null string.
pub fn read_arg_string(serial: &mut ByteReader) -> (r: Result<Option<String>, &'static str>)
    ensures
        string_outcome(r) == parse_string(old(serial).rest()).0,
        final(serial).rest() == parse_string(old(serial).rest()).1,
        final(serial).end() == old(serial).end(),
{
    let n: u32 = match read(serial, 4) {
        Ok(word) => decode_u32(word.as_slice()),
        Err(_) => return Err("null terminated string length"),
    };
    if n == 0 {
        return Ok(None);
    }
    let extent: u32 = if n > 0xffff_fffc {
        0
    } else {
        (n + 3) / 4 * 4
    };
    let mut body = match read(serial, extent as usize) {
        Ok(body) => body,
        Err(_) => return Err("string body"),
    };
    body.truncate(n as usize - 1);
    assert(body@ =~= string_content(n, old(serial).rest().skip(4)));
    match string_from_utf8(body) {
        Some(s) => Ok(Some(s)),
        None => Err("bad utf-8"),
    }
}

/// Appends zeros up to a multiple of four bytes.
fn pad(buf: &mut Vec<u8>)
    ensures
        final(buf)@ == old(buf)@ + zeros((padded(old(buf)@.len()) - old(buf)@.len()) as nat),
{
    let ghost n = buf@.len();
    while buf.len() % 4 != 0
        invariant
            n == old(buf)@.len(),
            n <= buf@.len() <= padded(n),
            buf@ == old(buf)@ + zeros((buf@.len() - n) as nat),
        decreases padded(n) - buf@.len(),
    {
        buf.push(0);
        assert(buf@ =~= old(buf)@ + zeros((buf@.len() - n) as nat));
    }
}

/// Writes a string: its length word, and then the text with its terminating zero and the
/// padding. What cannot be written is told, and nothing more is then written.
pub fn write_arg_string<W: ByteSink>(serial: &mut W, data: &str) -> (r: Result<(), &'static str>)
    ensures
        outcome(r) == if !goes_in(4, old(serial).room()) {
            Err("null terminated string length"@)
        } else if !goes_in(string_bytes(data@).len(), old(serial).room()) {
            Err("string body"@)
        } else {
            Ok(())
        },
        final(serial).written() == old(serial).written() + taken(
            string_bytes(data@),
            old(serial).room(),
        ),
        final(serial).room() == room_after(string_bytes(data@).len(), old(serial).room()),
{
    let mut buf = data.as_bytes_vec();
    let ghost content = buf@;
    buf.push(0);
    let n: u64 = buf.len() as u64;
    pad(&mut buf);
    assert(buf@ =~= content + zeros((padded(n as nat) - content.len()) as nat));
    let mut word: Vec<u8> = Vec::new();
    push_u32(&mut word, (n % 0x1_0000_0000) as u32);
    proof {
        assert(word@ + buf@ =~= string_bytes(data@));
        assert(word@.len() == 4);
        taken_of_two(word@, buf@, serial.room());
    }
    match serial.write_all(word.as_slice()) {
        Ok(()) => {},
        Err(_) => return Err("null terminated string length"),
    }
    let body = serial.write_all(buf.as_slice());
    assert(serial.written() =~= old(serial).written() + taken(
        string_bytes(data@),
        old(serial).room(),
    ));
    match body {
        Ok(()) => Ok(()),
        Err(_) => Err("string body"),
    }
}

// ---------------------------------------------------------------------------
// Messages
// ---------------------------------------------------------------------------

/// A message.
#[derive(Debug, PartialEq)]
pub struct Packet {
    pub id: u32,
    pub opcode: u16,
    pub body: Vec<u8>,
}

/// What a message is made of.
#[verifier::ext_equal]
pub struct PacketView {
    pub id: u32,
    pub opcode: u16,
    pub body: Seq<u8>,
}

impl View for Packet {
    type V = PacketView;

    open spec fn view(&self) -> PacketView {
        PacketView { id: self.id, opcode: self.opcode, body: self.body@ }
    }
}

impl PacketView {
    /// The size field: the size of the whole message, modulo 2^16.
    pub open spec fn size_field(self) -> u16 {
        ((self.body.len() + HEADER_SIZE) % 0x1_0000) as u16
    }

    /// Whether the size field holds the size of the message.
    pub open spec fn fits(self) -> bool {
        self.body.len() + HEADER_SIZE < 0x1_0000
    }

    /// The first header word.
    pub open spec fn word1(self) -> Seq<u8> {
        u32_bytes(self.id)
    }

    /// The second header word.
    pub open spec fn word2(self) -> Seq<u8> {
        u16_bytes(self.opcode) + u16_bytes(self.size_field())
    }

    /// The message on the wire.
    pub open spec fn bytes(self) -> Seq<u8> {
        self.word1() + self.word2() + self.body
    }
}

/// Reading a message off a stream that gives `bytes` and then fails with `end`: what
/// comes of it, and the bytes that are left. `None` is a stream that ended between
/// messages.
pub open spec fn parse_packet(bytes: Seq<u8>, end: ReadError) -> (
    Result<Option<PacketView>, Seq<char>>,
    Seq<u8>,
) {
    let size = bytes_u16(bytes.skip(6));
    if bytes.len() < 4 {
        (
            if end.disconnects() {
                Ok(None)
            } else {
                Err("header word 1"@)
            },
            Seq::empty(),
        )
    } else if bytes.len() < 8 {
        (Err("header word 2"@), Seq::empty())
    } else if size < HEADER_SIZE {
        (Err("message size too small"@), bytes.skip(8))
    } else if bytes.len() < size {
        (Err("body"@), Seq::empty())
    } else {
        (
            Ok(
                Some(
                    PacketView {
                        id: bytes_u32(bytes),
                        opcode: bytes_u16(bytes.skip(4)),
                        body: bytes.subrange(8, size as int),
                    },
                ),
            ),
            bytes.skip(size as int),
        )
    }
}

/// What reading a message gave.
pub open spec fn packet_outcome(r: Result<Option<Packet>, &str>) -> Result<
    Option<PacketView>,
    Seq<char>,
> {
    match r {
        Ok(Some(p)) => Ok(Some(p@)),
        Ok(None) => Ok(None),
        Err(e) => Err(e@),
    }
}

/// How far a message has been read.
#[derive(Clone, Copy, Debug, PartialEq, Eq, Structural)]
pub enum PacketReader {
    Word1,
    Word2 { id: u32 },
    Body { id: u32, opcode: u16, len: u16 },
}

/// What one more read makes of a message.
#[derive(Debug)]
pub enum Progress {
    Reading(PacketReader),
    Complete(Packet),
    Closed,
    Failed(&'static str),
}

/// What one more read makes of a message.
pub enum ProgressView {
    Reading(PacketReader),
    Complete(PacketView),
    Closed,
    Failed(Seq<char>),
}

impl View for Progress {
    type V = ProgressView;

    open spec fn view(&self) -> ProgressView {
        match *self {
            Progress::Reading(reader) => ProgressView::Reading(reader),
            Progress::Complete(packet) => ProgressView::Complete(packet@),
            Progress::Closed => ProgressView::Closed,
            Progress::Failed(text) => ProgressView::Failed(text@),
        }
    }
}

/// What a read gave: exactly the bytes asked for, or the stream's failure.
pub open spec fn bytes_read(got: Result<Vec<u8>, ReadError>) -> Result<Seq<u8>, ReadError> {
    match got {
        Ok(bytes) => Ok(bytes@),
        Err(e) => Err(e),
    }
}

impl PacketReader {
    /// How many bytes the next read has to give.
    pub open spec fn wants(self) -> nat {
        match self {
            PacketReader::Word1 => 4,
            PacketReader::Word2 { .. } => 4,
            PacketReader::Body { len, .. } => len as nat,
        }
    }

    /// How many reads a message takes after the next one.
    pub open spec fn reads_after_next(self) -> nat {
        match self {
            PacketReader::Word1 => 2,
            PacketReader::Word2 { .. } => 1,
            PacketReader::Body { .. } => 0,
        }
    }

    /// What the read `got` makes of the message. Only before its first word does a
    /// stream close in order.
    pub open spec fn after(self, got: Result<Seq<u8>, ReadError>) -> ProgressView {
        match (self, got) {
            (PacketReader::Word1, Err(e)) => if e.disconnects() {
                ProgressView::Closed
            } else {
                ProgressView::Failed("header word 1"@)
            },
            (PacketReader::Word1, Ok(b)) => ProgressView::Reading(
                PacketReader::Word2 { id: bytes_u32(b) },
            ),
            (PacketReader::Word2 { .. }, Err(_)) => ProgressView::Failed("header word 2"@),
            (PacketReader::Word2 { id }, Ok(b)) => {
                let size = bytes_u16(b.skip(2));
                if size < HEADER_SIZE {
                    ProgressView::Failed("message size too small"@)
                } else {
                    ProgressView::Reading(
                        PacketReader::Body {
                            id,
                            opcode: bytes_u16(b),
                            len: (size - HEADER_SIZE) as u16,
                        },
                    )
                }
            },
            (PacketReader::Body { .. }, Err(_)) => ProgressView::Failed("body"@),
            (PacketReader::Body { id, opcode, .. }, Ok(b)) => ProgressView::Complete(
                PacketView { id, opcode, body: b },
            ),
        }
    }

    /// How many bytes the next read has to give.
    pub fn wanted(&self) -> (n: usize)
        ensures
            n == self.wants(),
    {
        match *self {
            PacketReader::Word1 => 4,
            PacketReader::Word2 { .. } => 4,
            PacketReader::Body { len, .. } => len as usize,
        }
    }

    /// Takes the next read.
    pub fn advance(self, got: Result<Vec<u8>, ReadError>) -> (r: Progress)
        requires
            got matches Ok(bytes) ==> bytes@.len() == self.wants(),
        ensures
            r@ == self.after(bytes_read(got)),
    {
        match self {
            PacketReader::Word1 => match got {
                Ok(bytes) => Progress::Reading(
                    PacketReader::Word2 { id: decode_u32(bytes.as_slice()) },
                ),
                Err(e) => if e.is_disconnect() {
                    Progress::Closed
                } else {
                    Progress::Failed("header word 1")
                },
            },
            PacketReader::Word2 { id } => match got {
                Ok(bytes) => {
                    let opcode: u16 = decode_u16(bytes.as_slice(), 0);
                    let size: u16 = decode_u16(bytes.as_slice(), 2);
                    assert(bytes@.skip(0) =~= bytes@);
                    if size < HEADER_SIZE {
                        Progress::Failed("message size too small")
                    } else {
                        Progress::Reading(
                            PacketReader::Body { id, opcode, len: size - HEADER_SIZE },
                        )
                    }
                },
                Err(_) => Progress::Failed("header word 2"),
            },
            PacketReader::Body { id, opcode, .. } => match got {
                Ok(body) => Progress::Complete(Packet { id, opcode, body }),
                Err(_) => Progress::Failed("body"),
            },
        }
    }

    /// What comes of the message where the stream gives `bytes` and then fails with
    /// `end`, and the bytes that are left.
    pub open spec fn finish(self, bytes: Seq<u8>, end: ReadError) -> (
        Result<Option<PacketView>, Seq<char>>,
        Seq<u8>,
    )
        decreases self.reads_after_next(),
    {
        let enough = self.wants() <= bytes.len();
        let got = if enough {
            Ok(bytes.take(self.wants() as int))
        } else {
            Err(end)
        };
        let left = if enough {
            bytes.skip(self.wants() as int)
        } else {
            Seq::empty()
        };
        match self.after(got) {
            ProgressView::Reading(next) => next.finish(left, end),
            ProgressView::Complete(packet) => (Ok(Some(packet)), left),
            ProgressView::Closed => (Ok(None), left),
            ProgressView::Failed(text) => (Err(text), left),
        }
    }
}

/// Reading a message piece by piece gives what reading it at once gives.
pub proof fn piecewise_reading(bytes: Seq<u8>, end: ReadError)
    ensures
        PacketReader::Word1.finish(bytes, end) == parse_packet(bytes, end),
{
    reveal_with_fuel(PacketReader::finish, 3);
    if bytes.len() >= 8 {
        let rest = bytes.skip(4);
        let size = bytes_u16(bytes.skip(6));
        assert(rest.skip(4) =~= bytes.skip(8));
        assert(rest.take(4).skip(2)[0] == bytes[6]);
        assert(rest.take(4).skip(2)[1] == bytes[7]);
        if size >= HEADER_SIZE && size <= bytes.len() {
            assert(bytes.skip(8).take(size - 8) =~= bytes.subrange(8, size as int));
            assert(bytes.skip(8).skip(size - 8) =~= bytes.skip(size as int));
        }
    }
}

/// Reads a message. `None` tells that the stream ended between messages.
pub fn read_packet(serial: &mut ByteReader) -> (r: Result<Option<Packet>, &'static str>)
    ensures
        packet_outcome(r) == parse_packet(old(serial).rest(), old(serial).end()).0,
        final(serial).rest() == parse_packet(old(serial).rest(), old(serial).end()).1,
        final(serial).end() == old(serial).end(),
{
    let mut reader = PacketReader::Word1;
    proof {
        piecewise_reading(serial.rest(), serial.end());
    }
    loop
        invariant
            serial.end() == old(serial).end(),
            reader.finish(serial.rest(), serial.end()) == parse_packet(
                old(serial).rest(),
                old(serial).end(),
            ),
        decreases reader.reads_after_next(),
    {
        let got = read(serial, reader.wanted());
        match reader.advance(got) {
            Progress::Reading(next) => {
                reader = next;
            },
            Progress::Complete(packet) => {
                return Ok(Some(packet));
            },
            Progress::Closed => {
                return Ok(None);
            },
            Progress::Failed(text) => {
                return Err(text);
            },
        }
    }
}

/// The first header word of a message.
pub fn header_word1(data: &Packet) -> (r: Vec<u8>)
    ensures
        r@ == data@.word1(),
{
    let mut out: Vec<u8> = Vec::new();
    push_u32(&mut out, data.id);
    assert(out@ =~= data@.word1());
    out
}

fn size_field(data: &Packet) -> (r: u16)
    ensures
        r == data@.size_field(),
{
    let len: u16 = (data.body.len() % 0x1_0000) as u16;
    len.wrapping_add(HEADER_SIZE)
}

/// The second header word of a message.
pub fn header_word2(data: &Packet) -> (r: Vec<u8>)
    ensures
        r@ == data@.word2(),
{
    let mut out: Vec<u8> = Vec::new();
    push_u16(&mut out, data.opcode);
    push_u16(&mut out, size_field(data));
    assert(out@ =~= data@.word2());
    out
}

/// Writes a message: its two header words, and then its body. What cannot be written is
/// told, and nothing more is then written.
pub fn write_packet<W: ByteSink>(serial: &mut W, data: &Packet) -> (r: Result<(), &'static str>)
    ensures
        outcome(r) == if !goes_in(4, old(serial).room()) {
            Err("header word 1"@)
        } else if !goes_in(8, old(serial).room()) {
            Err("header word 2"@)
        } else if !goes_in(data@.bytes().len(), old(serial).room()) {
            Err("body"@)
        } else {
            Ok(())
        },
        final(serial).written() == old(serial).written() + taken(
            data@.bytes(),
            old(serial).room(),
        ),
        final(serial).room() == room_after(data@.bytes().len(), old(serial).room()),
{
    let word1 = header_word1(data);
    let word2 = header_word2(data);
    let ghost room = serial.room();
    let ghost header = word1@ + word2@;
    let ghost all = data@.bytes();
    proof {
        assert(word1@.len() == 4 && word2@.len() == 4);
        assert(header + data.body@ =~= all);
        assert(word1@ + (word2@ + data.body@) =~= all);
        taken_of_two(word1@, word2@, room);
        taken_of_two(word1@, word2@ + data.body@, room);
        taken_of_two(header, data.body@, room);
    }
    match serial.write_all(word1.as_slice()) {
        Ok(()) => {},
        Err(_) => return Err("header word 1"),
    }
    let second = serial.write_all(word2.as_slice());
    assert(serial.written() =~= old(serial).written() + taken(header, room));
    match second {
        Ok(()) => {},
        Err(_) => return Err("header word 2"),
    }
    let third = serial.write_all(data.body.as_slice());
    assert(serial.written() =~= old(serial).written() + taken(all, room));
    match third {
        Ok(()) => Ok(()),
        Err(_) => Err("body"),
    }
}

// ---------------------------------------------------------------------------
// What a read gives back of a write
// ---------------------------------------------------------------------------

/// A number that was written is read back, and the reader stops behind it.
pub proof fn uint_round_trip(v: u32, tail: Seq<u8>)
    ensures
        parse_uint(u32_bytes(v) + tail) == (Ok::<u32, Seq<char>>(v), tail),
{
    u32_round_trip(v, tail);
    assert((u32_bytes(v) + tail).skip(4) =~= tail);
}

/// A string that was written is read back, and the reader stops behind it. The length
/// word has to hold the padded length.
pub proof fn string_round_trip(text: Seq<char>, tail: Seq<u8>)
    requires
        padded(encode_utf8(text).len() + 1) < 0x1_0000_0000,
    ensures
        parse_string(string_bytes(text) + tail) == (
            Ok::<Option<Seq<char>>, Seq<char>>(Some(text)),
            tail,
        ),
{
    let content = encode_utf8(text);
    let n = content.len() + 1;
    let wire = string_bytes(text) + tail;
    assert(wire =~= u32_bytes(n as u32) + wire.skip(4));
    u32_round_trip(n as u32, wire.skip(4));
    assert(string_content(n as u32, wire.skip(4)) =~= content);
    assert(wire.skip(4).skip(padded(n) as int) =~= tail);
    encode_utf8_valid_utf8(text);
    encode_utf8_decode_utf8(text);
}

/// A string argument takes its length word and its text with the terminating zero, padded
/// to a multiple of four bytes.
pub proof fn string_is_aligned(text: Seq<char>)
    ensures
        string_bytes(text).len() == 4 + padded(encode_utf8(text).len() + 1),
        string_bytes(text).len() % 4 == 0,
{
    let n = encode_utf8(text).len() + 1;
    padded_is_next_multiple(n);
    assert(u32_bytes((n % 0x1_0000_0000) as u32).len() == 4);
    assert(zeros((padded(n) - (n - 1)) as nat).len() == padded(n) - (n - 1));
}

/// A message that was written is read back, and the reader stops behind it. The size
/// field has to hold the size.
pub proof fn packet_round_trip(p: PacketView, tail: Seq<u8>, end: ReadError)
    requires
        p.fits(),
    ensures
        parse_packet(p.bytes() + tail, end) == (
            Ok::<Option<PacketView>, Seq<char>>(Some(p)),
            tail,
        ),
{
    let wire = p.bytes() + tail;
    let size = p.size_field();
    assert(wire =~= u32_bytes(p.id) + wire.skip(4));
    u32_round_trip(p.id, wire.skip(4));
    assert(wire.skip(4) =~= u16_bytes(p.opcode) + wire.skip(6));
    u16_round_trip(p.opcode, wire.skip(6));
    assert(wire.skip(6) =~= u16_bytes(size) + wire.skip(8));
    u16_round_trip(size, wire.skip(8));
    assert(wire.subrange(8, size as int) =~= p.body);
    assert(wire.skip(size as int) =~= tail);
}

/// A message that was read is written back as the bytes that it was read from.
pub proof fn packet_written_back(bytes: Seq<u8>, end: ReadError)
    ensures
        parse_packet(bytes, end).0 matches Ok(Some(p)) ==> p.fits() && p.bytes()
            + parse_packet(bytes, end).1 == bytes,
{
    if let Ok(Some(p)) = parse_packet(bytes, end).0 {
        let size = bytes_u16(bytes.skip(6));
        u32_bytes_back(bytes);
        u16_bytes_back(bytes.skip(4));
        u16_bytes_back(bytes.skip(6));
        assert(p.word1() == bytes.take(4));
        assert(p.word2() =~= bytes.subrange(4, 8));
        assert(p.bytes() =~= bytes.take(size as int));
        assert(bytes.take(size as int) + bytes.skip(size as int) =~= bytes);
    }
}

/// The messages `packets`, one after the other.
pub open spec fn stream_bytes(packets: Seq<PacketView>) -> Seq<u8>
    decreases packets.len(),
{
    if packets.len() == 0 {
        Seq::empty()
    } else {
        packets[0].bytes() + stream_bytes(packets.drop_first())
    }
}

/// Reading messages until the stream ends or fails: the messages, and what stopped it.
pub open spec fn parse_stream(bytes: Seq<u8>, end: ReadError) -> (
    Seq<PacketView>,
    Result<(), Seq<char>>,
)
    decreases bytes.len(),
{
    match parse_packet(bytes, end) {
        (Ok(Some(p)), rest) => {
            let (packets, stop) = parse_stream(rest, end);
            (seq![p] + packets, stop)
        },
        (Ok(None), _) => (Seq::empty(), Ok(())),
        (Err(text), _) => (Seq::empty(), Err(text)),
    }
}

/// Messages that were written one after the other are read back in that order, and then
/// the stream is found to have ended.
pub proof fn stream_round_trip(packets: Seq<PacketView>, end: ReadError)
    requires
        forall|i: int| 0 <= i < packets.len() ==> (#[trigger] packets[i]).fits(),
        end.disconnects(),
    ensures
        parse_stream(stream_bytes(packets), end) == (packets, Ok::<(), Seq<char>>(())),
    decreases packets.len(),
{
    if packets.len() > 0 {
        let tail = packets.drop_first();
        assert(forall|i: int| 0 <= i < tail.len() ==> tail[i] == packets[i + 1]);
        packet_round_trip(packets[0], stream_bytes(tail), end);
        stream_round_trip(tail, end);
        assert(seq![packets[0]] + tail =~= packets);
    }
}

} // verus!
