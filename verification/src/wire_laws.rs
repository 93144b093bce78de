//! What the bytes of words, strings and messages are, and what is read of given bytes.
use crate::proto::{
    bytes_u16, bytes_u32, goes_in, padded, padded_is_next_multiple, parse_packet, parse_string,
    parse_uint, room_after, string_bytes, string_content, string_extent, taken, u16_bytes,
    u32_bytes, u32_round_trip, zeros, PacketReader, PacketView, ProgressView, ReadError,
};
use vstd::prelude::*;
use vstd::utf8::*;

verus! {

/// The number that four bytes stand for, low byte first.
pub open spec fn word_value(b: Seq<u8>, at: int) -> int {
    b[at] + 0x100 * b[at + 1] + 0x1_0000 * b[at + 2] + 0x100_0000 * b[at + 3]
}

/// The number that two bytes stand for, low byte first.
pub open spec fn half_value(b: Seq<u8>, at: int) -> int {
    b[at] + 0x100 * b[at + 1]
}

// ---------------------------------------------------------------------------
// Words
// ---------------------------------------------------------------------------

/// A word has four bytes, which stand for it, low byte first.
pub proof fn word_has_four_bytes(v: u32)
    ensures
        u32_bytes(v).len() == 4,
        word_value(u32_bytes(v), 0) == v,
{
    u32_round_trip(v, Seq::empty());
    let b = u32_bytes(v);
    assert(b + Seq::<u8>::empty() =~= b);
    word_is_its_bytes(b);
}

/// A half word has two bytes, which stand for it, low byte first.
pub proof fn half_has_two_bytes(v: u16)
    ensures
        u16_bytes(v).len() == 2,
        half_value(u16_bytes(v), 0) == v,
{
}

/// The word that bytes begin with is the number that the first four stand for.
pub proof fn word_is_its_bytes(b: Seq<u8>)
    requires
        b.len() >= 4,
    ensures
        bytes_u32(b) == word_value(b, 0),
{
}

/// The half word that bytes begin with is the number that the first two stand for.
pub proof fn half_is_its_bytes(b: Seq<u8>)
    requires
        b.len() >= 2,
    ensures
        bytes_u16(b) == half_value(b, 0),
{
}

// ---------------------------------------------------------------------------
// Arguments
// ---------------------------------------------------------------------------

/// A number is read off the first four bytes, and those behind them are left; with fewer than
/// four it is an error.
pub proof fn number_is_four_bytes(bytes: Seq<u8>)
    ensures
        bytes.len() < 4 ==> parse_uint(bytes) == (
            Err::<u32, Seq<char>>("uint"@),
            Seq::<u8>::empty(),
        ),
        bytes.len() >= 4 ==> {
            &&& parse_uint(bytes).0 matches Ok(v)
            &&& v == word_value(bytes, 0)
            &&& parse_uint(bytes).1 == bytes.skip(4)
        },
{
    if bytes.len() >= 4 {
        word_is_its_bytes(bytes);
    }
}

/// A string is read by its length word. Without that word it is an error; with the length
/// zero it is the null string.
pub proof fn string_begins_with_its_length(bytes: Seq<u8>)
    ensures
        bytes.len() < 4 ==> parse_string(bytes) == (
            Err::<Option<Seq<char>>, Seq<char>>("null terminated string length"@),
            Seq::<u8>::empty(),
        ),
        bytes.len() >= 4 && word_value(bytes, 0) == 0 ==> parse_string(bytes) == (
            Ok::<Option<Seq<char>>, Seq<char>>(None),
            bytes.skip(4),
        ),
{
    if bytes.len() >= 4 {
        word_is_its_bytes(bytes);
    }
}

/// The text of a string takes, from behind its length word, as many bytes as the length tells,
/// up to a multiple of four; `extent` is that multiple. The last of the bytes told of, and
/// the padding, are not looked at.
pub proof fn string_is_read_by_its_length(bytes: Seq<u8>, n: int, extent: int)
    requires
        bytes.len() >= 4,
        n == word_value(bytes, 0),
        0 < n <= extent < n + 4,
        extent % 4 == 0,
        extent < 0x1_0000_0000,
    ensures
        bytes.len() < 4 + extent ==> parse_string(bytes) == (
            Err::<Option<Seq<char>>, Seq<char>>("string body"@),
            Seq::<u8>::empty(),
        ),
        bytes.len() >= 4 + extent ==> {
            let content = bytes.subrange(4, 3 + n);
            &&& parse_string(bytes).1 == bytes.skip(4 + extent)
            &&& valid_utf8(content) ==> parse_string(bytes).0 == Ok::<
                Option<Seq<char>>,
                Seq<char>,
            >(Some(decode_utf8(content)))
            &&& !valid_utf8(content) ==> parse_string(bytes).0 == Err::<
                Option<Seq<char>>,
                Seq<char>,
            >("bad utf-8"@)
        },
{
    word_is_its_bytes(bytes);
    padded_is_next_multiple(n as nat);
    assert(padded(n as nat) == extent);
    assert(string_extent(n as u32) == extent);
    if bytes.len() >= 4 + extent {
        assert(string_content(n as u32, bytes.skip(4)) =~= bytes.subrange(4, 3 + n));
        assert(bytes.skip(4).skip(extent) =~= bytes.skip(4 + extent));
    }
}

/// The three lengths that have no multiple of four above them are those of an empty text, and
/// nothing is taken from behind them.
pub proof fn largest_lengths_are_empty(bytes: Seq<u8>)
    requires
        bytes.len() >= 4,
        word_value(bytes, 0) > 0xffff_fffc,
    ensures
        parse_string(bytes).1 == bytes.skip(4),
        parse_string(bytes).0 == Ok::<Option<Seq<char>>, Seq<char>>(Some(Seq::<char>::empty())),
{
    word_is_its_bytes(bytes);
    assert(string_extent(bytes_u32(bytes)) == 0);
    assert(bytes.skip(4).skip(0) =~= bytes.skip(4));
    let empty = Seq::<char>::empty();
    assert(encode_utf8(empty) =~= Seq::<u8>::empty());
    encode_utf8_valid_utf8(empty);
    encode_utf8_decode_utf8(empty);
}

/// The bytes of a string: a word that tells how many bytes the text has with a zero behind
/// it, the text, and zeros, at least one, up to a multiple of four.
pub proof fn string_has_these_bytes(text: Seq<char>)
    requires
        encode_utf8(text).len() + 1 < 0x1_0000_0000,
    ensures
        ({
            let b = string_bytes(text);
            let n = encode_utf8(text).len();
            &&& b.len() % 4 == 0
            &&& n + 5 <= b.len() < n + 9
            &&& word_value(b, 0) == n + 1
            &&& b.subrange(4, 4 + n as int) == encode_utf8(text)
            &&& forall|i: int| 4 + n <= i < b.len() ==> (#[trigger] b[i]) == 0
        }),
{
    let b = string_bytes(text);
    let content = encode_utf8(text);
    let n = content.len();
    let word = u32_bytes((n + 1) as u32);
    padded_is_next_multiple(n + 1);
    word_has_four_bytes((n + 1) as u32);
    assert(zeros((padded(n + 1) - n) as nat).len() == padded(n + 1) - n);
    assert(b == word + content + zeros((padded(n + 1) - n) as nat));
    assert(b[0] == word[0] && b[1] == word[1] && b[2] == word[2] && b[3] == word[3]);
    assert(b.subrange(4, 4 + n as int) =~= content);
}

// ---------------------------------------------------------------------------
// Messages
// ---------------------------------------------------------------------------

/// The bytes of a message: the id, the opcode, the size of the whole as far as it goes into a
/// half word, and the body.
pub proof fn message_has_these_bytes(p: PacketView)
    ensures
        p.bytes().len() == 8 + p.body.len(),
        word_value(p.bytes(), 0) == p.id,
        half_value(p.bytes(), 4) == p.opcode,
        half_value(p.bytes(), 6) == (8 + p.body.len()) % 0x1_0000,
        p.bytes().skip(8) == p.body,
        p.bytes().take(4) == p.word1(),
        p.bytes().subrange(4, 8) == p.word2(),
{
    let b = p.bytes();
    let w = p.word1();
    let o = u16_bytes(p.opcode);
    let s = u16_bytes(p.size_field());
    word_has_four_bytes(p.id);
    half_has_two_bytes(p.opcode);
    half_has_two_bytes(p.size_field());
    assert(b == w + (o + s) + p.body);
    assert(b[0] == w[0] && b[1] == w[1] && b[2] == w[2] && b[3] == w[3]);
    assert(b[4] == o[0] && b[5] == o[1] && b[6] == s[0] && b[7] == s[1]);
    assert(b.skip(8) =~= p.body);
    assert(b.take(4) =~= p.word1());
    assert(b.subrange(4, 8) =~= p.word2());
}

/// The size of a message goes into its size field exactly where its body is shorter than
/// 65528 bytes.
pub proof fn message_fits_by_its_body(p: PacketView)
    ensures
        p.fits() <==> p.body.len() <= 65527,
{
}

/// Whether a stream that fails in this way is one whose peer is gone.
pub proof fn peers_are_gone(end: ReadError)
    ensures
        end.disconnects() <==> match end {
            ReadError::UnexpectedEof => true,
            ReadError::BrokenPipe => true,
            ReadError::NotConnected => true,
            ReadError::ConnectionAborted => true,
            ReadError::ConnectionRefused => true,
            ReadError::ConnectionReset => true,
            ReadError::Other => false,
        },
{
}

/// A message is read by its size field. Where the stream fails before the first word is there,
/// it has ended if the peer is gone; any other failure, and a size below that of the header,
/// is an error.
pub proof fn message_is_read_by_its_size(bytes: Seq<u8>, end: ReadError)
    ensures
        bytes.len() < 4 && end is Other ==> parse_packet(bytes, end) == (
            Err::<Option<PacketView>, Seq<char>>("header word 1"@),
            Seq::<u8>::empty(),
        ),
        bytes.len() < 4 && !(end is Other) ==> parse_packet(bytes, end) == (
            Ok::<Option<PacketView>, Seq<char>>(None),
            Seq::<u8>::empty(),
        ),
        4 <= bytes.len() < 8 ==> parse_packet(bytes, end) == (
            Err::<Option<PacketView>, Seq<char>>("header word 2"@),
            Seq::<u8>::empty(),
        ),
        bytes.len() >= 8 && half_value(bytes, 6) < 8 ==> parse_packet(bytes, end) == (
            Err::<Option<PacketView>, Seq<char>>("message size too small"@),
            bytes.skip(8),
        ),
        bytes.len() >= 8 && half_value(bytes, 6) >= 8 && bytes.len() < half_value(bytes, 6)
            ==> parse_packet(bytes, end) == (
            Err::<Option<PacketView>, Seq<char>>("body"@),
            Seq::<u8>::empty(),
        ),
        bytes.len() >= 8 && 8 <= half_value(bytes, 6) <= bytes.len() ==> {
            &&& parse_packet(bytes, end).0 matches Ok(Some(p))
            &&& p.id == word_value(bytes, 0)
            &&& p.opcode == half_value(bytes, 4)
            &&& p.body == bytes.subrange(8, half_value(bytes, 6))
            &&& parse_packet(bytes, end).1 == bytes.skip(half_value(bytes, 6))
        },
{
    if bytes.len() >= 8 {
        word_is_its_bytes(bytes);
        half_is_its_bytes(bytes.skip(4));
        half_is_its_bytes(bytes.skip(6));
        assert(half_value(bytes.skip(4), 0) == half_value(bytes, 4));
        assert(half_value(bytes.skip(6), 0) == half_value(bytes, 6));
    }
}

/// A reader asks for the two header words, and then for the body.
pub proof fn reader_asks_piece_by_piece(id: u32, opcode: u16, len: u16)
    ensures
        PacketReader::Word1.wants() == 4,
        (PacketReader::Word2 { id }).wants() == 4,
        (PacketReader::Body { id, opcode, len }).wants() == len,
{
}

/// What each piece makes of a message.
pub proof fn reader_takes_piece_by_piece(b: Seq<u8>, id: u32, opcode: u16, len: u16)
    ensures
        b.len() == 4 ==> {
            &&& PacketReader::Word1.after(Ok(b)) matches ProgressView::Reading(
                PacketReader::Word2 { id: read },
            )
            &&& read == word_value(b, 0)
        },
        b.len() == 4 && half_value(b, 2) < 8 ==> (PacketReader::Word2 { id }).after(Ok(b))
            == ProgressView::Failed("message size too small"@),
        b.len() == 4 && half_value(b, 2) >= 8 ==> {
            &&& (PacketReader::Word2 { id }).after(Ok(b)) matches ProgressView::Reading(
                PacketReader::Body { id: kept, opcode: read, len: left },
            )
            &&& kept == id
            &&& read == half_value(b, 0)
            &&& left == half_value(b, 2) - 8
        },
        (PacketReader::Body { id, opcode, len }).after(Ok(b)) == ProgressView::Complete(
            PacketView { id, opcode, body: b },
        ),
{
    if b.len() == 4 {
        word_is_its_bytes(b);
        half_is_its_bytes(b);
        half_is_its_bytes(b.skip(2));
        assert(half_value(b.skip(2), 0) == half_value(b, 2));
    }
}

/// What a failure makes of a message: only before its first word does the stream end in
/// order, and only where the peer is gone.
pub proof fn reader_fails_piece_by_piece(e: ReadError, id: u32, opcode: u16, len: u16)
    ensures
        PacketReader::Word1.after(Err(e)) == if e is Other {
            ProgressView::Failed("header word 1"@)
        } else {
            ProgressView::Closed
        },
        (PacketReader::Word2 { id }).after(Err(e)) == ProgressView::Failed("header word 2"@),
        (PacketReader::Body { id, opcode, len }).after(Err(e)) == ProgressView::Failed("body"@),
{
}

// ---------------------------------------------------------------------------
// Writers
// ---------------------------------------------------------------------------

/// A writer without a limit takes everything and never fails.
pub proof fn endless_room_takes_all(bytes: Seq<u8>)
    ensures
        goes_in(bytes.len(), None),
        taken(bytes, None) == bytes,
        room_after(bytes.len(), None) is None,
{
}

/// A writer with a limit takes the bytes up to it. It fails exactly where there are more, and
/// then has no room left.
pub proof fn limited_room_takes_the_first(bytes: Seq<u8>, limit: nat)
    ensures
        goes_in(bytes.len(), Some(limit)) <==> bytes.len() <= limit,
        taken(bytes, Some(limit)) == bytes.take(
            if bytes.len() <= limit {
                bytes.len() as int
            } else {
                limit as int
            },
        ),
        room_after(bytes.len(), Some(limit)) == Some(
            if bytes.len() <= limit {
                (limit - bytes.len()) as nat
            } else {
                0nat
            },
        ),
{
    assert(bytes.take(bytes.len() as int) =~= bytes);
}

} // verus!
