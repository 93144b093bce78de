//! Text in pieces: separators, lines, order.
use crate::config::texts;
use vstd::prelude::*;
use vstd::string::*;
use vstd::utf8::char_u32_cast;

verus! {

// ---------------------------------------------------------------------------
// Characters
// ---------------------------------------------------------------------------

/// The characters of `s`.
pub fn characters(s: &str) -> (r: Vec<char>)
    ensures
        r@ == s@,
{
    let mut out: Vec<char> = Vec::new();
    for c in it: s.chars()
        invariant
            out@ == s@.take(it.index()),
            it.seq() == s@,
    {
        out.push(c);
        assert(out@ =~= s@.take(it.index() + 1));
    }
    assert(s@.take(s@.len() as int) =~= s@);
    out
}

/// Whether `name` is one of the texts.
pub fn contains_text(list: &[String], name: &str) -> (r: bool)
    ensures
        r == texts(list@).contains(name@),
{
    let wanted = name.to_owned();
    let mut i: usize = 0;
    while i < list.len()
        invariant
            wanted@ == name@,
            i <= list@.len(),
            forall|j: int| 0 <= j < i ==> list@[j]@ != name@,
        decreases list@.len() - i,
    {
        if list[i] == wanted {
            assert(texts(list@)[i as int] == name@);
            return true;
        }
        i = i + 1;
    }
    assert(forall|j: int| 0 <= j < list@.len() ==> texts(list@)[j] == list@[j]@);
    false
}

/// Whether `c` has the Unicode property White_Space.
pub open spec fn white_space(c: char) -> bool {
    let n = c as u32;
    ||| 0x9 <= n <= 0xd
    ||| n == 0x20
    ||| n == 0x85
    ||| n == 0xa0
    ||| n == 0x1680
    ||| 0x2000 <= n <= 0x200a
    ||| 0x2028 <= n <= 0x2029
    ||| n == 0x202f
    ||| n == 0x205f
    ||| n == 0x3000
}

/// Whether `c` has the Unicode property White_Space.
pub fn is_white_space(c: char) -> (r: bool)
    ensures
        r == white_space(c),
{
    let n: u32 = c as u32;
    (0x9 <= n && n <= 0xd) || n == 0x20 || n == 0x85 || n == 0xa0 || n == 0x1680 || (0x2000 <= n
        && n <= 0x200a) || (0x2028 <= n && n <= 0x2029) || n == 0x202f || n == 0x205f || n == 0x3000
}

// ---------------------------------------------------------------------------
// Splitting and joining
// ---------------------------------------------------------------------------

/// The pieces of `s` between the separators, empty ones among them.
pub open spec fn split_at_each(s: Seq<char>, sep: char) -> Seq<Seq<char>>
    decreases s.len(),
{
    if s.len() == 0 {
        seq![Seq::empty()]
    } else {
        let before = split_at_each(s.drop_last(), sep);
        if s.last() == sep {
            before.push(Seq::empty())
        } else {
            before.update(before.len() - 1, before.last().push(s.last()))
        }
    }
}

/// The pieces, with a separator between each two.
pub open spec fn join(pieces: Seq<Seq<char>>, sep: char) -> Seq<char>
    decreases pieces.len(),
{
    if pieces.len() == 0 {
        Seq::empty()
    } else if pieces.len() == 1 {
        pieces[0]
    } else {
        join(pieces.drop_last(), sep).push(sep) + pieces.last()
    }
}

/// Splits `s` at each separator.
pub fn split(s: &str, sep: char) -> (r: Vec<String>)
    ensures
        texts(r@) == split_at_each(s@, sep),
{
    let chars = characters(s);
    let mut out: Vec<String> = Vec::new();
    let mut start: usize = 0;
    let mut i: usize = 0;
    assert(split_at_each(s@.take(0), sep) =~= seq![Seq::empty()]);
    assert(s@.subrange(0, 0) =~= Seq::empty());
    assert(texts(out@).push(s@.subrange(0, 0)) =~= seq![Seq::empty()]);
    while i < chars.len()
        invariant
            chars@ == s@,
            start <= i <= chars@.len(),
            split_at_each(s@.take(i as int), sep) == texts(out@).push(
                s@.subrange(start as int, i as int),
            ),
        decreases chars@.len() - i,
    {
        let ghost before = texts(out@);
        let ghost piece = s@.subrange(start as int, i as int);
        assert(s@.take(i + 1).drop_last() =~= s@.take(i as int));
        if chars[i] == sep {
            out.push(s.substring_char(start, i).to_owned());
            start = i + 1;
            assert(texts(out@) =~= before.push(piece));
            assert(s@.subrange(start as int, i + 1) =~= Seq::empty());
        } else {
            assert(piece.push(s@[i as int]) =~= s@.subrange(start as int, i + 1));
            assert(before.push(piece).update(before.len() as int, piece.push(s@[i as int]))
                =~= before.push(s@.subrange(start as int, i + 1)));
        }
        i = i + 1;
    }
    let ghost before = texts(out@);
    out.push(s.substring_char(start, i).to_owned());
    assert(s@.take(i as int) =~= s@);
    assert(texts(out@) =~= before.push(s@.subrange(start as int, i as int)));
    out
}

/// Joins the pieces, with a separator between each two.
pub fn join_texts(pieces: &[String], sep: &str) -> (r: String)
    requires
        sep@.len() == 1,
    ensures
        r@ == join(texts(pieces@), sep@[0]),
{
    let mut out = String::new();
    let mut i: usize = 0;
    let ghost all = texts(pieces@);
    assert(out@ =~= join(all.take(0), sep@[0]));
    while i < pieces.len()
        invariant
            sep@.len() == 1,
            i <= pieces@.len(),
            all == texts(pieces@),
            out@ == join(all.take(i as int), sep@[0]),
        decreases pieces@.len() - i,
    {
        assert(all.take(i + 1).drop_last() =~= all.take(i as int));
        if i > 0 {
            out.append(sep);
        }
        out.append(pieces[i].as_str());
        assert(sep@ =~= seq![sep@[0]]);
        assert(out@ =~= join(all.take(i + 1), sep@[0]));
        i = i + 1;
    }
    assert(all.take(i as int) =~= all);
    out
}

/// Splitting gives pieces without the separator, at least one, and joining them gives back
/// the text.
pub proof fn split_then_join(s: Seq<char>, sep: char)
    ensures
        split_at_each(s, sep).len() > 0,
        forall|i: int|
            0 <= i < split_at_each(s, sep).len() ==> !(#[trigger] split_at_each(s, sep)[i]).contains(
                sep,
            ),
        join(split_at_each(s, sep), sep) == s,
    decreases s.len(),
{
    let pieces = split_at_each(s, sep);
    if s.len() > 0 {
        let before = split_at_each(s.drop_last(), sep);
        split_then_join(s.drop_last(), sep);
        if s.last() == sep {
            assert(pieces.drop_last() =~= before);
            assert(join(pieces, sep) =~= s);
        } else {
            let last = before.last().push(s.last());
            assert forall|i: int| 0 <= i < pieces.len() implies !(#[trigger] pieces[i]).contains(
                sep,
            ) by {
                if i == pieces.len() - 1 {
                    assert(pieces[i] == last);
                    if last.contains(sep) {
                        let k = choose|k: int| 0 <= k < last.len() && last[k] == sep;
                        assert(before.last()[k] == sep);
                        assert(before[before.len() - 1].contains(sep));
                    }
                } else {
                    assert(pieces[i] == before[i]);
                }
            }
            assert(pieces.drop_last() =~= before.drop_last());
            assert(join(pieces, sep) =~= join(before, sep).push(s.last()));
            assert(join(pieces, sep) =~= s);
        }
    }
}

/// Splitting two texts with a separator between them splits each.
pub proof fn split_of_two(s: Seq<char>, t: Seq<char>, sep: char)
    ensures
        split_at_each(s.push(sep) + t, sep) == split_at_each(s, sep) + split_at_each(t, sep),
    decreases t.len(),
{
    let whole = s.push(sep) + t;
    let left = split_at_each(s, sep);
    let right = split_at_each(t, sep);
    if t.len() == 0 {
        assert(whole.drop_last() =~= s);
        assert(split_at_each(whole, sep) =~= left + right);
    } else {
        let shorter = split_at_each(t.drop_last(), sep);
        assert(whole.drop_last() =~= s.push(sep) + t.drop_last());
        split_of_two(s, t.drop_last(), sep);
        split_then_join(t.drop_last(), sep);
        assert((left + shorter).last() == shorter.last());
        assert(split_at_each(whole, sep) =~= left + right);
    }
}

/// A text without the separator is one piece.
proof fn split_of_piece(piece: Seq<char>, sep: char)
    requires
        !piece.contains(sep),
    ensures
        split_at_each(piece, sep) == seq![piece],
    decreases piece.len(),
{
    if piece.len() == 0 {
        assert(piece =~= Seq::empty());
    } else {
        let shorter = piece.drop_last();
        assert forall|k: int| 0 <= k < shorter.len() implies shorter[k] != sep by {
            assert(piece[k] == shorter[k]);
        }
        split_of_piece(shorter, sep);
        assert(piece.last() == piece[piece.len() - 1]);
        assert(shorter.push(piece.last()) =~= piece);
        assert(split_at_each(piece, sep) =~= seq![piece]);
    }
}

/// Splitting what was joined gives back the pieces, if there is one and none holds the
/// separator.
pub proof fn join_then_split(pieces: Seq<Seq<char>>, sep: char)
    requires
        pieces.len() > 0,
        forall|i: int| 0 <= i < pieces.len() ==> !(#[trigger] pieces[i]).contains(sep),
    ensures
        split_at_each(join(pieces, sep), sep) == pieces,
    decreases pieces.len(),
{
    if pieces.len() == 1 {
        split_of_piece(pieces[0], sep);
        assert(pieces =~= seq![pieces[0]]);
    } else {
        let before = pieces.drop_last();
        assert forall|i: int| 0 <= i < before.len() implies !(#[trigger] before[i]).contains(
            sep,
        ) by {
            assert(before[i] == pieces[i]);
        }
        join_then_split(before, sep);
        assert(pieces.last() == pieces[pieces.len() - 1]);
        split_of_two(join(before, sep), pieces.last(), sep);
        split_of_piece(pieces.last(), sep);
        assert(before + seq![pieces.last()] =~= pieces);
    }
}

// ---------------------------------------------------------------------------
// Lines
// ---------------------------------------------------------------------------

/// A line that ended in a line feed, without the carriage return before it.
pub open spec fn without_return(line: Seq<char>) -> Seq<char> {
    if line.len() > 0 && line.last() == '\r' {
        line.drop_last()
    } else {
        line
    }
}

/// The lines of `s`. Each ends in a line feed, which may have a carriage return before it;
/// the last one need not.
pub open spec fn lines(s: Seq<char>) -> Seq<Seq<char>> {
    let pieces = split_at_each(s, '\n');
    let ended = (pieces.len() - 1) as nat;
    let last = pieces.last();
    let whole = Seq::new(ended, |i: int| without_return(pieces[i]));
    if last.len() == 0 {
        whole
    } else {
        whole.push(last)
    }
}

fn strip_return(line: &String) -> (r: String)
    ensures
        r@ == without_return(line@),
{
    let n: usize = line.as_str().unicode_len();
    if n > 0 && line.as_str().get_char(n - 1) == '\r' {
        line.as_str().substring_char(0, n - 1).to_owned()
    } else {
        line.clone()
    }
}

/// The lines of `s`.
pub fn split_lines(s: &str) -> (r: Vec<String>)
    ensures
        texts(r@) == lines(s@),
{
    let pieces = split(s, '\n');
    let ghost parts = split_at_each(s@, '\n');
    proof {
        split_then_join(s@, '\n');
    }
    assert(parts.len() == pieces@.len());
    assert(forall|j: int| 0 <= j < parts.len() ==> parts[j] == pieces@[j]@);
    let ended: usize = pieces.len() - 1;
    let mut out: Vec<String> = Vec::new();
    let mut i: usize = 0;
    while i < ended
        invariant
            i <= ended < pieces@.len(),
            ended == parts.len() - 1,
            out@.len() == i,
            forall|j: int| 0 <= j < parts.len() ==> parts[j] == pieces@[j]@,
            forall|j: int| 0 <= j < i ==> (#[trigger] out@[j])@ == without_return(parts[j]),
        decreases ended - i,
    {
        out.push(strip_return(&pieces[i]));
        i = i + 1;
    }
    let ghost whole = Seq::new(ended as nat, |i: int| without_return(parts[i]));
    assert(texts(out@) =~= whole);
    if !pieces[ended].as_str().is_empty() {
        out.push(pieces[ended].clone());
        assert(texts(out@) =~= whole.push(parts.last()));
    }
    out
}

// ---------------------------------------------------------------------------
// Order
// ---------------------------------------------------------------------------

/// Whether `a` comes before `b` in the order of code points.
pub open spec fn precedes(a: Seq<char>, b: Seq<char>) -> bool
    decreases a.len(),
{
    if b.len() == 0 {
        false
    } else if a.len() == 0 {
        true
    } else if a[0] == b[0] {
        precedes(a.drop_first(), b.drop_first())
    } else {
        (a[0] as u32) < (b[0] as u32)
    }
}

/// Of two texts one comes before the other, unless they are the same.
pub proof fn order_is_total(a: Seq<char>, b: Seq<char>)
    ensures
        precedes(a, b) || precedes(b, a) || a == b,
    decreases a.len(),
{
    if a.len() > 0 && b.len() > 0 {
        if a[0] == b[0] {
            order_is_total(a.drop_first(), b.drop_first());
            assert(a =~= seq![a[0]] + a.drop_first());
            assert(b =~= seq![b[0]] + b.drop_first());
        } else {
            char_u32_cast(a[0], a[0] as u32);
            char_u32_cast(b[0], b[0] as u32);
        }
    } else if a.len() == 0 && b.len() == 0 {
        assert(a =~= b);
    }
}

/// No text comes before itself.
pub proof fn order_is_irreflexive(a: Seq<char>)
    ensures
        !precedes(a, a),
    decreases a.len(),
{
    if a.len() > 0 {
        order_is_irreflexive(a.drop_first());
    }
}

/// What comes before a text comes before what that text comes before.
pub proof fn order_is_transitive(a: Seq<char>, b: Seq<char>, c: Seq<char>)
    requires
        precedes(a, b),
        precedes(b, c),
    ensures
        precedes(a, c),
    decreases a.len(),
{
    if a.len() > 0 && a[0] == b[0] && b[0] == c[0] {
        order_is_transitive(a.drop_first(), b.drop_first(), c.drop_first());
    }
}

/// Whether `a` comes before `b` in the order of code points.
pub fn comes_before(a: &str, b: &str) -> (r: bool)
    ensures
        r == precedes(a@, b@),
{
    let x = characters(a);
    let y = characters(b);
    let mut i: usize = 0;
    assert(x@.skip(0) =~= x@ && y@.skip(0) =~= y@);
    while i < x.len() && i < y.len() && x[i] == y[i]
        invariant
            i <= x@.len(),
            i <= y@.len(),
            x@ == a@,
            y@ == b@,
            precedes(x@.skip(i as int), y@.skip(i as int)) == precedes(a@, b@),
        decreases x@.len() - i,
    {
        assert(x@.skip(i as int).drop_first() =~= x@.skip(i + 1));
        assert(y@.skip(i as int).drop_first() =~= y@.skip(i + 1));
        i = i + 1;
    }
    if i < x.len() && i < y.len() {
        (x[i] as u32) < (y[i] as u32)
    } else {
        i < y.len()
    }
}

} // verus!
