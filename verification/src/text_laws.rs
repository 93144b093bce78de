//! What the texts are: lines, order, numbers, the command line, the list of interfaces.
use crate::cli::{block_flag, block_values, gathered, is_flag, listed, other_args, path_in};
use crate::context::{decimal, digit, in_context};
use crate::interfaces::{
    is_known, lists_interfaces, names_interface, warnings, KNOWN_PROTOCOLS,
};
use crate::text::{
    join, lines, precedes, split_at_each, split_of_two, split_then_join, white_space,
};
use vstd::prelude::*;
use vstd::string::*;

verus! {

// ---------------------------------------------------------------------------
// Pieces and lines
// ---------------------------------------------------------------------------

/// Joining puts the separator between each two pieces, and nowhere else.
pub proof fn join_by_pieces(pieces: Seq<Seq<char>>, piece: Seq<char>, sep: char)
    ensures
        join(Seq::empty(), sep) == Seq::<char>::empty(),
        join(seq![piece], sep) == piece,
        pieces.len() > 0 ==> join(pieces.push(piece), sep) == join(pieces, sep).push(sep) + piece,
{
    assert(pieces.push(piece).drop_last() =~= pieces);
}

/// A text without the separator is split into itself alone, and one with a separator into the
/// pieces before it and those behind it.
pub proof fn split_by_pieces(s: Seq<char>, t: Seq<char>, sep: char)
    ensures
        !s.contains(sep) ==> split_at_each(s, sep) == seq![s],
        split_at_each(s.push(sep) + t, sep) == split_at_each(s, sep) + split_at_each(t, sep),
{
    split_of_two(s, t, sep);
    if !s.contains(sep) {
        crate::text::join_then_split(seq![s], sep);
    }
}

/// An empty text has no lines, and a text without a line feed is one line.
pub proof fn lines_of_one(s: Seq<char>)
    requires
        !s.contains('\n'),
    ensures
        lines(s) == if s.len() == 0 {
            Seq::empty()
        } else {
            seq![s]
        },
{
    split_by_pieces(s, Seq::empty(), '\n');
    assert(split_at_each(s, '\n') =~= seq![s]);
    if s.len() == 0 {
        assert(lines(s) =~= Seq::empty());
    } else {
        assert(lines(s) =~= seq![s]);
    }
}

/// What a text has before its first line feed is its first line, without the carriage return
/// that may come before the line feed; the lines of what follows are its other lines.
pub proof fn lines_one_by_one(s: Seq<char>, t: Seq<char>)
    requires
        !s.contains('\n'),
    ensures
        lines(s.push('\n') + t) == seq![
            if s.len() > 0 && s.last() == '\r' {
                s.drop_last()
            } else {
                s
            },
        ] + lines(t),
{
    split_by_pieces(s, t, '\n');
    split_then_join(t, '\n');
    let first = if s.len() > 0 && s.last() == '\r' {
        s.drop_last()
    } else {
        s
    };
    let whole = split_at_each(s.push('\n') + t, '\n');
    let rest = split_at_each(t, '\n');
    assert(whole == seq![s] + rest);
    assert(whole.last() == rest.last());
    assert(lines(s.push('\n') + t) =~= seq![first] + lines(t));
}

// ---------------------------------------------------------------------------
// Order
// ---------------------------------------------------------------------------

/// One text comes before another exactly where, at the first place where they differ, it has
/// ended or has the lower code point.
pub proof fn order_is_by_the_first_difference(a: Seq<char>, b: Seq<char>)
    ensures
        precedes(a, b) <==> exists|k: int| #[trigger] differ_at(a, b, k),
    decreases a.len(),
{
    if b.len() == 0 {
        assert(forall|k: int| !#[trigger] differ_at(a, b, k));
    } else if a.len() == 0 {
        assert(a.take(0) =~= b.take(0));
        assert(differ_at(a, b, 0));
    } else if a[0] == b[0] {
        let x = a.drop_first();
        let y = b.drop_first();
        order_is_by_the_first_difference(x, y);
        if precedes(a, b) {
            let k = choose|k: int| #[trigger] differ_at(x, y, k);
            assert forall|i: int| 0 <= i < k + 1 implies a[i] == b[i] by {
                if i > 0 {
                    assert(x.take(k)[i - 1] == y.take(k)[i - 1]);
                }
            }
            assert(a.take(k + 1) =~= b.take(k + 1));
            assert(differ_at(a, b, k + 1));
        }
        if exists|k: int| #[trigger] differ_at(a, b, k) {
            let k = choose|k: int| #[trigger] differ_at(a, b, k);
            assert(k > 0);
            assert forall|i: int| 0 <= i < k - 1 implies x[i] == y[i] by {
                assert(a.take(k)[i + 1] == b.take(k)[i + 1]);
            }
            assert(x.take(k - 1) =~= y.take(k - 1));
            assert(differ_at(x, y, k - 1));
        }
    } else {
        if (a[0] as u32) < (b[0] as u32) {
            assert(a.take(0) =~= b.take(0));
            assert(differ_at(a, b, 0));
        }
        if exists|k: int| #[trigger] differ_at(a, b, k) {
            let k = choose|k: int| #[trigger] differ_at(a, b, k);
            if k > 0 {
                assert(a.take(k)[0] == b.take(k)[0]);
            }
        }
    }
}

/// Whether the texts are the same up to a place where `a` has ended or has the lower code
/// point.
pub open spec fn differ_at(a: Seq<char>, b: Seq<char>, k: int) -> bool {
    &&& 0 <= k <= a.len()
    &&& k < b.len()
    &&& a.take(k) == b.take(k)
    &&& k == a.len() || (a[k] as u32) < (b[k] as u32)
}

// ---------------------------------------------------------------------------
// Messages
// ---------------------------------------------------------------------------

/// An error in a context is the context, a colon and a space, and the error.
pub proof fn context_comes_first(text: Seq<char>, e: Seq<char>)
    ensures
        in_context(text, e) == text + seq![':', ' '] + e,
{
    reveal_strlit(": ");
    assert(": "@ =~= seq![':', ' ']);
}

/// The number that decimal digits stand for.
pub open spec fn numeral(digits: Seq<char>) -> int
    decreases digits.len(),
{
    if digits.len() == 0 {
        0
    } else {
        10 * numeral(digits.drop_last()) + (digits.last() as u32 - '0' as u32)
    }
}

/// A number in decimal is made of digits, stands for the number, and begins with no zero
/// unless it is zero.
pub proof fn decimal_stands_for_its_number(n: nat)
    ensures
        decimal(n).len() > 0,
        forall|i: int|
            0 <= i < decimal(n).len() ==> '0' as u32 <= (#[trigger] decimal(n)[i]) as u32
                <= '9' as u32,
        numeral(decimal(n)) == n,
        n > 0 ==> decimal(n)[0] != '0',
    decreases n,
{
    let d = decimal(n);
    if n < 10 {
        assert(d.drop_last() =~= Seq::empty());
        assert(d.last() == digit(n));
        assert(numeral(d.drop_last()) == 0);
    } else {
        decimal_stands_for_its_number(n / 10);
        assert(d.drop_last() =~= decimal(n / 10));
        assert(d.last() == digit(n % 10));
        assert forall|i: int| 0 <= i < d.len() implies '0' as u32 <= (#[trigger] d[i]) as u32
            <= '9' as u32 by {
            if i < d.len() - 1 {
                assert(d[i] == decimal(n / 10)[i]);
            }
        }
        assert(d[0] == decimal(n / 10)[0]);
    }
}

// ---------------------------------------------------------------------------
// The list of interfaces
// ---------------------------------------------------------------------------

/// A line of white space names nothing, and one with something else in it names an interface
/// exactly where the first such character is no number sign.
pub proof fn first_visible_character_decides(space: Seq<char>, c: char, rest: Seq<char>)
    requires
        forall|i: int| 0 <= i < space.len() ==> white_space(#[trigger] space[i]),
        !white_space(c),
    ensures
        !names_interface(space),
        names_interface(space.push(c) + rest) <==> c != '#',
{
    let line = space.push(c) + rest;
    let n = space.len() as int;
    assert(line[n] == c);
    assert forall|j: int| 0 <= j < n implies white_space(#[trigger] line[j]) by {
        assert(line[j] == space[j]);
    }
    if names_interface(line) {
        let i = choose|i: int|
            0 <= i < line.len() && !white_space(#[trigger] line[i]) && line[i] != '#' && (forall|
                j: int,
            |
                0 <= j < i ==> white_space(#[trigger] line[j]));
        assert(i == n);
    }
}

/// A list of interfaces holds each line that names one, once, and nothing else, in order.
pub proof fn list_holds_the_named_lines(list: Seq<Seq<char>>, text: Seq<char>, name: Seq<char>)
    requires
        lists_interfaces(list, text),
    ensures
        list.contains(name) <==> lines(text).contains(name) && names_interface(name),
        forall|i: int, j: int|
            0 <= i < j < list.len() ==> precedes(#[trigger] list[i], #[trigger] list[j]),
{
}

/// The interfaces that are known are those on the list.
pub proof fn known_means_listed(list: Seq<Seq<char>>, name: Seq<char>)
    requires
        lists_interfaces(list, KNOWN_PROTOCOLS@),
    ensures
        is_known(name) <==> list.contains(name),
{
}

/// There is one warning for each blocked interface that is not on the list of known ones, and
/// none for the others, in their order; it names the interface.
pub proof fn warnings_one_by_one(list: Seq<Seq<char>>, block: Seq<Seq<char>>, name: Seq<char>)
    requires
        lists_interfaces(list, KNOWN_PROTOCOLS@),
    ensures
        warnings(Seq::empty()) == Seq::<Seq<char>>::empty(),
        list.contains(name) ==> warnings(block.push(name)) == warnings(block),
        !list.contains(name) ==> warnings(block.push(name)) == warnings(block).push(
            "Warning: unknown Wayland interface \""@ + name + "\" in --block list"@,
        ),
{
    assert(block.push(name).drop_last() =~= block);
    known_means_listed(list, name);
}

// ---------------------------------------------------------------------------
// The command line
// ---------------------------------------------------------------------------

/// An argument is a flag exactly where it begins with two hyphens.
pub proof fn flags_begin_with_two_hyphens(arg: Seq<char>)
    ensures
        is_flag(arg) <==> arg.len() >= 2 && arg.take(2) == seq!['-', '-'],
{
    if is_flag(arg) {
        assert(arg.take(2) =~= seq!['-', '-']);
    }
    if arg.len() >= 2 && arg.take(2) == seq!['-', '-'] {
        assert(arg.take(2)[0] == '-' && arg.take(2)[1] == '-');
    }
}

/// What a command line is made of.
pub enum Item {
    /// An argument that has nothing to do with blocking.
    Plain(Seq<char>),
    /// The flag `--block` with its value.
    Block(Seq<char>),
    /// The flag `--block` with another flag behind it, where its value should be.
    Stray(Seq<char>),
}

/// Whether an item is what it is called.
pub open spec fn well_named(item: Item) -> bool {
    match item {
        Item::Plain(arg) => arg != "--block"@,
        Item::Block(value) => !is_flag(value),
        Item::Stray(flag) => is_flag(flag),
    }
}

/// The arguments that items stand for.
pub open spec fn spelled(items: Seq<Item>) -> Seq<Seq<char>>
    decreases items.len(),
{
    if items.len() == 0 {
        Seq::empty()
    } else {
        let rest = spelled(items.drop_first());
        match items[0] {
            Item::Plain(arg) => seq![arg] + rest,
            Item::Block(value) => seq!["--block"@, value] + rest,
            Item::Stray(flag) => seq!["--block"@, flag] + rest,
        }
    }
}

/// The plain arguments among items.
pub open spec fn plain_of(items: Seq<Item>) -> Seq<Seq<char>>
    decreases items.len(),
{
    if items.len() == 0 {
        Seq::empty()
    } else {
        let rest = plain_of(items.drop_first());
        match items[0] {
            Item::Plain(arg) => seq![arg] + rest,
            _ => rest,
        }
    }
}

/// The values of the block flags among items.
pub open spec fn blocked_of(items: Seq<Item>) -> Seq<Seq<char>>
    decreases items.len(),
{
    if items.len() == 0 {
        Seq::empty()
    } else {
        let rest = blocked_of(items.drop_first());
        match items[0] {
            Item::Block(value) => seq![value] + rest,
            _ => rest,
        }
    }
}

/// The arguments behind items: none, or a last `--block` without anything behind it.
pub open spec fn dangling(yes: bool) -> Seq<Seq<char>> {
    if yes {
        seq!["--block"@]
    } else {
        Seq::empty()
    }
}

proof fn items_are_taken_apart(head: Seq<Seq<char>>, items: Seq<Item>, open: bool)
    requires
        forall|k: int| 0 <= k < items.len() ==> well_named(#[trigger] items[k]),
    ensures
        ({
            let args = head + spelled(items) + dangling(open);
            &&& other_args(args, head.len() as int) == plain_of(items)
            &&& block_values(args, head.len() as int) == blocked_of(items)
        }),
    decreases items.len(),
{
    let args = head + spelled(items) + dangling(open);
    let i = head.len() as int;
    if items.len() == 0 {
        if open {
            assert(args[i] == "--block"@);
            assert(other_args(args, i + 2) =~= Seq::empty());
            assert(block_values(args, i + 2) =~= Seq::empty());
        } else {
            assert(args.len() == i);
        }
    } else {
        let rest = items.drop_first();
        assert(forall|k: int| 0 <= k < rest.len() ==> rest[k] == items[k + 1]);
        assert(well_named(items[0]));
        match items[0] {
            Item::Plain(arg) => {
                items_are_taken_apart(head.push(arg), rest, open);
                assert(head.push(arg) + spelled(rest) + dangling(open) =~= args);
                assert(args[i] == arg);
            },
            Item::Block(value) => {
                let longer = head.push("--block"@).push(value);
                items_are_taken_apart(longer, rest, open);
                assert(longer + spelled(rest) + dangling(open) =~= args);
                assert(args[i] == "--block"@ && args[i + 1] == value);
            },
            Item::Stray(flag) => {
                let longer = head.push("--block"@).push(flag);
                items_are_taken_apart(longer, rest, open);
                assert(longer + spelled(rest) + dangling(open) =~= args);
                assert(args[i] == "--block"@ && args[i + 1] == flag);
            },
        }
    }
}

/// Gathering keeps the program's name and the plain arguments, in their order, and puts behind
/// them one `--block` with all the values, joined by commas, if there are any. A `--block`
/// without a value is dropped, with the flag that stands in the value's place.
pub proof fn block_flags_are_gathered(program: Seq<char>, items: Seq<Item>, open: bool)
    requires
        forall|k: int| 0 <= k < items.len() ==> well_named(#[trigger] items[k]),
    ensures
        gathered(seq![program] + spelled(items) + dangling(open)) == seq![program] + plain_of(
            items,
        ) + if blocked_of(items).len() == 0 {
            Seq::empty()
        } else {
            seq!["--block"@, join(blocked_of(items), ',')]
        },
{
    let args = seq![program] + spelled(items) + dangling(open);
    items_are_taken_apart(seq![program], items, open);
    assert(args[0] == program);
    if args.len() == 1 {
        assert(spelled(items).len() == 0 && !open);
        if items.len() > 0 {
            assert(spelled(items).len() > 0);
        }
        assert(args =~= seq![program]);
        assert(gathered(args) =~= seq![program] + plain_of(items) + Seq::<Seq<char>>::empty());
    }
    assert(block_flag(blocked_of(items)) =~= if blocked_of(items).len() == 0 {
        Seq::empty()
    } else {
        seq!["--block"@, join(blocked_of(items), ',')]
    });
}

/// Every command line is made of such items.
pub proof fn every_line_is_made_of_items(args: Seq<Seq<char>>) -> (r: (Seq<Item>, bool))
    ensures
        forall|k: int| 0 <= k < r.0.len() ==> well_named(#[trigger] r.0[k]),
        args == spelled(r.0) + dangling(r.1),
    decreases args.len(),
{
    if args.len() == 0 {
        let none = Seq::<Item>::empty();
        assert(args =~= spelled(none) + dangling(false));
        (none, false)
    } else if args[0] != "--block"@ {
        let (rest, open) = every_line_is_made_of_items(args.drop_first());
        let items = seq![Item::Plain(args[0])] + rest;
        assert(items.drop_first() =~= rest);
        assert forall|k: int| 0 <= k < items.len() implies well_named(#[trigger] items[k]) by {
            if k > 0 {
                assert(items[k] == rest[k - 1]);
            }
        }
        let tail = spelled(rest) + dangling(open);
        assert(items[0] == Item::Plain(args[0]));
        assert(spelled(items) == seq![args[0]] + spelled(rest));
        assert(args =~= seq![args[0]] + tail);
        assert(args =~= spelled(items) + dangling(open));
        (items, open)
    } else if args.len() == 1 {
        let none = Seq::<Item>::empty();
        assert(args =~= spelled(none) + dangling(true));
        (none, true)
    } else {
        let (rest, open) = every_line_is_made_of_items(args.skip(2));
        let item = if is_flag(args[1]) {
            Item::Stray(args[1])
        } else {
            Item::Block(args[1])
        };
        let items = seq![item] + rest;
        assert(items.drop_first() =~= rest);
        assert forall|k: int| 0 <= k < items.len() implies well_named(#[trigger] items[k]) by {
            if k > 0 {
                assert(items[k] == rest[k - 1]);
            }
        }
        let tail = spelled(rest) + dangling(open);
        assert(items[0] == item);
        assert(spelled(items) == seq!["--block"@, args[1]] + spelled(rest));
        assert(args =~= seq!["--block"@, args[1]] + tail);
        assert(args =~= spelled(items) + dangling(open));
        (items, open)
    }
}

/// A command line without arguments, and one without the program's name, stay as they are.
pub proof fn short_lines_stay(args: Seq<Seq<char>>)
    requires
        args.len() <= 1,
    ensures
        gathered(args) == args,
{
}

/// Without the flag nothing is blocked; with it, what stands between its commas.
pub proof fn block_list_is_between_commas(value: Seq<char>)
    ensures
        listed(None) == Seq::<Seq<char>>::empty(),
        listed(Some(value)).len() > 0,
        join(listed(Some(value)), ',') == value,
        forall|i: int|
            0 <= i < listed(Some(value)).len() ==> !(#[trigger] listed(Some(value))[i]).contains(
                ',',
            ),
{
    split_then_join(value, ',');
}

/// A name that begins with a slash is a path of its own. Any other stands behind the
/// directory, with a slash between them unless the directory is empty or ends in one.
pub proof fn paths_are_joined_by_one_slash(dir: Seq<char>, name: Seq<char>)
    ensures
        path_in(dir, seq!['/'] + name) == seq!['/'] + name,
        name.len() == 0 || name[0] != '/' ==> {
            &&& path_in(Seq::empty(), name) == name
            &&& path_in(dir.push('/'), name) == dir.push('/') + name
            &&& dir.len() > 0 && dir.last() != '/' ==> path_in(dir, name) == dir + seq!['/'] + name
        },
{
    assert((seq!['/'] + name)[0] == '/');
    assert(Seq::<char>::empty() + name =~= name);
    assert(dir.push('/') + name =~= dir + seq!['/'] + name);
}

} // verus!
