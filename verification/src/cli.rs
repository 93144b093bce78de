//! The command line and the environment.
use crate::config::texts;
use crate::text::{join, join_texts, join_then_split, split, split_at_each, split_of_two};
use vstd::prelude::*;
use vstd::string::*;

verus! {

/// Whether an argument is a flag rather than a value.
pub open spec fn is_flag(arg: Seq<char>) -> bool {
    arg.len() >= 2 && arg[0] == '-' && arg[1] == '-'
}

fn looks_like_flag(arg: &str) -> (r: bool)
    ensures
        r == is_flag(arg@),
{
    arg.unicode_len() >= 2 && arg.get_char(0) == '-' && arg.get_char(1) == '-'
}

/// The values of the `--block` flags among the arguments from `i` on. What follows such a
/// flag is its value, unless it is a flag.
pub open spec fn block_values(args: Seq<Seq<char>>, i: int) -> Seq<Seq<char>>
    decreases args.len() + 1 - i,
{
    if i >= args.len() {
        Seq::empty()
    } else if args[i] != "--block"@ {
        block_values(args, i + 1)
    } else if i + 1 < args.len() && !is_flag(args[i + 1]) {
        seq![args[i + 1]] + block_values(args, i + 2)
    } else {
        block_values(args, i + 2)
    }
}

/// The arguments from `i` on without the `--block` flags and what follows each.
pub open spec fn other_args(args: Seq<Seq<char>>, i: int) -> Seq<Seq<char>>
    decreases args.len() + 1 - i,
{
    if i >= args.len() {
        Seq::empty()
    } else if args[i] == "--block"@ {
        other_args(args, i + 2)
    } else {
        seq![args[i]] + other_args(args, i + 1)
    }
}

/// The `--block` flag with all the values, if there are any.
pub open spec fn block_flag(values: Seq<Seq<char>>) -> Seq<Seq<char>> {
    if values.len() == 0 {
        Seq::empty()
    } else {
        seq!["--block"@, join(values, ',')]
    }
}

/// The command line with its `--block` flags gathered into one at its end.
pub open spec fn gathered(args: Seq<Seq<char>>) -> Seq<Seq<char>> {
    if args.len() <= 1 {
        args
    } else {
        seq![args[0]] + other_args(args, 1) + block_flag(block_values(args, 1))
    }
}

/// Gathers the `--block` flags of a command line into one at its end, so that the flag can
/// be given many times to a parser that takes it once.
pub fn preprocess_args(args: &[String]) -> (r: Vec<String>)
    ensures
        texts(r@) == gathered(texts(args@)),
{
    let ghost all = texts(args@);
    let mut result: Vec<String> = Vec::new();
    let mut values: Vec<String> = Vec::new();
    if args.len() == 0 {
        assert(texts(result@) =~= all);
        return result;
    }
    result.push(args[0].clone());
    assert(texts(result@) =~= seq![all[0]]);
    assert(texts(values@) =~= Seq::empty());
    let flag = "--block".to_owned();
    let mut i: usize = 1;
    assert(texts(result@) + other_args(all, 1) =~= seq![all[0]] + other_args(all, 1));
    assert(texts(values@) + block_values(all, 1) =~= block_values(all, 1));
    while i < args.len()
        invariant
            all == texts(args@),
            flag@ == "--block"@,
            1 <= i,
            args@.len() >= 1,
            texts(result@) + other_args(all, i as int) == seq![all[0]] + other_args(all, 1),
            texts(values@) + block_values(all, i as int) == block_values(all, 1),
        decreases args@.len() - i,
    {
        let ghost kept = texts(result@);
        let ghost seen = texts(values@);
        assert(all[i as int] == args@[i as int]@);
        if args[i] == flag {
            let next: usize = i + 1;
            if next < args.len() {
                assert(all[next as int] == args@[next as int]@);
                if !looks_like_flag(args[next].as_str()) {
                    values.push(args[next].clone());
                    assert(texts(values@) =~= seen.push(all[next as int]));
                    assert(seen.push(all[next as int]) + block_values(all, next + 1) =~= seen + (
                    seq![all[next as int]] + block_values(all, next + 1)));
                }
                i = next + 1;
            } else {
                assert(other_args(all, next + 1) == other_args(all, next as int));
                assert(block_values(all, next + 1) == block_values(all, next as int));
                i = next;
            }
        } else {
            result.push(args[i].clone());
            assert(texts(result@) =~= kept.push(all[i as int]));
            assert(kept.push(all[i as int]) + other_args(all, i + 1) =~= kept + (seq![
                all[i as int],
            ] + other_args(all, i + 1)));
            i = i + 1;
        }
    }
    let ghost kept = texts(result@);
    assert(kept + other_args(all, i as int) =~= kept);
    assert(texts(values@) + block_values(all, i as int) =~= texts(values@));
    if !values.is_empty() {
        proof {
            reveal_strlit(",");
        }
        let joined = join_texts(values.as_slice(), ",");
        result.push(flag);
        result.push(joined);
        assert(texts(result@) =~= kept + seq!["--block"@, joined@]);
    } else {
        assert(kept + block_flag(texts(values@)) =~= kept);
    }
    assert(all.len() == 1 ==> texts(result@) =~= all);
    result
}

/// The interfaces that the value of `--block` names: those between its commas.
pub open spec fn listed(value: Option<Seq<char>>) -> Seq<Seq<char>> {
    match value {
        Some(value) => split_at_each(value, ','),
        None => Seq::empty(),
    }
}

/// The interfaces that the value of `--block` names.
pub fn block_list(value: &Option<String>) -> (r: Vec<String>)
    ensures
        texts(r@) == listed(crate::proto::text_of(*value)),
{
    match value {
        Some(value) => split(value.as_str(), ','),
        None => {
            let none: Vec<String> = Vec::new();
            assert(texts(none@) =~= Seq::empty());
            none
        },
    }
}

// ---------------------------------------------------------------------------
// What gathering keeps
// ---------------------------------------------------------------------------

/// An interface is named by the gathered flag exactly where one of the flags names it.
pub proof fn every_block_flag_counts(values: Seq<Seq<char>>, name: Seq<char>)
    requires
        values.len() > 0,
    ensures
        listed(Some(join(values, ','))).contains(name) <==> exists|i: int|
            0 <= i < values.len() && listed(Some(#[trigger] values[i])).contains(name),
    decreases values.len(),
{
    if values.len() == 1 {
        assert(listed(Some(values[0])).contains(name) == listed(Some(join(values, ','))).contains(
            name,
        ));
    } else {
        let before = values.drop_last();
        let last = values.last();
        every_block_flag_counts(before, name);
        split_of_two(join(before, ','), last, ',');
        let left = listed(Some(join(before, ',')));
        let right = listed(Some(last));
        let both = left + right;
        assert(listed(Some(join(values, ','))) == both);
        assert(values[values.len() - 1] == last);
        if both.contains(name) {
            let k = choose|k: int| 0 <= k < both.len() && both[k] == name;
            if k < left.len() {
                assert(left[k] == name);
                let i = choose|i: int|
                    0 <= i < before.len() && listed(Some(#[trigger] before[i])).contains(name);
                assert(values[i] == before[i]);
            } else {
                assert(right[k - left.len()] == name);
                assert(listed(Some(values[values.len() - 1])).contains(name));
            }
        }
        if exists|i: int| 0 <= i < values.len() && listed(Some(#[trigger] values[i])).contains(name) {
            let i = choose|i: int|
                0 <= i < values.len() && listed(Some(#[trigger] values[i])).contains(name);
            if i < before.len() {
                assert(before[i] == values[i]);
                assert(left.contains(name));
                let k = choose|k: int| 0 <= k < left.len() && left[k] == name;
                assert(both[k] == name);
            } else {
                let k = choose|k: int| 0 <= k < right.len() && right[k] == name;
                assert(both[left.len() + k] == name);
            }
        }
    }
}

/// Values without commas are what the gathered flag names.
pub proof fn block_values_are_listed(values: Seq<Seq<char>>)
    requires
        values.len() > 0,
        forall|i: int| 0 <= i < values.len() ==> !(#[trigger] values[i]).contains(','),
    ensures
        listed(Some(join(values, ','))) == values,
{
    join_then_split(values, ',');
}

/// Values that are no flags do not make a flag.
proof fn joined_values_are_no_flag(values: Seq<Seq<char>>)
    requires
        forall|i: int| 0 <= i < values.len() ==> !is_flag(#[trigger] values[i]),
    ensures
        !is_flag(join(values, ',')),
    decreases values.len(),
{
    if values.len() > 1 {
        let before = values.drop_last();
        assert(forall|i: int| 0 <= i < before.len() ==> before[i] == values[i]);
        joined_values_are_no_flag(before);
        let whole = join(values, ',');
        let start = join(before, ',');
        assert(whole == start.push(',') + values.last());
        if start.len() >= 2 {
            assert(whole[0] == start[0] && whole[1] == start[1]);
        } else if start.len() == 1 {
            assert(whole[1] == ',');
        } else {
            assert(whole[0] == ',');
        }
    }
}

proof fn block_values_are_no_flags(args: Seq<Seq<char>>, i: int)
    ensures
        forall|k: int|
            0 <= k < block_values(args, i).len() ==> !is_flag(#[trigger] block_values(args, i)[k]),
    decreases args.len() + 1 - i,
{
    if i < args.len() {
        block_values_are_no_flags(args, i + 1);
        block_values_are_no_flags(args, i + 2);
        if args[i] == "--block"@ && i + 1 < args.len() && !is_flag(args[i + 1]) {
            let later = block_values(args, i + 2);
            let all = block_values(args, i);
            assert(all == seq![args[i + 1]] + later);
            assert forall|k: int| 0 <= k < all.len() implies !is_flag(#[trigger] all[k]) by {
                assert(all[k] == if k == 0 { args[i + 1] } else { later[k - 1] });
            }
        } else if args[i] == "--block"@ {
            assert(block_values(args, i) == block_values(args, i + 2));
        } else {
            assert(block_values(args, i) == block_values(args, i + 1));
        }
    }
}

proof fn other_args_are_no_block_flags(args: Seq<Seq<char>>, i: int)
    ensures
        forall|k: int|
            0 <= k < other_args(args, i).len() ==> (#[trigger] other_args(args, i)[k])
                != "--block"@,
    decreases args.len() + 1 - i,
{
    if i < args.len() {
        other_args_are_no_block_flags(args, i + 1);
        other_args_are_no_block_flags(args, i + 2);
        if args[i] != "--block"@ {
            let later = other_args(args, i + 1);
            let all = other_args(args, i);
            assert(all == seq![args[i]] + later);
            assert forall|k: int| 0 <= k < all.len() implies (#[trigger] all[k]) != "--block"@ by {
                assert(all[k] == if k == 0 { args[i] } else { later[k - 1] });
            }
        } else {
            assert(other_args(args, i) == other_args(args, i + 2));
        }
    }
}

/// Arguments without the flag are kept as they are.
proof fn plain_args_are_kept(args: Seq<Seq<char>>, i: int, end: int)
    requires
        0 <= i <= end <= args.len(),
        forall|k: int| i <= k < end ==> (#[trigger] args[k]) != "--block"@,
    ensures
        other_args(args, i) == args.subrange(i, end) + other_args(args, end),
        block_values(args, i) == block_values(args, end),
    decreases end - i,
{
    if i < end {
        plain_args_are_kept(args, i + 1, end);
        assert(args.subrange(i, end) =~= seq![args[i]] + args.subrange(i + 1, end));
        assert(seq![args[i]] + (args.subrange(i + 1, end) + other_args(args, end)) =~= args.subrange(
            i,
            end,
        ) + other_args(args, end));
    } else {
        assert(args.subrange(i, end) + other_args(args, end) =~= other_args(args, end));
    }
}

/// Gathering the flags of a command line once more changes nothing.
pub proof fn gathering_is_idempotent(args: Seq<Seq<char>>)
    ensures
        gathered(gathered(args)) == gathered(args),
{
    if args.len() > 1 {
        let once = gathered(args);
        let others = other_args(args, 1);
        let values = block_values(args, 1);
        let tail = block_flag(values);
        let end: int = 1 + others.len() as int;
        other_args_are_no_block_flags(args, 1);
        block_values_are_no_flags(args, 1);
        joined_values_are_no_flag(values);
        assert forall|k: int| 1 <= k < end implies (#[trigger] once[k]) != "--block"@ by {
            assert(once[k] == others[k - 1]);
        }
        plain_args_are_kept(once, 1, end);
        assert(once.subrange(1, end) =~= others);
        if values.len() > 0 {
            assert(once[end] == "--block"@);
            assert(once[end + 1] == join(values, ','));
            assert(other_args(once, end + 2) =~= Seq::empty());
            assert(block_values(once, end + 2) =~= Seq::empty());
            assert(block_values(once, 1) =~= seq![join(values, ',')]);
            assert(join(seq![join(values, ',')], ',') == join(values, ','));
        }
        assert(other_args(once, 1) =~= others);
        assert(gathered(once) =~= once);
    }
}

// ---------------------------------------------------------------------------
// The compositor's socket
// ---------------------------------------------------------------------------

/// The path of `name` in the directory `dir`; an absolute `name` stands for itself.
pub open spec fn path_in(dir: Seq<char>, name: Seq<char>) -> Seq<char> {
    if name.len() > 0 && name[0] == '/' {
        name
    } else if dir.len() == 0 || dir.last() == '/' {
        dir + name
    } else {
        dir.push('/') + name
    }
}

/// The compositor's socket where none was given: the display named in the environment, or
/// the first one, in the runtime directory.
pub fn default_upstream(runtime_dir: &str, wayland_display: Option<&str>) -> (r: String)
    ensures
        r@ == path_in(
            runtime_dir@,
            match wayland_display {
                Some(name) => name@,
                None => "wayland-0"@,
            },
        ),
{
    let name = match wayland_display {
        Some(name) => name,
        None => "wayland-0",
    };
    if name.unicode_len() > 0 && name.get_char(0) == '/' {
        return name.to_owned();
    }
    let mut path = runtime_dir.to_owned();
    let n: usize = runtime_dir.unicode_len();
    if n > 0 && runtime_dir.get_char(n - 1) != '/' {
        proof {
            reveal_strlit("/");
        }
        path.append("/");
        assert(path@ =~= runtime_dir@.push('/'));
    }
    path.append(name);
    path
}

} // verus!
