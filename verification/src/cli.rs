//! The command line.
use vstd::prelude::*;

use crate::text;

verus! {

/// What the arguments from `i` on say of a flag: the value may stand behind an equals sign or in the
/// next argument. The first mention counts.
pub open spec fn flag_in(args: Seq<Seq<char>>, flag: Seq<char>, i: int) -> Option<Seq<char>>
    decreases args.len() - i,
{
    let key = flag + "="@;
    if i < 0 || i >= args.len() {
        None
    } else if args[i].len() >= key.len() && args[i].take(key.len() as int) == key {
        Some(args[i].skip(key.len() as int))
    } else if args[i] == flag {
        if i + 1 < args.len() {
            Some(args[i + 1])
        } else {
            None
        }
    } else {
        flag_in(args, flag, i + 1)
    }
}

/// The value of a flag, written as `--flag value` or as `--flag=value`.
pub fn flag_value(args: &Vec<String>, flag: &str) -> (res: Option<String>)
    ensures
        flag_in(text::views(args@), flag@, 0) == (match res {
            Some(v) => Some(v@),
            None => None,
        }),
{
    let key = flag.to_owned().concat("=");
    let ghost all = text::views(args@);
    let mut i: usize = 0;
    while i < args.len()
        invariant
            i <= args.len(),
            all == text::views(args@),
            key@ == flag@ + "="@,
            flag_in(all, flag@, 0) == flag_in(all, flag@, i as int),
        decreases args.len() - i,
    {
        assert(all[i as int] == args@[i as int]@);
        if text::starts_with(args[i].as_str(), key.as_str()) {
            let v = text::chars_of(args[i].as_str());
            let n: usize = text::chars_of(key.as_str()).len();
            let rest = vstd::slice::slice_subrange(v.as_slice(), n, v.len());
            assert(rest@ =~= all[i as int].skip(key@.len() as int));
            return Some(text::string_of(rest));
        }
        if text::same(args[i].as_str(), flag) {
            if i + 1 < args.len() {
                assert(all[i + 1] == args@[i + 1]@);
                return Some(args[i + 1].clone());
            }
            return None;
        }
        i = i + 1;
    }
    None
}

/// Whether a flag is given.
pub fn has_flag(args: &Vec<String>, flag: &str) -> (res: bool)
    ensures
        res == text::views(args@).contains(flag@),
{
    text::list_contains(args, flag)
}

// ---- laws ----

proof fn lemma_flag_in_rest(args: Seq<Seq<char>>, flag: Seq<char>, k: int, i: int)
    requires
        0 <= k <= args.len(),
        0 <= i,
    ensures
        flag_in(args, flag, k + i) == flag_in(args.skip(k), flag, i),
    decreases args.len() - k - i,
{
    if k + i < args.len() {
        lemma_flag_in_rest(args, flag, k, i + 1);
    }
}

/// The value of a flag is what stands behind its equals sign, or else the next argument; a flag at the
/// very end has none. The first mention counts, and an argument that does not mention the flag does
/// not.
pub proof fn the_first_mention_of_a_flag_counts(
    flag: Seq<char>,
    value: Seq<char>,
    other: Seq<char>,
    rest: Seq<Seq<char>>,
)
    ensures
        flag_in(Seq::empty(), flag, 0) is None,
        flag_in(seq![flag + "="@ + value] + rest, flag, 0) == Some(value),
        flag_in(seq![flag, value] + rest, flag, 0) == Some(value),
        flag_in(seq![flag], flag, 0) is None,
        other != flag && !(other.len() > flag.len() && other.take(flag.len() as int + 1) == flag + "="@)
            ==> flag_in(seq![other] + rest, flag, 0) == flag_in(rest, flag, 0),
{
    reveal_strlit("=");
    let key = flag + "="@;
    let given = flag + "="@ + value;
    assert(given.take(key.len() as int) =~= key);
    assert(given.skip(key.len() as int) =~= value);
    let args = seq![other] + rest;
    lemma_flag_in_rest(args, flag, 1, 0);
    assert(args.skip(1) =~= rest);
}

} // verus!
