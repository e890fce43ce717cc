//! The `key=value` arguments that override values of the environment.

use vstd::prelude::*;
use crate::text::{chars_of, first_at, lemma_first_at_is, pairs_view, string_of};

verus! {

/// The key and the value of an argument `key=value`: what stands before and
/// behind its first equals sign. An argument without one is malformed.
pub open spec fn extra_arg(raw: Seq<char>) -> Option<(Seq<char>, Seq<char>)> {
    let at = first_at(raw, 0, |c: char| c == '=');
    if at < raw.len() {
        Some((raw.subrange(0, at), raw.subrange(at + 1, raw.len() as int)))
    } else {
        None
    }
}

/// Whether a pair behind the one at `i` has the same key.
pub open spec fn overridden(args: Seq<(Seq<char>, Seq<char>)>, i: int) -> bool {
    exists|j: int| i < j < args.len() && (#[trigger] args[j]).0 == args[i].0
}

/// Those of the first `n` pairs that no later pair overrides, in order.
pub open spec fn kept(args: Seq<(Seq<char>, Seq<char>)>, n: int) -> Seq<(Seq<char>, Seq<char>)>
    decreases n,
{
    if n <= 0 {
        Seq::empty()
    } else if overridden(args, n - 1) {
        kept(args, n - 1)
    } else {
        kept(args, n - 1).push(args[n - 1])
    }
}

/// The overrides that a list of arguments stands for: each key once, with
/// the value that was given for it last.
pub open spec fn extra_args_map(args: Seq<(Seq<char>, Seq<char>)>) -> Seq<(Seq<char>, Seq<char>)> {
    kept(args, args.len() as int)
}

/// Splits one argument `key=value`.
pub fn parse_extra_arg(raw_arg: &str) -> (r: Option<(String, String)>)
    ensures
        match r {
            Some(pair) => extra_arg(raw_arg@) == Some((pair.0@, pair.1@)),
            None => extra_arg(raw_arg@) is None,
        },
{
    let raw = chars_of(raw_arg);
    let n = raw.len();
    let mut at: usize = 0;
    while at < n && raw[at] != '='
        invariant
            n == raw@.len(),
            at <= n,
            forall|i: int| 0 <= i < at ==> raw@[i] != '=',
        decreases n - at,
    {
        at += 1;
    }
    proof {
        lemma_first_at_is(raw@, 0, |c: char| c == '=', at as int);
    }
    if at < n {
        Some((string_of(raw.as_slice(), 0, at), string_of(raw.as_slice(), at + 1, n)))
    } else {
        None
    }
}

/// Collects the arguments into overrides: where a key is given more than
/// once, the last value wins.
pub fn build_extra_args_map(cli_extra_args: Vec<(String, String)>) -> (extra_args: Vec<
    (String, String),
>)
    ensures
        pairs_view(extra_args@) == extra_args_map(pairs_view(cli_extra_args@)),
{
    let ghost args = pairs_view(cli_extra_args@);
    let n = cli_extra_args.len();
    let mut extra_args: Vec<(String, String)> = Vec::new();
    let mut i: usize = 0;
    while i < n
        invariant
            n == cli_extra_args@.len(),
            args == pairs_view(cli_extra_args@),
            i <= n,
            pairs_view(extra_args@) == kept(args, i as int),
        decreases n - i,
    {
        let mut later = false;
        let mut j: usize = i + 1;
        while j < n
            invariant
                n == cli_extra_args@.len(),
                args == pairs_view(cli_extra_args@),
                i < j <= n,
                later == exists|k: int| i < k < j && (#[trigger] args[k]).0 == args[i as int].0,
            decreases n - j,
        {
            assert(args[j as int].0 == cli_extra_args@[j as int].0@);
            assert(args[i as int].0 == cli_extra_args@[i as int].0@);
            if cli_extra_args[j].0 == cli_extra_args[i].0 {
                later = true;
            }
            j += 1;
        }
        if !later {
            let ghost before = pairs_view(extra_args@);
            extra_args.push((cli_extra_args[i].0.clone(), cli_extra_args[i].1.clone()));
            assert(pairs_view(extra_args@) =~= before.push(args[i as int]));
        }
        i += 1;
    }
    extra_args
}

/// Whether `pair` is one of the first `n` pairs and no later pair overrides
/// it.
pub open spec fn stands(args: Seq<(Seq<char>, Seq<char>)>, n: int, pair: (Seq<char>, Seq<char>))
    -> bool {
    exists|i: int| 0 <= i < n && !overridden(args, i) && #[trigger] args[i] == pair
}

/// What `kept` keeps: the pairs that no later pair overrides, each of them,
/// and no key twice.
pub proof fn lemma_kept(args: Seq<(Seq<char>, Seq<char>)>, n: int)
    requires
        0 <= n <= args.len(),
    ensures
        forall|k: int| 0 <= k < kept(args, n).len() ==> stands(args, n, #[trigger] kept(args, n)[k]),
        forall|i: int|
            0 <= i < n && !overridden(args, i) ==> kept(args, n).contains(#[trigger] args[i]),
        forall|a: int, b: int|
            0 <= a < b < kept(args, n).len() ==> (#[trigger] kept(args, n)[a]).0 != (
            #[trigger] kept(args, n)[b]).0,
    decreases n,
{
    if n > 0 {
        lemma_kept(args, n - 1);
        let before = kept(args, n - 1);
        let now = kept(args, n);
        assert forall|k: int| 0 <= k < before.len() implies stands(args, n, #[trigger] before[k]) by {
            assert(stands(args, n - 1, before[k]));
            let i = choose|i: int|
                0 <= i < n - 1 && !overridden(args, i) && #[trigger] args[i] == before[k];
            assert(0 <= i < n && !overridden(args, i) && args[i] == before[k]);
        }
        if !overridden(args, n - 1) {
            assert(now == before.push(args[n - 1]));
            assert forall|k: int| 0 <= k < now.len() implies stands(args, n, #[trigger] now[k]) by {
                if k < before.len() {
                    assert(now[k] == before[k]);
                } else {
                    assert(now[k] == args[n - 1]);
                }
            }
            assert forall|i: int| 0 <= i < n && !overridden(args, i) implies now.contains(
                #[trigger] args[i],
            ) by {
                if i < n - 1 {
                    assert(before.contains(args[i]));
                    let k = choose|k: int| 0 <= k < before.len() && before[k] == args[i];
                    assert(now[k] == args[i]);
                } else {
                    assert(now[now.len() - 1] == args[i]);
                }
            }
            assert forall|a: int, b: int| 0 <= a < b < now.len() implies (#[trigger] now[a]).0 != (
            #[trigger] now[b]).0 by {
                if b < before.len() {
                    assert(now[a] == before[a] && now[b] == before[b]);
                } else {
                    assert(now[a] == before[a]);
                    assert(stands(args, n - 1, before[a]));
                    let i = choose|i: int|
                        0 <= i < n - 1 && !overridden(args, i) && #[trigger] args[i] == before[a];
                    assert(now[b] == args[n - 1]);
                    if args[n - 1].0 == args[i].0 {
                        assert(overridden(args, i));
                    }
                }
            }
        } else {
            assert(now == before);
        }
    }
}

/// Of the values given for one key, the last wins: the overrides hold each
/// key once, with the value of the last pair that has the key.
pub proof fn lemma_last_value_wins(args: Seq<(Seq<char>, Seq<char>)>, i: int)
    requires
        0 <= i < args.len(),
        !overridden(args, i),
    ensures
        extra_args_map(args).contains(args[i]),
        forall|k: int|
            0 <= k < extra_args_map(args).len() && (#[trigger] extra_args_map(args)[k]).0
                == args[i].0 ==> extra_args_map(args)[k].1 == args[i].1,
{
    lemma_kept(args, args.len() as int);
    let map = extra_args_map(args);
    let at = choose|at: int| 0 <= at < map.len() && map[at] == args[i];
    assert forall|k: int| 0 <= k < map.len() && (#[trigger] map[k]).0 == args[i].0 implies map[k].1
        == args[i].1 by {
        if k != at {
            if k < at {
                assert(map[k].0 != map[at].0);
            } else {
                assert(map[at].0 != map[k].0);
            }
        }
    }
}

} // verus!
