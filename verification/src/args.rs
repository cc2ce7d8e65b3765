//! Extraction of the linker arguments the tool cares about: the output
//! path (`-o`), the library search paths (`-L`) and the requested linker
//! scripts (`-T`).

use vstd::prelude::*;

use crate::Error;
use crate::text::{matches_at, to_chars, starts_with_at, copy_range, chars_to_string};

verus! {

/// The argument following the first `-o`, scanning adjacent pairs from
/// position `i`.
pub open spec fn output_path_from(args: Seq<Seq<char>>, i: int) -> Option<Seq<char>>
    decreases args.len() - i,
{
    if i < 0 || i + 1 >= args.len() {
        None
    } else if args[i] == "-o"@ {
        Some(args[i + 1])
    } else {
        output_path_from(args, i + 1)
    }
}

pub open spec fn output_path_of(args: Seq<Seq<char>>) -> Option<Seq<char>> {
    output_path_from(args, 0)
}

/// Every argument following a `-L`, in order, scanning adjacent pairs
/// from position `i`.
pub open spec fn search_paths_from(args: Seq<Seq<char>>, i: int) -> Seq<Seq<char>>
    decreases args.len() - i,
{
    if i < 0 || i + 1 >= args.len() {
        Seq::empty()
    } else {
        let rest = search_paths_from(args, i + 1);
        if args[i] == "-L"@ {
            seq![args[i + 1]] + rest
        } else {
            rest
        }
    }
}

pub open spec fn search_paths_of(args: Seq<Seq<char>>) -> Seq<Seq<char>> {
    search_paths_from(args, 0)
}

/// The remainder of every argument that starts with `-T`, in order, from
/// position `i`.
pub open spec fn search_targets_from(args: Seq<Seq<char>>, i: int) -> Seq<Seq<char>>
    decreases args.len() - i,
{
    if !(0 <= i < args.len()) {
        Seq::empty()
    } else {
        let rest = search_targets_from(args, i + 1);
        if matches_at(args[i], 0, "-T"@) {
            seq![args[i].subrange("-T"@.len() as int, args[i].len() as int)] + rest
        } else {
            rest
        }
    }
}

pub open spec fn search_targets_of(args: Seq<Seq<char>>) -> Seq<Seq<char>> {
    search_targets_from(args, 0)
}

/// The output path of the linked program, specified by `-o`: the argument
/// after the first `-o`, or an error when there is none.
pub fn get_output_path(args: &Vec<String>) -> (r: Result<String, Error>)
    ensures
        r matches Ok(p) ==> output_path_of(args.deep_view()) == Some(p@),
        r is Err ==> output_path_of(args.deep_view()) is None && r == Err::<String, Error>(
            Error::OutputPathNotFound,
        ),
{
    let ghost dv = args.deep_view();
    let key: String = "-o".to_owned();
    let n = args.len();
    let mut i: usize = 0;
    while i < n && i + 1 < n
        invariant
            dv == args.deep_view(),
            n == args@.len(),
            key@ == "-o"@,
            0 <= i <= n,
            output_path_from(dv, 0) == output_path_from(dv, i as int),
        decreases n - i,
    {
        if args[i] == key {
            proof {
                assert(dv[i as int] == args@[i as int]@);
                assert(dv[i + 1] == args@[i + 1]@);
            }
            return Ok(args[i + 1].clone());
        }
        proof {
            assert(dv[i as int] == args@[i as int]@);
        }
        i = i + 1;
    }
    Err(Error::OutputPathNotFound)
}

/// The library search paths, specified by `-L`: the argument after each
/// occurrence, in command-line order.
pub fn get_search_paths(args: &Vec<String>) -> (r: Vec<String>)
    ensures
        r.deep_view() == search_paths_of(args.deep_view()),
{
    let ghost dv = args.deep_view();
    let key: String = "-L".to_owned();
    let n = args.len();
    let mut out: Vec<String> = Vec::new();
    let mut i: usize = 0;
    while i < n && i + 1 < n
        invariant
            dv == args.deep_view(),
            n == args@.len(),
            key@ == "-L"@,
            0 <= i <= n,
            search_paths_from(dv, 0) == out.deep_view() + search_paths_from(dv, i as int),
        decreases n - i,
    {
        proof {
            assert(dv[i as int] == args@[i as int]@);
        }
        if args[i] == key {
            proof {
                assert(dv[i + 1] == args@[i + 1]@);
            }
            let ghost prev = out.deep_view();
            out.push(args[i + 1].clone());
            proof {
                assert(out.deep_view() =~= prev + seq![dv[i + 1]]);
                assert(prev + (seq![dv[i + 1]] + search_paths_from(dv, i + 1)) =~= out.deep_view()
                    + search_paths_from(dv, i + 1));
            }
        }
        i = i + 1;
    }
    proof {
        assert(out.deep_view() + Seq::<Seq<char>>::empty() =~= out.deep_view());
    }
    out
}

/// The names of the requested linker scripts, specified as `-T<name>`:
/// the remainder of each such argument, in command-line order.
pub fn get_search_targets(args: &Vec<String>) -> (r: Vec<String>)
    ensures
        r.deep_view() == search_targets_of(args.deep_view()),
{
    let ghost dv = args.deep_view();
    let n = args.len();
    let mut out: Vec<String> = Vec::new();
    let mut i: usize = 0;
    while i < n
        invariant
            dv == args.deep_view(),
            n == args@.len(),
            0 <= i <= n,
            search_targets_from(dv, 0) == out.deep_view() + search_targets_from(dv, i as int),
        decreases n - i,
    {
        proof {
            assert(dv[i as int] == args@[i as int]@);
        }
        let chars = to_chars(args[i].as_str());
        if starts_with_at(&chars, 0, "-T") {
            proof {
                reveal_strlit("-T");
                assert("-T"@.len() == 2);
            }
            let name = copy_range(&chars, 2, chars.len());
            let name_str = chars_to_string(&name);
            let ghost prev = out.deep_view();
            out.push(name_str);
            proof {
                assert(out.deep_view() =~= prev + seq![name_str@]);
                assert(prev + (seq![name_str@] + search_targets_from(dv, i + 1)) =~= out.deep_view()
                    + search_targets_from(dv, i + 1));
            }
        }
        i = i + 1;
    }
    proof {
        assert(search_targets_from(dv, n as int) =~= Seq::<Seq<char>>::empty());
        assert(out.deep_view() + Seq::<Seq<char>>::empty() =~= out.deep_view());
    }
    out
}

} // verus!
