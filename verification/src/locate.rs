//! Script locator state: the work list that discovers linker scripts.
//!
//! Finding a script means probing the file system, which the library
//! cannot do; the caller drives the loop.  It pops a pending name, builds
//! the candidate full paths with `candidate_paths`, checks them in order,
//! and reports the first hit back through `record_found` — which queues
//! the script's `INCLUDE` targets and records the resolved script.  A
//! name found in no directory is simply dropped.  As in conventional
//! linkers no include cycle detection is performed; a self-including
//! script keeps the caller's loop running.

use vstd::prelude::*;

use crate::script::includes_spec;
use crate::text::{append_chars, append_str, chars_to_string, to_chars};

verus! {

/// Index of the last `'/'` at or before position `i`, or `-1`.
pub open spec fn last_slash(s: Seq<char>, i: int) -> int
    decreases i + 1,
{
    if !(0 <= i < s.len()) {
        -1
    } else if s[i] == '/' {
        i
    } else {
        last_slash(s, i - 1)
    }
}

/// The base name of a path: everything after its last `'/'`, or the
/// whole path when it has none.
pub open spec fn file_name_spec(s: Seq<char>) -> Seq<char> {
    s.subrange(last_slash(s, s.len() - 1) + 1, s.len() as int)
}

pub proof fn lemma_last_slash_is(s: Seq<char>, i: int, k: int)
    requires
        -1 <= k <= i < s.len(),
        k >= 0 ==> s[k] == '/',
        forall|j: int| k < j <= i ==> s[j] != '/',
    ensures
        last_slash(s, i) == k,
    decreases i - k,
{
    if i > k {
        lemma_last_slash_is(s, i - 1, k);
    }
}

/// A linker script identified by its resolved filesystem path.  The
/// caller constructs one only for a path it has confirmed to exist.
#[derive(Clone, Debug)]
pub struct LinkerScript {
    pub path: String,
}

impl LinkerScript {
    pub fn new(path: String) -> (r: Self)
        ensures
            r.path@ == path@,
    {
        LinkerScript { path }
    }

    pub fn path(&self) -> (r: &String)
        ensures
            r@ == self.path@,
    {
        &self.path
    }

    /// The base name under which the script was found: the text after
    /// the last `'/'` of the path.
    pub fn file_name(&self) -> (r: String)
        ensures
            r@ == file_name_spec(self.path@),
    {
        let chars = to_chars(self.path.as_str());
        let n = chars.len();
        let mut i: usize = n;
        while i > 0 && chars[i - 1] != '/'
            invariant
                0 <= i <= n,
                n == chars@.len(),
                forall|j: int| i <= j < n ==> chars@[j] != '/',
            decreases i,
        {
            i = i - 1;
        }
        proof {
            if n > 0 {
                lemma_last_slash_is(chars@, n - 1, i - 1);
            }
        }
        let name = crate::text::copy_range(&chars, i, n);
        proof {
            assert(name@ =~= file_name_spec(self.path@));
        }
        chars_to_string(&name)
    }
}

/// `Seq<char>` views of recorded scripts' paths.
pub open spec fn script_paths(ss: Seq<LinkerScript>) -> Seq<Seq<char>> {
    ss.map_values(|x: LinkerScript| x.path@)
}

/// `dir/name`: the candidate full path of `name` in `dir`.
pub open spec fn joined_path(dir: Seq<char>, name: Seq<char>) -> Seq<char> {
    dir + seq!['/'] + name
}

/// All candidate full paths of `name`, one per search directory, in
/// search order.
pub open spec fn candidates_spec(dirs: Seq<Seq<char>>, name: Seq<char>) -> Seq<Seq<char>> {
    dirs.map_values(|d: Seq<char>| joined_path(d, name))
}

/// Joins a directory and a file name with a `'/'` separator.
pub fn path_join(dir: &String, name: &String) -> (r: String)
    ensures
        r@ == joined_path(dir@, name@),
{
    let mut out = to_chars(dir.as_str());
    append_str(&mut out, "/");
    proof {
        reveal_strlit("/");
        assert("/"@ =~= seq!['/']);
    }
    let name_chars = to_chars(name.as_str());
    append_chars(&mut out, &name_chars);
    chars_to_string(&out)
}

/// The locator's state: the search directories, the names still to look
/// for (a stack: the last one is taken next), and the scripts found so
/// far, in discovery order.
pub struct Locator {
    pub search_paths: Vec<String>,
    pub pending: Vec<String>,
    pub scripts: Vec<LinkerScript>,
}

impl Locator {
    /// Starts a search over `search_paths` for the names in `targets`.
    pub fn new(search_paths: Vec<String>, targets: Vec<String>) -> (r: Self)
        ensures
            r.search_paths@ == search_paths@,
            r.pending@ == targets@,
            r.scripts@.len() == 0,
    {
        Locator { search_paths, pending: targets, scripts: Vec::new() }
    }

    /// Takes the next name to look for, from the top of the work list.
    pub fn pop_target(&mut self) -> (r: Option<String>)
        ensures
            old(self).pending@.len() == 0 ==> r is None,
            old(self).pending@.len() == 0 ==> final(self).pending@ == old(self).pending@,
            old(self).pending@.len() > 0 ==> r == Some(old(self).pending@.last()),
            old(self).pending@.len() > 0 ==> final(self).pending@ == old(self).pending@.drop_last(),
            final(self).search_paths@ == old(self).search_paths@,
            final(self).scripts@ == old(self).scripts@,
    {
        self.pending.pop()
    }

    /// The full paths at which `name` may sit, one per search directory,
    /// in the order the directories are searched.
    pub fn candidate_paths(&self, name: &String) -> (r: Vec<String>)
        ensures
            r.deep_view() == candidates_spec(self.search_paths.deep_view(), name@),
    {
        let ghost dirs = self.search_paths.deep_view();
        let n = self.search_paths.len();
        let mut out: Vec<String> = Vec::new();
        let mut i: usize = 0;
        while i < n
            invariant
                dirs == self.search_paths.deep_view(),
                n == self.search_paths@.len(),
                0 <= i <= n,
                out.deep_view() =~= candidates_spec(dirs, name@).take(i as int),
            decreases n - i,
        {
            proof {
                assert(dirs[i as int] == self.search_paths@[i as int]@);
            }
            let p = path_join(&self.search_paths[i], name);
            let ghost prev = out.deep_view();
            out.push(p);
            proof {
                assert(out.deep_view() =~= prev.push(p@));
                assert(out.deep_view() =~= candidates_spec(dirs, name@).take(i + 1));
            }
            i = i + 1;
        }
        proof {
            assert(candidates_spec(dirs, name@).take(n as int) =~= candidates_spec(dirs, name@));
        }
        out
    }

    /// Records that `name` was resolved to the existing file at `path`
    /// whose text is `contents`: the script's `INCLUDE` targets join the
    /// work list (in file order, so the last is tried first), and the
    /// script itself is appended to the result list.
    pub fn record_found(&mut self, path: String, contents: &str)
        ensures
            script_paths(final(self).scripts@) == script_paths(old(self).scripts@) + seq![path@],
            final(self).pending.deep_view() == old(self).pending.deep_view() + includes_spec(
                contents@,
            ),
            final(self).search_paths@ == old(self).search_paths@,
    {
        let mut includes = crate::script::get_includes_from_linker_script(contents);
        let ghost inc = includes.deep_view();
        let ghost before = self.pending.deep_view();
        self.pending.append(&mut includes);
        proof {
            assert(self.pending.deep_view() =~= before + inc);
        }
        let ghost scripts_before = self.scripts@;
        self.scripts.push(LinkerScript::new(path));
        proof {
            assert(script_paths(self.scripts@) =~= script_paths(scripts_before) + seq![path@]);
        }
    }
}

} // verus!
