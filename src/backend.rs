//! Recognising a stale backend process left listening from an earlier run, and
//! reading the tools' output that the search relies on.

use vstd::prelude::*;
use crate::lines::{lines_of, text_lines};
use crate::text::{is_blank, is_blank_text, trim_ws, trimmed};

verus! {

/// Whether `p` occurs in `s` as a contiguous run.
pub open spec fn occurs_in(p: Seq<char>, s: Seq<char>) -> bool {
    exists|i: int| 0 <= i && i + p.len() <= s.len() && #[trigger] s.subrange(i, i + p.len()) == p
}

/// Whether `s` begins with `p`.
pub open spec fn begins_with(s: Seq<char>, p: Seq<char>) -> bool {
    p.len() <= s.len() && s.subrange(0, p.len() as int) == p
}

/// Whether `p` occurs in `s` at position `at`.
fn matches_at(s: &str, p: &str, at: usize) -> (r: bool)
    requires
        at + p@.len() <= s@.len(),
    ensures
        r == (s@.subrange(at as int, at + p@.len()) == p@),
{
    let n = p.unicode_len();
    let total = s.unicode_len();
    let mut k: usize = 0;
    while k < n
        invariant
            n == p@.len(),
            total == s@.len(),
            at + n <= s@.len(),
            k <= n,
            forall|j: int| 0 <= j < k ==> s@[at + j] == #[trigger] p@[j],
        decreases n - k,
    {
        if s.get_char(at + k) != p.get_char(k) {
            proof {
                let w = s@.subrange(at as int, at + n);
                assert(w[k as int] != p@[k as int]);
            }
            return false;
        }
        k = k + 1;
    }
    assert(s@.subrange(at as int, at + n) =~= p@);
    true
}

/// Whether `p` is a sub-slice of `s`.
fn text_contains(s: &str, p: &str) -> (r: bool)
    ensures
        r == occurs_in(p@, s@),
{
    let n = s.unicode_len();
    let m = p.unicode_len();
    if m > n {
        return false;
    }
    let mut i: usize = 0;
    loop
        invariant
            n == s@.len(),
            m == p@.len(),
            i + m <= n,
            forall|j: int| 0 <= j < i ==> #[trigger] s@.subrange(j, j + m) != p@,
        decreases n - m - i,
    {
        if matches_at(s, p, i) {
            return true;
        }
        if i == n - m {
            return false;
        }
        i = i + 1;
    }
}

/// Whether `p` is a prefix of `s`.
fn text_starts_with(s: &str, p: &str) -> (r: bool)
    ensures
        r == begins_with(s@, p@),
{
    if p.unicode_len() > s.unicode_len() {
        return false;
    }
    matches_at(s, p, 0)
}

/// Whether a process, by its command line and working directory, is a backend
/// of this application: it runs the backend's entry module or script, names
/// the application, or runs from (or names) the backend directory.
pub open spec fn looks_like_backend(cmdline: Seq<char>, cwd: Seq<char>, backend_dir: Seq<char>) -> bool {
    ||| occurs_in("app.main"@, cmdline)
    ||| occurs_in("backend/main.py"@, cmdline)
    ||| occurs_in("inquira"@, cmdline)
    ||| (backend_dir.len() > 0 && occurs_in(backend_dir, cmdline))
    ||| (backend_dir.len() > 0 && begins_with(cwd, backend_dir))
}

/// Whether the process with this command line and working directory is a
/// backend of this application, and so may be killed when it holds the port.
pub fn is_backend_process(cmdline: &str, cwd: &str, backend_dir: &str) -> (r: bool)
    ensures
        r == looks_like_backend(cmdline@, cwd@, backend_dir@),
{
    let hinted = !backend_dir.is_empty();
    text_contains(cmdline, "app.main") || text_contains(cmdline, "backend/main.py")
        || text_contains(cmdline, "inquira") || (hinted && text_contains(cmdline, backend_dir)) || (
    hinted && text_starts_with(cwd, backend_dir))
}

/// The non-blank lines of `ls`, trimmed, in order.
pub open spec fn trimmed_nonblank(ls: Seq<Seq<char>>) -> Seq<Seq<char>>
    decreases ls.len(),
{
    if ls.len() == 0 {
        ls
    } else {
        let rest = trimmed_nonblank(ls.drop_last());
        if is_blank(ls.last()) {
            rest
        } else {
            rest.push(trim_ws(ls.last()))
        }
    }
}

/// The process ids that a listing of listeners (one per line) names: each
/// non-blank line, trimmed.
pub fn listening_pids(listing: &str) -> (r: Vec<String>)
    ensures
        r@.map_values(|p: String| p@) == trimmed_nonblank(text_lines(listing@)),
{
    let ls = lines_of(listing);
    let ghost lv = ls@.map_values(|l: String| l@);
    let mut r: Vec<String> = Vec::new();
    let mut i: usize = 0;
    while i < ls.len()
        invariant
            i <= ls@.len(),
            lv == ls@.map_values(|l: String| l@),
            r@.map_values(|p: String| p@) == trimmed_nonblank(lv.subrange(0, i as int)),
        decreases ls@.len() - i,
    {
        proof {
            assert(lv.subrange(0, i + 1).drop_last() =~= lv.subrange(0, i as int));
            assert(lv.subrange(0, i + 1).last() == ls@[i as int]@);
        }
        let l = ls[i].as_str();
        if !is_blank_text(l) {
            let ghost before = r@;
            r.push(trimmed(l));
            proof {
                assert(r@.map_values(|p: String| p@) =~= before.map_values(|p: String| p@).push(
                    trim_ws(l@),
                ));
            }
        }
        i = i + 1;
    }
    proof {
        assert(lv.subrange(0, ls@.len() as int) =~= lv);
    }
    r
}

/// The working directory named in a field listing: the rest of the first line
/// that begins with the name field `n`, or nothing.
pub open spec fn named_field(ls: Seq<Seq<char>>) -> Seq<char>
    decreases ls.len(),
{
    if ls.len() == 0 {
        Seq::empty()
    } else if ls[0].len() > 0 && ls[0][0] == 'n' {
        ls[0].drop_first()
    } else {
        named_field(ls.drop_first())
    }
}

/// The working directory that a field listing of one process names.
pub fn cwd_from_listing(listing: &str) -> (r: String)
    ensures
        r@ == named_field(text_lines(listing@)),
{
    let ls = lines_of(listing);
    let ghost lv = ls@.map_values(|l: String| l@);
    let mut i: usize = 0;
    proof {
        assert(lv.subrange(0, lv.len() as int) =~= lv);
    }
    while i < ls.len()
        invariant
            i <= ls@.len(),
            lv == ls@.map_values(|l: String| l@),
            lv == text_lines(listing@),
            named_field(lv) == named_field(lv.subrange(i as int, lv.len() as int)),
        decreases ls@.len() - i,
    {
        let l = ls[i].as_str();
        let ghost tail = lv.subrange(i as int, lv.len() as int);
        proof {
            assert(lv[i as int] == ls@[i as int]@);
            assert(tail[0] == l@);
            assert(tail.drop_first() =~= lv.subrange(i + 1, lv.len() as int));
        }
        let len = l.unicode_len();
        if len > 0 && l.get_char(0) == 'n' {
            let rest = String::from_str(l.substring_char(1, len));
            assert(rest@ =~= l@.drop_first());
            assert(named_field(tail) == l@.drop_first());
            return rest;
        }
        i = i + 1;
    }
    proof {
        assert(lv.subrange(i as int, lv.len() as int) =~= Seq::<Seq<char>>::empty());
    }
    String::new()
}

/// The package installer found on the search path: the locator's output,
/// trimmed, when the locator succeeded and printed something.
pub fn uv_from_locator(succeeded: bool, output: &str) -> (r: Option<String>)
    ensures
        (succeeded && !is_blank(output@)) <==> r is Some,
        r is Some ==> r->0@ == trim_ws(output@),
{
    if succeeded && !is_blank_text(output) {
        Some(trimmed(output))
    } else {
        None
    }
}

/// Where the package installer is taken from.
#[derive(Debug, PartialEq, Eq)]
pub enum UvChoice {
    /// The Unix build bundled with the application.
    BundledUnix,
    /// The Windows build bundled with the application.
    BundledWindows,
    /// The one the locator found on the search path.
    Located(String),
    /// Whatever `uv` the search path yields when it is run.
    OnPath,
}

/// Picks the package installer: the bundled Unix build when it exists, else
/// the bundled Windows build when that exists, else the one the locator found,
/// else the bare name. `located` is what `uv_from_locator` made of the
/// locator's run; it is only consulted when neither bundled build exists.
pub fn choose_uv(unix_exists: bool, windows_exists: bool, located: Option<String>) -> (r: UvChoice)
    ensures
        unix_exists ==> r == UvChoice::BundledUnix,
        !unix_exists && windows_exists ==> r == UvChoice::BundledWindows,
        !unix_exists && !windows_exists ==> match located {
            Some(p) => r matches UvChoice::Located(q) && q@ == p@,
            None => r == UvChoice::OnPath,
        },
{
    if unix_exists {
        UvChoice::BundledUnix
    } else if windows_exists {
        UvChoice::BundledWindows
    } else {
        match located {
            Some(p) => UvChoice::Located(p),
            None => UvChoice::OnPath,
        }
    }
}

} // verus!
