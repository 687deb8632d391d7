//! What a new terminal runs, where, and at what size.

use vstd::prelude::*;
use crate::text::{is_blank, is_blank_text, opt_view};

verus! {

/// The geometry of a pseudo-terminal, in character cells.
#[derive(Clone, Copy, Debug, PartialEq, Eq, Structural)]
pub struct TerminalSize {
    pub rows: u16,
    pub cols: u16,
}

/// A requested dimension, raised to one cell when it is zero.
pub open spec fn at_least_one(v: u16) -> u16 {
    if v == 0 {
        1
    } else {
        v
    }
}

/// The size a terminal is opened or resized to: each axis is at least one cell.
pub fn clamp_pty_size(cols: u16, rows: u16) -> (r: TerminalSize)
    ensures
        r.rows == at_least_one(rows),
        r.cols == at_least_one(cols),
        r.rows >= 1 && r.cols >= 1,
{
    let pty_rows: u16 = if rows == 0 {
        1
    } else {
        rows
    };
    let pty_cols: u16 = if cols == 0 {
        1
    } else {
        cols
    };
    TerminalSize { rows: pty_rows, cols: pty_cols }
}

/// The shell used when the environment names none.
pub open spec fn default_shell(windows: bool) -> Seq<char> {
    if windows {
        "powershell.exe"@
    } else {
        "/bin/bash"@
    }
}

/// The shell chosen from the environment's hint (the command processor on
/// Windows, the user's shell elsewhere): the hint itself unless it is absent or
/// blank.
pub open spec fn chosen_shell(hint: Option<Seq<char>>, windows: bool) -> Seq<char> {
    match hint {
        Some(v) => if is_blank(v) {
            default_shell(windows)
        } else {
            v
        },
        None => default_shell(windows),
    }
}

/// The interactive shell for a new terminal and its arguments (none), from the
/// environment's hint. The result is never blank.
pub fn detect_default_shell(hint: Option<&str>, windows: bool) -> (r: (String, Vec<String>))
    ensures
        r.0@ == chosen_shell(opt_view(hint), windows),
        !is_blank(r.0@),
        r.1@.len() == 0,
{
    proof {
        reveal_strlit("powershell.exe");
        reveal_strlit("/bin/bash");
        assert(!crate::text::is_white_space(default_shell(windows)[0]));
    }
    let shell = match hint {
        Some(v) => {
            if is_blank_text(v) {
                default_shell_text(windows)
            } else {
                String::from_str(v)
            }
        },
        None => default_shell_text(windows),
    };
    (shell, Vec::new())
}

fn default_shell_text(windows: bool) -> (r: String)
    ensures
        r@ == default_shell(windows),
{
    if windows {
        String::from_str("powershell.exe")
    } else {
        String::from_str("/bin/bash")
    }
}

/// The directory a terminal should start in when the requested one is absent,
/// blank or not a directory: the process's own, or `.` when that is unknown.
pub open spec fn fallback_cwd(current: Option<Seq<char>>) -> Seq<char> {
    match current {
        Some(c) => c,
        None => "."@,
    }
}

/// The directory that a request names, verbatim; none when the request is
/// absent or blank. The host checks that this names a directory.
pub fn pty_cwd_candidate(requested: Option<&str>) -> (r: Option<String>)
    ensures
        match requested {
            Some(v) => if is_blank(v@) {
                r is None
            } else {
                r is Some && r->0@ == v@
            },
            None => r is None,
        },
{
    match requested {
        Some(v) => {
            if is_blank_text(v) {
                None
            } else {
                Some(String::from_str(v))
            }
        },
        None => None,
    }
}

/// The directory a terminal starts in: the candidate when it names an existing
/// directory, else the fallback.
pub fn resolve_pty_cwd(candidate: Option<String>, candidate_is_dir: bool, current: Option<String>) -> (r: String)
    ensures
        r@ == match candidate {
            Some(c) => if candidate_is_dir {
                c@
            } else {
                fallback_cwd(opt_string_view(current))
            },
            None => fallback_cwd(opt_string_view(current)),
        },
{
    match candidate {
        Some(c) => {
            if candidate_is_dir {
                return c;
            }
        },
        None => {},
    }
    match current {
        Some(c) => c,
        None => String::from_str("."),
    }
}

/// The view of an optional owned string.
pub open spec fn opt_string_view(s: Option<String>) -> Option<Seq<char>> {
    match s {
        Some(v) => Some(v@),
        None => None,
    }
}

} // verus!
