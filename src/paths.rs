//! Paths as a base directory and the components joined onto it.

use vstd::prelude::*;

verus! {

/// A path: `base` with each of `parts` joined onto it in turn.
pub struct JoinedPath<B> {
    pub base: B,
    pub parts: Vec<String>,
}

/// The views of a sequence of strings.
pub open spec fn part_views(parts: Seq<String>) -> Seq<Seq<char>> {
    parts.map_values(|p: String| p@)
}

impl<B> JoinedPath<B> {
    /// The path `base` itself.
    pub fn at(base: B) -> (r: Self)
        ensures
            r.base == base,
            r.parts@.len() == 0,
    {
        JoinedPath { base, parts: Vec::new() }
    }

    /// This path with `part` joined onto it.
    pub fn join(self, part: &str) -> (r: Self)
        ensures
            r.base == self.base,
            part_views(r.parts@) == part_views(self.parts@).push(part@),
    {
        let mut parts = self.parts;
        parts.push(String::from_str(part));
        let r = JoinedPath { base: self.base, parts };
        assert(part_views(r.parts@) =~= part_views(self.parts@).push(part@));
        r
    }
}

/// The directory name under which resources from outside the bundle's own
/// tree are placed.
pub open spec fn up_dir() -> Seq<char> {
    "_up_"@
}

/// Where the resource `relative` lies: directly under the resource directory
/// when it exists there (`direct_exists` says so of `resource_dir/relative`),
/// else under its `_up_` directory.
pub fn resolve_resource_path<B>(resource_dir: B, relative: &str, direct_exists: bool) -> (r:
    JoinedPath<B>)
    ensures
        r.base == resource_dir,
        part_views(r.parts@) == if direct_exists {
            seq![relative@]
        } else {
            seq![up_dir(), relative@]
        },
{
    let start = JoinedPath::at(resource_dir);
    if direct_exists {
        let r = start.join(relative);
        assert(part_views(r.parts@) =~= seq![relative@]);
        r
    } else {
        let r = start.join("_up_").join(relative);
        assert(part_views(r.parts@) =~= seq![up_dir(), relative@]);
        r
    }
}

/// The components of the Python interpreter inside a virtual environment.
pub open spec fn venv_python_parts(windows: bool) -> Seq<Seq<char>> {
    if windows {
        seq!["Scripts"@, "python.exe"@]
    } else {
        seq!["bin"@, "python"@]
    }
}

/// The Python interpreter of the virtual environment at `venv`.
pub fn python_bin_from_venv<B>(venv: B, windows: bool) -> (r: JoinedPath<B>)
    ensures
        r.base == venv,
        part_views(r.parts@) == venv_python_parts(windows),
{
    let start = JoinedPath::at(venv);
    let r = if windows {
        start.join("Scripts").join("python.exe")
    } else {
        start.join("bin").join("python")
    };
    assert(part_views(r.parts@) =~= venv_python_parts(windows));
    r
}

} // verus!
