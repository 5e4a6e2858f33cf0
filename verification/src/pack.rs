//! Making the packages: the name of each archive, the call of the
//! program itself under the supervisor that feigns the rights of the
//! superuser, and the order in which the files of a package are found.

use crate::text::{append_chars, chars_of, copy_str, same_text, string_of};
use vstd::prelude::*;

verus! {

/// The name of the archive of a package.
pub open spec fn archive_name_of(
    name: Seq<char>,
    version: Seq<char>,
    arch: Seq<char>,
    extension: Seq<char>,
) -> Seq<char> {
    name + seq!['_'] + version + seq!['_'] + arch + ".tar."@ + extension
}

/// The name of the archive of a package: its name, its version and the
/// architecture, with the extension of the compression at the end.
pub fn archive_name(name: &str, version: &str, arch: &str, extension: &str) -> (r: String)
    ensures
        r@ == archive_name_of(name@, version@, arch@, extension@),
{
    let mut out = chars_of(name);
    out.push('_');
    let v = chars_of(version);
    append_chars(&mut out, &v);
    out.push('_');
    let a = chars_of(arch);
    append_chars(&mut out, &a);
    let t = chars_of(".tar.");
    append_chars(&mut out, &t);
    let e = chars_of(extension);
    append_chars(&mut out, &e);
    string_of(&out)
}

/// The name under which every archive describes itself.
pub fn metadata_name() -> (r: &'static str)
    ensures
        r@ == "metadata.json"@,
{
    "metadata.json"
}

/// The rights of the entry under which every archive describes itself.
pub const METADATA_MODE: u32 = 0o644;

/// The packages are made by someone who is not the superuser, feigned or
/// real.
#[derive(Clone, Copy, Debug, PartialEq, Eq, Structural)]
pub struct NotPrivileged;

/// Whether the packages can be made: the user must be the superuser, as
/// the supervisor feigns it.
pub fn check_privilege(uid: u32) -> (r: Result<(), NotPrivileged>)
    ensures
        r is Ok <==> uid == 0,
{
    if uid == 0 {
        Ok(())
    } else {
        Err(NotPrivileged)
    }
}

/// The name of the supervisor that feigns the rights of the superuser.
pub fn supervisor() -> (r: &'static str)
    ensures
        r@ == "fakeroot"@,
{
    "fakeroot"
}

/// The name of the hidden command that makes the packages.
pub fn packaging_command() -> (r: &'static str)
    ensures
        r@ == "__internal_package_inside_fakeroot"@,
{
    "__internal_package_inside_fakeroot"
}

/// The arguments with which the program calls itself to make the
/// packages: the hidden command, the recipe, the directory of the sources
/// and the architecture.
pub fn packaging_arguments(recipe: &str, source_dir: &str, arch: &str) -> (r: Vec<String>)
    ensures
        r@.len() == 4,
        r@[0]@ == "__internal_package_inside_fakeroot"@,
        r@[1]@ == recipe@,
        r@[2]@ == source_dir@,
        r@[3]@ == arch@,
{
    let mut r: Vec<String> = Vec::new();
    r.push(copy_str(packaging_command()));
    r.push(copy_str(recipe));
    r.push(copy_str(source_dir));
    r.push(copy_str(arch));
    r
}

/// A file or a directory that was found below the root of a package.
#[derive(Debug)]
pub struct Found {
    pub path: String,
    pub is_dir: bool,
}

/// An entry as a mathematical value.
pub struct FoundView {
    pub path: Seq<char>,
    pub is_dir: bool,
}

impl View for Found {
    type V = FoundView;

    open spec fn view(&self) -> FoundView {
        FoundView { path: self.path@, is_dir: self.is_dir }
    }
}

/// The entries as mathematical values.
pub open spec fn found_views(v: Seq<Found>) -> Seq<FoundView> {
    v.map_values(|f: Found| f@)
}

/// The texts of some strings.
pub open spec fn path_views(v: Seq<String>) -> Seq<Seq<char>> {
    v.map_values(|s: String| s@)
}

/// The walk through the tree of a package. The entries on `pending` are
/// still to be visited, the last one first; `paths` holds what was found
/// so far, in the order in which it was found.
pub struct Walk {
    pub root: String,
    pub pending: Vec<Found>,
    pub paths: Vec<String>,
}

/// What the walk asks for.
#[derive(Debug)]
pub enum WalkStep {
    /// The entries of this directory are to be listed.
    List(String),
    /// Every entry was visited.
    Done,
}

/// The state of a walk as a mathematical value.
pub struct WalkView {
    pub root: Seq<char>,
    pub pending: Seq<FoundView>,
    pub paths: Seq<Seq<char>>,
}

impl View for Walk {
    type V = WalkView;

    open spec fn view(&self) -> WalkView {
        WalkView {
            root: self.root@,
            pending: found_views(self.pending@),
            paths: path_views(self.paths@),
        }
    }
}

/// What is found when the entry `e` is taken up: its path, unless it is
/// the root itself.
pub open spec fn noted(w: WalkView, e: FoundView) -> Seq<Seq<char>> {
    if e.path == w.root {
        w.paths
    } else {
        w.paths.push(e.path)
    }
}

/// The state after the files on top of the pending entries were taken up,
/// down to the first directory or to the end.
pub open spec fn settled(w: WalkView) -> WalkView
    decreases w.pending.len(),
{
    if w.pending.len() == 0 || w.pending.last().is_dir {
        w
    } else {
        settled(
            WalkView {
                root: w.root,
                pending: w.pending.drop_last(),
                paths: noted(w, w.pending.last()),
            },
        )
    }
}

impl Walk {
    /// The walk before anything is visited: the root alone is pending.
    pub fn start(root: &str) -> (r: Walk)
        ensures
            r@.root == root@,
            r@.pending == seq![(FoundView { path: root@, is_dir: true })],
            r@.paths.len() == 0,
    {
        let mut pending: Vec<Found> = Vec::new();
        pending.push(Found { path: copy_str(root), is_dir: true });
        let r = Walk { root: copy_str(root), pending, paths: Vec::new() };
        proof {
            assert(r@.pending =~= seq![(FoundView { path: root@, is_dir: true })]);
            assert(r@.paths =~= Seq::<Seq<char>>::empty());
        }
        r
    }

    /// Takes up the pending entries, the last one first. Files are noted
    /// one after the other. At the first directory the walk stops, notes
    /// it and asks for its entries; with no entry left the walk is done.
    pub fn next(self) -> (r: (Walk, WalkStep))
        ensures
            r.0@.root == self@.root,
            match r.1 {
                WalkStep::Done => settled(self@).pending.len() == 0 && r.0@ == settled(self@),
                WalkStep::List(dir) => {
                    let s = settled(self@);
                    &&& s.pending.len() > 0
                    &&& dir@ == s.pending.last().path
                    &&& r.0@.pending == s.pending.drop_last()
                    &&& r.0@.paths == noted(s, s.pending.last())
                },
            },
    {
        let mut walk = self;
        loop
            invariant
                walk@.root == self@.root,
                settled(walk@) == settled(self@),
            decreases walk.pending.len(),
        {
            let ghost before = walk@;
            let top = match walk.pending.pop() {
                Some(t) => t,
                None => {
                    return (walk, WalkStep::Done);
                },
            };
            proof {
                assert(found_views(walk.pending@) =~= before.pending.drop_last());
                assert(top@ == before.pending.last());
            }
            let is_root = same_text(top.path.as_str(), walk.root.as_str());
            let is_dir = top.is_dir;
            let listed = if is_dir {
                Some(top.path.clone())
            } else {
                None
            };
            if !is_root {
                let ghost old_paths = walk.paths@;
                walk.paths.push(top.path);
                proof {
                    assert(path_views(walk.paths@) =~= path_views(old_paths).push(
                        before.pending.last().path,
                    ));
                }
            }
            proof {
                assert(walk@.paths == noted(before, before.pending.last()));
            }
            match listed {
                Some(dir) => {
                    return (walk, WalkStep::List(dir));
                },
                None => {},
            }
        }
    }

    /// Takes note of the entries of the directory that was asked for: they
    /// are visited next, the last one first.
    pub fn listed(self, entries: Vec<Found>) -> (r: Walk)
        ensures
            r@.root == self@.root,
            r@.paths == self@.paths,
            r@.pending == self@.pending + found_views(entries@),
    {
        let mut walk = self;
        let mut entries = entries;
        let ghost added = found_views(entries@);
        walk.pending.append(&mut entries);
        proof {
            assert(found_views(walk.pending@) =~= self@.pending + added);
        }
        walk
    }

    /// What was found, in the order in which it was found.
    pub fn into_paths(self) -> (r: Vec<String>)
        ensures
            path_views(r@) == self@.paths,
    {
        self.paths
    }
}

} // verus!
