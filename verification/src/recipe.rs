//! Sources and the packages that are built from them. A package is
//! described by what it differs in from its source: the fields it leaves
//! out are those of the source, and what it depends on is added to what
//! the source depends on.

use crate::arch::ArchList;
use crate::named::{has_name, sorted_by_name, with_items, Duplicate, Named, NamedSet};
use crate::names::PkgName;
use crate::source_file::SourceFile;
use crate::text::chars_of;
use crate::version::PkgVersion;
use vstd::prelude::*;

verus! {

/// A package that another may make use of, with a word on what for.
#[derive(Debug)]
pub struct OptionalDepends {
    pub name: PkgName,
    pub description: Option<String>,
}

impl Named for OptionalDepends {
    open spec fn name(&self) -> Seq<char> {
        self.name@
    }

    fn name_chars(&self) -> (r: Vec<char>) {
        chars_of(self.name.as_str())
    }
}

impl Duplicate for OptionalDepends {
    fn duplicate(&self) -> (r: Self) {
        OptionalDepends {
            name: self.name.clone(),
            description: match &self.description {
                Some(d) => Some(d.clone()),
                None => None,
            },
        }
    }
}

/// What a stage of a build runs: a text for the shell, or a function of
/// the script, known by a handle.
#[derive(Debug)]
pub enum Execution {
    Shell(String),
    Fn(u64),
}

impl Execution {
    /// A copy of the stage.
    pub fn duplicate(&self) -> (r: Execution)
        ensures
            r == *self,
    {
        match self {
            Execution::Shell(s) => Execution::Shell(s.clone()),
            Execution::Fn(h) => Execution::Fn(*h),
        }
    }
}

/// A copy of a stage, if there is one.
pub fn duplicate_stage(stage: &Option<Execution>) -> (r: Option<Execution>)
    ensures
        r == *stage,
{
    match stage {
        Some(e) => Some(e.duplicate()),
        None => None,
    }
}

/// A copy of an optional text.
pub fn duplicate_text(text: &Option<String>) -> (r: Option<String>)
    ensures
        r == *text,
{
    match text {
        Some(t) => Some(t.clone()),
        None => None,
    }
}

/// What is known of a package.
pub struct PackageInfo {
    pub name: PkgName,
    pub description: String,
    pub version: PkgVersion,
    pub architecture: ArchList,
    pub homepage: Option<String>,
    pub depends: NamedSet<PkgName>,
    pub optional_depends: NamedSet<OptionalDepends>,
}

/// Whether two descriptions of a package say the same.
pub open spec fn same_info(a: PackageInfo, b: PackageInfo) -> bool {
    &&& a.name@ == b.name@
    &&& a.description@ == b.description@
    &&& a.version@ == b.version@
    &&& a.architecture@ == b.architecture@
    &&& a.homepage == b.homepage
    &&& a.depends@ == b.depends@
    &&& a.optional_depends@ == b.optional_depends@
}

impl PackageInfo {
    /// A copy of the description.
    pub fn duplicate(&self) -> (r: PackageInfo)
        ensures
            same_info(r, *self),
    {
        PackageInfo {
            name: self.name.clone(),
            description: self.description.clone(),
            version: self.version.clone(),
            architecture: self.architecture.duplicate(),
            homepage: duplicate_text(&self.homepage),
            depends: self.depends.duplicate(),
            optional_depends: self.optional_depends.duplicate(),
        }
    }
}

/// What a package says of itself. What it leaves out is taken from its
/// source.
pub struct PackageInfoDelta {
    pub name: Option<PkgName>,
    pub description: Option<String>,
    pub version: Option<PkgVersion>,
    pub architecture: Option<ArchList>,
    pub homepage: Option<String>,
    pub depends: NamedSet<PkgName>,
    pub optional_depends: NamedSet<OptionalDepends>,
}

/// Whether `merged` is what the package `delta` is, built from a source
/// described by `info`: each field that the package gives is its own,
/// each field that it leaves out is that of the source, and it depends on
/// what it names itself and on what the source depends on.
pub open spec fn merged_of(merged: PackageInfo, delta: PackageInfoDelta, info: PackageInfo) -> bool {
    &&& merged.name@ == match delta.name {
        Some(n) => n@,
        None => info.name@,
    }
    &&& merged.description@ == match delta.description {
        Some(d) => d@,
        None => info.description@,
    }
    &&& merged.version@ == match delta.version {
        Some(v) => v@,
        None => info.version@,
    }
    &&& merged.architecture@ == match delta.architecture {
        Some(a) => a@,
        None => info.architecture@,
    }
    &&& merged.homepage == match delta.homepage {
        Some(h) => Some(h),
        None => info.homepage,
    }
    &&& merged.depends@ == with_items(delta.depends@, info.depends@)
    &&& merged.optional_depends@ == with_items(delta.optional_depends@, info.optional_depends@)
}

impl PackageInfoDelta {
    /// The description of the package, completed from that of its source.
    pub fn merge_into(self, info: &PackageInfo) -> (r: PackageInfo)
        ensures
            merged_of(r, self, *info),
            forall|n: Seq<char>|
                has_name(r.depends@, n) <==> has_name(self.depends@, n) || has_name(
                    info.depends@,
                    n,
                ),
            forall|n: Seq<char>|
                has_name(r.optional_depends@, n) <==> has_name(self.optional_depends@, n)
                    || has_name(info.optional_depends@, n),
            sorted_by_name(r.depends@),
            sorted_by_name(r.optional_depends@),
    {
        PackageInfo {
            name: match self.name {
                Some(n) => n,
                None => info.name.clone(),
            },
            description: match self.description {
                Some(d) => d,
                None => info.description.clone(),
            },
            version: match self.version {
                Some(v) => v,
                None => info.version.clone(),
            },
            architecture: match self.architecture {
                Some(a) => a,
                None => info.architecture.duplicate(),
            },
            homepage: match self.homepage {
                Some(h) => Some(h),
                None => duplicate_text(&info.homepage),
            },
            depends: self.depends.extend_from(&info.depends),
            optional_depends: self.optional_depends.extend_from(&info.optional_depends),
        }
    }
}

/// A package: its description and the stage that fills it.
pub struct Package {
    pub info: PackageInfo,
    pub pack: Option<Execution>,
}

impl Named for Package {
    open spec fn name(&self) -> Seq<char> {
        self.info.name@
    }

    fn name_chars(&self) -> (r: Vec<char>) {
        chars_of(self.info.name.as_str())
    }
}

/// What is known of a source: what is known of a package, what is needed
/// to build it, and the files it is built from.
pub struct SourceInfo {
    pub inner: PackageInfo,
    pub build_depends: NamedSet<PkgName>,
    pub source: Vec<SourceFile>,
}

/// A source: its description and the stages of its build.
pub struct SourceRecord {
    pub info: SourceInfo,
    pub prepare: Option<Execution>,
    pub build: Option<Execution>,
    pub check: Option<Execution>,
}

/// A source with the packages that are built from it.
pub struct Source {
    pub info: SourceInfo,
    pub prepare: Option<Execution>,
    pub build: Option<Execution>,
    pub check: Option<Execution>,
    pub packages: NamedSet<Package>,
}

} // verus!
