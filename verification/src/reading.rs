//! Reading a recipe: the loose records that a script presents are checked
//! field by field and turned into sources and packages.

use crate::arch::{arch_member, lemma_mixes_all, tokens_mix_all, ArchList};
use crate::dynamic::TypeError;
use crate::named::{
    has_name, lemma_has_name_take, lemma_with_item, lemma_with_items, sorted_by_name, Named,
    NamedSet,
};
use crate::names::{name_error, ParseNameError, PkgName};
use crate::paths::url_path_of;
use crate::recipe::{
    duplicate_stage, duplicate_text, merged_of, Execution, OptionalDepends, Package, PackageInfo,
    PackageInfoDelta, SourceInfo, SourceRecord,
};
use crate::source_file::{
    source_file_of, HttpLocation, RawSourceFile, SourceFile, SourceFileError, SourceFileView,
};
use crate::text::chars_of;
use crate::version::{parse_version, ParseVersionError, PkgVersion, VersionView};
use vstd::prelude::*;

verus! {

/// An optional dependency as a recipe gives it.
#[derive(Debug)]
pub struct RawOptionalDepends {
    pub name: String,
    pub description: Option<String>,
}

impl Named for RawOptionalDepends {
    open spec fn name(&self) -> Seq<char> {
        self.name@
    }

    fn name_chars(&self) -> (r: Vec<char>) {
        chars_of(self.name.as_str())
    }
}

/// The description of a source or of a package as a recipe gives it.
#[derive(Debug)]
pub struct RawPackageInfo {
    pub name: Option<String>,
    pub description: Option<String>,
    pub version: Option<String>,
    pub architecture: Option<Vec<String>>,
    pub homepage: Option<String>,
    pub depends: Vec<String>,
    pub optional_depends: Vec<RawOptionalDepends>,
}

/// A package as a recipe gives it.
#[derive(Debug)]
pub struct RawPackage {
    pub info: RawPackageInfo,
    pub pack: Option<Execution>,
}

/// A source as a recipe gives it.
#[derive(Debug)]
pub struct RawSource {
    pub info: RawPackageInfo,
    pub build_depends: Vec<String>,
    pub source: Vec<RawSourceFile>,
    pub prepare: Option<Execution>,
    pub build: Option<Execution>,
    pub check: Option<Execution>,
    pub pack: Option<Execution>,
    pub packages: Option<Vec<RawPackage>>,
}

/// Why a recipe is refused.
#[derive(Debug, PartialEq, Eq)]
pub enum RecipeError {
    /// A field is not of the type it must be of.
    Type(TypeError),
    /// The source has no name.
    MissingName,
    /// The source has no description.
    MissingDescription,
    /// The source has no version.
    MissingVersion,
    /// The source has no list of architectures.
    MissingArchitecture,
    /// A name holds a character that is not allowed.
    Name(ParseNameError),
    /// A version does not follow the grammar of versions.
    Version(ParseVersionError),
    /// A list of architectures has no member.
    EmptyArchitecture,
    /// A package is meant for `all` and for something else.
    ArchitectureConflict,
    /// A homepage is no address.
    InvalidHomepage,
    /// A source file is refused.
    SourceFile(SourceFileError),
    /// Both the stage `pack` and a table of packages are given.
    PackConflict,
    /// Two packages have this name.
    DuplicatePackage(String),
    /// The table of packages is empty.
    NoPackage,
    /// A source is defined a second time.
    SourceDefinedTwice,
    /// A package is defined before the source.
    SourceNotDefined,
    /// No source is defined.
    NoSource,
}

/// What is wrong with the first of the texts that is no package name, if
/// one of them is none.
pub open spec fn names_error(raw: Seq<String>) -> Option<ParseNameError>
    decreases raw.len(),
{
    if raw.len() == 0 {
        None
    } else if name_error(raw[0]@) is Some {
        name_error(raw[0]@)
    } else {
        names_error(raw.drop_first())
    }
}

/// What is wrong with the first of the optional dependencies whose name
/// is no package name, if there is one.
pub open spec fn optional_error(raw: Seq<RawOptionalDepends>) -> Option<ParseNameError>
    decreases raw.len(),
{
    if raw.len() == 0 {
        None
    } else if name_error(raw[0].name@) is Some {
        name_error(raw[0].name@)
    } else {
        optional_error(raw.drop_first())
    }
}

/// What is wrong with a description, if anything is. The fields are
/// checked in this order: the name, the version, the list of
/// architectures, the homepage, the dependencies, the optional
/// dependencies; the first that is not sound gives the error.
pub open spec fn delta_error(raw: RawPackageInfo) -> Option<RecipeError> {
    if raw.name is Some && name_error(raw.name->0@) is Some {
        Some(RecipeError::Name(name_error(raw.name->0@)->0))
    } else if raw.version is Some && parse_version(raw.version->0@) is Err {
        Some(RecipeError::Version(parse_version(raw.version->0@)->Err_0))
    } else if raw.architecture is Some && raw.architecture->0@.len() == 0 {
        Some(RecipeError::EmptyArchitecture)
    } else if raw.homepage is Some && url_path_of(raw.homepage->0@) is None {
        Some(RecipeError::InvalidHomepage)
    } else if names_error(raw.depends@) is Some {
        Some(RecipeError::Name(names_error(raw.depends@)->0))
    } else if optional_error(raw.optional_depends@) is Some {
        Some(RecipeError::Name(optional_error(raw.optional_depends@)->0))
    } else {
        None
    }
}

/// Whether the entry at `k` is the first of `raw` with its name.
pub open spec fn first_of_its_name(raw: Seq<RawOptionalDepends>, k: int) -> bool {
    forall|m: int| 0 <= m < k ==> (#[trigger] raw[m]).name@ != raw[k].name@
}

/// Whether the optional dependencies `set` are those that `raw` gives:
/// the names are the same, and each one has the word of the first entry
/// of `raw` with its name.
pub open spec fn optional_reads(set: Seq<OptionalDepends>, raw: Seq<RawOptionalDepends>) -> bool {
    &&& sorted_by_name(set)
    &&& forall|n: Seq<char>| has_name(set, n) <==> has_name(raw, n)
    &&& forall|j: int|
        0 <= j < set.len() ==> exists|k: int|
            0 <= k < raw.len() && (#[trigger] raw[k]).name@ == (#[trigger] set[j]).name@
                && raw[k].description == set[j].description && first_of_its_name(raw, k)
}

/// Whether the description `d` is what `raw` gives.
pub open spec fn delta_reads(d: PackageInfoDelta, raw: RawPackageInfo) -> bool {
    &&& match (d.name, raw.name) {
        (Some(a), Some(b)) => a@ == b@,
        (None, None) => true,
        _ => false,
    }
    &&& d.description == raw.description
    &&& match (d.version, raw.version) {
        (Some(v), Some(t)) => parse_version(t@) == Ok::<VersionView, ParseVersionError>(v@),
        (None, None) => true,
        _ => false,
    }
    &&& match (d.architecture, raw.architecture) {
        (Some(a), Some(t)) => sorted_by_name(a@) && forall|n: Seq<char>|
            a.has(n) <==> arch_member(t@, n),
        (None, None) => true,
        _ => false,
    }
    &&& d.homepage == raw.homepage
    &&& sorted_by_name(d.depends@)
    &&& forall|n: Seq<char>| has_name(d.depends@, n) <==> has_name(raw.depends@, n)
    &&& optional_reads(d.optional_depends@, raw.optional_depends@)
}

/// Reads a list of package names.
pub fn read_names(raw: &Vec<String>) -> (r: Result<NamedSet<PkgName>, ParseNameError>)
    ensures
        match r {
            Ok(s) => {
                &&& names_error(raw@) is None
                &&& sorted_by_name(s@)
                &&& forall|n: Seq<char>| has_name(s@, n) <==> has_name(raw@, n)
            },
            Err(e) => names_error(raw@) == Some(e),
        },
{
    let mut set: NamedSet<PkgName> = NamedSet::new();
    let mut i: usize = 0;
    proof {
        assert(raw@.skip(0) == raw@);
    }
    while i < raw.len()
        invariant
            i <= raw.len(),
            sorted_by_name(set@),
            names_error(raw@) == names_error(raw@.skip(i as int)),
            forall|n: Seq<char>| has_name(set@, n) <==> has_name(raw@.take(i as int), n),
        decreases raw.len() - i,
    {
        proof {
            assert(raw@.skip(i as int)[0] == raw@[i as int]);
            assert(raw@.skip(i as int).drop_first() == raw@.skip(i + 1));
        }
        let x = match PkgName::parse(raw[i].as_str()) {
            Ok(x) => x,
            Err(e) => {
                return Err(e);
            },
        };
        let ghost old_set = set@;
        proof {
            lemma_with_item(set@, x);
            lemma_has_name_take(raw@, i as int);
        }
        let (next, _) = set.insert(x);
        set = next;
        proof {
            let before = raw@.take(i as int);
            let after = raw@.take(i + 1);
            assert forall|n: Seq<char>| has_name(set@, n) <==> has_name(after, n) by {
                assert(has_name(set@, n) <==> has_name(old_set, n) || n == x.name());
                assert(has_name(old_set, n) <==> has_name(before, n));
                assert(has_name(after, n) <==> has_name(before, n) || n == raw@[i as int].name());
            }
        }
        i += 1;
    }
    proof {
        assert(raw@.take(raw.len() as int) == raw@);
    }
    Ok(set)
}

/// Reads a list of optional dependencies. Where a name is given twice,
/// the first word on it counts.
pub fn read_optional_depends(raw: &Vec<RawOptionalDepends>) -> (r: Result<
    NamedSet<OptionalDepends>,
    ParseNameError,
>)
    ensures
        match r {
            Ok(s) => optional_error(raw@) is None && optional_reads(s@, raw@),
            Err(e) => optional_error(raw@) == Some(e),
        },
{
    let mut set: NamedSet<OptionalDepends> = NamedSet::new();
    let mut i: usize = 0;
    proof {
        assert(raw@.skip(0) == raw@);
    }
    while i < raw.len()
        invariant
            i <= raw.len(),
            sorted_by_name(set@),
            optional_error(raw@) == optional_error(raw@.skip(i as int)),
            forall|n: Seq<char>| has_name(set@, n) <==> has_name(raw@.take(i as int), n),
            forall|j: int|
                0 <= j < set@.len() ==> exists|k: int|
                    0 <= k < raw@.len() && (#[trigger] raw@[k]).name@ == (#[trigger] set@[j]).name@
                        && raw@[k].description == set@[j].description && first_of_its_name(
                        raw@,
                        k,
                    ),
        decreases raw.len() - i,
    {
        proof {
            assert(raw@.skip(i as int)[0] == raw@[i as int]);
            assert(raw@.skip(i as int).drop_first() == raw@.skip(i + 1));
        }
        let name = match PkgName::parse(raw[i].name.as_str()) {
            Ok(x) => x,
            Err(e) => {
                return Err(e);
            },
        };
        let x = OptionalDepends { name, description: duplicate_text(&raw[i].description) };
        let ghost old_set = set@;
        proof {
            lemma_with_item(set@, x);
            lemma_has_name_take(raw@, i as int);
            crate::named::lemma_rank_of(set@, x.name());
        }
        let (next, _) = set.insert(x);
        set = next;
        proof {
            let before = raw@.take(i as int);
            let after = raw@.take(i + 1);
            assert forall|n: Seq<char>| has_name(set@, n) <==> has_name(after, n) by {
                assert(has_name(set@, n) <==> has_name(old_set, n) || n == x.name());
                assert(has_name(old_set, n) <==> has_name(before, n));
                assert(has_name(after, n) <==> has_name(before, n) || n == raw@[i as int].name());
            }
            assert forall|j: int| 0 <= j < set@.len() implies exists|k: int|
                0 <= k < raw@.len() && (#[trigger] raw@[k]).name@ == (#[trigger] set@[j]).name@
                    && raw@[k].description == set@[j].description && first_of_its_name(
                    raw@,
                    k,
                ) by {
                let at = crate::named::rank_of(old_set, x.name());
                if has_name(old_set, x.name()) {
                    assert(set@[j] == old_set[j]);
                } else if j < at {
                    assert(set@[j] == old_set[j]);
                } else if j == at {
                    assert(set@[j] == x);
                    assert(raw@[i as int].name@ == x.name@);
                    assert forall|m: int| 0 <= m < i implies (#[trigger] raw@[m]).name@
                        != raw@[i as int].name@ by {
                        if raw@[m].name@ == x.name@ {
                            assert(before[m] == raw@[m]);
                            assert(has_name(before, x.name()));
                        }
                    }
                    assert(first_of_its_name(raw@, i as int));
                } else {
                    assert(set@[j] == old_set[j - 1]);
                }
            }
        }
        i += 1;
    }
    proof {
        assert(raw@.take(raw.len() as int) == raw@);
    }
    Ok(set)
}

/// Reads what a package says of itself.
pub fn read_delta(raw: &RawPackageInfo) -> (r: Result<PackageInfoDelta, RecipeError>)
    ensures
        match r {
            Ok(d) => delta_error(*raw) is None && delta_reads(d, *raw),
            Err(e) => delta_error(*raw) == Some(e),
        },
{
    let name = match &raw.name {
        Some(n) => match PkgName::parse(n.as_str()) {
            Ok(n) => Some(n),
            Err(e) => {
                return Err(RecipeError::Name(e));
            },
        },
        None => None,
    };
    let version = match &raw.version {
        Some(v) => match PkgVersion::parse(v.as_str()) {
            Ok(v) => Some(v),
            Err(e) => {
                return Err(RecipeError::Version(e));
            },
        },
        None => None,
    };
    let architecture = match &raw.architecture {
        Some(a) => match ArchList::from_tokens(a) {
            Ok(a) => Some(a),
            Err(_) => {
                return Err(RecipeError::EmptyArchitecture);
            },
        },
        None => None,
    };
    let homepage = match &raw.homepage {
        Some(h) => match HttpLocation::parse(h.as_str()) {
            Some(_) => Some(h.clone()),
            None => {
                return Err(RecipeError::InvalidHomepage);
            },
        },
        None => None,
    };
    let depends = match read_names(&raw.depends) {
        Ok(d) => d,
        Err(e) => {
            return Err(RecipeError::Name(e));
        },
    };
    let optional_depends = match read_optional_depends(&raw.optional_depends) {
        Ok(d) => d,
        Err(e) => {
            return Err(RecipeError::Name(e));
        },
    };
    Ok(
        PackageInfoDelta {
            name,
            description: duplicate_text(&raw.description),
            version,
            architecture,
            homepage,
            depends,
            optional_depends,
        },
    )
}

/// Whether the description `info` holds the fields of `d`, all of which
/// are given.
pub open spec fn completes(info: PackageInfo, d: PackageInfoDelta) -> bool {
    &&& d.name is Some && info.name@ == d.name->0@
    &&& d.description is Some && info.description@ == d.description->0@
    &&& d.version is Some && info.version@ == d.version->0@
    &&& d.architecture is Some && info.architecture@ == d.architecture->0@
    &&& info.homepage == d.homepage
    &&& info.depends@ == d.depends@
    &&& info.optional_depends@ == d.optional_depends@
}

/// The description of a source, which must say everything of itself: a
/// name, a description, a version and a list of architectures.
pub fn complete_info(d: PackageInfoDelta) -> (r: Result<PackageInfo, RecipeError>)
    ensures
        match r {
            Ok(info) => completes(info, d),
            Err(RecipeError::MissingName) => d.name is None,
            Err(RecipeError::MissingDescription) => d.name is Some && d.description is None,
            Err(RecipeError::MissingVersion) => d.name is Some && d.description is Some
                && d.version is None,
            Err(RecipeError::MissingArchitecture) => d.name is Some && d.description is Some
                && d.version is Some && d.architecture is None,
            Err(_) => false,
        },
{
    let name = match d.name {
        Some(n) => n,
        None => {
            return Err(RecipeError::MissingName);
        },
    };
    let description = match d.description {
        Some(n) => n,
        None => {
            return Err(RecipeError::MissingDescription);
        },
    };
    let version = match d.version {
        Some(n) => n,
        None => {
            return Err(RecipeError::MissingVersion);
        },
    };
    let architecture = match d.architecture {
        Some(n) => n,
        None => {
            return Err(RecipeError::MissingArchitecture);
        },
    };
    Ok(
        PackageInfo {
            name,
            description,
            version,
            architecture,
            homepage: d.homepage,
            depends: d.depends,
            optional_depends: d.optional_depends,
        },
    )
}

/// What is wrong with the first source file that is refused, if one is.
pub open spec fn files_error(raw: Seq<RawSourceFile>) -> Option<SourceFileError>
    decreases raw.len(),
{
    if raw.len() == 0 {
        None
    } else if source_file_of(raw[0]) is Err {
        Some(source_file_of(raw[0])->Err_0)
    } else {
        files_error(raw.drop_first())
    }
}

/// Whether the source files `files` are those that `raw` gives, in their
/// order.
pub open spec fn files_read(files: Seq<SourceFile>, raw: Seq<RawSourceFile>) -> bool {
    &&& files.len() == raw.len()
    &&& forall|i: int|
        0 <= i < raw.len() ==> source_file_of(#[trigger] raw[i]) == Ok::<
            SourceFileView,
            SourceFileError,
        >(files[i]@)
}

/// Reads the source files of a recipe. The first file that is refused
/// gives the error.
pub fn read_source_files(raw: &Vec<RawSourceFile>) -> (r: Result<Vec<SourceFile>, SourceFileError>)
    ensures
        match r {
            Ok(files) => files_error(raw@) is None && files_read(files@, raw@),
            Err(e) => files_error(raw@) == Some(e),
        },
{
    let mut files: Vec<SourceFile> = Vec::new();
    let mut i: usize = 0;
    proof {
        assert(raw@.skip(0) == raw@);
    }
    while i < raw.len()
        invariant
            i <= raw.len(),
            files@.len() == i,
            files_error(raw@) == files_error(raw@.skip(i as int)),
            forall|k: int|
                0 <= k < i ==> source_file_of(#[trigger] raw@[k]) == Ok::<
                    SourceFileView,
                    SourceFileError,
                >(files@[k]@),
        decreases raw.len() - i,
    {
        proof {
            assert(raw@.skip(i as int)[0] == raw@[i as int]);
            assert(raw@.skip(i as int).drop_first() == raw@.skip(i + 1));
        }
        match SourceFile::from_raw(&raw[i]) {
            Ok(f) => {
                files.push(f);
            },
            Err(e) => {
                return Err(e);
            },
        }
        i += 1;
    }
    Ok(files)
}

/// Whether the package `p` is what `raw` describes, built from a source
/// described by `source`: what `raw` gives is read, and what it leaves
/// out is taken from the source.
pub open spec fn package_made(p: Package, raw: RawPackage, source: PackageInfo) -> bool {
    &&& p.pack == raw.pack
    &&& exists|d: PackageInfoDelta| #[trigger]
        delta_reads(d, raw.info) && merged_of(p.info, d, source)
    &&& p.info.architecture.has(crate::arch::all_token()) ==> p.info.architecture@.len() == 1
}

/// The name of the package that `raw` describes, built from a source
/// described by `source`: its own, or else that of the source.
pub open spec fn package_name(raw: RawPackageInfo, source: PackageInfo) -> Seq<char> {
    match raw.name {
        Some(n) => n@,
        None => source.name@,
    }
}

/// Whether the list of architectures of the package that `raw` describes,
/// which is its own or else that of the source, holds `all` beside
/// something else.
pub open spec fn package_conflict(raw: RawPackageInfo, source: PackageInfo) -> bool {
    match raw.architecture {
        Some(tokens) => tokens_mix_all(tokens@),
        None => source.architecture.mixes_all(),
    }
}

/// What is wrong with the package `raw`, built from a source described
/// by `source`, if anything is: a field that is not sound, or else a list
/// of architectures that holds `all` beside something else.
pub open spec fn package_error(raw: RawPackage, source: PackageInfo) -> Option<RecipeError> {
    if delta_error(raw.info) is Some {
        delta_error(raw.info)
    } else if package_conflict(raw.info, source) {
        Some(RecipeError::ArchitectureConflict)
    } else {
        None
    }
}

/// Makes the package that `raw` describes, built from a source described
/// by `source`.
pub fn package_from_raw(raw: &RawPackage, source: &PackageInfo) -> (r: Result<Package, RecipeError>)
    ensures
        match r {
            Ok(p) => {
                &&& package_error(*raw, *source) is None
                &&& package_made(p, *raw, *source)
                &&& p.name() == package_name(raw.info, *source)
            },
            Err(e) => package_error(*raw, *source) == Some(e),
        },
{
    let delta = match read_delta(&raw.info) {
        Ok(d) => d,
        Err(e) => {
            return Err(e);
        },
    };
    let ghost d = delta;
    let info = delta.merge_into(source);
    let valid = info.architecture.is_valid_for_package();
    proof {
        if raw.info.architecture is Some {
            assert(info.architecture@ == d.architecture->0@);
            lemma_mixes_all(d.architecture->0, raw.info.architecture->0@);
        } else {
            assert(info.architecture@ == source.architecture@);
        }
        assert(info.architecture.mixes_all() == package_conflict(raw.info, *source));
    }
    if !valid {
        return Err(RecipeError::ArchitectureConflict);
    }
    let p = Package { info, pack: duplicate_stage(&raw.pack) };
    proof {
        assert(delta_reads(d, raw.info) && merged_of(p.info, d, *source));
    }
    Ok(p)
}

/// A package depends on what it names itself and on what its source
/// depends on, and so it is with what it may make use of; each other
/// field that the package gives is its own, and each that it leaves out
/// is that of its source.
pub proof fn law_package_completed(p: Package, raw: RawPackage, source: PackageInfo)
    requires
        package_made(p, raw, source),
    ensures
        forall|n: Seq<char>|
            has_name(p.info.depends@, n) <==> has_name(raw.info.depends@, n) || has_name(
                source.depends@,
                n,
            ),
        forall|n: Seq<char>|
            has_name(p.info.optional_depends@, n) <==> has_name(raw.info.optional_depends@, n)
                || has_name(source.optional_depends@, n),
        p.info.name@ == match raw.info.name {
            Some(n) => n@,
            None => source.name@,
        },
        p.info.description@ == match raw.info.description {
            Some(d) => d@,
            None => source.description@,
        },
        match raw.info.version {
            Some(v) => parse_version(v@) == Ok::<VersionView, ParseVersionError>(p.info.version@),
            None => p.info.version@ == source.version@,
        },
        raw.info.architecture is None ==> p.info.architecture@ == source.architecture@,
        p.info.homepage == match raw.info.homepage {
            Some(h) => Some(h),
            None => source.homepage,
        },
{
    let d = choose|d: PackageInfoDelta| #[trigger]
        delta_reads(d, raw.info) && merged_of(p.info, d, source);
    lemma_with_items(d.depends@, source.depends@);
    lemma_with_items(d.optional_depends@, source.optional_depends@);
}

/// Whether the record `s` is what `raw` gives of the source itself.
pub open spec fn source_reads(s: SourceRecord, raw: RawSource) -> bool {
    &&& exists|d: PackageInfoDelta| #[trigger]
        delta_reads(d, raw.info) && completes(s.info.inner, d)
    &&& sorted_by_name(s.info.build_depends@)
    &&& forall|n: Seq<char>| has_name(s.info.build_depends@, n) <==> has_name(
        raw.build_depends@,
        n,
    )
    &&& files_read(s.info.source@, raw.source@)
    &&& s.prepare == raw.prepare
    &&& s.build == raw.build
    &&& s.check == raw.check
}

/// What is wrong with what `raw` gives of the source itself, if anything
/// is. The description is checked first; then that it gives a name, a
/// description, a version and a list of architectures; then what the
/// build depends on; then the source files.
pub open spec fn source_error(raw: RawSource) -> Option<RecipeError> {
    if delta_error(raw.info) is Some {
        delta_error(raw.info)
    } else if raw.info.name is None {
        Some(RecipeError::MissingName)
    } else if raw.info.description is None {
        Some(RecipeError::MissingDescription)
    } else if raw.info.version is None {
        Some(RecipeError::MissingVersion)
    } else if raw.info.architecture is None {
        Some(RecipeError::MissingArchitecture)
    } else if names_error(raw.build_depends@) is Some {
        Some(RecipeError::Name(names_error(raw.build_depends@)->0))
    } else if files_error(raw.source@) is Some {
        Some(RecipeError::SourceFile(files_error(raw.source@)->0))
    } else {
        None
    }
}

/// Reads what a recipe gives of the source itself.
pub fn read_source_record(raw: &RawSource) -> (r: Result<SourceRecord, RecipeError>)
    ensures
        match r {
            Ok(s) => source_error(*raw) is None && source_reads(s, *raw),
            Err(e) => source_error(*raw) == Some(e),
        },
{
    let delta = match read_delta(&raw.info) {
        Ok(d) => d,
        Err(e) => {
            return Err(e);
        },
    };
    let ghost d = delta;
    let inner = match complete_info(delta) {
        Ok(i) => i,
        Err(e) => {
            return Err(e);
        },
    };
    let build_depends = match read_names(&raw.build_depends) {
        Ok(b) => b,
        Err(e) => {
            return Err(RecipeError::Name(e));
        },
    };
    let source = match read_source_files(&raw.source) {
        Ok(s) => s,
        Err(e) => {
            return Err(RecipeError::SourceFile(e));
        },
    };
    let record = SourceRecord {
        info: SourceInfo { inner, build_depends, source },
        prepare: duplicate_stage(&raw.prepare),
        build: duplicate_stage(&raw.build),
        check: duplicate_stage(&raw.check),
    };
    proof {
        assert(delta_reads(d, raw.info) && completes(record.info.inner, d));
    }
    Ok(record)
}

} // verus!
