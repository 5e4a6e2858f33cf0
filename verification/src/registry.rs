//! What a recipe declares while it runs: one source, and then the
//! packages that are built from it.

use crate::arch::{lemma_mixes_all, tokens_mix_all};
use crate::dynamic::{
    package_reads, package_type_error, read_package, read_recipe, recipe_reads,
    recipe_type_error, Dynamic,
};
use crate::named::{
    has_name, lemma_with_item, lemma_with_item_holds, lemma_with_item_keeps, sorted_by_name,
    with_item, Named, NamedSet,
};
use crate::reading::{
    completes, delta_error, delta_reads, package_conflict, package_error, package_from_raw,
    package_made, package_name, read_source_record, source_error, source_reads, RawPackage,
    RawPackageInfo, RawSource, RecipeError,
};
use crate::recipe::{
    duplicate_stage, same_info, Package, PackageInfo, PackageInfoDelta, Source, SourceRecord,
};
use vstd::prelude::*;

verus! {

/// The declarations of a recipe so far.
pub struct Registry {
    pub source: Option<SourceRecord>,
    pub packages: NamedSet<Package>,
}

/// Whether the declaration of the package `raw` is refused with the
/// error `e`, where `source` is what was declared as the source and
/// `packages` are the packages declared before: no source was declared,
/// or something is wrong with the package, or else its name is taken.
pub open spec fn package_refused(
    source: Option<SourceRecord>,
    packages: Seq<Package>,
    raw: RawPackage,
    e: RecipeError,
) -> bool {
    match source {
        None => e == RecipeError::SourceNotDefined,
        Some(s) => match package_error(raw, s.info.inner) {
            Some(x) => e == x,
            None => {
                &&& has_name(packages, package_name(raw.info, s.info.inner))
                &&& e matches RecipeError::DuplicatePackage(n)
                &&& n@ == package_name(raw.info, s.info.inner)
            },
        },
    }
}

impl Registry {
    /// The state before anything is declared.
    pub fn new() -> (r: Registry)
        ensures
            r.source is None,
            r.packages@.len() == 0,
    {
        Registry { source: None, packages: NamedSet::new() }
    }

    /// Declares the source. A recipe can do so once.
    pub fn define_source(self, record: SourceRecord) -> (r: (Registry, Result<(), RecipeError>))
        ensures
            r.0.packages@ == self.packages@,
            match r.1 {
                Ok(_) => self.source is None && r.0.source == Some(record),
                Err(e) => self.source is Some && r.0.source == self.source
                    && e == RecipeError::SourceDefinedTwice,
            },
    {
        match self.source {
            Some(s) => (
                Registry { source: Some(s), packages: self.packages },
                Err(RecipeError::SourceDefinedTwice),
            ),
            None => (Registry { source: Some(record), packages: self.packages }, Ok(())),
        }
    }

    /// Puts a package among the declared ones. No two packages can have
    /// one name.
    pub fn add_package(self, p: Package) -> (r: (Registry, Result<(), RecipeError>))
        ensures
            r.0.source == self.source,
            sorted_by_name(r.0.packages@),
            match r.1 {
                Ok(_) => !has_name(self.packages@, p.name()) && r.0.packages@ == with_item(
                    self.packages@,
                    p,
                ),
                Err(RecipeError::DuplicatePackage(n)) => n@ == p.name() && has_name(
                    self.packages@,
                    p.name(),
                ) && r.0.packages@ == self.packages@,
                Err(_) => false,
            },
    {
        let name = p.info.name.to_string();
        let (packages, added) = self.packages.insert(p);
        let next = Registry { source: self.source, packages };
        if added {
            (next, Ok(()))
        } else {
            (next, Err(RecipeError::DuplicatePackage(name)))
        }
    }

    /// Declares a package, which is described by what it differs in from
    /// the source. The source must be declared before.
    pub fn define_package(self, raw: &RawPackage) -> (r: (Registry, Result<(), RecipeError>))
        ensures
            r.0.source == self.source,
            match r.1 {
                Ok(_) => {
                    &&& self.source is Some
                    &&& sorted_by_name(r.0.packages@)
                    &&& package_error(*raw, self.source->0.info.inner) is None
                    &&& !has_name(
                        self.packages@,
                        package_name(raw.info, self.source->0.info.inner),
                    )
                    &&& exists|p: Package| #[trigger]
                        package_made(p, *raw, self.source->0.info.inner) && p.name()
                            == package_name(raw.info, self.source->0.info.inner)
                            && r.0.packages@ == with_item(self.packages@, p)
                },
                Err(e) => r.0.packages@ == self.packages@ && package_refused(
                    self.source,
                    self.packages@,
                    *raw,
                    e,
                ),
            },
    {
        let made = match &self.source {
            None => {
                return (self, Err(RecipeError::SourceNotDefined));
            },
            Some(s) => package_from_raw(raw, &s.info.inner),
        };
        match made {
            Err(e) => (self, Err(e)),
            Ok(p) => {
                let ghost made = p;
                let (next, added) = self.add_package(p);
                match added {
                    Ok(_) => {
                        proof {
                            assert(package_made(made, *raw, self.source->0.info.inner)
                                && made.name() == package_name(
                                raw.info,
                                self.source->0.info.inner,
                            ) && next.packages@ == with_item(self.packages@, made));
                        }
                        (next, Ok(()))
                    },
                    Err(e) => (next, Err(e)),
                }
            },
        }
    }

    /// Ends the declarations. A recipe must have declared a source and at
    /// least one package.
    pub fn finish(self) -> (r: Result<Source, RecipeError>)
        ensures
            match r {
                Ok(s) => {
                    &&& self.source == Some(record_of(s))
                    &&& s.packages@ == self.packages@
                    &&& s.packages@.len() > 0
                },
                Err(e) => if self.source is None {
                    e == RecipeError::NoSource
                } else {
                    self.packages@.len() == 0 && e == RecipeError::NoPackage
                },
            },
    {
        let record = match self.source {
            Some(s) => s,
            None => {
                return Err(RecipeError::NoSource);
            },
        };
        if self.packages.len() == 0 {
            return Err(RecipeError::NoPackage);
        }
        Ok(
            Source {
                info: record.info,
                prepare: record.prepare,
                build: record.build,
                check: record.check,
                packages: self.packages,
            },
        )
    }
}

/// The part of a source that describes the source itself.
pub open spec fn record_of(s: Source) -> SourceRecord {
    SourceRecord { info: s.info, prepare: s.prepare, build: s.build, check: s.check }
}

/// Whether the packages of `s` are those that `raw` asks for. Without a
/// table of packages there is one package, which is described as the
/// source is and filled by the stage `pack`. With a table there is one
/// package for each entry.
pub open spec fn packages_made(s: Source, raw: RawSource) -> bool {
    match raw.packages {
        None => {
            &&& s.packages@.len() == 1
            &&& same_info(s.packages@[0].info, s.info.inner)
            &&& s.packages@[0].pack == raw.pack
        },
        Some(table) => {
            &&& table@.len() > 0
            &&& s.packages@.len() == table@.len()
            &&& forall|k: int|
                0 <= k < table@.len() ==> exists|j: int|
                    0 <= j < s.packages@.len() && package_made(
                        #[trigger] s.packages@[j],
                        #[trigger] table@[k],
                        s.info.inner,
                    )
        },
    }
}

/// The tokens of the list of architectures of an entry of the table of
/// packages: its own, or else those of the source.
pub open spec fn entry_tokens(entry: RawPackageInfo, source: RawPackageInfo) -> Seq<String> {
    match entry.architecture {
        Some(tokens) => tokens@,
        None => source.architecture->0@,
    }
}

/// The name of the package of an entry of the table of packages: its
/// own, or else that of the source.
pub open spec fn entry_name(entry: RawPackageInfo, source: RawPackageInfo) -> Seq<char> {
    match entry.name {
        Some(n) => n@,
        None => source.name->0@,
    }
}

/// What is wrong with an entry of the table of packages by itself, if
/// anything is: a field that is not sound, or else a list of
/// architectures that holds `all` beside something else.
pub open spec fn entry_error(entry: RawPackage, source: RawPackageInfo) -> Option<RecipeError> {
    if delta_error(entry.info) is Some {
        delta_error(entry.info)
    } else if tokens_mix_all(entry_tokens(entry.info, source)) {
        Some(RecipeError::ArchitectureConflict)
    } else {
        None
    }
}

/// Whether an entry before the entry at `i` has the name of that entry.
pub open spec fn name_taken(table: Seq<RawPackage>, source: RawPackageInfo, i: int) -> bool {
    exists|k: int|
        0 <= k < i && entry_name((#[trigger] table[k]).info, source) == entry_name(
            table[i].info,
            source,
        )
}

/// The place of the first entry, from the place `from` on, that is
/// refused: something is wrong with it by itself, or its name is taken.
/// The length of the table where none is refused.
pub open spec fn first_refused(table: Seq<RawPackage>, source: RawPackageInfo, from: int) -> int
    decreases table.len() - from,
{
    if from < 0 || from >= table.len() {
        table.len() as int
    } else if entry_error(table[from], source) is Some || name_taken(table, source, from) {
        from
    } else {
        first_refused(table, source, from + 1)
    }
}

/// Whether nothing is wrong with the recipe `raw`.
pub open spec fn recipe_ok(raw: RawSource) -> bool {
    &&& !(raw.pack is Some && raw.packages is Some)
    &&& source_error(raw) is None
    &&& match raw.packages {
        None => !tokens_mix_all(raw.info.architecture->0@),
        Some(table) => table@.len() > 0 && first_refused(table@, raw.info, 0) == table@.len(),
    }
}

/// Whether the recipe `raw` is refused with the error `e`. A recipe with
/// both the stage `pack` and a table of packages is refused as such. Then
/// what is wrong with the source itself counts. Then, without a table,
/// that the one package cannot be built for the architectures of the
/// source; with a table, what is wrong with the first entry that is
/// refused, or that the table is empty.
pub open spec fn recipe_error(raw: RawSource, e: RecipeError) -> bool {
    if raw.pack is Some && raw.packages is Some {
        e == RecipeError::PackConflict
    } else if source_error(raw) is Some {
        source_error(raw) == Some(e)
    } else {
        match raw.packages {
            None => tokens_mix_all(raw.info.architecture->0@) && e
                == RecipeError::ArchitectureConflict,
            Some(table) => {
                let i = first_refused(table@, raw.info, 0);
                if i < table@.len() {
                    match entry_error(table@[i], raw.info) {
                        Some(x) => e == x,
                        None => e matches RecipeError::DuplicatePackage(n) && n@ == entry_name(
                            table@[i].info,
                            raw.info,
                        ),
                    }
                } else {
                    table@.len() == 0 && e == RecipeError::NoPackage
                }
            },
        }
    }
}

/// Where the entry at `at` is refused, the first entry that is refused
/// from `from` on stands at `at` or before.
proof fn lemma_first_refused(table: Seq<RawPackage>, source: RawPackageInfo, from: int, at: int)
    requires
        0 <= from <= at < table.len(),
        entry_error(table[at], source) is Some || name_taken(table, source, at),
    ensures
        from <= first_refused(table, source, from) <= at,
    decreases at - from,
{
    if from < at && !(entry_error(table[from], source) is Some || name_taken(
        table,
        source,
        from,
    )) {
        lemma_first_refused(table, source, from + 1, at);
    }
}

/// A recipe whose table of packages is empty, or holds two entries of one
/// name, or an entry with something wrong, is refused.
pub proof fn law_table_refused(raw: RawSource, i: int, j: int)
    requires
        raw.packages is Some,
        ({
            let table = raw.packages->0@;
            ||| table.len() == 0
            ||| 0 <= i < j < table.len() && entry_name(table[i].info, raw.info) == entry_name(
                table[j].info,
                raw.info,
            )
            ||| 0 <= j < table.len() && entry_error(table[j], raw.info) is Some
        }),
    ensures
        !recipe_ok(raw),
{
    let table = raw.packages->0@;
    if table.len() > 0 {
        lemma_first_refused(table, raw.info, 0, j);
    }
}

/// What an entry of the table of packages is measured against is the
/// same whether it is read from the source as the recipe gives it or
/// from the source as it was read.
proof fn lemma_entry(inner: PackageInfo, source: RawPackageInfo, entry: RawPackage)
    requires
        exists|d: PackageInfoDelta| #[trigger] delta_reads(d, source) && completes(inner, d),
    ensures
        inner.architecture.mixes_all() == tokens_mix_all(source.architecture->0@),
        package_name(entry.info, inner) == entry_name(entry.info, source),
        package_conflict(entry.info, inner) == tokens_mix_all(entry_tokens(entry.info, source)),
        package_error(entry, inner) == entry_error(entry, source),
{
    let d = choose|d: PackageInfoDelta| #[trigger] delta_reads(d, source) && completes(inner, d);
    lemma_mixes_all(d.architecture->0, source.architecture->0@);
    assert(inner.architecture@ == d.architecture->0@);
}

/// Whether the source `s` with its packages is what the recipe `raw`
/// describes, with which nothing is wrong.
pub open spec fn recipe_made(s: Source, raw: RawSource) -> bool {
    &&& recipe_ok(raw)
    &&& source_reads(record_of(s), raw)
    &&& sorted_by_name(s.packages@)
    &&& packages_made(s, raw)
}

impl Package {
    /// Reads a package from the value that a script presents, and
    /// completes it from the source described by `fallback`. A field that
    /// is not of its type is the first thing to be refused.
    pub fn from_dynamic_delta(value: &Dynamic, fallback: &PackageInfo) -> (r: Result<
        Package,
        RecipeError,
    >)
        ensures
            match r {
                Ok(p) => exists|raw: RawPackage| #[trigger]
                    package_reads(raw, *value) && package_error(raw, *fallback) is None
                        && package_made(p, raw, *fallback),
                Err(e) => match package_type_error(*value) {
                    Some(t) => e == RecipeError::Type(t),
                    None => exists|raw: RawPackage| #[trigger]
                        package_reads(raw, *value) && package_error(raw, *fallback) == Some(e),
                },
            },
    {
        let raw = match read_package(value) {
            Ok(raw) => raw,
            Err(t) => {
                return Err(RecipeError::Type(t));
            },
        };
        let made = package_from_raw(&raw, fallback);
        proof {
            assert(package_reads(raw, *value));
        }
        made
    }
}

impl Source {
    /// Reads a whole recipe from the value that a script presents. A
    /// field that is not of its type is the first thing to be refused.
    pub fn from_dynamic(value: &Dynamic) -> (r: Result<Source, RecipeError>)
        ensures
            match r {
                Ok(s) => exists|raw: RawSource| #[trigger]
                    recipe_reads(raw, *value) && recipe_made(s, raw),
                Err(e) => match recipe_type_error(*value) {
                    Some(t) => e == RecipeError::Type(t),
                    None => exists|raw: RawSource| #[trigger]
                        recipe_reads(raw, *value) && recipe_error(raw, e),
                },
            },
    {
        let raw = match read_recipe(value) {
            Ok(raw) => raw,
            Err(t) => {
                return Err(RecipeError::Type(t));
            },
        };
        let made = Source::from_raw(&raw);
        proof {
            assert(recipe_reads(raw, *value));
        }
        made
    }

    /// Reads a whole recipe, the source and its packages, from a record
    /// whose fields are of their types.
    pub fn from_raw(raw: &RawSource) -> (r: Result<Source, RecipeError>)
        ensures
            match r {
                Ok(s) => recipe_made(s, *raw),
                Err(e) => recipe_error(*raw, e),
            },
    {
        if raw.pack.is_some() && raw.packages.is_some() {
            return Err(RecipeError::PackConflict);
        }
        let record = match read_source_record(raw) {
            Ok(r) => r,
            Err(e) => {
                return Err(e);
            },
        };
        let ghost rec = record;
        let mut registry = Registry::new();
        match &raw.packages {
            None => {
                let info = record.info.inner.duplicate();
                proof {
                    lemma_entry(rec.info.inner, raw.info, RawPackage { info: raw.info, pack: None });
                }
                if !info.architecture.is_valid_for_package() {
                    return Err(RecipeError::ArchitectureConflict);
                }
                let p = Package { info, pack: duplicate_stage(&raw.pack) };
                let (next, _) = registry.define_source(record);
                proof {
                    lemma_with_item_holds(next.packages@, p);
                }
                let (next, _) = next.add_package(p);
                registry = next;
                proof {
                    assert(registry.packages@[0] == p);
                }
            },
            Some(table) => {
                let (next, _) = registry.define_source(record);
                registry = next;
                let mut i: usize = 0;
                while i < table.len()
                    invariant
                        i <= table.len(),
                        raw.packages == Some(*table),
                        !(raw.pack is Some),
                        source_error(*raw) is None,
                        source_reads(rec, *raw),
                        registry.source == Some(rec),
                        sorted_by_name(registry.packages@),
                        registry.packages@.len() == i,
                        first_refused(table@, raw.info, 0) == first_refused(
                            table@,
                            raw.info,
                            i as int,
                        ),
                        forall|n: Seq<char>|
                            has_name(registry.packages@, n) <==> exists|k: int|
                                0 <= k < i && entry_name((#[trigger] table@[k]).info, raw.info)
                                    == n,
                        forall|k: int|
                            0 <= k < i ==> exists|j: int|
                                0 <= j < registry.packages@.len() && package_made(
                                    #[trigger] registry.packages@[j],
                                    #[trigger] table@[k],
                                    rec.info.inner,
                                ),
                    decreases table.len() - i,
                {
                    let ghost before = registry.packages@;
                    let ghost entry = table@[i as int];
                    proof {
                        lemma_entry(rec.info.inner, raw.info, entry);
                        if name_taken(table@, raw.info, i as int) {
                            let k = choose|k: int|
                                0 <= k < i && entry_name((#[trigger] table@[k]).info, raw.info)
                                    == entry_name(table@[i as int].info, raw.info);
                            assert(has_name(before, entry_name(entry.info, raw.info)));
                        }
                        if has_name(before, entry_name(entry.info, raw.info)) {
                            let k = choose|k: int|
                                0 <= k < i && entry_name((#[trigger] table@[k]).info, raw.info)
                                    == entry_name(entry.info, raw.info);
                            assert(name_taken(table@, raw.info, i as int));
                        }
                    }
                    let (next, outcome) = registry.define_package(&table[i]);
                    registry = next;
                    match outcome {
                        Ok(_) => {},
                        Err(e) => {
                            return Err(e);
                        },
                    }
                    proof {
                        let p = choose|p: Package| #[trigger]
                            package_made(p, entry, rec.info.inner) && p.name() == package_name(
                                entry.info,
                                rec.info.inner,
                            ) && registry.packages@ == with_item(before, p);
                        lemma_with_item(before, p);
                        lemma_with_item_holds(before, p);
                        assert forall|n: Seq<char>|
                            has_name(registry.packages@, n) <==> exists|k: int|
                                0 <= k < i + 1 && entry_name((#[trigger] table@[k]).info, raw.info)
                                    == n by {
                            if has_name(before, n) {
                                let k = choose|k: int|
                                    0 <= k < i && entry_name((#[trigger] table@[k]).info, raw.info)
                                        == n;
                                assert(0 <= k < i + 1 && entry_name(table@[k].info, raw.info)
                                    == n);
                            }
                            if n == p.name() {
                                assert(entry_name(table@[i as int].info, raw.info) == n);
                            }
                            if exists|k: int|
                                0 <= k < i + 1 && entry_name((#[trigger] table@[k]).info, raw.info)
                                    == n {
                                let k = choose|k: int|
                                    0 <= k < i + 1 && entry_name(
                                        (#[trigger] table@[k]).info,
                                        raw.info,
                                    ) == n;
                                if k < i {
                                    assert(has_name(before, n));
                                }
                            }
                        }
                        assert forall|k: int| 0 <= k < i + 1 implies exists|j: int|
                            0 <= j < registry.packages@.len() && package_made(
                                #[trigger] registry.packages@[j],
                                #[trigger] table@[k],
                                rec.info.inner,
                            ) by {
                            if k < i {
                                let j = choose|j: int|
                                    0 <= j < before.len() && package_made(
                                        #[trigger] before[j],
                                        table@[k],
                                        rec.info.inner,
                                    );
                                lemma_with_item_keeps(before, p, j);
                                let j2 = choose|j2: int|
                                    0 <= j2 < with_item(before, p).len() && with_item(before, p)[j2]
                                        == before[j];
                                assert(package_made(
                                    registry.packages@[j2],
                                    table@[k],
                                    rec.info.inner,
                                ));
                            } else {
                                let j2 = choose|j2: int|
                                    0 <= j2 < with_item(before, p).len() && with_item(before, p)[j2]
                                        == p;
                                assert(package_made(
                                    registry.packages@[j2],
                                    table@[k],
                                    rec.info.inner,
                                ));
                            }
                        }
                    }
                    i += 1;
                }
            },
        }
        registry.finish()
    }
}

} // verus!
