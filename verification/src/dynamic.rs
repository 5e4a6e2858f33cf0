//! The loosely typed values that a script presents for a recipe, and
//! their reading, field by field, into the records that are checked. A
//! field that is not of the type it must be of is an error at once.

use crate::reading::{RawOptionalDepends, RawPackage, RawPackageInfo, RawSource};
use crate::recipe::Execution;
use crate::source_file::RawSourceFile;
use crate::text::same_text;
use vstd::prelude::*;

verus! {

/// A value as a script presents it.
#[derive(Debug)]
pub enum Dynamic {
    /// No value.
    Unit,
    /// A truth value.
    Bool(bool),
    /// A text.
    Text(String),
    /// A function of the script, known by a handle.
    Function(u64),
    /// Values in a row.
    List(Vec<Dynamic>),
    /// Values under keys. Where a key stands twice, the first counts.
    Table(Vec<(String, Dynamic)>),
    /// A value of any other type.
    Other,
}

/// The type of a value.
#[derive(Clone, Copy, Debug, PartialEq, Eq, Structural)]
pub enum Kind {
    Nothing,
    Flag,
    Text,
    Function,
    List,
    Table,
    Other,
}

/// The type that a field must be of.
#[derive(Clone, Copy, Debug, PartialEq, Eq, Structural)]
pub enum Wanted {
    Flag,
    Text,
    /// A text or a function.
    Stage,
    List,
    Table,
}

/// The fields of a recipe, of its packages, of its source files and of
/// its optional dependencies.
#[derive(Clone, Copy, Debug, PartialEq, Eq, Structural)]
pub enum Field {
    /// The recipe as a whole.
    Recipe,
    Name,
    Description,
    Version,
    Architecture,
    Homepage,
    BuildDepends,
    Depends,
    OptionalDepends,
    Source,
    Prepare,
    Build,
    Check,
    Pack,
    Packages,
    Url,
    Path,
    Rename,
    Sha256sum,
    Sha512sum,
    SkipChecksum,
    Extract,
}

/// A field, or a member of the list that a field holds, is not of the
/// type it must be of; or a field that must be there is not.
#[derive(Clone, Copy, Debug, PartialEq, Eq, Structural)]
pub struct TypeError {
    pub field: Field,
    pub wanted: Wanted,
    pub found: Kind,
}

/// The type of a value.
pub open spec fn kind_of(v: Dynamic) -> Kind {
    match v {
        Dynamic::Unit => Kind::Nothing,
        Dynamic::Bool(_) => Kind::Flag,
        Dynamic::Text(_) => Kind::Text,
        Dynamic::Function(_) => Kind::Function,
        Dynamic::List(_) => Kind::List,
        Dynamic::Table(_) => Kind::Table,
        Dynamic::Other => Kind::Other,
    }
}

/// The key under which a table holds a field.
pub open spec fn key_of(field: Field) -> Seq<char> {
    match field {
        Field::Recipe => "recipe"@,
        Field::Name => "name"@,
        Field::Description => "description"@,
        Field::Version => "version"@,
        Field::Architecture => "architecture"@,
        Field::Homepage => "homepage"@,
        Field::BuildDepends => "build_depends"@,
        Field::Depends => "depends"@,
        Field::OptionalDepends => "optional_depends"@,
        Field::Source => "source"@,
        Field::Prepare => "prepare"@,
        Field::Build => "build"@,
        Field::Check => "check"@,
        Field::Pack => "pack"@,
        Field::Packages => "packages"@,
        Field::Url => "url"@,
        Field::Path => "path"@,
        Field::Rename => "rename"@,
        Field::Sha256sum => "sha256sum"@,
        Field::Sha512sum => "sha512sum"@,
        Field::SkipChecksum => "skip_checksum"@,
        Field::Extract => "extract"@,
    }
}

impl Dynamic {
    /// The type of the value.
    pub fn kind(&self) -> (r: Kind)
        ensures
            r == kind_of(*self),
    {
        match self {
            Dynamic::Unit => Kind::Nothing,
            Dynamic::Bool(_) => Kind::Flag,
            Dynamic::Text(_) => Kind::Text,
            Dynamic::Function(_) => Kind::Function,
            Dynamic::List(_) => Kind::List,
            Dynamic::Table(_) => Kind::Table,
            Dynamic::Other => Kind::Other,
        }
    }
}

impl Field {
    /// The key under which a table holds the field.
    pub fn key(&self) -> (r: &'static str)
        ensures
            r@ == key_of(*self),
    {
        match self {
            Field::Recipe => "recipe",
            Field::Name => "name",
            Field::Description => "description",
            Field::Version => "version",
            Field::Architecture => "architecture",
            Field::Homepage => "homepage",
            Field::BuildDepends => "build_depends",
            Field::Depends => "depends",
            Field::OptionalDepends => "optional_depends",
            Field::Source => "source",
            Field::Prepare => "prepare",
            Field::Build => "build",
            Field::Check => "check",
            Field::Pack => "pack",
            Field::Packages => "packages",
            Field::Url => "url",
            Field::Path => "path",
            Field::Rename => "rename",
            Field::Sha256sum => "sha256sum",
            Field::Sha512sum => "sha512sum",
            Field::SkipChecksum => "skip_checksum",
            Field::Extract => "extract",
        }
    }
}

/// The value that a table holds under a key: that of the first entry
/// with the key, and no value where there is no such entry.
pub open spec fn value_at(entries: Seq<(String, Dynamic)>, key: Seq<char>) -> Dynamic
    decreases entries.len(),
{
    if entries.len() == 0 {
        Dynamic::Unit
    } else if entries[0].0@ == key {
        entries[0].1
    } else {
        value_at(entries.drop_first(), key)
    }
}

/// The value that a table holds under a key.
pub fn lookup<'a>(entries: &'a Vec<(String, Dynamic)>, key: &str) -> (r: Option<&'a Dynamic>)
    ensures
        match r {
            Some(v) => *v == value_at(entries@, key@) && !(*v is Unit),
            None => value_at(entries@, key@) is Unit,
        },
{
    let mut i: usize = 0;
    proof {
        assert(entries@.skip(0) == entries@);
    }
    while i < entries.len()
        invariant
            i <= entries.len(),
            value_at(entries@, key@) == value_at(entries@.skip(i as int), key@),
        decreases entries.len() - i,
    {
        proof {
            assert(entries@.skip(i as int)[0] == entries@[i as int]);
            assert(entries@.skip(i as int).drop_first() == entries@.skip(i + 1));
        }
        if same_text(entries[i].0.as_str(), key) {
            return match &entries[i].1 {
                Dynamic::Unit => None,
                v => Some(v),
            };
        }
        i += 1;
    }
    None
}

/// The error of a field that holds a value of another type than it must.
pub open spec fn mismatch(field: Field, wanted: Wanted, v: Dynamic) -> TypeError {
    TypeError { field, wanted, found: kind_of(v) }
}

/// The text under a field that may be left out.
pub open spec fn text_at(entries: Seq<(String, Dynamic)>, field: Field) -> Result<
    Option<String>,
    TypeError,
> {
    match value_at(entries, key_of(field)) {
        Dynamic::Unit => Ok(None),
        Dynamic::Text(s) => Ok(Some(s)),
        v => Err(mismatch(field, Wanted::Text, v)),
    }
}

/// The truth value under a field that may be left out.
pub open spec fn flag_at(entries: Seq<(String, Dynamic)>, field: Field) -> Result<
    Option<bool>,
    TypeError,
> {
    match value_at(entries, key_of(field)) {
        Dynamic::Unit => Ok(None),
        Dynamic::Bool(b) => Ok(Some(b)),
        v => Err(mismatch(field, Wanted::Flag, v)),
    }
}

/// The stage that a value stands for: a text is handed to the shell, a
/// function is called. The type of any other value is the error.
pub open spec fn stage_of(v: Dynamic) -> Result<Execution, Kind> {
    match v {
        Dynamic::Text(s) => Ok(Execution::Shell(s)),
        Dynamic::Function(h) => Ok(Execution::Fn(h)),
        _ => Err(kind_of(v)),
    }
}

/// The stage under a field that may be left out.
pub open spec fn stage_at(entries: Seq<(String, Dynamic)>, field: Field) -> Result<
    Option<Execution>,
    TypeError,
> {
    match value_at(entries, key_of(field)) {
        Dynamic::Unit => Ok(None),
        v => match stage_of(v) {
            Ok(e) => Ok(Some(e)),
            Err(_) => Err(mismatch(field, Wanted::Stage, v)),
        },
    }
}

impl Execution {
    /// The stage that a value stands for.
    pub fn from_dynamic(value: &Dynamic) -> (r: Result<Execution, Kind>)
        ensures
            r == stage_of(*value),
    {
        match value {
            Dynamic::Text(s) => Ok(Execution::Shell(s.clone())),
            Dynamic::Function(h) => Ok(Execution::Fn(*h)),
            _ => Err(value.kind()),
        }
    }
}

/// Reads the text under a field that may be left out.
pub fn text_field(entries: &Vec<(String, Dynamic)>, field: Field) -> (r: Result<
    Option<String>,
    TypeError,
>)
    ensures
        r == text_at(entries@, field),
{
    match lookup(entries, field.key()) {
        None => Ok(None),
        Some(Dynamic::Text(s)) => Ok(Some(s.clone())),
        Some(v) => Err(TypeError { field, wanted: Wanted::Text, found: v.kind() }),
    }
}

/// Reads the truth value under a field that may be left out.
pub fn flag_field(entries: &Vec<(String, Dynamic)>, field: Field) -> (r: Result<
    Option<bool>,
    TypeError,
>)
    ensures
        r == flag_at(entries@, field),
{
    match lookup(entries, field.key()) {
        None => Ok(None),
        Some(Dynamic::Bool(b)) => Ok(Some(*b)),
        Some(v) => Err(TypeError { field, wanted: Wanted::Flag, found: v.kind() }),
    }
}

/// Reads the stage under a field that may be left out.
pub fn stage_field(entries: &Vec<(String, Dynamic)>, field: Field) -> (r: Result<
    Option<Execution>,
    TypeError,
>)
    ensures
        r == stage_at(entries@, field),
{
    match lookup(entries, field.key()) {
        None => Ok(None),
        Some(v) => match Execution::from_dynamic(v) {
            Ok(e) => Ok(Some(e)),
            Err(found) => Err(TypeError { field, wanted: Wanted::Stage, found }),
        },
    }
}

/// The items `head` before the items that were read after them, as long
/// as those were read.
pub open spec fn put_before<T>(head: Seq<T>, tail: Result<Seq<T>, TypeError>) -> Result<
    Seq<T>,
    TypeError,
> {
    match tail {
        Ok(t) => Ok(head + t),
        Err(e) => Err(e),
    }
}

/// The texts that a list holds, which is the list of the field `field`.
/// The first member that is no text is the error.
pub open spec fn texts_of(list: Seq<Dynamic>, field: Field) -> Result<Seq<String>, TypeError>
    decreases list.len(),
{
    if list.len() == 0 {
        Ok(Seq::empty())
    } else {
        match list[0] {
            Dynamic::Text(s) => put_before(seq![s], texts_of(list.drop_first(), field)),
            v => Err(mismatch(field, Wanted::Text, v)),
        }
    }
}

/// The texts under a field that may be left out.
pub open spec fn texts_at(entries: Seq<(String, Dynamic)>, field: Field) -> Result<
    Option<Seq<String>>,
    TypeError,
> {
    match value_at(entries, key_of(field)) {
        Dynamic::Unit => Ok(None),
        Dynamic::List(list) => match texts_of(list@, field) {
            Ok(texts) => Ok(Some(texts)),
            Err(e) => Err(e),
        },
        v => Err(mismatch(field, Wanted::List, v)),
    }
}

/// Reads the texts under a field that may be left out.
pub fn texts_field(entries: &Vec<(String, Dynamic)>, field: Field) -> (r: Result<
    Option<Vec<String>>,
    TypeError,
>)
    ensures
        match r {
            Ok(Some(texts)) => texts_at(entries@, field) == Ok::<Option<Seq<String>>, TypeError>(
                Some(texts@),
            ),
            Ok(None) => texts_at(entries@, field) == Ok::<Option<Seq<String>>, TypeError>(None),
            Err(e) => texts_at(entries@, field) == Err::<Option<Seq<String>>, TypeError>(e),
        },
{
    let list = match lookup(entries, field.key()) {
        None => {
            return Ok(None);
        },
        Some(Dynamic::List(list)) => list,
        Some(v) => {
            return Err(TypeError { field, wanted: Wanted::List, found: v.kind() });
        },
    };
    let mut out: Vec<String> = Vec::new();
    let mut i: usize = 0;
    proof {
        assert(list@.skip(0) == list@);
        assert(put_before(out@, texts_of(list@, field)) == texts_of(list@, field)) by {
            if texts_of(list@, field) is Ok {
                assert(out@ + texts_of(list@, field)->Ok_0 =~= texts_of(list@, field)->Ok_0);
            }
        }
    }
    while i < list.len()
        invariant
            i <= list.len(),
            value_at(entries@, key_of(field)) == Dynamic::List(*list),
            texts_of(list@, field) == put_before(out@, texts_of(list@.skip(i as int), field)),
        decreases list.len() - i,
    {
        let ghost rest = texts_of(list@.skip(i + 1), field);
        proof {
            assert(list@.skip(i as int)[0] == list@[i as int]);
            assert(list@.skip(i as int).drop_first() == list@.skip(i + 1));
        }
        match &list[i] {
            Dynamic::Text(s) => {
                proof {
                    if rest is Ok {
                        assert(out@.push(*s) + rest->Ok_0 =~= out@ + (seq![*s] + rest->Ok_0));
                    }
                }
                out.push(s.clone());
            },
            v => {
                return Err(TypeError { field, wanted: Wanted::Text, found: v.kind() });
            },
        }
        i += 1;
    }
    proof {
        assert(out@ + Seq::<String>::empty() =~= out@);
    }
    Ok(Some(out))
}

/// The error of a field that must be there and is not.
pub open spec fn missing(field: Field, wanted: Wanted) -> TypeError {
    TypeError { field, wanted, found: Kind::Nothing }
}

/// The optional dependency that a value stands for: a table with a name
/// and, if it likes, a word on what the dependency is for.
pub open spec fn optional_of(v: Dynamic) -> Result<RawOptionalDepends, TypeError> {
    match v {
        Dynamic::Table(t) => match (
            text_at(t@, Field::Name),
            text_at(t@, Field::Description),
        ) {
            (Err(e), _) => Err(e),
            (Ok(None), _) => Err(missing(Field::Name, Wanted::Text)),
            (Ok(Some(_)), Err(e)) => Err(e),
            (Ok(Some(name)), Ok(description)) => Ok(RawOptionalDepends { name, description }),
        },
        _ => Err(mismatch(Field::OptionalDepends, Wanted::Table, v)),
    }
}

/// The optional dependencies that a list holds. The first member that
/// stands for none is the error.
pub open spec fn optionals_of(list: Seq<Dynamic>) -> Result<Seq<RawOptionalDepends>, TypeError>
    decreases list.len(),
{
    if list.len() == 0 {
        Ok(Seq::empty())
    } else {
        match optional_of(list[0]) {
            Ok(x) => put_before(seq![x], optionals_of(list.drop_first())),
            Err(e) => Err(e),
        }
    }
}

/// The optional dependencies of a table; none where the field is left
/// out.
pub open spec fn optionals_at(entries: Seq<(String, Dynamic)>) -> Result<
    Seq<RawOptionalDepends>,
    TypeError,
> {
    match value_at(entries, key_of(Field::OptionalDepends)) {
        Dynamic::Unit => Ok(Seq::empty()),
        Dynamic::List(list) => optionals_of(list@),
        v => Err(mismatch(Field::OptionalDepends, Wanted::List, v)),
    }
}

/// Reads the optional dependency that a value stands for.
pub fn read_optional(v: &Dynamic) -> (r: Result<RawOptionalDepends, TypeError>)
    ensures
        r == optional_of(*v),
{
    let t = match v {
        Dynamic::Table(t) => t,
        _ => {
            return Err(
                TypeError {
                    field: Field::OptionalDepends,
                    wanted: Wanted::Table,
                    found: v.kind(),
                },
            );
        },
    };
    let name = match text_field(t, Field::Name) {
        Err(e) => {
            return Err(e);
        },
        Ok(None) => {
            return Err(
                TypeError { field: Field::Name, wanted: Wanted::Text, found: Kind::Nothing },
            );
        },
        Ok(Some(name)) => name,
    };
    let description = match text_field(t, Field::Description) {
        Err(e) => {
            return Err(e);
        },
        Ok(d) => d,
    };
    Ok(RawOptionalDepends { name, description })
}

/// Reads the optional dependencies of a table.
pub fn read_optionals(entries: &Vec<(String, Dynamic)>) -> (r: Result<
    Vec<RawOptionalDepends>,
    TypeError,
>)
    ensures
        match r {
            Ok(list) => optionals_at(entries@) == Ok::<Seq<RawOptionalDepends>, TypeError>(list@),
            Err(e) => optionals_at(entries@) == Err::<Seq<RawOptionalDepends>, TypeError>(e),
        },
{
    let mut out: Vec<RawOptionalDepends> = Vec::new();
    let list = match lookup(entries, Field::OptionalDepends.key()) {
        None => {
            proof {
                assert(out@ =~= Seq::<RawOptionalDepends>::empty());
            }
            return Ok(out);
        },
        Some(Dynamic::List(list)) => list,
        Some(v) => {
            return Err(
                TypeError {
                    field: Field::OptionalDepends,
                    wanted: Wanted::List,
                    found: v.kind(),
                },
            );
        },
    };
    let mut i: usize = 0;
    proof {
        assert(list@.skip(0) == list@);
        if optionals_of(list@) is Ok {
            assert(out@ + optionals_of(list@)->Ok_0 =~= optionals_of(list@)->Ok_0);
        }
    }
    while i < list.len()
        invariant
            i <= list.len(),
            value_at(entries@, key_of(Field::OptionalDepends)) == Dynamic::List(*list),
            optionals_of(list@) == put_before(out@, optionals_of(list@.skip(i as int))),
        decreases list.len() - i,
    {
        let ghost rest = optionals_of(list@.skip(i + 1));
        proof {
            assert(list@.skip(i as int)[0] == list@[i as int]);
            assert(list@.skip(i as int).drop_first() == list@.skip(i + 1));
        }
        let x = match read_optional(&list[i]) {
            Ok(x) => x,
            Err(e) => {
                return Err(e);
            },
        };
        proof {
            if rest is Ok {
                assert(out@.push(x) + rest->Ok_0 =~= out@ + (seq![x] + rest->Ok_0));
            }
        }
        out.push(x);
        i += 1;
    }
    proof {
        assert(out@ + Seq::<RawOptionalDepends>::empty() =~= out@);
    }
    Ok(out)
}

/// The source file that a value stands for: a table whose fields are
/// read in this order: the address, the path, the name, the two digests,
/// and the two words on the check and on the unpacking. The first field
/// that is not of its type is the error.
pub open spec fn file_of(v: Dynamic) -> Result<RawSourceFile, TypeError> {
    match v {
        Dynamic::Table(table) => {
            let t = table@;
            if text_at(t, Field::Url) is Err {
                Err(text_at(t, Field::Url)->Err_0)
            } else if text_at(t, Field::Path) is Err {
                Err(text_at(t, Field::Path)->Err_0)
            } else if text_at(t, Field::Rename) is Err {
                Err(text_at(t, Field::Rename)->Err_0)
            } else if text_at(t, Field::Sha256sum) is Err {
                Err(text_at(t, Field::Sha256sum)->Err_0)
            } else if text_at(t, Field::Sha512sum) is Err {
                Err(text_at(t, Field::Sha512sum)->Err_0)
            } else if flag_at(t, Field::SkipChecksum) is Err {
                Err(flag_at(t, Field::SkipChecksum)->Err_0)
            } else if flag_at(t, Field::Extract) is Err {
                Err(flag_at(t, Field::Extract)->Err_0)
            } else {
                Ok(
                    RawSourceFile {
                        url: text_at(t, Field::Url)->Ok_0,
                        path: text_at(t, Field::Path)->Ok_0,
                        rename: text_at(t, Field::Rename)->Ok_0,
                        sha256sum: text_at(t, Field::Sha256sum)->Ok_0,
                        sha512sum: text_at(t, Field::Sha512sum)->Ok_0,
                        skip_checksum: flag_at(t, Field::SkipChecksum)->Ok_0,
                        extract: flag_at(t, Field::Extract)->Ok_0,
                    },
                )
            }
        },
        _ => Err(mismatch(Field::Source, Wanted::Table, v)),
    }
}

/// The source files that a list holds. The first member that stands for
/// none is the error.
pub open spec fn files_of(list: Seq<Dynamic>) -> Result<Seq<RawSourceFile>, TypeError>
    decreases list.len(),
{
    if list.len() == 0 {
        Ok(Seq::empty())
    } else {
        match file_of(list[0]) {
            Ok(x) => put_before(seq![x], files_of(list.drop_first())),
            Err(e) => Err(e),
        }
    }
}

/// The source files of a table; none where the field is left out.
pub open spec fn files_at(entries: Seq<(String, Dynamic)>) -> Result<Seq<RawSourceFile>, TypeError> {
    match value_at(entries, key_of(Field::Source)) {
        Dynamic::Unit => Ok(Seq::empty()),
        Dynamic::List(list) => files_of(list@),
        v => Err(mismatch(Field::Source, Wanted::List, v)),
    }
}

/// Reads the source file that a value stands for.
pub fn read_file(v: &Dynamic) -> (r: Result<RawSourceFile, TypeError>)
    ensures
        r == file_of(*v),
{
    let t = match v {
        Dynamic::Table(t) => t,
        _ => {
            return Err(TypeError { field: Field::Source, wanted: Wanted::Table, found: v.kind() });
        },
    };
    let url = match text_field(t, Field::Url) {
        Ok(x) => x,
        Err(e) => {
            return Err(e);
        },
    };
    let path = match text_field(t, Field::Path) {
        Ok(x) => x,
        Err(e) => {
            return Err(e);
        },
    };
    let rename = match text_field(t, Field::Rename) {
        Ok(x) => x,
        Err(e) => {
            return Err(e);
        },
    };
    let sha256sum = match text_field(t, Field::Sha256sum) {
        Ok(x) => x,
        Err(e) => {
            return Err(e);
        },
    };
    let sha512sum = match text_field(t, Field::Sha512sum) {
        Ok(x) => x,
        Err(e) => {
            return Err(e);
        },
    };
    let skip_checksum = match flag_field(t, Field::SkipChecksum) {
        Ok(x) => x,
        Err(e) => {
            return Err(e);
        },
    };
    let extract = match flag_field(t, Field::Extract) {
        Ok(x) => x,
        Err(e) => {
            return Err(e);
        },
    };
    Ok(RawSourceFile { url, path, rename, sha256sum, sha512sum, skip_checksum, extract })
}

/// Reads the source files of a table.
pub fn read_files(entries: &Vec<(String, Dynamic)>) -> (r: Result<Vec<RawSourceFile>, TypeError>)
    ensures
        match r {
            Ok(list) => files_at(entries@) == Ok::<Seq<RawSourceFile>, TypeError>(list@),
            Err(e) => files_at(entries@) == Err::<Seq<RawSourceFile>, TypeError>(e),
        },
{
    let mut out: Vec<RawSourceFile> = Vec::new();
    let list = match lookup(entries, Field::Source.key()) {
        None => {
            proof {
                assert(out@ =~= Seq::<RawSourceFile>::empty());
            }
            return Ok(out);
        },
        Some(Dynamic::List(list)) => list,
        Some(v) => {
            return Err(TypeError { field: Field::Source, wanted: Wanted::List, found: v.kind() });
        },
    };
    let mut i: usize = 0;
    proof {
        assert(list@.skip(0) == list@);
        if files_of(list@) is Ok {
            assert(out@ + files_of(list@)->Ok_0 =~= files_of(list@)->Ok_0);
        }
    }
    while i < list.len()
        invariant
            i <= list.len(),
            value_at(entries@, key_of(Field::Source)) == Dynamic::List(*list),
            files_of(list@) == put_before(out@, files_of(list@.skip(i as int))),
        decreases list.len() - i,
    {
        let ghost rest = files_of(list@.skip(i + 1));
        proof {
            assert(list@.skip(i as int)[0] == list@[i as int]);
            assert(list@.skip(i as int).drop_first() == list@.skip(i + 1));
        }
        let x = match read_file(&list[i]) {
            Ok(x) => x,
            Err(e) => {
                return Err(e);
            },
        };
        proof {
            if rest is Ok {
                assert(out@.push(x) + rest->Ok_0 =~= out@ + (seq![x] + rest->Ok_0));
            }
        }
        out.push(x);
        i += 1;
    }
    proof {
        assert(out@ + Seq::<RawSourceFile>::empty() =~= out@);
    }
    Ok(out)
}

/// The texts of a list that may be left out: none where it is.
pub open spec fn texts_or_none(texts: Option<Seq<String>>) -> Seq<String> {
    match texts {
        Some(s) => s,
        None => Seq::empty(),
    }
}

/// The error of the first field of a description that is not of its
/// type. The fields are read in this order: the name, the description,
/// the version, the architectures, the homepage, the dependencies, the
/// optional dependencies.
pub open spec fn info_type_error(t: Seq<(String, Dynamic)>) -> Option<TypeError> {
    if text_at(t, Field::Name) is Err {
        Some(text_at(t, Field::Name)->Err_0)
    } else if text_at(t, Field::Description) is Err {
        Some(text_at(t, Field::Description)->Err_0)
    } else if text_at(t, Field::Version) is Err {
        Some(text_at(t, Field::Version)->Err_0)
    } else if texts_at(t, Field::Architecture) is Err {
        Some(texts_at(t, Field::Architecture)->Err_0)
    } else if text_at(t, Field::Homepage) is Err {
        Some(text_at(t, Field::Homepage)->Err_0)
    } else if texts_at(t, Field::Depends) is Err {
        Some(texts_at(t, Field::Depends)->Err_0)
    } else if optionals_at(t) is Err {
        Some(optionals_at(t)->Err_0)
    } else {
        None
    }
}

/// Whether the description `info` holds what the table `t` gives: every
/// field is of its type, and each field of `info` is what the table
/// holds under it.
pub open spec fn info_reads(info: RawPackageInfo, t: Seq<(String, Dynamic)>) -> bool {
    &&& info_type_error(t) is None
    &&& text_at(t, Field::Name) == Ok::<Option<String>, TypeError>(info.name)
    &&& text_at(t, Field::Description) == Ok::<Option<String>, TypeError>(info.description)
    &&& text_at(t, Field::Version) == Ok::<Option<String>, TypeError>(info.version)
    &&& match (info.architecture, texts_at(t, Field::Architecture)) {
        (Some(a), Ok(Some(s))) => a@ == s,
        (None, Ok(None)) => true,
        _ => false,
    }
    &&& text_at(t, Field::Homepage) == Ok::<Option<String>, TypeError>(info.homepage)
    &&& info.depends@ == texts_or_none(texts_at(t, Field::Depends)->Ok_0)
    &&& optionals_at(t) == Ok::<Seq<RawOptionalDepends>, TypeError>(info.optional_depends@)
}

/// Reads the description that a table gives.
pub fn read_info(t: &Vec<(String, Dynamic)>) -> (r: Result<RawPackageInfo, TypeError>)
    ensures
        match r {
            Ok(info) => info_reads(info, t@),
            Err(e) => info_type_error(t@) == Some(e),
        },
{
    let name = match text_field(t, Field::Name) {
        Ok(x) => x,
        Err(e) => {
            return Err(e);
        },
    };
    let description = match text_field(t, Field::Description) {
        Ok(x) => x,
        Err(e) => {
            return Err(e);
        },
    };
    let version = match text_field(t, Field::Version) {
        Ok(x) => x,
        Err(e) => {
            return Err(e);
        },
    };
    let architecture = match texts_field(t, Field::Architecture) {
        Ok(x) => x,
        Err(e) => {
            return Err(e);
        },
    };
    let homepage = match text_field(t, Field::Homepage) {
        Ok(x) => x,
        Err(e) => {
            return Err(e);
        },
    };
    let depends = match texts_field(t, Field::Depends) {
        Ok(Some(x)) => x,
        Ok(None) => Vec::new(),
        Err(e) => {
            return Err(e);
        },
    };
    let optional_depends = match read_optionals(t) {
        Ok(x) => x,
        Err(e) => {
            return Err(e);
        },
    };
    proof {
        if texts_at(t@, Field::Depends)->Ok_0 is None {
            assert(depends@ =~= Seq::<String>::empty());
        }
    }
    Ok(
        RawPackageInfo {
            name,
            description,
            version,
            architecture,
            homepage,
            depends,
            optional_depends,
        },
    )
}

/// The error of the first field of a package that is not of its type: the
/// package must be a table, then its description is read, then its stage
/// `pack`.
pub open spec fn package_type_error(v: Dynamic) -> Option<TypeError> {
    match v {
        Dynamic::Table(t) => if info_type_error(t@) is Some {
            info_type_error(t@)
        } else if stage_at(t@, Field::Pack) is Err {
            Some(stage_at(t@, Field::Pack)->Err_0)
        } else {
            None
        },
        _ => Some(mismatch(Field::Packages, Wanted::Table, v)),
    }
}

/// Whether the package `p` holds what the value `v` gives.
pub open spec fn package_reads(p: RawPackage, v: Dynamic) -> bool {
    &&& v is Table
    &&& package_type_error(v) is None
    &&& info_reads(p.info, v->Table_0@)
    &&& stage_at(v->Table_0@, Field::Pack) == Ok::<Option<Execution>, TypeError>(p.pack)
}

/// Reads the package that a value gives.
pub fn read_package(v: &Dynamic) -> (r: Result<RawPackage, TypeError>)
    ensures
        match r {
            Ok(p) => package_reads(p, *v),
            Err(e) => package_type_error(*v) == Some(e),
        },
{
    let t = match v {
        Dynamic::Table(t) => t,
        _ => {
            return Err(
                TypeError { field: Field::Packages, wanted: Wanted::Table, found: v.kind() },
            );
        },
    };
    let info = match read_info(t) {
        Ok(x) => x,
        Err(e) => {
            return Err(e);
        },
    };
    let pack = match stage_field(t, Field::Pack) {
        Ok(x) => x,
        Err(e) => {
            return Err(e);
        },
    };
    Ok(RawPackage { info, pack })
}

/// The error of the first package of a list that has one.
pub open spec fn packages_type_error(list: Seq<Dynamic>) -> Option<TypeError>
    decreases list.len(),
{
    if list.len() == 0 {
        None
    } else if package_type_error(list[0]) is Some {
        package_type_error(list[0])
    } else {
        packages_type_error(list.drop_first())
    }
}

/// Whether the packages `ps` hold what the values `list` give, one by
/// one.
pub open spec fn packages_read(ps: Seq<RawPackage>, list: Seq<Dynamic>) -> bool {
    ps.len() == list.len() && forall|i: int|
        0 <= i < list.len() ==> package_reads(#[trigger] ps[i], list[i])
}

/// The error of the table of packages, if it has one: it must be a list
/// where it is given at all, and each of its members a package.
pub open spec fn table_type_error(t: Seq<(String, Dynamic)>) -> Option<TypeError> {
    match value_at(t, key_of(Field::Packages)) {
        Dynamic::Unit => None,
        Dynamic::List(list) => packages_type_error(list@),
        v => Some(mismatch(Field::Packages, Wanted::List, v)),
    }
}

/// Whether the table of packages `ps` holds what the table `t` gives.
pub open spec fn table_reads(ps: Option<Vec<RawPackage>>, t: Seq<(String, Dynamic)>) -> bool {
    match (ps, value_at(t, key_of(Field::Packages))) {
        (None, Dynamic::Unit) => true,
        (Some(ps), Dynamic::List(list)) => packages_read(ps@, list@),
        _ => false,
    }
}

/// Reads the table of packages, if there is one.
pub fn read_packages(t: &Vec<(String, Dynamic)>) -> (r: Result<Option<Vec<RawPackage>>, TypeError>)
    ensures
        match r {
            Ok(ps) => table_type_error(t@) is None && table_reads(ps, t@),
            Err(e) => table_type_error(t@) == Some(e),
        },
{
    let list = match lookup(t, Field::Packages.key()) {
        None => {
            return Ok(None);
        },
        Some(Dynamic::List(list)) => list,
        Some(v) => {
            return Err(
                TypeError { field: Field::Packages, wanted: Wanted::List, found: v.kind() },
            );
        },
    };
    let mut out: Vec<RawPackage> = Vec::new();
    let mut i: usize = 0;
    proof {
        assert(list@.skip(0) == list@);
    }
    while i < list.len()
        invariant
            i <= list.len(),
            out@.len() == i,
            value_at(t@, key_of(Field::Packages)) == Dynamic::List(*list),
            packages_type_error(list@) == packages_type_error(list@.skip(i as int)),
            forall|k: int| 0 <= k < i ==> package_reads(#[trigger] out@[k], list@[k]),
        decreases list.len() - i,
    {
        proof {
            assert(list@.skip(i as int)[0] == list@[i as int]);
            assert(list@.skip(i as int).drop_first() == list@.skip(i + 1));
        }
        let p = match read_package(&list[i]) {
            Ok(p) => p,
            Err(e) => {
                return Err(e);
            },
        };
        out.push(p);
        i += 1;
    }
    Ok(Some(out))
}

/// The error of the first field of a recipe that is not of its type. The
/// recipe must be a table. Then its description is read, what its build
/// depends on, its source files, its stages in their order and at last
/// its table of packages.
pub open spec fn recipe_type_error(v: Dynamic) -> Option<TypeError> {
    match v {
        Dynamic::Table(table) => {
            let t = table@;
            if info_type_error(t) is Some {
                info_type_error(t)
            } else if texts_at(t, Field::BuildDepends) is Err {
                Some(texts_at(t, Field::BuildDepends)->Err_0)
            } else if files_at(t) is Err {
                Some(files_at(t)->Err_0)
            } else if stage_at(t, Field::Prepare) is Err {
                Some(stage_at(t, Field::Prepare)->Err_0)
            } else if stage_at(t, Field::Build) is Err {
                Some(stage_at(t, Field::Build)->Err_0)
            } else if stage_at(t, Field::Check) is Err {
                Some(stage_at(t, Field::Check)->Err_0)
            } else if stage_at(t, Field::Pack) is Err {
                Some(stage_at(t, Field::Pack)->Err_0)
            } else {
                table_type_error(t)
            }
        },
        _ => Some(mismatch(Field::Recipe, Wanted::Table, v)),
    }
}

/// Whether the record `raw` holds what the value `v` gives as a recipe:
/// every field is of its type, and each field of `raw` is what the value
/// holds under it.
pub open spec fn recipe_reads(raw: RawSource, v: Dynamic) -> bool {
    &&& v is Table
    &&& recipe_type_error(v) is None
    &&& info_reads(raw.info, v->Table_0@)
    &&& raw.build_depends@ == texts_or_none(texts_at(v->Table_0@, Field::BuildDepends)->Ok_0)
    &&& files_at(v->Table_0@) == Ok::<Seq<RawSourceFile>, TypeError>(raw.source@)
    &&& stage_at(v->Table_0@, Field::Prepare) == Ok::<Option<Execution>, TypeError>(raw.prepare)
    &&& stage_at(v->Table_0@, Field::Build) == Ok::<Option<Execution>, TypeError>(raw.build)
    &&& stage_at(v->Table_0@, Field::Check) == Ok::<Option<Execution>, TypeError>(raw.check)
    &&& stage_at(v->Table_0@, Field::Pack) == Ok::<Option<Execution>, TypeError>(raw.pack)
    &&& table_reads(raw.packages, v->Table_0@)
}

/// Reads the record of a recipe from the value that a script presents.
pub fn read_recipe(v: &Dynamic) -> (r: Result<RawSource, TypeError>)
    ensures
        match r {
            Ok(raw) => recipe_reads(raw, *v),
            Err(e) => recipe_type_error(*v) == Some(e),
        },
{
    let t = match v {
        Dynamic::Table(t) => t,
        _ => {
            return Err(TypeError { field: Field::Recipe, wanted: Wanted::Table, found: v.kind() });
        },
    };
    let info = match read_info(t) {
        Ok(x) => x,
        Err(e) => {
            return Err(e);
        },
    };
    let build_depends = match texts_field(t, Field::BuildDepends) {
        Ok(Some(x)) => x,
        Ok(None) => Vec::new(),
        Err(e) => {
            return Err(e);
        },
    };
    let source = match read_files(t) {
        Ok(x) => x,
        Err(e) => {
            return Err(e);
        },
    };
    let prepare = match stage_field(t, Field::Prepare) {
        Ok(x) => x,
        Err(e) => {
            return Err(e);
        },
    };
    let build = match stage_field(t, Field::Build) {
        Ok(x) => x,
        Err(e) => {
            return Err(e);
        },
    };
    let check = match stage_field(t, Field::Check) {
        Ok(x) => x,
        Err(e) => {
            return Err(e);
        },
    };
    let pack = match stage_field(t, Field::Pack) {
        Ok(x) => x,
        Err(e) => {
            return Err(e);
        },
    };
    let packages = match read_packages(t) {
        Ok(x) => x,
        Err(e) => {
            return Err(e);
        },
    };
    proof {
        if texts_at(t@, Field::BuildDepends)->Ok_0 is None {
            assert(build_depends@ =~= Seq::<String>::empty());
        }
    }
    Ok(RawSource { info, build_depends, source, prepare, build, check, pack, packages })
}

} // verus!
