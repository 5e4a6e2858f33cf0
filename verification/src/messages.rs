//! The words in which the errors of the library are told.

use crate::arch::EmptyArchList;
use crate::dynamic::{key_of, Kind, TypeError, Wanted};
use crate::names::ParseNameError;
use crate::pack::NotPrivileged;
use crate::reading::RecipeError;
use crate::script::ScopeClosed;
use crate::source_file::SourceFileError;
use crate::text::{append_chars, chars_of, copy_str, same_chars, string_of};
use crate::version::{EpochError, ParseVersionError};
use vstd::prelude::*;

verus! {

/// The text `head`, the character `c` and the text `tail`, one after the
/// other.
pub open spec fn around(head: Seq<char>, c: char, tail: Seq<char>) -> Seq<char> {
    head + seq![c] + tail
}

fn put_around(head: &str, c: char, tail: &str) -> (r: String)
    ensures
        r@ == around(head@, c, tail@),
{
    let mut out = chars_of(head);
    out.push(c);
    let t = chars_of(tail);
    append_chars(&mut out, &t);
    string_of(&out)
}

fn put_together(head: &str, tail: &str) -> (r: String)
    ensures
        r@ == head@ + tail@,
{
    let mut out = chars_of(head);
    let t = chars_of(tail);
    append_chars(&mut out, &t);
    string_of(&out)
}

impl ParseNameError {
    /// What is wrong with the name.
    pub open spec fn message_of(&self) -> Seq<char> {
        around("package name contains invalid character `"@, self.0, "`"@)
    }

    /// What is wrong with the name.
    pub fn message(&self) -> (r: String)
        ensures
            r@ == self.message_of(),
    {
        put_around("package name contains invalid character `", self.0, "`")
    }
}

impl EpochError {
    /// What is wrong with the epoch.
    pub open spec fn message_of(&self) -> Seq<char> {
        match self {
            EpochError::Empty => "cannot parse integer from empty string"@,
            EpochError::InvalidDigit => "invalid digit found in string"@,
            EpochError::Overflow => "number too large to fit in target type"@,
        }
    }

    /// What is wrong with the epoch.
    pub fn message(&self) -> (r: String)
        ensures
            r@ == self.message_of(),
    {
        match self {
            EpochError::Empty => copy_str("cannot parse integer from empty string"),
            EpochError::InvalidDigit => copy_str("invalid digit found in string"),
            EpochError::Overflow => copy_str("number too large to fit in target type"),
        }
    }
}

impl ParseVersionError {
    /// What is wrong with the version.
    pub open spec fn message_of(&self) -> Seq<char> {
        match self {
            ParseVersionError::Epoch(e) => "failed to parse epoch: "@ + e.message_of(),
            ParseVersionError::Upstream(c) => around(
                "upstream version contains invalid character `"@,
                *c,
                "`"@,
            ),
            ParseVersionError::Revision(c) => around(
                "revision contains invalid character `"@,
                *c,
                "`"@,
            ),
        }
    }

    /// What is wrong with the version.
    pub fn message(&self) -> (r: String)
        ensures
            r@ == self.message_of(),
    {
        match self {
            ParseVersionError::Epoch(e) => {
                let inner = e.message();
                put_together("failed to parse epoch: ", inner.as_str())
            },
            ParseVersionError::Upstream(c) => put_around(
                "upstream version contains invalid character `",
                *c,
                "`",
            ),
            ParseVersionError::Revision(c) => put_around(
                "revision contains invalid character `",
                *c,
                "`",
            ),
        }
    }
}

impl EmptyArchList {
    /// What is wrong with the list.
    pub fn message(&self) -> (r: String)
        ensures
            r@ == "invalid length 0, expected one or more architecture"@,
    {
        copy_str("invalid length 0, expected one or more architecture")
    }
}

impl SourceFileError {
    /// What is wrong with the source file.
    pub open spec fn message_of(&self) -> Seq<char> {
        match self {
            SourceFileError::LocationConflict => "exactly one of `url` and `path` must be given"@,
            SourceFileError::InvalidUrl => "invalid address"@,
            SourceFileError::InvalidDigest => "invalid digest"@,
            SourceFileError::NoFileName => "no file name given"@,
            SourceFileError::NoChecksum => "no checksum given or `skip_checksum`"@,
        }
    }

    /// What is wrong with the source file.
    pub fn message(&self) -> (r: String)
        ensures
            r@ == self.message_of(),
    {
        match self {
            SourceFileError::LocationConflict => copy_str(
                "exactly one of `url` and `path` must be given",
            ),
            SourceFileError::InvalidUrl => copy_str("invalid address"),
            SourceFileError::InvalidDigest => copy_str("invalid digest"),
            SourceFileError::NoFileName => copy_str("no file name given"),
            SourceFileError::NoChecksum => copy_str("no checksum given or `skip_checksum`"),
        }
    }
}

/// The words for the type that a field must be of.
pub open spec fn wanted_words(wanted: Wanted) -> Seq<char> {
    match wanted {
        Wanted::Flag => "a boolean"@,
        Wanted::Text => "a string"@,
        Wanted::Stage => "a string or a function"@,
        Wanted::List => "an array"@,
        Wanted::Table => "a map"@,
    }
}

/// The words for the type of a value.
pub open spec fn kind_words(kind: Kind) -> Seq<char> {
    match kind {
        Kind::Nothing => "nothing"@,
        Kind::Flag => "a boolean"@,
        Kind::Text => "a string"@,
        Kind::Function => "a function"@,
        Kind::List => "an array"@,
        Kind::Table => "a map"@,
        Kind::Other => "a value of another type"@,
    }
}

fn words_for_wanted(wanted: Wanted) -> (r: &'static str)
    ensures
        r@ == wanted_words(wanted),
{
    match wanted {
        Wanted::Flag => "a boolean",
        Wanted::Text => "a string",
        Wanted::Stage => "a string or a function",
        Wanted::List => "an array",
        Wanted::Table => "a map",
    }
}

fn words_for_kind(kind: Kind) -> (r: &'static str)
    ensures
        r@ == kind_words(kind),
{
    match kind {
        Kind::Nothing => "nothing",
        Kind::Flag => "a boolean",
        Kind::Text => "a string",
        Kind::Function => "a function",
        Kind::List => "an array",
        Kind::Table => "a map",
        Kind::Other => "a value of another type",
    }
}

impl TypeError {
    /// What is wrong with the field.
    pub open spec fn message_of(&self) -> Seq<char> {
        "field `"@ + key_of(self.field) + "` must be "@ + wanted_words(self.wanted) + ", not "@
            + kind_words(self.found)
    }

    /// What is wrong with the field.
    pub fn message(&self) -> (r: String)
        ensures
            r@ == self.message_of(),
    {
        let mut out = chars_of("field `");
        let key = chars_of(self.field.key());
        append_chars(&mut out, &key);
        let must = chars_of("` must be ");
        append_chars(&mut out, &must);
        let wanted = chars_of(words_for_wanted(self.wanted));
        append_chars(&mut out, &wanted);
        let not = chars_of(", not ");
        append_chars(&mut out, &not);
        let found = chars_of(words_for_kind(self.found));
        append_chars(&mut out, &found);
        string_of(&out)
    }
}

impl RecipeError {
    /// What is wrong with the recipe.
    pub open spec fn message_of(&self) -> Seq<char> {
        match self {
            RecipeError::Type(e) => e.message_of(),
            RecipeError::MissingName => "missing field `name`"@,
            RecipeError::MissingDescription => "missing field `description`"@,
            RecipeError::MissingVersion => "missing field `version`"@,
            RecipeError::MissingArchitecture => "missing field `architecture`"@,
            RecipeError::Name(e) => e.message_of(),
            RecipeError::Version(e) => e.message_of(),
            RecipeError::EmptyArchitecture =>
                "invalid length 0, expected one or more architecture"@,
            RecipeError::ArchitectureConflict =>
                "architecture for package conflicts between `all` and other platforms"@,
            RecipeError::InvalidHomepage => "invalid address in field `homepage`"@,
            RecipeError::SourceFile(e) => e.message_of(),
            RecipeError::PackConflict => "field `pack` and `packages` conflicts"@,
            RecipeError::DuplicatePackage(n) => "duplicate package '"@ + n@ + "'"@,
            RecipeError::NoPackage => "no package specified"@,
            RecipeError::SourceDefinedTwice => "can only define source once"@,
            RecipeError::SourceNotDefined => "source not defined; define source before packages"@,
            RecipeError::NoSource => "no source specified"@,
        }
    }

    /// What is wrong with the recipe.
    pub fn message(&self) -> (r: String)
        ensures
            r@ == self.message_of(),
    {
        match self {
            RecipeError::Type(e) => e.message(),
            RecipeError::MissingName => copy_str("missing field `name`"),
            RecipeError::MissingDescription => copy_str("missing field `description`"),
            RecipeError::MissingVersion => copy_str("missing field `version`"),
            RecipeError::MissingArchitecture => copy_str("missing field `architecture`"),
            RecipeError::Name(e) => e.message(),
            RecipeError::Version(e) => e.message(),
            RecipeError::EmptyArchitecture => copy_str(
                "invalid length 0, expected one or more architecture",
            ),
            RecipeError::ArchitectureConflict => copy_str(
                "architecture for package conflicts between `all` and other platforms",
            ),
            RecipeError::InvalidHomepage => copy_str("invalid address in field `homepage`"),
            RecipeError::SourceFile(e) => e.message(),
            RecipeError::PackConflict => copy_str("field `pack` and `packages` conflicts"),
            RecipeError::DuplicatePackage(n) => {
                let mut out = chars_of("duplicate package '");
                let name = chars_of(n.as_str());
                append_chars(&mut out, &name);
                out.push('\'');
                proof {
                    reveal_strlit("'");
                    assert("'"@ =~= seq!['\'']);
                }
                string_of(&out)
            },
            RecipeError::NoPackage => copy_str("no package specified"),
            RecipeError::SourceDefinedTwice => copy_str("can only define source once"),
            RecipeError::SourceNotDefined => copy_str(
                "source not defined; define source before packages",
            ),
            RecipeError::NoSource => copy_str("no source specified"),
        }
    }
}

impl NotPrivileged {
    /// What is wrong with the user.
    pub fn message(&self) -> (r: String)
        ensures
            r@ == "not running in fakeroot/root environment"@,
    {
        copy_str("not running in fakeroot/root environment")
    }
}

impl ScopeClosed {
    /// What is wrong with the call.
    pub fn message(&self) -> (r: String)
        ensures
            r@ == "`run` and `cd` can only be called while a stage runs"@,
    {
        copy_str("`run` and `cd` can only be called while a stage runs")
    }
}

/// The text that says that a source is not meant for an architecture.
pub open spec fn architecture_mismatch_of(arch: Seq<char>) -> Seq<char> {
    "source architecture does not contain `"@ + arch + seq!['`']
}

/// The text that says that a source is not meant for an architecture.
pub fn architecture_mismatch(arch: &str) -> (r: String)
    ensures
        r@ == architecture_mismatch_of(arch@),
{
    let mut out = chars_of("source architecture does not contain `");
    let a = chars_of(arch);
    append_chars(&mut out, &a);
    out.push('`');
    string_of(&out)
}

/// The line in which a failure is told: the summary of the failure and,
/// in brackets, its cause where one is known that says something else.
pub open spec fn report_of(summary: Seq<char>, cause: Option<Seq<char>>) -> Seq<char> {
    match cause {
        Some(c) if c != summary => summary + " ("@ + c + ")"@,
        _ => summary,
    }
}

/// The line in which a failure is told.
pub fn report(summary: &str, cause: Option<&str>) -> (r: String)
    ensures
        r@ == report_of(
            summary@,
            match cause {
                Some(c) => Some(c@),
                None => None,
            },
        ),
{
    let mut out = chars_of(summary);
    match cause {
        Some(c) => {
            let inner = chars_of(c);
            if !same_chars(&inner, &out) {
                let open = chars_of(" (");
                append_chars(&mut out, &open);
                append_chars(&mut out, &inner);
                let close = chars_of(")");
                append_chars(&mut out, &close);
            }
        },
        None => {},
    }
    string_of(&out)
}

} // verus!
