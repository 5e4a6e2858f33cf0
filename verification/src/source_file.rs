//! The files that a source is built from: where each one comes from, under
//! which name it is kept and by which digests it is checked.

use crate::checksum::{hex_decode, ChecksumKind};
use crate::paths::{
    final_component, final_component_of, last_segment, last_segment_of, url_path, url_path_of,
};
use crate::text::copy_str;
use vstd::prelude::*;

verus! {

/// An address from which a file is fetched, with the path that the
/// address holds.
#[derive(Debug)]
pub struct HttpLocation {
    url: String,
    path: String,
}

impl HttpLocation {
    #[verifier::type_invariant]
    spec fn well_formed(&self) -> bool {
        url_path_of(self.url@) == Some(self.path@)
    }

    /// The text of the address.
    pub closed spec fn url_text(&self) -> Seq<char> {
        self.url@
    }

    /// The path of the address.
    pub closed spec fn path_text(&self) -> Seq<char> {
        self.path@
    }

    /// Reads an address, which the text must be.
    pub fn parse(url: &str) -> (r: Option<HttpLocation>)
        ensures
            match r {
                Some(h) => h.url_text() == url@ && Some(h.path_text()) == url_path_of(url@),
                None => url_path_of(url@) is None,
            },
    {
        match url_path(url) {
            Ok(path) => Some(HttpLocation { url: copy_str(url), path }),
            Err(_) => None,
        }
    }

    /// The text of the address.
    pub fn url(&self) -> (r: &str)
        ensures
            r@ == self.url_text(),
            url_path_of(self.url_text()) == Some(self.path_text()),
    {
        proof {
            use_type_invariant(self);
        }
        self.url.as_str()
    }

    /// The path of the address.
    pub fn path(&self) -> (r: &str)
        ensures
            r@ == self.path_text(),
    {
        self.path.as_str()
    }

    fn duplicate(&self) -> (r: HttpLocation)
        ensures
            r.url_text() == self.url_text(),
            r.path_text() == self.path_text(),
    {
        proof {
            use_type_invariant(self);
        }
        HttpLocation { url: self.url.clone(), path: self.path.clone() }
    }
}

/// Where a source file comes from.
#[derive(Debug)]
pub enum SourceLocation {
    /// An address from which the file is fetched.
    Http(HttpLocation),
    /// The path of a file on this machine.
    Local(String),
}

impl SourceLocation {
    /// The file name that the location ends in: the last segment of the
    /// path of an address, or the final component of a path.
    pub open spec fn file_name_of(&self) -> Option<Seq<char>> {
        match self {
            SourceLocation::Http(h) => last_segment_of(h.path_text()),
            SourceLocation::Local(p) => final_component_of(p@),
        }
    }

    /// The text of the location.
    pub open spec fn text_of(&self) -> Seq<char> {
        match self {
            SourceLocation::Http(h) => h.url_text(),
            SourceLocation::Local(p) => p@,
        }
    }

    /// The file name that the location ends in, if it ends in one.
    pub fn file_name(&self) -> (r: Option<String>)
        ensures
            match r {
                Some(n) => self.file_name_of() == Some(n@),
                None => self.file_name_of() is None,
            },
    {
        match self {
            SourceLocation::Http(h) => last_segment(h.path()),
            SourceLocation::Local(p) => final_component(p.as_str()),
        }
    }

    /// The text of the location.
    pub fn text(&self) -> (r: &str)
        ensures
            r@ == self.text_of(),
    {
        match self {
            SourceLocation::Http(h) => h.url(),
            SourceLocation::Local(p) => p.as_str(),
        }
    }

    /// Whether the file is fetched from an address.
    pub fn is_http(&self) -> (r: bool)
        ensures
            r == (self is Http),
    {
        match self {
            SourceLocation::Http(_) => true,
            SourceLocation::Local(_) => false,
        }
    }

    fn duplicate(&self) -> (r: SourceLocation)
        ensures
            r.text_of() == self.text_of(),
            r.file_name_of() == self.file_name_of(),
            r is Http == self is Http,
    {
        match self {
            SourceLocation::Http(h) => SourceLocation::Http(h.duplicate()),
            SourceLocation::Local(p) => SourceLocation::Local(p.clone()),
        }
    }
}

/// Why a source file of a recipe is refused.
#[derive(Clone, Copy, Debug, PartialEq, Eq, Structural)]
pub enum SourceFileError {
    /// Both an address and a path are given, or neither.
    LocationConflict,
    /// The address is none.
    InvalidUrl,
    /// A digest is no hexadecimal text.
    InvalidDigest,
    /// The file has no name: none is given, and the location ends in none.
    NoFileName,
    /// No digest is given and the check is not switched off.
    NoChecksum,
}

/// A source file as a recipe gives it, before anything is checked.
/// Where the recipe does not say whether the check of the digests is
/// switched off, it is not; where it does not say whether an archive is
/// unpacked, it is.
#[derive(Debug)]
pub struct RawSourceFile {
    pub url: Option<String>,
    pub path: Option<String>,
    pub rename: Option<String>,
    pub sha256sum: Option<String>,
    pub sha512sum: Option<String>,
    pub skip_checksum: Option<bool>,
    pub extract: Option<bool>,
}

/// What a recipe says on a question that it may leave open: its word, or
/// else the word `default`.
pub open spec fn flag_of(word: Option<bool>, default: bool) -> bool {
    match word {
        Some(b) => b,
        None => default,
    }
}

fn read_flag(word: Option<bool>, default: bool) -> (r: bool)
    ensures
        r == flag_of(word, default),
{
    match word {
        Some(b) => b,
        None => default,
    }
}

/// A source file as a mathematical value.
pub struct SourceFileView {
    pub is_http: bool,
    pub location: Seq<char>,
    pub rename: Option<Seq<char>>,
    pub sha256: Option<Seq<u8>>,
    pub sha512: Option<Seq<u8>>,
    pub skip_checksum: bool,
    pub extract: bool,
    pub file_name: Seq<char>,
}

/// The name under which a file is kept: the name it is given, or else the
/// file name that its location ends in.
pub open spec fn resolved_name(rename: Option<Seq<char>>, located: Option<Seq<char>>) -> Option<
    Seq<char>,
> {
    match rename {
        Some(r) => Some(r),
        None => located,
    }
}

/// The text of an optional string.
pub open spec fn text_of(s: Option<String>) -> Option<Seq<char>> {
    match s {
        Some(t) => Some(t@),
        None => None,
    }
}

/// The digest that an optional hexadecimal text stands for: nothing where
/// no text is given, and an error where the text stands for no bytes.
pub open spec fn digest_of(s: Option<String>) -> Result<Option<Seq<u8>>, SourceFileError> {
    match s {
        None => Ok(None),
        Some(t) => match hex_decode(t@) {
            Some(b) => Ok(Some(b)),
            None => Err(SourceFileError::InvalidDigest),
        },
    }
}

/// The file name in which the location of a raw source file ends, once
/// the location is known to be sound.
pub open spec fn located_name(raw: RawSourceFile) -> Option<Seq<char>> {
    match (raw.url, raw.path) {
        (Some(u), None) => match url_path_of(u@) {
            Some(p) => last_segment_of(p),
            None => None,
        },
        (None, Some(p)) => final_component_of(p@),
        _ => None,
    }
}

/// The source file that a raw one stands for, or the reason for which it
/// is refused. The location is checked first, then the digests, then the
/// name, then that there is a digest unless the check is switched off.
pub open spec fn source_file_of(raw: RawSourceFile) -> Result<SourceFileView, SourceFileError> {
    if (raw.url is Some) == (raw.path is Some) {
        Err(SourceFileError::LocationConflict)
    } else if raw.url is Some && url_path_of(raw.url->0@) is None {
        Err(SourceFileError::InvalidUrl)
    } else if digest_of(raw.sha256sum) is Err || digest_of(raw.sha512sum) is Err {
        Err(SourceFileError::InvalidDigest)
    } else {
        let name = resolved_name(text_of(raw.rename), located_name(raw));
        if name is None || name->0.len() == 0 {
            Err(SourceFileError::NoFileName)
        } else if raw.sha256sum is None && raw.sha512sum is None && !flag_of(
            raw.skip_checksum,
            false,
        ) {
            Err(SourceFileError::NoChecksum)
        } else {
            Ok(
                SourceFileView {
                    is_http: raw.url is Some,
                    location: if raw.url is Some {
                        raw.url->0@
                    } else {
                        raw.path->0@
                    },
                    rename: text_of(raw.rename),
                    sha256: digest_of(raw.sha256sum)->Ok_0,
                    sha512: digest_of(raw.sha512sum)->Ok_0,
                    skip_checksum: flag_of(raw.skip_checksum, false),
                    extract: flag_of(raw.extract, true),
                    file_name: name->0,
                },
            )
        }
    }
}

/// A source file without a digest is refused unless the recipe switches
/// the check off.
pub proof fn law_digest_required(raw: RawSourceFile)
    requires
        raw.sha256sum is None,
        raw.sha512sum is None,
        raw.skip_checksum != Some(true),
    ensures
        source_file_of(raw) is Err,
{
}

/// A source file: it has a name that is not empty, and a digest unless
/// the check is switched off.
#[derive(Debug)]
pub struct SourceFile {
    location: SourceLocation,
    rename: Option<String>,
    sha256: Option<crate::checksum::Hash>,
    sha512: Option<crate::checksum::Hash>,
    skip_checksum: bool,
    extract: bool,
    name: String,
}

fn read_digest(text: &Option<String>) -> (r: Result<Option<crate::checksum::Hash>, SourceFileError>)
    ensures
        match r {
            Ok(Some(h)) => digest_of(*text) == Ok::<Option<Seq<u8>>, SourceFileError>(Some(h@)),
            Ok(None) => digest_of(*text) == Ok::<Option<Seq<u8>>, SourceFileError>(None),
            Err(e) => digest_of(*text) == Err::<Option<Seq<u8>>, SourceFileError>(e),
        },
{
    match text {
        None => Ok(None),
        Some(t) => match crate::checksum::Hash::from_hex(t.as_str()) {
            Some(h) => Ok(Some(h)),
            None => Err(SourceFileError::InvalidDigest),
        },
    }
}

impl View for SourceFile {
    type V = SourceFileView;

    closed spec fn view(&self) -> SourceFileView {
        SourceFileView {
            is_http: self.location is Http,
            location: self.location.text_of(),
            rename: text_of(self.rename),
            sha256: match self.sha256 {
                Some(h) => Some(h@),
                None => None,
            },
            sha512: match self.sha512 {
                Some(h) => Some(h@),
                None => None,
            },
            skip_checksum: self.skip_checksum,
            extract: self.extract,
            file_name: self.name@,
        }
    }
}

/// What holds of every source file: its name is not empty, and it has a
/// digest unless the check is switched off.
pub open spec fn valid_source_file(v: SourceFileView) -> bool {
    &&& v.file_name.len() > 0
    &&& v.rename matches Some(r) ==> v.file_name == r
    &&& v.sha256 is Some || v.sha512 is Some || v.skip_checksum
}

impl SourceFile {
    #[verifier::type_invariant]
    spec fn well_formed(&self) -> bool {
        &&& valid_source_file(self@)
        &&& Some(self.name@) == resolved_name(text_of(self.rename), self.location.file_name_of())
    }

    /// Checks a source file of a recipe.
    pub fn from_raw(raw: &RawSourceFile) -> (r: Result<SourceFile, SourceFileError>)
        ensures
            match r {
                Ok(f) => source_file_of(*raw) == Ok::<SourceFileView, SourceFileError>(f@)
                    && valid_source_file(f@),
                Err(e) => source_file_of(*raw) == Err::<SourceFileView, SourceFileError>(e),
            },
    {
        let location = match (&raw.url, &raw.path) {
            (Some(u), None) => match HttpLocation::parse(u.as_str()) {
                Some(h) => SourceLocation::Http(h),
                None => {
                    return Err(SourceFileError::InvalidUrl);
                },
            },
            (None, Some(p)) => SourceLocation::Local(p.clone()),
            _ => {
                return Err(SourceFileError::LocationConflict);
            },
        };
        let sha256 = match read_digest(&raw.sha256sum) {
            Ok(d) => d,
            Err(e) => {
                return Err(e);
            },
        };
        let sha512 = match read_digest(&raw.sha512sum) {
            Ok(d) => d,
            Err(e) => {
                return Err(e);
            },
        };
        let name = match &raw.rename {
            Some(r) => Some(r.clone()),
            None => location.file_name(),
        };
        let name = match name {
            Some(n) => n,
            None => {
                return Err(SourceFileError::NoFileName);
            },
        };
        if name.as_str().unicode_len() == 0 {
            return Err(SourceFileError::NoFileName);
        }
        let skip_checksum = read_flag(raw.skip_checksum, false);
        if sha256.is_none() && sha512.is_none() && !skip_checksum {
            return Err(SourceFileError::NoChecksum);
        }
        let rename = match &raw.rename {
            Some(r) => Some(r.clone()),
            None => None,
        };
        Ok(
            SourceFile {
                location,
                rename,
                sha256,
                sha512,
                skip_checksum,
                extract: read_flag(raw.extract, true),
                name,
            },
        )
    }

    /// Where the file comes from.
    pub fn location(&self) -> (r: &SourceLocation)
        ensures
            r.text_of() == self@.location,
            r is Http == self@.is_http,
    {
        &self.location
    }

    /// The name that the recipe gives the file, if it gives one.
    pub fn rename(&self) -> (r: Option<&str>)
        ensures
            match r {
                Some(t) => self@.rename == Some(t@),
                None => self@.rename is None,
            },
    {
        match &self.rename {
            Some(r) => Some(r.as_str()),
            None => None,
        }
    }

    /// The name under which the file is kept.
    pub fn file_name(&self) -> (r: &str)
        ensures
            r@ == self@.file_name,
            r@.len() > 0,
    {
        proof {
            use_type_invariant(self);
        }
        self.name.as_str()
    }

    /// The digest of the kind `kind`, if the recipe gives one.
    pub fn checksum(&self, kind: ChecksumKind) -> (r: Option<&crate::checksum::Hash>)
        ensures
            match r {
                Some(h) => Some(h@) == match kind {
                    ChecksumKind::Sha256 => self@.sha256,
                    ChecksumKind::Sha512 => self@.sha512,
                },
                None => match kind {
                    ChecksumKind::Sha256 => self@.sha256 is None,
                    ChecksumKind::Sha512 => self@.sha512 is None,
                },
            },
    {
        match kind {
            ChecksumKind::Sha256 => match &self.sha256 {
                Some(h) => Some(h),
                None => None,
            },
            ChecksumKind::Sha512 => match &self.sha512 {
                Some(h) => Some(h),
                None => None,
            },
        }
    }

    /// Whether the check of the digests is switched off.
    pub fn skip_checksum(&self) -> (r: bool)
        ensures
            r == self@.skip_checksum,
    {
        self.skip_checksum
    }

    /// Whether the file is to be unpacked if it is an archive.
    pub fn extract(&self) -> (r: bool)
        ensures
            r == self@.extract,
    {
        self.extract
    }

    /// A copy of the source file.
    pub fn duplicate(&self) -> (r: SourceFile)
        ensures
            r@ == self@,
    {
        proof {
            use_type_invariant(self);
        }
        SourceFile {
            location: self.location.duplicate(),
            rename: match &self.rename {
                Some(r) => Some(r.clone()),
                None => None,
            },
            sha256: match &self.sha256 {
                Some(h) => Some(h.clone()),
                None => None,
            },
            sha512: match &self.sha512 {
                Some(h) => Some(h.clone()),
                None => None,
            },
            skip_checksum: self.skip_checksum,
            extract: self.extract,
            name: self.name.clone(),
        }
    }
}

} // verus!
