use ewe::arch::EmptyArchList;
use ewe::messages::{architecture_mismatch, report};
use ewe::names::ParseNameError;
use ewe::pack::NotPrivileged;
use ewe::reading::RecipeError;
use ewe::script::ScopeClosed;
use ewe::source_file::SourceFileError;
use ewe::version::{EpochError, ParseVersionError};

#[test]
fn errors_of_names_and_versions_name_the_character() {
    assert_eq!(ParseNameError('_').message(), "package name contains invalid character `_`");
    assert_eq!(
        ParseVersionError::Upstream('-').message(),
        "upstream version contains invalid character `-`"
    );
    assert_eq!(
        ParseVersionError::Revision(' ').message(),
        "revision contains invalid character ` `"
    );
}

#[test]
fn errors_of_the_epoch_are_worded_as_the_standard_library_words_them() {
    let empty = "".parse::<u32>().unwrap_err().to_string();
    let digit = "x".parse::<u32>().unwrap_err().to_string();
    let large = "4294967296".parse::<u32>().unwrap_err().to_string();
    assert_eq!(EpochError::Empty.message(), empty);
    assert_eq!(EpochError::InvalidDigit.message(), digit);
    assert_eq!(EpochError::Overflow.message(), large);
    assert_eq!(
        ParseVersionError::Epoch(EpochError::InvalidDigit).message(),
        format!("failed to parse epoch: {}", digit)
    );
}

#[test]
fn the_epoch_is_read_as_the_standard_library_reads_a_number() {
    for text in [
        "", "+", "-", "0", "+0", "-0", "1", "007", "+12", "12a", "a12", "4294967295", "4294967296",
        "42949672950", "99999999999x", "4294967295x", "429496729x6", "00000000000000000001", " 1",
        "1 ", "1_000", "٣",
    ] {
        let ours = format!("{}:1.0", text).parse::<ewe::version::PackageVersion>();
        match text.parse::<u32>() {
            Ok(n) => assert_eq!(ours.unwrap().epoch(), n, "{:?}", text),
            Err(e) => match ours {
                Err(ParseVersionError::Epoch(kind)) => {
                    assert_eq!(kind.message(), e.to_string(), "{:?}", text)
                }
                other => panic!("{:?} gave {:?}", text, other),
            },
        }
    }
}

#[test]
fn errors_of_recipes() {
    assert_eq!(RecipeError::PackConflict.message(), "field `pack` and `packages` conflicts");
    assert_eq!(
        RecipeError::ArchitectureConflict.message(),
        "architecture for package conflicts between `all` and other platforms"
    );
    assert_eq!(RecipeError::DuplicatePackage("libx".to_string()).message(), "duplicate package 'libx'");
    assert_eq!(RecipeError::NoPackage.message(), "no package specified");
    assert_eq!(RecipeError::NoSource.message(), "no source specified");
    assert_eq!(RecipeError::SourceDefinedTwice.message(), "can only define source once");
    assert_eq!(
        RecipeError::SourceNotDefined.message(),
        "source not defined; define source before packages"
    );
    assert_eq!(RecipeError::MissingName.message(), "missing field `name`");
    assert_eq!(RecipeError::MissingDescription.message(), "missing field `description`");
    assert_eq!(RecipeError::MissingVersion.message(), "missing field `version`");
    assert_eq!(RecipeError::MissingArchitecture.message(), "missing field `architecture`");
    assert_eq!(
        RecipeError::EmptyArchitecture.message(),
        "invalid length 0, expected one or more architecture"
    );
    assert_eq!(EmptyArchList.message(), "invalid length 0, expected one or more architecture");
    assert_eq!(RecipeError::InvalidHomepage.message(), "invalid address in field `homepage`");
    assert_eq!(
        RecipeError::Name(ParseNameError('!')).message(),
        "package name contains invalid character `!`"
    );
    assert_eq!(
        RecipeError::Version(ParseVersionError::Upstream('!')).message(),
        "upstream version contains invalid character `!`"
    );
    assert_eq!(
        RecipeError::SourceFile(SourceFileError::NoFileName).message(),
        "no file name given"
    );
}

#[test]
fn errors_of_source_files() {
    assert_eq!(SourceFileError::NoFileName.message(), "no file name given");
    assert_eq!(SourceFileError::NoChecksum.message(), "no checksum given or `skip_checksum`");
    assert_eq!(
        SourceFileError::LocationConflict.message(),
        "exactly one of `url` and `path` must be given"
    );
    assert_eq!(SourceFileError::InvalidUrl.message(), "invalid address");
    assert_eq!(SourceFileError::InvalidDigest.message(), "invalid digest");
}

#[test]
fn other_errors() {
    assert_eq!(NotPrivileged.message(), "not running in fakeroot/root environment");
    assert_eq!(ScopeClosed.message(), "`run` and `cd` can only be called while a stage runs");
    assert_eq!(architecture_mismatch("x86_64"), "source architecture does not contain `x86_64`");
}

#[test]
fn a_failure_is_told_with_its_cause() {
    assert_eq!(
        report("failed to fetch 'a.tar.gz'", Some("connection refused")),
        "failed to fetch 'a.tar.gz' (connection refused)"
    );
    assert_eq!(report("no source was declared", None), "no source was declared");
    assert_eq!(report("boom", Some("boom")), "boom");
    assert_eq!(report("", Some("x")), " (x)");
}
