use ewe::dynamic::{
    lookup, read_file, read_info, read_optional, read_recipe, texts_field, Dynamic, Field, Kind,
    TypeError, Wanted,
};
use ewe::reading::RecipeError;
use ewe::recipe::{Execution, Package, Source};
use ewe::version::ParseVersionError;

fn text(s: &str) -> Dynamic {
    Dynamic::Text(s.to_string())
}

fn list_of_texts(v: &[&str]) -> Dynamic {
    Dynamic::List(v.iter().map(|s| text(s)).collect())
}

fn table(entries: Vec<(&str, Dynamic)>) -> Dynamic {
    Dynamic::Table(entries.into_iter().map(|(k, v)| (k.to_string(), v)).collect())
}

fn entries(entries: Vec<(&str, Dynamic)>) -> Vec<(String, Dynamic)> {
    entries.into_iter().map(|(k, v)| (k.to_string(), v)).collect()
}

fn hello() -> Vec<(&'static str, Dynamic)> {
    vec![
        ("name", text("hello")),
        ("description", text("says hello")),
        ("version", text("2.12-1")),
        ("architecture", list_of_texts(&["x86_64"])),
        ("homepage", Dynamic::Unit),
        ("depends", list_of_texts(&["glibc"])),
        (
            "optional_depends",
            Dynamic::List(vec![table(vec![("name", text("gettext"))])]),
        ),
        ("build_depends", list_of_texts(&["make"])),
        (
            "source",
            Dynamic::List(vec![table(vec![
                ("path", text("files/hello-2.12.tar.gz")),
                ("skip_checksum", Dynamic::Bool(true)),
            ])]),
        ),
        ("prepare", text("./configure")),
        ("build", Dynamic::Function(3)),
    ]
}

fn wrong(field: Field, wanted: Wanted, found: Kind) -> TypeError {
    TypeError { field, wanted, found }
}

#[test]
fn a_recipe_is_read_from_a_table() {
    let mut fields = hello();
    fields.push(("pack", Dynamic::Function(4)));
    let s = Source::from_dynamic(&table(fields)).unwrap();
    assert_eq!(s.info.inner.name.as_str(), "hello");
    assert_eq!(s.info.inner.description, "says hello");
    assert_eq!(s.info.inner.version.to_string(), "2.12-1");
    assert_eq!(s.info.inner.homepage, None);
    assert_eq!(s.info.inner.depends.len(), 1);
    assert_eq!(s.info.inner.optional_depends.get(0).name.as_str(), "gettext");
    assert_eq!(s.info.build_depends.get(0).as_str(), "make");
    assert_eq!(s.info.source.len(), 1);
    assert_eq!(s.info.source[0].file_name(), "hello-2.12.tar.gz");
    assert!(s.info.source[0].extract());
    assert!(matches!(&s.prepare, Some(Execution::Shell(t)) if t == "./configure"));
    assert!(matches!(&s.build, Some(Execution::Fn(3))));
    assert!(s.check.is_none());
    assert_eq!(s.packages.len(), 1);
    assert!(matches!(&s.packages.get(0).pack, Some(Execution::Fn(4))));
}

#[test]
fn a_table_of_packages_is_read() {
    let mut fields = hello();
    fields.push((
        "packages",
        Dynamic::List(vec![
            table(vec![("pack", text("make install"))]),
            table(vec![
                ("name", text("hello-doc")),
                ("architecture", list_of_texts(&["all"])),
                ("depends", list_of_texts(&["man"])),
            ]),
        ]),
    ));
    let s = Source::from_dynamic(&table(fields)).unwrap();
    assert_eq!(s.packages.len(), 2);
    let first: &Package = s.packages.get(0);
    assert_eq!(first.info.name.as_str(), "hello");
    assert!(matches!(&first.pack, Some(Execution::Shell(t)) if t == "make install"));
    let second: &Package = s.packages.get(1);
    assert_eq!(second.info.name.as_str(), "hello-doc");
    assert_eq!(second.info.description, "says hello");
    assert_eq!(second.info.depends.len(), 2);
    assert!(second.pack.is_none());
}

#[test]
fn a_recipe_must_be_a_table() {
    assert_eq!(
        Source::from_dynamic(&text("hello")).err(),
        Some(RecipeError::Type(wrong(Field::Recipe, Wanted::Table, Kind::Text)))
    );
    assert_eq!(
        read_recipe(&Dynamic::Unit).err(),
        Some(wrong(Field::Recipe, Wanted::Table, Kind::Nothing))
    );
}

#[test]
fn a_field_of_another_type_is_refused() {
    let with = |key: &'static str, value: Dynamic| {
        let mut fields: Vec<(&str, Dynamic)> = vec![(key, value)];
        fields.extend(hello());
        Source::from_dynamic(&table(fields)).err()
    };
    let is = |field, wanted, found| Some(RecipeError::Type(wrong(field, wanted, found)));
    assert_eq!(with("name", Dynamic::Bool(true)), is(Field::Name, Wanted::Text, Kind::Flag));
    assert_eq!(
        with("description", Dynamic::List(Vec::new())),
        is(Field::Description, Wanted::Text, Kind::List)
    );
    assert_eq!(with("version", Dynamic::Other), is(Field::Version, Wanted::Text, Kind::Other));
    assert_eq!(
        with("architecture", text("x86_64")),
        is(Field::Architecture, Wanted::List, Kind::Text)
    );
    assert_eq!(
        with("architecture", Dynamic::List(vec![text("x86_64"), Dynamic::Function(1)])),
        is(Field::Architecture, Wanted::Text, Kind::Function)
    );
    assert_eq!(
        with("homepage", table(Vec::new())),
        is(Field::Homepage, Wanted::Text, Kind::Table)
    );
    assert_eq!(
        with("depends", Dynamic::List(vec![Dynamic::Unit])),
        is(Field::Depends, Wanted::Text, Kind::Nothing)
    );
    assert_eq!(
        with("optional_depends", Dynamic::List(vec![text("gettext")])),
        is(Field::OptionalDepends, Wanted::Table, Kind::Text)
    );
    assert_eq!(
        with("optional_depends", Dynamic::List(vec![table(Vec::new())])),
        is(Field::Name, Wanted::Text, Kind::Nothing)
    );
    assert_eq!(
        with("build_depends", Dynamic::Bool(false)),
        is(Field::BuildDepends, Wanted::List, Kind::Flag)
    );
    assert_eq!(with("source", text("x")), is(Field::Source, Wanted::List, Kind::Text));
    assert_eq!(
        with("source", Dynamic::List(vec![Dynamic::List(Vec::new())])),
        is(Field::Source, Wanted::Table, Kind::List)
    );
    assert_eq!(
        with("source", Dynamic::List(vec![table(vec![("extract", text("no"))])])),
        is(Field::Extract, Wanted::Flag, Kind::Text)
    );
    assert_eq!(with("prepare", Dynamic::Bool(true)), is(Field::Prepare, Wanted::Stage, Kind::Flag));
    assert_eq!(with("build", Dynamic::Other), is(Field::Build, Wanted::Stage, Kind::Other));
    assert_eq!(
        with("check", Dynamic::List(Vec::new())),
        is(Field::Check, Wanted::Stage, Kind::List)
    );
    assert_eq!(with("pack", table(Vec::new())), is(Field::Pack, Wanted::Stage, Kind::Table));
    assert_eq!(with("packages", text("x")), is(Field::Packages, Wanted::List, Kind::Text));
    assert_eq!(
        with("packages", Dynamic::List(vec![Dynamic::Function(1)])),
        is(Field::Packages, Wanted::Table, Kind::Function)
    );
    assert_eq!(
        with("packages", Dynamic::List(vec![table(vec![("pack", Dynamic::Bool(true))])])),
        is(Field::Pack, Wanted::Stage, Kind::Flag)
    );
}

#[test]
fn types_are_checked_before_anything_else() {
    // The version is no version, and the stage `check` is of no type for a
    // stage: the type is refused first.
    let mut fields = hello();
    fields[2] = ("version", text("1_0"));
    fields.push(("check", Dynamic::Bool(true)));
    assert_eq!(
        Source::from_dynamic(&table(fields)).err(),
        Some(RecipeError::Type(wrong(Field::Check, Wanted::Stage, Kind::Flag)))
    );
    let mut fields = hello();
    fields[2] = ("version", text("1_0"));
    assert_eq!(
        Source::from_dynamic(&table(fields)).err(),
        Some(RecipeError::Version(ParseVersionError::Upstream('_')))
    );
    // Of two fields of another type, the first in the order of reading.
    let mut fields = hello();
    fields[4] = ("homepage", Dynamic::Bool(true));
    fields[1] = ("description", Dynamic::Function(0));
    assert_eq!(
        Source::from_dynamic(&table(fields)).err(),
        Some(RecipeError::Type(wrong(Field::Description, Wanted::Text, Kind::Function)))
    );
}

#[test]
fn the_first_entry_of_a_key_counts_and_no_value_is_no_entry() {
    let t = entries(vec![
        ("a", Dynamic::Unit),
        ("b", text("first")),
        ("b", text("second")),
        ("a", text("late")),
    ]);
    assert!(lookup(&t, "a").is_none());
    assert!(matches!(lookup(&t, "b"), Some(Dynamic::Text(s)) if s == "first"));
    assert!(lookup(&t, "c").is_none());
    assert!(lookup(&Vec::new(), "a").is_none());
}

#[test]
fn lists_of_texts() {
    let t = entries(vec![
        ("depends", list_of_texts(&["b", "a", "b"])),
        ("architecture", Dynamic::List(Vec::new())),
    ]);
    assert_eq!(
        texts_field(&t, Field::Depends),
        Ok(Some(vec!["b".to_string(), "a".to_string(), "b".to_string()]))
    );
    assert_eq!(texts_field(&t, Field::Architecture), Ok(Some(Vec::new())));
    assert_eq!(texts_field(&t, Field::BuildDepends), Ok(None));
}

#[test]
fn a_stage_is_a_text_or_a_function() {
    assert!(matches!(Execution::from_dynamic(&text("make")), Ok(Execution::Shell(t)) if t == "make"));
    assert!(matches!(Execution::from_dynamic(&Dynamic::Function(7)), Ok(Execution::Fn(7))));
    assert!(matches!(Execution::from_dynamic(&Dynamic::Unit), Err(Kind::Nothing)));
    assert!(matches!(Execution::from_dynamic(&Dynamic::Bool(true)), Err(Kind::Flag)));
    assert!(matches!(Execution::from_dynamic(&Dynamic::List(Vec::new())), Err(Kind::List)));
    assert!(matches!(Execution::from_dynamic(&table(Vec::new())), Err(Kind::Table)));
    assert!(matches!(Execution::from_dynamic(&Dynamic::Other), Err(Kind::Other)));
}

#[test]
fn records_are_read_field_by_field() {
    let o = read_optional(&table(vec![("description", text("why")), ("name", text("x"))])).unwrap();
    assert_eq!(o.name, "x");
    assert_eq!(o.description.as_deref(), Some("why"));

    let f = read_file(&table(vec![
        ("url", text("https://example.org/a.zip")),
        ("rename", text("b")),
        ("sha256sum", text("00")),
        ("sha512sum", text("ff")),
        ("extract", Dynamic::Bool(false)),
    ]))
    .unwrap();
    assert_eq!(f.url.as_deref(), Some("https://example.org/a.zip"));
    assert_eq!(f.path, None);
    assert_eq!(f.rename.as_deref(), Some("b"));
    assert_eq!(f.sha256sum.as_deref(), Some("00"));
    assert_eq!(f.sha512sum.as_deref(), Some("ff"));
    assert_eq!(f.skip_checksum, None);
    assert_eq!(f.extract, Some(false));

    let info = read_info(&entries(vec![("name", text("x"))])).unwrap();
    assert_eq!(info.name.as_deref(), Some("x"));
    assert_eq!(info.description, None);
    assert_eq!(info.architecture, None);
    assert!(info.depends.is_empty());
    assert!(info.optional_depends.is_empty());
}

#[test]
fn a_package_is_read_and_completed() {
    let s = Source::from_dynamic(&table(hello())).unwrap();
    let p = Package::from_dynamic_delta(
        &table(vec![("name", text("hello-dev")), ("depends", list_of_texts(&["hello"]))]),
        &s.info.inner,
    )
    .unwrap();
    assert_eq!(p.info.name.as_str(), "hello-dev");
    assert_eq!(p.info.version.to_string(), "2.12-1");
    assert_eq!(p.info.depends.len(), 2);
    assert_eq!(
        Package::from_dynamic_delta(&Dynamic::Bool(true), &s.info.inner).err(),
        Some(RecipeError::Type(wrong(Field::Packages, Wanted::Table, Kind::Flag)))
    );
    assert_eq!(
        Package::from_dynamic_delta(
            &table(vec![("architecture", list_of_texts(&["all", "x86_64"]))]),
            &s.info.inner
        )
        .err(),
        Some(RecipeError::ArchitectureConflict)
    );
}

#[test]
fn errors_of_types_are_worded() {
    assert_eq!(
        wrong(Field::Name, Wanted::Text, Kind::List).message(),
        "field `name` must be a string, not an array"
    );
    assert_eq!(
        wrong(Field::SkipChecksum, Wanted::Flag, Kind::Nothing).message(),
        "field `skip_checksum` must be a boolean, not nothing"
    );
    assert_eq!(
        RecipeError::Type(wrong(Field::Pack, Wanted::Stage, Kind::Table)).message(),
        "field `pack` must be a string or a function, not a map"
    );
    assert_eq!(
        wrong(Field::Packages, Wanted::List, Kind::Other).message(),
        "field `packages` must be an array, not a value of another type"
    );
    assert_eq!(
        wrong(Field::Source, Wanted::Table, Kind::Function).message(),
        "field `source` must be a map, not a function"
    );
    assert_eq!(
        wrong(Field::Extract, Wanted::Flag, Kind::Flag).message(),
        "field `extract` must be a boolean, not a boolean"
    );
    for field in [
        Field::Recipe,
        Field::Name,
        Field::Description,
        Field::Version,
        Field::Architecture,
        Field::Homepage,
        Field::BuildDepends,
        Field::Depends,
        Field::OptionalDepends,
        Field::Source,
        Field::Prepare,
        Field::Build,
        Field::Check,
        Field::Pack,
        Field::Packages,
        Field::Url,
        Field::Path,
        Field::Rename,
        Field::Sha256sum,
        Field::Sha512sum,
        Field::SkipChecksum,
        Field::Extract,
    ] {
        assert_eq!(format!("{field:?}").to_lowercase(), field.key().replace('_', ""));
    }
}
