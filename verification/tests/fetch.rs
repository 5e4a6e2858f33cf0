use ewe::fetch::{
    deb_members, fetch_failure, plan_fetch, Admission, ArchiveKind, FetchWindow, PARALLEL,
};
use ewe::source_file::{RawSourceFile, SourceFile};

fn kind(name: &str) -> Option<(ArchiveKind, String)> {
    ArchiveKind::from_file_name(name)
}

#[test]
fn archive_kinds_by_suffix() {
    assert_eq!(kind("foo.tar.gz"), Some((ArchiveKind::TarGz, "foo".to_string())));
    assert_eq!(kind("foo.tar"), Some((ArchiveKind::Tar, "foo".to_string())));
    assert_eq!(kind("pkg.deb"), Some((ArchiveKind::Deb, "pkg".to_string())));
    assert_eq!(kind("foo.tgz"), Some((ArchiveKind::TarGz, "foo".to_string())));
    assert_eq!(kind("foo.tar.xz"), Some((ArchiveKind::TarXz, "foo".to_string())));
    assert_eq!(kind("foo.txz"), Some((ArchiveKind::TarXz, "foo".to_string())));
    assert_eq!(kind("foo.tar.bz2"), Some((ArchiveKind::TarBz2, "foo".to_string())));
    assert_eq!(kind("foo.tbz2"), Some((ArchiveKind::TarBz2, "foo".to_string())));
    assert_eq!(kind("foo.tar.zst"), Some((ArchiveKind::TarZst, "foo".to_string())));
    assert_eq!(kind("foo.tzst"), Some((ArchiveKind::TarZst, "foo".to_string())));
    assert_eq!(kind("foo.zip"), Some((ArchiveKind::Zip, "foo".to_string())));
    assert_eq!(kind("a.b-1.2.tar.gz"), Some((ArchiveKind::TarGz, "a.b-1.2".to_string())));
}

#[test]
fn other_names_are_plain_files() {
    assert_eq!(kind("foo.txt"), None);
    assert_eq!(kind("foo.gz"), None);
    assert_eq!(kind("foo.ar"), None);
    assert_eq!(kind("tar"), None);
    assert_eq!(kind("tar.gz"), None);
    assert_eq!(kind(""), None);
    assert_eq!(kind("foo.tar.gz.sig"), None);
    assert_eq!(kind(".tar"), Some((ArchiveKind::Tar, String::new())));
}

fn file(url: Option<&str>, path: Option<&str>, rename: Option<&str>, extract: bool) -> SourceFile {
    SourceFile::from_raw(&RawSourceFile {
        url: url.map(String::from),
        path: path.map(String::from),
        rename: rename.map(String::from),
        sha256sum: None,
        sha512sum: None,
        skip_checksum: Some(true),
        extract: Some(extract),
    })
    .unwrap()
}

#[test]
fn an_archive_from_an_address_is_unpacked_through_a_temporary_file() {
    let plan = plan_fetch(&file(Some("https://example.com/dl/foo-1.0.tar.gz"), None, None, true));
    assert!(plan.remote);
    assert_eq!(plan.unpack, Some(ArchiveKind::TarGz));
    assert_eq!(plan.target, "foo-1.0");
    assert!(plan.through_temporary_file());
}

#[test]
fn a_plain_file_is_kept_under_its_name() {
    let plan = plan_fetch(&file(None, Some("/home/me/patches/fix.patch"), None, true));
    assert!(!plan.remote);
    assert_eq!(plan.unpack, None);
    assert_eq!(plan.target, "fix.patch");
    assert!(!plan.through_temporary_file());
    let plan = plan_fetch(&file(Some("https://example.com/a/b.txt?x=1"), None, None, true));
    assert_eq!(plan.target, "b.txt");
    assert!(!plan.through_temporary_file());
}

#[test]
fn the_name_that_is_given_decides() {
    let plan = plan_fetch(&file(None, Some("dl/foo.tar.gz"), Some("src.tar.xz"), true));
    assert_eq!(plan.unpack, Some(ArchiveKind::TarXz));
    assert_eq!(plan.target, "src.tar.xz");
    let plan = plan_fetch(&file(None, Some("dl/foo.tar.gz"), Some("src"), true));
    assert_eq!(plan.unpack, None);
    assert_eq!(plan.target, "src");
    let plan = plan_fetch(&file(None, Some("dl/foo.tar.gz"), None, false));
    assert_eq!(plan.unpack, None);
    assert_eq!(plan.target, "foo.tar.gz");
    assert!(!plan.through_temporary_file());
}

#[test]
fn the_window_is_never_passed() {
    let total = 12;
    let mut window = FetchWindow::new(total, PARALLEL);
    assert_eq!(PARALLEL, 5);
    assert_eq!(window.started(), 5);
    let mut peak = window.in_flight();
    let mut started: Vec<usize> = (0..window.started()).collect();
    let mut done = false;
    while !done {
        let (next, step) = window.complete(true);
        window = next;
        match step {
            Admission::Start(i) => started.push(i),
            Admission::Wait => {}
            Admission::Done => done = true,
            Admission::Abort => panic!("nothing failed"),
        }
        peak = peak.max(window.in_flight());
        assert!(window.in_flight() <= 5);
    }
    assert_eq!(peak, 5);
    assert_eq!(started, (0..total).collect::<Vec<usize>>());
    assert_eq!(window.in_flight(), 0);
    assert!(window.complete_checked(true).is_none());
}

#[test]
fn a_short_list_is_started_at_once() {
    let window = FetchWindow::new(2, 5);
    assert_eq!(window.started(), 2);
    assert_eq!(window.in_flight(), 2);
    let (window, step) = window.complete(true);
    assert_eq!(step, Admission::Wait);
    let (window, step) = window.complete(true);
    assert_eq!(step, Admission::Done);
    assert_eq!(window.in_flight(), 0);
    let window = FetchWindow::new(0, 5);
    assert_eq!(window.in_flight(), 0);
    assert!(window.complete_checked(true).is_none());
}

#[test]
fn a_failure_ends_the_fetching() {
    let window = FetchWindow::new(12, 5);
    let (window, step) = window.complete(true);
    assert_eq!(step, Admission::Start(5));
    let (window, step) = window.complete(false);
    assert_eq!(step, Admission::Abort);
    assert_eq!(window.started(), 6);
    assert_eq!(window.in_flight(), 4);
    assert!(window.complete_checked(true).is_none());
}

#[test]
fn a_failure_names_the_file() {
    assert_eq!(fetch_failure("foo.tar.gz"), "failed to fetch 'foo.tar.gz'");
}

#[test]
fn the_inner_archives_of_a_deb() {
    let members = deb_members();
    assert_eq!(members.len(), 2);
    assert_eq!(members[0].member, "control.tar.xz");
    assert_eq!(members[0].directory, "control");
    assert_eq!(members[1].member, "data.tar.xz");
    assert_eq!(members[1].directory, "data");
}
