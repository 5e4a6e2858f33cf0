use ewe::pack::{
    archive_name, check_privilege, metadata_name, packaging_arguments, packaging_command,
    supervisor, Found, NotPrivileged, Walk, WalkStep, METADATA_MODE,
};

#[test]
fn the_name_of_an_archive() {
    assert_eq!(archive_name("hello", "1:2.12-3", "x86_64", "zst"), "hello_1:2.12-3_x86_64.tar.zst");
    assert_eq!(archive_name("", "", "", ""), "__.tar.");
}

#[test]
fn every_archive_describes_itself() {
    assert_eq!(metadata_name(), "metadata.json");
    assert_eq!(METADATA_MODE, 0o644);
}

#[test]
fn packages_are_made_by_the_superuser() {
    assert_eq!(check_privilege(0), Ok(()));
    assert_eq!(check_privilege(1000), Err(NotPrivileged));
    assert_eq!(check_privilege(u32::MAX), Err(NotPrivileged));
}

#[test]
fn the_program_calls_itself_under_the_supervisor() {
    assert_eq!(supervisor(), "fakeroot");
    assert_eq!(packaging_command(), "__internal_package_inside_fakeroot");
    assert_eq!(
        packaging_arguments("ewebuild", "/tmp/src", "x86_64"),
        vec!["__internal_package_inside_fakeroot", "ewebuild", "/tmp/src", "x86_64"]
    );
}

fn found(path: &str, is_dir: bool) -> Found {
    Found { path: path.to_string(), is_dir }
}

fn listing(dir: &str) -> Vec<Found> {
    match dir {
        "/p" => vec![found("/p/usr", true), found("/p/README", false), found("/p/etc", true)],
        "/p/usr" => vec![found("/p/usr/bin", true), found("/p/usr/share", true)],
        "/p/usr/bin" => vec![found("/p/usr/bin/hello", false)],
        "/p/usr/share" => vec![],
        "/p/etc" => vec![found("/p/etc/a", false), found("/p/etc/b", false)],
        other => panic!("{} is no directory", other),
    }
}

#[test]
fn the_tree_is_walked_depth_first() {
    let mut walk = Walk::start("/p");
    let mut asked = Vec::new();
    loop {
        let (next, step) = walk.next();
        walk = next;
        match step {
            WalkStep::List(dir) => {
                walk = walk.listed(listing(&dir));
                asked.push(dir);
            }
            WalkStep::Done => break,
        }
    }
    assert_eq!(asked, vec!["/p", "/p/etc", "/p/usr", "/p/usr/share", "/p/usr/bin"]);
    assert_eq!(
        walk.into_paths(),
        vec![
            "/p/etc",
            "/p/etc/b",
            "/p/etc/a",
            "/p/README",
            "/p/usr",
            "/p/usr/share",
            "/p/usr/bin",
            "/p/usr/bin/hello",
        ]
    );
}

#[test]
fn an_empty_tree_has_no_paths() {
    let (walk, step) = Walk::start("/p").next();
    assert!(matches!(step, WalkStep::List(ref d) if d == "/p"));
    let (walk, step) = walk.listed(Vec::new()).next();
    assert!(matches!(step, WalkStep::Done));
    assert!(walk.into_paths().is_empty());
}
