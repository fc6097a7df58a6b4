use slint_clash::config::Config;
use slint_clash::profiles::{list_profiles, scan_profiles_into, DirectoryListing};
use slint_clash::ui::{FlagField, UiUpdate};

fn names(items: &[&str]) -> Vec<String> {
    items.iter().map(|item| item.to_string()).collect()
}

#[test]
fn profiles_are_listed_by_name() {
    let files = names(&["b.yaml", "A.yml", "readme.md", ".yaml", "a.yaml", "config.json", "c"]);
    assert_eq!(list_profiles(&files), names(&["A", "a", "b"]));
    assert_eq!(list_profiles(&vec![]), Vec::<String>::new());
}

#[test]
fn a_profile_with_two_files_is_listed_once() {
    assert_eq!(
        list_profiles(&names(&["work.yml", "home.yaml", "work.yaml"])),
        names(&["home", "work"])
    );
    assert_eq!(
        list_profiles(&names(&["a.yaml", "A.yaml", "a.yml"])),
        names(&["a", "A", "a"])
    );
}

#[test]
fn a_scan_shows_the_profiles() {
    let loaded = UiUpdate::Flag(FlagField::ProfilesLoaded, true);
    let scan = scan_profiles_into(DirectoryListing::Entries(names(&["x.yaml"])), "/d");
    assert_eq!(scan.error, None);
    assert_eq!(
        scan.updates,
        vec![
            UiUpdate::Profiles(names(&["x"])),
            UiUpdate::Flag(FlagField::ProfilesLoaded, true),
        ]
    );
    let missing = scan_profiles_into(DirectoryListing::NotFound, "/d");
    assert_eq!(missing.error, None);
    assert_eq!(missing.updates, vec![UiUpdate::Profiles(vec![]), loaded]);
    let failed = scan_profiles_into(DirectoryListing::Failed("denied".to_owned()), "/d");
    assert_eq!(
        failed.error,
        Some("Could not read configuration directory '/d': denied".to_owned())
    );
    assert_eq!(failed.updates, missing.updates);
}

#[test]
fn every_listed_profile_is_found_again() {
    let files = names(&["b.yml", "Work.yaml", "a.b.yaml", "x.txt", "Work.yml"]);
    let config = Config { config_dir: Some("/d".to_owned()), ..Config::default() };
    let listed = list_profiles(&files);
    assert_eq!(listed, names(&["a.b", "b", "Work"]));
    for name in &listed {
        let place = config.profile_path(name, &files).unwrap();
        assert!(files.contains(&place.children[0]));
        assert!(place.children[0].starts_with(name.as_str()));
    }
}
