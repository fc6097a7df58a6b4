use slint_clash::config::{default_binary_names, profile_file_names, Config, Subscription};
use slint_clash::path::{Base, Location};

fn names(items: &[&str]) -> Vec<String> {
    items.iter().map(|item| item.to_string()).collect()
}

fn place(base: &str, children: &[&str]) -> Location {
    Location { base: Base::Named(base.to_owned()), children: names(children) }
}

#[test]
fn updates_subscription_metadata_without_duplicates() {
    let mut config = Config::default();
    config.upsert_subscription("Work".to_owned(), "https://one.test".to_owned());
    config.upsert_subscription("Work".to_owned(), "https://two.test".to_owned());
    assert_eq!(config.subscriptions.len(), 1);
    assert_eq!(config.subscription_url("Work"), Some("https://two.test"));
}

#[test]
fn resolves_only_profiles_inside_the_config_directory() {
    let directory = "/tmp/slint-clash-config-test";
    let on_disk = names(&["work.yml"]);
    let config = Config { config_dir: Some(directory.to_owned()), ..Config::default() };

    assert_eq!(config.profile_path("work", &on_disk), Some(place(directory, &["work.yml"])));
    assert_eq!(config.profile_path("work.yml", &on_disk), Some(place(directory, &["work.yml"])));
    assert_eq!(config.profile_path("../work", &on_disk), None);
    assert_eq!(config.profile_path("missing", &on_disk), None);
}

#[test]
fn only_single_names_are_profiles() {
    let config = Config { config_dir: Some("d".to_owned()), ..Config::default() };
    let on_disk = names(&["a.yaml", "/a.yaml", "a/.yaml", "..yaml", ".yaml", "x/a.yaml"]);
    assert!(config.profile_path("a", &on_disk).is_some());
    for name in ["", ".", "..", "/a", "a/", "x/a", "./a", "a/."] {
        assert_eq!(config.profile_path(name, &on_disk), None);
    }
}

#[test]
fn yaml_comes_before_yml() {
    assert_eq!(profile_file_names("work"), names(&["work.yaml", "work.yml"]));
    assert_eq!(profile_file_names("work.yml"), names(&["work.yml"]));
    assert_eq!(profile_file_names("work.yaml"), names(&["work.yaml"]));
    assert_eq!(profile_file_names("work.txt"), names(&["work.txt.yaml", "work.txt.yml"]));
    assert_eq!(profile_file_names(".yml"), names(&[".yml.yaml", ".yml.yml"]));
    let config = Config { config_dir: Some("d".to_owned()), ..Config::default() };
    assert_eq!(
        config.profile_path("work", &names(&["work.yml", "work.yaml"])),
        Some(place("d", &["work.yaml"]))
    );
}

#[test]
fn the_core_reads_the_active_profile_or_its_default() {
    let mut config = Config { config_dir: Some("d".to_owned()), ..Config::default() };
    let on_disk = names(&["work.yaml"]);
    assert_eq!(config.active_config_path(&on_disk), place("d", &["config.yaml"]));
    config.active_profile = Some("work".to_owned());
    assert_eq!(config.active_config_path(&on_disk), place("d", &["work.yaml"]));
    config.active_profile = Some("gone".to_owned());
    assert_eq!(config.active_config_path(&on_disk), place("d", &["config.yaml"]));
    config.active_profile = Some("../work".to_owned());
    assert_eq!(config.active_config_path(&on_disk), place("d", &["config.yaml"]));
}

#[test]
fn directories_default_to_those_of_the_platform() {
    let config = Config::default();
    assert_eq!(
        config.config_dir_in(None),
        place(".", &["mihomo"])
    );
    let platform = std::path::PathBuf::from("/home/user/.config");
    assert_eq!(
        config.config_dir_in(Some(platform.clone())),
        Location { base: Base::Platform(platform.clone()), children: names(&["mihomo"]) }
    );
    let expected = match dirs::config_dir() {
        Some(dir) => Base::Platform(dir),
        None => Base::Named(".".to_owned()),
    };
    assert_eq!(config.config_dir().base, expected);
    assert_eq!(Config::config_path().base, expected);
    assert_eq!(Config::config_path().children, names(&["slint-clash", "config.json"]));
    assert_eq!(
        Config::config_path_in(Some(platform.clone())),
        Location { base: Base::Platform(platform), children: names(&["slint-clash", "config.json"]) }
    );
    let chosen = Config { config_dir: Some("here".to_owned()), ..Config::default() };
    assert_eq!(chosen.config_dir(), place("here", &[]));
}

#[test]
fn the_program_is_the_chosen_or_the_first_found() {
    let config = Config::default();
    assert_eq!(default_binary_names(false), names(&["mihomo", "clash-meta", "clash"]));
    assert_eq!(
        default_binary_names(true),
        names(&["mihomo.exe", "clash-meta.exe", "clash.exe"])
    );
    assert_eq!(config.clash_binary(false, &names(&[])), "mihomo");
    assert_eq!(config.clash_binary(true, &names(&[])), "mihomo.exe");
    assert_eq!(config.clash_binary(false, &names(&["clash", "clash-meta"])), "clash-meta");
    assert_eq!(config.clash_binary(true, &names(&["clash.exe"])), "clash.exe");
    let chosen = Config { clash_binary_path: Some("core".to_owned()), ..Config::default() };
    assert_eq!(chosen.clash_binary(false, &names(&["mihomo"])), "core");
}

#[test]
fn the_address_holds_the_port() {
    assert_eq!(Config::default().api_url(), "http://127.0.0.1:9090");
    let config = Config { api_port: 65535, ..Config::default() };
    assert_eq!(config.api_url(), "http://127.0.0.1:65535");
    let zero = Config { api_port: 0, ..Config::default() };
    assert_eq!(zero.api_url(), "http://127.0.0.1:0");
}

#[test]
fn subscriptions_are_sorted_by_name_without_regard_to_case() {
    let mut config = Config::default();
    for name in ["beta", "Alpha", "Émile", "alpha", "ZULU", "émile"] {
        config.upsert_subscription(name.to_owned(), format!("https://{name}.test"));
    }
    let order: Vec<&str> = config.subscriptions.iter().map(|s| s.name.as_str()).collect();
    assert_eq!(order, vec!["Alpha", "alpha", "beta", "ZULU", "Émile", "émile"]);

    config.upsert_subscription("beta".to_owned(), "https://new.test".to_owned());
    let again: Vec<&str> = config.subscriptions.iter().map(|s| s.name.as_str()).collect();
    assert_eq!(again, vec!["Alpha", "alpha", "beta", "ZULU", "Émile", "émile"]);
    assert_eq!(config.subscription_url("beta"), Some("https://new.test"));
    assert_eq!(config.subscription_url("Alpha"), Some("https://Alpha.test"));
    assert_eq!(config.subscription_url("BETA"), None);
}

#[test]
fn settings_that_were_never_saved_are_the_initial_ones() {
    assert_eq!(Config::load(None), Ok(Config::default()));
    let stored = Config { api_port: 1, ..Config::default() };
    assert_eq!(Config::load(Some(Ok(stored.clone()))), Ok(stored));
    assert_eq!(
        Config::load(Some(Err("no json".to_owned()))),
        Err("no json".to_owned())
    );
    let initial = Config::default();
    assert_eq!(initial.api_port, 9090);
    assert_eq!(initial.clash_binary_path, None);
    assert_eq!(initial.config_dir, None);
    assert_eq!(initial.active_profile, None);
    assert_eq!(initial.api_secret, None);
    assert_eq!(initial.subscriptions, Vec::<Subscription>::new());
}

#[test]
fn a_found_profile_is_what_the_core_reads() {
    let mut config = Config { config_dir: Some("d".to_owned()), ..Config::default() };
    let directory = || place("d", &[]);
    let found = || Some(place("d", &["a:b.yaml"]));
    let fallback = place("d", &["config.yaml"]);
    assert_eq!(config.active_config_path_in(directory(), found()), fallback);
    config.active_profile = Some("a:b".to_owned());
    assert_eq!(config.active_config_path_in(directory(), None), fallback);
    assert_eq!(
        config.active_config_path_in(directory(), found()),
        place("d", &["a:b.yaml"])
    );
    config.active_profile = Some("work".to_owned());
    assert_eq!(
        config.active_config_path_at(place("e", &[]), &names(&["work.yml"])),
        place("e", &["work.yml"])
    );
}
