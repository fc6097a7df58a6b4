use std::collections::BTreeMap;

use slint_clash::files::{FileAction, Step};
use slint_clash::path::{is_file_name, profile_name, Location};
use slint_clash::subscription::{
    check_mapping, check_url_parts, is_windows_reserved_name, validate_profile_name, validate_url,
    validate_yaml, CheckedProfile, ProfileDownload, SubscriptionError, SubscriptionService,
    UrlParts, MAX_PROFILE_SIZE,
};

type Files = BTreeMap<String, Vec<u8>>;

fn perform(disk: &mut Files, action: &FileAction, contents: &[u8]) {
    match action {
        FileAction::Write { file } => {
            disk.insert(file.clone(), contents.to_vec());
        }
        FileAction::Rename { from, to } => {
            if let Some(bytes) = disk.remove(from) {
                disk.insert(to.clone(), bytes);
            }
        }
        FileAction::Remove { file } => {
            disk.remove(file);
        }
    }
}

fn carry_out(disk: &mut Files, steps: &[Step], contents: &[u8], failing: usize) {
    for (i, step) in steps.iter().enumerate() {
        if i == failing {
            for action in &step.undo {
                perform(disk, action, contents);
            }
            return;
        }
        perform(disk, &step.action, contents);
    }
}

fn directory() -> Location {
    Location::named("/tmp/p")
}

fn file_of(place: &Location) -> &str {
    assert_eq!(place.base, directory().base);
    assert_eq!(place.children.len(), 1);
    &place.children[0]
}

fn read(body: &[u8], profile: &str) -> CheckedProfile {
    let url = "http://127.0.0.1:4711/profile.yaml";
    let download = SubscriptionService::new("1.0.0").download(url, profile).unwrap();
    let half = body.len() / 2;
    let download = download.append(&body[..half]).unwrap();
    download.append(&body[half..]).unwrap().finish().unwrap()
}

#[test]
fn validates_profile_names_for_cross_platform_file_safety() {
    assert!(validate_profile_name("Work 2026").is_ok());
    assert!(validate_profile_name("../escape").is_err());
    assert!(validate_profile_name("bad:name").is_err());
    assert!(validate_profile_name("trailing.").is_err());
    assert!(validate_profile_name("CON.yaml").is_err());
}

#[test]
fn validates_yaml_before_it_can_replace_a_profile() {
    assert!(validate_yaml(b"proxies:\n  - name: example\n").is_ok());
    assert!(validate_yaml(b"<html>not a subscription</html>").is_err());
    assert!(validate_yaml(b"").is_err());
}

#[test]
fn downloads_and_commits_a_valid_subscription() {
    let mut disk: Files = BTreeMap::new();
    let checked = read(b"proxies:\n  - name: example\n", "Work");
    assert_eq!(checked.target(), "Work.yaml");
    let plan = checked.stage(directory(), disk.contains_key("Work.yaml"), false, 7).unwrap();
    carry_out(&mut disk, &plan.steps, &plan.bytes, usize::MAX);
    assert!(disk.contains_key(file_of(plan.staged.path())));
    for action in plan.staged.commit() {
        perform(&mut disk, &action, &[]);
    }
    assert!(String::from_utf8(disk["Work.yaml"].clone()).unwrap().contains("example"));
    assert_eq!(disk.len(), 1);
}

#[test]
fn rolls_back_an_updated_subscription() {
    let mut disk: Files = BTreeMap::new();
    disk.insert("Work.yaml".to_owned(), b"proxies: []\n".to_vec());
    let checked = read(b"proxies:\n  - name: replacement\n", "Work");
    let plan = checked.stage(directory(), true, true, 7).unwrap();
    carry_out(&mut disk, &plan.steps, &plan.bytes, usize::MAX);
    assert!(String::from_utf8(disk[file_of(plan.staged.path())].clone()).unwrap().contains("replacement"));
    let exists = disk.contains_key(file_of(plan.staged.path()));
    for action in plan.staged.rollback(exists) {
        perform(&mut disk, &action, &[]);
    }
    assert_eq!(disk["Work.yaml"], b"proxies: []\n".to_vec());
    assert_eq!(disk.len(), 1);
}

#[test]
fn a_commit_removes_the_backup() {
    let mut disk: Files = BTreeMap::new();
    disk.insert("Work.yaml".to_owned(), b"proxies: []\n".to_vec());
    let plan = read(b"a: 1\n", "Work").stage(directory(), true, true, 12).unwrap();
    carry_out(&mut disk, &plan.steps, &plan.bytes, usize::MAX);
    assert_eq!(plan.staged.path(), &Location::named("/tmp/p").child("Work.yaml"));
    assert_eq!(disk[".Work.12.backup"], b"proxies: []\n".to_vec());
    assert!(!disk.contains_key(".Work.12.download"));
    for action in plan.staged.commit() {
        perform(&mut disk, &action, &[]);
    }
    assert_eq!(disk.len(), 1);
    assert_eq!(disk["Work.yaml"], b"a: 1\n".to_vec());
}

#[test]
fn a_failed_installation_leaves_the_old_profile() {
    for failing in 0..3_usize {
        let mut disk: Files = BTreeMap::new();
        disk.insert("Work.yaml".to_owned(), b"old: 1\n".to_vec());
        disk.insert("Other.yaml".to_owned(), b"other: 1\n".to_vec());
        let before = disk.clone();
        let plan = read(b"new: 1\n", "Work").stage(directory(), true, true, 5).unwrap();
        assert_eq!(plan.steps.len(), 3);
        carry_out(&mut disk, &plan.steps, &plan.bytes, failing);
        assert_eq!(disk, before);
    }
    for failing in 0..2_usize {
        let mut disk: Files = BTreeMap::new();
        let plan = read(b"new: 1\n", "Work").stage(directory(), false, false, 5).unwrap();
        assert_eq!(plan.steps.len(), 2);
        carry_out(&mut disk, &plan.steps, &plan.bytes, failing);
        assert_eq!(disk.len(), 0);
    }
}

#[test]
fn an_existing_profile_is_only_replaced_on_request() {
    let error = read(b"a: 1\n", "Work").stage(directory(), true, false, 1).unwrap_err();
    assert_eq!(error, SubscriptionError::AlreadyExists("Work".to_owned()));
    assert_eq!(error.message(), "Profile already exists: Work");
    assert!(read(b"a: 1\n", "Work").stage(directory(), false, false, 1).is_ok());
}

#[test]
fn a_vanished_profile_is_rolled_back_without_a_removal() {
    let plan = read(b"a: 1\n", "Work").stage(directory(), true, true, 3).unwrap();
    assert_eq!(
        plan.staged.rollback(false),
        vec![FileAction::Rename {
            from: ".Work.3.backup".to_owned(),
            to: "Work.yaml".to_owned()
        }]
    );
    let fresh = read(b"a: 1\n", "Work").stage(directory(), false, true, 3).unwrap();
    assert_eq!(
        fresh.staged.rollback(true),
        vec![FileAction::Remove { file: "Work.yaml".to_owned() }]
    );
}

#[test]
fn names_have_one_to_sixty_four_characters() {
    let length = SubscriptionError::NameLength;
    assert_eq!(validate_profile_name(""), Err(SubscriptionError::NameLength));
    assert_eq!(validate_profile_name(" \t\u{a0}"), Err(SubscriptionError::NameLength));
    assert!(validate_profile_name(&"é".repeat(64)).is_ok());
    assert_eq!(validate_profile_name(&"é".repeat(65)), Err(SubscriptionError::NameLength));
    assert_eq!(length.message(), "Profile name must contain 1 to 64 characters");
}

#[test]
fn names_are_file_names_everywhere() {
    for name in ["<", ">", ":", "\"", "/", "\\", "|", "?", "*"] {
        let name = format!("a{name}b");
        assert_eq!(validate_profile_name(&name), Err(SubscriptionError::NameCharacters));
    }
    for name in [".", "..", "a.", "nul", "Aux.txt", "prn", "com1", "LPT9.x", "cOn"] {
        assert_eq!(validate_profile_name(name), Err(SubscriptionError::NameCharacters));
    }
    for name in ["com0", "com10", "com", "lpt", "console", "a.con", " con2 ", ".hidden", "com１"] {
        assert!(validate_profile_name(name).is_ok());
    }
    assert!(is_windows_reserved_name("COM3.yaml"));
    assert!(!is_windows_reserved_name("COM33"));
    assert_eq!(
        SubscriptionError::NameCharacters.message(),
        "Profile name contains characters that cannot be used in a file name"
    );
}

#[test]
fn addresses_are_of_the_web_and_hold_no_credentials() {
    assert!(validate_url("https://example.test/sub?token=1").is_ok());
    assert!(validate_url("HTTP://example.test").is_ok());
    assert_eq!(
        validate_url("ftp://example.test/a"),
        Err(SubscriptionError::UnsupportedScheme)
    );
    assert_eq!(
        validate_url("file:///etc/passwd"),
        Err(SubscriptionError::UnsupportedScheme)
    );
    assert_eq!(validate_url("https://user@example.test"), Err(SubscriptionError::Credentials));
    assert_eq!(validate_url("https://:pw@example.test"), Err(SubscriptionError::Credentials));
    let error = validate_url("not a url").unwrap_err();
    assert_eq!(
        error,
        SubscriptionError::InvalidUrl("relative URL without a base".to_owned())
    );
    assert_eq!(error.message(), "relative URL without a base");
    assert_eq!(
        SubscriptionError::UnsupportedScheme.message(),
        "Subscription URL must use HTTP or HTTPS"
    );
    assert_eq!(
        SubscriptionError::Credentials.message(),
        "Subscription URL credentials are not supported; use a tokenized URL"
    );
}

#[test]
fn the_scheme_is_checked_before_the_credentials() {
    let parts = |scheme: &str, username: &str, has_password: bool| {
        Ok(UrlParts {
            scheme: scheme.to_owned(),
            username: username.to_owned(),
            has_password,
        })
    };
    assert_eq!(check_url_parts(parts("http", "", false)), Ok(()));
    assert_eq!(check_url_parts(parts("https", "", false)), Ok(()));
    assert_eq!(
        check_url_parts(parts("httpx", "u", true)),
        Err(SubscriptionError::UnsupportedScheme)
    );
    assert_eq!(
        check_url_parts(parts("http", "u", false)),
        Err(SubscriptionError::Credentials)
    );
    assert_eq!(
        check_url_parts(parts("http", "", true)),
        Err(SubscriptionError::Credentials)
    );
}

#[test]
fn profiles_are_yaml_mappings() {
    assert_eq!(validate_yaml(b"\xff\xfe"), Err(SubscriptionError::NotUtf8));
    assert_eq!(validate_yaml(" \n\t\u{3000}".as_bytes()), Err(SubscriptionError::Empty));
    assert_eq!(validate_yaml(b"- a\n- b\n"), Err(SubscriptionError::NotMapping));
    assert_eq!(validate_yaml(b"text"), Err(SubscriptionError::NotMapping));
    let error = validate_yaml(b"a: [1, 2").unwrap_err();
    assert!(matches!(error, SubscriptionError::InvalidYaml(_)));
    assert!(error.message().starts_with("Subscription is not valid YAML: "));
    assert!(error.message().len() > "Subscription is not valid YAML: ".len());
    assert_eq!(
        SubscriptionError::NotUtf8.message(),
        "Subscription response is not valid UTF-8"
    );
    assert_eq!(SubscriptionError::Empty.message(), "Subscription response is empty");
    assert_eq!(
        SubscriptionError::NotMapping.message(),
        "Subscription YAML must contain a top-level mapping"
    );
    assert_eq!(check_mapping(Ok(true)), Ok(()));
    assert_eq!(check_mapping(Ok(false)), Err(SubscriptionError::NotMapping));
    assert_eq!(
        check_mapping(Err("why".to_owned())),
        Err(SubscriptionError::InvalidYaml("why".to_owned()))
    );
}

#[test]
fn downloads_are_refused_before_anything_is_asked_for() {
    let service = SubscriptionService::new("2.3.4");
    assert_eq!(service.user_agent, "slint-clash/2.3.4");
    assert_eq!(service.connect_timeout_ms, 5000);
    assert_eq!(service.timeout_ms, 30_000);
    assert_eq!(service.clone(), service);
    assert_eq!(
        service.download("ftp://x", "CON").err(),
        Some(SubscriptionError::NameCharacters)
    );
    assert_eq!(
        service.download("ftp://x", "Work").err(),
        Some(SubscriptionError::UnsupportedScheme)
    );
    assert!(service.download("http://x", "Work").is_ok());
}

#[test]
fn large_profiles_are_refused() {
    let limit = MAX_PROFILE_SIZE as u64;
    assert_eq!(ProfileDownload::announce(Some(limit + 1)), Err(SubscriptionError::TooLarge));
    assert_eq!(ProfileDownload::announce(Some(limit)), Ok(MAX_PROFILE_SIZE));
    assert_eq!(ProfileDownload::announce(Some(0)), Ok(0));
    assert_eq!(ProfileDownload::announce(None), Ok(65536));

    let service = SubscriptionService::new("1");
    let full = vec![b'a'; MAX_PROFILE_SIZE];
    let download = service.download("http://x", "Work").unwrap();
    let download = download.append(&full).unwrap();
    let download = download.append(b"").unwrap();
    assert_eq!(download.append(b"a").err(), Some(SubscriptionError::TooLarge));
    assert_eq!(
        SubscriptionError::TooLarge.message(),
        "Subscription is larger than 16 MiB"
    );
}

#[test]
fn only_the_profile_of_a_plan_is_listed() {
    let plan = read(b"a: 1\n", "Work 2").stage(directory(), true, true, 90).unwrap();
    let mut files: Vec<String> = Vec::new();
    for step in &plan.steps {
        match &step.action {
            FileAction::Write { file } => files.push(file.clone()),
            FileAction::Rename { to, .. } => files.push(to.clone()),
            FileAction::Remove { .. } => {}
        }
    }
    assert_eq!(
        files,
        vec![
            ".Work 2.90.download".to_owned(),
            ".Work 2.90.backup".to_owned(),
            "Work 2.yaml".to_owned(),
        ]
    );
    assert_eq!(profile_name(&files[0]), None);
    assert_eq!(profile_name(&files[1]), None);
    assert_eq!(profile_name(&files[2]), Some("Work 2".to_owned()));
    for file in &files {
        assert!(is_file_name(file));
    }
}

#[test]
fn a_rollback_restores_a_profile_that_was_deleted() {
    let mut disk: Files = BTreeMap::new();
    disk.insert("Work.yaml".to_owned(), b"old: 1\n".to_vec());
    let before = disk.clone();
    let plan = read(b"new: 1\n", "Work").stage(directory(), true, true, 5).unwrap();
    carry_out(&mut disk, &plan.steps, &plan.bytes, usize::MAX);
    disk.remove("Work.yaml");
    for action in plan.staged.rollback(false) {
        perform(&mut disk, &action, &[]);
    }
    assert_eq!(disk, before);
}
