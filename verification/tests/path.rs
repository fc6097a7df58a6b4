use slint_clash::path::{
    file_profile, has_yaml_extension, is_file_name, path_requires_file, profile_name, requires_file, Base,
    Location,
};

#[test]
fn recognizes_only_yaml_profile_files() {
    assert_eq!(profile_name("example.yaml"), Some("example".to_owned()));
    assert_eq!(profile_name("example.txt"), None);
}

#[test]
fn extensions_are_read_as_the_platform_does() {
    for name in [
        "a.yaml", "a.yml", "a.YAML", ".yaml", "a", "a.", "..yaml", ".a.yml", "a.b.yaml", "a.yaml.",
        "é.yml", " .yaml", "yaml", "a.yamls", "...yml", "..yml.", "a..yaml",
    ] {
        let path = std::path::PathBuf::from(name);
        let extension = path.extension().map(|part| part.to_str().unwrap());
        let expected = match extension {
            Some("yaml") | Some("yml") => {
                path.file_stem().map(|part| part.to_str().unwrap().to_owned())
            }
            _ => None,
        };
        assert_eq!(profile_name(name), expected);
        assert_eq!(file_profile(name), expected);
        assert_eq!(has_yaml_extension(name), expected.is_some());
    }
}

#[test]
fn a_profile_is_named_without_its_directory() {
    assert_eq!(profile_name("d/work.v2.yml"), Some("work.v2".to_owned()));
    assert_eq!(profile_name("d/.yaml"), None);
    for text in [
        "/d/a.yaml", "d/a.YAML", "d.yaml/a", "d.yaml/", "d/a.yaml/", "d/a.yaml/.", "d/..", "a.yml/..",
        "d/..yaml", "//d/a.yml", "./a.yaml", "../a.yml", "d:/a.yaml", "d/a:b.yaml", "", ".", "..",
        "a:b.yaml", "/", "/.yml",
    ] {
        let path = std::path::Path::new(text);
        let expected = match path.extension().map(|part| part.to_str().unwrap()) {
            Some("yaml") | Some("yml") => {
                path.file_stem().map(|part| part.to_str().unwrap().to_owned())
            }
            _ => None,
        };
        assert_eq!(profile_name(text), expected);
    }
}

#[test]
fn a_file_name_is_its_own_last_component() {
    for name in [
        "", ".", "..", "...", "a", "a.yaml", "a/", "/a", "a/b", "./a", "a/.", "a/..", "../a", "//a",
        "é", " ", "a b", "-", "a//",
    ] {
        let path = std::path::Path::new(name);
        assert_eq!(is_file_name(name), path.file_name() == Some(path.as_os_str()));
    }
    assert!(is_file_name("Work 2026"));
    assert!(!is_file_name("../work"));
}

#[test]
fn bare_program_names_need_no_file() {
    for name in [
        "mihomo", "./mihomo", "bin/mihomo", "/usr/bin/mihomo", "", ".", "..", "mihomo/", "/",
        "../mihomo", "a/./b", "a/.", "//x", "a//", "./.",
    ] {
        let path = std::path::Path::new(name);
        let expected = path.is_absolute() || path.components().count() > 1;
        assert_eq!(path_requires_file(name), expected);
    }
    assert!(!path_requires_file("mihomo"));
    assert!(path_requires_file("bin/mihomo"));
    assert!(requires_file(true, 1));
    assert!(requires_file(false, 2));
    assert!(!requires_file(false, 1));
}

#[test]
fn places_are_built_from_names() {
    let place = Location::named("base").child("a").child("b");
    assert_eq!(place.base, Base::Named("base".to_owned()));
    assert_eq!(place.children, vec!["a".to_owned(), "b".to_owned()]);
    assert_eq!(Location::platform(None), Location::named("."));
    assert_eq!(place.clone(), place);
    let platform = Location::platform(Some(std::path::PathBuf::from("/home/./user//")));
    match platform.clone().base {
        Base::Platform(dir) => assert_eq!(dir.as_os_str(), "/home/./user//"),
        Base::Named(_) => panic!("the platform named it"),
    }
}
