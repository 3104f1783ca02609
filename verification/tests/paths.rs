use ryu_clips::paths::{
    config_dir, config_dir_given, config_dir_in, default_ryu_dir, default_ryu_dir_in, join,
    pointer_path, pointer_path_given, resolve, resolve_in, ryu_dir, suffix, DataPathPointer, RELEASE_PROFILE,
};

fn text(path: Vec<u8>) -> String {
    String::from_utf8(path).unwrap()
}

fn pointer(dir: &str) -> DataPathPointer {
    DataPathPointer { data_dir: Some(dir.to_string()) }
}

#[test]
fn suffix_is_empty_for_release_and_suffixed_otherwise() {
    assert_eq!(suffix(Some(RELEASE_PROFILE)), "");
    assert_eq!(suffix(Some("dev")), "-dev");
    assert_eq!(suffix(Some("  staging  ")), "-staging");
    assert_eq!(suffix(Some("   ")), "");
    assert_eq!(suffix(None), "");
}

#[test]
fn suffix_is_empty_for_a_padded_release() {
    assert_eq!(suffix(Some("  release  ")), "");
    assert_eq!(suffix(Some("release\n")), "");
    assert_eq!(suffix(Some("Release")), "-Release");
    assert_eq!(suffix(Some("release2")), "-release2");
}

#[test]
fn default_ryu_dir_carries_the_profile_suffix() {
    assert!(text(default_ryu_dir(Some("dev"))).ends_with(".ryu-dev"));
    assert!(text(default_ryu_dir(None)).ends_with(".ryu"));
}

#[test]
fn default_ryu_dir_stands_in_the_home_directory() {
    assert_eq!(
        text(default_ryu_dir_in(Some(b"/home/ada".to_vec()), Some("dev"))),
        "/home/ada/.ryu-dev"
    );
    assert_eq!(text(default_ryu_dir_in(None, None)), "./.ryu");
}

#[test]
fn config_and_pointer_paths_use_the_suffix() {
    assert!(text(config_dir(Some("dev"))).contains("ryu-dev"));
    assert!(text(pointer_path(Some("dev"))).ends_with("/data-path.json"));
    assert_eq!(text(config_dir_in(b"/home/ada/.config", Some("dev"))), "/home/ada/.config/ryu-dev");
    assert_eq!(text(config_dir_in(b"/home/ada/.config", None)), "/home/ada/.config/ryu");
}

#[test]
fn the_pointer_stands_in_the_config_dir() {
    let mut want: Vec<u8> = config_dir(None);
    want.extend_from_slice(b"/data-path.json");
    assert_eq!(pointer_path(None), want);
}

#[test]
fn the_user_directories_are_those_of_the_platform() {
    let home = dirs::home_dir().map(|p| p.to_str().unwrap().as_bytes().to_vec());
    assert_eq!(default_ryu_dir(None), default_ryu_dir_in(home, None));
    if let Some(dir) = dirs::config_dir() {
        assert_eq!(config_dir(None), config_dir_in(dir.to_str().unwrap().as_bytes(), None));
    }
}

#[test]
fn resolve_prefers_ryu_dir_env() {
    let want: Vec<u8> = b"/tmp/ryu-clips-paths-resolve".to_vec();
    assert_eq!(resolve(Some(&want), &DataPathPointer::default(), None), want);
    assert_eq!(resolve(Some(&want), &pointer("/x"), Some("dev")), want);
}

#[test]
fn resolve_ignores_empty_ryu_dir_env_and_falls_back_to_default() {
    let empty: Vec<u8> = Vec::new();
    assert!(text(resolve(Some(&empty), &DataPathPointer::default(), None)).ends_with(".ryu"));
}

#[test]
fn resolve_follows_the_pointer_unless_it_is_empty() {
    let home: Option<Vec<u8>> = Some(b"/home/ada".to_vec());
    assert_eq!(text(resolve_in(None, &pointer("/x"), home.clone(), None)), "/x");
    assert_eq!(text(resolve_in(None, &pointer(""), home.clone(), None)), "/home/ada/.ryu");
    assert_eq!(
        text(resolve_in(None, &DataPathPointer::default(), home, Some("dev"))),
        "/home/ada/.ryu-dev"
    );
}

#[test]
fn the_default_pointer_names_nothing() {
    assert!(DataPathPointer::default().data_dir.is_none());
}

#[test]
fn ryu_dir_is_cached_and_stable() {
    let mut cache: Option<Vec<u8>> = None;
    let a = ryu_dir(&mut cache, None, &DataPathPointer::default(), None);
    let b = ryu_dir(&mut cache, Some(&b"/elsewhere".to_vec()), &pointer("/x"), Some("dev"));
    assert_eq!(a, b);
    assert!(!a.is_empty());
    assert_eq!(cache, Some(a));
}

#[test]
fn join_puts_one_separator_between() {
    assert_eq!(text(join(b"/a", "b")), "/a/b");
    assert_eq!(text(join(b"/a/", "b")), "/a/b");
    assert_eq!(text(join(b"", "b")), "b");
    assert_eq!(text(join(b"/a", "/b")), "/b");
    assert_eq!(text(join(b"/a", "")), "/a/");
}

#[test]
fn join_does_what_the_standard_library_does() {
    let bases: Vec<&str> = vec!["/a", "/a/", "", "a/b", "/"];
    let names: Vec<&str> = vec!["b", "/b", "", "b/c"];
    for base in &bases {
        for name in &names {
            let want = std::path::Path::new(base).join(name);
            assert_eq!(text(join(base.as_bytes(), name)), want.to_str().unwrap());
        }
    }
}

#[test]
fn profiles_have_directories_of_their_own() {
    let home: Option<Vec<u8>> = Some(b"/home/ada".to_vec());
    let dev = default_ryu_dir_in(home.clone(), Some("dev"));
    assert_ne!(dev, default_ryu_dir_in(home.clone(), Some("staging")));
    assert_ne!(dev, default_ryu_dir_in(home.clone(), None));
    assert_eq!(dev, default_ryu_dir_in(home, Some(" dev ")));
}

#[test]
fn the_config_dir_is_that_of_the_user_where_it_is_known() {
    let known: Option<Vec<u8>> = Some(b"/home/ada/.config".to_vec());
    let home: Option<Vec<u8>> = Some(b"/home/ada".to_vec());
    assert_eq!(
        text(config_dir_given(known.clone(), home.clone(), Some("dev"))),
        "/home/ada/.config/ryu-dev"
    );
    assert_eq!(
        text(pointer_path_given(known.clone(), home, None)),
        "/home/ada/.config/ryu/data-path.json"
    );
    assert_eq!(
        text(pointer_path_given(known, None, Some(" release "))),
        "/home/ada/.config/ryu/data-path.json"
    );
}

#[test]
fn without_a_config_dir_the_pointer_stands_beside_the_data_dir() {
    let home: Option<Vec<u8>> = Some(b"/home/ada".to_vec());
    assert_eq!(text(config_dir_given(None, home.clone(), None)), "/home/ada/ryu");
    assert_eq!(text(config_dir_given(None, None, Some("dev"))), "./ryu-dev");
    assert_eq!(
        text(pointer_path_given(None, home.clone(), Some("dev"))),
        "/home/ada/ryu-dev/data-path.json"
    );
    for profile in [None, Some("dev"), Some("\u{e9}"), Some("a/b"), Some("/"), Some("a/.ryu-a/")] {
        for home in [home.clone(), None] {
            let data = text(default_ryu_dir_in(home.clone(), profile));
            let config = text(config_dir_given(None, home.clone(), profile));
            let pointer = text(pointer_path_given(None, home, profile));
            assert!(!std::path::Path::new(&config).starts_with(&data));
            assert!(!std::path::Path::new(&pointer).starts_with(&data));
        }
    }
}

#[test]
fn the_user_config_dir_decides_where_the_pointer_is() {
    let known = dirs::config_dir().map(|p| p.to_str().unwrap().as_bytes().to_vec());
    let home = dirs::home_dir().map(|p| p.to_str().unwrap().as_bytes().to_vec());
    assert_eq!(
        config_dir(Some("dev")),
        config_dir_given(known.clone(), home.clone(), Some("dev"))
    );
    assert_eq!(pointer_path(Some("dev")), pointer_path_given(known, home, Some("dev")));
}
