use ryu_clips::local::{allowed_bases, local_ingest_allowed, video_extension_ok};

fn bytes(path: &str) -> Vec<u8> {
    path.as_bytes().to_vec()
}

fn folders(paths: Vec<&str>) -> Vec<Vec<u8>> {
    paths.into_iter().map(bytes).collect()
}

#[test]
fn local_ingest_rejects_paths_outside_allowlist_and_honors_env_extra_roots() {
    let dir: Vec<u8> = bytes("/tmp/ryu-clips-ingest-test-1");
    let canonical: Vec<u8> = bytes("/tmp/ryu-clips-ingest-test-1/video.mp4");
    let home: Vec<u8> = bytes("/home/ada");
    assert!(
        !local_ingest_allowed(&canonical, &allowed_bases(Some(&home), None)),
        "a temp-dir file must be rejected by the default allowlist"
    );
    assert!(
        local_ingest_allowed(&canonical, &allowed_bases(Some(&home), Some(&dir))),
        "RYU_CLIPS_ALLOWED_DIRS must extend the allowlist"
    );
}

#[test]
fn the_media_folders_are_allowed() {
    let home: Vec<u8> = bytes("/home/ada");
    let bases = allowed_bases(Some(&home), None);
    assert_eq!(
        bases,
        folders(vec!["/home/ada/Movies", "/home/ada/Downloads", "/home/ada/Desktop"])
    );
    assert!(local_ingest_allowed(&bytes("/home/ada/Movies/a/b.mp4"), &bases));
    assert!(local_ingest_allowed(&bytes("/home/ada/Desktop/b.mp4"), &bases));
    assert!(!local_ingest_allowed(&bytes("/home/ada/b.mp4"), &bases));
    assert!(!local_ingest_allowed(&bytes("/home/ada/Documents/b.mp4"), &bases));
}

#[test]
fn without_a_home_there_are_no_media_folders() {
    assert_eq!(allowed_bases(None, None), Vec::<Vec<u8>>::new());
    assert!(!local_ingest_allowed(&bytes("/a.mp4"), &allowed_bases(None, None)));
}

#[test]
fn extra_folders_are_split_at_colons() {
    assert_eq!(
        allowed_bases(None, Some(&bytes("/a:/b/c::/d"))),
        folders(vec!["/a", "/b/c", "", "/d"])
    );
    assert_eq!(allowed_bases(None, Some(&bytes(""))), folders(vec![""]));
}

#[test]
fn folders_are_compared_by_whole_names() {
    let bases = folders(vec!["/srv/media"]);
    assert!(local_ingest_allowed(&bytes("/srv/media"), &bases));
    assert!(local_ingest_allowed(&bytes("/srv/media/x"), &bases));
    assert!(!local_ingest_allowed(&bytes("/srv/media2/x"), &bases));
    assert!(!local_ingest_allowed(&bytes("/srv"), &bases));
    assert!(local_ingest_allowed(&bytes("/srv/media/x"), &folders(vec!["/"])));
}

#[test]
fn folders_hold_what_the_standard_library_says() {
    let paths: Vec<&str> = vec![
        "/", "/a", "/a/b", "/a/bc", "/ab/c", "/a/b/c.mp4", "/b", "a", "a/b", ".", "./a", "./.", "a/.",
        "/.", "/./a", "/a/./b", "/a//b/", "//a", "..", "../a", "/a/..", ".a", "/.a",
    ];
    for path in &paths {
        for base in &paths {
            let want: bool = std::path::Path::new(path).starts_with(base);
            assert_eq!(
                local_ingest_allowed(&bytes(path), &folders(vec![*base])),
                want,
                "on {path} in {base}"
            );
        }
    }
}

#[test]
fn a_relative_path_is_in_no_absolute_folder() {
    assert!(!local_ingest_allowed(&bytes("a"), &folders(vec!["/a"])));
    assert!(!local_ingest_allowed(&bytes("/a"), &folders(vec!["a"])));
    assert!(!local_ingest_allowed(&bytes("/a"), &folders(vec![""])));
}

#[test]
fn more_folders_allow_more() {
    let file: Vec<u8> = bytes("/a/x.mp4");
    assert!(local_ingest_allowed(&file, &folders(vec!["/a"])));
    assert!(local_ingest_allowed(&file, &folders(vec!["/b", "/a"])));
    assert!(local_ingest_allowed(&file, &folders(vec!["/a", "/b"])));
    assert!(!local_ingest_allowed(&file, &folders(vec!["/b"])));
}

#[test]
fn videos_are_told_by_their_extension() {
    assert!(video_extension_ok(&bytes("/a/x.mp4")));
    assert!(video_extension_ok(&bytes("/a/x.MOV")));
    assert!(video_extension_ok(&bytes("/a/x.y.mkv")));
    assert!(video_extension_ok(&bytes("/a/x.WebM")));
    assert!(video_extension_ok(b"/a/\xFF.mp4".as_ref().to_vec().as_ref()));
    assert!(!video_extension_ok(&bytes("/a/x.avi")));
    assert!(!video_extension_ok(&bytes("/a/x.mp4.txt")));
    assert!(!video_extension_ok(&bytes("/a/xmp4")));
    assert!(!video_extension_ok(&bytes("/a/.mp4")));
    assert!(!video_extension_ok(&bytes("/a.mp4/x")));
    assert!(!video_extension_ok(&bytes("/")));
}

#[test]
fn extensions_are_those_of_the_standard_library() {
    let names: Vec<&str> = vec![
        "x.mp4", ".mp4", "..mp4", "x.", "x..mp4", "x.mp4.", "mp4", "x.Mp4", "x.mp", "x.mp44", "x.webm",
        "webm", "\u{e9}.mkv", "a.b.mov", "x.\u{e9}p4",
    ];
    for name in names {
        let path: String = format!("/dir/{name}");
        let want: bool = std::path::Path::new(&path)
            .extension()
            .and_then(|e| e.to_str())
            .map(|e| ["mp4", "mov", "mkv", "webm"].contains(&e.to_ascii_lowercase().as_str()))
            .unwrap_or(false);
        assert_eq!(video_extension_ok(&bytes(&path)), want, "on {name}");
    }
}
