use picam::gallery::{
    delete, delete_succeeded, file_extension, gallery_item, is_admitted, media_kind, media_roots,
    preview_path, scan, thumb_path, time_of, DirEntry, DirListing, EntryKind,
};

fn file(name: &[u8]) -> DirEntry {
    DirEntry { name: name.to_vec(), kind: EntryKind::File }
}

fn entries(dir: &str, files: Vec<DirEntry>) -> DirListing {
    DirListing { dir: dir.to_string(), real_dir: dir.as_bytes().to_vec(), files: Some(files) }
}

fn listing(dir: &str, names: &[&str]) -> DirListing {
    entries(dir, names.iter().map(|n| file(n.as_bytes())).collect())
}

fn missing(dir: &str) -> DirListing {
    DirListing { dir: dir.to_string(), real_dir: dir.as_bytes().to_vec(), files: None }
}

fn paths(listings: Vec<DirListing>) -> Vec<String> {
    scan(&listings).into_iter().map(|i| i.path).collect()
}

#[test]
fn scan_empty_dir_returns_empty() {
    let items = scan(&vec![listing("/tmp/picam_test", &[])]);
    assert!(items.is_empty());
}

#[test]
fn scan_classifies_extensions() {
    let items = scan(&vec![listing(
        "/tmp/picam_test",
        &["a.jpg", "b.mp4", "c.txt", "d.png", "e.h264"],
    )]);
    let names: Vec<&str> = items.iter().map(|i| i.name.as_str()).collect();
    // .txt must be excluded
    assert!(!names.contains(&"c.txt"));
    // jpg and png are photos
    let jpg = items.iter().find(|i| i.name == "a.jpg").unwrap();
    assert!(!jpg.is_video);
    // mp4 and h264 are videos
    let mp4 = items.iter().find(|i| i.name == "b.mp4").unwrap();
    assert!(mp4.is_video);
    assert_eq!(names, vec!["e.h264", "d.png", "b.mp4", "a.jpg"]);
    assert_eq!(jpg.path, "/tmp/picam_test/a.jpg");
}

#[test]
fn delete_existing_file_returns_true() {
    let removed = delete("/tmp/picam_test/test.jpg", true, false);
    assert_eq!(removed, vec!["/tmp/picam_test/test.jpg"]);
    assert!(delete_succeeded(true, true));
}

#[test]
fn delete_missing_file_returns_false() {
    assert!(delete("/tmp/picam_test_nonexistent_xyz.jpg", false, false).is_empty());
    assert!(!delete_succeeded(false, false));
    assert!(!delete_succeeded(false, true));
}

#[test]
fn scan_missing_dir_returns_empty() {
    assert!(scan(&vec![missing("/tmp/picam_test_no_such_dir_xyz")]).is_empty());
}

#[test]
fn delete_takes_the_thumbnail_along() {
    let removed = delete("/v/VID_1.mp4", true, true);
    assert_eq!(removed, vec!["/v/VID_1.thumb.jpg", "/v/VID_1.mp4"]);
    assert!(delete("/v/VID_1.mp4", false, true).is_empty());
}

#[test]
fn the_gallery_is_newest_first_over_all_directories() {
    assert_eq!(
        paths(vec![
            listing("/p", &["IMG_1700000000001.jpg", "IMG_1700000000004.jpg"]),
            missing("/x"),
            listing("/v", &["VID_1700000000002.mp4", "VID_1700000000002.thumb.jpg"]),
            listing("/t", &["timelapse_1700000000003.mp4"]),
        ]),
        vec![
            "/p/IMG_1700000000004.jpg",
            "/t/timelapse_1700000000003.mp4",
            "/v/VID_1700000000002.mp4",
            "/p/IMG_1700000000001.jpg",
        ]
    );
}

#[test]
fn times_compare_as_numbers() {
    assert_eq!(
        paths(vec![listing("/p", &["IMG_999.jpg", "IMG_1000.jpg", "IMG_0998.jpg"])]),
        vec!["/p/IMG_1000.jpg", "/p/IMG_999.jpg", "/p/IMG_0998.jpg"]
    );
}

#[test]
fn files_of_one_time_go_by_their_paths() {
    assert_eq!(
        paths(vec![
            listing("/a", &["IMG_5_01.jpg", "IMG_5_03.jpg", "IMG_5_02.jpg"]),
            listing("/b", &["VID_5.mp4", "IMG_6.jpg"]),
        ]),
        vec![
            "/b/IMG_6.jpg",
            "/a/IMG_5_03.jpg",
            "/a/IMG_5_02.jpg",
            "/a/IMG_5_01.jpg",
            "/b/VID_5.mp4",
        ]
    );
}

#[test]
fn files_of_other_names_stand_where_their_paths_do() {
    assert_eq!(paths(vec![listing("/p", &["a1.jpg", "c.jpg"])]), vec!["/p/c.jpg", "/p/a1.jpg"]);
    assert_eq!(
        paths(vec![
            listing("/a", &["x.jpg", "B9.jpg", "holiday_2000.png"]),
            listing("/b", &["x.jpg", "b.jpg", "ab.jpg", "1700000000000.jpg"]),
        ]),
        vec![
            "/a/x.jpg",
            "/a/holiday_2000.png",
            "/a/B9.jpg",
            "/b/x.jpg",
            "/b/b.jpg",
            "/b/ab.jpg",
            "/b/1700000000000.jpg",
        ]
    );
}

#[test]
fn captures_go_by_time_among_files_of_other_names() {
    assert_eq!(
        paths(vec![
            listing("/p", &["IMG_1.jpg", "IMG_3.jpg", "x.jpg", "A.jpg"]),
            listing("/v", &["VID_4.mp4", "clip.mkv", "VID_2.mp4"]),
        ]),
        vec![
            "/p/x.jpg",
            "/v/VID_4.mp4",
            "/p/IMG_3.jpg",
            "/p/A.jpg",
            "/v/clip.mkv",
            "/v/VID_2.mp4",
            "/p/IMG_1.jpg",
        ]
    );
}

#[test]
fn times_are_read_from_the_names() {
    assert_eq!(time_of(b"IMG_1700000000001.jpg"), Some(1_700_000_000_001));
    assert_eq!(time_of(b"IMG_17_03.jpg"), Some(17));
    assert_eq!(time_of(b"VID_0042.mp4"), Some(42));
    assert_eq!(time_of(b"timelapse_9.mp4"), Some(9));
    for max in ["340282366920938463463374607431768211455", "340282366920938463463374607431768211456"]
    {
        assert_eq!(time_of(format!("IMG_{max}.jpg").as_bytes()), Some(u128::MAX));
        assert_eq!(time_of(format!("VID_{max}{max}.mp4").as_bytes()), Some(u128::MAX));
    }
}

#[test]
fn other_names_tell_no_time() {
    let names = [
        "", "clip.h264", "7", "7.jpg", "a1.jpg", "IMG_", "IMG_.jpg", "IMG_5", "IMG_5x.jpg",
        "img_5.jpg", "xIMG_5.jpg", "IMG5.jpg", "VID_x5.mp4", "frame_000007.jpg",
    ];
    for name in names {
        assert_eq!(time_of(name.as_bytes()), None);
    }
}

#[test]
fn links_that_lead_elsewhere_are_not_shown() {
    let link = |name: &str, target: Option<&str>| DirEntry {
        name: name.as_bytes().to_vec(),
        kind: EntryKind::Link(target.map(|t| t.as_bytes().to_vec())),
    };
    let other = DirEntry { name: b"d.jpg".to_vec(), kind: EntryKind::Other };
    let listings = vec![
        entries(
            "/p",
            vec![
                link("x.jpg", Some("/etc/passwd")),
                link("y.jpg", Some("/v/b.jpg")),
                link("z.jpg", None),
                link("w.jpg", Some("/vv/b.jpg")),
                link("v.jpg", Some("/v/")),
                other,
                file(b"a.jpg"),
            ],
        ),
        listing("/v", &["b.jpg"]),
    ];
    let roots = media_roots(&listings);
    assert_eq!(roots, vec![b"/p".to_vec(), b"/v".to_vec()]);
    assert!(!is_admitted(&EntryKind::Link(Some(b"/x".to_vec())), &roots));
    assert!(!is_admitted(&EntryKind::Link(Some(b"/x".to_vec())), &vec![vec![]]));
    assert!(is_admitted(&EntryKind::Link(Some(b"/x".to_vec())), &vec![b"/".to_vec()]));
    assert_eq!(paths(listings), vec!["/p/y.jpg", "/p/a.jpg", "/v/b.jpg"]);
}

#[test]
fn deletions_succeed_with_the_file_itself() {
    assert!(delete_succeeded(true, true));
    assert!(!delete_succeeded(true, false));
    assert!(!delete_succeeded(false, true));
}

#[test]
fn extensions_are_read_in_small_letters() {
    assert_eq!(file_extension(b"A.JPG"), "jpg");
    assert_eq!(file_extension(b"a.tar.MKV"), "mkv");
    assert_eq!(file_extension(b".jpg"), "");
    assert_eq!(file_extension(b"jpg"), "");
    assert_eq!(file_extension(b"a."), "");
    assert_eq!(file_extension(&[b'a', b'.', 255]), "");
    assert_eq!(file_extension("a.ÄÖ".as_bytes()), "äö");
}

#[test]
fn kinds_go_by_the_extension() {
    for ext in ["mp4", "h264", "mkv"] {
        assert_eq!(media_kind(ext), Some(true));
    }
    for ext in ["jpg", "jpeg", "png", "dng"] {
        assert_eq!(media_kind(ext), Some(false));
    }
    for ext in ["", "txt", "JPG", "toml"] {
        assert_eq!(media_kind(ext), None);
    }
}

#[test]
fn names_that_are_no_text_are_shown_all_the_same() {
    let name = [b'a', 255, b'.', b'j', b'p', b'g'];
    let item = gallery_item("/p", &name).unwrap();
    assert_eq!(item.name, "a\u{fffd}.jpg");
    assert_eq!(item.path, "/p/a\u{fffd}.jpg");
    assert!(!item.is_video);
}

#[test]
fn directories_may_end_in_a_slash() {
    assert_eq!(gallery_item("/p/", b"a.jpg").unwrap().path, "/p/a.jpg");
    assert_eq!(gallery_item("", b"a.jpg").unwrap().path, "a.jpg");
    assert!(gallery_item("/p", b"a.thumb.jpg").is_none());
    assert!(gallery_item("/p", b"a.thumb.JPG").is_some());
}

#[test]
fn thumbnails_stand_beside_their_videos() {
    assert_eq!(thumb_path("/v/VID_1.mp4"), "/v/VID_1.thumb.jpg");
    assert_eq!(thumb_path("/v.d/clip"), "/v.d/clip.thumb.jpg");
    assert_eq!(thumb_path("a.b.mkv"), "a.b.thumb.jpg");
    assert_eq!(thumb_path("/v/.hidden"), "/v/.hidden.thumb.jpg");
    assert_eq!(preview_path("/v/VID_1.mp4", true), "/v/VID_1.thumb.jpg");
    assert_eq!(preview_path("/p/IMG_1.jpg", false), "/p/IMG_1.jpg");
}

#[test]
fn thumbnails_of_unusual_paths_are_std_s() {
    for path in ["", "/", "..", "a/..", "/v/clip.mp4/", "..mp4"] {
        let expected = std::path::Path::new(path).with_extension("thumb.jpg");
        assert_eq!(thumb_path(path), expected.to_str().unwrap());
    }
}
