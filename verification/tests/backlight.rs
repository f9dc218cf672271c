use picam::backlight::{Backlight, BacklightEntry};

fn entry(dir: &str, has_brightness: bool, has_max: bool, max: Option<&str>) -> BacklightEntry {
    BacklightEntry {
        dir: dir.to_string(),
        has_brightness,
        has_max,
        max_text: max.map(|m| m.to_string()),
    }
}

#[test]
fn the_first_usable_device_is_detected() {
    let b = Backlight::detect(&vec![
        entry("/sys/class/backlight/a", true, false, None),
        entry("/sys/class/backlight/10-0045", true, true, Some("255\n")),
        entry("/sys/class/backlight/z", true, true, Some("31")),
    ])
    .unwrap();
    let on = b.on();
    assert_eq!(on.path, "/sys/class/backlight/10-0045/brightness");
    assert_eq!(on.value, "255");
    let off = b.off();
    assert_eq!(off.path, "/sys/class/backlight/10-0045/brightness");
    assert_eq!(off.value, "0");
    assert_eq!(b.sleeping_changed(true).value, "0");
    assert_eq!(b.sleeping_changed(false).value, "255");
}

#[test]
fn without_a_usable_device_there_is_none() {
    assert!(Backlight::detect(&vec![]).is_none());
    assert!(Backlight::detect(&vec![entry("/a", false, true, Some("1"))]).is_none());
}

#[test]
fn a_device_of_unknown_brightness_ends_the_search() {
    for max in [None, Some("bright"), Some(""), Some("-1"), Some("4294967296"), Some("+")] {
        let entries = vec![entry("/a", true, true, max), entry("/b", true, true, Some("9"))];
        assert!(Backlight::detect(&entries).is_none());
    }
}

#[test]
fn numbers_are_read_as_they_are_written() {
    for (text, value) in [
        ("0", "0"),
        (" 7 ", "7"),
        ("+12\n", "12"),
        ("\u{a0}007\t", "7"),
        ("4294967295", "4294967295"),
    ] {
        let b = Backlight::detect(&vec![entry("/a", true, true, Some(text))]).unwrap();
        assert_eq!(b.on().value, value);
    }
}

#[test]
fn failures_are_reported_once() {
    let mut b = Backlight::detect(&vec![entry("/a", true, true, Some("9"))]).unwrap();
    assert!(b.write_failed());
    assert!(!b.write_failed());
    assert_eq!(b.on().value, "9");
}
