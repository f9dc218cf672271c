use picam::config::{path, startup, Config, ConfigFile};

fn defaults() -> Config<f32> {
    Config::neutral(0.0, 1.0)
}

#[test]
fn defaults_are_as_documented() {
    let c = defaults();
    assert_eq!((c.camera.iso_idx, c.camera.shutter_idx, c.camera.awb_idx), (0, 0, 0));
    assert_eq!((c.camera.ev, c.camera.brightness), (0.0, 0.0));
    assert_eq!((c.camera.contrast, c.camera.saturation, c.camera.sharpness), (1.0, 1.0, 1.0));
    assert_eq!(c.camera.zoom, 1.0);
    assert_eq!(
        (c.capture.photo_res_idx, c.capture.video_res_idx, c.capture.tl_res_idx),
        (0, 0, 0)
    );
    assert!(!c.capture.raw_enabled);
    assert!(c.capture.stream_enabled);
    assert_eq!((c.general.self_timer_idx, c.general.burst_count_idx), (0, 0));
    assert!(c.general.last_shot_enabled);
    assert_eq!(c.general.sleep_timeout_idx, 0);
    assert_eq!(c.stream.local_port, 8080);
    assert!(!c.stream.local_enabled);
    assert_eq!(c.stream.push_url, "");
    assert!(!c.stream.push_enabled);
}

#[test]
fn the_file_is_below_the_home_directory() {
    assert_eq!(path(Some("/home/x")), "/home/x/.config/picam-rs/config.toml");
    assert_eq!(path(Some("/")), "/.config/picam-rs/config.toml");
    assert_eq!(path(Some("")), ".config/picam-rs/config.toml");
    assert_eq!(path(None), "/home/pi/.config/picam-rs/config.toml");
}

#[test]
fn a_good_file_is_taken_and_not_written() {
    let mut c = defaults();
    c.stream.local_port = 9000;
    let (cfg, write) = Config::load(ConfigFile::Parsed(c), 0.0, 1.0);
    assert_eq!(cfg.stream.local_port, 9000);
    assert!(!write);
}

#[test]
fn a_bad_file_gives_the_defaults_and_is_kept() {
    let (cfg, write) = Config::load(ConfigFile::Malformed, 0.0f32, 1.0);
    assert_eq!(cfg.stream.local_port, 8080);
    assert!(!write);
}

#[test]
fn a_missing_file_gives_the_defaults_and_is_written() {
    let (cfg, write) = Config::load(ConfigFile::Unreadable, 0.0f32, 1.0);
    assert_eq!(cfg.camera.zoom, 1.0);
    assert!(write);
}

#[test]
fn startup_follows_the_configuration() {
    let mut c = defaults();
    let s = startup(&c);
    assert!(!s.preview_off);
    assert_eq!(s.local_port, None);
    assert_eq!(s.push_url, None);
    c.capture.stream_enabled = false;
    c.stream.local_enabled = true;
    c.stream.push_enabled = true;
    let s = startup(&c);
    assert!(s.preview_off);
    assert_eq!(s.local_port, Some(8080));
    assert_eq!(s.push_url, None);
    c.stream.push_url = "rtmp://h".to_string();
    assert_eq!(startup(&c).push_url, Some("rtmp://h".to_string()));
    c.stream.push_enabled = false;
    assert_eq!(startup(&c).push_url, None);
}

#[test]
fn defaults_are_loaded_again_from_the_file_that_was_written() {
    let (first, write) = Config::load(ConfigFile::Unreadable, 0.0f32, 1.0);
    assert!(write);
    let (second, write) = Config::load(ConfigFile::Parsed(first), 0.0, 1.0);
    assert!(!write);
    assert_eq!(second.stream.local_port, 8080);
    assert_eq!(second.camera.contrast, 1.0);
}
