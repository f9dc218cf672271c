use picam::camera::{Camera, PreviewAction};
use picam::config::Config;
use picam::panel::{
    apply_patch, begin_playback, burst_count, burst_progress, change_choices, countdown,
    end_playback, last_shot, mpv_args, photo_size, read_settings, self_timer_secs, show_choices,
    switch_push, timelapse_size, video_size, Choices, PushSwitch,
};
use picam::settings::CameraSettings;

fn choices() -> Choices {
    Choices { iso_idx: 1, shutter_idx: 2, awb_idx: 3 }
}

fn json(text: &str) -> serde_json::Value {
    serde_json::from_str(text).unwrap()
}

#[test]
fn choices_beyond_a_table_mean_its_last_entry() {
    assert_eq!(photo_size(0), (4056, 3040));
    assert_eq!(photo_size(3), (1920, 1080));
    assert_eq!(photo_size(99), (1920, 1080));
    assert_eq!(video_size(1), (1280, 720));
    assert_eq!(video_size(usize::MAX), (854, 480));
    assert_eq!(timelapse_size(0), (2028, 1520));
    assert_eq!(timelapse_size(3), (1280, 720));
    assert_eq!(self_timer_secs(1), 2);
    assert_eq!(self_timer_secs(4), 10);
    assert_eq!(burst_count(2), 5);
    assert_eq!(burst_count(4), 10);
}

#[test]
fn the_countdown_ends_at_zero() {
    assert_eq!(countdown(2), vec![2, 1, 0]);
    assert_eq!(countdown(5), vec![5, 4, 3, 2, 1, 0]);
    assert!(countdown(0).is_empty());
    assert!(countdown(-1).is_empty());
}

#[test]
fn bursts_show_their_progress() {
    assert_eq!(burst_progress(3, 10), "3 / 10");
}

#[test]
fn the_last_shot_is_shown_on_demand() {
    let paths = vec!["/a.jpg".to_string(), "/b.jpg".to_string()];
    assert_eq!(last_shot(&paths, true), Some("/b.jpg".to_string()));
    assert_eq!(last_shot(&paths, false), None);
    assert_eq!(last_shot(&vec![], true), None);
}

#[test]
fn configured_choices_come_back() {
    let mut c = Config::neutral(0.0f32, 1.0);
    c.camera.iso_idx = 6;
    c.camera.shutter_idx = 8;
    c.camera.awb_idx = 4;
    let shown = show_choices(&c.camera);
    assert_eq!(shown, Choices { iso_idx: 6, shutter_idx: 8, awb_idx: 4 });
    let s = read_settings(shown, 0.5f32, 1.1, 1.2, 1.3, 0.1, 2.0);
    assert_eq!((s.iso_idx, s.shutter_idx, s.awb_idx), (6, 8, 4));
    assert_eq!((s.ev, s.contrast, s.saturation), (0.5, 1.1, 1.2));
    assert_eq!((s.sharpness, s.brightness, s.zoom), (1.3, 0.1, 2.0));
}

#[test]
fn patches_change_what_they_name() {
    let c = choices();
    assert_eq!(
        apply_patch(c, &json("{\"iso_idx\":3,\"ev\":0.5}")),
        Choices { iso_idx: 3, shutter_idx: 2, awb_idx: 3 }
    );
    assert_eq!(
        apply_patch(c, &json("{\"shutter_idx\":0,\"awb_idx\":6}")),
        Choices { iso_idx: 1, shutter_idx: 0, awb_idx: 6 }
    );
    assert_eq!(apply_patch(c, &json("{\"awb_idx\":-1}")).awb_idx, -1);
}

#[test]
fn patches_that_are_no_integers_change_nothing() {
    let c = choices();
    for text in ["{}", "[]", "3", "null", "{\"iso_idx\":\"3\"}", "{\"iso_idx\":1.5}", "[3]"] {
        assert_eq!(apply_patch(c, &json(text)), c);
    }
}

#[test]
fn large_integers_keep_their_low_bits() {
    let c = change_choices(choices(), Some(4_294_967_301), None, Some(-4_294_967_296));
    assert_eq!(c, Choices { iso_idx: 5, shutter_idx: 2, awb_idx: 0 });
}

#[test]
fn pushing_needs_a_url() {
    assert_eq!(switch_push(true, "rtmp://h"), PushSwitch::Start);
    assert_eq!(switch_push(true, ""), PushSwitch::NoUrl);
    assert_eq!(switch_push(false, ""), PushSwitch::Stop);
}

#[test]
fn videos_are_played_full_screen() {
    assert_eq!(
        mpv_args("/v.mp4"),
        vec![
            "--fs",
            "--no-osc",
            "--no-input-default-bindings",
            "--input-conf=/dev/null",
            "--really-quiet",
            "--keep-open=no",
            "/v.mp4",
        ]
    );
}

#[test]
fn playback_restores_the_preview() {
    let mut cam = Camera::new(CameraSettings::neutral(0.0f32, 1.0));
    assert_eq!(begin_playback(&mut cam), (true, Some(PreviewAction::Pause)));
    assert!(!cam.is_stream_enabled());
    assert_eq!(end_playback(&mut cam, true), Some(PreviewAction::Resume));
    assert!(cam.is_stream_enabled());
    cam.set_stream_enabled(false);
    assert_eq!(begin_playback(&mut cam), (false, None));
    assert_eq!(end_playback(&mut cam, false), None);
    assert!(!cam.is_stream_enabled());
}
