use picam::camera::{
    capture_result, recording_plan, taken_paths, Camera, FinishRun, FinishStep, PreviewAction,
    PHOTO_RESOLUTIONS, VIDEO_RESOLUTIONS,
};
use picam::settings::{CameraSettings, TuningText};

fn tuning() -> TuningText {
    TuningText {
        ev: None,
        contrast: "1.00".to_string(),
        saturation: "1.00".to_string(),
        sharpness: "1.00".to_string(),
        brightness: "0.00".to_string(),
        roi: None,
    }
}

fn moved(a: &f32, b: &f32) -> bool {
    (a - b).abs() > 0.01
}

fn camera() -> Camera<f32> {
    Camera::new(CameraSettings::neutral(0.0, 1.0))
}

#[test]
fn new_camera_streams_and_does_not_record() {
    let cam = camera();
    assert!(cam.is_stream_enabled());
    assert!(!cam.is_paused());
    assert!(!cam.is_recording());
    assert!(cam.can_capture());
    assert_eq!(cam.recording_duration(5_000), 0);
}

#[test]
fn switching_tells_the_device_only_of_changes() {
    let mut cam = camera();
    assert_eq!(cam.set_stream_enabled(true), None);
    assert_eq!(cam.set_stream_enabled(false), Some(PreviewAction::Pause));
    assert_eq!(cam.set_stream_enabled(false), None);
    assert_eq!(cam.set_stream_enabled(true), Some(PreviewAction::Resume));
}

#[test]
fn capture_photo_plans_and_pauses() {
    let mut cam = camera();
    let (w, h, _) = PHOTO_RESOLUTIONS[0];
    let (action, plan) =
        cam.capture_photo(w, h, false, 1_700_000_000_123, &tuning()).ok().unwrap();
    assert_eq!(action, PreviewAction::Pause);
    assert!(cam.is_paused());
    assert_eq!(plan.path, "/home/pi/Pictures/picam/IMG_1700000000123.jpg");
    assert_eq!(
        plan.args,
        vec![
            "--output",
            "/home/pi/Pictures/picam/IMG_1700000000123.jpg",
            "--timeout",
            "200",
            "--rotation",
            "180",
            "--width",
            "4056",
            "--height",
            "3040",
            "--nopreview",
            "--immediate",
            "--awb",
            "auto",
            "--contrast",
            "1.00",
            "--saturation",
            "1.00",
            "--sharpness",
            "1.00",
            "--brightness",
            "0.00",
        ]
    );
    assert_eq!(cam.resume_after_capture(), Some(PreviewAction::Resume));
    assert!(!cam.is_paused());
}

#[test]
fn capture_does_not_bring_back_a_preview_that_is_off() {
    let mut cam = camera();
    cam.set_stream_enabled(false);
    assert!(cam.capture_photo(10, 10, false, 1, &tuning()).is_ok());
    assert_eq!(cam.resume_after_capture(), None);
    assert!(!cam.is_stream_enabled());
}

#[test]
fn raw_photos_ask_for_the_raw_file() {
    let mut cam = camera();
    let (_, plan) = cam.capture_photo(10, 10, true, 1, &tuning()).ok().unwrap();
    let at = plan.args.iter().position(|a| a == "--raw").unwrap();
    assert_eq!(plan.args[at - 1], "--immediate");
}

#[test]
fn long_exposures_are_not_cut_short() {
    let mut cam = camera();
    let mut s = CameraSettings::neutral(0.0, 1.0);
    let timeout = |cam: &mut Camera<f32>| {
        let (_, plan) = cam.capture_photo(10, 10, false, 1, &tuning()).ok().unwrap();
        plan.args[3].clone()
    };
    s.shutter_idx = 6;
    cam.update_settings(s.clone(), moved);
    assert_eq!(timeout(&mut cam), "200");
    s.shutter_idx = 7;
    cam.update_settings(s.clone(), moved);
    assert_eq!(timeout(&mut cam), "1200");
    s.shutter_idx = 8;
    cam.update_settings(s, moved);
    assert_eq!(timeout(&mut cam), "120200");
}

#[test]
fn burst_numbers_its_shots() {
    let mut cam = camera();
    let (action, plans) = cam.capture_burst(3, 10, 20, false, 77, &tuning()).ok().unwrap();
    assert_eq!(action, PreviewAction::Pause);
    let paths: Vec<&str> = plans.iter().map(|p| p.path.as_str()).collect();
    assert_eq!(
        paths,
        vec![
            "/home/pi/Pictures/picam/IMG_77_01.jpg",
            "/home/pi/Pictures/picam/IMG_77_02.jpg",
            "/home/pi/Pictures/picam/IMG_77_03.jpg",
        ]
    );
    assert_eq!(plans[2].args[1], paths[2]);
    assert!(cam.is_paused());
}

#[test]
fn a_failed_shot_takes_none_of_the_others_along() {
    let shot = |path: &str| Ok(path.to_string());
    let results = vec![shot("/a.jpg"), Err("rpicam-still exited None".to_string()), shot("/c.jpg")];
    assert_eq!(taken_paths(&results), vec!["/a.jpg", "/c.jpg"]);
    assert!(taken_paths(&vec![Err("no".to_string())]).is_empty());
    assert!(taken_paths(&vec![]).is_empty());
}

#[test]
fn no_photo_while_recording() {
    let mut cam = camera();
    let started = cam.start_recording("/v.mp4".to_string(), Ok(()), 1_000);
    assert_eq!(started, Ok("/v.mp4".to_string()));
    let refused = cam.capture_photo(10, 10, false, 1, &tuning()).err().unwrap();
    assert_eq!(refused, "Stop recording before taking a photo");
    let refused = cam.capture_burst(3, 10, 10, false, 1, &tuning()).err().unwrap();
    assert_eq!(refused, "Stop recording before taking a photo");
    assert!(!cam.is_paused());
}

#[test]
fn capture_results() {
    let path = "/a.jpg".to_string();
    let what = "rpicam-still failed";
    assert_eq!(capture_result(path.clone(), what, Ok(Some(0))), Ok(path.clone()));
    assert_eq!(
        capture_result(path.clone(), what, Ok(Some(255))),
        Err("rpicam-still exited Some(255)".to_string())
    );
    assert_eq!(
        capture_result(path.clone(), what, Ok(Some(-1))),
        Err("rpicam-still exited Some(-1)".to_string())
    );
    assert_eq!(
        capture_result(path.clone(), what, Ok(None)),
        Err("rpicam-still exited None".to_string())
    );
    assert_eq!(
        capture_result(path, what, Err("no such file".to_string())),
        Err("rpicam-still failed: no such file".to_string())
    );
}

#[test]
fn recording_plan_of_full_size_is_not_scaled() {
    let plan = recording_plan(42, VIDEO_RESOLUTIONS[0].0, VIDEO_RESOLUTIONS[0].1);
    assert_eq!(plan.path, "/home/pi/Videos/picam/VID_42.mp4");
    assert_eq!(
        plan.args,
        vec![
            "-y", "-f", "rawvideo", "-pix_fmt", "nv12", "-s", "1920x1080", "-r", "25", "-i",
            "pipe:0", "-c:v", "libx264", "-preset", "fast", "-pix_fmt", "yuv420p",
            "/home/pi/Videos/picam/VID_42.mp4",
        ]
    );
}

#[test]
fn recording_plan_of_another_size_is_scaled() {
    let plan = recording_plan(42, 854, 480);
    let at = plan.args.iter().position(|a| a == "-vf").unwrap();
    assert_eq!(plan.args[at + 1], "scale=854:480");
    assert_eq!(plan.args[at - 1], "pipe:0");
    let plan = recording_plan(42, 1920, 1000);
    assert!(plan.args.contains(&"scale=1920:1000".to_string()));
}

#[test]
fn recording_runs_until_it_is_stopped() {
    let mut cam = camera();
    assert!(cam.stop_recording().is_none());
    let failed = cam.start_recording("/v.mp4".to_string(), Err("gone".to_string()), 0);
    assert_eq!(failed, Err("ffmpeg spawn failed: gone".to_string()));
    assert!(!cam.is_recording());
    let path = recording_plan(42, 1280, 720).path;
    assert!(cam.start_recording(path, Ok(()), 2_000).is_ok());
    assert!(cam.is_recording());
    assert_eq!(cam.recording_duration(65_500), 63_500);
    assert_eq!(cam.recording_duration(1_000), 0);
    let done = cam.stop_recording().unwrap();
    assert_eq!(done.path, "/home/pi/Videos/picam/VID_42.mp4");
    assert_eq!(done.thumb, "/home/pi/Videos/picam/VID_42.thumb.jpg");
    assert_eq!(
        done.args,
        vec![
            "-y",
            "-i",
            "/home/pi/Videos/picam/VID_42.mp4",
            "-vframes",
            "1",
            "-q:v",
            "4",
            "/home/pi/Videos/picam/VID_42.thumb.jpg",
        ]
    );
    assert!(!cam.is_recording());
}

#[test]
fn closing_ends_a_recording() {
    let mut cam = camera();
    assert!(cam.stop().is_none());
    assert!(cam.start_recording("/v.mp4".to_string(), Ok(()), 0).is_ok());
    assert_eq!(cam.stop().unwrap().thumb, "/v.thumb.jpg");
}

#[test]
fn timelapse_frames_are_numbered() {
    let mut cam = camera();
    let (action, plan) = cam.capture_timelapse_frame(7, "/tl/session_1", 2028, 1520, &tuning());
    assert_eq!(action, PreviewAction::Pause);
    assert_eq!(plan.path, "/tl/session_1/frame_000007.jpg");
    assert_eq!(plan.args[1], "/tl/session_1/frame_000007.jpg");
    assert!(cam.is_paused());
    let (_, plan) = cam.capture_timelapse_frame(1_234_567, "/tl/", 10, 10, &tuning());
    assert_eq!(plan.path, "/tl/frame_1234567.jpg");
    let (_, plan) = cam.capture_timelapse_frame(0, "", 10, 10, &tuning());
    assert_eq!(plan.path, "frame_000000.jpg");
}

#[test]
fn settings_reach_the_device_when_they_change() {
    let mut cam = camera();
    let mut s = CameraSettings::neutral(0.0, 1.0);
    assert_eq!(cam.update_settings(s.clone(), moved), None);
    s.iso_idx = 2;
    s.awb_idx = 3;
    let controls = cam.update_settings(s.clone(), moved).unwrap();
    assert_eq!(controls.iso, 200);
    assert_eq!(controls.shutter_us, 0);
    assert_eq!(controls.awb, 3);
    assert_eq!(cam.update_settings(s.clone(), moved), None);
    s.ev = 0.005;
    assert_eq!(cam.update_settings(s, moved), None);
    assert_eq!(cam.current_settings().ev, 0.005);
}

#[test]
fn every_control_is_told_when_settings_change() {
    let mut cam = camera();
    let mut s = CameraSettings::neutral(0.0, 1.0);
    s.ev = 1.0;
    assert_eq!(cam.update_settings(s.clone(), moved).unwrap().ev, 1.0);
    s.ev = 0.0;
    s.zoom = 2.0;
    let controls = cam.update_settings(s, moved).unwrap();
    assert_eq!(controls.ev, 0.0);
    assert_eq!((controls.contrast, controls.saturation, controls.sharpness), (1.0, 1.0, 1.0));
    assert_eq!((controls.brightness, controls.zoom), (0.0, 2.0));
}

#[test]
fn a_recording_is_finished_step_by_step() {
    let mut run = FinishRun::new();
    assert_eq!(run.step(), Some(FinishStep::ClosePipe));
    assert_eq!(run.step(), Some(FinishStep::AwaitEncoder));
    assert_eq!(run.step(), Some(FinishStep::MakeThumbnail));
    assert_eq!(run.step(), Some(FinishStep::Report));
    assert_eq!(run.step(), None);
    assert_eq!(run.step(), None);
}
