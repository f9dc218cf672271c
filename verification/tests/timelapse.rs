use picam::timelapse::{render_result, total_frames, RunStep, Timelapse, TimelapseRun};

#[test]
fn new_timelapse_is_not_running() {
    let tl = Timelapse::new();
    assert!(!tl.is_running());
}

#[test]
fn new_timelapse_frame_count_zero() {
    let tl = Timelapse::new();
    assert_eq!(tl.current_frame_count(), 0);
}

#[test]
fn stop_on_idle_is_safe() {
    let mut tl = Timelapse::new();
    tl.stop();
    assert!(!tl.is_running());
}

#[test]
fn render_without_session_returns_none() {
    let tl = Timelapse::new();
    assert!(tl.render(1).is_none());
}

#[test]
fn total_frames_calculation() {
    let duration_secs: u64 = 60;
    let interval_secs: u64 = 10;
    let total = total_frames(duration_secs, interval_secs);
    assert_eq!(total, 6);
}

#[test]
fn total_frames_zero_interval_clamped() {
    let duration_secs: u64 = 30;
    let interval_secs: u64 = 0;
    let total = total_frames(duration_secs, interval_secs);
    assert_eq!(total, 30);
}

#[test]
fn total_frames_rounds_down() {
    assert_eq!(total_frames(59, 10), 5);
    assert_eq!(total_frames(5, 10), 0);
}

#[test]
fn a_session_starts_once() {
    let mut tl = Timelapse::new();
    assert_eq!(tl.start(99), Some("/home/pi/Pictures/timelapse/session_99".to_string()));
    assert!(tl.is_running());
    assert_eq!(tl.frame_taken(4), 5);
    assert_eq!(tl.current_frame_count(), 5);
    assert_eq!(tl.start(100), None);
    assert_eq!(tl.current_frame_count(), 5);
    tl.stop();
    assert!(!tl.is_running());
    assert_eq!(tl.start(101), Some("/home/pi/Pictures/timelapse/session_101".to_string()));
    assert_eq!(tl.current_frame_count(), 0);
}

#[test]
fn a_film_is_made_of_the_last_session() {
    let mut tl = Timelapse::new();
    tl.start(99);
    tl.stop();
    let plan = tl.render(123).unwrap();
    assert_eq!(plan.out, "/home/pi/Pictures/timelapse/timelapse_123.mp4");
    assert_eq!(
        plan.args,
        vec![
            "-y",
            "-framerate",
            "24",
            "-i",
            "/home/pi/Pictures/timelapse/session_99/frame_%06d.jpg",
            "-vf",
            "scale=1920:1080:force_original_aspect_ratio=decrease,pad=1920:1080:-1:-1",
            "-c:v",
            "libx264",
            "-pix_fmt",
            "yuv420p",
            "/home/pi/Pictures/timelapse/timelapse_123.mp4",
        ]
    );
}

#[test]
fn a_film_is_there_only_if_ffmpeg_succeeded() {
    let out = "/f.mp4".to_string();
    assert_eq!(render_result(out.clone(), &Ok(Some(0))), Some(out.clone()));
    assert_eq!(render_result(out.clone(), &Ok(Some(1))), None);
    assert_eq!(render_result(out.clone(), &Ok(None)), None);
    assert_eq!(render_result(out, &Err("gone".to_string())), None);
}

#[test]
fn an_uninterrupted_session_takes_every_frame() {
    let mut run = TimelapseRun::new(6, 2);
    let mut taken = vec![];
    let mut waits = 0;
    loop {
        match run.step(true) {
            RunStep::Capture(i) => taken.push(i),
            RunStep::Wait => waits += 1,
            RunStep::Done | RunStep::Over => break,
        }
    }
    assert_eq!(taken, vec![0, 1, 2]);
    assert_eq!(waits, 60);
    assert_eq!(run.step(true), RunStep::Over);
}

#[test]
fn an_interval_of_zero_does_not_wait() {
    let mut run = TimelapseRun::new(2, 0);
    assert_eq!(run.step(true), RunStep::Capture(0));
    assert_eq!(run.step(true), RunStep::Capture(1));
    assert_eq!(run.step(true), RunStep::Done);
}

#[test]
fn a_stopped_session_ends() {
    let mut run = TimelapseRun::new(60, 10);
    assert_eq!(run.step(true), RunStep::Capture(0));
    assert_eq!(run.step(true), RunStep::Wait);
    assert_eq!(run.step(false), RunStep::Done);
    assert_eq!(run.step(true), RunStep::Over);
    let mut run = TimelapseRun::new(60, 10);
    assert_eq!(run.step(false), RunStep::Done);
}

#[test]
fn a_session_without_frames_is_over_at_once() {
    let mut run = TimelapseRun::new(5, u64::MAX);
    assert_eq!(run.step(true), RunStep::Done);
}

#[test]
fn a_session_ends_once_and_then_no_longer_runs() {
    let mut tl = Timelapse::new();
    tl.start(7);
    let mut run = TimelapseRun::new(2, 0);
    assert_eq!(tl.advance(&mut run), RunStep::Capture(0));
    assert_eq!(tl.frame_taken(0), 1);
    tl.stop();
    assert_eq!(tl.advance(&mut run), RunStep::Done);
    assert!(!tl.is_running());
    assert_eq!(tl.advance(&mut run), RunStep::Over);
    assert_eq!(tl.current_frame_count(), 1);
    tl.start(8);
    let mut run = TimelapseRun::new(1, 0);
    assert_eq!(tl.advance(&mut run), RunStep::Capture(0));
    assert_eq!(tl.advance(&mut run), RunStep::Done);
    assert!(!tl.is_running());
}
