use picam::stream::{
    accept_step, bind_address, mjpeg_frame, mjpeg_header, mjpeg_part, pick_format, push_args, AcceptAction,
    AcceptEvent, ChildPoll, ListenError, LocalStream, MjpegAction, MjpegClient, PushStream,
    StopAction,
};

#[test]
fn the_local_server_keeps_the_latest_frame() {
    let mut s = LocalStream::start(8080, Ok(())).ok().unwrap();
    assert_eq!(s.port(), 8080);
    assert!(s.is_running());
    assert!(s.snapshot().is_none());
    s.publish(vec![1, 2]);
    s.publish(vec![3]);
    let frame = s.snapshot().unwrap();
    assert_eq!(*frame.jpeg, vec![3]);
    assert_eq!(frame.number, 2);
    s.stop();
    assert!(!s.is_running());
    assert_eq!(s.port(), 8080);
    assert_eq!(*s.snapshot().unwrap().jpeg, vec![3]);
}

#[test]
fn failures_to_listen_are_reported() {
    assert_eq!(bind_address(81), "0.0.0.0:81");
    let fail = |e: ListenError| LocalStream::start(81, Err(e)).err().unwrap();
    assert_eq!(fail(ListenError::Bind("in use".to_string())), "bind 0.0.0.0:81: in use");
    assert_eq!(fail(ListenError::Nonblocking("no".to_string())), "no");
    assert_eq!(fail(ListenError::Spawn("full".to_string())), "spawn http-stream: full");
}

#[test]
fn the_listener_goes_on_until_it_fails() {
    assert_eq!(accept_step(AcceptEvent::Client), AcceptAction::Serve);
    assert_eq!(accept_step(AcceptEvent::WouldBlock), AcceptAction::SleepMs(100));
    assert_eq!(accept_step(AcceptEvent::Failed), AcceptAction::Exit);
}

#[test]
fn mjpeg_is_framed() {
    assert_eq!(
        mjpeg_header(),
        "HTTP/1.0 200 OK\r\nCache-Control: no-cache, private\r\nPragma: no-cache\r\nConnection: close\r\nContent-Type: multipart/x-mixed-replace; boundary=picamframe\r\n\r\n"
    );
    assert_eq!(
        mjpeg_part(17),
        "--picamframe\r\nContent-Type: image/jpeg\r\nContent-Length: 17\r\n\r\n"
    );
}

#[test]
fn mjpeg_parts_are_whole() {
    let mut part = b"--picamframe\r\nContent-Type: image/jpeg\r\nContent-Length: 3\r\n\r\n".to_vec();
    part.extend_from_slice(&[1, 2, 3, 13, 10]);
    assert_eq!(mjpeg_frame(&[1, 2, 3]), part);
}

#[test]
fn mjpeg_clients_get_each_frame_once() {
    let mut s = LocalStream::start(8080, Ok(())).ok().unwrap();
    let mut c = MjpegClient::new();
    assert_eq!(c.step(&s), MjpegAction::SleepMs(50));
    s.publish(vec![7]);
    assert_eq!(c.step(&s), MjpegAction::Send(mjpeg_frame(&[7])));
    assert_eq!(c.step(&s), MjpegAction::SleepMs(20));
    s.publish(vec![8]);
    s.publish(vec![7]);
    assert_eq!(c.step(&s), MjpegAction::Send(mjpeg_frame(&[7])));
    assert_eq!(c.step(&s), MjpegAction::SleepMs(20));
    s.publish(vec![9]);
    s.stop();
    assert_eq!(c.step(&s), MjpegAction::Exit);
}

#[test]
fn formats_go_by_the_scheme() {
    assert_eq!(pick_format("rtmp://example.com/live/key"), "flv");
    assert_eq!(pick_format("RTMPS://example.com"), "flv");
    assert_eq!(pick_format("srt://h:1"), "mpegts");
    assert_eq!(pick_format("udp://h:1"), "mpegts");
    assert_eq!(pick_format("rtp://h:1"), "rtp_mpegts");
    assert_eq!(pick_format("http://h"), "mpegts");
    assert_eq!(pick_format(""), "mpegts");
    assert_eq!(pick_format("RTMP://ÄÖ"), "flv");
}

#[test]
fn push_arguments() {
    assert_eq!(
        push_args("rtmp://h/k", 800, 480, 25),
        vec![
            "-y", "-f", "rawvideo", "-pix_fmt", "nv12", "-s", "800x480", "-r", "25", "-i", "pipe:0",
            "-c:v", "libx264", "-preset", "ultrafast", "-tune", "zerolatency", "-pix_fmt",
            "yuv420p", "-f", "flv", "rtmp://h/k",
        ]
    );
}

#[test]
fn a_push_stream_takes_frames_until_it_is_stopped() {
    let failed = PushStream::start("srt://h", Err("gone".to_string())).err().unwrap();
    assert_eq!(failed, "ffmpeg push spawn (url=srt://h): gone");
    let mut p = PushStream::start("srt://h", Ok(true)).ok().unwrap();
    assert!(p.write_frame());
    assert!(p.stop().is_some());
    assert!(!p.write_frame());
    assert!(p.stop().is_none());
    let p = PushStream::start("srt://h", Ok(false)).ok().unwrap();
    assert!(!p.write_frame());
}

#[test]
fn a_child_that_does_not_end_is_killed() {
    let mut p = PushStream::start("srt://h", Ok(true)).ok().unwrap();
    let mut wait = p.stop().unwrap();
    for _ in 0..19 {
        assert_eq!(wait.step(ChildPoll::Running), StopAction::Sleep);
    }
    assert_eq!(wait.step(ChildPoll::Running), StopAction::SleepAndKill);
}

#[test]
fn a_child_that_ends_or_is_lost_is_not_awaited() {
    let mut p = PushStream::start("srt://h", Ok(true)).ok().unwrap();
    let mut wait = p.stop().unwrap();
    assert_eq!(wait.step(ChildPoll::Running), StopAction::Sleep);
    assert_eq!(wait.step(ChildPoll::Exited), StopAction::Done);
    let mut p = PushStream::start("srt://h", Ok(true)).ok().unwrap();
    let mut wait = p.stop().unwrap();
    assert_eq!(wait.step(ChildPoll::Failed), StopAction::Kill);
}
