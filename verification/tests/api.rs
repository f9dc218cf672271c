use picam::api::{
    answer_patch, api_capture, api_gallery_delete, api_gallery_file, api_gallery_list,
    api_record_start, api_record_stop, api_settings, api_state, capture_reply, content_type_of,
    delete_reply, file_answer, file_header, fixed_reply, open_granted,
};
use picam::camera::Camera;
use picam::gallery::{EntryKind, GalleryItem};
use picam::pages::{CONTROL_HTML, INDEX_HTML};
use picam::panel::{apply_patch, awaits_patch, Choices};
use picam::reply::{json_escape, serve_404, serve_html, serve_json};
use picam::request::Route;
use picam::settings::CameraSettings;

fn camera() -> Camera<f32> {
    Camera::new(CameraSettings::neutral(0.0, 1.0))
}

fn body(reply: &str) -> &str {
    reply.split_once("\r\n\r\n").unwrap().1
}

fn status(reply: &str) -> &str {
    reply.split_once("\r\n").unwrap().0
}

fn item(path: &str, is_video: bool) -> GalleryItem {
    let name = path.rsplit('/').next().unwrap().to_string();
    GalleryItem { path: path.to_string(), name, is_video }
}

#[test]
fn json_is_framed() {
    assert_eq!(
        serve_json(200, "{\"a\":\"ä\"}"),
        "HTTP/1.0 200 OK\r\nContent-Type: application/json\r\nContent-Length: 10\r\nCache-Control: no-cache\r\nAccess-Control-Allow-Origin: *\r\nConnection: close\r\n\r\n{\"a\":\"ä\"}"
    );
}

#[test]
fn status_numbers_have_their_words() {
    assert_eq!(status(&serve_json(200, "")), "HTTP/1.0 200 OK");
    assert_eq!(status(&serve_json(409, "")), "HTTP/1.0 409 Conflict");
    assert_eq!(status(&serve_json(500, "")), "HTTP/1.0 500 Internal Server Error");
    assert_eq!(status(&serve_json(503, "")), "HTTP/1.0 503 Service Unavailable");
    assert_eq!(status(&serve_json(400, "")), "HTTP/1.0 400 OK");
}

#[test]
fn pages_are_framed() {
    assert_eq!(
        serve_html("<p>ü</p>"),
        "HTTP/1.0 200 OK\r\nContent-Type: text/html; charset=utf-8\r\nContent-Length: 9\r\nCache-Control: no-cache\r\nConnection: close\r\n\r\n<p>ü</p>"
    );
    assert_eq!(body(&serve_html(INDEX_HTML)), INDEX_HTML);
    assert!(INDEX_HTML.contains("href=\"/control\""));
    assert!(CONTROL_HTML.contains("'/api/gallery/file?path=' + encodeURIComponent"));
}

#[test]
fn not_found_is_framed() {
    assert_eq!(
        serve_404(),
        "HTTP/1.0 404 Not Found\r\nContent-Type: text/plain\r\nContent-Length: 14\r\nConnection: close\r\n\r\n404 Not Found\n"
    );
}

#[test]
fn state_of_an_idle_camera() {
    let cam = camera();
    assert_eq!(
        body(&api_state(Some(&cam), 0, "12\" GB")),
        "{\"recording\":false,\"duration\":\"00:00\",\"free_space\":\"12 GB\",\"preview\":true}"
    );
}

#[test]
fn state_of_a_recording_camera() {
    let mut cam = camera();
    cam.set_stream_enabled(false);
    assert!(cam.start_recording("/v.mp4".to_string(), Ok(()), 1_000).is_ok());
    assert_eq!(
        body(&api_state(Some(&cam), 126_999, "1G")),
        "{\"recording\":true,\"duration\":\"02:05\",\"free_space\":\"1G\",\"preview\":false}"
    );
}

#[test]
fn without_a_camera_nothing_is_granted() {
    let none: Option<&Camera<f32>> = None;
    let refusal = serve_json(503, "{\"error\":\"camera unavailable\"}");
    assert_eq!(api_state(none, 0, ""), refusal);
    assert_eq!(api_capture(none), Err(refusal.clone()));
    assert_eq!(api_record_start(none), Err(refusal.clone()));
    assert_eq!(api_record_stop(none), Err(refusal));
}

#[test]
fn captures_are_of_the_largest_size() {
    let cam = camera();
    assert_eq!(api_capture(Some(&cam)), Ok((4056, 3040, false)));
    assert_eq!(api_record_start(Some(&cam)), Ok((1920, 1080)));
}

#[test]
fn recordings_start_and_stop_once() {
    let mut cam = camera();
    assert_eq!(
        api_record_stop(Some(&cam)),
        Err(serve_json(409, "{\"ok\":false,\"error\":\"not recording\"}"))
    );
    assert!(cam.start_recording("/v.mp4".to_string(), Ok(()), 0).is_ok());
    assert_eq!(
        api_record_start(Some(&cam)),
        Err(serve_json(409, "{\"ok\":false,\"error\":\"already recording\"}"))
    );
    assert_eq!(api_record_stop(Some(&cam)), Ok(serve_json(200, "{\"ok\":true}")));
}

#[test]
fn captures_are_answered() {
    assert_eq!(
        capture_reply(&Ok("/a\"b.jpg".to_string())),
        serve_json(200, "{\"ok\":true,\"path\":\"/a\\\"b.jpg\"}")
    );
    assert_eq!(
        capture_reply(&Err("no \"such\" thing".to_string())),
        serve_json(500, "{\"ok\":false,\"error\":\"no 'such' thing\"}")
    );
}

#[test]
fn json_strings_are_escaped() {
    assert_eq!(json_escape("a\"b\\c"), "a\\\"b\\\\c");
    assert_eq!(json_escape("plain"), "plain");
}

#[test]
fn the_gallery_is_listed() {
    assert_eq!(body(&api_gallery_list(&vec![])), "[]");
    let items = vec![item("/p/a\"\\.jpg", false), item("/v/b.mp4", true)];
    assert_eq!(
        body(&api_gallery_list(&items)),
        "[{\"path\":\"/p/a\\\"\\\\.jpg\",\"name\":\"a\\\"\\\\.jpg\",\"is_video\":false},{\"path\":\"/v/b.mp4\",\"name\":\"b.mp4\",\"is_video\":true}]"
    );
}

#[test]
fn the_list_reads_back_as_json() {
    let items = vec![item("/p/a\"\\.jpg", false), item("/v/b.mp4", true), item("/v/ü", true)];
    let list = api_gallery_list(&items);
    let value: serde_json::Value = serde_json::from_str(body(&list)).unwrap();
    let read = value.as_array().unwrap();
    assert_eq!(read.len(), 3);
    for (r, i) in read.iter().zip(&items) {
        assert_eq!(r["path"].as_str(), Some(i.path.as_str()));
        assert_eq!(r["name"].as_str(), Some(i.name.as_str()));
        assert_eq!(r["is_video"].as_bool(), Some(i.is_video));
    }
}

#[test]
fn listed_files_are_given_out() {
    let items = vec![item("/p/IMG 1.jpg", false), item("/v/VID_2.mp4", true)];
    assert_eq!(
        api_gallery_file("path=%2Fp%2FIMG%201.jpg", &items),
        Ok("/p/IMG 1.jpg".to_string())
    );
    assert_eq!(api_gallery_file("x=1&path=/v/VID_2.mp4", &items), Ok("/v/VID_2.mp4".to_string()));
}

#[test]
fn thumbnails_of_listed_videos_are_given_out() {
    let items = vec![item("/p/IMG_1.jpg", false), item("/v/VID_2.mp4", true)];
    assert_eq!(
        api_gallery_file("path=/v/VID_2.thumb.jpg", &items),
        Ok("/v/VID_2.thumb.jpg".to_string())
    );
    assert_eq!(api_gallery_file("path=/p/IMG_1.thumb.jpg", &items), Err(serve_404()));
}

#[test]
fn thumbnails_of_other_videos_are_not_given_out() {
    let items = vec![item("/home/pi/Videos/picam/VID_12.mp4", true)];
    let refused = |path: &str| {
        assert_eq!(api_gallery_file(&format!("path={path}"), &items), Err(serve_404()));
    };
    refused("%2Fhome%2Fpi%2FVideos%2Fpicam%2FVID_1.thumb.jpg");
    refused("/home/pi/Videos.thumb.jpg");
    refused(".thumb.jpg");
    refused("/home/pi/Videos/picam/VID_12.mp4.thumb.jpg");
    assert_eq!(
        api_gallery_file("path=/home/pi/Videos/picam/VID_12.thumb.jpg", &items),
        Ok("/home/pi/Videos/picam/VID_12.thumb.jpg".to_string())
    );
}

#[test]
fn links_that_lead_elsewhere_are_not_opened() {
    let roots = vec![b"/home/pi/Videos/picam".to_vec(), b"/home/pi/Pictures/picam".to_vec()];
    let open = |kind: EntryKind| open_granted("/x".to_string(), &kind, &roots);
    let link = |to: &str| EntryKind::Link(Some(to.as_bytes().to_vec()));
    assert_eq!(open(EntryKind::File), Ok("/x".to_string()));
    assert_eq!(open(link("/home/pi/Pictures/picam/a.jpg")), Ok("/x".to_string()));
    assert_eq!(open(link("/etc/passwd")), Err(serve_404()));
    assert_eq!(open(link("/home/pi/Pictures/picam2/a.jpg")), Err(serve_404()));
    assert_eq!(open(link("/home/pi/Pictures/picam")), Err(serve_404()));
    assert_eq!(open(EntryKind::Link(None)), Err(serve_404()));
    assert_eq!(open(EntryKind::Other), Err(serve_404()));
}

#[test]
fn patches_of_settings_are_taken() {
    let cam = camera();
    let request = b"POST /api/settings HTTP/1.1\r\nHost: x\r\n\r\n{\"iso_idx\":3,\"ev\":0.5}";
    let (patch, reply) = api_settings(Some(&cam), request).ok().unwrap();
    assert_eq!(reply, serve_json(200, "{\"ok\":true}"));
    assert_eq!(patch["iso_idx"].as_i64(), Some(3));
    assert_eq!(patch["ev"].as_f64(), Some(0.5));
    let old = Choices { iso_idx: 0, shutter_idx: 1, awb_idx: 2 };
    assert_eq!(apply_patch(old, &patch), Choices { iso_idx: 3, shutter_idx: 1, awb_idx: 2 });
}

#[test]
fn patches_that_are_no_json_are_refused() {
    let cam = camera();
    let refusal = serve_json(400, "{\"ok\":false,\"error\":\"invalid settings\"}");
    for request in [&b"POST /api/settings HTTP/1.1\r\n\r\n{\"iso"[..], b"POST /api/settings\r\n"] {
        assert_eq!(api_settings(Some(&cam), request).err().unwrap(), refusal);
    }
    assert_eq!(answer_patch(Some(&cam), None).err().unwrap(), refusal);
    let none: Option<&Camera<f32>> = None;
    assert_eq!(
        api_settings(none, b"\r\n\r\n{}").err().unwrap(),
        serve_json(503, "{\"error\":\"camera unavailable\"}")
    );
}

#[test]
fn other_files_are_not_given_out() {
    let items = vec![item("/p/IMG_1.jpg", false)];
    assert_eq!(api_gallery_file("path=/etc/passwd", &items), Err(serve_404()));
    assert_eq!(api_gallery_file("path=/p/../p/IMG_1.jpg", &items), Err(serve_404()));
    assert_eq!(
        api_gallery_file("file=/p/IMG_1.jpg", &items),
        Err(serve_json(400, "{\"error\":\"missing path\"}"))
    );
}

#[test]
fn only_listed_files_are_deleted() {
    let items = vec![item("/v/VID_2.mp4", true)];
    assert_eq!(api_gallery_delete("path=/v/VID_2.mp4", &items), Ok("/v/VID_2.mp4".to_string()));
    assert_eq!(api_gallery_delete("path=/v/VID_2.thumb.jpg", &items), Err(serve_404()));
    assert_eq!(
        api_gallery_delete("", &items),
        Err(serve_json(400, "{\"error\":\"missing path\"}"))
    );
    assert_eq!(delete_reply(true), serve_json(200, "{\"ok\":true}"));
    assert_eq!(
        delete_reply(false),
        serve_json(500, "{\"ok\":false,\"error\":\"delete failed\"}")
    );
}

#[test]
fn files_have_their_content_types() {
    let types = vec![
        ("jpg", "image/jpeg"),
        ("jpeg", "image/jpeg"),
        ("png", "image/png"),
        ("dng", "image/x-adobe-dng"),
        ("mp4", "video/mp4"),
        ("h264", "video/h264"),
        ("mkv", "video/x-matroska"),
        ("txt", "application/octet-stream"),
    ];
    for (ext, expected) in types {
        assert_eq!(content_type_of(ext), expected);
    }
    assert_eq!(
        file_header("/p/A.JPG", 1234),
        "HTTP/1.0 200 OK\r\nContent-Type: image/jpeg\r\nContent-Length: 1234\r\nCache-Control: max-age=3600\r\nConnection: close\r\n\r\n"
    );
    assert!(file_header("png", 0).contains("image/png"));
}

#[test]
fn fixed_pages_go_by_the_route() {
    assert_eq!(fixed_reply(Route::Index), Some(serve_html(INDEX_HTML)));
    assert_eq!(fixed_reply(Route::Control), Some(serve_html(CONTROL_HTML)));
    assert_eq!(fixed_reply(Route::NotFound), Some(serve_404()));
    let others = [
        Route::Mjpeg,
        Route::State,
        Route::Capture,
        Route::RecordStart,
        Route::RecordStop,
        Route::Settings,
        Route::GalleryList,
        Route::GalleryFile,
        Route::GalleryDelete,
    ];
    for route in others {
        assert_eq!(fixed_reply(route), None);
    }
}

#[test]
fn files_follow_their_headers() {
    let mut expected = file_header("/p/a.png", 3).into_bytes();
    expected.extend([0, 255, 10]);
    assert_eq!(file_answer("/p/a.png", Some(vec![0, 255, 10])), expected);
    assert_eq!(file_answer("/p/a.png", Some(vec![])), file_header("/p/a.png", 0).into_bytes());
    assert_eq!(file_answer("/p/a.png", None), serve_404().into_bytes());
}

#[test]
fn patches_are_awaited_while_there_is_room() {
    let head = b"POST /api/settings HTTP/1.1\r\n\r\n";
    let whole = b"POST /api/settings HTTP/1.1\r\n\r\n{\"iso_idx\":2}";
    assert!(awaits_patch(&head[..], 1));
    assert!(!awaits_patch(&head[..], 0));
    assert!(awaits_patch(&whole[..whole.len() - 1], 100));
    assert!(!awaits_patch(&whole[..], 100));
}
