//! The web companion's API: which requests are granted, and how each is
//! answered.

use vstd::prelude::*;
use vstd::utf8::*;

use crate::camera;
use crate::camera::{Camera, PHOTO_RESOLUTIONS, VIDEO_RESOLUTIONS};
use crate::clock;
use crate::clock::format_duration;
use crate::gallery;
use crate::gallery::{is_admitted, thumb_path, EntryKind, GalleryItem};
use crate::pages::{CONTROL_HTML, INDEX_HTML};
use crate::panel;
use crate::panel::settings_patch;
use crate::reply;
use crate::reply::{json_escape, serve_404, serve_html, serve_json};
use crate::request;
use crate::request::{query_param, url_decode, Route};
use crate::text;
use crate::text::{dec, lower, replace_char, str_eq, text_after_last};

verus! {

/// A truth value in JSON.
pub open spec fn bool_text(b: bool) -> Seq<char> {
    if b {
        "true"@
    } else {
        "false"@
    }
}

fn bool_str(b: bool) -> (r: &'static str)
    ensures
        r@ == bool_text(b),
{
    if b {
        "true"
    } else {
        "false"
    }
}

// ── The camera ────────────────────────────────────────────────────────────────

/// The answer when there is no camera any more.
pub open spec fn no_camera() -> Seq<char> {
    reply::json_reply(503, "{\"error\":\"camera unavailable\"}"@)
}

fn no_camera_reply() -> (r: String)
    ensures
        r@ == no_camera(),
{
    serve_json(503, "{\"error\":\"camera unavailable\"}")
}

/// What the camera is doing, in JSON. Quotes are left out of the free space.
pub open spec fn state_body(recording: bool, secs: nat, free: Seq<char>, preview: bool) -> Seq<
    char,
> {
    "{\"recording\":"@ + bool_text(recording) + ",\"duration\":\""@ + clock::clock_text(secs)
        + "\",\"free_space\":\""@ + text::replaced(free, '"', ""@) + "\",\"preview\":"@ + bool_text(
        preview,
    ) + "}"@
}

/// How long a recording has been running, in whole seconds; 0 if none runs.
pub open spec fn running_secs<T>(c: camera::CameraView<T>, now_ms: u64) -> nat {
    match c.recording {
        Some((_, start)) => if now_ms >= start {
            ((now_ms - start) / 1_000) as nat
        } else {
            0
        },
        None => 0,
    }
}

/// Answers what the camera is doing.
pub fn api_state<T>(camera: Option<&Camera<T>>, now_ms: u64, free: &str) -> (r: String)
    ensures
        r@ == (match camera {
            Some(cam) => reply::json_reply(
                200,
                state_body(
                    cam@.recording is Some,
                    running_secs(cam@, now_ms),
                    free@,
                    cam@.stream_enabled,
                ),
            ),
            None => no_camera(),
        }),
{
    let cam = match camera {
        Some(cam) => cam,
        None => {
            return no_camera_reply();
        },
    };
    let mut json = "{\"recording\":".to_owned();
    json.append(bool_str(cam.is_recording()));
    json.append(",\"duration\":\"");
    let duration = format_duration(cam.recording_duration(now_ms) / 1_000);
    json.append(duration.as_str());
    json.append("\",\"free_space\":\"");
    let space = replace_char(free, '"', "");
    json.append(space.as_str());
    json.append("\",\"preview\":");
    json.append(bool_str(cam.is_stream_enabled()));
    json.append("}");
    serve_json(200, json.as_str())
}

/// Grants a photo, always the largest and never raw: its width, its height and
/// whether it is raw; or answers that there is no camera.
pub fn api_capture<T>(camera: Option<&Camera<T>>) -> (r: Result<(u32, u32, bool), String>)
    ensures
        match camera {
            Some(_) => r matches Ok(size) && size == (
                PHOTO_RESOLUTIONS[0].0,
                PHOTO_RESOLUTIONS[0].1,
                false,
            ),
            None => r matches Err(m) && m@ == no_camera(),
        },
{
    match camera {
        Some(_) => Ok((PHOTO_RESOLUTIONS[0].0, PHOTO_RESOLUTIONS[0].1, false)),
        None => Err(no_camera_reply()),
    }
}

/// Grants a recording of the largest size; or answers that there is no camera,
/// or that one is running.
pub fn api_record_start<T>(camera: Option<&Camera<T>>) -> (r: Result<(u32, u32), String>)
    ensures
        match camera {
            Some(cam) => if cam@.recording is Some {
                r matches Err(m) && m@ == reply::json_reply(
                    409,
                    "{\"ok\":false,\"error\":\"already recording\"}"@,
                )
            } else {
                r matches Ok(size) && size == (VIDEO_RESOLUTIONS[0].0, VIDEO_RESOLUTIONS[0].1)
            },
            None => r matches Err(m) && m@ == no_camera(),
        },
{
    match camera {
        Some(cam) => if cam.is_recording() {
            Err(serve_json(409, "{\"ok\":false,\"error\":\"already recording\"}"))
        } else {
            Ok((VIDEO_RESOLUTIONS[0].0, VIDEO_RESOLUTIONS[0].1))
        },
        None => Err(no_camera_reply()),
    }
}

/// Grants the end of the recording, and the answer to it; or answers that there
/// is no camera, or that no recording runs.
pub fn api_record_stop<T>(camera: Option<&Camera<T>>) -> (r: Result<String, String>)
    ensures
        match camera {
            Some(cam) => if cam@.recording is Some {
                r matches Ok(m) && m@ == reply::json_reply(200, "{\"ok\":true}"@)
            } else {
                r matches Err(m) && m@ == reply::json_reply(
                    409,
                    "{\"ok\":false,\"error\":\"not recording\"}"@,
                )
            },
            None => r matches Err(m) && m@ == no_camera(),
        },
{
    match camera {
        Some(cam) => if cam.is_recording() {
            Ok(serve_json(200, "{\"ok\":true}"))
        } else {
            Err(serve_json(409, "{\"ok\":false,\"error\":\"not recording\"}"))
        },
        None => Err(no_camera_reply()),
    }
}

/// The answer that names the file of a photo or a recording.
pub open spec fn path_body(path: Seq<char>) -> Seq<char> {
    "{\"ok\":true,\"path\":\""@ + text::replaced(path, '"', "\\\""@) + "\"}"@
}

/// The answer that says why there is none. Quotes become apostrophes.
pub open spec fn error_body(message: Seq<char>) -> Seq<char> {
    "{\"ok\":false,\"error\":\""@ + text::replaced(message, '"', "'"@) + "\"}"@
}

/// Answers how a photo or the start of a recording went.
pub fn capture_reply(outcome: &Result<String, String>) -> (r: String)
    ensures
        r@ == (match *outcome {
            Ok(path) => reply::json_reply(200, path_body(path@)),
            Err(message) => reply::json_reply(500, error_body(message@)),
        }),
{
    match outcome {
        Ok(path) => {
            let mut json = "{\"ok\":true,\"path\":\"".to_owned();
            let p = replace_char(path.as_str(), '"', "\\\"");
            json.append(p.as_str());
            json.append("\"}");
            serve_json(200, json.as_str())
        },
        Err(message) => {
            let mut json = "{\"ok\":false,\"error\":\"".to_owned();
            let m = replace_char(message.as_str(), '"', "'");
            json.append(m.as_str());
            json.append("\"}");
            serve_json(500, json.as_str())
        },
    }
}

/// The answer to a patch of settings that is not JSON.
pub open spec fn malformed_patch() -> Seq<char> {
    reply::json_reply(400, "{\"ok\":false,\"error\":\"invalid settings\"}"@)
}

/// Grants a patch of settings that was read from a request, and the answer to
/// it; or answers that there is no camera, or that there was no JSON to read.
pub fn answer_patch<T>(camera: Option<&Camera<T>>, patch: Option<serde_json::Value>) -> (r: Result<
    (serde_json::Value, String),
    String,
>)
    ensures
        match (camera, patch) {
            (None, _) => r matches Err(m) && m@ == no_camera(),
            (Some(_), None) => r matches Err(m) && m@ == malformed_patch(),
            (Some(_), Some(p)) => r matches Ok(granted) && granted.0 == p && granted.1@
                == reply::json_reply(200, "{\"ok\":true}"@),
        },
{
    match (camera, patch) {
        (None, _) => Err(no_camera_reply()),
        (Some(_), None) => Err(
            serve_json(400, "{\"ok\":false,\"error\":\"invalid settings\"}"),
        ),
        (Some(_), Some(p)) => Ok((p, serve_json(200, "{\"ok\":true}"))),
    }
}

/// Grants the patch of settings in the body of a request.
pub fn api_settings<T>(camera: Option<&Camera<T>>, buf: &[u8]) -> (r: Result<
    (serde_json::Value, String),
    String,
>)
    ensures
        match (camera, panel::patch_ints(buf@)) {
            (None, _) => r matches Err(m) && m@ == no_camera(),
            (Some(_), None) => r matches Err(m) && m@ == malformed_patch(),
            (Some(_), Some(ints)) => r matches Ok(granted) && panel::int_fields(granted.0) == ints
                && granted.1@ == reply::json_reply(200, "{\"ok\":true}"@),
        },
{
    answer_patch(camera, settings_patch(buf))
}

// ── The gallery ───────────────────────────────────────────────────────────────

/// A gallery item in JSON.
pub open spec fn item_json(v: gallery::ItemView) -> Seq<char> {
    "{\"path\":\""@ + reply::json_escaped(v.path) + "\",\"name\":\""@ + reply::json_escaped(v.name)
        + "\",\"is_video\":"@ + bool_text(v.is_video) + "}"@
}

/// Gallery items in JSON, with commas between them.
pub open spec fn items_json(items: Seq<gallery::ItemView>) -> Seq<char>
    decreases items.len(),
{
    if items.len() == 0 {
        Seq::empty()
    } else if items.len() == 1 {
        item_json(items[0])
    } else {
        items_json(items.drop_last()) + ","@ + item_json(items.last())
    }
}

/// The gallery in JSON.
pub open spec fn list_body(items: Seq<gallery::ItemView>) -> Seq<char> {
    "["@ + items_json(items) + "]"@
}

fn item_text(item: &GalleryItem) -> (r: String)
    ensures
        r@ == item_json(item@),
{
    let mut json = "{\"path\":\"".to_owned();
    let path = json_escape(item.path.as_str());
    json.append(path.as_str());
    json.append("\",\"name\":\"");
    let name = json_escape(item.name.as_str());
    json.append(name.as_str());
    json.append("\",\"is_video\":");
    json.append(bool_str(item.is_video));
    json.append("}");
    json
}

/// Answers what the gallery holds.
pub fn api_gallery_list(items: &Vec<GalleryItem>) -> (r: String)
    ensures
        r@ == reply::json_reply(200, list_body(gallery::item_views(items@))),
{
    let ghost views = gallery::item_views(items@);
    let mut list = String::new();
    assert(list@ =~= items_json(views.take(0)));
    for i in 0..items.len()
        invariant
            views == gallery::item_views(items@),
            list@ == items_json(views.take(i as int)),
    {
        let ghost more = views.take(i + 1);
        assert(more.drop_last() =~= views.take(i as int));
        assert(more.last() == items@[i as int]@);
        if i > 0 {
            list.append(",");
        }
        let item = item_text(&items[i]);
        list.append(item.as_str());
        assert(i == 0 ==> list@ =~= item@);
    }
    assert(views.take(items@.len() as int) =~= views);
    let mut json = "[".to_owned();
    json.append(list.as_str());
    json.append("]");
    serve_json(200, json.as_str())
}

/// The path that a query asks for, decoded.
pub open spec fn asked_path(query: Seq<char>) -> Option<Seq<char>> {
    match request::query_value(query, "path"@) {
        Some(raw) => Some(text::shown(request::percent_decoded(encode_utf8(raw)))),
        None => None,
    }
}

/// The answer to a query without a path.
pub open spec fn missing_path() -> Seq<char> {
    reply::json_reply(400, "{\"error\":\"missing path\"}"@)
}

/// Whether the gallery lists a path.
pub open spec fn listed(items: Seq<gallery::ItemView>, path: Seq<char>) -> bool {
    exists|i: int| 0 <= i < items.len() && (#[trigger] items[i]).path == path
}

/// Whether a path is that of the thumbnail of a video that the gallery lists.
pub open spec fn sidecar_of_listed(items: Seq<gallery::ItemView>, path: Seq<char>) -> bool {
    exists|i: int|
        0 <= i < items.len() && (#[trigger] items[i]).is_video && gallery::thumb_of(items[i].path)
            == path
}

/// Whether a file is given out: the gallery lists it, or it is the thumbnail of
/// a video that the gallery lists.
pub open spec fn servable(items: Seq<gallery::ItemView>, path: Seq<char>) -> bool {
    ||| listed(items, path)
    ||| sidecar_of_listed(items, path)
}

fn is_listed(items: &Vec<GalleryItem>, path: &str) -> (r: bool)
    ensures
        r == listed(gallery::item_views(items@), path@),
{
    let ghost views = gallery::item_views(items@);
    for i in 0..items.len()
        invariant
            views == gallery::item_views(items@),
            forall|j: int| 0 <= j < i ==> (#[trigger] views[j]).path != path@,
    {
        assert(views[i as int] == items@[i as int]@);
        if str_eq(items[i].path.as_str(), path) {
            assert(views[i as int].path == path@);
            return true;
        }
    }
    false
}

fn is_sidecar(items: &Vec<GalleryItem>, path: &str) -> (r: bool)
    ensures
        r == sidecar_of_listed(gallery::item_views(items@), path@),
{
    let ghost views = gallery::item_views(items@);
    for i in 0..items.len()
        invariant
            views == gallery::item_views(items@),
            forall|j: int|
                0 <= j < i ==> !((#[trigger] views[j]).is_video && gallery::thumb_of(views[j].path)
                    == path@),
    {
        assert(views[i as int] == items@[i as int]@);
        if items[i].is_video {
            let thumb = thumb_path(items[i].path.as_str());
            if str_eq(thumb.as_str(), path) {
                return true;
            }
        }
    }
    false
}

/// Grants the reading of a file that a query asks for: its path; or answers
/// that the query names none, or that there is no such file to be had.
pub fn api_gallery_file(query: &str, items: &Vec<GalleryItem>) -> (r: Result<String, String>)
    ensures
        match asked_path(query@) {
            Some(path) => if servable(gallery::item_views(items@), path) {
                r matches Ok(p) && p@ == path
            } else {
                r matches Err(m) && m@ == reply::not_found_reply()
            },
            None => r matches Err(m) && m@ == missing_path(),
        },
{
    let raw = match query_param(query, "path") {
        Some(raw) => raw,
        None => {
            return Err(serve_json(400, "{\"error\":\"missing path\"}"));
        },
    };
    let path = url_decode(raw);
    if !is_listed(items, path.as_str()) && !is_sidecar(items, path.as_str()) {
        return Err(serve_404());
    }
    Ok(path)
}

/// Grants the opening of a file whose reading was granted, given what stands at
/// its path: its path; or answers that there is no such file to be had where it
/// is a link that leads out of the media directories.
pub fn open_granted(path: String, kind: &EntryKind, roots: &Vec<Vec<u8>>) -> (r: Result<
    String,
    String,
>)
    ensures
        if gallery::admitted(*kind, gallery::rows(roots@)) {
            r matches Ok(p) && p@ == path@
        } else {
            r matches Err(m) && m@ == reply::not_found_reply()
        },
{
    if is_admitted(kind, roots) {
        Ok(path)
    } else {
        Err(serve_404())
    }
}

/// The content type of a file, by its extension in small letters.
pub open spec fn content_type(ext: Seq<char>) -> Seq<char> {
    if ext == "jpg"@ || ext == "jpeg"@ {
        "image/jpeg"@
    } else if ext == "png"@ {
        "image/png"@
    } else if ext == "dng"@ {
        "image/x-adobe-dng"@
    } else if ext == "mp4"@ {
        "video/mp4"@
    } else if ext == "h264"@ {
        "video/h264"@
    } else if ext == "mkv"@ {
        "video/x-matroska"@
    } else {
        "application/octet-stream"@
    }
}

/// The content type of a file, by its extension in small letters.
pub fn content_type_of(ext: &str) -> (r: &'static str)
    ensures
        r@ == content_type(ext@),
{
    if str_eq(ext, "jpg") || str_eq(ext, "jpeg") {
        "image/jpeg"
    } else if str_eq(ext, "png") {
        "image/png"
    } else if str_eq(ext, "dng") {
        "image/x-adobe-dng"
    } else if str_eq(ext, "mp4") {
        "video/mp4"
    } else if str_eq(ext, "h264") {
        "video/h264"
    } else if str_eq(ext, "mkv") {
        "video/x-matroska"
    } else {
        "application/octet-stream"
    }
}

/// The headers before the bytes of a file. Its type goes by what stands behind
/// the last dot of its path.
pub open spec fn file_reply(path: Seq<char>, len: nat) -> Seq<char> {
    "HTTP/1.0 200 OK\r\nContent-Type: "@ + content_type(
        text::lowered(text::after_last(path, '.')),
    ) + "\r\nContent-Length: "@ + text::decimal(len)
        + "\r\nCache-Control: max-age=3600\r\nConnection: close\r\n\r\n"@
}

/// Writes the headers before the bytes of a file.
pub fn file_header(path: &str, len: usize) -> (r: String)
    ensures
        r@ == file_reply(path@, len as nat),
{
    let ext = text_after_last(path, '.');
    let ext = lower(ext.as_str());
    let mut s = "HTTP/1.0 200 OK\r\nContent-Type: ".to_owned();
    s.append(content_type_of(ext.as_str()));
    s.append("\r\nContent-Length: ");
    let number = dec(len as u128);
    s.append(number.as_str());
    s.append("\r\nCache-Control: max-age=3600\r\nConnection: close\r\n\r\n");
    s
}

/// The answer with a file whose reading was granted: its headers and its bytes,
/// or that there is no such file where it could not be read.
pub fn file_answer(path: &str, bytes: Option<Vec<u8>>) -> (r: Vec<u8>)
    ensures
        r@ == (match bytes {
            Some(b) => encode_utf8(file_reply(path@, b@.len())) + b@,
            None => encode_utf8(reply::not_found_reply()),
        }),
{
    match bytes {
        Some(b) => {
            let mut body = b;
            let header = file_header(path, body.len());
            let mut answer: Vec<u8> = header.as_str().as_bytes_vec();
            answer.append(&mut body);
            answer
        },
        None => {
            let page = serve_404();
            page.as_str().as_bytes_vec()
        },
    }
}

/// Grants the deletion of a file that a query asks for: its path; or answers
/// that the query names none, or that the gallery does not list it.
pub fn api_gallery_delete(query: &str, items: &Vec<GalleryItem>) -> (r: Result<String, String>)
    ensures
        match asked_path(query@) {
            Some(path) => if listed(gallery::item_views(items@), path) {
                r matches Ok(p) && p@ == path
            } else {
                r matches Err(m) && m@ == reply::not_found_reply()
            },
            None => r matches Err(m) && m@ == missing_path(),
        },
{
    let raw = match query_param(query, "path") {
        Some(raw) => raw,
        None => {
            return Err(serve_json(400, "{\"error\":\"missing path\"}"));
        },
    };
    let path = url_decode(raw);
    if !is_listed(items, path.as_str()) {
        return Err(serve_404());
    }
    Ok(path)
}

/// Answers how a deletion went.
pub fn delete_reply(deleted: bool) -> (r: String)
    ensures
        r@ == (if deleted {
            reply::json_reply(200, "{\"ok\":true}"@)
        } else {
            reply::json_reply(500, "{\"ok\":false,\"error\":\"delete failed\"}"@)
        }),
{
    if deleted {
        serve_json(200, "{\"ok\":true}")
    } else {
        serve_json(500, "{\"ok\":false,\"error\":\"delete failed\"}")
    }
}

// ── Fixed pages ───────────────────────────────────────────────────────────────

/// The answer on a route that is always the same: the two pages, and that there
/// is no such thing.
pub open spec fn fixed_page(route: Route) -> Option<Seq<char>> {
    match route {
        Route::Index => Some(reply::html_reply(INDEX_HTML@)),
        Route::Control => Some(reply::html_reply(CONTROL_HTML@)),
        Route::NotFound => Some(reply::not_found_reply()),
        _ => None,
    }
}

/// Answers on a route whose answer is always the same.
pub fn fixed_reply(route: Route) -> (r: Option<String>)
    ensures
        r is Some <==> fixed_page(route) is Some,
        r matches Some(page) ==> page@ == fixed_page(route)->0,
{
    match route {
        Route::Index => Some(serve_html(INDEX_HTML)),
        Route::Control => Some(serve_html(CONTROL_HTML)),
        Route::NotFound => Some(serve_404()),
        _ => None,
    }
}

// ── What the API promises ─────────────────────────────────────────────────────

/// The thumbnail of every video that the gallery lists is given out.
pub proof fn thumbnails_are_given_out(items: Seq<gallery::ItemView>, i: int)
    requires
        0 <= i < items.len(),
        items[i].is_video,
    ensures
        servable(items, gallery::thumb_of(items[i].path)),
{
}

/// Whatever is given out is an item of the gallery, or the thumbnail of one of
/// its videos and of no other.
pub proof fn only_listed_files_are_given_out(items: Seq<gallery::ItemView>, path: Seq<char>)
    requires
        servable(items, path),
    ensures
        exists|i: int|
            0 <= i < items.len() && ((#[trigger] items[i]).path == path || (items[i].is_video
                && gallery::thumb_of(items[i].path) == path)),
{
}

proof fn lemma_separator_byte(s: Seq<char>)
    requires
        s.contains('&'),
    ensures
        encode_utf8(s).contains(38),
{
    let k = choose|k: int| 0 <= k < s.len() && s[k] == '&';
    let mark = seq!['&'];
    let a = s.take(k);
    let b = s.skip(k + 1);
    assert(s =~= a + mark + b);
    text::encode_concat(a + mark, b);
    text::encode_concat(a, mark);
    assert(is_ascii_chars(mark));
    is_ascii_chars_encode_utf8(mark);
    assert(mark[0] == '&');
    assert(encode_utf8(s)[encode_utf8(a).len() as int] == 38);
}

proof fn lemma_no_separator_byte(b: Seq<u8>)
    ensures
        !request::uri_encoded(b).contains(38),
    decreases b.len(),
{
    let e = request::uri_encoded(b);
    if b.len() > 0 {
        lemma_no_separator_byte(b.skip(1));
        let tail = request::uri_encoded(b.skip(1));
        if e.contains(38) {
            let k = choose|k: int| 0 <= k < e.len() && e[k] == 38;
            let n = e.len() - tail.len();
            if k >= n {
                assert(tail[k - n] == 38);
            }
        }
    }
}

/// A path that a browser encodes into a query is the path that is asked for,
/// whatever characters it holds.
pub proof fn encoded_path_is_the_one_asked_for(sent: Seq<char>, path: Seq<char>)
    requires
        encode_utf8(sent) == request::uri_encoded(encode_utf8(path)),
    ensures
        asked_path("path="@ + sent) == Some(path),
{
    reveal_strlit("path=");
    reveal_strlit("path");
    let query = "path="@ + sent;
    lemma_no_separator_byte(encode_utf8(path));
    if sent.contains('&') {
        lemma_separator_byte(sent);
    }
    assert forall|i: int| 0 <= i < query.len() implies query[i] != '&' by {
        if i >= 5 {
            assert(query[i] == sent[i - 5]);
            assert(sent.contains(sent[i - 5]));
        }
    }
    text::find_first_is(query, '&', query.len() as int);
    assert(text::before_first(query, '&') =~= query);
    text::find_first_is(query, '=', 4);
    assert(text::before_first(query, '=') =~= "path"@);
    assert(text::after_first(query, '=') =~= sent);
    request::decoded_text_is_the_encoded_one(sent, path);
}

/// Every item of the gallery can be fetched and deleted by the path that a
/// browser encodes for it.
pub proof fn listed_items_are_granted(items: Seq<gallery::ItemView>, i: int, sent: Seq<char>)
    requires
        0 <= i < items.len(),
        encode_utf8(sent) == request::uri_encoded(encode_utf8(items[i].path)),
    ensures
        asked_path("path="@ + sent) == Some(items[i].path),
        servable(items, items[i].path),
        listed(items, items[i].path),
{
    encoded_path_is_the_one_asked_for(sent, items[i].path);
}

/// With its quotes replaced by a text without quotes, a text holds none.
pub proof fn replaced_quotes_are_gone(s: Seq<char>, with: Seq<char>)
    requires
        !with.contains('"'),
    ensures
        !text::replaced(s, '"', with).contains('"'),
    decreases s.len(),
{
    if s.len() > 0 {
        replaced_quotes_are_gone(s.drop_last(), with);
        let head = text::replaced(s.drop_last(), '"', with);
        let r = text::replaced(s, '"', with);
        if r.contains('"') {
            let k = choose|k: int| 0 <= k < r.len() && r[k] == '"';
            if k < head.len() {
                assert(head[k] == '"');
            } else if s.last() == '"' {
                assert(with[k - head.len()] == '"');
            }
        }
    }
}

/// Neither an error message nor the free space can end its JSON string early.
pub proof fn answers_hold_no_stray_quote(message: Seq<char>)
    ensures
        !text::replaced(message, '"', "'"@).contains('"'),
        !text::replaced(message, '"', ""@).contains('"'),
{
    reveal_strlit("'");
    reveal_strlit("");
    replaced_quotes_are_gone(message, "'"@);
    replaced_quotes_are_gone(message, ""@);
}

proof fn lemma_nothing_replaced(s: Seq<char>, c: char, with: Seq<char>)
    requires
        !s.contains(c),
    ensures
        text::replaced(s, c, with) == s,
    decreases s.len(),
{
    if s.len() > 0 {
        assert forall|i: int| 0 <= i < s.drop_last().len() implies s.drop_last()[i] != c by {
            assert(s.contains(s[i]));
        }
        lemma_nothing_replaced(s.drop_last(), c, with);
        assert(s.contains(s.last()));
        assert(text::replaced(s, c, with) =~= s);
    } else {
        assert(text::replaced(s, c, with) =~= s);
    }
}

proof fn lemma_nothing_escaped(s: Seq<char>)
    requires
        !s.contains('"'),
        !s.contains('\\'),
        reply::no_controls(s),
    ensures
        reply::json_unescaped(s) == Some(s),
{
    lemma_nothing_replaced(s, '\\', "\\\\"@);
    lemma_nothing_replaced(s, '"', "\\\""@);
    reply::json_escape_reads_back(s);
}

/// The path in the answer to a photo or a recording reads back as the path of
/// the file.
pub proof fn answered_paths_read_back(ts: nat)
    ensures
        reply::json_unescaped(text::replaced(camera::photo_path(ts), '"', "\\\""@)) == Some(
            camera::photo_path(ts),
        ),
        reply::json_unescaped(text::replaced(camera::video_path(ts), '"', "\\\""@)) == Some(
            camera::video_path(ts),
        ),
{
    reveal_strlit("/home/pi/Pictures/picam");
    reveal_strlit("/home/pi/Videos/picam");
    reveal_strlit("/IMG_");
    reveal_strlit("/VID_");
    reveal_strlit(".jpg");
    reveal_strlit(".mp4");
    let d = text::decimal(ts);
    text::decimal_reads_back(ts);
    lemma_plain_path(camera::SAVE_DIR@ + "/IMG_"@, d, ".jpg"@);
    lemma_plain_path(camera::VIDEO_DIR@ + "/VID_"@, d, ".mp4"@);
}

proof fn lemma_plain_path(head: Seq<char>, d: Seq<char>, tail: Seq<char>)
    requires
        text::all_digits(d),
        forall|i: int| 0 <= i < head.len() ==> #[trigger] head[i] != '"' && head[i] != '\\'
            && head[i] >= ' ',
        forall|i: int| 0 <= i < tail.len() ==> #[trigger] tail[i] != '"' && tail[i] != '\\'
            && tail[i] >= ' ',
    ensures
        reply::json_unescaped(text::replaced(head + d + tail, '"', "\\\""@)) == Some(
            head + d + tail,
        ),
{
    let s = head + d + tail;
    assert forall|i: int| 0 <= i < s.len() implies s[i] != '"' && s[i] != '\\' && s[i]
        >= ' ' by {
        if i < head.len() {
            assert(s[i] == head[i]);
        } else if i < head.len() + d.len() {
            assert(s[i] == d[i - head.len()]);
        } else {
            assert(s[i] == tail[i - head.len() - d.len()]);
        }
    }
    lemma_nothing_replaced(s, '"', "\\\""@);
    lemma_nothing_escaped(s);
}

// ── Reading the list back ─────────────────────────────────────────────────────

/// What stands behind `p`, if `t` begins with it.
pub open spec fn behind(t: Seq<char>, p: Seq<char>) -> Option<Seq<char>> {
    if text::has_prefix(t, p) {
        Some(t.skip(p.len() as int))
    } else {
        None
    }
}

/// The text of a JSON string, read from behind its opening quote, and what
/// stands behind its closing quote. A string holds no bare control characters.
pub open spec fn read_string(t: Seq<char>) -> Option<(Seq<char>, Seq<char>)>
    decreases t.len(),
{
    if t.len() == 0 {
        None
    } else if t[0] == '"' {
        Some((Seq::empty(), t.skip(1)))
    } else if ' ' > t[0] {
        None
    } else if t[0] == '\\' {
        if t.len() > 1 && (t[1] == '\\' || t[1] == '"') {
            match read_string(t.skip(2)) {
                Some((s, rest)) => Some((seq![t[1]] + s, rest)),
                None => None,
            }
        } else {
            None
        }
    } else {
        match read_string(t.skip(1)) {
            Some((s, rest)) => Some((seq![t[0]] + s, rest)),
            None => None,
        }
    }
}

/// A truth value in JSON, and what stands behind it.
pub open spec fn read_bool(t: Seq<char>) -> Option<(bool, Seq<char>)> {
    match behind(t, "true"@) {
        Some(rest) => Some((true, rest)),
        None => match behind(t, "false"@) {
            Some(rest) => Some((false, rest)),
            None => None,
        },
    }
}

/// A JSON object with a path, a name and whether it is a video, and what stands
/// behind it.
#[verifier::opaque]
pub open spec fn read_item(t: Seq<char>) -> Option<(gallery::ItemView, Seq<char>)> {
    if let Some(t1) = behind(t, "{\"path\":\""@) {
        if let Some((path, t2)) = read_string(t1) {
            if let Some(t3) = behind(t2, ",\"name\":\""@) {
                if let Some((name, t4)) = read_string(t3) {
                    if let Some(t5) = behind(t4, ",\"is_video\":"@) {
                        if let Some((is_video, t6)) = read_bool(t5) {
                            if let Some(rest) = behind(t6, "}"@) {
                                Some((gallery::ItemView { path, name, is_video }, rest))
                            } else {
                                None
                            }
                        } else {
                            None
                        }
                    } else {
                        None
                    }
                } else {
                    None
                }
            } else {
                None
            }
        } else {
            None
        }
    } else {
        None
    }
}

/// The objects of a JSON list up to its closing bracket, which ends the text.
pub open spec fn read_items(t: Seq<char>) -> Option<Seq<gallery::ItemView>>
    decreases t.len(),
{
    match read_item(t) {
        Some((item, rest)) => if rest == "]"@ {
            Some(seq![item])
        } else if rest.len() < t.len() && text::has_prefix(rest, ","@) {
            match read_items(rest.skip(","@.len() as int)) {
                Some(more) => Some(seq![item] + more),
                None => None,
            }
        } else {
            None
        },
        None => None,
    }
}

/// The gallery that a JSON list of such objects stands for.
pub open spec fn read_list(t: Seq<char>) -> Option<Seq<gallery::ItemView>> {
    match behind(t, "["@) {
        Some(rest) => if rest == "]"@ {
            Some(Seq::empty())
        } else {
            read_items(rest)
        },
        None => None,
    }
}

/// Whether neither the path nor the name of an item holds control characters.
pub open spec fn shows_no_controls(v: gallery::ItemView) -> bool {
    reply::no_controls(v.path) && reply::no_controls(v.name)
}

proof fn lemma_behind(p: Seq<char>, rest: Seq<char>)
    ensures
        behind(p + rest, p) == Some(rest),
{
    assert((p + rest).take(p.len() as int) =~= p);
    assert((p + rest).skip(p.len() as int) =~= rest);
}

proof fn lemma_read_string(e: Seq<char>, rest: Seq<char>)
    requires
        reply::json_unescaped(e) is Some,
    ensures
        read_string(e + seq!['"'] + rest) == Some((reply::json_unescaped(e)->0, rest)),
    decreases e.len(),
{
    let t = e + seq!['"'] + rest;
    if e.len() == 0 {
        assert(t.skip(1) =~= rest);
    } else if e[0] == '\\' {
        lemma_read_string(e.skip(2), rest);
        assert(t.skip(2) =~= e.skip(2) + seq!['"'] + rest);
    } else {
        lemma_read_string(e.skip(1), rest);
        assert(t.skip(1) =~= e.skip(1) + seq!['"'] + rest);
    }
}

proof fn lemma_read_bool(b: bool, rest: Seq<char>)
    ensures
        read_bool(bool_text(b) + rest) == Some((b, rest)),
{
    reveal_strlit("true");
    reveal_strlit("false");
    let t = bool_text(b) + rest;
    lemma_behind(bool_text(b), rest);
    if !b {
        assert(t[0] == 'f');
        assert("true"@[0] == 't');
        if text::has_prefix(t, "true"@) {
            assert(t.take(4)[0] == t[0]);
        }
    }
}

proof fn lemma_read_item(v: gallery::ItemView, rest: Seq<char>)
    requires
        shows_no_controls(v),
    ensures
        read_item(item_json(v) + rest) == Some((v, rest)),
        item_json(v).len() > 0,
{
    reveal(read_item);
    let open_path = "{\"path\":\""@;
    let to_name = "\",\"name\":\""@;
    let to_video = "\",\"is_video\":"@;
    let name_key = ",\"name\":\""@;
    let video_key = ",\"is_video\":"@;
    let close = "}"@;
    reveal_strlit("{\"path\":\"");
    reveal_strlit("\",\"name\":\"");
    reveal_strlit("\",\"is_video\":");
    reveal_strlit(",\"name\":\"");
    reveal_strlit(",\"is_video\":");
    let quote = seq!['"'];
    assert(to_name =~= quote + name_key);
    assert(to_video =~= quote + video_key);
    let p = reply::json_escaped(v.path);
    let n = reply::json_escaped(v.name);
    let b = bool_text(v.is_video);
    reply::json_escape_reads_back(v.path);
    reply::json_escape_reads_back(v.name);
    let t6 = close + rest;
    let t5 = b + t6;
    let t4 = video_key + t5;
    let t3 = n + quote + t4;
    let t2 = name_key + t3;
    let t1 = p + quote + t2;
    let t = item_json(v) + rest;
    assert(t =~= open_path + t1);
    lemma_behind(open_path, t1);
    lemma_read_string(p, t2);
    lemma_behind(name_key, t3);
    lemma_read_string(n, t4);
    lemma_behind(video_key, t5);
    lemma_read_bool(v.is_video, t6);
    lemma_behind(close, rest);
}

proof fn lemma_items_from_the_front(items: Seq<gallery::ItemView>)
    requires
        items.len() > 1,
    ensures
        items_json(items) == item_json(items[0]) + ","@ + items_json(items.drop_first()),
    decreases items.len(),
{
    let head = items.drop_last();
    let tail = items.drop_first();
    if items.len() == 2 {
        assert(tail[0] == items.last());
        assert(items_json(head) == item_json(items[0]));
        assert(items_json(tail) == item_json(items.last()));
    } else {
        assert(items_json(tail) == items_json(tail.drop_last()) + ","@ + item_json(tail.last()));
        lemma_items_from_the_front(head);
        assert(head.drop_first() =~= tail.drop_last());
        assert(items_json(items) =~= item_json(items[0]) + ","@ + (items_json(tail.drop_last())
            + ","@ + item_json(tail.last())));
    }
}

proof fn lemma_read_items(items: Seq<gallery::ItemView>)
    requires
        items.len() > 0,
        forall|i: int| 0 <= i < items.len() ==> shows_no_controls(#[trigger] items[i]),
    ensures
        read_items(items_json(items) + "]"@) == Some(items),
        items_json(items).len() > 0,
    decreases items.len(),
{
    reveal_strlit(",");
    reveal_strlit("]");
    let t = items_json(items) + "]"@;
    if items.len() == 1 {
        lemma_read_item(items[0], "]"@);
        assert(seq![items[0]] =~= items);
    } else {
        let tail = items.drop_first();
        let more = items_json(tail) + "]"@;
        lemma_items_from_the_front(items);
        assert forall|i: int| 0 <= i < tail.len() implies shows_no_controls(#[trigger] tail[i]) by {
            assert(tail[i] == items[i + 1]);
        }
        lemma_read_items(tail);
        assert(t =~= item_json(items[0]) + (","@ + more));
        lemma_read_item(items[0], ","@ + more);
        lemma_behind(","@, more);
        assert((","@ + more)[0] == ',');
        assert("]"@[0] == ']');
        assert(seq![items[0]] + tail =~= items);
    }
}

/// A client that reads the list as JSON gets the gallery back: every item, in
/// order, whatever quotes and backslashes its path and name hold. With a control
/// character in one of them the list is no JSON.
pub proof fn gallery_list_reads_back(items: Seq<gallery::ItemView>)
    requires
        forall|i: int| 0 <= i < items.len() ==> shows_no_controls(#[trigger] items[i]),
    ensures
        read_list(list_body(items)) == Some(items),
{
    reveal_strlit("]");
    let t = list_body(items);
    let rest = items_json(items) + "]"@;
    assert(t =~= "["@ + rest);
    lemma_behind("["@, rest);
    if items.len() == 0 {
        assert(rest =~= "]"@);
        assert(items =~= Seq::empty());
    } else {
        lemma_read_items(items);
        assert(rest.len() > 1);
    }
}

// ── Reading the other answers back ────────────────────────────────────────────

/// Whether a text stands in a JSON string as it is.
pub open spec fn plain_text(s: Seq<char>) -> bool {
    !s.contains('"') && !s.contains('\\') && reply::no_controls(s)
}

proof fn lemma_plain_string(s: Seq<char>, rest: Seq<char>)
    requires
        plain_text(s),
    ensures
        read_string(s + seq!['"'] + rest) == Some((s, rest)),
{
    lemma_nothing_escaped(s);
    lemma_read_string(s, rest);
}

/// What a JSON object tells of the camera: whether it records, since when, how
/// much space is free, and whether the preview is on.
#[verifier::opaque]
pub open spec fn read_state(t: Seq<char>) -> Option<(bool, Seq<char>, Seq<char>, bool)> {
    if let Some(t1) = behind(t, "{\"recording\":"@) {
        if let Some((recording, t2)) = read_bool(t1) {
            if let Some(t3) = behind(t2, ",\"duration\":\""@) {
                if let Some((duration, t4)) = read_string(t3) {
                    if let Some(t5) = behind(t4, ",\"free_space\":\""@) {
                        if let Some((free, t6)) = read_string(t5) {
                            if let Some(t7) = behind(t6, ",\"preview\":"@) {
                                if let Some((preview, t8)) = read_bool(t7) {
                                    if t8 == "}"@ {
                                        Some((recording, duration, free, preview))
                                    } else {
                                        None
                                    }
                                } else {
                                    None
                                }
                            } else {
                                None
                            }
                        } else {
                            None
                        }
                    } else {
                        None
                    }
                } else {
                    None
                }
            } else {
                None
            }
        } else {
            None
        }
    } else {
        None
    }
}

proof fn lemma_clock_is_plain(secs: nat)
    ensures
        plain_text(clock::clock_text(secs)),
{
    reveal_strlit(":");
    text::padded_reads_back(secs / 60, 2);
    text::padded_reads_back(secs % 60, 2);
    let t = clock::clock_text(secs);
    let m = text::padded(secs / 60, 2);
    assert forall|i: int| 0 <= i < t.len() implies t[i] != '"' && t[i] != '\\' && t[i] >= ' ' by {
        if i < m.len() {
            assert(t[i] == m[i]);
        } else if i > m.len() {
            assert(t[i] == text::padded(secs % 60, 2)[i - m.len() - 1]);
        }
    }
}

/// What stands behind the first key of the camera's state.
spec fn state_rest(recording: bool, d: Seq<char>, free: Seq<char>, preview: bool) -> Seq<char> {
    bool_text(recording) + (",\"duration\":\""@ + (d + seq!['"'] + (",\"free_space\":\""@ + (free
        + seq!['"'] + (",\"preview\":"@ + (bool_text(preview) + "}"@))))))
}

proof fn lemma_state_text(recording: bool, secs: nat, free: Seq<char>, preview: bool)
    requires
        !free.contains('"'),
    ensures
        state_body(recording, secs, free, preview) == "{\"recording\":"@ + state_rest(
            recording,
            clock::clock_text(secs),
            free,
            preview,
        ),
{
    reveal_strlit("\",\"free_space\":\"");
    reveal_strlit(",\"free_space\":\"");
    reveal_strlit("\",\"preview\":");
    reveal_strlit(",\"preview\":");
    lemma_nothing_replaced(free, '"', ""@);
    let quote = seq!['"'];
    assert("\",\"free_space\":\""@ =~= quote + ",\"free_space\":\""@);
    assert("\",\"preview\":"@ =~= quote + ",\"preview\":"@);
    assert(state_body(recording, secs, free, preview) =~= "{\"recording\":"@ + state_rest(
        recording,
        clock::clock_text(secs),
        free,
        preview,
    ));
}

proof fn lemma_state_is_read(recording: bool, d: Seq<char>, free: Seq<char>, preview: bool)
    requires
        plain_text(d),
        plain_text(free),
    ensures
        read_state("{\"recording\":"@ + state_rest(recording, d, free, preview)) == Some(
            (recording, d, free, preview),
        ),
{
    let t7 = bool_text(preview) + "}"@;
    let t6 = ",\"preview\":"@ + t7;
    let t5 = free + seq!['"'] + t6;
    let t4 = ",\"free_space\":\""@ + t5;
    let t3 = d + seq!['"'] + t4;
    let t2 = ",\"duration\":\""@ + t3;
    let t1 = bool_text(recording) + t2;
    lemma_behind("{\"recording\":"@, t1);
    lemma_read_bool(recording, t2);
    lemma_behind(",\"duration\":\""@, t3);
    lemma_plain_string(d, t4);
    lemma_behind(",\"free_space\":\""@, t5);
    lemma_plain_string(free, t6);
    lemma_behind(",\"preview\":"@, t7);
    lemma_read_bool(preview, "}"@);
    reveal(read_state);
}

proof fn lemma_state_reads_back(recording: bool, secs: nat, free: Seq<char>, preview: bool)
    requires
        plain_text(free),
    ensures
        read_state(state_body(recording, secs, free, preview)) == Some(
            (recording, clock::clock_text(secs), free, preview),
        ),
{
    lemma_clock_is_plain(secs);
    lemma_state_text(recording, secs, free, preview);
    lemma_state_is_read(recording, clock::clock_text(secs), free, preview);
}

/// The seconds that a recording has been running are full ones.
pub proof fn running_seconds_are_full<T>(c: camera::CameraView<T>, now_ms: u64)
    ensures
        c.recording is None ==> running_secs(c, now_ms) == 0,
        c.recording matches Some((_, start)) ==> start <= now_ms ==> running_secs(c, now_ms) * 1_000
            <= now_ms - start < (running_secs(c, now_ms) + 1) * 1_000,
{
}

/// A client that reads the answer on the camera's state as JSON gets the state:
/// each value under its own key.
pub proof fn state_reads_back<T>(cam: Camera<T>, now_ms: u64, free: &str, r: String)
    requires
        call_ensures(api_state::<T>, (Some(&cam), now_ms, free), r),
        plain_text(free@),
    ensures
        exists|body: Seq<char>|
            {
                &&& r@ == #[trigger] reply::json_reply(200, body)
                &&& read_state(body) == Some(
                    (
                        cam@.recording is Some,
                        clock::clock_text(running_secs(cam@, now_ms)),
                        free@,
                        cam@.stream_enabled,
                    ),
                )
            },
{
    let secs = running_secs(cam@, now_ms);
    lemma_state_reads_back(cam@.recording is Some, secs, free@, cam@.stream_enabled);
    let body = state_body(cam@.recording is Some, secs, free@, cam@.stream_enabled);
    assert(r@ == reply::json_reply(200, body));
}

proof fn lemma_apostrophes_are_plain(s: Seq<char>)
    requires
        !s.contains('\\'),
        reply::no_controls(s),
    ensures
        plain_text(text::replaced(s, '"', "'"@)),
    decreases s.len(),
{
    reveal_strlit("'");
    let r = text::replaced(s, '"', "'"@);
    if s.len() > 0 {
        let head = s.drop_last();
        assert forall|i: int| 0 <= i < head.len() implies head[i] != '\\' && head[i] >= ' ' by {
            assert(s.contains(s[i]));
            assert(head[i] == s[i]);
        }
        lemma_apostrophes_are_plain(head);
        let before = text::replaced(head, '"', "'"@);
        assert(s.contains(s.last()));
        assert(s[s.len() - 1] >= ' ');
        assert forall|i: int| 0 <= i < r.len() implies r[i] != '"' && r[i] != '\\' && r[i]
            >= ' ' by {
            if i < before.len() {
                assert(r[i] == before[i]);
                assert(before.contains(before[i]));
            }
        }
    }
}

/// A client that reads the answer to a photo or the start of a recording as JSON
/// gets the path of the file, or the reason why there is none, with apostrophes
/// for its quotes.
pub proof fn outcomes_read_back(outcome: Result<String, String>, r: String)
    requires
        call_ensures(capture_reply, (&outcome,), r),
    ensures
        outcome matches Ok(path) ==> !path@.contains('\\') && reply::no_controls(path@) ==> exists|
            body: Seq<char>,
        |
            {
                &&& r@ == #[trigger] reply::json_reply(200, body)
                &&& text::has_prefix(body, "{\"ok\":true,\"path\":\""@)
                &&& read_string(body.skip("{\"ok\":true,\"path\":\""@.len() as int)) == Some(
                    (path@, "}"@),
                )
            },
        outcome matches Err(message) ==> !message@.contains('\\') && reply::no_controls(message@)
            ==> exists|body: Seq<char>|
            {
                &&& r@ == #[trigger] reply::json_reply(500, body)
                &&& text::has_prefix(body, "{\"ok\":false,\"error\":\""@)
                &&& read_string(body.skip("{\"ok\":false,\"error\":\""@.len() as int)) == Some(
                    (text::replaced(message@, '"', "'"@), "}"@),
                )
            },
{
    reveal_strlit("\"}");
    reveal_strlit("}");
    let quote = seq!['"'];
    assert("\"}"@ =~= quote + "}"@);
    match outcome {
        Ok(path) => {
            if !path@.contains('\\') && reply::no_controls(path@) {
                let key = "{\"ok\":true,\"path\":\""@;
                let e = text::replaced(path@, '"', "\\\""@);
                lemma_nothing_replaced(path@, '\\', "\\\\"@);
                reply::json_escape_reads_back(path@);
                let rest = e + quote + "}"@;
                assert(path_body(path@) =~= key + rest);
                lemma_behind(key, rest);
                lemma_read_string(e, "}"@);
                assert(r@ == reply::json_reply(200, path_body(path@)));
            }
        },
        Err(message) => {
            if !message@.contains('\\') && reply::no_controls(message@) {
                let key = "{\"ok\":false,\"error\":\""@;
                let shown = text::replaced(message@, '"', "'"@);
                lemma_apostrophes_are_plain(message@);
                let rest = shown + quote + "}"@;
                assert(error_body(message@) =~= key + rest);
                lemma_behind(key, rest);
                lemma_plain_string(shown, "}"@);
                assert(r@ == reply::json_reply(500, error_body(message@)));
            }
        },
    }
}

// ── What is granted ───────────────────────────────────────────────────────────

/// A recording can be started exactly where none runs, and stopped exactly where
/// one runs; without a camera neither can be. It is of the largest size.
pub proof fn recordings_start_and_stop_in_turn<T>(
    camera: Option<&Camera<T>>,
    start: Result<(u32, u32), String>,
    stop: Result<String, String>,
)
    requires
        call_ensures(api_record_start::<T>, (camera,), start),
        call_ensures(api_record_stop::<T>, (camera,), stop),
    ensures
        camera is None ==> start is Err && stop is Err,
        camera matches Some(cam) ==> {
            &&& start is Ok <==> cam@.recording is None
            &&& stop is Ok <==> cam@.recording is Some
        },
        start matches Ok(size) ==> size == (1920u32, 1080u32),
{
}

/// A photo is granted wherever there is a camera: of the sensor's own size, and
/// not raw.
pub proof fn photos_are_of_the_full_size<T>(
    camera: Option<&Camera<T>>,
    r: Result<(u32, u32, bool), String>,
)
    requires
        call_ensures(api_capture::<T>, (camera,), r),
    ensures
        r is Ok <==> camera is Some,
        r matches Ok(size) ==> size == (4056u32, 3040u32, false),
{
}

/// Only what the gallery lists is deleted, and only what it lists, or the
/// thumbnail of a video that it lists, is read.
pub proof fn only_listed_files_are_granted(
    query: &str,
    items: Vec<GalleryItem>,
    read: Result<String, String>,
    deleted: Result<String, String>,
)
    requires
        call_ensures(api_gallery_file, (query, &items), read),
        call_ensures(api_gallery_delete, (query, &items), deleted),
    ensures
        deleted matches Ok(path) ==> asked_path(query@) == Some(path@) && exists|i: int|
            0 <= i < items@.len() && (#[trigger] items@[i]).path@ == path@,
        read matches Ok(path) ==> asked_path(query@) == Some(path@) && exists|i: int|
            0 <= i < items@.len() && ((#[trigger] items@[i]).path@ == path@ || (items@[i].is_video
                && gallery::thumb_of(items@[i].path@) == path@)),
        deleted is Ok ==> read is Ok,
{
    let views = gallery::item_views(items@);
    if let Ok(path) = deleted {
        let i = choose|i: int| 0 <= i < views.len() && (#[trigger] views[i]).path == path@;
        assert(items@[i]@ == views[i]);
    }
    if let Ok(path) = read {
        only_listed_files_are_given_out(views, path@);
        let i = choose|i: int|
            0 <= i < views.len() && ((#[trigger] views[i]).path == path@ || (views[i].is_video
                && gallery::thumb_of(views[i].path) == path@));
        assert(items@[i]@ == views[i]);
    }
}

/// A granted file is opened under its own path, and only where it is a file of
/// the media directories.
pub proof fn opened_files_are_own_files(
    path: String,
    kind: EntryKind,
    roots: Vec<Vec<u8>>,
    r: Result<String, String>,
)
    requires
        call_ensures(open_granted, (path, &kind, &roots), r),
    ensures
        r is Ok <==> gallery::admitted(kind, gallery::rows(roots@)),
        r matches Ok(p) ==> p@ == path@,
{
}

/// The answer with a file ends in the file's bytes, all of them and nothing
/// else; before them stand the kind of the file, by its extension, and how many
/// bytes there are.
pub proof fn files_are_answered_whole(
    path: &str,
    bytes: Vec<u8>,
    r: Vec<u8>,
    stem: Seq<char>,
    ext: Seq<char>,
)
    requires
        call_ensures(file_answer, (path, Some(bytes)), r),
        path@ == stem + seq!['.'] + ext,
        !ext.contains('.'),
    ensures
        exists|a: Seq<char>, b: Seq<char>|
            {
                &&& r@ == encode_utf8(#[trigger] (a + text::decimal(bytes@.len()) + b)) + bytes@
                &&& a == "HTTP/1.0 200 OK\r\nContent-Type: "@ + content_type(text::lowered(ext))
                    + "\r\nContent-Length: "@
                &&& text::has_prefix(b, "\r\n"@)
                &&& text::has_suffix(b, "\r\n\r\n"@)
            },
{
    reveal_strlit("\r\n");
    reveal_strlit("\r\n\r\n");
    reveal_strlit("\r\nCache-Control: max-age=3600\r\nConnection: close\r\n\r\n");
    let n = stem.len() as int;
    assert forall|i: int| n < i < path@.len() implies path@[i] != '.' by {
        assert(path@[i] == ext[i - n - 1]);
        assert(ext.contains(ext[i - n - 1]));
    }
    assert(path@[n] == '.');
    text::find_last_is(path@, '.', n);
    assert(text::after_last(path@, '.') =~= ext);
    let a = "HTTP/1.0 200 OK\r\nContent-Type: "@ + content_type(text::lowered(ext))
        + "\r\nContent-Length: "@;
    let b = "\r\nCache-Control: max-age=3600\r\nConnection: close\r\n\r\n"@;
    assert(b.take(2) =~= "\r\n"@);
    assert(b.skip(b.len() - 4) =~= "\r\n\r\n"@);
    assert(file_reply(path@, bytes@.len()) == a + text::decimal(bytes@.len()) + b);
}

/// A client that reads the gallery's answer as JSON gets the items, in their
/// order.
pub proof fn gallery_answers_read_back(items: Vec<GalleryItem>, r: String)
    requires
        call_ensures(api_gallery_list, (&items,), r),
        forall|i: int| 0 <= i < items@.len() ==> shows_no_controls((#[trigger] items@[i])@),
    ensures
        exists|body: Seq<char>|
            {
                &&& r@ == #[trigger] reply::json_reply(200, body)
                &&& read_list(body) == Some(gallery::item_views(items@))
            },
{
    let views = gallery::item_views(items@);
    assert forall|i: int| 0 <= i < views.len() implies shows_no_controls(#[trigger] views[i]) by {
        assert(views[i] == items@[i]@);
    }
    gallery_list_reads_back(views);
    assert(r@ == reply::json_reply(200, list_body(views)));
}

/// Whether an answer carries a status.
pub open spec fn has_status(answer: Seq<char>, status: u16) -> bool {
    exists|body: Seq<char>| answer == #[trigger] reply::json_reply(status, body)
}

/// Each refusal carries its status: 503 without a camera, 409 for a recording
/// that is asked to start or stop out of turn, 400 for settings that are no JSON,
/// 500 for a file that could not be deleted. What is granted is answered with
/// 200.
pub proof fn refusals_carry_their_status<T>(
    camera: Option<&Camera<T>>,
    photo: Result<(u32, u32, bool), String>,
    start: Result<(u32, u32), String>,
    stop: Result<String, String>,
    buf: &[u8],
    patch: Result<(serde_json::Value, String), String>,
    deleted: bool,
    answer: String,
)
    requires
        call_ensures(api_capture::<T>, (camera,), photo),
        call_ensures(api_record_start::<T>, (camera,), start),
        call_ensures(api_record_stop::<T>, (camera,), stop),
        call_ensures(api_settings::<T>, (camera, buf), patch),
        call_ensures(delete_reply, (deleted,), answer),
    ensures
        camera is None ==> photo is Err && has_status(photo->Err_0@, 503),
        camera is None ==> start is Err && has_status(start->Err_0@, 503),
        camera is None ==> stop is Err && has_status(stop->Err_0@, 503),
        camera is None ==> patch is Err && has_status(patch->Err_0@, 503),
        camera is Some && start is Err ==> has_status(start->Err_0@, 409),
        camera is Some && stop is Err ==> has_status(stop->Err_0@, 409),
        camera is Some && patch is Err ==> has_status(patch->Err_0@, 400),
        stop is Ok ==> has_status(stop->Ok_0@, 200),
        camera is Some ==> (patch is Ok <==> panel::patch_ints(buf@) is Some),
        deleted ==> has_status(answer@, 200),
        !deleted ==> has_status(answer@, 500),
{
    let gone = "{\"error\":\"camera unavailable\"}"@;
    let running = "{\"ok\":false,\"error\":\"already recording\"}"@;
    let idle = "{\"ok\":false,\"error\":\"not recording\"}"@;
    let malformed = "{\"ok\":false,\"error\":\"invalid settings\"}"@;
    let failed = "{\"ok\":false,\"error\":\"delete failed\"}"@;
    let done = "{\"ok\":true}"@;
    assert(has_status(reply::json_reply(503, gone), 503));
    assert(has_status(reply::json_reply(409, running), 409));
    assert(has_status(reply::json_reply(409, idle), 409));
    assert(has_status(reply::json_reply(400, malformed), 400));
    assert(has_status(reply::json_reply(500, failed), 500));
    assert(has_status(reply::json_reply(200, done), 200));
}

/// The two pages and the refusal are answered on their own routes, and nothing
/// else is answered without a look at the camera or the gallery.
pub proof fn fixed_pages_have_their_routes(route: Route, r: Option<String>)
    requires
        call_ensures(fixed_reply, (route,), r),
    ensures
        r is Some <==> route == Route::Index || route == Route::Control || route == Route::NotFound,
        route == Route::Index ==> r->0@ == reply::html_reply(INDEX_HTML@),
        route == Route::Control ==> r->0@ == reply::html_reply(CONTROL_HTML@),
        route == Route::NotFound ==> r->0@ == reply::not_found_reply(),
{
}

} // verus!
