//! The touchscreen's panel: what its choices stand for, what it shows, and what
//! its buttons set off.

use vstd::prelude::*;

use crate::camera;
use crate::camera::{
    Camera, PreviewAction, PHOTO_RESOLUTIONS, TL_RESOLUTIONS, VIDEO_RESOLUTIONS,
};
use crate::config::CameraDefaults;
use crate::request;
use crate::request::body_of;
use crate::settings;
use crate::settings::CameraSettings;
use crate::text;
use crate::text::{chars_of, dec, push_text};

verus! {

// ── Choices ───────────────────────────────────────────────────────────────────

/// The self-timer's delays on offer, in seconds.
pub const SELF_TIMER_SECS: [i32; 4] = [0, 2, 5, 10];

/// The numbers of shots on offer.
pub const BURST_COUNTS: [usize; 4] = [1, 3, 5, 10];

/// The place in a table of `len` entries that a choice stands for: the last one
/// if it lies beyond.
pub open spec fn clamped(idx: int, len: int) -> int {
    if idx < len {
        idx
    } else {
        len - 1
    }
}

fn clamp(idx: usize, len: usize) -> (r: usize)
    requires
        len > 0,
    ensures
        r == clamped(idx as int, len as int),
        r < len,
{
    if idx < len {
        idx
    } else {
        len - 1
    }
}

/// The size of a photo.
pub fn photo_size(idx: usize) -> (r: (u32, u32))
    ensures
        r.0 == PHOTO_RESOLUTIONS[clamped(idx as int, 4)].0,
        r.1 == PHOTO_RESOLUTIONS[clamped(idx as int, 4)].1,
{
    let i = clamp(idx, PHOTO_RESOLUTIONS.len());
    (PHOTO_RESOLUTIONS[i].0, PHOTO_RESOLUTIONS[i].1)
}

/// The size of a video.
pub fn video_size(idx: usize) -> (r: (u32, u32))
    ensures
        r.0 == VIDEO_RESOLUTIONS[clamped(idx as int, 3)].0,
        r.1 == VIDEO_RESOLUTIONS[clamped(idx as int, 3)].1,
{
    let i = clamp(idx, VIDEO_RESOLUTIONS.len());
    (VIDEO_RESOLUTIONS[i].0, VIDEO_RESOLUTIONS[i].1)
}

/// The size of a time-lapse frame.
pub fn timelapse_size(idx: usize) -> (r: (u32, u32))
    ensures
        r.0 == TL_RESOLUTIONS[clamped(idx as int, 3)].0,
        r.1 == TL_RESOLUTIONS[clamped(idx as int, 3)].1,
{
    let i = clamp(idx, TL_RESOLUTIONS.len());
    (TL_RESOLUTIONS[i].0, TL_RESOLUTIONS[i].1)
}

/// The self-timer's delay in seconds.
pub fn self_timer_secs(idx: usize) -> (r: i32)
    ensures
        r == SELF_TIMER_SECS[clamped(idx as int, 4)],
{
    SELF_TIMER_SECS[clamp(idx, SELF_TIMER_SECS.len())]
}

/// The number of shots.
pub fn burst_count(idx: usize) -> (r: usize)
    ensures
        r == BURST_COUNTS[clamped(idx as int, 4)],
{
    BURST_COUNTS[clamp(idx, BURST_COUNTS.len())]
}

/// The table choices as the panel holds them.
#[derive(Clone, Copy, Debug, PartialEq, Eq, Structural)]
pub struct Choices {
    pub iso_idx: i32,
    pub shutter_idx: i32,
    pub awb_idx: i32,
}

/// How the panel shows the choices of a configuration.
pub open spec fn shown_choices<T>(c: CameraDefaults<T>) -> Choices {
    Choices {
        iso_idx: c.iso_idx as i32,
        shutter_idx: c.shutter_idx as i32,
        awb_idx: c.awb_idx as i32,
    }
}

/// How the panel shows the choices of a configuration.
pub fn show_choices<T>(c: &CameraDefaults<T>) -> (r: Choices)
    ensures
        r == shown_choices(*c),
{
    Choices {
        iso_idx: c.iso_idx as i32,
        shutter_idx: c.shutter_idx as i32,
        awb_idx: c.awb_idx as i32,
    }
}

/// The settings that the panel stands for: its choices, and the continuous
/// values in the order of the settings.
pub fn read_settings<T>(
    c: Choices,
    ev: T,
    contrast: T,
    saturation: T,
    sharpness: T,
    brightness: T,
    zoom: T,
) -> (r: CameraSettings<T>)
    ensures
        r == (CameraSettings {
            iso_idx: c.iso_idx as usize,
            shutter_idx: c.shutter_idx as usize,
            awb_idx: c.awb_idx as usize,
            ev,
            contrast,
            saturation,
            sharpness,
            brightness,
            zoom,
        }),
{
    CameraSettings {
        iso_idx: c.iso_idx as usize,
        shutter_idx: c.shutter_idx as usize,
        awb_idx: c.awb_idx as usize,
        ev,
        contrast,
        saturation,
        sharpness,
        brightness,
        zoom,
    }
}

/// The choices of a configuration come back from the panel as they were, as
/// long as they are in the tables.
pub proof fn configured_choices_are_honoured<T>(c: CameraDefaults<T>)
    requires
        c.iso_idx < settings::ISO_VALUES.len(),
        c.shutter_idx < settings::SHUTTER_SPEEDS.len(),
        c.awb_idx < settings::AWB_MODES.len(),
    ensures
        shown_choices(c).iso_idx as usize == c.iso_idx,
        shown_choices(c).shutter_idx as usize == c.shutter_idx,
        shown_choices(c).awb_idx as usize == c.awb_idx,
{
}

// ── Changes that come as JSON ─────────────────────────────────────────────────

/// `serde_json::Value`, any JSON value.
#[verifier::external_type_specification]
#[verifier::external_body]
pub struct ExJsonValue(serde_json::Value);

/// The keys of a JSON object whose values are integers of 64 bits, with those
/// integers; none for any other JSON value.
pub uninterp spec fn int_fields(value: serde_json::Value) -> Map<Seq<char>, i64>;

/// `serde_json::Value::get` and `serde_json::Value::as_i64`: the integer at a
/// key of an object, if the value is an object with that key and has an integer
/// of 64 bits there.
#[verifier::external_body]
fn int_field(value: &serde_json::Value, key: &str) -> (r: Option<i64>)
    ensures
        r is Some <==> int_fields(*value).contains_key(key@),
        r matches Some(n) ==> n == int_fields(*value)[key@],
{
    value.get(key).and_then(|v| v.as_i64())
}

/// The integers of the JSON value that some bytes hold, by their keys, as in
/// `int_fields`; nothing if they are not taken as JSON.
pub uninterp spec fn json_ints(bytes: Seq<u8>) -> Option<Map<Seq<char>, i64>>;

/// `serde_json::from_slice` into a `serde_json::Value`: whether the bytes are
/// taken as JSON, and which value they then hold, depends on the bytes alone. Of
/// the value only its integers have a name.
#[verifier::external_body]
fn parse_json(bytes: &[u8]) -> (r: Option<serde_json::Value>)
    ensures
        r is Some <==> json_ints(bytes@) is Some,
        r matches Some(value) ==> int_fields(value) == json_ints(bytes@)->0,
{
    serde_json::from_slice(bytes).ok()
}

/// The integers of the patch in the body of a request; nothing if there is no
/// body or it is not JSON.
pub open spec fn patch_ints(buf: Seq<u8>) -> Option<Map<Seq<char>, i64>> {
    match request::request_body(buf) {
        Some(body) => json_ints(body),
        None => None,
    }
}

/// The patch of settings in the body of a request.
pub fn settings_patch(buf: &[u8]) -> (r: Option<serde_json::Value>)
    ensures
        r is Some <==> patch_ints(buf@) is Some,
        r matches Some(patch) ==> int_fields(patch) == patch_ints(buf@)->0,
{
    match body_of(buf) {
        Some(body) => parse_json(body),
        None => None,
    }
}

/// Whether more of a request is to be awaited whose body is a patch: there is
/// room for more, and what has come holds no patch yet.
pub fn awaits_patch(buf: &[u8], room: usize) -> (r: bool)
    ensures
        r == (room > 0 && patch_ints(buf@) is None),
{
    room > 0 && settings_patch(buf).is_none()
}

/// The choices with those changed that are given anew.
pub open spec fn changed_choices(
    c: Choices,
    iso: Option<i64>,
    shutter: Option<i64>,
    awb: Option<i64>,
) -> Choices {
    Choices {
        iso_idx: match iso {
            Some(v) => v as i32,
            None => c.iso_idx,
        },
        shutter_idx: match shutter {
            Some(v) => v as i32,
            None => c.shutter_idx,
        },
        awb_idx: match awb {
            Some(v) => v as i32,
            None => c.awb_idx,
        },
    }
}

/// Changes the choices that are given anew.
pub fn change_choices(c: Choices, iso: Option<i64>, shutter: Option<i64>, awb: Option<i64>) -> (r:
    Choices)
    ensures
        r == changed_choices(c, iso, shutter, awb),
{
    Choices {
        iso_idx: match iso {
            Some(v) => v as i32,
            None => c.iso_idx,
        },
        shutter_idx: match shutter {
            Some(v) => v as i32,
            None => c.shutter_idx,
        },
        awb_idx: match awb {
            Some(v) => v as i32,
            None => c.awb_idx,
        },
    }
}

/// The integer at a key, if there is one.
pub open spec fn field_of(fields: Map<Seq<char>, i64>, key: Seq<char>) -> Option<i64> {
    if fields.contains_key(key) {
        Some(fields[key])
    } else {
        None
    }
}

/// Changes the choices that a JSON object names: `iso_idx`, `shutter_idx` and
/// `awb_idx`, where they are integers.
pub fn apply_patch(c: Choices, patch: &serde_json::Value) -> (r: Choices)
    ensures
        r == changed_choices(
            c,
            field_of(int_fields(*patch), "iso_idx"@),
            field_of(int_fields(*patch), "shutter_idx"@),
            field_of(int_fields(*patch), "awb_idx"@),
        ),
{
    let iso = int_field(patch, "iso_idx");
    let shutter = int_field(patch, "shutter_idx");
    let awb = int_field(patch, "awb_idx");
    change_choices(c, iso, shutter, awb)
}

// ── What the panel shows ──────────────────────────────────────────────────────

/// The numbers that the self-timer shows, one each second, and 0 when it is
/// over; nothing if there is no delay.
pub open spec fn countdown_of(secs: int) -> Seq<i32> {
    if secs > 0 {
        Seq::new(secs as nat, |i: int| (secs - i) as i32).push(0)
    } else {
        Seq::empty()
    }
}

/// The numbers that the self-timer shows.
pub fn countdown(secs: i32) -> (r: Vec<i32>)
    ensures
        r@ == countdown_of(secs as int),
{
    let mut shown: Vec<i32> = Vec::new();
    if secs > 0 {
        let mut n: i32 = secs;
        while n > 0
            invariant
                0 <= n <= secs,
                shown@ == Seq::new((secs - n) as nat, |i: int| (secs - i) as i32),
            decreases n,
        {
            shown.push(n);
            n = n - 1;
            assert(shown@ =~= Seq::new((secs - n) as nat, |i: int| (secs - i) as i32));
        }
        shown.push(0);
    }
    assert(shown@ =~= countdown_of(secs as int));
    shown
}

/// How far a burst is.
pub fn burst_progress(shot: usize, count: usize) -> (r: String)
    ensures
        r@ == text::decimal(shot as nat) + " / "@ + text::decimal(count as nat),
{
    let mut s = dec(shot as u128);
    s.append(" / ");
    let number = dec(count as u128);
    s.append(number.as_str());
    s
}

/// The picture shown after a capture: the last one taken, if there is one and
/// the user wants it shown.
pub fn last_shot(paths: &Vec<String>, review: bool) -> (r: Option<String>)
    ensures
        r is Some <==> review && paths@.len() > 0,
        r matches Some(p) ==> p@ == paths@.last()@,
{
    let n = paths.len();
    if review && n > 0 {
        Some(paths[n - 1].as_str().to_owned())
    } else {
        None
    }
}

// ── What the buttons set off ──────────────────────────────────────────────────

/// What the push stream's switch sets off.
#[derive(Clone, Copy, Debug, PartialEq, Eq, Structural)]
pub enum PushSwitch {
    Start,
    NoUrl,
    Stop,
}

/// What the push stream's switch sets off: without a URL nothing can start.
pub fn switch_push(on: bool, url: &str) -> (r: PushSwitch)
    ensures
        r == (if !on {
            PushSwitch::Stop
        } else if url@.len() == 0 {
            PushSwitch::NoUrl
        } else {
            PushSwitch::Start
        }),
{
    if !on {
        PushSwitch::Stop
    } else if chars_of(url).len() == 0 {
        PushSwitch::NoUrl
    } else {
        PushSwitch::Start
    }
}

/// The arguments of `mpv` that play a video.
pub open spec fn player_args(path: Seq<char>) -> Seq<Seq<char>> {
    seq![
        "--fs"@,
        "--no-osc"@,
        "--no-input-default-bindings"@,
        "--input-conf=/dev/null"@,
        "--really-quiet"@,
        "--keep-open=no"@,
        path,
    ]
}

/// The arguments of `mpv` that play a video.
pub fn mpv_args(path: &str) -> (r: Vec<String>)
    ensures
        text::texts(r@) == player_args(path@),
{
    let mut args: Vec<String> = Vec::new();
    assert(text::texts(args@) =~= Seq::empty());
    push_text(&mut args, "--fs");
    push_text(&mut args, "--no-osc");
    push_text(&mut args, "--no-input-default-bindings");
    push_text(&mut args, "--input-conf=/dev/null");
    push_text(&mut args, "--really-quiet");
    push_text(&mut args, "--keep-open=no");
    push_text(&mut args, path);
    assert(text::texts(args@) =~= player_args(path@));
    args
}

/// Makes way for a video: switches the preview off, and says whether it was on
/// and what the device is told.
pub fn begin_playback<T>(cam: &mut Camera<T>) -> (r: (bool, Option<PreviewAction>))
    ensures
        final(cam)@ == camera::switched(old(cam)@, false),
        r.0 == old(cam)@.stream_enabled,
        r.1 == camera::switch_action(old(cam)@, false),
{
    let was_streaming = cam.is_stream_enabled();
    let action = cam.set_stream_enabled(false);
    (was_streaming, action)
}

/// Ends a video: switches the preview on again if it was on before.
pub fn end_playback<T>(cam: &mut Camera<T>, was_streaming: bool) -> (r: Option<PreviewAction>)
    ensures
        was_streaming ==> final(cam)@ == camera::switched(old(cam)@, true) && r
            == camera::switch_action(old(cam)@, true),
        !was_streaming ==> final(cam)@ == old(cam)@ && r is None,
{
    if was_streaming {
        cam.set_stream_enabled(true)
    } else {
        None
    }
}

/// The camera after a video that began with the camera `c`.
pub open spec fn played<T>(c: camera::CameraView<T>) -> camera::CameraView<T> {
    let during = camera::switched(c, false);
    if c.stream_enabled {
        camera::switched(during, true)
    } else {
        during
    }
}

/// Playing a video leaves the camera as it was.
pub proof fn playback_restores_the_preview<T>(c: camera::CameraView<T>)
    ensures
        played(c) == c,
{
}

/// A choice in a table stands for its own entry, and one beyond the table for
/// the last.
pub proof fn choices_stand_for_their_entries(idx: int, len: int)
    requires
        0 <= idx,
        0 < len,
    ensures
        0 <= clamped(idx, len) < len,
        idx < len ==> clamped(idx, len) == idx,
        idx >= len ==> clamped(idx, len) + 1 == len,
{
}

/// The panel's values are the settings of the same names.
pub proof fn panel_values_keep_their_names<T>(
    c: Choices,
    ev: T,
    contrast: T,
    saturation: T,
    sharpness: T,
    brightness: T,
    zoom: T,
    r: CameraSettings<T>,
)
    requires
        c.iso_idx >= 0,
        c.shutter_idx >= 0,
        c.awb_idx >= 0,
        call_ensures(
            read_settings::<T>,
            (c, ev, contrast, saturation, sharpness, brightness, zoom),
            r,
        ),
    ensures
        r.iso_idx == c.iso_idx,
        r.shutter_idx == c.shutter_idx,
        r.awb_idx == c.awb_idx,
        r.ev == ev,
        r.contrast == contrast,
        r.saturation == saturation,
        r.sharpness == sharpness,
        r.brightness == brightness,
        r.zoom == zoom,
{
}

/// A patch changes each choice that it names to what it says, and no other.
pub proof fn patches_change_what_they_name(
    c: Choices,
    patch: serde_json::Value,
    r: Choices,
)
    requires
        call_ensures(apply_patch, (c, &patch), r),
    ensures
        ({
            let ints = int_fields(patch);
            &&& !ints.contains_key("iso_idx"@) ==> r.iso_idx == c.iso_idx
            &&& !ints.contains_key("shutter_idx"@) ==> r.shutter_idx == c.shutter_idx
            &&& !ints.contains_key("awb_idx"@) ==> r.awb_idx == c.awb_idx
            &&& ints.contains_key("iso_idx"@) && i32::MIN <= ints["iso_idx"@] <= i32::MAX
                ==> r.iso_idx == ints["iso_idx"@]
            &&& ints.contains_key("shutter_idx"@) && i32::MIN <= ints["shutter_idx"@] <= i32::MAX
                ==> r.shutter_idx == ints["shutter_idx"@]
            &&& ints.contains_key("awb_idx"@) && i32::MIN <= ints["awb_idx"@] <= i32::MAX
                ==> r.awb_idx == ints["awb_idx"@]
        }),
{
}

/// The self-timer counts down second by second: it starts at the delay, each
/// number is one less than the one before, and the last is 0.
pub proof fn countdown_counts_down(secs: i32, r: Vec<i32>)
    requires
        call_ensures(countdown, (secs,), r),
    ensures
        secs <= 0 ==> r@.len() == 0,
        secs > 0 ==> {
            &&& r@.len() == secs + 1
            &&& r@[0] == secs
            &&& r@.last() == 0
            &&& forall|i: int| 0 <= i < secs ==> #[trigger] r@[i] == r@[i + 1] + 1
        },
{
}

/// The player is given the video as its file, and options before it.
pub proof fn players_play_the_video(path: &str, r: Vec<String>)
    requires
        call_ensures(mpv_args, (path,), r),
    ensures
        ({
            let args = text::texts(r@);
            &&& args.len() > 0
            &&& args.last() == path@
            &&& args.contains("--fs"@)
            &&& args.contains("--keep-open=no"@)
            &&& forall|i: int|
                0 <= i < args.len() - 1 ==> settings::names_option(#[trigger] args[i])
        }),
{
    reveal_strlit("--fs");
    reveal_strlit("--no-osc");
    reveal_strlit("--no-input-default-bindings");
    reveal_strlit("--input-conf=/dev/null");
    reveal_strlit("--really-quiet");
    reveal_strlit("--keep-open=no");
    let args = player_args(path@);
    assert(args[0] == "--fs"@);
    assert(args[5] == "--keep-open=no"@);
}

/// The picture that is shown for review is the one that was taken last.
pub proof fn review_shows_the_latest(paths: Vec<String>, review: bool, r: Option<String>)
    requires
        call_ensures(last_shot, (&paths, review), r),
    ensures
        !review ==> r is None,
        paths@.len() == 0 ==> r is None,
        review && paths@.len() > 0 ==> (r matches Some(p) && p@ == paths@[paths@.len() - 1]@),
{
}

/// Without a URL nothing is pushed, and what is switched off is stopped.
pub proof fn nothing_is_pushed_nowhere(on: bool, url: &str, r: PushSwitch)
    requires
        call_ensures(switch_push, (on, url), r),
    ensures
        r == PushSwitch::Start <==> on && url@.len() > 0,
        r == PushSwitch::Stop <==> !on,
        r == PushSwitch::NoUrl <==> on && url@.len() == 0,
{
}

/// A video takes the preview off and gives it back exactly where it was on; the
/// settings and the recording are not touched.
pub proof fn playback_gives_the_preview_back<T>(
    begin: (&mut Camera<T>,),
    was: (bool, Option<PreviewAction>),
    end: (&mut Camera<T>, bool),
    back: Option<PreviewAction>,
)
    requires
        call_ensures(begin_playback::<T>, begin, was),
        call_ensures(end_playback::<T>, end, back),
        old(end.0)@ == final(begin.0)@,
        end.1 == was.0,
    ensures
        !final(begin.0)@.stream_enabled,
        was.0 == old(begin.0)@.stream_enabled,
        was.1 == Some(PreviewAction::Pause) <==> was.0,
        was.1 is None <==> !was.0,
        back == Some(PreviewAction::Resume) <==> was.0,
        back is None <==> !was.0,
        final(end.0)@ == old(begin.0)@,
{
}

/// The sizes, delays and shots that the panel's choices stand for are those of
/// their tables, width and height together.
pub proof fn choices_give_table_entries(
    idx: usize,
    photo: (u32, u32),
    video: (u32, u32),
    lapse: (u32, u32),
    delay: i32,
    shots: usize,
)
    requires
        call_ensures(photo_size, (idx,), photo),
        call_ensures(video_size, (idx,), video),
        call_ensures(timelapse_size, (idx,), lapse),
        call_ensures(self_timer_secs, (idx,), delay),
        call_ensures(burst_count, (idx,), shots),
    ensures
        idx < 4 ==> photo == (PHOTO_RESOLUTIONS[idx as int].0, PHOTO_RESOLUTIONS[idx as int].1),
        idx < 3 ==> video == (VIDEO_RESOLUTIONS[idx as int].0, VIDEO_RESOLUTIONS[idx as int].1),
        idx < 3 ==> lapse == (TL_RESOLUTIONS[idx as int].0, TL_RESOLUTIONS[idx as int].1),
        idx < 4 ==> delay == SELF_TIMER_SECS[idx as int],
        idx < 4 ==> shots == BURST_COUNTS[idx as int],
        idx >= 4 ==> photo == (PHOTO_RESOLUTIONS[3].0, PHOTO_RESOLUTIONS[3].1),
        idx >= 3 ==> video == (VIDEO_RESOLUTIONS[2].0, VIDEO_RESOLUTIONS[2].1),
        idx >= 3 ==> lapse == (TL_RESOLUTIONS[2].0, TL_RESOLUTIONS[2].1),
        idx >= 4 ==> delay == SELF_TIMER_SECS[3],
        idx >= 4 ==> shots == BURST_COUNTS[3],
{
}

/// How far a burst is, is told by the shot and then the number of shots.
pub proof fn progress_tells_shot_and_count(shot: usize, count: usize, r: String)
    requires
        call_ensures(burst_progress, (shot, count), r),
    ensures
        text::has_prefix(r@, text::decimal(shot as nat) + " "@),
        text::has_suffix(r@, " "@ + text::decimal(count as nat)),
{
    reveal_strlit(" / ");
    reveal_strlit(" ");
    let a = text::decimal(shot as nat);
    let b = text::decimal(count as nat);
    assert(r@.take(a.len() as int + 1) =~= a + " "@);
    assert(r@.skip(r@.len() - b.len() - 1) =~= " "@ + b);
}

/// The self-timer and the bursts offer what is longer or more from one choice to
/// the next, from none and one on.
pub proof fn timers_and_bursts_on_offer()
    ensures
        SELF_TIMER_SECS@ == seq![0i32, 2, 5, 10],
        BURST_COUNTS@ == seq![1usize, 3, 5, 10],
{
    assert(SELF_TIMER_SECS@ =~= seq![0i32, 2, 5, 10]);
    assert(BURST_COUNTS@ =~= seq![1usize, 3, 5, 10]);
}

/// The patch of a request is read from its body, whatever its headers are, and
/// more is awaited exactly while there is none and there is room.
pub proof fn patches_are_read_from_the_body(
    head: Seq<u8>,
    body: Seq<u8>,
    buf: &[u8],
    room: usize,
    patch: Option<serde_json::Value>,
    more: bool,
)
    requires
        forall|i: int|
            0 <= i < head.len() ==> !request::blank_line_at(head + seq![13u8, 10, 13, 10], i),
        buf@ == head + seq![13u8, 10, 13, 10] + body,
        call_ensures(settings_patch, (buf,), patch),
        call_ensures(awaits_patch, (buf, room), more),
    ensures
        patch is Some <==> json_ints(body) is Some,
        patch matches Some(p) ==> int_fields(p) == json_ints(body)->0,
        more <==> patch is None && room > 0,
{
    request::body_reads_back(head, body);
}

} // verus!
