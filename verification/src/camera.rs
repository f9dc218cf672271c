//! The camera: what it is doing, what each command asks of the device and of
//! the programs that take pictures, and where the files go.

use vstd::prelude::*;
use vstd::utf8::*;

use crate::gallery;
use crate::gallery::{thumb_path, ItemView};
use crate::settings;
use crate::settings::{
    apply_settings, build_rpicam_args, is_in_tables, push_flag, settings_changed, CameraSettings,
    Controls, TuningText, SHUTTER_SPEEDS,
};
use crate::text;
use crate::text::{dec, dec_padded, dec_signed, push_text};

verus! {

/// Where photos go.
pub const SAVE_DIR: &'static str = "/home/pi/Pictures/picam";

/// Where videos go.
pub const VIDEO_DIR: &'static str = "/home/pi/Videos/picam";

/// Where time-lapses go.
pub const TL_DIR: &'static str = "/home/pi/Pictures/timelapse";

/// The size of the preview stream.
pub const PREVIEW_W: u32 = 800;

pub const PREVIEW_H: u32 = 480;

/// The size of the record stream. It does not depend on the output's size.
pub const RECORD_W: u32 = 1920;

pub const RECORD_H: u32 = 1080;

/// The photo sizes on offer. The first is the sensor's own.
pub const PHOTO_RESOLUTIONS: [(u32, u32, &'static str); 4] = [
    (4056, 3040, "12MP"),
    (3280, 2464, "8MP"),
    (2592, 1944, "5MP"),
    (1920, 1080, "FHD"),
];

/// The video sizes on offer.
pub const VIDEO_RESOLUTIONS: [(u32, u32, &'static str); 3] = [
    (1920, 1080, "1080p"),
    (1280, 720, "720p"),
    (854, 480, "480p"),
];

/// The time-lapse sizes on offer.
pub const TL_RESOLUTIONS: [(u32, u32, &'static str); 3] = [
    (2028, 1520, "3MP"),
    (1920, 1080, "FHD"),
    (1280, 720, "720p"),
];

/// How long the device needs to let go of the sensor before another program can
/// take a picture with it, in milliseconds.
pub const RELEASE_MS: u64 = 500;

/// How long `rpicam-still` runs for a short exposure, in milliseconds, and by
/// how much it outlasts a long one.
pub const STILL_MS: u64 = 200;

// ── File names ────────────────────────────────────────────────────────────────

/// The path of a photo taken at a time.
pub open spec fn photo_path(ts: nat) -> Seq<char> {
    SAVE_DIR@ + "/IMG_"@ + text::decimal(ts) + ".jpg"@
}

/// The path of the `shot`th photo of a burst begun at a time.
pub open spec fn burst_path(ts: nat, shot: nat) -> Seq<char> {
    SAVE_DIR@ + "/IMG_"@ + text::decimal(ts) + "_"@ + text::padded(shot, 2) + ".jpg"@
}

/// The path of a video begun at a time.
pub open spec fn video_path(ts: nat) -> Seq<char> {
    VIDEO_DIR@ + "/VID_"@ + text::decimal(ts) + ".mp4"@
}

/// The path of a time-lapse frame in its session's directory.
pub open spec fn frame_path(dir: Seq<char>, index: nat) -> Seq<char> {
    let start = if dir.len() > 0 && dir.last() != '/' {
        dir + "/"@
    } else {
        dir
    };
    start + "frame_"@ + text::padded(index, 6) + ".jpg"@
}

fn photo_file(ts: u128) -> (r: String)
    ensures
        r@ == photo_path(ts as nat),
{
    let mut s = SAVE_DIR.to_owned();
    s.append("/IMG_");
    let time = dec(ts);
    s.append(time.as_str());
    s.append(".jpg");
    s
}

fn burst_file(ts: u128, shot: usize) -> (r: String)
    ensures
        r@ == burst_path(ts as nat, shot as nat),
{
    let mut s = SAVE_DIR.to_owned();
    s.append("/IMG_");
    let time = dec(ts);
    s.append(time.as_str());
    s.append("_");
    let number = dec_padded(shot as u128, 2);
    s.append(number.as_str());
    s.append(".jpg");
    s
}

fn video_file(ts: u128) -> (r: String)
    ensures
        r@ == video_path(ts as nat),
{
    let mut s = VIDEO_DIR.to_owned();
    s.append("/VID_");
    let time = dec(ts);
    s.append(time.as_str());
    s.append(".mp4");
    s
}

fn frame_file(dir: &str, index: usize) -> (r: String)
    ensures
        r@ == frame_path(dir@, index as nat),
{
    let chars = text::chars_of(dir);
    let mut s = dir.to_owned();
    let n = chars.len();
    if n > 0 && chars[n - 1] != '/' {
        s.append("/");
    }
    s.append("frame_");
    let number = dec_padded(index as u128, 6);
    s.append(number.as_str());
    s.append(".jpg");
    s
}

// ── Still pictures ────────────────────────────────────────────────────────────

/// How long `rpicam-still` is to run, in milliseconds: past the end of a long
/// exposure, which would be cut short otherwise.
pub open spec fn still_timeout(shutter_us: int) -> int {
    if shutter_us < STILL_MS * 1_000 {
        STILL_MS as int
    } else {
        shutter_us / 1_000 + STILL_MS
    }
}

/// A picture to take: where it goes, and the arguments of `rpicam-still`.
pub struct CapturePlan {
    pub path: String,
    pub args: Vec<String>,
}

/// The arguments of `rpicam-still` but for the settings.
pub open spec fn still_args(
    path: Seq<char>,
    timeout: int,
    width: u32,
    height: u32,
    raw: bool,
) -> Seq<Seq<char>> {
    let a = settings::with_flag(Seq::empty(), "--output"@, path);
    let b = settings::with_flag(a, "--timeout"@, text::decimal(timeout as nat));
    let c = settings::with_flag(b, "--rotation"@, "180"@);
    let d = settings::with_flag(c, "--width"@, text::decimal(width as nat));
    let e = settings::with_flag(d, "--height"@, text::decimal(height as nat));
    let f = e.push("--nopreview"@).push("--immediate"@);
    if raw {
        f.push("--raw"@)
    } else {
        f
    }
}

/// All arguments of `rpicam-still` for a picture.
pub open spec fn capture_args<T>(
    path: Seq<char>,
    width: u32,
    height: u32,
    raw: bool,
    s: CameraSettings<T>,
    t: TuningText,
) -> Seq<Seq<char>> {
    still_args(
        path,
        still_timeout(SHUTTER_SPEEDS[s.shutter_idx as int].1 as int),
        width,
        height,
        raw,
    ) + settings::settings_args(s, t)
}

fn capture_plan<T>(
    path: String,
    width: u32,
    height: u32,
    raw: bool,
    s: &CameraSettings<T>,
    t: &TuningText,
) -> (r: CapturePlan)
    requires
        s.in_tables(),
    ensures
        r.path@ == path@,
        text::texts(r.args@) == capture_args(path@, width, height, raw, *s, *t),
{
    let mut args: Vec<String> = Vec::new();
    assert(text::texts(args@) =~= Seq::empty());
    let shutter_us: i32 = SHUTTER_SPEEDS[s.shutter_idx].1;
    let timeout: i64 = if (shutter_us as i64) < STILL_MS as i64 * 1_000 {
        STILL_MS as i64
    } else {
        (shutter_us / 1_000) as i64 + STILL_MS as i64
    };
    push_flag(&mut args, "--output", path.as_str());
    let number = dec(timeout as u128);
    push_flag(&mut args, "--timeout", number.as_str());
    push_flag(&mut args, "--rotation", "180");
    let number = dec(width as u128);
    push_flag(&mut args, "--width", number.as_str());
    let number = dec(height as u128);
    push_flag(&mut args, "--height", number.as_str());
    push_text(&mut args, "--nopreview");
    push_text(&mut args, "--immediate");
    if raw {
        push_text(&mut args, "--raw");
    }
    let mut more = build_rpicam_args(s, t);
    let ghost first = args@;
    let ghost second = more@;
    args.append(&mut more);
    assert(text::texts(args@) =~= text::texts(first) + text::texts(second));
    CapturePlan { path, args }
}

/// An exit code as it is reported.
pub open spec fn code_text(code: Option<i32>) -> Seq<char> {
    match code {
        Some(n) => "Some("@ + text::signed_decimal(n as int) + ")"@,
        None => "None"@,
    }
}

/// What became of a picture: its path if and only if `rpicam-still` ran and
/// exited with 0; else why not. `status` is the exit code, none after a signal,
/// or the reason why it could not be run; `what` names the attempt.
pub fn capture_result(path: String, what: &str, status: Result<Option<i32>, String>) -> (r: Result<
    String,
    String,
>)
    ensures
        match status {
            Err(e) => r matches Err(m) && m@ == what@ + ": "@ + e@,
            Ok(Some(0)) => r matches Ok(p) && p@ == path@,
            Ok(code) => r matches Err(m) && m@ == "rpicam-still exited "@ + code_text(code),
        },
{
    match status {
        Err(e) => {
            let mut m = what.to_owned();
            m.append(": ");
            m.append(e.as_str());
            Err(m)
        },
        Ok(Some(0)) => Ok(path),
        Ok(Some(n)) => {
            let mut code = "Some(".to_owned();
            let number = dec_signed(n);
            code.append(number.as_str());
            code.append(")");
            let mut m = "rpicam-still exited ".to_owned();
            m.append(code.as_str());
            Err(m)
        },
        Ok(None) => {
            let mut m = "rpicam-still exited ".to_owned();
            m.append("None");
            Err(m)
        },
    }
}

/// The paths of the shots that succeeded, in order.
pub open spec fn taken(results: Seq<Result<String, String>>) -> Seq<Seq<char>>
    decreases results.len(),
{
    if results.len() == 0 {
        Seq::empty()
    } else {
        let head = taken(results.drop_last());
        match results.last() {
            Ok(path) => head.push(path@),
            Err(_) => head,
        }
    }
}

/// The paths of the shots of a burst that succeeded. A shot that failed takes
/// none of the others along.
pub fn taken_paths(results: &Vec<Result<String, String>>) -> (r: Vec<String>)
    ensures
        text::texts(r@) == taken(results@),
{
    let mut paths: Vec<String> = Vec::new();
    assert(text::texts(paths@) =~= taken(results@.take(0)));
    for i in 0..results.len()
        invariant
            text::texts(paths@) == taken(results@.take(i as int)),
    {
        assert(results@.take(i + 1).drop_last() =~= results@.take(i as int));
        if let Ok(path) = &results[i] {
            push_text(&mut paths, path.as_str());
        }
    }
    assert(results@.take(results@.len() as int) =~= results@);
    paths
}

// ── Videos ────────────────────────────────────────────────────────────────────

/// A video to record: where it goes, and the arguments of `ffmpeg`.
pub struct RecordingPlan {
    pub path: String,
    pub args: Vec<String>,
}

/// The arguments of `ffmpeg` for a recording: raw frames of the record stream
/// in, H264 out, scaled where the output has another size.
pub open spec fn record_args(path: Seq<char>, width: u32, height: u32) -> Seq<Seq<char>> {
    let a = Seq::<Seq<char>>::empty().push("-y"@);
    let b = settings::with_flag(a, "-f"@, "rawvideo"@);
    let c = settings::with_flag(b, "-pix_fmt"@, "nv12"@);
    let d = settings::with_flag(
        c,
        "-s"@,
        text::decimal(RECORD_W as nat) + "x"@ + text::decimal(RECORD_H as nat),
    );
    let e = settings::with_flag(d, "-r"@, "25"@);
    let f = settings::with_flag(e, "-i"@, "pipe:0"@);
    let g = if width != RECORD_W || height != RECORD_H {
        settings::with_flag(
            f,
            "-vf"@,
            "scale="@ + text::decimal(width as nat) + ":"@ + text::decimal(height as nat),
        )
    } else {
        f
    };
    let h = settings::with_flag(g, "-c:v"@, "libx264"@);
    let i = settings::with_flag(h, "-preset"@, "fast"@);
    let j = settings::with_flag(i, "-pix_fmt"@, "yuv420p"@);
    j.push(path)
}

/// The recording that a command at a time stands for.
pub fn recording_plan(ts: u128, width: u32, height: u32) -> (r: RecordingPlan)
    ensures
        r.path@ == video_path(ts as nat),
        text::texts(r.args@) == record_args(video_path(ts as nat), width, height),
{
    let path = video_file(ts);
    let mut size = dec(RECORD_W as u128);
    size.append("x");
    let number = dec(RECORD_H as u128);
    size.append(number.as_str());
    let mut args: Vec<String> = Vec::new();
    assert(text::texts(args@) =~= Seq::empty());
    push_text(&mut args, "-y");
    push_flag(&mut args, "-f", "rawvideo");
    push_flag(&mut args, "-pix_fmt", "nv12");
    push_flag(&mut args, "-s", size.as_str());
    push_flag(&mut args, "-r", "25");
    push_flag(&mut args, "-i", "pipe:0");
    if width != RECORD_W || height != RECORD_H {
        let mut scale = "scale=".to_owned();
        let number = dec(width as u128);
        scale.append(number.as_str());
        scale.append(":");
        let number = dec(height as u128);
        scale.append(number.as_str());
        push_flag(&mut args, "-vf", scale.as_str());
    }
    push_flag(&mut args, "-c:v", "libx264");
    push_flag(&mut args, "-preset", "fast");
    push_flag(&mut args, "-pix_fmt", "yuv420p");
    push_text(&mut args, path.as_str());
    RecordingPlan { path, args }
}

/// A video that was recorded, and how to make its thumbnail.
pub struct FinishPlan {
    pub path: String,
    pub thumb: String,
    pub args: Vec<String>,
}

/// The arguments of `ffmpeg` that take a video's first frame.
pub open spec fn thumb_args(path: Seq<char>) -> Seq<Seq<char>> {
    let a = Seq::<Seq<char>>::empty().push("-y"@);
    let b = settings::with_flag(a, "-i"@, path);
    let c = settings::with_flag(b, "-vframes"@, "1"@);
    let d = settings::with_flag(c, "-q:v"@, "4"@);
    d.push(gallery::thumb_of(path))
}

fn finish_plan(path: String) -> (r: FinishPlan)
    ensures
        r.path@ == path@,
        r.thumb@ == gallery::thumb_of(path@),
        text::texts(r.args@) == thumb_args(path@),
{
    let thumb = thumb_path(path.as_str());
    let mut args: Vec<String> = Vec::new();
    assert(text::texts(args@) =~= Seq::empty());
    push_text(&mut args, "-y");
    push_flag(&mut args, "-i", path.as_str());
    push_flag(&mut args, "-vframes", "1");
    push_flag(&mut args, "-q:v", "4");
    push_text(&mut args, thumb.as_str());
    FinishPlan { path, thumb, args }
}

/// What is done to finish a recording.
#[derive(Clone, Copy, Debug, PartialEq, Eq, Structural)]
pub enum FinishStep {
    /// Close the pipe to `ffmpeg`, so that it writes the end of the file.
    ClosePipe,
    /// Wait until `ffmpeg` has exited.
    AwaitEncoder,
    /// Make the thumbnail, as far as that can be done.
    MakeThumbnail,
    /// Report that the recording is finished.
    Report,
}

/// The end of a recording, step by step.
pub struct FinishRun {
    done: u8,
}

impl View for FinishRun {
    type V = nat;

    closed spec fn view(&self) -> nat {
        self.done as nat
    }
}

/// The steps of a recording's end, in their order.
pub open spec fn finish_steps() -> Seq<FinishStep> {
    seq![
        FinishStep::ClosePipe,
        FinishStep::AwaitEncoder,
        FinishStep::MakeThumbnail,
        FinishStep::Report,
    ]
}

/// The step that follows so many others, if there is one.
pub open spec fn finish_step(done: nat) -> Option<FinishStep> {
    if done < finish_steps().len() {
        Some(finish_steps()[done as int])
    } else {
        None
    }
}

impl FinishRun {
    /// An end of which nothing is done yet.
    pub fn new() -> (r: Self)
        ensures
            r@ == 0,
    {
        FinishRun { done: 0 }
    }

    /// The next step, if there is one.
    pub fn step(&mut self) -> (r: Option<FinishStep>)
        ensures
            r == finish_step(old(self)@),
            final(self)@ == (if r is Some {
                old(self)@ + 1
            } else {
                old(self)@
            }),
    {
        let step = match self.done {
            0 => FinishStep::ClosePipe,
            1 => FinishStep::AwaitEncoder,
            2 => FinishStep::MakeThumbnail,
            3 => FinishStep::Report,
            _ => {
                return None;
            },
        };
        self.done = self.done + 1;
        Some(step)
    }
}

// ── The camera's state ────────────────────────────────────────────────────────

/// A recording that is running: where it goes, and when it began on the clock
/// that `recording_duration` is given, in milliseconds.
struct Recording {
    out_path: String,
    start_ms: u64,
}

/// The camera. `stream_enabled` is the user's wish; `paused` holds only while a
/// picture is taken, whatever the wish.
pub struct Camera<T> {
    settings: CameraSettings<T>,
    stream_enabled: bool,
    paused: bool,
    recording: Option<Recording>,
}

/// What the camera is doing.
pub struct CameraView<T> {
    pub settings: CameraSettings<T>,
    pub stream_enabled: bool,
    pub paused: bool,
    pub recording: Option<(Seq<char>, u64)>,
}

impl<T> View for Camera<T> {
    type V = CameraView<T>;

    closed spec fn view(&self) -> CameraView<T> {
        CameraView {
            settings: self.settings,
            stream_enabled: self.stream_enabled,
            paused: self.paused,
            recording: match self.recording {
                Some(r) => Some((r.out_path@, r.start_ms)),
                None => None,
            },
        }
    }
}

/// What the preview stream of the device is told.
#[derive(Clone, Copy, Debug, PartialEq, Eq, Structural)]
pub enum PreviewAction {
    Pause,
    Resume,
}

/// The camera once the user has switched the preview.
pub open spec fn switched<T>(c: CameraView<T>, on: bool) -> CameraView<T> {
    CameraView { stream_enabled: on, ..c }
}

/// What the device is told when the user switches the preview: nothing if that
/// changes nothing.
pub open spec fn switch_action<T>(c: CameraView<T>, on: bool) -> Option<PreviewAction> {
    if c.stream_enabled == on {
        None
    } else if on {
        Some(PreviewAction::Resume)
    } else {
        Some(PreviewAction::Pause)
    }
}

/// The camera while a picture is taken.
pub open spec fn capturing<T>(c: CameraView<T>) -> CameraView<T> {
    CameraView { paused: true, ..c }
}

/// The camera after a picture.
pub open spec fn captured<T>(c: CameraView<T>) -> CameraView<T> {
    CameraView { paused: false, ..c }
}

/// What the device is told after a picture: to go on, but only if the user
/// wants the preview.
pub open spec fn after_capture_action<T>(c: CameraView<T>) -> Option<PreviewAction> {
    if c.stream_enabled {
        Some(PreviewAction::Resume)
    } else {
        None
    }
}

/// The camera with a recording to a path since a time.
pub open spec fn recording_to<T>(c: CameraView<T>, path: Seq<char>, now_ms: u64) -> CameraView<T> {
    CameraView { recording: Some((path, now_ms)), ..c }
}

/// The camera without a recording.
pub open spec fn not_recording<T>(c: CameraView<T>) -> CameraView<T> {
    CameraView { recording: None, ..c }
}

/// Where the recording goes, if one runs.
pub open spec fn recorded_path<T>(c: CameraView<T>) -> Option<Seq<char>> {
    match c.recording {
        Some((path, _)) => Some(path),
        None => None,
    }
}

impl<T> Camera<T> {
    /// The settings can be applied to the device.
    #[verifier::type_invariant]
    spec fn wf(self) -> bool {
        self.settings.applicable()
    }

    /// A camera with the given settings, the preview on.
    pub fn new(settings: CameraSettings<T>) -> (r: Self)
        requires
            settings.applicable(),
        ensures
            r@ == (CameraView {
                settings,
                stream_enabled: true,
                paused: false,
                recording: None::<(Seq<char>, u64)>,
            }),
    {
        Camera { settings, stream_enabled: true, paused: false, recording: None }
    }

    /// Switches the preview and says what the device is told.
    pub fn set_stream_enabled(&mut self, on: bool) -> (r: Option<PreviewAction>)
        ensures
            final(self)@ == switched(old(self)@, on),
            r == switch_action(old(self)@, on),
    {
        proof {
            use_type_invariant(&*self);
        }
        let prev = self.stream_enabled;
        self.stream_enabled = on;
        if prev == on {
            None
        } else if on {
            Some(PreviewAction::Resume)
        } else {
            Some(PreviewAction::Pause)
        }
    }

    /// Whether the user wants the preview.
    pub fn is_stream_enabled(&self) -> (r: bool)
        ensures
            r == self@.stream_enabled,
    {
        self.stream_enabled
    }

    /// Whether a picture is being taken.
    pub fn is_paused(&self) -> (r: bool)
        ensures
            r == self@.paused,
    {
        self.paused
    }

    /// The settings.
    pub fn current_settings(&self) -> (r: &CameraSettings<T>)
        ensures
            *r == self@.settings,
    {
        &self.settings
    }

    /// Whether a picture can be taken with the settings as they are.
    pub fn can_capture(&self) -> (r: bool)
        ensures
            r == self@.settings.in_tables(),
    {
        is_in_tables(&self.settings)
    }

    /// Takes over new settings. The controls come back if the device must be
    /// told of them: if a choice differs, or a continuous setting has moved.
    pub fn update_settings<F: Fn(&T, &T) -> bool>(&mut self, s: CameraSettings<T>, moved: F) -> (r:
        Option<Controls<T>>) where T: Copy
        requires
            s.applicable(),
            forall|x: &T, y: &T| #[trigger] call_requires(moved, (x, y)),
        ensures
            final(self)@ == (CameraView { settings: s, ..old(self)@ }),
            r matches Some(controls) ==> {
                let a = old(self)@.settings;
                &&& controls == settings::controls_of(s)
                &&& {
                    ||| !settings::same_choices(a, s)
                    ||| call_ensures(moved, (&a.ev, &s.ev), true)
                    ||| call_ensures(moved, (&a.contrast, &s.contrast), true)
                    ||| call_ensures(moved, (&a.saturation, &s.saturation), true)
                    ||| call_ensures(moved, (&a.sharpness, &s.sharpness), true)
                    ||| call_ensures(moved, (&a.brightness, &s.brightness), true)
                    ||| call_ensures(moved, (&a.zoom, &s.zoom), true)
                }
            },
            r is None ==> {
                let a = old(self)@.settings;
                &&& settings::same_choices(a, s)
                &&& call_ensures(moved, (&a.ev, &s.ev), false)
                &&& call_ensures(moved, (&a.contrast, &s.contrast), false)
                &&& call_ensures(moved, (&a.saturation, &s.saturation), false)
                &&& call_ensures(moved, (&a.sharpness, &s.sharpness), false)
                &&& call_ensures(moved, (&a.brightness, &s.brightness), false)
                &&& call_ensures(moved, (&a.zoom, &s.zoom), false)
            },
            forall|test: spec_fn(T, T) -> bool| #[trigger]
                settings::computes(moved, test) ==> (r is Some <==> settings::changed_by(
                    old(self)@.settings,
                    s,
                    test,
                )),
    {
        let changed = settings_changed(&self.settings, &s, moved);
        self.settings = s;
        if changed {
            Some(apply_settings(&self.settings))
        } else {
            None
        }
    }

    /// Begins a photo: what the device is told, which is to pause, and the plan of
    /// the photo; or a refusal while a recording runs.
    pub fn capture_photo(
        &mut self,
        width: u32,
        height: u32,
        raw: bool,
        ts: u128,
        t: &TuningText,
    ) -> (r: Result<(PreviewAction, CapturePlan), String>)
        requires
            old(self)@.recording is None ==> old(self)@.settings.in_tables(),
        ensures
            match r {
                Ok((action, plan)) => {
                    &&& old(self)@.recording is None
                    &&& action == PreviewAction::Pause
                    &&& final(self)@ == capturing(old(self)@)
                    &&& plan.path@ == photo_path(ts as nat)
                    &&& text::texts(plan.args@) == capture_args(
                        photo_path(ts as nat),
                        width,
                        height,
                        raw,
                        old(self)@.settings,
                        *t,
                    )
                },
                Err(m) => {
                    &&& old(self)@.recording is Some
                    &&& final(self)@ == old(self)@
                    &&& m@ == "Stop recording before taking a photo"@
                },
            },
    {
        if self.is_recording() {
            return Err("Stop recording before taking a photo".to_owned());
        }
        let plan = capture_plan(photo_file(ts), width, height, raw, &self.settings, t);
        let action = self.pause_for_capture();
        Ok((action, plan))
    }

    /// Begins a burst: what the device is told, which is to pause, and the plans
    /// of the shots, numbered from 1; or a refusal while a recording runs.
    pub fn capture_burst(
        &mut self,
        count: usize,
        width: u32,
        height: u32,
        raw: bool,
        ts: u128,
        t: &TuningText,
    ) -> (r: Result<(PreviewAction, Vec<CapturePlan>), String>)
        requires
            old(self)@.recording is None ==> old(self)@.settings.in_tables(),
        ensures
            match r {
                Ok((action, plans)) => {
                    &&& old(self)@.recording is None
                    &&& action == PreviewAction::Pause
                    &&& final(self)@ == capturing(old(self)@)
                    &&& plans@.len() == count
                    &&& forall|i: int|
                        0 <= i < count ==> {
                            let path = burst_path(ts as nat, (i + 1) as nat);
                            &&& (#[trigger] plans@[i]).path@ == path
                            &&& text::texts(plans@[i].args@) == capture_args(
                                path,
                                width,
                                height,
                                raw,
                                old(self)@.settings,
                                *t,
                            )
                        }
                },
                Err(m) => {
                    &&& old(self)@.recording is Some
                    &&& final(self)@ == old(self)@
                    &&& m@ == "Stop recording before taking a photo"@
                },
            },
    {
        if self.is_recording() {
            return Err("Stop recording before taking a photo".to_owned());
        }
        let mut plans: Vec<CapturePlan> = Vec::new();
        for i in 0..count
            invariant
                self.settings.in_tables(),
                plans@.len() == i,
                forall|j: int|
                    0 <= j < i ==> {
                        let path = burst_path(ts as nat, (j + 1) as nat);
                        &&& (#[trigger] plans@[j]).path@ == path
                        &&& text::texts(plans@[j].args@) == capture_args(
                            path,
                            width,
                            height,
                            raw,
                            self.settings,
                            *t,
                        )
                    },
        {
            let path = burst_file(ts, i + 1);
            plans.push(capture_plan(path, width, height, raw, &self.settings, t));
        }
        let action = self.pause_for_capture();
        Ok((action, plans))
    }

    /// Makes way for another program to use the sensor. The device is told to
    /// pause, and needs `RELEASE_MS` to do so.
    pub fn pause_for_capture(&mut self) -> (r: PreviewAction)
        ensures
            final(self)@ == capturing(old(self)@),
            r == PreviewAction::Pause,
    {
        proof {
            use_type_invariant(&*self);
        }
        self.paused = true;
        PreviewAction::Pause
    }

    /// Takes the sensor back after a picture.
    pub fn resume_after_capture(&mut self) -> (r: Option<PreviewAction>)
        ensures
            final(self)@ == captured(old(self)@),
            r == after_capture_action(old(self)@),
    {
        proof {
            use_type_invariant(&*self);
        }
        self.paused = false;
        if self.stream_enabled {
            Some(PreviewAction::Resume)
        } else {
            None
        }
    }

    /// Notes that `ffmpeg` was started at a time to record to a path, or why it
    /// could not be. A recording that runs already is replaced.
    pub fn start_recording(&mut self, path: String, started: Result<(), String>, now_ms: u64) -> (r:
        Result<String, String>)
        ensures
            match started {
                Ok(_) => {
                    &&& r matches Ok(p) && p@ == path@
                    &&& final(self)@ == recording_to(old(self)@, path@, now_ms)
                },
                Err(e) => {
                    &&& r matches Err(m) && m@ == "ffmpeg spawn failed: "@ + e@
                    &&& final(self)@ == old(self)@
                },
            },
    {
        proof {
            use_type_invariant(&*self);
        }
        match started {
            Ok(_) => {
                let out_path = path.as_str().to_owned();
                self.recording = Some(Recording { out_path, start_ms: now_ms });
                Ok(path)
            },
            Err(e) => {
                let mut m = "ffmpeg spawn failed: ".to_owned();
                m.append(e.as_str());
                Err(m)
            },
        }
    }

    /// Ends the recording, if one runs, and says how its thumbnail is made.
    pub fn stop_recording(&mut self) -> (r: Option<FinishPlan>)
        ensures
            final(self)@ == not_recording(old(self)@),
            r is Some <==> recorded_path(old(self)@) is Some,
            r matches Some(plan) ==> {
                let path = recorded_path(old(self)@)->0;
                &&& plan.path@ == path
                &&& plan.thumb@ == gallery::thumb_of(path)
                &&& text::texts(plan.args@) == thumb_args(path)
            },
    {
        proof {
            use_type_invariant(&*self);
        }
        let mut recording: Option<Recording> = None;
        std::mem::swap(&mut recording, &mut self.recording);
        match recording {
            Some(state) => Some(finish_plan(state.out_path)),
            None => None,
        }
    }

    /// Whether a recording runs.
    pub fn is_recording(&self) -> (r: bool)
        ensures
            r == self@.recording is Some,
    {
        self.recording.is_some()
    }

    /// How long the recording has been running, in milliseconds; 0 if none
    /// runs.
    pub fn recording_duration(&self, now_ms: u64) -> (r: u64)
        ensures
            r == (match self@.recording {
                Some((_, start)) => if now_ms >= start {
                    now_ms - start
                } else {
                    0
                },
                None => 0,
            }),
    {
        match &self.recording {
            Some(state) => if now_ms >= state.start_ms {
                now_ms - state.start_ms
            } else {
                0
            },
            None => 0,
        }
    }

    /// Begins a frame of a time-lapse: what the device is told, which is to
    /// pause, and the plan of the frame.
    pub fn capture_timelapse_frame(
        &mut self,
        index: usize,
        session_dir: &str,
        width: u32,
        height: u32,
        t: &TuningText,
    ) -> (r: (PreviewAction, CapturePlan))
        requires
            old(self)@.settings.in_tables(),
        ensures
            final(self)@ == capturing(old(self)@),
            r.0 == PreviewAction::Pause,
            r.1.path@ == frame_path(session_dir@, index as nat),
            text::texts(r.1.args@) == capture_args(
                frame_path(session_dir@, index as nat),
                width,
                height,
                false,
                old(self)@.settings,
                *t,
            ),
    {
        let path = frame_file(session_dir, index);
        let plan = capture_plan(path, width, height, false, &self.settings, t);
        let action = self.pause_for_capture();
        (action, plan)
    }

    /// Ends whatever runs before the device is closed.
    pub fn stop(&mut self) -> (r: Option<FinishPlan>)
        ensures
            final(self)@ == not_recording(old(self)@),
            r is Some <==> recorded_path(old(self)@) is Some,
            r matches Some(plan) ==> {
                let path = recorded_path(old(self)@)->0;
                &&& plan.path@ == path
                &&& plan.thumb@ == gallery::thumb_of(path)
                &&& text::texts(plan.args@) == thumb_args(path)
            },
    {
        self.stop_recording()
    }
}

// ── What the camera promises ──────────────────────────────────────────────────

/// Whether the preview stream of the device runs once it has done as told.
pub open spec fn obeyed(running: bool, action: Option<PreviewAction>) -> bool {
    match action {
        Some(PreviewAction::Pause) => false,
        Some(PreviewAction::Resume) => true,
        None => running,
    }
}

/// Between pictures the device runs exactly when the user wants it to: a switch
/// keeps that so.
pub proof fn switch_follows_the_user<T>(c: CameraView<T>, running: bool, on: bool)
    requires
        running == c.stream_enabled,
    ensures
        obeyed(running, switch_action(c, on)) == switched(c, on).stream_enabled,
        switch_action(switched(c, on), on) is None,
{
}

/// Taking a picture leaves everything as it was: the settings, the recording
/// and the user's wish for the preview, which the device follows again. A
/// preview that the user has switched off does not come back.
pub proof fn capture_restores_the_preview<T>(c: CameraView<T>, running: bool)
    requires
        !c.paused,
        running == c.stream_enabled,
    ensures
        captured(capturing(c)) == c,
        ({
            let during = obeyed(running, Some(PreviewAction::Pause));
            &&& !during
            &&& obeyed(during, after_capture_action(capturing(c))) == running
        }),
{
}

/// A stop gives the path of the latest start, and a second stop gives none; all
/// else stays as it was.
pub proof fn stop_gives_the_latest_recording<T>(c: CameraView<T>, path: Seq<char>, now_ms: u64)
    ensures
        ({
            let running = recording_to(c, path, now_ms);
            let after = not_recording(running);
            &&& recorded_path(running) == Some(path)
            &&& recorded_path(after) is None
            &&& after == not_recording(c)
        }),
{
}

/// The end of a recording is reported exactly once, as the last step: after the
/// pipe was closed, `ffmpeg` has exited and the thumbnail was tried.
pub proof fn finish_is_reported_once_and_last(n: nat)
    ensures
        finish_step(n) == Some(FinishStep::Report) <==> n == 3,
        finish_step(n) is None <==> n > 3,
        finish_step(0) == Some(FinishStep::ClosePipe),
        finish_step(1) == Some(FinishStep::AwaitEncoder),
        finish_step(2) == Some(FinishStep::MakeThumbnail),
{
}

/// `rpicam-still` outlasts every exposure.
pub proof fn timeout_exceeds_the_shutter(shutter_us: int)
    requires
        shutter_us >= 0,
    ensures
        still_timeout(shutter_us) * 1_000 > shutter_us,
        still_timeout(shutter_us) >= STILL_MS,
{
}

/// A recording is scaled exactly where its size is not that of the record
/// stream.
pub proof fn only_other_sizes_are_scaled(ts: nat, width: u32, height: u32)
    ensures
        record_args(video_path(ts), width, height).contains("-vf"@) <==> width != RECORD_W || height
            != RECORD_H,
{
    reveal_strlit("-vf");
    reveal_strlit("-y");
    reveal_strlit("-f");
    reveal_strlit("rawvideo");
    reveal_strlit("-pix_fmt");
    reveal_strlit("nv12");
    reveal_strlit("-s");
    reveal_strlit("-r");
    reveal_strlit("25");
    reveal_strlit("-i");
    reveal_strlit("pipe:0");
    reveal_strlit("-c:v");
    reveal_strlit("libx264");
    reveal_strlit("-preset");
    reveal_strlit("fast");
    reveal_strlit("yuv420p");
    reveal_strlit("/VID_");
    let scale = "-vf"@;
    assert(scale.len() == 3 && scale[0] == '-');
    let path = video_path(ts);
    let size = text::decimal(RECORD_W as nat) + "x"@ + text::decimal(RECORD_H as nat);
    text::decimal_reads_back(RECORD_W as nat);
    assert('0' <= text::decimal(RECORD_W as nat)[0] <= '9');
    assert(size[0] == text::decimal(RECORD_W as nat)[0]);
    assert(path.len() > 3);
    let args = record_args(path, width, height);
    if width != RECORD_W || height != RECORD_H {
        assert(args[11] == scale);
    } else {
        assert(args =~= seq![
            "-y"@,
            "-f"@,
            "rawvideo"@,
            "-pix_fmt"@,
            "nv12"@,
            "-s"@,
            size,
            "-r"@,
            "25"@,
            "-i"@,
            "pipe:0"@,
            "-c:v"@,
            "libx264"@,
            "-preset"@,
            "fast"@,
            "-pix_fmt"@,
            "yuv420p"@,
            path,
        ]);
    }
}

/// Whether a name is that of an option of a picture itself.
pub open spec fn names_picture_option(name: Seq<char>) -> bool {
    ||| name == "--output"@
    ||| name == "--timeout"@
    ||| name == "--rotation"@
    ||| name == "--width"@
    ||| name == "--height"@
}

proof fn lemma_still_is_read(path: Seq<char>, timeout: int, width: u32, height: u32, raw: bool)
    ensures
        ({
            let args = still_args(path, timeout, width, height, raw);
            let sw = settings::still_switches();
            &&& settings::well_read(args, sw)
            &&& forall|name: Seq<char>| #[trigger]
                settings::given(args, sw, name) == (if name == "--output"@ {
                    seq![path]
                } else if name == "--timeout"@ {
                    seq![text::decimal(timeout as nat)]
                } else if name == "--rotation"@ {
                    seq!["180"@]
                } else if name == "--width"@ {
                    seq![text::decimal(width as nat)]
                } else if name == "--height"@ {
                    seq![text::decimal(height as nat)]
                } else {
                    Seq::empty()
                })
            &&& forall|name: Seq<char>| #[trigger]
                settings::times_given(args, sw, name) == (if name == "--nopreview"@ || name
                    == "--immediate"@ || (name == "--raw"@ && raw) {
                    1nat
                } else {
                    0
                })
        }),
{
    settings::lemma_still_names();
    let sw = settings::still_switches();
    settings::lemma_nothing_given(sw);
    let none = Seq::<Seq<char>>::empty();
    settings::option_is_read(none, sw, "--output"@, path);
    let a = settings::with_flag(none, "--output"@, path);
    let ms = text::decimal(timeout as nat);
    settings::option_is_read(a, sw, "--timeout"@, ms);
    let b = settings::with_flag(a, "--timeout"@, ms);
    settings::option_is_read(b, sw, "--rotation"@, "180"@);
    let c = settings::with_flag(b, "--rotation"@, "180"@);
    let w = text::decimal(width as nat);
    settings::option_is_read(c, sw, "--width"@, w);
    let d = settings::with_flag(c, "--width"@, w);
    let h = text::decimal(height as nat);
    settings::option_is_read(d, sw, "--height"@, h);
    let e = settings::with_flag(d, "--height"@, h);
    settings::switch_is_read(e, sw, "--nopreview"@);
    let f = e.push("--nopreview"@);
    settings::switch_is_read(f, sw, "--immediate"@);
    let g = f.push("--immediate"@);
    settings::switch_is_read(g, sw, "--raw"@);
}

/// Whether `rpicam-still` is told to take a picture: to its path, of its size,
/// upright, with every setting under its own name, and raw exactly where that is
/// wanted. It shows no preview, takes the picture at once, and is given nothing
/// else.
pub open spec fn takes_picture<T>(
    args: Seq<Seq<char>>,
    path: Seq<char>,
    width: u32,
    height: u32,
    raw: bool,
    s: CameraSettings<T>,
    t: TuningText,
) -> bool {
    let sw = settings::still_switches();
    let us = SHUTTER_SPEEDS[s.shutter_idx as int].1 as int;
    &&& settings::well_read(args, sw)
    &&& settings::tells_settings(args, s, t)
    &&& settings::given(args, sw, "--output"@) == seq![path]
    &&& settings::given(args, sw, "--width"@) == seq![text::decimal(width as nat)]
    &&& settings::given(args, sw, "--height"@) == seq![text::decimal(height as nat)]
    &&& settings::given(args, sw, "--rotation"@) == seq!["180"@]
    &&& settings::given(args, sw, "--timeout"@) == seq![text::decimal(still_timeout(us) as nat)]
    &&& settings::times_given(args, sw, "--nopreview"@) == 1
    &&& settings::times_given(args, sw, "--immediate"@) == 1
    &&& settings::times_given(args, sw, "--raw"@) == (if raw {
        1nat
    } else {
        0
    })
    &&& forall|name: Seq<char>|
        !names_picture_option(name) && !settings::names_setting(name)
            ==> #[trigger] settings::given(args, sw, name).len() == 0
}

/// The arguments for a picture tell `rpicam-still` to take it as it is asked for.
pub proof fn pictures_are_taken_as_asked<T>(
    path: Seq<char>,
    width: u32,
    height: u32,
    raw: bool,
    s: CameraSettings<T>,
    t: TuningText,
)
    requires
        s.in_tables(),
    ensures
        takes_picture(capture_args(path, width, height, raw, s, t), path, width, height, raw, s, t),
{
    settings::lemma_still_names();
    let sw = settings::still_switches();
    let us = SHUTTER_SPEEDS[s.shutter_idx as int].1 as int;
    let a = still_args(path, still_timeout(us), width, height, raw);
    let b = settings::settings_args(s, t);
    lemma_still_is_read(path, still_timeout(us), width, height, raw);
    settings::lemma_settings_are_read(s, t);
    settings::lemma_read_in_a_row(a, b, sw);
    let none = Seq::<Seq<char>>::empty();
    assert forall|name: Seq<char>| #[trigger]
        settings::given(a + b, sw, name) == (if names_picture_option(name) {
            settings::given(a, sw, name)
        } else {
            settings::given(b, sw, name)
        }) by {
        if names_picture_option(name) {
            assert(!settings::names_setting(name));
            assert(settings::given(b, sw, name).len() == 0);
            assert(settings::given(a, sw, name) + settings::given(b, sw, name) =~= settings::given(
                a,
                sw,
                name,
            ));
        } else {
            assert(settings::given(a, sw, name) == none);
            assert(none + settings::given(b, sw, name) =~= settings::given(b, sw, name));
        }
    }
}

/// The time that `rpicam-still` runs goes with the exposure: a fifth of a second
/// for a short one, and so much beyond the end of a long one.
pub proof fn timeout_goes_with_the_shutter(shutter_us: int)
    requires
        shutter_us >= 0,
    ensures
        shutter_us < 200_000 ==> still_timeout(shutter_us) == 200,
        shutter_us >= 200_000 ==> 200_000 - 1_000 < still_timeout(shutter_us) * 1_000 - shutter_us
            <= 200_000,
{
}

/// How `ffmpeg` is told of a size, and of one to scale to.
spec fn size_text(width: nat, height: nat) -> Seq<char> {
    text::decimal(width) + "x"@ + text::decimal(height)
}

proof fn lemma_recording_is_read(path: Seq<char>, width: u32, height: u32)
    ensures
        ({
            let args = record_args(path, width, height);
            &&& settings::ffmpeg_reads(args)
            &&& args.last() == path
            &&& forall|name: Seq<char>| #[trigger]
                settings::input_given(args, name) == (if name == "-f"@ {
                    seq!["rawvideo"@]
                } else if name == "-pix_fmt"@ {
                    seq!["nv12"@]
                } else if name == "-s"@ {
                    seq![size_text(RECORD_W as nat, RECORD_H as nat)]
                } else if name == "-r"@ {
                    seq!["25"@]
                } else if name == "-i"@ {
                    seq!["pipe:0"@]
                } else {
                    Seq::empty()
                })
            &&& forall|name: Seq<char>| #[trigger]
                settings::output_given(args, name) == (if name == "-vf"@ && (width != RECORD_W
                    || height != RECORD_H) {
                    seq!["scale="@ + text::decimal(width as nat) + ":"@ + text::decimal(
                        height as nat,
                    )]
                } else if name == "-c:v"@ {
                    seq!["libx264"@]
                } else if name == "-preset"@ {
                    seq!["fast"@]
                } else if name == "-pix_fmt"@ {
                    seq!["yuv420p"@]
                } else {
                    Seq::empty()
                })
        }),
{
    settings::lemma_ffmpeg_names();
    let sw = settings::ffmpeg_switches();
    settings::lemma_nothing_given(sw);
    let none = Seq::<Seq<char>>::empty();
    let size = size_text(RECORD_W as nat, RECORD_H as nat);
    settings::switch_is_read(none, sw, "-y"@);
    let a = none.push("-y"@);
    settings::option_is_read(a, sw, "-f"@, "rawvideo"@);
    let b = settings::with_flag(a, "-f"@, "rawvideo"@);
    settings::option_is_read(b, sw, "-pix_fmt"@, "nv12"@);
    let c = settings::with_flag(b, "-pix_fmt"@, "nv12"@);
    settings::option_is_read(c, sw, "-s"@, size);
    let d = settings::with_flag(c, "-s"@, size);
    settings::option_is_read(d, sw, "-r"@, "25"@);
    let e = settings::with_flag(d, "-r"@, "25"@);
    settings::option_is_read(e, sw, "-i"@, "pipe:0"@);
    let f = settings::with_flag(e, "-i"@, "pipe:0"@);
    let scale = "scale="@ + text::decimal(width as nat) + ":"@ + text::decimal(height as nat);
    let g = if width != RECORD_W || height != RECORD_H {
        settings::option_is_read(none, sw, "-vf"@, scale);
        settings::with_flag(none, "-vf"@, scale)
    } else {
        none
    };
    settings::option_is_read(g, sw, "-c:v"@, "libx264"@);
    let h = settings::with_flag(g, "-c:v"@, "libx264"@);
    settings::option_is_read(h, sw, "-preset"@, "fast"@);
    let i = settings::with_flag(h, "-preset"@, "fast"@);
    settings::option_is_read(i, sw, "-pix_fmt"@, "yuv420p"@);
    let j = settings::with_flag(i, "-pix_fmt"@, "yuv420p"@);
    assert(record_args(path, width, height) =~= f + j.push(path));
    settings::ffmpeg_args_fall_apart(e, "pipe:0"@, j, path);
}

/// A recording reads the raw frames that the device hands over, whatever size is
/// asked for: the frames on the pipe are those of the record stream. They are
/// scaled to the size that is asked for, unless they have it, and the film goes
/// to the video's own path.
pub proof fn recordings_read_the_record_stream(
    ts: u128,
    width: u32,
    height: u32,
    r: RecordingPlan,
)
    requires
        call_ensures(recording_plan, (ts, width, height), r),
    ensures
        ({
            let args = text::texts(r.args@);
            &&& settings::ffmpeg_reads(args)
            &&& settings::input_given(args, "-i"@) == seq!["pipe:0"@]
            &&& settings::input_given(args, "-f"@) == seq!["rawvideo"@]
            &&& settings::input_given(args, "-pix_fmt"@) == seq!["nv12"@]
            &&& settings::input_given(args, "-s"@) == seq![
                text::decimal(RECORD_W as nat) + "x"@ + text::decimal(RECORD_H as nat),
            ]
            &&& settings::input_given(args, "-r"@) == seq!["25"@]
            &&& settings::input_given(args, "-vf"@).len() == 0
            &&& settings::output_given(args, "-s"@).len() == 0
            &&& settings::output_given(args, "-r"@).len() == 0
            &&& settings::output_given(args, "-f"@).len() == 0
            &&& settings::output_given(args, "-c:v"@) == seq!["libx264"@]
            &&& settings::output_given(args, "-preset"@) == seq!["fast"@]
            &&& settings::output_given(args, "-pix_fmt"@) == seq!["yuv420p"@]
            &&& settings::output_given(args, "-vf"@) == settings::once(
                if width == RECORD_W && height == RECORD_H {
                    None
                } else {
                    Some(
                        "scale="@ + text::decimal(width as nat) + ":"@ + text::decimal(
                            height as nat,
                        ),
                    )
                },
            )
            &&& args.last() == r.path@
            &&& r.path@ == "/home/pi/Videos/picam"@ + "/VID_"@ + text::decimal(ts as nat) + ".mp4"@
        }),
{
    settings::lemma_ffmpeg_names();
    lemma_recording_is_read(video_path(ts as nat), width, height);
}

/// Two recordings to one path differ at most in how they are scaled.
pub proof fn sizes_change_only_the_scaling(
    ts: u128,
    w1: u32,
    h1: u32,
    w2: u32,
    h2: u32,
    a: RecordingPlan,
    b: RecordingPlan,
)
    requires
        call_ensures(recording_plan, (ts, w1, h1), a),
        call_ensures(recording_plan, (ts, w2, h2), b),
    ensures
        forall|name: Seq<char>| #[trigger]
            settings::input_given(text::texts(a.args@), name) == settings::input_given(
                text::texts(b.args@),
                name,
            ),
        forall|name: Seq<char>|
            name != "-vf"@ ==> #[trigger] settings::output_given(text::texts(a.args@), name)
                == settings::output_given(text::texts(b.args@), name),
        a.path@ == b.path@,
        text::texts(a.args@).last() == text::texts(b.args@).last(),
{
    settings::lemma_ffmpeg_names();
    lemma_recording_is_read(video_path(ts as nat), w1, h1);
    lemma_recording_is_read(video_path(ts as nat), w2, h2);
}

/// The thumbnail of a video is made of the video itself: one frame of it, the
/// first, goes to the thumbnail's own path.
pub proof fn thumbnails_are_made_of_their_videos(path: Seq<char>)
    ensures
        ({
            let args = thumb_args(path);
            &&& settings::ffmpeg_reads(args)
            &&& forall|name: Seq<char>| #[trigger]
                settings::input_given(args, name) == (if name == "-i"@ {
                    seq![path]
                } else {
                    Seq::empty()
                })
            &&& forall|name: Seq<char>| #[trigger]
                settings::output_given(args, name) == (if name == "-vframes"@ {
                    seq!["1"@]
                } else if name == "-q:v"@ {
                    seq!["4"@]
                } else {
                    Seq::empty()
                })
            &&& args.last() == gallery::thumb_of(path)
        }),
{
    settings::lemma_ffmpeg_names();
    let sw = settings::ffmpeg_switches();
    settings::lemma_nothing_given(sw);
    let none = Seq::<Seq<char>>::empty();
    let thumb = gallery::thumb_of(path);
    settings::switch_is_read(none, sw, "-y"@);
    let a = none.push("-y"@);
    settings::option_is_read(a, sw, "-i"@, path);
    settings::option_is_read(none, sw, "-vframes"@, "1"@);
    let b = settings::with_flag(none, "-vframes"@, "1"@);
    settings::option_is_read(b, sw, "-q:v"@, "4"@);
    let c = settings::with_flag(b, "-q:v"@, "4"@);
    assert(thumb_args(path) =~= settings::with_flag(a, "-i"@, path) + c.push(thumb));
    settings::ffmpeg_args_fall_apart(a, path, c, thumb);
}

proof fn lemma_time_between(head: Seq<char>, a: nat, b: nat, x: Seq<char>, y: Seq<char>)
    requires
        x.len() > 0,
        y.len() > 0,
        !('0' <= x[0] <= '9'),
        !('0' <= y[0] <= '9'),
        head + text::decimal(a) + x == head + text::decimal(b) + y,
    ensures
        a == b,
        x == y,
{
    let da = text::decimal(a);
    let db = text::decimal(b);
    let s = head + da + x;
    let n = head.len();
    text::decimal_reads_back(a);
    text::decimal_reads_back(b);
    if da.len() < db.len() {
        assert(s[(n + da.len()) as int] == x[0]);
        assert(s[(n + da.len()) as int] == db[da.len() as int]);
    }
    if db.len() < da.len() {
        assert(s[(n + db.len()) as int] == y[0]);
        assert(s[(n + db.len()) as int] == da[db.len() as int]);
    }
    assert(da =~= s.subrange(n as int, (n + da.len()) as int));
    assert(db =~= s.subrange(n as int, (n + db.len()) as int));
    assert(x =~= s.skip((n + da.len()) as int));
    assert(y =~= s.skip((n + db.len()) as int));
    text::decimal_is_injective(a, b);
}

proof fn lemma_number_between(head: Seq<char>, a: nat, b: nat, width: nat, tail: Seq<char>)
    requires
        head + text::padded(a, width) + tail == head + text::padded(b, width) + tail,
    ensures
        a == b,
{
    let pa = text::padded(a, width);
    let pb = text::padded(b, width);
    let s = head + pa + tail;
    assert(pa =~= s.subrange(head.len() as int, s.len() - tail.len()));
    assert(pb =~= s.subrange(head.len() as int, s.len() - tail.len()));
    text::padded_reads_back(a, width);
    text::padded_reads_back(b, width);
}

/// What follows the time in a burst photo's name.
spec fn burst_tail(shot: nat) -> Seq<char> {
    "_"@ + text::padded(shot, 2) + ".jpg"@
}

proof fn lemma_burst_tail(ts: nat, shot: nat)
    ensures
        burst_path(ts, shot) == SAVE_DIR@ + "/IMG_"@ + text::decimal(ts) + burst_tail(shot),
        burst_tail(shot).len() > 0,
        burst_tail(shot)[0] == '_',
{
    reveal_strlit("_");
    assert(burst_path(ts, shot) =~= SAVE_DIR@ + "/IMG_"@ + text::decimal(ts) + burst_tail(shot));
}

/// Pictures and videos never share a name: photos of two times differ, so do
/// videos, so do the shots of bursts, and no burst shot is named like a photo.
pub proof fn captures_have_their_own_files(a: nat, b: nat, i: nat, j: nat)
    ensures
        photo_path(a) == photo_path(b) ==> a == b,
        video_path(a) == video_path(b) ==> a == b,
        burst_path(a, i) == burst_path(b, j) ==> a == b && i == j,
        photo_path(a) != burst_path(b, j),
{
    reveal_strlit(".jpg");
    reveal_strlit(".mp4");
    lemma_burst_tail(a, i);
    lemma_burst_tail(b, j);
    let photo = SAVE_DIR@ + "/IMG_"@;
    if photo_path(a) == photo_path(b) {
        lemma_time_between(photo, a, b, ".jpg"@, ".jpg"@);
    }
    if video_path(a) == video_path(b) {
        lemma_time_between(VIDEO_DIR@ + "/VID_"@, a, b, ".mp4"@, ".mp4"@);
    }
    if burst_path(a, i) == burst_path(b, j) {
        lemma_time_between(photo, a, b, burst_tail(i), burst_tail(j));
        lemma_number_between("_"@, i, j, 2, ".jpg"@);
    }
    if photo_path(a) == burst_path(b, j) {
        lemma_time_between(photo, a, b, ".jpg"@, burst_tail(j));
        assert(".jpg"@[0] == '.');
    }
}

/// The frames of a time-lapse never share a name.
pub proof fn frames_have_their_own_files(dir: Seq<char>, i: nat, j: nat)
    requires
        frame_path(dir, i) == frame_path(dir, j),
    ensures
        i == j,
{
    let start = if dir.len() > 0 && dir.last() != '/' {
        dir + "/"@
    } else {
        dir
    };
    lemma_number_between(start + "frame_"@, i, j, 6, ".jpg"@);
}

/// The thumbnail of a recorded video stands beside it, under the same name.
pub proof fn video_thumbnail_is_beside_it(ts: nat)
    ensures
        gallery::thumb_of(video_path(ts)) == VIDEO_DIR@ + "/VID_"@ + text::decimal(ts)
            + ".thumb.jpg"@,
{
    reveal_strlit("/VID_");
    reveal_strlit(".mp4");
    let d = text::decimal(ts);
    text::decimal_reads_back(ts);
    let path = video_path(ts);
    let v = VIDEO_DIR@.len() as int;
    let name = path.skip(v + 1);
    assert forall|i: int| v < i < path.len() implies path[i] != '/' by {
        if v + 5 <= i < v + 5 + d.len() {
            assert(path[i] == d[i - v - 5]);
        }
    }
    text::find_last_is(path, '/', v);
    let dot = 4 + d.len() as int;
    assert forall|i: int| dot < i < name.len() implies name[i] != '.' by {
        assert(name[i] == ".mp4"@[i - dot]);
    }
    assert(name[dot] == ".mp4"@[0]);
    text::find_last_is(name, '.', dot);
    assert(name[0] == 'V');
    assert(gallery::plain_file(path));
    assert(gallery::path_stem(path) =~= VIDEO_DIR@ + "/VID_"@ + d);
}

/// The name of every photo, burst photo and video tells the gallery when it was
/// taken. So of two captures of any kinds the later one comes first.
pub proof fn captures_carry_their_times(ts: nat, shot: nat)
    requires
        ts <= u128::MAX,
    ensures
        gallery::capture_time(encode_utf8("IMG_"@ + text::decimal(ts) + ".jpg"@)) == Some(ts),
        gallery::capture_time(
            encode_utf8("IMG_"@ + text::decimal(ts) + "_"@ + text::padded(shot, 2) + ".jpg"@),
        ) == Some(ts),
        gallery::capture_time(encode_utf8("VID_"@ + text::decimal(ts) + ".mp4"@)) == Some(ts),
{
    reveal_strlit("IMG_");
    reveal_strlit("VID_");
    reveal_strlit(".jpg");
    reveal_strlit(".mp4");
    reveal_strlit("_");
    let p = text::padded(shot, 2);
    let tail = burst_tail(shot);
    text::padded_reads_back(shot, 2);
    assert(".jpg"@[0] == '.' && ".mp4"@[0] == '.');
    assert(tail[0] == '_');
    assert(tail[1 + p.len() as int] == '.');
    assert forall|i: int| 0 <= i < tail.len() implies '\0' <= #[trigger] tail[i] <= '\u{7f}' by {
        if 1 <= i < 1 + p.len() {
            assert(tail[i] == p[i - 1]);
        }
    }
    gallery::time_is_the_number_in_the_name("IMG_"@, ts, ".jpg"@);
    gallery::time_is_the_number_in_the_name("IMG_"@, ts, tail);
    gallery::time_is_the_number_in_the_name("VID_"@, ts, ".mp4"@);
    assert("IMG_"@ + text::decimal(ts) + tail =~= "IMG_"@ + text::decimal(ts) + "_"@ + p
        + ".jpg"@);
}

/// Every photo, burst photo and video that is taken shows in the gallery, under
/// its own path and as what it is, once its directory is listed.
pub proof fn captures_show_in_the_gallery(ts: nat, shot: nat)
    ensures
        ({
            let name = "IMG_"@ + text::decimal(ts) + ".jpg"@;
            gallery::item_of(SAVE_DIR@, encode_utf8(name)) == Some(
                ItemView { path: photo_path(ts), name, is_video: false },
            )
        }),
        ({
            let name = "IMG_"@ + text::decimal(ts) + "_"@ + text::padded(shot, 2) + ".jpg"@;
            gallery::item_of(SAVE_DIR@, encode_utf8(name)) == Some(
                ItemView { path: burst_path(ts, shot), name, is_video: false },
            )
        }),
        ({
            let name = "VID_"@ + text::decimal(ts) + ".mp4"@;
            gallery::item_of(VIDEO_DIR@, encode_utf8(name)) == Some(
                ItemView { path: video_path(ts), name, is_video: true },
            )
        }),
{
    reveal_strlit("IMG_");
    reveal_strlit("VID_");
    reveal_strlit("/IMG_");
    reveal_strlit("/VID_");
    reveal_strlit(".jpg");
    reveal_strlit(".mp4");
    reveal_strlit("jpg");
    reveal_strlit("mp4");
    reveal_strlit("_");
    reveal_strlit("/home/pi/Pictures/picam");
    reveal_strlit("/home/pi/Videos/picam");
    let d = text::decimal(ts);
    let p = text::padded(shot, 2);
    text::decimal_reads_back(ts);
    text::padded_reads_back(shot, 2);
    let photo = "IMG_"@ + d + ".jpg"@;
    let burst = "IMG_"@ + d + "_"@ + p + ".jpg"@;
    let video = "VID_"@ + d + ".mp4"@;
    let photo_stem = "IMG_"@ + d;
    let burst_stem = "IMG_"@ + d + "_"@ + p;
    let video_stem = "VID_"@ + d;
    assert(photo =~= photo_stem + seq!['.'] + "jpg"@);
    assert(burst =~= burst_stem + seq!['.'] + "jpg"@);
    assert(video =~= video_stem + seq!['.'] + "mp4"@);
    assert("jpg"@[0] != "mp4"@[0]);
    assert(photo_stem.last() == d.last());
    assert(burst_stem.last() == p.last());
    assert(video_stem.last() == d.last());
    gallery::lemma_capture_is_item(SAVE_DIR@, photo_stem, "jpg"@);
    gallery::lemma_capture_is_item(SAVE_DIR@, burst_stem, "jpg"@);
    gallery::lemma_capture_is_item(VIDEO_DIR@, video_stem, "mp4"@);
    assert(SAVE_DIR@ + seq!['/'] + photo =~= photo_path(ts));
    assert(SAVE_DIR@ + seq!['/'] + burst =~= burst_path(ts, shot));
    assert(VIDEO_DIR@ + seq!['/'] + video =~= video_path(ts));
}

/// A picture counts as taken exactly where `rpicam-still` ran and exited with 0,
/// and then it is at its own path. Else the report ends in the reason.
pub proof fn only_clean_exits_count(
    path: String,
    what: &str,
    status: Result<Option<i32>, String>,
    r: Result<String, String>,
)
    requires
        call_ensures(capture_result, (path, what, status), r),
    ensures
        r is Ok <==> status == Ok::<Option<i32>, String>(Some(0i32)),
        r matches Ok(p) ==> p@ == path@,
        status matches Err(e) ==> (r matches Err(m) && text::has_suffix(m@, e@) && text::has_prefix(
            m@,
            what@,
        )),
{
    if let Err(e) = status {
        if let Err(m) = r {
            let full = what@ + ": "@ + e@;
            assert(full.skip(full.len() - e@.len()) =~= e@);
            assert(full.take(what@.len() as int) =~= what@);
        }
    }
}

/// What became of a shot makes no difference to the others: the shots of two
/// bursts in a row are those of the one, then of the other. A shot that succeeded
/// is there with its path, one that failed is not.
pub proof fn shots_count_each_for_itself(
    a: Seq<Result<String, String>>,
    b: Seq<Result<String, String>>,
    shot: Result<String, String>,
)
    ensures
        taken(a + b) == taken(a) + taken(b),
        taken(seq![shot]) == (match shot {
            Ok(path) => seq![path@],
            Err(_) => Seq::empty(),
        }),
    decreases b.len(),
{
    let none = Seq::<Result<String, String>>::empty();
    assert(taken(none) =~= Seq::<Seq<char>>::empty());
    assert(seq![shot].drop_last() =~= none);
    if b.len() == 0 {
        assert(a + b =~= a);
        assert(taken(a) + taken(b) =~= taken(a));
    } else {
        shots_count_each_for_itself(a, b.drop_last(), shot);
        assert((a + b).drop_last() =~= a + b.drop_last());
        assert(taken(a + b) =~= taken(a) + taken(b));
    }
}

/// A recording has been running since it began.
pub proof fn duration_counts_from_the_start<T>(cam: Camera<T>, now_ms: u64, r: u64)
    requires
        call_ensures(Camera::<T>::recording_duration, (&cam, now_ms), r),
    ensures
        cam@.recording is None ==> r == 0,
        cam@.recording matches Some((_, start)) ==> {
            &&& start <= now_ms ==> start + r == now_ms
            &&& now_ms < start ==> r == 0
        },
{
}

/// Whether a label tells a size: so many full megapixels, so many lines, or full
/// HD.
pub open spec fn label_tells(label: Seq<char>, width: u32, height: u32) -> bool {
    ||| label == text::decimal((width * height / 1_000_000) as nat) + "MP"@
    ||| label == text::decimal(height as nat) + "p"@
    ||| label == "FHD"@ && width == 1920 && height == 1080
}

proof fn lemma_labels()
    ensures
        "12MP"@ == text::decimal(12) + "MP"@,
        "8MP"@ == text::decimal(8) + "MP"@,
        "5MP"@ == text::decimal(5) + "MP"@,
        "3MP"@ == text::decimal(3) + "MP"@,
        "1080p"@ == text::decimal(1_080) + "p"@,
        "720p"@ == text::decimal(720) + "p"@,
        "480p"@ == text::decimal(480) + "p"@,
{
    reveal_with_fuel(text::decimal, 4);
    reveal_strlit("MP");
    reveal_strlit("p");
    reveal_strlit("12MP");
    reveal_strlit("8MP");
    reveal_strlit("5MP");
    reveal_strlit("3MP");
    reveal_strlit("1080p");
    reveal_strlit("720p");
    reveal_strlit("480p");
    assert("12MP"@ =~= text::decimal(12) + "MP"@);
    assert("8MP"@ =~= text::decimal(8) + "MP"@);
    assert("5MP"@ =~= text::decimal(5) + "MP"@);
    assert("3MP"@ =~= text::decimal(3) + "MP"@);
    assert("1080p"@ =~= text::decimal(1_080) + "p"@);
    assert("720p"@ =~= text::decimal(720) + "p"@);
    assert("480p"@ =~= text::decimal(480) + "p"@);
}

/// Of the sizes on offer each is smaller than the one before it, and is what its
/// label says. No photo is larger than the sensor, and no video than the frames
/// that it is made of; photos are four by three, but for the last, and videos
/// sixteen by nine, but for a pixel or so.
pub proof fn sizes_on_offer_are_what_they_say(i: int)
    ensures
        0 <= i < PHOTO_RESOLUTIONS.len() ==> ({
            let (w, h, label) = PHOTO_RESOLUTIONS[i];
            &&& label_tells(label@, w, h)
            &&& w <= 4056 && h <= 3040
            &&& i > 0 ==> w < PHOTO_RESOLUTIONS[i - 1].0 && h < PHOTO_RESOLUTIONS[i - 1].1
            &&& i < 3 ==> -20 < 3 * w - 4 * h < 20
        }),
        0 <= i < VIDEO_RESOLUTIONS.len() ==> ({
            let (w, h, label) = VIDEO_RESOLUTIONS[i];
            &&& label_tells(label@, w, h)
            &&& w <= RECORD_W && h <= RECORD_H
            &&& i > 0 ==> w < VIDEO_RESOLUTIONS[i - 1].0 && h < VIDEO_RESOLUTIONS[i - 1].1
            &&& -9 < 9 * w - 16 * h < 9
        }),
        0 <= i < TL_RESOLUTIONS.len() ==> ({
            let (w, h, label) = TL_RESOLUTIONS[i];
            &&& label_tells(label@, w, h)
            &&& i > 0 ==> w < TL_RESOLUTIONS[i - 1].0 && h < TL_RESOLUTIONS[i - 1].1
            &&& i > 0 ==> 9 * w == 16 * h
        }),
        PHOTO_RESOLUTIONS[0].0 == 4056 && PHOTO_RESOLUTIONS[0].1 == 3040,
        VIDEO_RESOLUTIONS[0].0 == RECORD_W && VIDEO_RESOLUTIONS[0].1 == RECORD_H,
        TL_RESOLUTIONS[0].0 * 2 == 4056 && TL_RESOLUTIONS[0].1 * 2 == 3040,
        RECORD_W == 1920 && RECORD_H == 1080,
        PREVIEW_W == 800 && PREVIEW_H == 480,
{
    lemma_labels();
    assert(4056 * 3040 / 1_000_000 == 12);
    assert(3280 * 2464 / 1_000_000 == 8);
    assert(2592 * 1944 / 1_000_000 == 5);
    assert(2028 * 1520 / 1_000_000 == 3);
    if i == 0 {
        assert(PHOTO_RESOLUTIONS[i] == (4056u32, 3040u32, "12MP"));
        assert(TL_RESOLUTIONS[i] == (2028u32, 1520u32, "3MP"));
    } else if i == 1 {
        assert(PHOTO_RESOLUTIONS[i] == (3280u32, 2464u32, "8MP"));
    } else if i == 2 {
        assert(PHOTO_RESOLUTIONS[i] == (2592u32, 1944u32, "5MP"));
    }
}

/// A recording is finished step by step: what `step` gives is the next step each
/// time, from closing the pipe to the report, and then nothing more.
pub proof fn finishing_goes_step_by_step(call: (&mut FinishRun,), r: Option<FinishStep>)
    requires
        call_ensures(FinishRun::step, call, r),
    ensures
        old(call.0)@ == 0 ==> r == Some(FinishStep::ClosePipe),
        old(call.0)@ == 1 ==> r == Some(FinishStep::AwaitEncoder),
        old(call.0)@ == 2 ==> r == Some(FinishStep::MakeThumbnail),
        old(call.0)@ == 3 ==> r == Some(FinishStep::Report),
        old(call.0)@ > 3 ==> r is None,
        r is Some ==> final(call.0)@ == old(call.0)@ + 1,
        r is None ==> final(call.0)@ == old(call.0)@,
{
}

// ── What the commands promise ─────────────────────────────────────────────────

/// Whether nothing of a camera has changed but for its settings, the wish for
/// the preview, the pause or the recording, as far as one of them may.
pub open spec fn all_else_kept<T>(
    a: CameraView<T>,
    b: CameraView<T>,
    settings: bool,
    wish: bool,
    pause: bool,
    recording: bool,
) -> bool {
    &&& settings || a.settings == b.settings
    &&& wish || a.stream_enabled == b.stream_enabled
    &&& pause || a.paused == b.paused
    &&& recording || a.recording == b.recording
}

/// A photo is refused exactly while a recording runs, and then nothing changes.
/// Else the device is paused, and the photo is taken as asked, with the camera's
/// own settings, to a path of its own.
pub proof fn photos_are_taken_as_asked<T>(
    call: (&mut Camera<T>, u32, u32, bool, u128, &TuningText),
    r: Result<(PreviewAction, CapturePlan), String>,
)
    requires
        old(call.0)@.settings.in_tables(),
        call_ensures(Camera::<T>::capture_photo, call, r),
    ensures
        r is Err <==> old(call.0)@.recording is Some,
        r is Err ==> final(call.0)@ == old(call.0)@,
        r matches Ok((action, plan)) ==> {
            let (_, width, height, raw, ts, t) = call;
            &&& action == PreviewAction::Pause
            &&& final(call.0)@.paused
            &&& all_else_kept(old(call.0)@, final(call.0)@, false, false, true, false)
            &&& plan.path@ == "/home/pi/Pictures/picam"@ + "/IMG_"@ + text::decimal(ts as nat)
                + ".jpg"@
            &&& takes_picture(
                text::texts(plan.args@),
                plan.path@,
                width,
                height,
                raw,
                old(call.0)@.settings,
                *t,
            )
        },
{
    let (_, width, height, raw, ts, t) = call;
    pictures_are_taken_as_asked(
        photo_path(ts as nat),
        width,
        height,
        raw,
        old(call.0)@.settings,
        *t,
    );
}

/// A burst is refused exactly while a recording runs, and then nothing changes.
/// Else the device is paused once, and so many shots are taken as asked, all
/// alike but for their paths, which are numbered from 1.
pub proof fn bursts_are_taken_as_asked<T>(
    call: (&mut Camera<T>, usize, u32, u32, bool, u128, &TuningText),
    r: Result<(PreviewAction, Vec<CapturePlan>), String>,
    i: int,
)
    requires
        old(call.0)@.settings.in_tables(),
        call_ensures(Camera::<T>::capture_burst, call, r),
    ensures
        r is Err <==> old(call.0)@.recording is Some,
        r is Err ==> final(call.0)@ == old(call.0)@,
        r matches Ok((action, plans)) ==> {
            let (_, count, width, height, raw, ts, t) = call;
            &&& action == PreviewAction::Pause
            &&& final(call.0)@.paused
            &&& all_else_kept(old(call.0)@, final(call.0)@, false, false, true, false)
            &&& plans@.len() == count
            &&& 0 <= i < count ==> {
                &&& plans@[i].path@ == "/home/pi/Pictures/picam"@ + "/IMG_"@ + text::decimal(
                    ts as nat,
                ) + "_"@ + text::padded((i + 1) as nat, 2) + ".jpg"@
                &&& takes_picture(
                    text::texts(plans@[i].args@),
                    plans@[i].path@,
                    width,
                    height,
                    raw,
                    old(call.0)@.settings,
                    *t,
                )
            }
        },
{
    let (_, count, width, height, raw, ts, t) = call;
    if 0 <= i < count {
        pictures_are_taken_as_asked(
            burst_path(ts as nat, (i + 1) as nat),
            width,
            height,
            raw,
            old(call.0)@.settings,
            *t,
        );
    }
}

/// A frame of a time-lapse is taken as asked, never raw, with the device paused,
/// to the file of its number in the session's directory.
pub proof fn frames_are_taken_as_asked<T>(
    call: (&mut Camera<T>, usize, &str, u32, u32, &TuningText),
    r: (PreviewAction, CapturePlan),
)
    requires
        old(call.0)@.settings.in_tables(),
        call.2@.len() > 0,
        call.2@.last() != '/',
        call_ensures(Camera::<T>::capture_timelapse_frame, call, r),
    ensures
        ({
            let (_, index, dir, width, height, t) = call;
            &&& r.0 == PreviewAction::Pause
            &&& final(call.0)@.paused
            &&& all_else_kept(old(call.0)@, final(call.0)@, false, false, true, false)
            &&& r.1.path@ == dir@ + "/"@ + "frame_"@ + text::padded(index as nat, 6) + ".jpg"@
            &&& takes_picture(
                text::texts(r.1.args@),
                r.1.path@,
                width,
                height,
                false,
                old(call.0)@.settings,
                *t,
            )
        }),
{
    let (_, index, dir, width, height, t) = call;
    pictures_are_taken_as_asked(
        frame_path(dir@, index as nat),
        width,
        height,
        false,
        old(call.0)@.settings,
        *t,
    );
}

/// The preview is paused for a picture and comes back after it exactly where the
/// user wants it; nothing else changes.
pub proof fn pauses_end_as_the_user_wants<T>(
    pause: (&mut Camera<T>,),
    told: PreviewAction,
    resume: (&mut Camera<T>,),
    back: Option<PreviewAction>,
)
    requires
        call_ensures(Camera::<T>::pause_for_capture, pause, told),
        call_ensures(Camera::<T>::resume_after_capture, resume, back),
    ensures
        told == PreviewAction::Pause,
        final(pause.0)@.paused,
        all_else_kept(old(pause.0)@, final(pause.0)@, false, false, true, false),
        !final(resume.0)@.paused,
        all_else_kept(old(resume.0)@, final(resume.0)@, false, false, true, false),
        back == Some(PreviewAction::Resume) <==> old(resume.0)@.stream_enabled,
        back is None <==> !old(resume.0)@.stream_enabled,
{
}

/// The user's wish for the preview is kept, and the device is told of it exactly
/// where it is a new one; nothing else changes.
pub proof fn wishes_are_kept_and_told<T>(
    call: (&mut Camera<T>, bool),
    r: Option<PreviewAction>,
)
    requires
        call_ensures(Camera::<T>::set_stream_enabled, call, r),
    ensures
        final(call.0)@.stream_enabled == call.1,
        all_else_kept(old(call.0)@, final(call.0)@, false, true, false, false),
        r is None <==> old(call.0)@.stream_enabled == call.1,
        r == Some(PreviewAction::Resume) <==> call.1 && !old(call.0)@.stream_enabled,
        r == Some(PreviewAction::Pause) <==> !call.1 && old(call.0)@.stream_enabled,
{
}

/// New settings are always kept, and where the device is told of them it is told
/// of the new ones, each control of its own setting; nothing else changes.
pub proof fn new_settings_are_kept_and_told<T: Copy, F: Fn(&T, &T) -> bool>(
    call: (&mut Camera<T>, CameraSettings<T>, F),
    r: Option<Controls<T>>,
)
    requires
        call.1.applicable(),
        call_ensures(Camera::<T>::update_settings::<F>, call, r),
    ensures
        final(call.0)@.settings == call.1,
        all_else_kept(old(call.0)@, final(call.0)@, true, false, false, false),
        ({
            let s = call.1;
            let a = old(call.0)@.settings;
            &&& a.iso_idx != s.iso_idx || a.shutter_idx != s.shutter_idx || a.awb_idx != s.awb_idx
                ==> r is Some
            &&& r matches Some(c) ==> {
                &&& c.ev == s.ev
                &&& c.contrast == s.contrast
                &&& c.saturation == s.saturation
                &&& c.sharpness == s.sharpness
                &&& c.brightness == s.brightness
                &&& c.zoom == s.zoom
                &&& c.iso == settings::iso_of(s.iso_idx as int)
                &&& c.shutter_us == SHUTTER_SPEEDS[s.shutter_idx as int].1
            }
        }),
{
    settings::iso_numbers_double(1);
    settings::iso_numbers_double(2);
    settings::iso_numbers_double(3);
    settings::iso_numbers_double(4);
    settings::iso_numbers_double(5);
    settings::iso_numbers_double(6);
}

/// A recording runs from the moment its `ffmpeg` has started, to the path that it
/// was given; where it could not be started, nothing changes, and the report ends
/// in the reason.
pub proof fn recordings_run_once_started<T>(
    call: (&mut Camera<T>, String, Result<(), String>, u64),
    r: Result<String, String>,
)
    requires
        call_ensures(Camera::<T>::start_recording, call, r),
    ensures
        ({
            let (_, path, started, now_ms) = call;
            &&& started is Ok ==> {
                &&& final(call.0)@.recording == Some((path@, now_ms))
                &&& all_else_kept(old(call.0)@, final(call.0)@, false, false, false, true)
                &&& r matches Ok(p) && p@ == path@
            }
            &&& started matches Err(e) ==> {
                &&& final(call.0)@ == old(call.0)@
                &&& r matches Err(m) && text::has_suffix(m@, e@)
            }
        }),
{
    if let Err(e) = call.2 {
        text::suffix_is_the_end(e@, e@, "ffmpeg spawn failed: "@);
    }
}

/// A stop ends the recording, whatever its path, and makes the thumbnail of that
/// very video beside it; without a recording there is nothing to finish. Closing
/// the camera does the same.
pub proof fn stops_finish_the_recording<T>(
    stop: (&mut Camera<T>,),
    r: Option<FinishPlan>,
    close: (&mut Camera<T>,),
    c: Option<FinishPlan>,
)
    requires
        call_ensures(Camera::<T>::stop_recording, stop, r),
        call_ensures(Camera::<T>::stop, close, c),
    ensures
        finishes(old(stop.0)@, final(stop.0)@, r),
        finishes(old(close.0)@, final(close.0)@, c),
{
    if let Some(plan) = r {
        thumbnails_are_made_of_their_videos(plan.path@);
    }
    if let Some(plan) = c {
        thumbnails_are_made_of_their_videos(plan.path@);
    }
}

/// Whether a recording was ended and its video is to be finished, if there was
/// one: a frame of the video goes to its thumbnail.
pub open spec fn finishes<T>(a: CameraView<T>, b: CameraView<T>, plan: Option<FinishPlan>) -> bool {
    &&& b.recording is None
    &&& all_else_kept(a, b, false, false, false, true)
    &&& a.recording is None ==> plan is None
    &&& a.recording matches Some((path, _)) ==> {
        &&& plan is Some
        &&& plan->0.path@ == path
        &&& plan->0.thumb@ == gallery::thumb_of(path)
        &&& settings::ffmpeg_reads(text::texts(plan->0.args@))
        &&& settings::input_given(text::texts(plan->0.args@), "-i"@) == seq![path]
        &&& settings::output_given(text::texts(plan->0.args@), "-vframes"@) == seq!["1"@]
        &&& text::texts(plan->0.args@).last() == gallery::thumb_of(path)
    }
}

/// A new camera has the settings that it is given, its preview is on, and it
/// neither takes a picture nor records.
pub proof fn cameras_start_idle<T>(settings: CameraSettings<T>, cam: Camera<T>)
    requires
        settings.applicable(),
        call_ensures(Camera::<T>::new, (settings,), cam),
    ensures
        cam@.settings == settings,
        cam@.stream_enabled,
        !cam@.paused,
        cam@.recording is None,
{
}

/// What a camera tells of itself is so.
pub proof fn cameras_tell_their_state<T>(
    cam: Camera<T>,
    wish: bool,
    paused: bool,
    recording: bool,
    ready: bool,
)
    requires
        call_ensures(Camera::<T>::is_stream_enabled, (&cam,), wish),
        call_ensures(Camera::<T>::is_paused, (&cam,), paused),
        call_ensures(Camera::<T>::is_recording, (&cam,), recording),
        call_ensures(Camera::<T>::can_capture, (&cam,), ready),
    ensures
        wish <==> cam@.stream_enabled,
        paused <==> cam@.paused,
        recording <==> cam@.recording is Some,
        ready <==> cam@.settings.iso_idx < 7 && cam@.settings.shutter_idx < 9
            && cam@.settings.awb_idx < 7,
{
}

} // verus!
