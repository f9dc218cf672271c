//! The camera's settings: the tables they choose from, when a change is
//! applied, and how they are handed to `rpicam-still`.
//!
//! The continuous settings (exposure compensation, contrast and so on) are of a
//! type that the caller chooses. The library carries them; how far one must
//! move to count, and how it is written, the caller says.

use vstd::prelude::*;

use crate::text;
use crate::text::{dec, dec_signed, parse_u32};

verus! {

/// The ISO numbers on offer; 0 leaves the choice to the camera.
pub const ISO_VALUES: [&'static str; 7] = ["0", "100", "200", "400", "800", "1600", "3200"];

/// The shutter speeds on offer, with their length in microseconds; 0 leaves the
/// choice to the camera.
pub const SHUTTER_SPEEDS: [(&'static str, i32); 9] = [
    ("Auto", 0),
    ("1/4000", 250),
    ("1/1000", 1_000),
    ("1/500", 2_000),
    ("1/250", 4_000),
    ("1/60", 16_667),
    ("1/30", 33_333),
    ("1s", 1_000_000),
    ("120s", 120_000_000),
];

/// The white balance modes on offer.
pub const AWB_MODES: [&'static str; 7] = [
    "auto",
    "incandescent",
    "tungsten",
    "fluorescent",
    "indoor",
    "daylight",
    "cloudy",
];

/// The settings of the camera: places in the tables, and the continuous ones.
#[derive(Clone, Debug)]
pub struct CameraSettings<T> {
    pub iso_idx: usize,
    pub shutter_idx: usize,
    pub awb_idx: usize,
    pub ev: T,
    pub contrast: T,
    pub saturation: T,
    pub sharpness: T,
    pub brightness: T,
    pub zoom: T,
}

impl<T: Copy> CameraSettings<T> {
    /// The settings that change nothing: all choices left to the camera, no
    /// compensation, every factor one.
    pub fn neutral(zero: T, one: T) -> (r: Self)
        ensures
            r.iso_idx == 0,
            r.shutter_idx == 0,
            r.awb_idx == 0,
            r.ev == zero,
            r.contrast == one,
            r.saturation == one,
            r.sharpness == one,
            r.brightness == zero,
            r.zoom == one,
    {
        CameraSettings {
            iso_idx: 0,
            shutter_idx: 0,
            awb_idx: 0,
            ev: zero,
            contrast: one,
            saturation: one,
            sharpness: one,
            brightness: zero,
            zoom: one,
        }
    }
}

impl<T> CameraSettings<T> {
    /// Whether ISO and shutter speed are in their tables.
    pub open spec fn applicable(&self) -> bool {
        self.iso_idx < ISO_VALUES.len() && self.shutter_idx < SHUTTER_SPEEDS.len()
    }

    /// Whether all three choices are in their tables.
    pub open spec fn in_tables(&self) -> bool {
        self.applicable() && self.awb_idx < AWB_MODES.len()
    }
}

/// Whether ISO and shutter speed are in their tables.
pub fn is_applicable<T>(s: &CameraSettings<T>) -> (r: bool)
    ensures
        r == s.applicable(),
{
    s.iso_idx < ISO_VALUES.len() && s.shutter_idx < SHUTTER_SPEEDS.len()
}

/// Whether all three choices are in their tables.
pub fn is_in_tables<T>(s: &CameraSettings<T>) -> (r: bool)
    ensures
        r == s.in_tables(),
{
    is_applicable(s) && s.awb_idx < AWB_MODES.len()
}

/// Whether the table places of two settings are the same.
pub open spec fn same_choices<T>(a: CameraSettings<T>, b: CameraSettings<T>) -> bool {
    a.iso_idx == b.iso_idx && a.shutter_idx == b.shutter_idx && a.awb_idx == b.awb_idx
}

/// Whether the camera must be told of the new settings, by a test of whether a
/// continuous setting has moved far enough.
pub open spec fn changed_by<T>(
    a: CameraSettings<T>,
    b: CameraSettings<T>,
    test: spec_fn(T, T) -> bool,
) -> bool {
    ||| !same_choices(a, b)
    ||| test(a.ev, b.ev)
    ||| test(a.contrast, b.contrast)
    ||| test(a.saturation, b.saturation)
    ||| test(a.sharpness, b.sharpness)
    ||| test(a.brightness, b.brightness)
    ||| test(a.zoom, b.zoom)
}

/// Whether a function answers as a test does.
pub open spec fn computes<T, F: Fn(&T, &T) -> bool>(moved: F, test: spec_fn(T, T) -> bool) -> bool {
    forall|x: T, y: T, r: bool| #[trigger]
        call_ensures(moved, (&x, &y), r) ==> r == test(x, y)
}

/// Whether the camera must be told of the new settings: another choice, or a
/// continuous setting that has moved far enough.
pub fn settings_changed<T, F: Fn(&T, &T) -> bool>(
    a: &CameraSettings<T>,
    b: &CameraSettings<T>,
    moved: F,
) -> (r: bool)
    requires
        forall|x: &T, y: &T| #[trigger] call_requires(moved, (x, y)),
    ensures
        r ==> {
            ||| !same_choices(*a, *b)
            ||| call_ensures(moved, (&a.ev, &b.ev), true)
            ||| call_ensures(moved, (&a.contrast, &b.contrast), true)
            ||| call_ensures(moved, (&a.saturation, &b.saturation), true)
            ||| call_ensures(moved, (&a.sharpness, &b.sharpness), true)
            ||| call_ensures(moved, (&a.brightness, &b.brightness), true)
            ||| call_ensures(moved, (&a.zoom, &b.zoom), true)
        },
        !r ==> {
            &&& same_choices(*a, *b)
            &&& call_ensures(moved, (&a.ev, &b.ev), false)
            &&& call_ensures(moved, (&a.contrast, &b.contrast), false)
            &&& call_ensures(moved, (&a.saturation, &b.saturation), false)
            &&& call_ensures(moved, (&a.sharpness, &b.sharpness), false)
            &&& call_ensures(moved, (&a.brightness, &b.brightness), false)
            &&& call_ensures(moved, (&a.zoom, &b.zoom), false)
        },
        forall|test: spec_fn(T, T) -> bool| #[trigger]
            computes(moved, test) ==> r == changed_by(*a, *b, test),
{
    a.iso_idx != b.iso_idx || a.shutter_idx != b.shutter_idx || a.awb_idx != b.awb_idx || moved(
        &a.ev,
        &b.ev,
    ) || moved(&a.contrast, &b.contrast) || moved(&a.saturation, &b.saturation) || moved(
        &a.sharpness,
        &b.sharpness,
    ) || moved(&a.brightness, &b.brightness) || moved(&a.zoom, &b.zoom)
}

/// Equal settings are no change, as long as nothing counts as moved from itself.
pub proof fn equal_settings_are_no_change<T>(a: CameraSettings<T>, test: spec_fn(T, T) -> bool)
    requires
        forall|x: T| !#[trigger] test(x, x),
    ensures
        !changed_by(a, a, test),
{
}

/// A change is one both ways round, as long as a move is.
pub proof fn change_is_symmetric<T>(
    a: CameraSettings<T>,
    b: CameraSettings<T>,
    test: spec_fn(T, T) -> bool,
)
    requires
        forall|x: T, y: T| #[trigger] test(x, y) == test(y, x),
    ensures
        changed_by(a, b, test) == changed_by(b, a, test),
{
    assert(test(a.ev, b.ev) == test(b.ev, a.ev));
    assert(test(a.contrast, b.contrast) == test(b.contrast, a.contrast));
    assert(test(a.saturation, b.saturation) == test(b.saturation, a.saturation));
    assert(test(a.sharpness, b.sharpness) == test(b.sharpness, a.sharpness));
    assert(test(a.brightness, b.brightness) == test(b.brightness, a.brightness));
    assert(test(a.zoom, b.zoom) == test(b.zoom, a.zoom));
}

// ── Controls of the running camera ────────────────────────────────────────────

/// The ISO number at a place of the table.
pub open spec fn iso_of(idx: int) -> nat {
    match text::parsed_u32(ISO_VALUES[idx]@) {
        Some(iso) => iso as nat,
        None => 0,
    }
}

/// The ISO number at a place of the table.
pub fn iso_value(idx: usize) -> (r: u32)
    requires
        idx < ISO_VALUES.len(),
    ensures
        r == iso_of(idx as int),
{
    match parse_u32(ISO_VALUES[idx]) {
        Some(iso) => iso,
        None => 0,
    }
}

/// The controls of the camera, every one of which is told when settings are
/// applied. The analogue gain is a hundredth of the ISO number; a zoom shows the
/// middle of the sensor.
#[derive(Clone, Copy, Debug, PartialEq)]
pub struct Controls<T> {
    pub iso: u32,
    pub shutter_us: i32,
    pub awb: i32,
    pub ev: T,
    pub contrast: T,
    pub saturation: T,
    pub sharpness: T,
    pub brightness: T,
    pub zoom: T,
}

/// The controls that settings stand for.
pub open spec fn controls_of<T>(s: CameraSettings<T>) -> Controls<T> {
    Controls {
        iso: iso_of(s.iso_idx as int) as u32,
        shutter_us: SHUTTER_SPEEDS[s.shutter_idx as int].1,
        awb: s.awb_idx as i32,
        ev: s.ev,
        contrast: s.contrast,
        saturation: s.saturation,
        sharpness: s.sharpness,
        brightness: s.brightness,
        zoom: s.zoom,
    }
}

/// The controls that settings stand for.
pub fn apply_settings<T: Copy>(s: &CameraSettings<T>) -> (r: Controls<T>)
    requires
        s.applicable(),
    ensures
        r == controls_of(*s),
{
    Controls {
        iso: iso_value(s.iso_idx),
        shutter_us: SHUTTER_SPEEDS[s.shutter_idx].1,
        awb: s.awb_idx as i32,
        ev: s.ev,
        contrast: s.contrast,
        saturation: s.saturation,
        sharpness: s.sharpness,
        brightness: s.brightness,
        zoom: s.zoom,
    }
}

// ── Arguments of rpicam-still ─────────────────────────────────────────────────

/// The continuous settings as `rpicam-still` reads them. Compensation is left
/// out where it is none, the region of interest where the zoom is one.
pub struct TuningText {
    pub ev: Option<String>,
    pub contrast: String,
    pub saturation: String,
    pub sharpness: String,
    pub brightness: String,
    pub roi: Option<String>,
}

/// A list of arguments with a flag and its value behind it.
pub open spec fn with_flag(args: Seq<Seq<char>>, name: Seq<char>, value: Seq<char>) -> Seq<
    Seq<char>,
> {
    args.push(name).push(value)
}

/// Adds a flag and its value.
pub fn push_flag(args: &mut Vec<String>, name: &str, value: &str)
    ensures
        text::texts(final(args)@) == with_flag(text::texts(old(args)@), name@, value@),
{
    text::push_text(args, name);
    text::push_text(args, value);
}

/// The arguments for the table choices: gain and shutter only where they are
/// not left to the camera.
pub open spec fn choice_args(iso_idx: int, shutter_idx: int, awb_idx: int) -> Seq<Seq<char>> {
    let iso = iso_of(iso_idx);
    let shutter_us = SHUTTER_SPEEDS[shutter_idx].1;
    let a = if iso > 0 {
        with_flag(Seq::empty(), "--gain"@, text::decimal(iso / 100))
    } else {
        Seq::empty()
    };
    let b = if shutter_us > 0 {
        with_flag(a, "--shutter"@, text::signed_decimal(shutter_us as int))
    } else {
        a
    };
    with_flag(b, "--awb"@, AWB_MODES[awb_idx]@)
}

/// The arguments for the continuous settings, behind the others.
pub open spec fn tuned_args(args: Seq<Seq<char>>, t: TuningText) -> Seq<Seq<char>> {
    let a = match t.ev {
        Some(ev) => with_flag(args, "--ev"@, ev@),
        None => args,
    };
    let b = with_flag(a, "--contrast"@, t.contrast@);
    let c = with_flag(b, "--saturation"@, t.saturation@);
    let d = with_flag(c, "--sharpness"@, t.sharpness@);
    let e = with_flag(d, "--brightness"@, t.brightness@);
    match t.roi {
        Some(roi) => with_flag(e, "--roi"@, roi@),
        None => e,
    }
}

/// All arguments that settings stand for.
pub open spec fn settings_args<T>(s: CameraSettings<T>, t: TuningText) -> Seq<Seq<char>> {
    tuned_args(choice_args(s.iso_idx as int, s.shutter_idx as int, s.awb_idx as int), t)
}

/// The arguments that hand the settings to `rpicam-still`.
pub fn build_rpicam_args<T>(s: &CameraSettings<T>, t: &TuningText) -> (r: Vec<String>)
    requires
        s.in_tables(),
    ensures
        text::texts(r@) == settings_args(*s, *t),
{
    let mut args: Vec<String> = Vec::new();
    assert(text::texts(args@) =~= Seq::empty());
    let iso = iso_value(s.iso_idx);
    if iso > 0 {
        let gain = dec((iso / 100) as u128);
        push_flag(&mut args, "--gain", gain.as_str());
    }
    let shutter_us: i32 = SHUTTER_SPEEDS[s.shutter_idx].1;
    if shutter_us > 0 {
        let length = dec_signed(shutter_us);
        push_flag(&mut args, "--shutter", length.as_str());
    }
    push_flag(&mut args, "--awb", AWB_MODES[s.awb_idx]);
    if let Some(ev) = &t.ev {
        push_flag(&mut args, "--ev", ev.as_str());
    }
    push_flag(&mut args, "--contrast", t.contrast.as_str());
    push_flag(&mut args, "--saturation", t.saturation.as_str());
    push_flag(&mut args, "--sharpness", t.sharpness.as_str());
    push_flag(&mut args, "--brightness", t.brightness.as_str());
    if let Some(roi) = &t.roi {
        push_flag(&mut args, "--roi", roi.as_str());
    }
    args
}

// ── How programs read their arguments ─────────────────────────────────────────

/// Whether an argument is the name of an option.
pub open spec fn names_option(s: Seq<char>) -> bool {
    s.len() > 0 && s[0] == '-'
}

/// Whether arguments are nothing but switches, which stand alone, and options,
/// each with a value behind it.
pub open spec fn well_read(args: Seq<Seq<char>>, switches: Set<Seq<char>>) -> bool
    decreases args.len(),
{
    if args.len() == 0 {
        true
    } else if !names_option(args[0]) {
        false
    } else if switches.contains(args[0]) {
        well_read(args.skip(1), switches)
    } else {
        args.len() > 1 && well_read(args.skip(2), switches)
    }
}

/// The values that a program is given for an option, in order. A value is never
/// taken for an option, whatever it holds.
pub open spec fn given(args: Seq<Seq<char>>, switches: Set<Seq<char>>, name: Seq<char>) -> Seq<
    Seq<char>,
>
    decreases args.len(),
{
    if args.len() == 0 {
        Seq::empty()
    } else if switches.contains(args[0]) {
        given(args.skip(1), switches, name)
    } else if args.len() == 1 {
        Seq::empty()
    } else if args[0] == name {
        seq![args[1]] + given(args.skip(2), switches, name)
    } else {
        given(args.skip(2), switches, name)
    }
}

/// How often a program is given a switch.
pub open spec fn times_given(
    args: Seq<Seq<char>>,
    switches: Set<Seq<char>>,
    name: Seq<char>,
) -> nat
    decreases args.len(),
{
    if args.len() == 0 {
        0
    } else if switches.contains(args[0]) {
        times_given(args.skip(1), switches, name) + (if args[0] == name {
            1nat
        } else {
            0
        })
    } else if args.len() == 1 {
        0
    } else {
        times_given(args.skip(2), switches, name)
    }
}

pub(crate) proof fn lemma_read_in_a_row(a: Seq<Seq<char>>, b: Seq<Seq<char>>, switches: Set<Seq<char>>)
    requires
        well_read(a, switches),
    ensures
        well_read(a + b, switches) == well_read(b, switches),
        forall|name: Seq<char>| #[trigger]
            given(a + b, switches, name) == given(a, switches, name) + given(b, switches, name),
        forall|name: Seq<char>| #[trigger]
            times_given(a + b, switches, name) == times_given(a, switches, name) + times_given(
                b,
                switches,
                name,
            ),
    decreases a.len(),
{
    let all = a + b;
    if a.len() == 0 {
        assert(all =~= b);
        assert forall|name: Seq<char>| #[trigger]
            given(all, switches, name) == given(a, switches, name) + given(
            b,
            switches,
            name,
        ) by {
            assert(given(a, switches, name) + given(b, switches, name) =~= given(
                b,
                switches,
                name,
            ));
        }
    } else {
        let n: int = if switches.contains(a[0]) {
            1
        } else {
            2
        };
        let rest = a.skip(n);
        lemma_read_in_a_row(rest, b, switches);
        assert(all.skip(n) =~= rest + b);
        assert(all[0] == a[0]);
        if n == 2 {
            assert(all[1] == a[1]);
        }
        assert forall|name: Seq<char>| #[trigger]
            given(all, switches, name) == given(a, switches, name) + given(
            b,
            switches,
            name,
        ) by {
            let more = given(rest + b, switches, name);
            assert(more == given(rest, switches, name) + given(b, switches, name));
            assert(given(all, switches, name) =~= given(a, switches, name) + given(
                b,
                switches,
                name,
            ));
        }
        assert forall|name: Seq<char>| #[trigger]
            times_given(all, switches, name) == times_given(a, switches, name) + times_given(
            b,
            switches,
            name,
        ) by {
            assert(times_given(rest + b, switches, name) == times_given(rest, switches, name)
                + times_given(b, switches, name));
        }
    }
}

/// An option with its value behind other arguments is read as one more value of
/// that option.
pub proof fn option_is_read(
    args: Seq<Seq<char>>,
    switches: Set<Seq<char>>,
    name: Seq<char>,
    value: Seq<char>,
)
    requires
        well_read(args, switches),
        names_option(name),
        !switches.contains(name),
    ensures
        well_read(with_flag(args, name, value), switches),
        forall|other: Seq<char>| #[trigger]
            given(with_flag(args, name, value), switches, other) == (if other == name {
                given(args, switches, other).push(value)
            } else {
                given(args, switches, other)
            }),
        forall|other: Seq<char>| #[trigger]
            times_given(with_flag(args, name, value), switches, other) == times_given(
                args,
                switches,
                other,
            ),
{
    let pair = seq![name, value];
    let none = Seq::<Seq<char>>::empty();
    lemma_read_in_a_row(args, pair, switches);
    assert(with_flag(args, name, value) =~= args + pair);
    assert(pair.skip(2) =~= none);
    assert(well_read(none, switches));
    assert forall|other: Seq<char>| #[trigger]
        given(args + pair, switches, other) == (if other == name {
            given(args, switches, other).push(value)
        } else {
            given(args, switches, other)
        }) by {
        assert(given(none, switches, other) =~= none);
        if other == name {
            assert(given(args, switches, other) + given(pair, switches, other) =~= given(
                args,
                switches,
                other,
            ).push(value));
        } else {
            assert(given(args, switches, other) + given(pair, switches, other) =~= given(
                args,
                switches,
                other,
            ));
        }
    }
    assert forall|other: Seq<char>| #[trigger]
        times_given(args + pair, switches, other) == times_given(args, switches, other) by {
        assert(times_given(none, switches, other) == 0);
        assert(times_given(pair, switches, other) == times_given(none, switches, other));
    }
}

/// A switch behind other arguments is read as that switch.
pub proof fn switch_is_read(args: Seq<Seq<char>>, switches: Set<Seq<char>>, name: Seq<char>)
    requires
        well_read(args, switches),
        names_option(name),
        switches.contains(name),
    ensures
        well_read(args.push(name), switches),
        forall|other: Seq<char>| #[trigger]
            given(args.push(name), switches, other) == given(args, switches, other),
        forall|other: Seq<char>| #[trigger]
            times_given(args.push(name), switches, other) == times_given(args, switches, other) + (
            if other == name {
                1nat
            } else {
                0
            }),
{
    let one = seq![name];
    let none = Seq::<Seq<char>>::empty();
    lemma_read_in_a_row(args, one, switches);
    assert(args.push(name) =~= args + one);
    assert(one.skip(1) =~= none);
    assert(well_read(none, switches));
    assert forall|other: Seq<char>| #[trigger]
        given(args + one, switches, other) == given(args, switches, other) by {
        assert(given(none, switches, other) =~= none);
        assert(given(args, switches, other) + given(one, switches, other) =~= given(
            args,
            switches,
            other,
        ));
    }
    assert forall|other: Seq<char>| #[trigger]
        times_given(args + one, switches, other) == times_given(args, switches, other) + (if other
            == name {
            1nat
        } else {
            0
        }) by {
        assert(times_given(none, switches, other) == 0);
        assert(times_given(one, switches, other) == times_given(none, switches, other) + (if other
            == name {
            1nat
        } else {
            0
        }));
    }
}

/// The switches of `ffmpeg` among the options that it is given here.
pub open spec fn ffmpeg_switches() -> Set<Seq<char>> {
    set!["-y"@]
}

/// How many arguments of `ffmpeg` are about its input: all up to the value of
/// the first `-i`.
pub open spec fn input_len(args: Seq<Seq<char>>) -> int
    decreases args.len(),
{
    if args.len() == 0 {
        0
    } else if ffmpeg_switches().contains(args[0]) {
        1 + input_len(args.skip(1))
    } else if args.len() == 1 {
        1
    } else if args[0] == "-i"@ {
        2
    } else {
        2 + input_len(args.skip(2))
    }
}

/// The arguments of `ffmpeg` about its input.
pub open spec fn input_args(args: Seq<Seq<char>>) -> Seq<Seq<char>> {
    args.take(input_len(args))
}

/// The arguments of `ffmpeg` about its output, which is named by the last
/// argument of all.
pub open spec fn output_args(args: Seq<Seq<char>>) -> Seq<Seq<char>> {
    args.subrange(input_len(args), args.len() - 1)
}

/// The values that `ffmpeg` is given for an option of its input.
pub open spec fn input_given(args: Seq<Seq<char>>, name: Seq<char>) -> Seq<Seq<char>> {
    given(input_args(args), ffmpeg_switches(), name)
}

/// The values that `ffmpeg` is given for an option of its output.
pub open spec fn output_given(args: Seq<Seq<char>>, name: Seq<char>) -> Seq<Seq<char>> {
    given(output_args(args), ffmpeg_switches(), name)
}

proof fn lemma_input_len(before: Seq<Seq<char>>, source: Seq<char>, rest: Seq<Seq<char>>)
    requires
        well_read(before, ffmpeg_switches()),
        given(before, ffmpeg_switches(), "-i"@).len() == 0,
        !ffmpeg_switches().contains("-i"@),
    ensures
        input_len(with_flag(before, "-i"@, source) + rest) == before.len() + 2,
    decreases before.len(),
{
    let all = with_flag(before, "-i"@, source) + rest;
    if before.len() == 0 {
        assert(all[0] == "-i"@);
    } else {
        let n: int = if ffmpeg_switches().contains(before[0]) {
            1
        } else {
            2
        };
        assert(all[0] == before[0]);
        lemma_input_len(before.skip(n), source, rest);
        assert(all.skip(n) =~= with_flag(before.skip(n), "-i"@, source) + rest);
    }
}

/// Arguments of `ffmpeg` fall into those about the input, up to the source
/// behind `-i`, those about the output, and the output's name.
pub proof fn ffmpeg_args_fall_apart(
    before: Seq<Seq<char>>,
    source: Seq<char>,
    after: Seq<Seq<char>>,
    target: Seq<char>,
)
    requires
        well_read(before, ffmpeg_switches()),
        given(before, ffmpeg_switches(), "-i"@).len() == 0,
        !ffmpeg_switches().contains("-i"@),
    ensures
        ({
            let args = with_flag(before, "-i"@, source) + after.push(target);
            &&& input_args(args) == with_flag(before, "-i"@, source)
            &&& output_args(args) == after
            &&& args.last() == target
        }),
{
    let args = with_flag(before, "-i"@, source) + after.push(target);
    lemma_input_len(before, source, after.push(target));
    assert(input_args(args) =~= with_flag(before, "-i"@, source));
    assert(output_args(args) =~= after);
}

// ── What the tables promise ───────────────────────────────────────────────────

proof fn lemma_parsed(s: Seq<char>, n: nat)
    requires
        s == text::decimal(n),
        n <= u32::MAX,
    ensures
        text::parsed_u32(s) == Some(n as u32),
{
    text::parse_reads_back(n as u32);
}

/// The first ISO number is the automatic one; each of the others is 100 or
/// twice the one before it. So every gain is a whole number.
pub proof fn iso_numbers_double(idx: int)
    requires
        0 <= idx < ISO_VALUES.len(),
    ensures
        iso_of(0) == 0,
        iso_of(1) == 100,
        idx > 1 ==> iso_of(idx) == 2 * iso_of(idx - 1),
        iso_of(idx) % 100 == 0,
{
    reveal_with_fuel(text::decimal, 4);
    reveal_strlit("0");
    reveal_strlit("100");
    reveal_strlit("200");
    reveal_strlit("400");
    reveal_strlit("800");
    reveal_strlit("1600");
    reveal_strlit("3200");
    assert(ISO_VALUES[0]@ =~= text::decimal(0));
    assert(ISO_VALUES[1]@ =~= text::decimal(100));
    assert(ISO_VALUES[2]@ =~= text::decimal(200));
    assert(ISO_VALUES[3]@ =~= text::decimal(400));
    assert(ISO_VALUES[4]@ =~= text::decimal(800));
    assert(ISO_VALUES[5]@ =~= text::decimal(1600));
    assert(ISO_VALUES[6]@ =~= text::decimal(3200));
    lemma_parsed(ISO_VALUES[0]@, 0);
    lemma_parsed(ISO_VALUES[1]@, 100);
    lemma_parsed(ISO_VALUES[2]@, 200);
    lemma_parsed(ISO_VALUES[3]@, 400);
    lemma_parsed(ISO_VALUES[4]@, 800);
    lemma_parsed(ISO_VALUES[5]@, 1600);
    lemma_parsed(ISO_VALUES[6]@, 3200);
}

/// Behind the automatic choice, the shutter stays open longer from one place of
/// the table to the next.
pub proof fn shutter_speeds_grow(i: int, j: int)
    requires
        0 <= i < j < SHUTTER_SPEEDS.len(),
    ensures
        0 <= SHUTTER_SPEEDS[i].1 < SHUTTER_SPEEDS[j].1,
{
}

/// The camera is told of every setting: settings that ask for the same controls
/// are the same.
pub proof fn controls_tell_every_setting<T>(a: CameraSettings<T>, b: CameraSettings<T>)
    requires
        a.in_tables(),
        b.in_tables(),
        controls_of(a) == controls_of(b),
    ensures
        a == b,
{
    iso_numbers_double(1);
    iso_numbers_double(2);
    iso_numbers_double(3);
    iso_numbers_double(4);
    iso_numbers_double(5);
    iso_numbers_double(6);
    let i = a.shutter_idx as int;
    let j = b.shutter_idx as int;
    if i < j {
        shutter_speeds_grow(i, j);
    } else if j < i {
        shutter_speeds_grow(j, i);
    }
}

proof fn lemma_mode_is_no_flag(idx: int)
    requires
        0 <= idx < AWB_MODES.len(),
    ensures
        AWB_MODES[idx]@.len() > 0,
        AWB_MODES[idx]@[0] != '-',
{
    reveal_strlit("auto");
    reveal_strlit("incandescent");
    reveal_strlit("tungsten");
    reveal_strlit("fluorescent");
    reveal_strlit("indoor");
    reveal_strlit("daylight");
    reveal_strlit("cloudy");
}

/// A choice that is left to the camera has no flag among the arguments, and
/// every other choice has one.
pub proof fn automatic_choices_have_no_flag(iso_idx: int, shutter_idx: int, awb_idx: int)
    requires
        0 <= iso_idx < ISO_VALUES.len(),
        0 <= shutter_idx < SHUTTER_SPEEDS.len(),
        0 <= awb_idx < AWB_MODES.len(),
    ensures
        choice_args(iso_idx, shutter_idx, awb_idx).contains("--gain"@) <==> iso_idx != 0,
        choice_args(iso_idx, shutter_idx, awb_idx).contains("--shutter"@) <==> shutter_idx != 0,
        choice_args(iso_idx, shutter_idx, awb_idx).contains("--awb"@),
{
    reveal_strlit("--gain");
    reveal_strlit("--shutter");
    reveal_strlit("--awb");
    let gain = "--gain"@;
    let shutter = "--shutter"@;
    let awb = "--awb"@;
    let args = choice_args(iso_idx, shutter_idx, awb_idx);
    let n = args.len();
    assert(gain.len() == 6 && shutter.len() == 9 && awb.len() == 5);
    iso_numbers_double(iso_idx);
    assert(iso_of(iso_idx) > 0 <==> iso_idx != 0) by {
        iso_numbers_double(1);
        iso_numbers_double(2);
        iso_numbers_double(3);
        iso_numbers_double(4);
        iso_numbers_double(5);
        iso_numbers_double(6);
    }
    let us = SHUTTER_SPEEDS[shutter_idx].1;
    assert(us > 0 <==> shutter_idx != 0) by {
        if shutter_idx > 0 {
            shutter_speeds_grow(0, shutter_idx);
        }
    }
    let g = text::decimal(iso_of(iso_idx) / 100);
    let u = text::signed_decimal(us as int);
    let m = AWB_MODES[awb_idx]@;
    text::decimal_reads_back(iso_of(iso_idx) / 100);
    text::decimal_reads_back(us as nat);
    lemma_mode_is_no_flag(awb_idx);
    assert('0' <= g[0] <= '9');
    if us >= 0 {
        assert('0' <= u[0] <= '9');
    }
    assert(args[n - 2] == awb);
    if iso_idx != 0 {
        assert(args[0] == gain);
        if shutter_idx != 0 {
            assert(args[2] == shutter);
            assert(args =~= seq![gain, g, shutter, u, awb, m]);
        } else {
            assert(args =~= seq![gain, g, awb, m]);
        }
    } else if shutter_idx != 0 {
        assert(args[0] == shutter);
        assert(args =~= seq![shutter, u, awb, m]);
    } else {
        assert(args =~= seq![awb, m]);
    }
}

/// The names of `ffmpeg`'s options, told apart by their lengths and letters.
pub(crate) proof fn lemma_ffmpeg_names()
    ensures
        "-y"@.len() == 2 && "-y"@[0] == '-' && "-y"@[1] == 'y',
        "-f"@.len() == 2 && "-f"@[0] == '-' && "-f"@[1] == 'f',
        "-s"@.len() == 2 && "-s"@[0] == '-' && "-s"@[1] == 's',
        "-r"@.len() == 2 && "-r"@[0] == '-' && "-r"@[1] == 'r',
        "-i"@.len() == 2 && "-i"@[0] == '-' && "-i"@[1] == 'i',
        "-vf"@.len() == 3 && "-vf"@[0] == '-' && "-vf"@[1] == 'v',
        "-c:v"@.len() == 4 && "-c:v"@[0] == '-' && "-c:v"@[1] == 'c',
        "-q:v"@.len() == 4 && "-q:v"@[0] == '-' && "-q:v"@[1] == 'q',
        "-tune"@.len() == 5 && "-tune"@[0] == '-' && "-tune"@[1] == 't',
        "-preset"@.len() == 7 && "-preset"@[0] == '-' && "-preset"@[1] == 'p',
        "-pix_fmt"@.len() == 8 && "-pix_fmt"@[0] == '-' && "-pix_fmt"@[1] == 'p',
        "-vframes"@.len() == 8 && "-vframes"@[0] == '-' && "-vframes"@[1] == 'v',
        "-framerate"@.len() == 10 && "-framerate"@[0] == '-' && "-framerate"@[1] == 'f',
{
    reveal_strlit("-y");
    reveal_strlit("-f");
    reveal_strlit("-s");
    reveal_strlit("-r");
    reveal_strlit("-i");
    reveal_strlit("-vf");
    reveal_strlit("-c:v");
    reveal_strlit("-q:v");
    reveal_strlit("-tune");
    reveal_strlit("-preset");
    reveal_strlit("-pix_fmt");
    reveal_strlit("-vframes");
    reveal_strlit("-framerate");
}

/// Whether `ffmpeg` is given both lists of options as such, is to overwrite what
/// is there, and is told so once.
pub open spec fn ffmpeg_reads(args: Seq<Seq<char>>) -> bool {
    let sw = ffmpeg_switches();
    &&& well_read(input_args(args), sw)
    &&& well_read(output_args(args), sw)
    &&& times_given(input_args(args), sw, "-y"@) == 1
    &&& times_given(output_args(args), sw, "-y"@) == 0
}

pub(crate) proof fn lemma_nothing_given(switches: Set<Seq<char>>)
    ensures
        well_read(Seq::empty(), switches),
        forall|name: Seq<char>| #[trigger]
            given(Seq::empty(), switches, name) == Seq::<Seq<char>>::empty(),
        forall|name: Seq<char>| #[trigger] times_given(Seq::empty(), switches, name) == 0,
{
}

// ── What the arguments promise ────────────────────────────────────────────────

/// The switches of `rpicam-still` among the options that it is given here.
pub open spec fn still_switches() -> Set<Seq<char>> {
    set!["--nopreview"@, "--immediate"@, "--raw"@]
}

/// The names of `rpicam-still`'s options, told apart by their lengths and
/// letters.
pub(crate) proof fn lemma_still_names()
    ensures
        "--nopreview"@.len() == 11 && "--nopreview"@[0] == '-' && "--nopreview"@[2] == 'n',
        "--immediate"@.len() == 11 && "--immediate"@[0] == '-' && "--immediate"@[2] == 'i',
        "--raw"@.len() == 5 && "--raw"@[0] == '-' && "--raw"@[2] == 'r' && "--raw"@[3] == 'a',
        "--output"@.len() == 8 && "--output"@[0] == '-' && "--output"@[2] == 'o',
        "--timeout"@.len() == 9 && "--timeout"@[0] == '-' && "--timeout"@[2] == 't',
        "--rotation"@.len() == 10 && "--rotation"@[0] == '-' && "--rotation"@[2] == 'r',
        "--width"@.len() == 7 && "--width"@[0] == '-' && "--width"@[2] == 'w',
        "--height"@.len() == 8 && "--height"@[0] == '-' && "--height"@[2] == 'h',
        "--gain"@.len() == 6 && "--gain"@[0] == '-' && "--gain"@[2] == 'g',
        "--shutter"@.len() == 9 && "--shutter"@[0] == '-' && "--shutter"@[2] == 's',
        "--awb"@.len() == 5 && "--awb"@[0] == '-' && "--awb"@[2] == 'a',
        "--ev"@.len() == 4 && "--ev"@[0] == '-' && "--ev"@[2] == 'e',
        "--contrast"@.len() == 10 && "--contrast"@[0] == '-' && "--contrast"@[2] == 'c',
        "--saturation"@.len() == 12 && "--saturation"@[0] == '-' && "--saturation"@[2] == 's',
        "--sharpness"@.len() == 11 && "--sharpness"@[0] == '-' && "--sharpness"@[2] == 's',
        "--brightness"@.len() == 12 && "--brightness"@[0] == '-' && "--brightness"@[2] == 'b',
        "--roi"@.len() == 5 && "--roi"@[0] == '-' && "--roi"@[2] == 'r' && "--roi"@[3] == 'o',
{
    reveal_strlit("--nopreview");
    reveal_strlit("--immediate");
    reveal_strlit("--raw");
    reveal_strlit("--output");
    reveal_strlit("--timeout");
    reveal_strlit("--rotation");
    reveal_strlit("--width");
    reveal_strlit("--height");
    reveal_strlit("--gain");
    reveal_strlit("--shutter");
    reveal_strlit("--awb");
    reveal_strlit("--ev");
    reveal_strlit("--contrast");
    reveal_strlit("--saturation");
    reveal_strlit("--sharpness");
    reveal_strlit("--brightness");
    reveal_strlit("--roi");
}

/// The value of an option that is given once or not at all.
pub open spec fn once(value: Option<Seq<char>>) -> Seq<Seq<char>> {
    match value {
        Some(v) => seq![v],
        None => Seq::empty(),
    }
}

/// The text of a value that may be left out.
pub open spec fn maybe_text(value: Option<String>) -> Option<Seq<char>> {
    match value {
        Some(v) => Some(v@),
        None => None,
    }
}

/// Whether a name is that of an option for a setting.
pub open spec fn names_setting(name: Seq<char>) -> bool {
    ||| name == "--gain"@
    ||| name == "--shutter"@
    ||| name == "--awb"@
    ||| name == "--ev"@
    ||| name == "--contrast"@
    ||| name == "--saturation"@
    ||| name == "--sharpness"@
    ||| name == "--brightness"@
    ||| name == "--roi"@
}

/// Whether `rpicam-still` reads settings out of some arguments, each under its
/// own name and nothing else.
pub open spec fn tells_settings<T>(
    args: Seq<Seq<char>>,
    s: CameraSettings<T>,
    t: TuningText,
) -> bool {
    let sw = still_switches();
    &&& given(args, sw, "--contrast"@) == seq![t.contrast@]
    &&& given(args, sw, "--saturation"@) == seq![t.saturation@]
    &&& given(args, sw, "--sharpness"@) == seq![t.sharpness@]
    &&& given(args, sw, "--brightness"@) == seq![t.brightness@]
    &&& given(args, sw, "--ev"@) == once(maybe_text(t.ev))
    &&& given(args, sw, "--roi"@) == once(maybe_text(t.roi))
    &&& given(args, sw, "--awb"@) == seq![AWB_MODES[s.awb_idx as int]@]
    &&& given(args, sw, "--gain"@) == once(
        if s.iso_idx == 0 {
            None
        } else {
            Some(text::decimal(iso_of(s.iso_idx as int) / 100))
        },
    )
    &&& given(args, sw, "--shutter"@) == once(
        if s.shutter_idx == 0 {
            None
        } else {
            Some(text::decimal(SHUTTER_SPEEDS[s.shutter_idx as int].1 as nat))
        },
    )
}

proof fn lemma_choices_are_read(iso_idx: int, shutter_idx: int, awb_idx: int)
    requires
        0 <= iso_idx < ISO_VALUES.len(),
        0 <= shutter_idx < SHUTTER_SPEEDS.len(),
        0 <= awb_idx < AWB_MODES.len(),
    ensures
        ({
            let args = choice_args(iso_idx, shutter_idx, awb_idx);
            let sw = still_switches();
            &&& well_read(args, sw)
            &&& forall|name: Seq<char>| #[trigger]
                given(args, sw, name) == (if name == "--gain"@ && iso_idx != 0 {
                    seq![text::decimal(iso_of(iso_idx) / 100)]
                } else if name == "--shutter"@ && shutter_idx != 0 {
                    seq![text::decimal(SHUTTER_SPEEDS[shutter_idx].1 as nat)]
                } else if name == "--awb"@ {
                    seq![AWB_MODES[awb_idx]@]
                } else {
                    Seq::empty()
                })
            &&& forall|name: Seq<char>| #[trigger] times_given(args, sw, name) == 0
        }),
{
    lemma_still_names();
    let sw = still_switches();
    let none = Seq::<Seq<char>>::empty();
    assert(iso_of(iso_idx) > 0 <==> iso_idx != 0) by {
        iso_numbers_double(1);
        iso_numbers_double(2);
        iso_numbers_double(3);
        iso_numbers_double(4);
        iso_numbers_double(5);
        iso_numbers_double(6);
    }
    let us = SHUTTER_SPEEDS[shutter_idx].1;
    assert(us > 0 <==> shutter_idx != 0) by {
        if shutter_idx > 0 {
            shutter_speeds_grow(0, shutter_idx);
        }
    }
    lemma_nothing_given(sw);
    let gain = text::decimal(iso_of(iso_idx) / 100);
    option_is_read(none, sw, "--gain"@, gain);
    let a = if iso_idx != 0 {
        with_flag(none, "--gain"@, gain)
    } else {
        none
    };
    let length = text::decimal(us as nat);
    option_is_read(a, sw, "--shutter"@, length);
    let b = if shutter_idx != 0 {
        with_flag(a, "--shutter"@, length)
    } else {
        a
    };
    option_is_read(b, sw, "--awb"@, AWB_MODES[awb_idx]@);
}

/// `rpicam-still` reads every setting under its own name, and is given nothing
/// else with the settings.
pub proof fn settings_are_read_by_their_names<T>(
    s: CameraSettings<T>,
    t: TuningText,
    r: Vec<String>,
)
    requires
        s.in_tables(),
        call_ensures(build_rpicam_args::<T>, (&s, &t), r),
    ensures
        tells_settings(text::texts(r@), s, t),
        well_read(text::texts(r@), still_switches()),
        forall|name: Seq<char>|
            !names_setting(name) ==> #[trigger] given(
                text::texts(r@),
                still_switches(),
                name,
            ).len() == 0,
        forall|name: Seq<char>| #[trigger]
            times_given(text::texts(r@), still_switches(), name) == 0,
{
    lemma_settings_are_read(s, t);
}

pub(crate) proof fn lemma_settings_are_read<T>(s: CameraSettings<T>, t: TuningText)
    requires
        s.in_tables(),
    ensures
        tells_settings(settings_args(s, t), s, t),
        well_read(settings_args(s, t), still_switches()),
        forall|name: Seq<char>|
            !names_setting(name) ==> #[trigger] given(
                settings_args(s, t),
                still_switches(),
                name,
            ).len() == 0,
        forall|name: Seq<char>| #[trigger]
            times_given(settings_args(s, t), still_switches(), name) == 0,
{
    lemma_still_names();
    let sw = still_switches();
    lemma_choices_are_read(s.iso_idx as int, s.shutter_idx as int, s.awb_idx as int);
    let c = choice_args(s.iso_idx as int, s.shutter_idx as int, s.awb_idx as int);
    let a = match t.ev {
        Some(ev) => {
            option_is_read(c, sw, "--ev"@, ev@);
            with_flag(c, "--ev"@, ev@)
        },
        None => c,
    };
    let contrast = t.contrast@;
    option_is_read(a, sw, "--contrast"@, contrast);
    let b = with_flag(a, "--contrast"@, contrast);
    let saturation = t.saturation@;
    option_is_read(b, sw, "--saturation"@, saturation);
    let d = with_flag(b, "--saturation"@, saturation);
    let sharpness = t.sharpness@;
    option_is_read(d, sw, "--sharpness"@, sharpness);
    let e = with_flag(d, "--sharpness"@, sharpness);
    let brightness = t.brightness@;
    option_is_read(e, sw, "--brightness"@, brightness);
    let f = with_flag(e, "--brightness"@, brightness);
    match t.roi {
        Some(roi) => {
            option_is_read(f, sw, "--roi"@, roi@);
        },
        None => {},
    }
}

/// Where two lists of arguments for settings give an option other values, it is
/// the option of a setting that differs.
pub proof fn one_setting_changes_one_option<T>(
    s: CameraSettings<T>,
    t: TuningText,
    u: TuningText,
    name: Seq<char>,
)
    requires
        s.in_tables(),
        given(settings_args(s, t), still_switches(), name) != given(
            settings_args(s, u),
            still_switches(),
            name,
        ),
    ensures
        ({
            ||| name == "--contrast"@ && t.contrast@ != u.contrast@
            ||| name == "--saturation"@ && t.saturation@ != u.saturation@
            ||| name == "--sharpness"@ && t.sharpness@ != u.sharpness@
            ||| name == "--brightness"@ && t.brightness@ != u.brightness@
            ||| name == "--ev"@ && maybe_text(t.ev) != maybe_text(u.ev)
            ||| name == "--roi"@ && maybe_text(t.roi) != maybe_text(u.roi)
        }),
{
    lemma_settings_are_read(s, t);
    lemma_settings_are_read(s, u);
    if !names_setting(name) {
        assert(given(settings_args(s, t), still_switches(), name) =~= given(
            settings_args(s, u),
            still_switches(),
            name,
        ));
    }
}

/// The camera must be told exactly where a choice differs or one of the
/// continuous settings has moved: no setting goes unnoticed, and nothing else
/// counts.
pub proof fn every_setting_is_watched<T>(
    a: CameraSettings<T>,
    b: CameraSettings<T>,
    test: spec_fn(T, T) -> bool,
)
    ensures
        a.iso_idx != b.iso_idx ==> changed_by(a, b, test),
        a.shutter_idx != b.shutter_idx ==> changed_by(a, b, test),
        a.awb_idx != b.awb_idx ==> changed_by(a, b, test),
        test(a.ev, b.ev) ==> changed_by(a, b, test),
        test(a.contrast, b.contrast) ==> changed_by(a, b, test),
        test(a.saturation, b.saturation) ==> changed_by(a, b, test),
        test(a.sharpness, b.sharpness) ==> changed_by(a, b, test),
        test(a.brightness, b.brightness) ==> changed_by(a, b, test),
        test(a.zoom, b.zoom) ==> changed_by(a, b, test),
        changed_by(a, b, test) ==> {
            ||| a.iso_idx != b.iso_idx
            ||| a.shutter_idx != b.shutter_idx
            ||| a.awb_idx != b.awb_idx
            ||| test(a.ev, b.ev)
            ||| test(a.contrast, b.contrast)
            ||| test(a.saturation, b.saturation)
            ||| test(a.sharpness, b.sharpness)
            ||| test(a.brightness, b.brightness)
            ||| test(a.zoom, b.zoom)
        },
{
}

/// Each control of the camera is set from its own setting.
pub proof fn controls_follow_their_settings<T: Copy>(s: CameraSettings<T>, c: Controls<T>)
    requires
        s.applicable(),
        call_ensures(apply_settings::<T>, (&s,), c),
    ensures
        c.ev == s.ev,
        c.contrast == s.contrast,
        c.saturation == s.saturation,
        c.sharpness == s.sharpness,
        c.brightness == s.brightness,
        c.zoom == s.zoom,
        c.iso == iso_of(s.iso_idx as int),
        c.shutter_us == SHUTTER_SPEEDS[s.shutter_idx as int].1,
        s.in_tables() ==> c.awb == s.awb_idx,
{
    iso_numbers_double(1);
    iso_numbers_double(2);
    iso_numbers_double(3);
    iso_numbers_double(4);
    iso_numbers_double(5);
    iso_numbers_double(6);
}

/// The label of every shutter speed says how long it is: a fraction of a second
/// in full microseconds, rounded, or a number of seconds.
pub proof fn shutter_labels_tell_the_length(idx: int)
    requires
        0 < idx < SHUTTER_SPEEDS.len(),
    ensures
        ({
            let (label, us) = SHUTTER_SPEEDS[idx];
            exists|n: nat|
                n > 0 && ((label@ == "1/"@ + #[trigger] text::decimal(n) && -n < 2 * (us * n
                    - 1_000_000) <= n) || (label@ == text::decimal(n) + "s"@ && us == n
                    * 1_000_000))
        }),
{
    reveal_with_fuel(text::decimal, 5);
    reveal_strlit("1/");
    reveal_strlit("s");
    reveal_strlit("1/4000");
    reveal_strlit("1/1000");
    reveal_strlit("1/500");
    reveal_strlit("1/250");
    reveal_strlit("1/60");
    reveal_strlit("1/30");
    reveal_strlit("1s");
    reveal_strlit("120s");
    let (label, us) = SHUTTER_SPEEDS[idx];
    if idx == 1 {
        assert(label@ =~= "1/"@ + text::decimal(4_000));
    } else if idx == 2 {
        assert(label@ =~= "1/"@ + text::decimal(1_000));
    } else if idx == 3 {
        assert(label@ =~= "1/"@ + text::decimal(500));
    } else if idx == 4 {
        assert(label@ =~= "1/"@ + text::decimal(250));
    } else if idx == 5 {
        assert(label@ =~= "1/"@ + text::decimal(60));
    } else if idx == 6 {
        assert(label@ =~= "1/"@ + text::decimal(30));
    } else if idx == 7 {
        assert(label@ =~= text::decimal(1) + "s"@);
    } else {
        assert(label@ =~= text::decimal(120) + "s"@);
    }
}

/// The white balance modes are those that `rpicam-still` knows, the automatic one
/// first, each once.
pub proof fn balance_modes_are_told_apart(i: int, j: int)
    requires
        0 <= i < j < AWB_MODES.len(),
    ensures
        AWB_MODES[i]@ != AWB_MODES[j]@,
        AWB_MODES[0]@ == "auto"@,
        AWB_MODES[1]@ == "incandescent"@,
        AWB_MODES[2]@ == "tungsten"@,
        AWB_MODES[3]@ == "fluorescent"@,
        AWB_MODES[4]@ == "indoor"@,
        AWB_MODES[5]@ == "daylight"@,
        AWB_MODES[6]@ == "cloudy"@,
{
    reveal_strlit("auto");
    reveal_strlit("incandescent");
    reveal_strlit("tungsten");
    reveal_strlit("fluorescent");
    reveal_strlit("indoor");
    reveal_strlit("daylight");
    reveal_strlit("cloudy");
    assert("auto"@.len() == 4 && "incandescent"@.len() == 12);
    assert("tungsten"@.len() == 8 && "tungsten"@[0] == 't');
    assert("fluorescent"@.len() == 11 && "indoor"@.len() == 6 && "indoor"@[0] == 'i');
    assert("daylight"@.len() == 8 && "daylight"@[0] == 'd');
    assert("cloudy"@.len() == 6 && "cloudy"@[0] == 'c');
}

} // verus!
