//! The configuration: its defaults, where its file is, and what it asks for at
//! startup.
//!
//! As in the settings, the continuous values are of a type that the caller
//! chooses.

use vstd::prelude::*;

use crate::settings::CameraSettings;
use crate::text::chars_of;

verus! {

/// The camera's settings at startup.
#[derive(Clone, Debug)]
pub struct CameraDefaults<T> {
    pub iso_idx: usize,
    pub shutter_idx: usize,
    pub awb_idx: usize,
    pub ev: T,
    pub contrast: T,
    pub saturation: T,
    pub sharpness: T,
    pub brightness: T,
    pub zoom: T,
}

/// What is captured, and how, at startup.
#[derive(Clone, Debug)]
pub struct CaptureDefaults {
    pub photo_res_idx: usize,
    pub video_res_idx: usize,
    pub tl_res_idx: usize,
    pub raw_enabled: bool,
    pub stream_enabled: bool,
}

impl Default for CaptureDefaults {
    /// The largest sizes, no raw files, the preview on.
    fn default() -> (r: Self)
        ensures
            r.photo_res_idx == 0,
            r.video_res_idx == 0,
            r.tl_res_idx == 0,
            !r.raw_enabled,
            r.stream_enabled,
    {
        CaptureDefaults {
            photo_res_idx: 0,
            video_res_idx: 0,
            tl_res_idx: 0,
            raw_enabled: false,
            stream_enabled: true,
        }
    }
}

/// The general choices at startup.
#[derive(Clone, Debug)]
pub struct GeneralDefaults {
    pub self_timer_idx: usize,
    pub burst_count_idx: usize,
    pub last_shot_enabled: bool,
    pub sleep_timeout_idx: usize,
}

impl Default for GeneralDefaults {
    /// No timer, single shots, the last shot shown, no sleep.
    fn default() -> (r: Self)
        ensures
            r.self_timer_idx == 0,
            r.burst_count_idx == 0,
            r.last_shot_enabled,
            r.sleep_timeout_idx == 0,
    {
        GeneralDefaults {
            self_timer_idx: 0,
            burst_count_idx: 0,
            last_shot_enabled: true,
            sleep_timeout_idx: 0,
        }
    }
}

/// The streams.
#[derive(Clone, Debug)]
pub struct StreamConfig {
    /// The port of the local server.
    pub local_port: u16,
    /// Whether the local server starts by itself.
    pub local_enabled: bool,
    /// Where the push stream goes; empty for nowhere.
    pub push_url: String,
    /// Whether the push stream starts by itself.
    pub push_enabled: bool,
}

impl Default for StreamConfig {
    /// Port 8080, nothing started, nowhere to push to.
    fn default() -> (r: Self)
        ensures
            r.local_port == 8080,
            !r.local_enabled,
            r.push_url@ == Seq::<char>::empty(),
            !r.push_enabled,
    {
        StreamConfig {
            local_port: 8080,
            local_enabled: false,
            push_url: String::new(),
            push_enabled: false,
        }
    }
}

/// The whole configuration.
#[derive(Clone, Debug)]
pub struct Config<T> {
    pub camera: CameraDefaults<T>,
    pub capture: CaptureDefaults,
    pub general: GeneralDefaults,
    pub stream: StreamConfig,
}

impl<T: Copy> CameraDefaults<T> {
    /// The settings that change nothing.
    pub fn neutral(zero: T, one: T) -> (r: Self)
        ensures
            r.iso_idx == 0,
            r.shutter_idx == 0,
            r.awb_idx == 0,
            r.ev == zero,
            r.contrast == one,
            r.saturation == one,
            r.sharpness == one,
            r.brightness == zero,
            r.zoom == one,
    {
        let s = CameraSettings::neutral(zero, one);
        CameraDefaults {
            iso_idx: s.iso_idx,
            shutter_idx: s.shutter_idx,
            awb_idx: s.awb_idx,
            ev: s.ev,
            contrast: s.contrast,
            saturation: s.saturation,
            sharpness: s.sharpness,
            brightness: s.brightness,
            zoom: s.zoom,
        }
    }
}

/// Whether a configuration holds the defaults.
pub open spec fn is_default<T>(c: Config<T>, zero: T, one: T) -> bool {
    &&& c.camera == (CameraDefaults {
        iso_idx: 0,
        shutter_idx: 0,
        awb_idx: 0,
        ev: zero,
        contrast: one,
        saturation: one,
        sharpness: one,
        brightness: zero,
        zoom: one,
    })
    &&& c.capture == (CaptureDefaults {
        photo_res_idx: 0,
        video_res_idx: 0,
        tl_res_idx: 0,
        raw_enabled: false,
        stream_enabled: true,
    })
    &&& c.general == (GeneralDefaults {
        self_timer_idx: 0,
        burst_count_idx: 0,
        last_shot_enabled: true,
        sleep_timeout_idx: 0,
    })
    &&& c.stream.local_port == 8080
    &&& !c.stream.local_enabled
    &&& c.stream.push_url@ == Seq::<char>::empty()
    &&& !c.stream.push_enabled
}

/// Whether a configuration is the one to go by, given what reading its file
/// gave, and whether the file is then written.
pub open spec fn loads_as<T>(file: ConfigFile<T>, zero: T, one: T, c: Config<T>, write: bool) -> bool {
    match file {
        ConfigFile::Parsed(cfg) => c == cfg && !write,
        ConfigFile::Malformed => is_default(c, zero, one) && !write,
        ConfigFile::Unreadable => is_default(c, zero, one) && write,
    }
}

impl<T: Copy> Config<T> {
    /// The defaults.
    pub fn neutral(zero: T, one: T) -> (r: Self)
        ensures
            is_default(r, zero, one),
    {
        Config {
            camera: CameraDefaults::neutral(zero, one),
            capture: CaptureDefaults::default(),
            general: GeneralDefaults::default(),
            stream: StreamConfig::default(),
        }
    }

    /// The configuration to go by, given what reading its file gave, and
    /// whether the file is to be written: the file's, or the defaults where it
    /// is malformed, or the defaults where it cannot be read, and then it is
    /// written so that there is something to edit.
    pub fn load(file: ConfigFile<T>, zero: T, one: T) -> (r: (Self, bool))
        ensures
            loads_as(file, zero, one, r.0, r.1),
    {
        match file {
            ConfigFile::Parsed(cfg) => (cfg, false),
            ConfigFile::Malformed => (Config::neutral(zero, one), false),
            ConfigFile::Unreadable => (Config::neutral(zero, one), true),
        }
    }
}

/// What reading the configuration's file gave.
pub enum ConfigFile<T> {
    Parsed(Config<T>),
    Malformed,
    Unreadable,
}

/// The path of the configuration's file below a home directory.
pub open spec fn config_path(home: Seq<char>) -> Seq<char> {
    if home.len() > 0 && home.last() != '/' {
        home + "/"@ + ".config/picam-rs/config.toml"@
    } else {
        home + ".config/picam-rs/config.toml"@
    }
}

/// The path of the configuration's file. Without a home directory it is that of
/// the user `pi`.
pub fn path(home: Option<&str>) -> (r: String)
    ensures
        r@ == config_path(
            match home {
                Some(h) => h@,
                None => "/home/pi"@,
            },
        ),
{
    let home = match home {
        Some(h) => h,
        None => "/home/pi",
    };
    let chars = chars_of(home);
    let n = chars.len();
    let mut s = home.to_owned();
    if n > 0 && chars[n - 1] != '/' {
        s.append("/");
    }
    s.append(".config/picam-rs/config.toml");
    s
}

/// What is done at startup beyond showing the values: whether the preview is
/// switched off, on which port the local server starts, and where to the push
/// stream.
pub struct Startup {
    pub preview_off: bool,
    pub local_port: Option<u16>,
    pub push_url: Option<String>,
}

/// What the configuration asks for at startup.
pub fn startup<T>(cfg: &Config<T>) -> (r: Startup)
    ensures
        r.preview_off == !cfg.capture.stream_enabled,
        r.local_port == (if cfg.stream.local_enabled {
            Some(cfg.stream.local_port)
        } else {
            None
        }),
        r.push_url is Some <==> cfg.stream.push_enabled && cfg.stream.push_url@.len() > 0,
        r.push_url matches Some(url) ==> url@ == cfg.stream.push_url@,
{
    let url = cfg.stream.push_url.as_str();
    Startup {
        preview_off: !cfg.capture.stream_enabled,
        local_port: if cfg.stream.local_enabled {
            Some(cfg.stream.local_port)
        } else {
            None
        },
        push_url: if cfg.stream.push_enabled && chars_of(url).len() > 0 {
            Some(url.to_owned())
        } else {
            None
        },
    }
}

/// Where there is no file, or a malformed one, the defaults are gone by, and
/// again the next time: a file that was written then reads as what was written,
/// and a malformed one is kept as it is.
pub proof fn defaults_are_loaded_again<T>(
    file: ConfigFile<T>,
    zero: T,
    one: T,
    first: Config<T>,
    write: bool,
    second: Config<T>,
    write_again: bool,
)
    requires
        !(file is Parsed),
        loads_as(file, zero, one, first, write),
        loads_as(
            (if write {
                ConfigFile::Parsed(first)
            } else {
                file
            }),
            zero,
            one,
            second,
            write_again,
        ),
    ensures
        is_default(first, zero, one),
        is_default(second, zero, one),
        write <==> file is Unreadable,
        !write_again,
{
}

/// The configuration's file is below the home directory, whether or not a slash
/// ends that.
pub proof fn config_is_below_the_home(home: Seq<char>)
    requires
        home.len() > 0,
        home.last() != '/',
    ensures
        config_path(home) == home + "/.config/picam-rs/config.toml"@,
        config_path(home.push('/')) == config_path(home),
{
    reveal_strlit("/");
    reveal_strlit(".config/picam-rs/config.toml");
    reveal_strlit("/.config/picam-rs/config.toml");
    assert(config_path(home) =~= home + "/.config/picam-rs/config.toml"@);
    assert(config_path(home.push('/')) =~= config_path(home));
}

/// Nothing starts by itself that the configuration does not ask for, and what it
/// asks for starts where it says.
pub proof fn startup_does_what_is_configured<T>(cfg: Config<T>, r: Startup)
    requires
        call_ensures(startup::<T>, (&cfg,), r),
    ensures
        r.preview_off <==> !cfg.capture.stream_enabled,
        r.local_port is Some <==> cfg.stream.local_enabled,
        r.local_port matches Some(port) ==> port == cfg.stream.local_port,
        r.push_url is Some ==> cfg.stream.push_enabled,
        cfg.stream.push_enabled && cfg.stream.push_url@.len() > 0 ==> r.push_url is Some,
        r.push_url matches Some(url) ==> url@ == cfg.stream.push_url@ && url@.len() > 0,
{
}

/// A file that could be read is gone by as it is and not written; else the
/// defaults are gone by, and only a file that is not there is written.
pub proof fn readable_files_are_gone_by<T: Copy>(
    file: ConfigFile<T>,
    zero: T,
    one: T,
    r: (Config<T>, bool),
)
    requires
        call_ensures(Config::<T>::load, (file, zero, one), r),
    ensures
        file matches ConfigFile::Parsed(cfg) ==> r.0 == cfg,
        !(file is Parsed) ==> is_default(r.0, zero, one),
        r.1 <==> file is Unreadable,
{
}

/// With the defaults the preview is on, and neither stream starts by itself; no
/// choice is made for the camera, and every continuous setting is neutral.
pub proof fn defaults_start_nothing<T>(cfg: Config<T>, zero: T, one: T, r: Startup)
    requires
        is_default(cfg, zero, one),
        call_ensures(startup::<T>, (&cfg,), r),
    ensures
        !r.preview_off,
        r.local_port is None,
        r.push_url is None,
        cfg.camera.iso_idx == 0 && cfg.camera.shutter_idx == 0 && cfg.camera.awb_idx == 0,
        cfg.camera.ev == zero && cfg.camera.brightness == zero,
        cfg.camera.contrast == one && cfg.camera.saturation == one,
        cfg.camera.sharpness == one && cfg.camera.zoom == one,
        cfg.capture.photo_res_idx == 0 && cfg.capture.video_res_idx == 0 && cfg.capture.tl_res_idx
            == 0,
        !cfg.capture.raw_enabled,
        cfg.general.self_timer_idx == 0 && cfg.general.burst_count_idx == 0,
        cfg.general.last_shot_enabled && cfg.general.sleep_timeout_idx == 0,
        cfg.stream.local_port == 8080,
{
}

} // verus!
