# picam

A kiosk camera for the eyepiece of a telescope: live preview, photos and bursts,
video, time-lapses, a gallery, a web companion and network streams.

`src/` is the library, written in Verus. It holds the decisions and the texts,
and performs no I/O: a plan names what is to be run, written or removed, and the
caller does it.

| Module | What it holds |
|--------|---------------|
| `nv12` | conversion of preview frames to RGBA |
| `settings` | the tables of settings, when a change is applied, `rpicam-still` arguments |
| `camera` | the camera's state, capture and recording plans, file names |
| `timelapse` | sessions, the schedule of frames, the film |
| `gallery` | which files are shown, in which order, and what a deletion removes |
| `request` | request lines, routes, query strings, percent-encoding |
| `reply` | framing of replies, JSON strings |
| `api` | which requests are granted, and their answers |
| `pages` | the web pages |
| `stream` | the local MJPEG server's state, the push stream |
| `panel` | the touchscreen's choices and buttons |
| `config` | defaults, the configuration file's place, startup |
| `backlight` | the touchscreen's backlight |
| `clock` | time stamps and running times |
| `text` | decimal numbers, searching, replacing, words |

The continuous settings (exposure compensation, contrast, zoom and so on) are
floating-point numbers. The library carries them as values of a type parameter;
`app/tuning.rs` says how they are compared and written.

The gallery shows photos, videos and films newest first, over all directories, by
the time in the names that the program gives them (`IMG_`, `VID_` and
`timelapse_`). Files of other names stand where their paths do, directory after
directory, the last name first. Symbolic links are shown and given out only where
they lead to a file below a media directory.

`app/` is the program around the library: the window, the camera device, the
child processes, sockets and files. `tests/` runs the library.

`i-slint-core` stands among the dependencies only to switch on the decoders that
`slint::Image::load_from_path` needs; the window's code uses `slint` alone.
