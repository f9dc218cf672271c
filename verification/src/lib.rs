//! The logic of a kiosk camera for the eyepiece of a telescope: frame
//! conversion, capture and recording plans, the gallery, the time-lapse
//! scheduler, and the web companion's requests and replies.
//!
//! The library holds the decisions and the texts. It performs no I/O: a plan
//! names what is to be run, written or removed, and the caller does it.

pub mod api;
pub mod backlight;
pub mod camera;
pub mod clock;
pub mod config;
pub mod gallery;
pub mod nv12;
pub mod pages;
pub mod panel;
pub mod reply;
pub mod request;
pub mod settings;
pub mod stream;
pub mod text;
pub mod timelapse;
