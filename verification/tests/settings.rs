use picam::settings::{
    apply_settings, build_rpicam_args, is_applicable, is_in_tables, iso_value, settings_changed,
    CameraSettings, TuningText, AWB_MODES, ISO_VALUES, SHUTTER_SPEEDS,
};

fn defaults() -> CameraSettings<f32> {
    CameraSettings::neutral(0.0, 1.0)
}

fn moved(a: &f32, b: &f32) -> bool {
    (a - b).abs() > 0.01
}

fn tuning(s: &CameraSettings<f32>) -> TuningText {
    TuningText {
        ev: if s.ev.abs() > 0.01 { Some(format!("{:.2}", s.ev)) } else { None },
        contrast: format!("{:.2}", s.contrast),
        saturation: format!("{:.2}", s.saturation),
        sharpness: format!("{:.2}", s.sharpness),
        brightness: format!("{:.2}", s.brightness),
        roi: if s.zoom > 1.01 {
            let w = 1.0 / s.zoom;
            let x = (1.0 - w) / 2.0;
            Some(format!("{x:.4},{x:.4},{w:.4},{w:.4}"))
        } else {
            None
        },
    }
}

fn args(s: &CameraSettings<f32>) -> Vec<String> {
    build_rpicam_args(s, &tuning(s))
}

#[test]
fn settings_changed_identical_returns_false() {
    let s = defaults();
    assert!(!settings_changed(&s, &s.clone(), moved));
}

#[test]
fn settings_changed_iso_returns_true() {
    let a = defaults();
    let mut b = a.clone();
    b.iso_idx = 2;
    assert!(settings_changed(&a, &b, moved));
}

#[test]
fn settings_changed_ev_small_delta_returns_false() {
    let a = defaults();
    let mut b = a.clone();
    b.ev = 0.005;
    assert!(!settings_changed(&a, &b, moved));
}

#[test]
fn settings_changed_ev_large_delta_returns_true() {
    let a = defaults();
    let mut b = a.clone();
    b.ev = 0.5;
    assert!(settings_changed(&a, &b, moved));
}

#[test]
fn settings_changed_zoom_threshold() {
    let a = defaults();
    let mut b = a.clone();
    b.zoom = 1.005;
    assert!(!settings_changed(&a, &b, moved));
    b.zoom = 1.02;
    assert!(settings_changed(&a, &b, moved));
}

#[test]
fn settings_changed_looks_at_every_field() {
    let a = defaults();
    let changes: Vec<fn(&mut CameraSettings<f32>)> = vec![
        |s| s.shutter_idx = 1,
        |s| s.awb_idx = 1,
        |s| s.contrast = 0.5,
        |s| s.saturation = 0.5,
        |s| s.sharpness = 0.5,
        |s| s.brightness = 0.5,
    ];
    for change in changes {
        let mut b = a.clone();
        change(&mut b);
        assert!(settings_changed(&a, &b, moved));
    }
}

#[test]
fn build_rpicam_args_auto_iso_omits_gain() {
    let s = defaults();
    let args = args(&s);
    assert!(!args.contains(&"--gain".to_string()));
}

#[test]
fn build_rpicam_args_iso_100_sets_gain_1() {
    let mut s = defaults();
    s.iso_idx = 1;
    let args = args(&s);
    let idx = args.iter().position(|a| a == "--gain").unwrap();
    assert_eq!(args[idx + 1], "1");
}

#[test]
fn build_rpicam_args_zoom_sets_roi() {
    let mut s = defaults();
    s.zoom = 2.0;
    let args = args(&s);
    assert!(args.contains(&"--roi".to_string()));
    let idx = args.iter().position(|a| a == "--roi").unwrap();
    assert_eq!(args[idx + 1], "0.2500,0.2500,0.5000,0.5000");
}

#[test]
fn build_rpicam_args_auto_shutter_omits_flag() {
    let s = defaults();
    let args = args(&s);
    assert!(!args.contains(&"--shutter".to_string()));
}

#[test]
fn build_rpicam_args_shutter_sets_microseconds() {
    let mut s = defaults();
    s.shutter_idx = 1;
    let args = args(&s);
    let idx = args.iter().position(|a| a == "--shutter").unwrap();
    assert_eq!(args[idx + 1], "250");
}

#[test]
fn build_rpicam_args_no_zoom_omits_roi() {
    let s = defaults();
    let args = args(&s);
    assert!(!args.contains(&"--roi".to_string()));
}

#[test]
fn build_rpicam_args_ev_nonzero_sets_flag() {
    let mut s = defaults();
    s.ev = 1.5;
    let args = args(&s);
    assert!(args.contains(&"--ev".to_string()));
}

#[test]
fn build_rpicam_args_ev_zero_omits_flag() {
    let s = defaults();
    let args = args(&s);
    assert!(!args.contains(&"--ev".to_string()));
}

#[test]
fn build_rpicam_args_full_list() {
    let mut s = defaults();
    s.iso_idx = 6;
    s.shutter_idx = 8;
    s.awb_idx = 5;
    s.ev = -0.5;
    s.zoom = 4.0;
    assert_eq!(
        args(&s),
        vec![
            "--gain", "32", "--shutter", "120000000", "--awb", "daylight", "--ev", "-0.50",
            "--contrast", "1.00", "--saturation", "1.00", "--sharpness", "1.00", "--brightness",
            "0.00", "--roi", "0.3750,0.3750,0.2500,0.2500",
        ]
    );
}

#[test]
fn iso_values_are_their_numbers() {
    let values: Vec<u32> = (0..ISO_VALUES.len()).map(iso_value).collect();
    assert_eq!(values, vec![0, 100, 200, 400, 800, 1600, 3200]);
}

#[test]
fn controls_of_settings() {
    let mut s = defaults();
    s.iso_idx = 3;
    s.shutter_idx = 7;
    s.awb_idx = 2;
    let c = apply_settings(&s);
    assert_eq!(c.iso, 400);
    assert_eq!(c.shutter_us, 1_000_000);
    assert_eq!(c.awb, 2);
}

#[test]
fn tables_have_their_ends() {
    assert_eq!(SHUTTER_SPEEDS[0], ("Auto", 0));
    assert_eq!(SHUTTER_SPEEDS[1], ("1/4000", 250));
    assert_eq!(SHUTTER_SPEEDS[SHUTTER_SPEEDS.len() - 1], ("120s", 120_000_000));
    assert_eq!(AWB_MODES[0], "auto");
    assert_eq!(AWB_MODES[6], "cloudy");
}

#[test]
fn choices_beyond_the_tables_are_told() {
    let mut s = defaults();
    assert!(is_applicable(&s) && is_in_tables(&s));
    s.awb_idx = 7;
    assert!(is_applicable(&s) && !is_in_tables(&s));
    s.iso_idx = 7;
    assert!(!is_applicable(&s));
}

#[test]
fn changes_are_changes_both_ways_round() {
    let a = defaults();
    let mut b = a.clone();
    b.zoom = 1.5;
    assert!(settings_changed(&a, &b, moved) && settings_changed(&b, &a, moved));
    b.zoom = 1.001;
    assert!(!settings_changed(&a, &b, moved) && !settings_changed(&b, &a, moved));
}
