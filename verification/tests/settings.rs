//! Sizes, crops and what a lens allows.

use omavcam::daemon::{Core, Daemon};
use omavcam::number::Number;
use omavcam::outside::{Act, Answer, Outside};
use omavcam::phones::Registry;
use omavcam::plain::Plain;
use omavcam::settings::{
    aspect_ratio, crop_pixels, gcd, output_size, parse, parse_size, CameraSettings, Crop, Lens,
    SettingValue, SettingsState,
};
use omavcam::table::Table;

fn number(value: f64) -> Number {
    Number { bits: value.to_bits(), text: value.to_string() }
}

fn lens(id: &str, resolutions: &[&str], frame_rates: &[u32], zoom: [f64; 2]) -> Lens {
    Lens {
        id: id.into(),
        facing: "back".into(),
        sensor_size: "4080x3060".into(),
        resolutions: resolutions.iter().map(|size| size.to_string()).collect(),
        frame_rates: frame_rates.to_vec(),
        zoom_min: number(zoom[0]),
        zoom_max: number(zoom[1]),
    }
}

fn lenses() -> Vec<Lens> {
    vec![
        lens("0", &["1920x1080", "1280x720", "640x480"], &[15, 24, 30], [1.0, 8.0]),
        lens("1", &["1600x1200", "640x480"], &[10, 20], [0.5, 2.0]),
    ]
}

fn settings(resolution: &str, crop: [f64; 4]) -> CameraSettings {
    let mut crops = Table::new();
    let [x, y, width, height] = crop.map(f64::to_bits);
    crops.insert("0".into(), Crop { x, y, width, height });
    CameraSettings {
        lens: "0".into(),
        resolution: resolution.into(),
        frame_rate: 30,
        aspect_ratio: "16:9".into(),
        zoom: number(1.0),
        crops,
    }
}

fn text(value: &str) -> SettingValue {
    SettingValue { json: format!("\"{value}\""), number: None, crop: None }
}

fn amount(value: f64) -> SettingValue {
    SettingValue { json: value.to_string(), number: Some(number(value)), crop: None }
}

fn rectangle(crop: [f64; 4]) -> SettingValue {
    let [x, y, width, height] = crop.map(f64::to_bits);
    SettingValue {
        json: "{}".into(),
        number: None,
        crop: Some(Crop { x, y, width, height }),
    }
}

/// What a list of cameras says, with its numbers read by the machine.
fn read(list: &str) -> Result<Vec<Lens>, String> {
    let mut answers: Vec<Answer> = vec![];
    loop {
        let mut outside = Outside::new(answers.copy(), 0, 0);
        let result = parse(&mut outside, list);
        if !outside.waiting {
            return result;
        }
        let Some(Act::Number { text }) = outside.trace.last() else {
            panic!("{:?}", outside.trace);
        };
        answers.push(Answer::Number { number: text.parse().ok().map(number) });
    }
}

#[test]
fn sizes_have_a_width_and_a_height() {
    assert_eq!(parse_size("1920x1080"), Some((1920, 1080)));
    assert_eq!(parse_size("+2x0002"), Some((2, 2)));
    for bad in ["", "x", "1920", "1x2", "2x1", "2x2x2", " 2x2", "4294967296x2", "-2x2"] {
        assert_eq!(parse_size(bad), None, "{bad}");
    }
    assert_eq!(aspect_ratio("1920x1080"), Ok("16:9".to_string()));
    assert_eq!(aspect_ratio("640x480"), Ok("4:3".to_string()));
    assert_eq!(aspect_ratio("1366x768"), Ok("683:384".to_string()));
    assert_eq!(aspect_ratio("1x1"), Err("invalid resolution \"1x1\"".to_string()));
}

#[test]
fn the_common_divisor_divides_both_and_is_the_greatest() {
    for a in 0..40 {
        for b in 0..40 {
            let r = gcd(a, b);
            assert_eq!(r, gcd(b, a));
            if a == 0 && b == 0 {
                assert_eq!(r, 0);
                continue;
            }
            assert!(a % r == 0 && b % r == 0, "{a} {b}");
            for d in 1..40 {
                assert!(a % d != 0 || b % d != 0 || r % d == 0, "{d} divides {a} and {b}");
            }
        }
    }
    assert_eq!(gcd(4294967295, 0), 4294967295);
    assert_eq!(gcd(1920, 1080), 120);
    assert_eq!(gcd(4294967291, 4294967279), 1);
}

#[test]
fn sizes_of_one_shape_have_one_ratio() {
    for size in ["1280x720", "1920x1080", "3840x2160", "16x9", "32x18"] {
        assert_eq!(aspect_ratio(size), Ok("16:9".to_string()), "{size}");
    }
    assert_eq!(aspect_ratio("720x1280"), Ok("9:16".to_string()));
    assert_ne!(aspect_ratio("1920x1080"), aspect_ratio("1920x1088"));
}

#[test]
fn a_crop_that_is_no_number_begins_at_the_edge() {
    let nan = f64::NAN;
    for (crop, expected) in [
        ([nan, 0.5, 0.5, 0.5], (2, 540, 0, 540)),
        ([0.5, 0.5, nan, 0.5], (2, 540, 960, 540)),
        ([nan, nan, nan, nan], (2, 2, 0, 0)),
        ([f64::INFINITY, 0.0, f64::NEG_INFINITY, 1.0], (2, 1080, 1918, 0)),
        ([f64::NEG_INFINITY, 0.0, 1.0, f64::INFINITY], (2, 1080, 0, 0)),
    ] {
        assert_eq!(crop_pixels(&settings("1920x1080", crop)), Some(expected), "{crop:?}");
    }
}

#[test]
fn what_is_no_number_is_never_what_is_applied() {
    let saved = settings("1920x1080", [f64::NAN, 0.0, 1.0, 1.0]);
    let mut state = SettingsState::new("A".into(), lenses(), Some(saved));
    assert!(state.has_pending_changes);
    state.applied();
    assert!(state.has_pending_changes);
    state.change("crop", &SettingValue { json: "null".into(), number: None, crop: None }).unwrap();
    state.applied();
    assert!(!state.has_pending_changes);
}

/// A daemon whose phone can be set to no zoom at all.
fn daemon(zoom: f64, range: [f64; 2]) -> Daemon {
    let core = Core::new(Registry::default(), true, vec![]);
    let mut daemon = Daemon { core, outside: Outside::new(vec![], 0, 0) };
    let mut own = settings("1920x1080", [0.0, 0.0, 1.0, 1.0]);
    own.zoom = number(zoom);
    let lenses = vec![lens("0", &["1920x1080"], &[30], range)];
    daemon.core.state.settings = Some(SettingsState::new("A".into(), lenses, Some(own)));
    daemon
}

#[test]
fn the_sign_of_a_zero_is_no_news() {
    for (zoom, range) in [(-0.0, [0.0, 8.0]), (0.0, [-0.0, 8.0]), (-0.0, [-0.0, 8.0])] {
        let mut one = daemon(0.0, [0.0, 8.0]);
        let mut other = daemon(zoom, range).core.state;
        one.publish(other.copy());
        assert_eq!(one.core.rev, 1);
        assert!(one.outside.trace.is_empty());
        other.adb_ok = false;
        one.publish(other.copy());
        assert_eq!(one.core.rev, 2);
        assert_eq!(one.outside.trace.len(), 1);
        assert!(one.core.state.same(&other));
    }
    let mut one = daemon(0.0, [0.0, 8.0]);
    let state = daemon(1.0, [0.0, 8.0]).core.state;
    one.publish(state);
    assert_eq!(one.core.rev, 2);
}

#[test]
fn what_is_no_number_is_always_news() {
    let mut one = daemon(1.0, [1.0, 8.0]);
    let state = one.core.state.copy();
    one.publish(state);
    assert_eq!(one.core.rev, 1);
    let mut state = one.core.state.copy();
    let crop = Crop { x: f64::NAN.to_bits(), y: 0, width: 0, height: 0 };
    state.settings.as_mut().unwrap().applied.crops.insert("1".into(), crop);
    one.publish(state.copy());
    one.publish(state);
    assert_eq!(one.core.rev, 3);
}

#[test]
fn crops_become_even_pixels_in_the_frame() {
    for (resolution, crop, expected) in [
        ("1920x1080", [0.73, 0.0, 0.4, 0.501], (520, 540, 1400, 0)),
        ("1280x720", [0.73, 0.0, 0.4, 0.501], (346, 360, 934, 0)),
        ("1920x1080", [0.1, 0.1, 0.8, 0.8], (1536, 864, 192, 108)),
        ("1920x1080", [0.0, 0.0, 1.0, 1.0], (1920, 1080, 0, 0)),
        ("1920x1080", [0.999, 0.999, 0.5, 0.5], (2, 2, 1918, 1078)),
        ("1921x1081", [0.9999, 0.0, 1.0, 1e-9], (2, 2, 1919, 0)),
        ("3x3", [0.9, 0.9, 0.9, 0.9], (2, 2, 1, 1)),
    ] {
        let own = settings(resolution, crop);
        assert_eq!(crop_pixels(&own), Some(expected), "{resolution} {crop:?}");
        assert_eq!(output_size(&own), format!("{}x{}", expected.0, expected.1));
    }
    let mut other = settings("1920x1080", [0.1, 0.1, 0.1, 0.1]);
    other.lens = "1".into();
    assert_eq!(crop_pixels(&other), None);
    assert_eq!(output_size(&other), "1920x1080");
}

#[test]
fn settings_open_with_what_was_saved_or_with_defaults() {
    let fresh = SettingsState::new("p".into(), lenses(), None);
    assert_eq!(fresh.applied.lens, "0");
    assert_eq!(fresh.applied.resolution, "1280x720");
    assert_eq!(fresh.applied.aspect_ratio, "16:9");
    assert_eq!(fresh.applied.frame_rate, 30);
    assert_eq!(fresh.applied.zoom.text, "1");
    assert_eq!(fresh.offered_resolutions, vec!["1920x1080", "1280x720"]);
    assert!(!fresh.has_pending_changes);

    let saved = settings("1920x1080", [0.1, 0.1, 0.8, 0.8]);
    let restored = SettingsState::new("p".into(), lenses(), Some(saved.copy()));
    assert!(restored.applied.same(&saved));
    assert!(restored.pending.same(&saved));

    let mut stale = saved.copy();
    stale.zoom = number(9.0);
    let replaced = SettingsState::new("p".into(), lenses(), Some(stale));
    assert!(replaced.applied.same(&fresh.applied));
}

#[test]
fn another_lens_brings_its_own_limits() {
    let mut state = SettingsState::new("p".into(), lenses(), None);
    state.change("zoom", &amount(4.0)).unwrap();
    state.change("lens", &text("1")).unwrap();
    assert_eq!(state.pending.resolution, "1600x1200");
    assert_eq!(state.pending.aspect_ratio, "4:3");
    assert_eq!(state.pending.frame_rate, 10);
    assert_eq!(state.pending.zoom.text, "2");
    assert_eq!(state.offered_resolutions, vec!["1600x1200", "640x480"]);
    assert!(state.has_pending_changes);
    assert_eq!(state.applied.lens, "0");
}

#[test]
fn discarding_goes_back_and_applying_goes_on() {
    let mut state = SettingsState::new("p".into(), lenses(), None);
    let first = state.applied.copy();
    state.change("zoom", &amount(2.5)).unwrap();
    state.change("crop", &rectangle([0.1, 0.1, 0.5, 0.5])).unwrap();
    assert!(state.has_pending_changes);
    state.discard();
    assert!(state.pending.same(&first));
    assert!(!state.has_pending_changes);

    state.change("frame_rate", &amount(24.0)).unwrap();
    let wanted = state.pending.copy();
    state.applied();
    assert!(state.applied.same(&wanted) && state.pending.same(&wanted));
    assert!(!state.has_pending_changes);

    state.change("zoom", &amount(3.0)).unwrap();
    state.note_rejection("in use".into());
    assert_eq!(state.rejected.as_deref(), Some("in use"));
    assert_eq!(state.pending.zoom.text, "3");
    state.reject("no".into());
    assert_eq!(state.rejected.as_deref(), Some("no"));
    assert!(state.applied.same(&wanted) && state.pending.same(&wanted));
}

#[test]
fn crops_belong_to_a_lens() {
    let mut state = SettingsState::new("p".into(), lenses(), None);
    state.change("crop", &rectangle([0.1, 0.1, 0.5, 0.5])).unwrap();
    state.change("lens", &text("1")).unwrap();
    assert!(state.pending.crops.get("1").is_none());
    assert!(state.pending.crops.get("0").is_some());
    state.change("lens", &text("0")).unwrap();
    let none = SettingValue { json: "null".into(), number: None, crop: None };
    state.change("crop", &none).unwrap();
    assert!(state.pending.crops.get("0").is_none());
}

#[test]
fn lists_of_cameras_are_read_line_by_line() {
    let list = "noise\n--camera-id=0 (back, 4080x3060, fps={15, 30}, zoom-range=[0.6, 10])\n\
                    - 1920x1080\n  High speed capture (--camera-high-speed):\n    - 1280x720\n\
                --camera-id=ab\t(front, 10x10, fps={1}, zoom-range=[1, 1])\n  - 2x2\n";
    let lenses = read(list).unwrap();
    assert_eq!(lenses.len(), 2);
    assert_eq!(lenses[0].resolutions, vec!["1920x1080"]);
    assert_eq!(lenses[0].zoom_min.text, "0.6");
    assert_eq!(lenses[1].id, "ab");
    assert_eq!(lenses[1].frame_rates, vec![1]);

    for (list, error) in [
        ("", "scrcpy returned no usable camera capabilities"),
        ("- 2x2", "lens resolution without a lens: \"2x2\""),
        ("--camera-id=0", "could not parse lens id from \"0\""),
        ("--camera-id= (a)", "empty lens id in \" (a)\""),
        ("--camera-id=0 a", "could not parse lens characteristics from \"0 a\""),
        ("--camera-id=0 ()", "empty lens facing in \"0 ()\""),
        ("--camera-id=0 (a, b)", "invalid sensor size \"b\""),
        ("--camera-id=0 (a, 2x2)", "missing fps={ in \"a, 2x2\""),
        ("--camera-id=0 (a, 2x2, fps={x})", "invalid frame rates in \"0 (a, 2x2, fps={x})\""),
        (
            "--camera-id=0 (a, 2x2, fps={1})",
            "missing zoom-range=[ in \"a, 2x2, fps={1}\"",
        ),
        (
            "--camera-id=0 (a, 2x2, fps={1}, zoom-range=[a])",
            "invalid zoom range in \"0 (a, 2x2, fps={1}, zoom-range=[a])\"",
        ),
        (
            "--camera-id=0 (a, 2x2, fps={1}, zoom-range=[1])",
            "incomplete camera characteristics in \"0 (a, 2x2, fps={1}, zoom-range=[1])\"",
        ),
        (
            "--camera-id=0 (a, 2x2, fps={1}, zoom-range=[1, inf])",
            "incomplete camera characteristics in \"0 (a, 2x2, fps={1}, zoom-range=[1, inf])\"",
        ),
        (
            "--camera-id=0 (a, 2x2, fps={1}, zoom-range=[1, 2])\n- 1x2",
            "invalid lens resolution \"1x2\"",
        ),
    ] {
        assert_eq!(read(list).err().as_deref(), Some(error), "{list}");
    }
}
