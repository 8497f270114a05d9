use blot::args::{eq_ignore_ascii_case, parse_u16, ArgObject, Args};
use blot::canvas::SampleMode;

fn argv(items: &[&str]) -> Vec<String> {
    items.iter().map(|s| s.to_string()).collect()
}

fn digest(items: &[&str]) -> (Args, Result<(), (String, String)>) {
    let mut a = Args::new();
    let r = a.digest(&argv(items), 1);
    let r = r.map_err(|e| (e.name().to_string(), e.issue().to_string()));
    (a, r)
}

fn err(name: &str, issue: &str) -> Result<(), (String, String)> {
    Err((name.to_string(), issue.to_string()))
}

#[test]
fn defaults() {
    let a = Args::new();
    assert!(a.object.is_none());
    assert!(a.texture.is_none());
    assert!(a.output.is_none());
    assert_eq!(a.resolution, 256);
    assert_eq!(a.interpolation, SampleMode::BiLinear);
    assert_eq!(a.lat, 128);
    assert_eq!(a.lng, 64);
}

#[test]
fn cube_alone() {
    let (a, r) = digest(&["blot", "cube"]);
    assert!(r.is_ok());
    assert_eq!(a.object, Some(ArgObject::Cube));
    assert_eq!(a.resolution, 256);
}

#[test]
fn every_option() {
    let (a, r) = digest(&[
        "blot", "UV", "--RESOLUTION", "512", "-i", "Bicubic", "--lat", "10", "--lng", "+20", "-t",
        "tex.png", "-o", "out.gif",
    ]);
    assert!(r.is_ok());
    assert_eq!(a.object, Some(ArgObject::UvSphere));
    assert_eq!(a.resolution, 512);
    assert_eq!(a.interpolation, SampleMode::BiCubic);
    assert_eq!(a.lat, 10);
    assert_eq!(a.lng, 20);
    assert_eq!(a.texture.as_deref(), Some("tex.png"));
    assert_eq!(a.output.as_deref(), Some("out.gif"));
}

#[test]
fn long_selectors() {
    let (a, r) = digest(&[
        "blot", "uv_sphere", "--texture", "a.png", "--out", "b.gif", "-r", "64",
        "--interpolation", "NEAREST",
    ]);
    assert!(r.is_ok());
    assert_eq!(a.texture.as_deref(), Some("a.png"));
    assert_eq!(a.output.as_deref(), Some("b.gif"));
    assert_eq!(a.resolution, 64);
    assert_eq!(a.interpolation, SampleMode::NearestNeighbor);
}

#[test]
fn object_is_required() {
    let (_, r) = digest(&["blot"]);
    assert_eq!(r, err("object", "Argument is required"));
}

#[test]
fn unknown_object() {
    let (a, r) = digest(&["blot", "cone"]);
    assert_eq!(r, err("object", "Not one of cube, uv_sphere"));
    assert!(a.object.is_none());
}

#[test]
fn unknown_selector() {
    let (a, r) = digest(&["blot", "cube", "-r", "32", "--foo", "-r", "64"]);
    assert_eq!(r, err("selector", "Unrecognized selector --foo"));
    assert_eq!(a.resolution, 32);
}

#[test]
fn bad_numbers() {
    let (a, r) = digest(&["blot", "cube", "--resolution", "70000"]);
    assert_eq!(r, err("resolution", "Invalid resolution (70000)"));
    assert_eq!(a.resolution, 256);
    let (_, r) = digest(&["blot", "cube", "--lat", "-5"]);
    assert_eq!(r, err("lat", "Invalid latitude step count (-5)"));
    let (_, r) = digest(&["blot", "cube", "--lng", ""]);
    assert_eq!(r, err("lng", "Invalid longitude step count ()"));
}

#[test]
fn bad_sample_mode() {
    let (_, r) = digest(&["blot", "cube", "-i", "cubic"]);
    assert_eq!(r, err("interpolation", "Unrecognized sample mode (cubic)"));
}

#[test]
fn selector_without_value_is_accepted() {
    let (a, r) = digest(&["blot", "cube", "--out"]);
    assert!(r.is_ok());
    assert!(a.output.is_none());
}

#[test]
fn error_description() {
    let mut a = Args::new();
    let e = a.digest(&argv(&["blot", "sphere"]), 1).unwrap_err();
    assert_eq!(e.describe(), "object: Not one of cube, uv_sphere");
}

#[test]
fn numbers() {
    assert_eq!(parse_u16("0"), Some(0));
    assert_eq!(parse_u16("007"), Some(7));
    assert_eq!(parse_u16("+65535"), Some(65535));
    assert_eq!(parse_u16("65536"), None);
    assert_eq!(parse_u16("99999999999"), None);
    assert_eq!(parse_u16("+"), None);
    assert_eq!(parse_u16(""), None);
    assert_eq!(parse_u16("-0"), None);
    assert_eq!(parse_u16(" 1"), None);
    assert_eq!(parse_u16("1a"), None);
    assert_eq!(parse_u16("١"), None);
}

#[test]
fn case_folding() {
    assert!(eq_ignore_ascii_case("CuBe", "cube"));
    assert!(eq_ignore_ascii_case("", ""));
    assert!(!eq_ignore_ascii_case("cube", "cubes"));
    assert!(!eq_ignore_ascii_case("[", "{"));
    assert!(eq_ignore_ascii_case("Ünï", "Ünï"));
    assert!(!eq_ignore_ascii_case("ü", "Ü"));
}
