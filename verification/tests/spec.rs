//! The schema is the contract agents write against: anything outside the
//! vocabulary must fail loudly, with the scene it came from.

use taller_film::binary32::{in_range, FOUR, HALF, ONE, ONE_TENTH, TWENTY, ZERO};
use taller_film::storyboard::{CameraMove, CameraPoint, Element, Rule, SceneSpec, Spec, SpecError};
use taller_film::timeline::FilmTimeline;
use taller_film::vocabulary::{
    blank, default_format, default_motion, default_shot, default_style, drawable, formats,
    kinds, motions, one, one_of, shots, styles, undrawable_message,
};

fn bits(v: f32) -> u32 {
    v.to_bits()
}

fn boat() -> Element {
    Element {
        kind: "boat".to_string(),
        x: bits(0.5),
        y: bits(0.5),
        scale: one(),
        label: None,
        motion: default_motion(),
    }
}

fn scene_one() -> SceneSpec {
    SceneSpec {
        name: "one".to_string(),
        duration: bits(2.0),
        shot: "wide".to_string(),
        camera: None,
        elements: vec![boat()],
        caption: None,
        style: None,
    }
}

/// The smallest spec the schema accepts: one 16:9 scene with a boat.
fn minimal() -> Spec {
    Spec {
        title: "Test".to_string(),
        format: "16:9".to_string(),
        style: "paper_ink".to_string(),
        scenes: vec![scene_one()],
    }
}

fn err(spec: &Spec) -> SpecError {
    spec.validate().expect_err("spec should be rejected")
}

fn msg(spec: &Spec) -> String {
    err(spec).message()
}

#[test]
fn minimal_spec_is_valid() {
    let spec = minimal();
    assert!(spec.validate().is_ok());
    assert_eq!(spec.size(320), (320, 180));
    let mut timeline = FilmTimeline::new();
    timeline.add_scene(48);
    assert_eq!(timeline.key_frames().len(), 1);
}

#[test]
fn closed_vocabularies() {
    let mut s = minimal();
    s.style = "watercolor".to_string();
    assert!(msg(&s).contains("style"));

    let mut s = minimal();
    s.scenes[0].elements[0].kind = "dragon".to_string();
    assert!(msg(&s).contains("kind"));

    let mut s = minimal();
    s.scenes[0].shot = "dutch".to_string();
    assert!(msg(&s).contains("shot"));

    let mut s = minimal();
    s.format = "4:3".to_string();
    assert!(msg(&s).contains("format"));
}

#[test]
fn ranges_are_enforced() {
    let mut s = minimal();
    s.scenes[0].duration = bits(60.0);
    assert!(msg(&s).contains("duration"));

    let mut s = minimal();
    s.scenes[0].elements[0].x = bits(1.5);
    assert!(msg(&s).contains("scene 1 (one)"));
}

#[test]
fn text_needs_a_drawable_label() {
    let mut s = minimal();
    s.scenes[0].elements[0].kind = "text".to_string();
    assert!(msg(&s).contains("label"));

    let mut s = minimal();
    s.scenes[0].caption = Some("hi 🙂".to_string());
    assert!(msg(&s).contains("cannot be drawn"));
}

#[test]
fn float_patterns_match_the_numbers() {
    assert_eq!(ZERO, bits(0.0));
    assert_eq!(ONE_TENTH, bits(0.1));
    assert_eq!(HALF, bits(0.5));
    assert_eq!(ONE, bits(1.0));
    assert_eq!(FOUR, bits(4.0));
    assert_eq!(TWENTY, bits(20.0));
}

#[test]
fn range_checks_compare_like_ieee() {
    for v in [0.0f32, -0.0, 0.25, 1.0, 0.999, 1.0001, -0.5, 2.0, f32::NAN, f32::INFINITY, f32::NEG_INFINITY, f32::MIN_POSITIVE, -f32::MIN_POSITIVE] {
        assert_eq!(in_range(bits(v), ZERO, ONE), (0.0..=1.0).contains(&v), "{v}");
        assert_eq!(in_range(bits(v), HALF, TWENTY), (0.5..=20.0).contains(&v), "{v}");
        assert_eq!(in_range(bits(v), ONE_TENTH, FOUR), (0.1..=4.0).contains(&v), "{v}");
    }
    assert!(in_range(bits(-0.0), ZERO, ONE));
    assert!(!in_range(bits(f32::NAN), ZERO, ONE));
}

#[test]
fn format_error_lists_the_vocabulary() {
    let mut s = minimal();
    s.format = "4:3".to_string();
    let e = err(&s);
    assert_eq!(e.rule, Rule::Format);
    assert_eq!(e.scene, None);
    assert_eq!(e.message(), "format: '4:3' is not one of 1:1, 16:9, 9:16");
}

#[test]
fn style_error_lists_the_vocabulary() {
    let mut s = minimal();
    s.style = "watercolor".to_string();
    assert_eq!(
        msg(&s),
        "style: 'watercolor' is not one of paper_ink, riso_pop, screen_sea, pencil_minimal, blueprint_night"
    );
}

#[test]
fn blank_title_is_rejected() {
    let mut s = minimal();
    s.title = " \t\u{3000}".to_string();
    let e = err(&s);
    assert_eq!(e.rule, Rule::Title);
    assert_eq!(e.message(), "title is empty");
    s.title = " x ".to_string();
    assert!(s.validate().is_ok());
}

#[test]
fn scene_count_is_bounded() {
    let mut s = minimal();
    s.scenes.clear();
    let e = err(&s);
    assert_eq!(e.rule, Rule::SceneCount);
    assert_eq!(e.message(), "a spec needs 1 to 24 scenes, got 0");

    let mut s = minimal();
    s.scenes = (0..25).map(|_| scene_one()).collect();
    assert_eq!(msg(&s), "a spec needs 1 to 24 scenes, got 25");

    let mut s = minimal();
    s.scenes = (0..24).map(|_| scene_one()).collect();
    assert!(s.validate().is_ok());
}

#[test]
fn duration_error_carries_the_value() {
    let mut s = minimal();
    s.scenes[0].duration = bits(0.4);
    let e = err(&s);
    assert_eq!(e.rule, Rule::Duration);
    assert_eq!(e.scene, Some(0));
    assert_eq!(e.value, Some(bits(0.4)));
    assert_eq!(e.message(), "scene 1 (one): duration must be between 0.5 and 20 seconds");
    s.scenes[0].duration = bits(20.0);
    assert!(s.validate().is_ok());
    s.scenes[0].duration = bits(0.5);
    assert!(s.validate().is_ok());
}

#[test]
fn the_first_broken_scene_is_named() {
    let mut s = minimal();
    s.scenes = vec![scene_one(), scene_one(), scene_one()];
    s.scenes[2].name = "harbour".to_string();
    s.scenes[2].shot = "dutch".to_string();
    s.scenes[1].name = "fly-by".to_string();
    s.scenes[1].elements[0].motion = "spin".to_string();
    let e = err(&s);
    assert_eq!(e.rule, Rule::ElementMotion);
    assert_eq!(e.scene, Some(1));
    assert_eq!(e.element, Some(0));
    assert_eq!(e.message(), "scene 2 (fly-by): element motion: 'spin' is not one of still, bob, drift, rise");
}

#[test]
fn scene_style_and_caption_rules() {
    let mut s = minimal();
    s.scenes[0].style = Some("neon".to_string());
    assert_eq!(err(&s).rule, Rule::SceneStyle);
    assert!(msg(&s).starts_with("scene 1 (one): style: 'neon'"));

    let mut s = minimal();
    s.scenes[0].caption = Some("A".repeat(81));
    let e = err(&s);
    assert_eq!(e.rule, Rule::CaptionLength);
    assert_eq!(e.message(), "scene 1 (one): caption longer than 80 characters");
    s.scenes[0].caption = Some("a".repeat(80));
    assert!(s.validate().is_ok());

    let mut s = minimal();
    s.scenes[0].caption = Some("hi 🙂".to_string());
    let e = err(&s);
    assert_eq!(e.rule, Rule::CaptionText);
    assert_eq!(
        e.message(),
        "scene 1 (one): caption: character '🙂' cannot be drawn (allowed: letters, digits and \" .:-/°(),'!?\")"
    );
}

#[test]
fn camera_framings_are_checked_in_order() {
    let p = CameraPoint { x: bits(0.5), y: bits(0.5), zoom: one() };
    let mut s = minimal();
    s.scenes[0].camera = Some(CameraMove { from: p, to: p });
    assert!(s.validate().is_ok());

    s.scenes[0].camera = Some(CameraMove { from: p, to: CameraPoint { x: bits(0.2), y: bits(-0.1), zoom: bits(9.0) } });
    let e = err(&s);
    assert_eq!(e.rule, Rule::CameraY);
    assert_eq!(e.value, Some(bits(-0.1)));
    assert_eq!(e.message(), "scene 1 (one): camera y must be between 0 and 1");

    s.scenes[0].camera = Some(CameraMove { from: CameraPoint { x: bits(0.5), y: bits(0.5), zoom: bits(0.4) }, to: p });
    let e = err(&s);
    assert_eq!(e.rule, Rule::CameraZoom);
    assert_eq!(e.message(), "scene 1 (one): camera zoom must be between 0.5 and 4");

    s.scenes[0].camera = Some(CameraMove { from: CameraPoint { x: bits(f32::NAN), y: bits(0.5), zoom: one() }, to: p });
    assert_eq!(err(&s).rule, Rule::CameraX);
}

#[test]
fn element_rules() {
    let mut s = minimal();
    s.scenes[0].elements = (0..9).map(|_| boat()).collect();
    let e = err(&s);
    assert_eq!(e.rule, Rule::ElementCount);
    assert_eq!(e.message(), "scene 1 (one): at most 8 elements");

    let mut s = minimal();
    s.scenes[0].elements = vec![boat(), boat()];
    s.scenes[0].elements[1].y = bits(1.01);
    let e = err(&s);
    assert_eq!(e.rule, Rule::ElementY);
    assert_eq!(e.element, Some(1));
    assert_eq!(e.message(), "scene 1 (one): element y must be between 0 and 1");

    let mut s = minimal();
    s.scenes[0].elements[0].scale = bits(0.05);
    let e = err(&s);
    assert_eq!(e.rule, Rule::ElementScale);
    assert_eq!(e.message(), "scene 1 (one): element scale must be between 0.1 and 4");

    let mut s = minimal();
    s.scenes[0].elements[0].kind = "product".to_string();
    s.scenes[0].elements[0].label = Some(String::new());
    let e = err(&s);
    assert_eq!(e.rule, Rule::MissingLabel);
    assert_eq!(e.message(), "scene 1 (one): a product element needs a label");
    s.scenes[0].elements[0].label = Some("Lumen, 2x!".to_string());
    assert!(s.validate().is_ok());
    s.scenes[0].elements[0].label = Some("Lumen_2".to_string());
    let e = err(&s);
    assert_eq!(e.rule, Rule::LabelText);
    assert_eq!(
        e.message(),
        "scene 1 (one): element label: character '_' cannot be drawn (allowed: letters, digits and \" .:-/°(),'!?\")"
    );
}

#[test]
fn one_of_and_drawable() {
    let fs = formats();
    assert!(one_of("format", "9:16", &fs).is_ok());
    assert_eq!(one_of("f", "x", &fs).unwrap_err(), "f: 'x' is not one of 1:1, 16:9, 9:16");
    assert_eq!(one_of("f", "x", &[]).unwrap_err(), "f: 'x' is not one of ");
    assert!(drawable("t", "Hello, World (1/2): 10°? Yes!").is_ok());
    assert!(drawable("t", "").is_ok());
    assert_eq!(
        drawable("t", "caf\u{e9}").unwrap_err(),
        "t: character '\u{e9}' cannot be drawn (allowed: letters, digits and \" .:-/°(),'!?\")"
    );
    assert_eq!(
        drawable("t", "a\nb").unwrap_err(),
        "t: character '\\n' cannot be drawn (allowed: letters, digits and \" .:-/°(),'!?\")"
    );
    assert!(blank(""));
    assert!(blank(" \n\u{2028}"));
    assert!(!blank(" a"));
}

#[test]
fn defaults_belong_to_their_vocabularies() {
    assert_eq!(default_format(), "1:1");
    assert_eq!(default_style(), "paper_ink");
    assert_eq!(default_shot(), "wide");
    assert_eq!(default_motion(), "still");
    assert_eq!(one(), bits(1.0));
    assert!(formats().contains(&default_format().as_str()));
    assert!(styles().contains(&default_style().as_str()));
    assert!(shots().contains(&default_shot().as_str()));
    assert!(motions().contains(&default_motion().as_str()));
    assert_eq!(kinds(), vec!["boat", "fly", "balloon", "tortoise", "product", "text"]);
}

#[test]
fn frame_sizes() {
    let mut s = minimal();
    assert_eq!(s.size(1920), (1920, 1080));
    assert_eq!(s.size(100), (100, 56));
    assert_eq!(s.size(0), (0, 1));
    s.format = "9:16".to_string();
    assert_eq!(s.size(1080), (1080, 1920));
    assert_eq!(s.size(100), (100, 178));
    s.format = "1:1".to_string();
    assert_eq!(s.size(512), (512, 512));
    assert_eq!(s.size(u32::MAX), (u32::MAX, u32::MAX));
}

#[test]
fn undrawable_messages_quote_the_character() {
    assert_eq!(
        undrawable_message("scene 1 (one): caption", "'~'"),
        "scene 1 (one): caption: character '~' cannot be drawn (allowed: letters, digits and \" .:-/°(),'!?\")"
    );
}

fn f32_height(format: &str, width: u32) -> u32 {
    let (w, h) = match format {
        "16:9" => (16, 9),
        "9:16" => (9, 16),
        _ => (1, 1),
    };
    let height = (width as f32 * h as f32 / w as f32).round() as u32;
    height.max(1)
}

#[test]
fn frame_sizes_match_single_precision() {
    let mut widths: Vec<u32> = (0..70_000).collect();
    widths.extend([16_777_215, 16_777_216, 16_777_217, 16_777_219, 33_554_435, u32::MAX, u32::MAX - 1, 1 << 31]);
    let mut x: u64 = 0x2545_f491_4f6c_dd1d;
    for _ in 0..200_000 {
        x = x.wrapping_mul(6364136223846793005).wrapping_add(1442695040888963407);
        widths.push((x >> 32) as u32);
    }
    for format in ["16:9", "9:16", "1:1"] {
        let mut s = minimal();
        s.format = format.to_string();
        for &w in &widths {
            assert_eq!(s.size(w), (w, f32_height(format, w)), "{format} {w}");
        }
    }
    let mut s = minimal();
    s.format = "16:9".to_string();
    assert_eq!(s.size(16_777_217).1, 9_437_184);
}
