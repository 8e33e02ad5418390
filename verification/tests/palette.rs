use taller_film::palette::{palette, Color, MacondoRealistaPalette, MonarchPalette, Palette};
use taller_film::scene::SpecScene;
use taller_film::storyboard::SceneSpec;

#[test]
fn styles_select_their_palettes() {
    assert_eq!(palette("paper_ink"), Palette::PaperInk);
    assert_eq!(palette("riso_pop"), Palette::RisoPop);
    assert_eq!(palette("screen_sea"), Palette::ScreenSea);
    assert_eq!(palette("pencil_minimal"), Palette::PencilMinimal);
    assert_eq!(palette("blueprint_night"), Palette::BlueprintNight);
    assert_eq!(palette("watercolor"), Palette::PaperInk);
}

fn scene(style: Option<&str>) -> SceneSpec {
    SceneSpec {
        name: "dock".to_string(),
        duration: 3.0f32.to_bits(),
        shot: "wide".to_string(),
        camera: None,
        elements: vec![],
        caption: None,
        style: style.map(|s| s.to_string()),
    }
}

#[test]
fn scenes_use_their_own_style_first() {
    let s = SpecScene::new(scene(Some("riso_pop")), "blueprint_night", 72);
    assert_eq!(s.palette(), Palette::RisoPop);
    assert_eq!(s.duration_frames(), 72);
    assert_eq!(s.name(), "dock");
    let s = SpecScene::new(scene(None), "blueprint_night", 72);
    assert_eq!(s.palette(), Palette::BlueprintNight);
}

#[test]
fn fixed_palettes_hold_their_hex_colours() {
    let m = MacondoRealistaPalette::default();
    assert_eq!(m.paper_cream, Color { r: 0xFA, g: 0xF5, b: 0xEA });
    assert_eq!(m.ruby_eye, Color { r: 0xD9, g: 0x18, b: 0x3B });
    assert_eq!(m.iron_shadow, Color { r: 0x37, g: 0x41, b: 0x51 });
    let b = MonarchPalette::default();
    assert_eq!(b.orange_rich, Color { r: 0xdf, g: 0x5e, b: 0x18 });
    assert_eq!(b.leaf_vein, Color { r: 0x4a, g: 0x7a, b: 0x48 });
}
