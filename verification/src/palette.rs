//! The named palettes styles draw with, and two fixed colour sets.
use vstd::prelude::*;

verus! {

/// A colour as the six hex digits `#RRGGBB` name it.
#[derive(Clone, Copy, Debug, PartialEq, Eq, Structural)]
pub struct Color {
    pub r: u8,
    pub g: u8,
    pub b: u8,
}

/// The colour with the given components.
pub open spec fn rgb(r: u8, g: u8, b: u8) -> Color {
    Color { r, g, b }
}

/// The palettes a film or scene can be drawn with, one per style.
#[derive(Clone, Copy, Debug, PartialEq, Eq, Structural)]
pub enum Palette {
    PaperInk,
    RisoPop,
    ScreenSea,
    PencilMinimal,
    BlueprintNight,
}

/// The palette of a style name; any other name draws in paper and ink.
pub open spec fn palette_named(name: Seq<char>) -> Palette {
    if name == "riso_pop"@ {
        Palette::RisoPop
    } else if name == "screen_sea"@ {
        Palette::ScreenSea
    } else if name == "pencil_minimal"@ {
        Palette::PencilMinimal
    } else if name == "blueprint_night"@ {
        Palette::BlueprintNight
    } else {
        Palette::PaperInk
    }
}

/// Each style of the schema has a palette of its own: two style names that
/// select the same palette are the same name.
pub proof fn lemma_styles_have_own_palettes(a: Seq<char>, b: Seq<char>)
    requires
        crate::vocabulary::style_names().contains(a),
        crate::vocabulary::style_names().contains(b),
        palette_named(a) == palette_named(b),
    ensures
        a == b,
{
    reveal_strlit("paper_ink");
    reveal_strlit("riso_pop");
    reveal_strlit("screen_sea");
    reveal_strlit("pencil_minimal");
    reveal_strlit("blueprint_night");
    let names = crate::vocabulary::style_names();
    let i = choose|i: int| 0 <= i < names.len() && names[i] == a;
    let j = choose|j: int| 0 <= j < names.len() && names[j] == b;
    assert(names[0][0] != names[1][0]);
    assert(names[0] != names[1]);
    assert(names[0] != names[2]);
    assert(names[0][1] != names[3][1]);
    assert(names[0] != names[3]);
    assert(names[0] != names[4]);
    assert(names[1][0] != names[2][0]);
    assert(names[1] != names[2]);
    assert(names[1][0] != names[3][0]);
    assert(names[1] != names[3]);
    assert(names[1] != names[4]);
    assert(names[2] != names[3]);
    assert(names[2] != names[4]);
    assert(names[3] != names[4]);
}

/// Each style name selects its own palette, and every other name the
/// paper-and-ink one.
pub proof fn lemma_palette_of_each_name(name: Seq<char>)
    ensures
        name == "riso_pop"@ ==> palette_named(name) == Palette::RisoPop,
        name == "screen_sea"@ ==> palette_named(name) == Palette::ScreenSea,
        name == "pencil_minimal"@ ==> palette_named(name) == Palette::PencilMinimal,
        name == "blueprint_night"@ ==> palette_named(name) == Palette::BlueprintNight,
        name != "riso_pop"@ && name != "screen_sea"@ && name != "pencil_minimal"@
            && name != "blueprint_night"@ ==> palette_named(name) == Palette::PaperInk,
{
    reveal_strlit("riso_pop");
    reveal_strlit("screen_sea");
    reveal_strlit("pencil_minimal");
    reveal_strlit("blueprint_night");
    assert("riso_pop"@ != "screen_sea"@) by { assert("riso_pop"@[0] != "screen_sea"@[0]); }
    assert("riso_pop"@ != "pencil_minimal"@) by { assert("riso_pop"@[0] != "pencil_minimal"@[0]); }
    assert("riso_pop"@ != "blueprint_night"@) by { assert("riso_pop"@[0] != "blueprint_night"@[0]); }
    assert("screen_sea"@ != "pencil_minimal"@) by { assert("screen_sea"@[0] != "pencil_minimal"@[0]); }
    assert("screen_sea"@ != "blueprint_night"@) by { assert("screen_sea"@[0] != "blueprint_night"@[0]); }
    assert("pencil_minimal"@ != "blueprint_night"@) by { assert("pencil_minimal"@[0] != "blueprint_night"@[0]); }
}

/// The palette a style name selects.
pub fn palette(name: &str) -> (p: Palette)
    ensures
        p == palette_named(name@),
{
    if crate::text::same_text(name, "riso_pop") {
        Palette::RisoPop
    } else if crate::text::same_text(name, "screen_sea") {
        Palette::ScreenSea
    } else if crate::text::same_text(name, "pencil_minimal") {
        Palette::PencilMinimal
    } else if crate::text::same_text(name, "blueprint_night") {
        Palette::BlueprintNight
    } else {
        Palette::PaperInk
    }
}

/// Colours of the realist Macondo plates: paper, inks, golds, woods, leaves and iron.
#[derive(Clone, Copy, Debug, PartialEq, Eq)]
pub struct MacondoRealistaPalette {
    pub paper_cream: Color,
    pub paper_grain: Color,
    pub ink_sepia: Color,
    pub ink_dark: Color,
    pub gold_high: Color,
    pub gold_base: Color,
    pub gold_deep: Color,
    pub brass_bell: Color,
    pub ruby_eye: Color,
    pub wood_spruce: Color,
    pub wood_cedar: Color,
    pub wood_ebony: Color,
    pub silver_key: Color,
    pub leaf_emerald: Color,
    pub leaf_deep: Color,
    pub butterfly_yellow: Color,
    pub butterfly_orange: Color,
    pub linen_white: Color,
    pub iron_chain: Color,
    pub iron_shadow: Color,
}

impl Default for MacondoRealistaPalette {
    fn default() -> (p: Self)
        ensures
            p.paper_cream == rgb(0xFA, 0xF5, 0xEA),
            p.paper_grain == rgb(0xEF, 0xE4, 0xD0),
            p.ink_sepia == rgb(0x38, 0x23, 0x15),
            p.ink_dark == rgb(0x1F, 0x13, 0x0B),
            p.gold_high == rgb(0xFF, 0xFB, 0xE0),
            p.gold_base == rgb(0xF6, 0xC4, 0x32),
            p.gold_deep == rgb(0xA8, 0x76, 0x0C),
            p.brass_bell == rgb(0xDD, 0xA8, 0x23),
            p.ruby_eye == rgb(0xD9, 0x18, 0x3B),
            p.wood_spruce == rgb(0xE2, 0xB3, 0x71),
            p.wood_cedar == rgb(0x99, 0x49, 0x21),
            p.wood_ebony == rgb(0x1B, 0x19, 0x19),
            p.silver_key == rgb(0xE8, 0xEC, 0xF2),
            p.leaf_emerald == rgb(0x2C, 0x7E, 0x3A),
            p.leaf_deep == rgb(0x14, 0x43, 0x1C),
            p.butterfly_yellow == rgb(0xFF, 0xDF, 0x00),
            p.butterfly_orange == rgb(0xFF, 0xA0, 0x00),
            p.linen_white == rgb(0xFC, 0xFD, 0xFD),
            p.iron_chain == rgb(0x6B, 0x72, 0x80),
            p.iron_shadow == rgb(0x37, 0x41, 0x51),
    {
        MacondoRealistaPalette {
            paper_cream: Color { r: 0xFA, g: 0xF5, b: 0xEA },
            paper_grain: Color { r: 0xEF, g: 0xE4, b: 0xD0 },
            ink_sepia: Color { r: 0x38, g: 0x23, b: 0x15 },
            ink_dark: Color { r: 0x1F, g: 0x13, b: 0x0B },
            gold_high: Color { r: 0xFF, g: 0xFB, b: 0xE0 },
            gold_base: Color { r: 0xF6, g: 0xC4, b: 0x32 },
            gold_deep: Color { r: 0xA8, g: 0x76, b: 0x0C },
            brass_bell: Color { r: 0xDD, g: 0xA8, b: 0x23 },
            ruby_eye: Color { r: 0xD9, g: 0x18, b: 0x3B },
            wood_spruce: Color { r: 0xE2, g: 0xB3, b: 0x71 },
            wood_cedar: Color { r: 0x99, g: 0x49, b: 0x21 },
            wood_ebony: Color { r: 0x1B, g: 0x19, b: 0x19 },
            silver_key: Color { r: 0xE8, g: 0xEC, b: 0xF2 },
            leaf_emerald: Color { r: 0x2C, g: 0x7E, b: 0x3A },
            leaf_deep: Color { r: 0x14, g: 0x43, b: 0x1C },
            butterfly_yellow: Color { r: 0xFF, g: 0xDF, b: 0x00 },
            butterfly_orange: Color { r: 0xFF, g: 0xA0, b: 0x00 },
            linen_white: Color { r: 0xFC, g: 0xFD, b: 0xFD },
            iron_chain: Color { r: 0x6B, g: 0x72, b: 0x80 },
            iron_shadow: Color { r: 0x37, g: 0x41, b: 0x51 },
        }
    }
}
/// Colours of the monarch butterfly plates: wing orange and black, white spots, chrysalis jade and gold, leaves.
#[derive(Clone, Copy, Debug, PartialEq, Eq)]
pub struct MonarchPalette {
    pub orange_rich: Color,
    pub orange_light: Color,
    pub velvet_black: Color,
    pub vein_black: Color,
    pub spot_white: Color,
    pub thorax_black: Color,
    pub jade_chrysalis: Color,
    pub gold_suture: Color,
    pub caterpillar_yellow: Color,
    pub leaf_green: Color,
    pub leaf_vein: Color,
}

impl Default for MonarchPalette {
    fn default() -> (p: Self)
        ensures
            p.orange_rich == rgb(0xDF, 0x5E, 0x18),
            p.orange_light == rgb(0xF2, 0x86, 0x38),
            p.velvet_black == rgb(0x16, 0x14, 0x13),
            p.vein_black == rgb(0x11, 0x0F, 0x0E),
            p.spot_white == rgb(0xFC, 0xFB, 0xF7),
            p.thorax_black == rgb(0x1A, 0x17, 0x16),
            p.jade_chrysalis == rgb(0x38, 0xA8, 0x72),
            p.gold_suture == rgb(0xE5, 0xBE, 0x38),
            p.caterpillar_yellow == rgb(0xFA, 0xD0, 0x2C),
            p.leaf_green == rgb(0x68, 0x9F, 0x66),
            p.leaf_vein == rgb(0x4A, 0x7A, 0x48),
    {
        MonarchPalette {
            orange_rich: Color { r: 0xDF, g: 0x5E, b: 0x18 },
            orange_light: Color { r: 0xF2, g: 0x86, b: 0x38 },
            velvet_black: Color { r: 0x16, g: 0x14, b: 0x13 },
            vein_black: Color { r: 0x11, g: 0x0F, b: 0x0E },
            spot_white: Color { r: 0xFC, g: 0xFB, b: 0xF7 },
            thorax_black: Color { r: 0x1A, g: 0x17, b: 0x16 },
            jade_chrysalis: Color { r: 0x38, g: 0xA8, b: 0x72 },
            gold_suture: Color { r: 0xE5, g: 0xBE, b: 0x38 },
            caterpillar_yellow: Color { r: 0xFA, g: 0xD0, b: 0x2C },
            leaf_green: Color { r: 0x68, g: 0x9F, b: 0x66 },
            leaf_vein: Color { r: 0x4A, g: 0x7A, b: 0x48 },
        }
    }
}
} // verus!
