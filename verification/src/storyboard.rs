//! A storyboard spec: a title, a frame format, a style and up to
//! twenty-four scenes of puppets, captions and camera moves. `validate`
//! rejects anything outside the schema, naming the scene it came from, before
//! a frame is drawn.
//!
//! Numeric fields hold `f32` values as their bit patterns (see `binary32`).
use vstd::prelude::*;
use vstd::string::*;
use crate::binary32::{
    bit_length, in_range, lemma_bit_length_at_most, rounded_binary32_quotient,
    rounded_f32_quotient, whole_to_binary32, whole_to_f32_value, within, FOUR, HALF, ONE, ONE_TENTH,
    TWENTY, ZERO,
};
use crate::text::{decimal_text, push_decimal, same_text};
use crate::vocabulary::{
    all_drawable, blank, lemma_first_undrawable_none, drawable, first_undrawable, format_names, formats, is_blank, kind_names, kinds,
    motion_names, motions, one_of, one_of_text, shot_names, shots, style_names, styles,
    undrawable_text,
};

verus! {

/// Most scenes a spec may hold.
pub const MAX_SCENES: usize = 24;

/// Most elements a scene may hold.
pub const MAX_ELEMENTS: usize = 8;

/// Longest caption, in characters.
pub const MAX_CAPTION_CHARS: usize = 80;

/// One framing of the camera: the point it centres on, as fractions of the
/// frame, and its zoom.
#[derive(Clone, Copy, Debug, PartialEq, Eq)]
pub struct CameraPoint {
    pub x: u32,
    pub y: u32,
    pub zoom: u32,
}

/// A camera move across the scene, eased from one framing to another.
#[derive(Clone, Copy, Debug, PartialEq, Eq)]
pub struct CameraMove {
    pub from: CameraPoint,
    pub to: CameraPoint,
}

/// A puppet, product card or text placed in a scene.
#[derive(Clone, Debug)]
pub struct Element {
    pub kind: String,
    pub x: u32,
    pub y: u32,
    pub scale: u32,
    pub label: Option<String>,
    pub motion: String,
}

/// One scene of a storyboard.
#[derive(Clone, Debug)]
pub struct SceneSpec {
    pub name: String,
    /// Seconds on screen.
    pub duration: u32,
    pub shot: String,
    pub camera: Option<CameraMove>,
    pub elements: Vec<Element>,
    pub caption: Option<String>,
    /// A style for this scene alone, in place of the spec's.
    pub style: Option<String>,
}

/// A whole storyboard.
#[derive(Clone, Debug)]
pub struct Spec {
    pub title: String,
    pub format: String,
    pub style: String,
    pub scenes: Vec<SceneSpec>,
}

/// The schema rule that a rejected spec breaks.
#[derive(Clone, Copy, Debug, PartialEq, Eq)]
pub enum Rule {
    Format,
    Style,
    Title,
    SceneCount,
    Duration,
    Shot,
    SceneStyle,
    CaptionLength,
    CaptionText,
    CameraX,
    CameraY,
    CameraZoom,
    ElementCount,
    ElementKind,
    ElementMotion,
    ElementX,
    ElementY,
    ElementScale,
    MissingLabel,
    LabelText,
}

/// Why a spec was rejected: the rule, where it broke (scene and element
/// indices, from 0), the offending number's bit pattern for range rules,
/// and a message for people.
#[derive(Clone, Debug)]
pub struct SpecError {
    pub rule: Rule,
    pub scene: Option<usize>,
    pub element: Option<usize>,
    pub value: Option<u32>,
    pub message: String,
}

/// A rejection as a mathematical value: `SpecError` with its message as text.
pub struct Fault {
    pub rule: Rule,
    pub scene: Option<usize>,
    pub element: Option<usize>,
    pub value: Option<u32>,
    pub text: Seq<char>,
}

impl View for SpecError {
    type V = Fault;

    open spec fn view(&self) -> Fault {
        Fault {
            rule: self.rule,
            scene: self.scene,
            element: self.element,
            value: self.value,
            text: self.message@,
        }
    }
}

impl SpecError {
    /// The message for people.
    pub fn message(&self) -> (s: String)
        ensures
            s@ == self.message@,
    {
        self.message.clone()
    }
}

/// How messages name a scene: `scene 3 (harbour)`, counting from 1.
pub open spec fn at_text(i: int, name: Seq<char>) -> Seq<char> {
    "scene "@ + decimal_text((i + 1) as nat) + " ("@ + name + ")"@
}

/// Kinds that only make sense with a label.
pub open spec fn needs_label(kind: Seq<char>) -> bool {
    kind == "product"@ || kind == "text"@
}

/// No label, or an empty one.
pub open spec fn label_missing(label: Option<String>) -> bool {
    match label {
        None => true,
        Some(l) => l@.len() == 0,
    }
}

/// The first broken rule of one element, `j` of scene `i`.
pub open spec fn element_fault(i: int, j: int, at: Seq<char>, e: Element) -> Option<Fault> {
    let here = Some(i as usize);
    let el = Some(j as usize);
    if !kind_names().contains(e.kind@) {
        Some(Fault { rule: Rule::ElementKind, scene: here, element: el, value: None,
            text: one_of_text(at + ": element kind"@, e.kind@, kind_names()) })
    } else if !motion_names().contains(e.motion@) {
        Some(Fault { rule: Rule::ElementMotion, scene: here, element: el, value: None,
            text: one_of_text(at + ": element motion"@, e.motion@, motion_names()) })
    } else if !within(e.x, ZERO, ONE) {
        Some(Fault { rule: Rule::ElementX, scene: here, element: el, value: Some(e.x),
            text: at + ": element x must be between 0 and 1"@ })
    } else if !within(e.y, ZERO, ONE) {
        Some(Fault { rule: Rule::ElementY, scene: here, element: el, value: Some(e.y),
            text: at + ": element y must be between 0 and 1"@ })
    } else if !within(e.scale, ONE_TENTH, FOUR) {
        Some(Fault { rule: Rule::ElementScale, scene: here, element: el, value: Some(e.scale),
            text: at + ": element scale must be between 0.1 and 4"@ })
    } else if needs_label(e.kind@) && label_missing(e.label) {
        Some(Fault { rule: Rule::MissingLabel, scene: here, element: el, value: None,
            text: at + ": a "@ + e.kind@ + " element needs a label"@ })
    } else if e.label is Some && first_undrawable(e.label->0@) is Some {
        Some(Fault { rule: Rule::LabelText, scene: here, element: el, value: None,
            text: undrawable_text(at + ": element label"@, first_undrawable(e.label->0@)->0) })
    } else {
        None
    }
}

/// The first broken rule among elements `j..` of scene `i`.
pub open spec fn elements_fault(i: int, at: Seq<char>, es: Seq<Element>, j: int) -> Option<Fault>
    decreases es.len() - j,
{
    if j < 0 || j >= es.len() {
        None
    } else {
        match element_fault(i, j, at, es[j]) {
            Some(f) => Some(f),
            None => elements_fault(i, at, es, j + 1),
        }
    }
}

/// The first broken rule of one camera framing in scene `i`.
pub open spec fn point_fault(i: int, at: Seq<char>, p: CameraPoint) -> Option<Fault> {
    let here = Some(i as usize);
    if !within(p.x, ZERO, ONE) {
        Some(Fault { rule: Rule::CameraX, scene: here, element: None, value: Some(p.x),
            text: at + ": camera x must be between 0 and 1"@ })
    } else if !within(p.y, ZERO, ONE) {
        Some(Fault { rule: Rule::CameraY, scene: here, element: None, value: Some(p.y),
            text: at + ": camera y must be between 0 and 1"@ })
    } else if !within(p.zoom, HALF, FOUR) {
        Some(Fault { rule: Rule::CameraZoom, scene: here, element: None, value: Some(p.zoom),
            text: at + ": camera zoom must be between 0.5 and 4"@ })
    } else {
        None
    }
}

/// The first broken rule of a scene's camera move: its start, then its end.
pub open spec fn camera_fault(i: int, at: Seq<char>, camera: Option<CameraMove>) -> Option<Fault> {
    match camera {
        None => None,
        Some(c) => match point_fault(i, at, c.from) {
            Some(f) => Some(f),
            None => point_fault(i, at, c.to),
        },
    }
}

/// The first broken rule of a scene's caption: its length, then its characters.
pub open spec fn caption_fault(i: int, at: Seq<char>, caption: Option<String>) -> Option<Fault> {
    let here = Some(i as usize);
    match caption {
        None => None,
        Some(c) => if c@.len() > MAX_CAPTION_CHARS {
            Some(Fault { rule: Rule::CaptionLength, scene: here, element: None, value: None,
                text: at + ": caption longer than 80 characters"@ })
        } else if first_undrawable(c@) is Some {
            Some(Fault { rule: Rule::CaptionText, scene: here, element: None, value: None,
                text: undrawable_text(at + ": caption"@, first_undrawable(c@)->0) })
        } else {
            None
        },
    }
}

/// The first broken rule of scene `i`, in the order the schema checks them.
pub open spec fn scene_fault(i: int, sc: SceneSpec) -> Option<Fault> {
    let at = at_text(i, sc.name@);
    let here = Some(i as usize);
    if !within(sc.duration, HALF, TWENTY) {
        Some(Fault { rule: Rule::Duration, scene: here, element: None, value: Some(sc.duration),
            text: at + ": duration must be between 0.5 and 20 seconds"@ })
    } else if !shot_names().contains(sc.shot@) {
        Some(Fault { rule: Rule::Shot, scene: here, element: None, value: None,
            text: one_of_text(at + ": shot"@, sc.shot@, shot_names()) })
    } else if sc.style is Some && !style_names().contains(sc.style->0@) {
        Some(Fault { rule: Rule::SceneStyle, scene: here, element: None, value: None,
            text: one_of_text(at + ": style"@, sc.style->0@, style_names()) })
    } else if caption_fault(i, at, sc.caption) is Some {
        caption_fault(i, at, sc.caption)
    } else if camera_fault(i, at, sc.camera) is Some {
        camera_fault(i, at, sc.camera)
    } else if sc.elements.len() > MAX_ELEMENTS {
        Some(Fault { rule: Rule::ElementCount, scene: here, element: None, value: None,
            text: at + ": at most 8 elements"@ })
    } else {
        elements_fault(i, at, sc.elements@, 0)
    }
}

/// The first broken rule among scenes `i..`.
pub open spec fn scenes_fault(scenes: Seq<SceneSpec>, i: int) -> Option<Fault>
    decreases scenes.len() - i,
{
    if i < 0 || i >= scenes.len() {
        None
    } else {
        match scene_fault(i, scenes[i]) {
            Some(f) => Some(f),
            None => scenes_fault(scenes, i + 1),
        }
    }
}

/// The first broken rule of a spec, in the order the schema checks them:
/// format, style, title, number of scenes, then each scene in turn.
pub open spec fn spec_fault(s: Spec) -> Option<Fault> {
    if !format_names().contains(s.format@) {
        Some(Fault { rule: Rule::Format, scene: None, element: None, value: None,
            text: one_of_text("format"@, s.format@, format_names()) })
    } else if !style_names().contains(s.style@) {
        Some(Fault { rule: Rule::Style, scene: None, element: None, value: None,
            text: one_of_text("style"@, s.style@, style_names()) })
    } else if is_blank(s.title@) {
        Some(Fault { rule: Rule::Title, scene: None, element: None, value: None,
            text: "title is empty"@ })
    } else if s.scenes.len() == 0 || s.scenes.len() > MAX_SCENES {
        Some(Fault { rule: Rule::SceneCount, scene: None, element: None, value: None,
            text: "a spec needs 1 to 24 scenes, got "@ + decimal_text(s.scenes.len() as nat) })
    } else {
        scenes_fault(s.scenes@, 0)
    }
}

/// One element inside the schema.
pub open spec fn element_valid(e: Element) -> bool {
    &&& kind_names().contains(e.kind@)
    &&& motion_names().contains(e.motion@)
    &&& within(e.x, ZERO, ONE)
    &&& within(e.y, ZERO, ONE)
    &&& within(e.scale, ONE_TENTH, FOUR)
    &&& !(needs_label(e.kind@) && label_missing(e.label))
    &&& (e.label matches Some(l) ==> all_drawable(l@))
}

/// One camera framing inside the schema: centred in the frame, zoom 0.5 to 4.
pub open spec fn point_valid(p: CameraPoint) -> bool {
    within(p.x, ZERO, ONE) && within(p.y, ZERO, ONE) && within(p.zoom, HALF, FOUR)
}

/// One scene inside the schema.
pub open spec fn scene_valid(sc: SceneSpec) -> bool {
    &&& within(sc.duration, HALF, TWENTY)
    &&& shot_names().contains(sc.shot@)
    &&& (sc.style matches Some(st) ==> style_names().contains(st@))
    &&& (sc.caption matches Some(c) ==> c@.len() <= MAX_CAPTION_CHARS && all_drawable(c@))
    &&& (sc.camera matches Some(m) ==> point_valid(m.from) && point_valid(m.to))
    &&& sc.elements.len() <= MAX_ELEMENTS
    &&& forall|j: int| 0 <= j < sc.elements.len() ==> element_valid(#[trigger] sc.elements@[j])
}

/// A whole spec inside the schema.
pub open spec fn spec_valid(s: Spec) -> bool {
    &&& format_names().contains(s.format@)
    &&& style_names().contains(s.style@)
    &&& !is_blank(s.title@)
    &&& 1 <= s.scenes.len() <= MAX_SCENES
    &&& forall|i: int| 0 <= i < s.scenes.len() ==> scene_valid(#[trigger] s.scenes@[i])
}

proof fn lemma_element_fault_none(i: int, j: int, at: Seq<char>, e: Element)
    ensures
        element_fault(i, j, at, e) is None <==> element_valid(e),
{
    if e.label is Some {
        lemma_first_undrawable_none(e.label->0@);
    }
}

proof fn lemma_elements_fault_none(i: int, at: Seq<char>, es: Seq<Element>, j: int)
    requires
        0 <= j <= es.len(),
    ensures
        elements_fault(i, at, es, j) is None <==> forall|k: int| j <= k < es.len() ==> element_valid(#[trigger] es[k]),
    decreases es.len() - j,
{
    if j < es.len() {
        lemma_element_fault_none(i, j, at, es[j]);
        lemma_elements_fault_none(i, at, es, j + 1);
    }
}

proof fn lemma_scene_fault_none(i: int, sc: SceneSpec)
    ensures
        scene_fault(i, sc) is None <==> scene_valid(sc),
{
    let at = at_text(i, sc.name@);
    if sc.caption is Some {
        lemma_first_undrawable_none(sc.caption->0@);
    }
    lemma_elements_fault_none(i, at, sc.elements@, 0);
}

proof fn lemma_scenes_fault_none(scenes: Seq<SceneSpec>, i: int)
    requires
        0 <= i <= scenes.len(),
    ensures
        scenes_fault(scenes, i) is None <==> forall|k: int| i <= k < scenes.len() ==> scene_valid(#[trigger] scenes[k]),
    decreases scenes.len() - i,
{
    if i < scenes.len() {
        lemma_scene_fault_none(i, scenes[i]);
        lemma_scenes_fault_none(scenes, i + 1);
    }
}

/// The checks reject exactly the specs outside the schema: a spec has no
/// first broken rule if and only if it satisfies every rule.
pub proof fn lemma_fault_free_is_valid(s: Spec)
    ensures
        spec_fault(s) is None <==> spec_valid(s),
{
    lemma_scenes_fault_none(s.scenes@, 0);
}

/// What the element rules ask, in terms of the numbers themselves: an
/// element is inside the schema exactly when its kind and motion are in
/// their vocabularies, its x and y lie in `[0, 1]` (bit patterns `+0.0`
/// through `1.0`, or `-0.0`), its scale lies in `[0.1, 4]` (patterns of
/// `0.1` through `4.0`), a product or text has a non-empty label, and a
/// label is drawable.
pub proof fn lemma_element_rules_in_numbers(e: Element)
    ensures
        element_valid(e) <==> {
            &&& kind_names().contains(e.kind@)
            &&& motion_names().contains(e.motion@)
            &&& (e.x <= 0x3F80_0000 || e.x == 0x8000_0000)
            &&& (e.y <= 0x3F80_0000 || e.y == 0x8000_0000)
            &&& 0x3DCC_CCCD <= e.scale <= 0x4080_0000
            &&& !((e.kind@ == "product"@ || e.kind@ == "text"@)
                && (e.label is None || e.label->0@.len() == 0))
            &&& (e.label matches Some(l) ==> all_drawable(l@))
        },
{
}

/// What the scene rules ask, in terms of the numbers themselves: a
/// duration in `[0.5, 20]` seconds (patterns of `0.5` through `20.0`), a
/// shot and a style from their vocabularies, a caption of at most 80
/// drawable characters, camera framings centred in `[0, 1]` with zoom in
/// `[0.5, 4]`, and at most 8 elements, each inside the schema.
pub proof fn lemma_scene_rules_in_numbers(sc: SceneSpec)
    ensures
        scene_valid(sc) <==> {
            &&& 0x3F00_0000 <= sc.duration <= 0x41A0_0000
            &&& shot_names().contains(sc.shot@)
            &&& (sc.style matches Some(st) ==> style_names().contains(st@))
            &&& (sc.caption matches Some(c) ==> c@.len() <= 80 && all_drawable(c@))
            &&& (sc.camera matches Some(m) ==> {
                &&& (m.from.x <= 0x3F80_0000 || m.from.x == 0x8000_0000)
                &&& (m.from.y <= 0x3F80_0000 || m.from.y == 0x8000_0000)
                &&& 0x3F00_0000 <= m.from.zoom <= 0x4080_0000
                &&& (m.to.x <= 0x3F80_0000 || m.to.x == 0x8000_0000)
                &&& (m.to.y <= 0x3F80_0000 || m.to.y == 0x8000_0000)
                &&& 0x3F00_0000 <= m.to.zoom <= 0x4080_0000
            })
            &&& sc.elements.len() <= 8
            &&& forall|j: int| 0 <= j < sc.elements.len() ==> element_valid(#[trigger] sc.elements@[j])
        },
{
}

/// A spec is accepted exactly when its format and style are in their
/// vocabularies, its title holds something besides white space, and it has
/// 1 to 24 scenes, each inside the schema.
pub proof fn lemma_spec_rules_in_numbers(s: Spec)
    ensures
        spec_fault(s) is None <==> {
            &&& format_names().contains(s.format@)
            &&& style_names().contains(s.style@)
            &&& !is_blank(s.title@)
            &&& 1 <= s.scenes.len() <= 24
            &&& forall|i: int| 0 <= i < s.scenes.len() ==> scene_valid(#[trigger] s.scenes@[i])
        },
{
    lemma_fault_free_is_valid(s);
}

/// Moving one element of an accepted spec to any other x in `[0, 1]`
/// leaves the spec accepted.
pub proof fn lemma_moving_an_element_keeps_acceptance(s: Spec, t: Spec, i: int, j: int)
    requires
        spec_fault(s) is None,
        0 <= i < s.scenes.len(),
        0 <= j < s.scenes@[i].elements.len(),
        t.title == s.title,
        t.format == s.format,
        t.style == s.style,
        t.scenes.len() == s.scenes.len(),
        forall|k: int| 0 <= k < s.scenes.len() && k != i ==> t.scenes@[k] == s.scenes@[k],
        t.scenes@[i].name == s.scenes@[i].name,
        t.scenes@[i].duration == s.scenes@[i].duration,
        t.scenes@[i].shot == s.scenes@[i].shot,
        t.scenes@[i].camera == s.scenes@[i].camera,
        t.scenes@[i].caption == s.scenes@[i].caption,
        t.scenes@[i].style == s.scenes@[i].style,
        t.scenes@[i].elements.len() == s.scenes@[i].elements.len(),
        forall|m: int| 0 <= m < s.scenes@[i].elements.len() && m != j
            ==> t.scenes@[i].elements@[m] == s.scenes@[i].elements@[m],
        t.scenes@[i].elements@[j].kind == s.scenes@[i].elements@[j].kind,
        t.scenes@[i].elements@[j].y == s.scenes@[i].elements@[j].y,
        t.scenes@[i].elements@[j].scale == s.scenes@[i].elements@[j].scale,
        t.scenes@[i].elements@[j].label == s.scenes@[i].elements@[j].label,
        t.scenes@[i].elements@[j].motion == s.scenes@[i].elements@[j].motion,
        t.scenes@[i].elements@[j].x <= 0x3F80_0000 || t.scenes@[i].elements@[j].x == 0x8000_0000,
    ensures
        spec_fault(t) is None,
{
    lemma_fault_free_is_valid(s);
    lemma_fault_free_is_valid(t);
    let a = s.scenes@[i];
    let b = t.scenes@[i];
    lemma_element_rules_in_numbers(a.elements@[j]);
    lemma_element_rules_in_numbers(b.elements@[j]);
    assert(element_valid(b.elements@[j]));
    assert forall|m: int| 0 <= m < b.elements.len() implies element_valid(#[trigger] b.elements@[m]) by {
        if m != j {
            assert(b.elements@[m] == a.elements@[m]);
        }
    }
    assert(scene_valid(b));
    assert forall|k: int| 0 <= k < t.scenes.len() implies scene_valid(#[trigger] t.scenes@[k]) by {
        if k != i {
            assert(t.scenes@[k] == s.scenes@[k]);
        }
    }
}

fn scene_location(i: usize, name: &str) -> (s: String)
    requires
        i < MAX_SCENES,
    ensures
        s@ == at_text(i as int, name@),
{
    let mut s = "scene ".to_owned();
    push_decimal(&mut s, i + 1);
    s.append(" (");
    s.append(name);
    s.append(")");
    s
}

fn with_suffix(at: &String, suffix: &str) -> (s: String)
    ensures
        s@ == at@ + suffix@,
{
    let mut s = at.clone();
    s.append(suffix);
    s
}

fn element_check(i: usize, j: usize, at: &String, e: &Element) -> (r: Result<(), SpecError>)
    ensures
        r is Ok <==> element_fault(i as int, j as int, at@, *e) is None,
        r matches Err(err) ==> element_fault(i as int, j as int, at@, *e) == Some(err@),
{
    let ks = kinds();
    if let Err(m) = one_of(with_suffix(at, ": element kind").as_str(), e.kind.as_str(), ks.as_slice()) {
        return Err(SpecError { rule: Rule::ElementKind, scene: Some(i), element: Some(j), value: None, message: m });
    }
    let ms = motions();
    if let Err(m) = one_of(with_suffix(at, ": element motion").as_str(), e.motion.as_str(), ms.as_slice()) {
        return Err(SpecError { rule: Rule::ElementMotion, scene: Some(i), element: Some(j), value: None, message: m });
    }
    if !in_range(e.x, ZERO, ONE) {
        return Err(SpecError { rule: Rule::ElementX, scene: Some(i), element: Some(j), value: Some(e.x),
            message: with_suffix(at, ": element x must be between 0 and 1") });
    }
    if !in_range(e.y, ZERO, ONE) {
        return Err(SpecError { rule: Rule::ElementY, scene: Some(i), element: Some(j), value: Some(e.y),
            message: with_suffix(at, ": element y must be between 0 and 1") });
    }
    if !in_range(e.scale, ONE_TENTH, FOUR) {
        return Err(SpecError { rule: Rule::ElementScale, scene: Some(i), element: Some(j), value: Some(e.scale),
            message: with_suffix(at, ": element scale must be between 0.1 and 4") });
    }
    let labelled = same_text(e.kind.as_str(), "product") || same_text(e.kind.as_str(), "text");
    let missing = match &e.label {
        None => true,
        Some(l) => l.as_str().unicode_len() == 0,
    };
    if labelled && missing {
        let mut m = with_suffix(at, ": a ");
        m.append(e.kind.as_str());
        m.append(" element needs a label");
        return Err(SpecError { rule: Rule::MissingLabel, scene: Some(i), element: Some(j), value: None, message: m });
    }
    if let Some(l) = &e.label {
        if let Err(m) = drawable(with_suffix(at, ": element label").as_str(), l.as_str()) {
            return Err(SpecError { rule: Rule::LabelText, scene: Some(i), element: Some(j), value: None, message: m });
        }
    }
    Ok(())
}

fn point_check(i: usize, at: &String, p: CameraPoint) -> (r: Result<(), SpecError>)
    ensures
        r is Ok <==> point_fault(i as int, at@, p) is None,
        r matches Err(err) ==> point_fault(i as int, at@, p) == Some(err@),
{
    if !in_range(p.x, ZERO, ONE) {
        return Err(SpecError { rule: Rule::CameraX, scene: Some(i), element: None, value: Some(p.x),
            message: with_suffix(at, ": camera x must be between 0 and 1") });
    }
    if !in_range(p.y, ZERO, ONE) {
        return Err(SpecError { rule: Rule::CameraY, scene: Some(i), element: None, value: Some(p.y),
            message: with_suffix(at, ": camera y must be between 0 and 1") });
    }
    if !in_range(p.zoom, HALF, FOUR) {
        return Err(SpecError { rule: Rule::CameraZoom, scene: Some(i), element: None, value: Some(p.zoom),
            message: with_suffix(at, ": camera zoom must be between 0.5 and 4") });
    }
    Ok(())
}

fn caption_check(i: usize, at: &String, caption: &Option<String>) -> (r: Result<(), SpecError>)
    ensures
        r is Ok <==> caption_fault(i as int, at@, *caption) is None,
        r matches Err(err) ==> caption_fault(i as int, at@, *caption) == Some(err@),
{
    if let Some(c) = caption {
        if c.as_str().unicode_len() > MAX_CAPTION_CHARS {
            return Err(SpecError { rule: Rule::CaptionLength, scene: Some(i), element: None, value: None,
                message: with_suffix(at, ": caption longer than 80 characters") });
        }
        if let Err(m) = drawable(with_suffix(at, ": caption").as_str(), c.as_str()) {
            return Err(SpecError { rule: Rule::CaptionText, scene: Some(i), element: None, value: None, message: m });
        }
    }
    Ok(())
}

fn scene_check(i: usize, sc: &SceneSpec) -> (r: Result<(), SpecError>)
    requires
        i < MAX_SCENES,
    ensures
        r is Ok <==> scene_fault(i as int, *sc) is None,
        r matches Err(err) ==> scene_fault(i as int, *sc) == Some(err@),
{
    let at = scene_location(i, sc.name.as_str());
    if !in_range(sc.duration, HALF, TWENTY) {
        return Err(SpecError { rule: Rule::Duration, scene: Some(i), element: None, value: Some(sc.duration),
            message: with_suffix(&at, ": duration must be between 0.5 and 20 seconds") });
    }
    let sh = shots();
    if let Err(m) = one_of(with_suffix(&at, ": shot").as_str(), sc.shot.as_str(), sh.as_slice()) {
        return Err(SpecError { rule: Rule::Shot, scene: Some(i), element: None, value: None, message: m });
    }
    if let Some(st) = &sc.style {
        let ss = styles();
        if let Err(m) = one_of(with_suffix(&at, ": style").as_str(), st.as_str(), ss.as_slice()) {
            return Err(SpecError { rule: Rule::SceneStyle, scene: Some(i), element: None, value: None, message: m });
        }
    }
    caption_check(i, &at, &sc.caption)?;
    if let Some(cam) = sc.camera {
        point_check(i, &at, cam.from)?;
        point_check(i, &at, cam.to)?;
    }
    let n = sc.elements.len();
    if n > MAX_ELEMENTS {
        return Err(SpecError { rule: Rule::ElementCount, scene: Some(i), element: None, value: None,
            message: with_suffix(&at, ": at most 8 elements") });
    }
    let ghost es = sc.elements@;
    let mut j: usize = 0;
    while j < n
        invariant
            n == es.len(),
            es == sc.elements@,
            j <= n,
            scene_fault(i as int, *sc) == elements_fault(i as int, at@, es, 0),
            elements_fault(i as int, at@, es, 0) == elements_fault(i as int, at@, es, j as int),
        decreases n - j,
    {
        element_check(i, j, &at, &sc.elements[j])?;
        j = j + 1;
    }
    Ok(())
}

/// The unclamped height of a frame `width` pixels wide, as single-precision
/// arithmetic computes `(width as f32 * h as f32 / w as f32).round()` for
/// the format's ratio `w:h`; anything but `16:9` and `9:16` is square.
pub open spec fn binary32_height(format: Seq<char>, width: nat) -> int {
    let a = whole_to_binary32(width);
    if format == "16:9"@ {
        (whole_to_binary32((a * 9) as nat) + 8) / 16
    } else if format == "9:16"@ {
        if a == 0 {
            0
        } else {
            rounded_binary32_quotient((16 * a) as nat, 9)
        }
    } else {
        a
    }
}

/// The pixel height of a frame `width` pixels wide: the aspect ratio's
/// height as single precision rounds it, at least 1 and at most `u32::MAX`
/// (the cast to `u32` saturates).
pub open spec fn frame_height(format: Seq<char>, width: int) -> int {
    let h = binary32_height(format, width as nat);
    if h < 1 {
        1
    } else if h > u32::MAX {
        u32::MAX as int
    } else {
        h
    }
}

/// Frames are never empty, and a square format keeps the width: the
/// height of a frame is at least 1, and for formats other than `16:9` and
/// `9:16` it equals any nonzero width that single precision holds exactly.
pub proof fn lemma_square_and_nonempty(format: Seq<char>, width: u32)
    ensures
        frame_height(format, width as int) >= 1,
        format != "16:9"@ && format != "9:16"@ && 1 <= width < 0x100_0000
            ==> frame_height(format, width as int) == width,
{
    vstd::arithmetic::power2::lemma2_to64();
    if width < 0x100_0000 {
        lemma_bit_length_at_most(width as nat, 24);
    }
}

/// At 16:9, while `9 * width` fits in single precision, the height is the
/// aspect ratio's within half a pixel: `|32 * height - 18 * width| <= 16`.
pub proof fn lemma_height_follows_aspect(width: u32)
    requires
        9 * width < 0x100_0000,
    ensures
        -16 <= 32 * binary32_height("16:9"@, width as nat) - 18 * width <= 16,
{
    vstd::arithmetic::power2::lemma2_to64();
    lemma_bit_length_at_most(width as nat, 24);
    lemma_bit_length_at_most((9 * width) as nat, 24);
    let x = width as int;
    let h = (9 * x + 8) / 16;
    assert(-16 <= 32 * h - 18 * x <= 16) by (nonlinear_arith)
        requires
            x >= 0,
            h == (9 * x + 8) / 16,
    ;
}

/// A rejection names the scene it came from: when the first broken rule
/// lies in a scene, that scene exists, every scene before it is inside the
/// schema, and the rule is that scene's first broken one.
pub proof fn lemma_fault_names_its_scene(s: Spec)
    requires
        spec_fault(s) matches Some(f) && f.scene is Some,
    ensures
        ({
            let i = spec_fault(s)->0.scene->0 as int;
            &&& 0 <= i < s.scenes.len()
            &&& scene_fault(i, s.scenes@[i]) == spec_fault(s)
            &&& forall|k: int| 0 <= k < i ==> scene_valid(#[trigger] s.scenes@[k])
        }),
{
    lemma_scenes_fault_located(s.scenes@, 0);
}

proof fn lemma_scene_fault_scene(i: int, sc: SceneSpec)
    requires
        0 <= i,
        i < MAX_SCENES,
    ensures
        scene_fault(i, sc) matches Some(f) ==> f.scene == Some(i as usize),
{
    let at = at_text(i, sc.name@);
    lemma_elements_fault_scene(i, at, sc.elements@, 0);
}

proof fn lemma_elements_fault_scene(i: int, at: Seq<char>, es: Seq<Element>, j: int)
    ensures
        elements_fault(i, at, es, j) matches Some(f) ==> f.scene == Some(i as usize),
    decreases es.len() - j,
{
    if 0 <= j < es.len() {
        lemma_elements_fault_scene(i, at, es, j + 1);
    }
}

proof fn lemma_scenes_fault_located(scenes: Seq<SceneSpec>, i: int)
    requires
        0 <= i <= scenes.len(),
        scenes.len() <= MAX_SCENES,
    ensures
        scenes_fault(scenes, i) matches Some(f) ==> ({
            let k = f.scene->0 as int;
            &&& f.scene is Some
            &&& i <= k < scenes.len()
            &&& scene_fault(k, scenes[k]) == Some(f)
            &&& forall|m: int| i <= m < k ==> scene_valid(#[trigger] scenes[m])
        }),
    decreases scenes.len() - i,
{
    if i < scenes.len() {
        lemma_scene_fault_scene(i, scenes[i]);
        lemma_scene_fault_none(i, scenes[i]);
        lemma_scenes_fault_located(scenes, i + 1);
    }
}

impl Spec {
    /// Output size in pixels for a given width: the format's height for it,
    /// computed in single precision as `(width as f32 * h as f32 / w as
    /// f32).round() as u32`, and at least 1.
    pub fn size(&self, width: u32) -> (r: (u32, u32))
        ensures
            r.0 == width,
            r.1 == frame_height(self.format@, width as int),
    {
        let wide = width as u64;
        proof {
            vstd::arithmetic::power2::lemma2_to64();
            vstd::arithmetic::power2::lemma2_to64_rest();
            lemma_bit_length_at_most(width as nat, 32);
            if bit_length(width as nat) < 32 {
                vstd::arithmetic::power2::lemma_pow2_strictly_increases(bit_length(width as nat), 32);
            }
        }
        let a = whole_to_f32_value(wide);
        let height: u64 = if same_text(self.format.as_str(), "16:9") {
            proof {
                lemma_bit_length_at_most((a * 9) as nat, 36);
                if bit_length((a * 9) as nat) < 36 {
                    vstd::arithmetic::power2::lemma_pow2_strictly_increases(bit_length((a * 9) as nat), 36);
                }
            }
            let b = whole_to_f32_value(a * 9);
            (b + 8) / 16
        } else if same_text(self.format.as_str(), "9:16") {
            if a == 0 {
                0
            } else {
                rounded_f32_quotient(16 * a, 9)
            }
        } else {
            a
        };
        let height: u32 = if height < 1 {
            1
        } else if height > u32::MAX as u64 {
            u32::MAX
        } else {
            height as u32
        };
        (width, height)
    }

    /// Accepts a spec inside the schema; otherwise reports the first rule it
    /// breaks, in the order `spec_fault` checks them.
    pub fn validate(&self) -> (r: Result<(), SpecError>)
        ensures
            r is Ok <==> spec_valid(*self),
            r is Ok <==> spec_fault(*self) is None,
            r is Ok ==> forall|i: int, j: int|
                0 <= i < self.scenes.len() && 0 <= j < self.scenes@[i].elements.len() ==> {
                    let e = #[trigger] self.scenes@[i].elements@[j];
                    &&& (e.x <= 0x3F80_0000 || e.x == 0x8000_0000)
                    &&& (e.y <= 0x3F80_0000 || e.y == 0x8000_0000)
                    &&& 0x3DCC_CCCD <= e.scale <= 0x4080_0000
                },
            r matches Err(e) ==> spec_fault(*self) == Some(e@),
    {
        proof {
            lemma_fault_free_is_valid(*self);
            assert forall|i: int, j: int|
                0 <= i < self.scenes.len() && 0 <= j < self.scenes@[i].elements.len()
                    && spec_valid(*self) implies {
                    let e = #[trigger] self.scenes@[i].elements@[j];
                    &&& (e.x <= 0x3F80_0000 || e.x == 0x8000_0000)
                    &&& (e.y <= 0x3F80_0000 || e.y == 0x8000_0000)
                    &&& 0x3DCC_CCCD <= e.scale <= 0x4080_0000
                } by {
                assert(scene_valid(self.scenes@[i]));
                lemma_element_rules_in_numbers(self.scenes@[i].elements@[j]);
            }
        }
        let fs = formats();
        if let Err(m) = one_of("format", self.format.as_str(), fs.as_slice()) {
            return Err(SpecError { rule: Rule::Format, scene: None, element: None, value: None, message: m });
        }
        let ss = styles();
        if let Err(m) = one_of("style", self.style.as_str(), ss.as_slice()) {
            return Err(SpecError { rule: Rule::Style, scene: None, element: None, value: None, message: m });
        }
        if blank(self.title.as_str()) {
            return Err(SpecError { rule: Rule::Title, scene: None, element: None, value: None,
                message: "title is empty".to_owned() });
        }
        let n = self.scenes.len();
        if n == 0 || n > MAX_SCENES {
            let mut m = "a spec needs 1 to 24 scenes, got ".to_owned();
            push_decimal(&mut m, n);
            return Err(SpecError { rule: Rule::SceneCount, scene: None, element: None, value: None, message: m });
        }
        let ghost scs = self.scenes@;
        let mut i: usize = 0;
        while i < n
            invariant
                n == scs.len(),
                n <= MAX_SCENES,
                scs == self.scenes@,
                i <= n,
                spec_fault(*self) == scenes_fault(scs, 0),
                spec_fault(*self) is None <==> spec_valid(*self),
                scenes_fault(scs, 0) == scenes_fault(scs, i as int),
            decreases n - i,
        {
            scene_check(i, &self.scenes[i])?;
            i = i + 1;
        }
        Ok(())
    }
}

} // verus!
