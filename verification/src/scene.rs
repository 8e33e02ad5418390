//! One scene of a spec as the film plays it: its schema entry, the palette
//! it is drawn with, and its length in frames.
use vstd::prelude::*;
use crate::palette::{palette, palette_named, Palette};
use crate::storyboard::SceneSpec;

verus! {

/// The style a scene is drawn in: its own, or else the film's.
pub open spec fn scene_style(spec: SceneSpec, film_style: Seq<char>) -> Seq<char> {
    match spec.style {
        Some(s) => s@,
        None => film_style,
    }
}

/// A scene's own style wins over any film style; without one, the film's
/// style is used.
pub proof fn lemma_own_style_wins(spec: SceneSpec, film_style: Seq<char>, other_film_style: Seq<char>)
    ensures
        spec.style matches Some(st) ==> scene_style(spec, film_style) == st@,
        spec.style is Some ==> scene_style(spec, film_style) == scene_style(spec, other_film_style),
        spec.style is None ==> scene_style(spec, film_style) == film_style,
{
}

/// A scene ready to be played.
pub struct SpecScene {
    pub spec: SceneSpec,
    pub palette: Palette,
    pub frames: usize,
}

impl SpecScene {
    /// A scene of `frames` frames (its duration at the film's frame rate),
    /// drawn with the palette of its style, or of the film's.
    pub fn new(spec: SceneSpec, film_style: &str, frames: usize) -> (s: Self)
        ensures
            s.spec == spec,
            s.frames == frames,
            s.palette == palette_named(scene_style(spec, film_style@)),
            spec.style matches Some(st) ==> s.palette == palette_named(st@),
            spec.style is None ==> s.palette == palette_named(film_style@),
    {
        let p = match &spec.style {
            Some(st) => palette(st.as_str()),
            None => palette(film_style),
        };
        SpecScene { spec, palette: p, frames }
    }

    /// The scene's name.
    pub fn name(&self) -> (n: &str)
        ensures
            n@ == self.spec.name@,
    {
        self.spec.name.as_str()
    }

    /// The scene's length, in frames.
    pub fn duration_frames(&self) -> (d: usize)
        ensures
            d == self.frames,
    {
        self.frames
    }

    /// The palette the scene is drawn with.
    pub fn palette(&self) -> (p: Palette)
        ensures
            p == self.palette,
    {
        self.palette
    }
}

} // verus!
