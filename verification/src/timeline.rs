//! The frame bookkeeping of a film: scenes laid end to end, each lasting a
//! whole number of frames. Which scene a frame falls in, which frame a
//! storyboard shows for each scene, and which frame is drawn at each tick.
use vstd::prelude::*;

verus! {

/// Frames per second of every film.
pub const FPS: u32 = 24;

/// Total length of scenes of the given frame counts.
pub open spec fn sum(s: Seq<usize>) -> int
    decreases s.len(),
{
    if s.len() == 0 {
        0
    } else {
        sum(s.drop_last()) + s.last()
    }
}

/// First frame of scene `i`: the length of the scenes before it.
pub open spec fn start(s: Seq<usize>, i: int) -> int {
    sum(s.take(i))
}

/// Scene `i` exists and frame `f` falls within it.
pub open spec fn contains_frame(s: Seq<usize>, i: int, f: int) -> bool {
    0 <= i < s.len() && start(s, i) <= f < start(s, i) + s[i]
}

/// The scene that shows frame `f`; past the end, the last scene (0 when
/// there is none).
pub open spec fn scene_at(s: Seq<usize>, f: int) -> int {
    if 0 <= f < sum(s) {
        choose|i: int| contains_frame(s, i, f)
    } else if s.len() == 0 {
        0
    } else {
        s.len() - 1
    }
}

/// The frame a storyboard shows for scene `i`: its middle.
pub open spec fn key_frame(s: Seq<usize>, i: int) -> int {
    start(s, i) + s[i] / 2
}

/// The storyboard frame of a scene is its middle: half its length, rounded
/// down, after its first frame.
pub proof fn lemma_key_frame_is_middle(s: Seq<usize>, i: int)
    requires
        0 <= i < s.len(),
    ensures
        0 <= key_frame(s, i) - start(s, i) <= s[i],
        2 * (key_frame(s, i) - start(s, i)) == s[i]
            || 2 * (key_frame(s, i) - start(s, i)) == s[i] - 1,
{
}

/// Sums of prefixes grow by each scene's length, and never shrink.
pub proof fn lemma_start_step(s: Seq<usize>, i: int)
    requires
        0 <= i < s.len(),
    ensures
        start(s, i + 1) == start(s, i) + s[i],
        start(s, i) >= 0,
{
    assert(s.take(i + 1).drop_last() =~= s.take(i));
    lemma_sum_nonneg(s.take(i));
}

proof fn lemma_sum_nonneg(s: Seq<usize>)
    ensures
        sum(s) >= 0,
    decreases s.len(),
{
    if s.len() > 0 {
        lemma_sum_nonneg(s.drop_last());
    }
}

proof fn lemma_start_le_sum(s: Seq<usize>, j: int)
    requires
        0 <= j <= s.len(),
    ensures
        start(s, j) <= sum(s),
    decreases s.len() - j,
{
    if j == s.len() {
        assert(s.take(j) =~= s);
    } else {
        lemma_start_step(s, j);
        lemma_start_le_sum(s, j + 1);
    }
}

/// Scene starts never decrease, and the last scene ends at the total.
pub proof fn lemma_start_monotone(s: Seq<usize>, i: int, j: int)
    requires
        0 <= i <= j <= s.len(),
    ensures
        0 <= start(s, i) <= start(s, j) <= sum(s),
    decreases j - i,
{
    lemma_start_le_sum(s, j);
    if i < j {
        lemma_start_step(s, j - 1);
        lemma_start_monotone(s, i, j - 1);
    } else {
        lemma_sum_nonneg(s.take(i));
    }
}

/// Scenes do not overlap: a frame falls in at most one scene.
pub proof fn lemma_frame_in_one_scene(s: Seq<usize>, f: int, i: int, j: int)
    requires
        contains_frame(s, i, f),
        contains_frame(s, j, f),
    ensures
        i == j,
{
    if i < j {
        lemma_start_step(s, i);
        lemma_start_monotone(s, i + 1, j);
    } else if j < i {
        lemma_start_step(s, j);
        lemma_start_monotone(s, j + 1, i);
    }
}

/// Every frame before the end falls in some scene, the one `scene_at` names.
pub proof fn lemma_scene_at_contains(s: Seq<usize>, f: int)
    requires
        0 <= f < sum(s),
    ensures
        contains_frame(s, scene_at(s, f), f),
    decreases s.len(),
{
    assert(s.take(s.len() as int) =~= s);
    let n = s.len() as int;
    let p = s.drop_last();
    if f < sum(p) {
        lemma_scene_at_contains(p, f);
        let i = scene_at(p, f);
        assert(s.take(i) =~= p.take(i));
        assert(contains_frame(s, i, f));
    } else {
        assert(s.take(n - 1) =~= p);
        lemma_start_step(s, n - 1);
        assert(contains_frame(s, n - 1, f));
    }
}

/// The scene holding a frame is the one `scene_at` names.
pub proof fn lemma_scene_at_is(s: Seq<usize>, f: int, i: int)
    requires
        contains_frame(s, i, f),
    ensures
        scene_at(s, f) == i,
{
    lemma_start_step(s, i);
    lemma_start_monotone(s, i + 1, s.len() as int);
    lemma_scene_at_contains(s, f);
    lemma_frame_in_one_scene(s, f, i, scene_at(s, f));
}

/// Later frames never fall in earlier scenes.
pub proof fn lemma_scene_at_monotone(s: Seq<usize>, f: int, g: int)
    requires
        0 <= f <= g,
    ensures
        scene_at(s, f) <= scene_at(s, g),
{
    if g < sum(s) {
        lemma_scene_at_contains(s, f);
        lemma_scene_at_contains(s, g);
        let i = scene_at(s, f);
        let j = scene_at(s, g);
        if j < i {
            lemma_start_step(s, j);
            lemma_start_monotone(s, j + 1, i);
        }
    } else if f < sum(s) {
        lemma_scene_at_contains(s, f);
    }
}

/// The storyboard frame of a scene that lasts at least one frame shows
/// that scene.
pub proof fn lemma_key_frame_shows_its_scene(s: Seq<usize>, i: int)
    requires
        0 <= i < s.len(),
        s[i] > 0,
    ensures
        contains_frame(s, i, key_frame(s, i)),
        scene_at(s, key_frame(s, i)) == i,
{
    lemma_start_step(s, i);
    lemma_start_monotone(s, i + 1, s.len() as int);
    lemma_scene_at_contains(s, key_frame(s, i));
    lemma_frame_in_one_scene(s, key_frame(s, i), i, scene_at(s, key_frame(s, i)));
}

/// On twos each drawing is held for two ticks: the frame drawn at a tick is
/// even and at most one behind it; otherwise it is the tick itself.
pub proof fn lemma_drawn_frame(t: FilmTimeline, g: int)
    requires
        g >= 0,
    ensures
        0 <= t.drawn_frame(g) <= g,
        t.on_twos ==> g - t.drawn_frame(g) <= 1 && t.drawn_frame(g) % 2 == 0,
        !t.on_twos ==> t.drawn_frame(g) == g,
{
}

/// Where a tick of the film lands: inside a scene, at `local_frame` of it;
/// past the end, on the last scene; or nowhere, in a film with no scenes.
#[derive(Clone, Copy, Debug, PartialEq, Eq)]
pub enum FramePick {
    InScene { scene: usize, local_frame: usize, frame: usize },
    PastEnd { scene: usize, frame: usize },
    Empty { frame: usize },
}

/// The scene lengths of a film, in frames, and how it is played back.
pub struct FilmTimeline {
    pub scene_frames: Vec<usize>,
    pub fps: u32,
    /// Animate on twos: each drawing is held for two frames.
    pub on_twos: bool,
    /// How much of the previous frame is blended into each frame (0 to
    /// 0.4), as a binary32 bit pattern.
    pub motion_blur: u32,
}

impl View for FilmTimeline {
    type V = Seq<usize>;

    open spec fn view(&self) -> Seq<usize> {
        self.scene_frames@
    }
}

impl FilmTimeline {
    /// The film's length fits in `usize`.
    pub open spec fn wf(&self) -> bool {
        sum(self@) <= usize::MAX
    }

    /// The frame drawn at tick `g`: on twos, the even frame at or before it.
    pub open spec fn drawn_frame(&self, g: int) -> int {
        if self.on_twos {
            (g / 2) * 2
        } else {
            g
        }
    }

    /// An empty film at 24 frames per second, animated on twos.
    pub fn new() -> (t: Self)
        ensures
            t@ == Seq::<usize>::empty(),
            t.fps == FPS,
            t.on_twos,
            t.motion_blur == crate::binary32::ZERO,
            t.wf(),
    {
        FilmTimeline { scene_frames: Vec::new(), fps: FPS, on_twos: true, motion_blur: crate::binary32::ZERO }
    }

    /// A film of scenes lasting the given numbers of frames, at 24 frames per
    /// second on twos; `None` when its length does not fit in `usize`.
    pub fn from_frames(frames: &[usize]) -> (r: Option<Self>)
        ensures
            r is Some <==> sum(frames@) <= usize::MAX,
            r matches Some(t) ==> t@ == frames@ && t.fps == FPS && t.on_twos
                && t.motion_blur == crate::binary32::ZERO && t.wf(),
    {
        let mut t = FilmTimeline::new();
        let n = frames.len();
        let mut acc: usize = 0;
        let mut i: usize = 0;
        while i < n
            invariant
                n == frames@.len(),
                i <= n,
                t@ == frames@.take(i as int),
                acc == start(frames@, i as int),
                acc == sum(t@),
                t.fps == FPS,
                t.on_twos,
                t.motion_blur == crate::binary32::ZERO,
            decreases n - i,
        {
            proof {
                lemma_start_step(frames@, i as int);
            }
            let d = frames[i];
            if acc > usize::MAX - d {
                proof {
                    lemma_start_monotone(frames@, i + 1, n as int);
                }
                return None;
            }
            t.add_scene(d);
            acc = acc + d;
            proof {
                assert(t@ =~= frames@.take(i + 1));
            }
            i = i + 1;
        }
        proof {
            assert(frames@.take(n as int) =~= frames@);
        }
        Some(t)
    }

    /// Length of the film, in frames, or `None` when it does not fit in
    /// `usize`.
    pub fn checked_total_frames(&self) -> (r: Option<usize>)
        ensures
            r is Some <==> self.wf(),
            r matches Some(t) ==> t == sum(self@),
    {
        let n = self.scene_frames.len();
        let mut acc: usize = 0;
        let mut i: usize = 0;
        while i < n
            invariant
                n == self@.len(),
                i <= n,
                acc == start(self@, i as int),
            decreases n - i,
        {
            proof {
                lemma_start_step(self@, i as int);
            }
            let d = self.scene_frames[i];
            if acc > usize::MAX - d {
                proof {
                    lemma_start_monotone(self@, i + 1, n as int);
                }
                return None;
            }
            acc = acc + d;
            i = i + 1;
        }
        proof {
            assert(self@.take(n as int) =~= self@);
        }
        Some(acc)
    }

    /// Appends a scene lasting `duration_frames` frames.
    pub fn add_scene(&mut self, duration_frames: usize)
        requires
            sum(old(self)@) + duration_frames <= usize::MAX,
        ensures
            final(self)@ == old(self)@.push(duration_frames),
            sum(final(self)@) == sum(old(self)@) + duration_frames,
            final(self).fps == old(self).fps,
            final(self).on_twos == old(self).on_twos,
            final(self).motion_blur == old(self).motion_blur,
            final(self).wf(),
    {
        self.scene_frames.push(duration_frames);
        proof {
            assert(self@.drop_last() =~= old(self)@);
        }
    }

    /// Number of scenes.
    pub fn scene_count(&self) -> (n: usize)
        ensures
            n == self@.len(),
    {
        self.scene_frames.len()
    }

    /// Length of scene `i`, in frames.
    pub fn duration_frames(&self, i: usize) -> (d: usize)
        requires
            i < self@.len(),
        ensures
            d == self@[i as int],
    {
        self.scene_frames[i]
    }

    /// Length of the film, in frames.
    pub fn total_frames(&self) -> (t: usize)
        requires
            self.wf(),
        ensures
            t == sum(self@),
    {
        let n = self.scene_frames.len();
        let mut acc: usize = 0;
        let mut i: usize = 0;
        while i < n
            invariant
                n == self@.len(),
                i <= n,
                acc == start(self@, i as int),
                sum(self@) <= usize::MAX,
            decreases n - i,
        {
            proof {
                lemma_start_step(self@, i as int);
                lemma_start_monotone(self@, i + 1, n as int);
            }
            acc = acc + self.scene_frames[i];
            i = i + 1;
        }
        proof {
            lemma_start_monotone(self@, n as int, n as int);
            assert(self@.take(n as int) =~= self@);
        }
        acc
    }

    /// The scene that shows frame `global_frame`; past the end of the film,
    /// the last scene.
    pub fn scene_index_at_frame(&self, global_frame: usize) -> (r: usize)
        requires
            self.wf(),
        ensures
            r == scene_at(self@, global_frame as int),
            global_frame < sum(self@) ==> contains_frame(self@, r as int, global_frame as int),
    {
        let n = self.scene_frames.len();
        let mut acc: usize = 0;
        let mut i: usize = 0;
        while i < n
            invariant
                n == self@.len(),
                i <= n,
                acc == start(self@, i as int),
                acc <= global_frame,
                sum(self@) <= usize::MAX,
            decreases n - i,
        {
            proof {
                lemma_start_step(self@, i as int);
                lemma_start_monotone(self@, i + 1, n as int);
            }
            let d = self.scene_frames[i];
            if global_frame < acc + d {
                proof {
                    lemma_scene_at_contains(self@, global_frame as int);
                    lemma_frame_in_one_scene(self@, global_frame as int, i as int,
                        scene_at(self@, global_frame as int));
                }
                return i;
            }
            acc = acc + d;
            i = i + 1;
        }
        proof {
            assert(self@.take(n as int) =~= self@);
        }
        if n == 0 {
            0
        } else {
            n - 1
        }
    }

    /// The frame drawn at tick `global_frame`.
    pub fn frame_to_draw(&self, global_frame: usize) -> (f: usize)
        ensures
            f == self.drawn_frame(global_frame as int),
    {
        if self.on_twos {
            (global_frame / 2) * 2
        } else {
            global_frame
        }
    }

    /// Where tick `global_frame` lands: the scene and the frame within it
    /// that get drawn.
    pub fn locate(&self, global_frame: usize) -> (p: FramePick)
        requires
            self.wf(),
        ensures
            ({
                let f = self.drawn_frame(global_frame as int);
                if f < sum(self@) {
                    p == FramePick::InScene {
                        scene: scene_at(self@, f) as usize,
                        local_frame: (f - start(self@, scene_at(self@, f))) as usize,
                        frame: f as usize,
                    }
                } else if self@.len() > 0 {
                    p == FramePick::PastEnd { scene: (self@.len() - 1) as usize, frame: f as usize }
                } else {
                    p == FramePick::Empty { frame: f as usize }
                }
            }),
    {
        let f = self.frame_to_draw(global_frame);
        let total = self.total_frames();
        let i = self.scene_index_at_frame(f);
        if f < total {
            let first = self.first_frame(i);
            FramePick::InScene { scene: i, local_frame: f - first, frame: f }
        } else if self.scene_frames.len() > 0 {
            FramePick::PastEnd { scene: self.scene_frames.len() - 1, frame: f }
        } else {
            FramePick::Empty { frame: f }
        }
    }

    /// First frame of scene `i`.
    pub fn first_frame(&self, i: usize) -> (f: usize)
        requires
            self.wf(),
            i <= self@.len(),
        ensures
            f == start(self@, i as int),
    {
        let mut acc: usize = 0;
        let mut k: usize = 0;
        while k < i
            invariant
                i <= self@.len(),
                k <= i,
                acc == start(self@, k as int),
                sum(self@) <= usize::MAX,
            decreases i - k,
        {
            proof {
                lemma_start_step(self@, k as int);
                lemma_start_monotone(self@, k + 1, self@.len() as int);
            }
            acc = acc + self.scene_frames[k];
            k = k + 1;
        }
        acc
    }

    /// The frame a storyboard shows for each scene: its middle.
    pub fn key_frames(&self) -> (r: Vec<usize>)
        requires
            self.wf(),
        ensures
            r@.len() == self@.len(),
            forall|i: int| 0 <= i < self@.len() ==> r@[i] == key_frame(self@, i),
            forall|i: int| 0 <= i < self@.len() ==> ({
                let half = #[trigger] r@[i] - start(self@, i);
                2 * half == self@[i] || 2 * half == self@[i] - 1
            }),
    {
        let n = self.scene_frames.len();
        let mut r: Vec<usize> = Vec::new();
        let mut acc: usize = 0;
        let mut i: usize = 0;
        while i < n
            invariant
                n == self@.len(),
                i <= n,
                acc == start(self@, i as int),
                sum(self@) <= usize::MAX,
                r@.len() == i,
                forall|k: int| 0 <= k < i ==> r@[k] == key_frame(self@, k),
            decreases n - i,
        {
            proof {
                lemma_start_step(self@, i as int);
                lemma_start_monotone(self@, i + 1, n as int);
            }
            let d = self.scene_frames[i];
            r.push(acc + d / 2);
            acc = acc + d;
            i = i + 1;
        }
        r
    }
}

} // verus!
