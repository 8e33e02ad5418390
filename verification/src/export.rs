//! The decisions of exporting a film to MP4 through FFmpeg: where the audio
//! comes from, the command line, the supersampled render size and when to
//! report progress. Running FFmpeg and writing frames is left to the caller.
use vstd::prelude::*;
use vstd::string::*;
use crate::binary32::{greater, gt, ONE_THOUSANDTH};
use crate::text::{decimal_text, push_decimal};

verus! {

/// Where the exported film's sound comes from.
#[derive(Clone, Debug)]
pub enum AudioSource {
    /// An existing audio file, used as it is.
    External(String),
    /// The film's own track, written to this temporary WAV file first and
    /// removed after the export.
    Synthesized(String),
    /// No sound.
    Silent,
}

/// The temporary WAV file written next to `output`.
pub open spec fn temp_wav_text(output: Seq<char>) -> Seq<char> {
    output + ".temp.wav"@
}

/// An external file wins over the film's own track.
pub fn audio_source(external: Option<&str>, has_track: bool, output: &str) -> (a: AudioSource)
    ensures
        external matches Some(p) ==> (a matches AudioSource::External(q) && q@ == p@),
        external is None && has_track ==> (a matches AudioSource::Synthesized(q) && q@ == temp_wav_text(output@)),
        external is None && !has_track ==> a is Silent,
{
    match external {
        Some(p) => AudioSource::External(p.to_owned()),
        None => if has_track {
            let mut q = output.to_owned();
            q.append(".temp.wav");
            AudioSource::Synthesized(q)
        } else {
            AudioSource::Silent
        },
    }
}

/// The refusal of a film without frames.
pub open spec fn no_frames_text() -> Seq<char> {
    "La película no tiene fotogramas para renderizar"@
}

/// The number of frames to export: a film without frames is refused.
pub fn frames_to_export(total_frames: usize) -> (r: Result<usize, String>)
    ensures
        r is Ok <==> total_frames > 0,
        r matches Ok(t) ==> t == total_frames,
        r matches Err(m) ==> m@ == no_frames_text(),
{
    if total_frames == 0 {
        Err("La película no tiene fotogramas para renderizar".to_owned())
    } else {
        Ok(total_frames)
    }
}

/// What happens to the previous frame at a new frame of scene `current`.
#[derive(Clone, Copy, Debug, PartialEq, Eq)]
pub struct BlurStep {
    /// Blend the previous frame into this one.
    pub blend: bool,
    /// Keep this frame, and its scene, as the previous frame for the next.
    pub remember: bool,
}

/// Motion blur is on when its amount exceeds 0.001; a frame is blended
/// with the previous one only when that one was kept and shows the same
/// scene.
pub fn blur_step(motion_blur: u32, previous_scene: Option<usize>, current: usize) -> (s: BlurStep)
    ensures
        s.remember == gt(motion_blur, ONE_THOUSANDTH),
        s.blend == (gt(motion_blur, ONE_THOUSANDTH) && previous_scene == Some(current)),
{
    let on = greater(motion_blur, ONE_THOUSANDTH);
    let same = match previous_scene {
        Some(p) => p == current,
        None => false,
    };
    BlurStep { blend: on && same, remember: on }
}

/// The temporary WAV file is removed only when FFmpeg succeeded and the
/// file was one the export wrote.
pub fn removes_temp_wav(audio: &AudioSource, ffmpeg_succeeded: bool) -> (r: bool)
    ensures
        r == (ffmpeg_succeeded && audio is Synthesized),
{
    ffmpeg_succeeded && match audio {
        AudioSource::Synthesized(_) => true,
        _ => false,
    }
}

/// Supersampling factor: at least 1.
pub open spec fn render_scale_of(super_sample: u32) -> u32 {
    if super_sample < 1 { 1 } else { super_sample }
}

/// The supersampled render size of a `width` × `height` film.
pub fn render_size(width: u32, height: u32, super_sample: u32) -> (r: (u32, u32))
    requires
        width * render_scale_of(super_sample) <= u32::MAX,
        height * render_scale_of(super_sample) <= u32::MAX,
    ensures
        r.0 == width * render_scale_of(super_sample),
        r.1 == height * render_scale_of(super_sample),
{
    let ss = if super_sample < 1 { 1 } else { super_sample };
    (width * ss, height * ss)
}

/// After rendering frame `frame_idx` of `total`: report progress once a
/// second of film, and at the last frame.
pub fn reports_progress(frame_idx: usize, total: usize, fps: u32) -> (r: bool)
    requires
        fps > 0,
        frame_idx < total,
    ensures
        r == ((frame_idx + 1) % (fps as int) == 0 || frame_idx == total - 1),
{
    (frame_idx + 1) % (fps as usize) == 0 || frame_idx == total - 1
}

/// The character views of a list of strings.
pub open spec fn arg_texts(args: Seq<String>) -> Seq<Seq<char>> {
    args.map_values(|a: String| a@)
}

/// The FFmpeg command line: raw RGBA frames on standard input at `width` ×
/// `height` and `fps`, the audio input if any, H.264 in high quality (a
/// slower preset when supersampling), AAC audio cut to the video, then the
/// output path.
pub open spec fn ffmpeg_arg_texts(
    width: u32,
    height: u32,
    fps: u32,
    audio: Option<Seq<char>>,
    super_sample: u32,
    output: Seq<char>,
) -> Seq<Seq<char>> {
    let input = seq![
        "-y"@, "-f"@, "rawvideo"@, "-vcodec"@, "rawvideo"@,
        "-s"@, decimal_text(width as nat) + "x"@ + decimal_text(height as nat),
        "-pix_fmt"@, "rgba"@, "-r"@, decimal_text(fps as nat), "-i"@, "-"@
    ];
    let audio_in = match audio {
        Some(p) => seq!["-i"@, p],
        None => Seq::empty(),
    };
    let video = seq![
        "-c:v"@, "libx264"@, "-pix_fmt"@, "yuv420p"@, "-profile:v"@, "high"@,
        "-level"@, "4.1"@, "-colorspace"@, "bt709"@, "-color_primaries"@, "bt709"@,
        "-color_trc"@, "bt709"@, "-crf"@, "15"@,
        "-preset"@, if render_scale_of(super_sample) > 1 { "medium"@ } else { "fast"@ }
    ];
    let audio_out = if audio is Some {
        seq!["-c:a"@, "aac"@, "-b:a"@, "256k"@, "-shortest"@]
    } else {
        Seq::empty()
    };
    input + audio_in + video + audio_out + seq![output]
}

/// The raw-video input is described the same way whatever the audio: RGBA
/// frames of the film's size and rate on standard input, overwriting the
/// output.
pub proof fn lemma_raw_input_arguments(
    width: u32,
    height: u32,
    fps: u32,
    audio: Option<Seq<char>>,
    super_sample: u32,
    output: Seq<char>,
)
    ensures
        ({
            let t = ffmpeg_arg_texts(width, height, fps, audio, super_sample, output);
            &&& t.len() >= 13
            &&& t.take(13) == seq![
                "-y"@, "-f"@, "rawvideo"@, "-vcodec"@, "rawvideo"@,
                "-s"@, decimal_text(width as nat) + "x"@ + decimal_text(height as nat),
                "-pix_fmt"@, "rgba"@, "-r"@, decimal_text(fps as nat), "-i"@, "-"@
            ]
        }),
{
    let t = ffmpeg_arg_texts(width, height, fps, audio, super_sample, output);
    assert(t.take(13) =~= seq![
        "-y"@, "-f"@, "rawvideo"@, "-vcodec"@, "rawvideo"@,
        "-s"@, decimal_text(width as nat) + "x"@ + decimal_text(height as nat),
        "-pix_fmt"@, "rgba"@, "-r"@, decimal_text(fps as nat), "-i"@, "-"@
    ]);
}

fn push_arg(args: &mut Vec<String>, a: &str)
    ensures
        arg_texts(final(args)@) == arg_texts(old(args)@).push(a@),
{
    args.push(a.to_owned());
    assert(arg_texts(args@) =~= arg_texts(old(args)@).push(a@));
}

/// The arguments FFmpeg is started with.
pub fn ffmpeg_args(
    width: u32,
    height: u32,
    fps: u32,
    audio: Option<&str>,
    super_sample: u32,
    output: &str,
) -> (args: Vec<String>)
    ensures
        arg_texts(args@) == ffmpeg_arg_texts(
            width,
            height,
            fps,
            match audio { Some(p) => Some(p@), None => None },
            super_sample,
            output@,
        ),
        args@.len() >= 13,
        args@[7]@ == "-pix_fmt"@,
        args@[8]@ == "rgba"@,
{
    let mut args: Vec<String> = Vec::new();
    push_arg(&mut args, "-y");
    push_arg(&mut args, "-f");
    push_arg(&mut args, "rawvideo");
    push_arg(&mut args, "-vcodec");
    push_arg(&mut args, "rawvideo");
    push_arg(&mut args, "-s");
    let mut size = String::new();
    push_decimal(&mut size, width as usize);
    size.append("x");
    push_decimal(&mut size, height as usize);
    push_arg(&mut args, size.as_str());
    push_arg(&mut args, "-pix_fmt");
    push_arg(&mut args, "rgba");
    push_arg(&mut args, "-r");
    let mut rate = String::new();
    push_decimal(&mut rate, fps as usize);
    push_arg(&mut args, rate.as_str());
    push_arg(&mut args, "-i");
    push_arg(&mut args, "-");
    if let Some(p) = audio {
        push_arg(&mut args, "-i");
        push_arg(&mut args, p);
    }
    push_arg(&mut args, "-c:v");
    push_arg(&mut args, "libx264");
    push_arg(&mut args, "-pix_fmt");
    push_arg(&mut args, "yuv420p");
    push_arg(&mut args, "-profile:v");
    push_arg(&mut args, "high");
    push_arg(&mut args, "-level");
    push_arg(&mut args, "4.1");
    push_arg(&mut args, "-colorspace");
    push_arg(&mut args, "bt709");
    push_arg(&mut args, "-color_primaries");
    push_arg(&mut args, "bt709");
    push_arg(&mut args, "-color_trc");
    push_arg(&mut args, "bt709");
    push_arg(&mut args, "-crf");
    push_arg(&mut args, "15");
    push_arg(&mut args, "-preset");
    if super_sample > 1 {
        push_arg(&mut args, "medium");
    } else {
        push_arg(&mut args, "fast");
    }
    if audio.is_some() {
        push_arg(&mut args, "-c:a");
        push_arg(&mut args, "aac");
        push_arg(&mut args, "-b:a");
        push_arg(&mut args, "256k");
        push_arg(&mut args, "-shortest");
    }
    push_arg(&mut args, output);
    assert(arg_texts(args@) =~= ffmpeg_arg_texts(
        width,
        height,
        fps,
        match audio { Some(p) => Some(p@), None => None },
        super_sample,
        output@,
    ));
    proof {
        lemma_raw_input_arguments(
            width,
            height,
            fps,
            match audio { Some(p) => Some(p@), None => None },
            super_sample,
            output@,
        );
        assert(arg_texts(args@).take(13)[8] == "rgba"@);
        assert(arg_texts(args@)[8] == args@[8]@);
        assert(arg_texts(args@)[7] == args@[7]@);
    }
    args
}

} // verus!
