use taller_film::binary32::ONE_THOUSANDTH;
use taller_film::export::{audio_source, blur_step, frames_to_export, removes_temp_wav, BlurStep, ffmpeg_args, render_size, reports_progress, AudioSource};

#[test]
fn external_audio_wins_over_the_track() {
    match audio_source(Some("song.m4a"), true, "out.mp4") {
        AudioSource::External(p) => assert_eq!(p, "song.m4a"),
        other => panic!("{other:?}"),
    }
    match audio_source(None, true, "out.mp4") {
        AudioSource::Synthesized(p) => assert_eq!(p, "out.mp4.temp.wav"),
        other => panic!("{other:?}"),
    }
    assert!(matches!(audio_source(None, false, "out.mp4"), AudioSource::Silent));
}

#[test]
fn ffmpeg_command_line() {
    let args = ffmpeg_args(1280, 720, 24, Some("a.wav"), 2, "film.mp4");
    let expected = [
        "-y", "-f", "rawvideo", "-vcodec", "rawvideo", "-s", "1280x720", "-pix_fmt", "rgba", "-r", "24",
        "-i", "-", "-i", "a.wav", "-c:v", "libx264", "-pix_fmt", "yuv420p", "-profile:v", "high", "-level",
        "4.1", "-colorspace", "bt709", "-color_primaries", "bt709", "-color_trc", "bt709", "-crf", "15",
        "-preset", "medium", "-c:a", "aac", "-b:a", "256k", "-shortest", "film.mp4",
    ];
    assert_eq!(args, expected);

    let args = ffmpeg_args(640, 360, 30, None, 0, "x.mp4");
    assert!(args.contains(&"640x360".to_string()));
    assert!(args.contains(&"30".to_string()));
    assert!(args.contains(&"fast".to_string()));
    assert!(!args.contains(&"aac".to_string()));
    assert_eq!(args.len(), 32);
    assert_eq!(args.last().unwrap(), "x.mp4");
}

#[test]
fn supersampled_render_size() {
    assert_eq!(render_size(640, 360, 0), (640, 360));
    assert_eq!(render_size(640, 360, 1), (640, 360));
    assert_eq!(render_size(640, 360, 3), (1920, 1080));
}

#[test]
fn progress_once_a_second_and_at_the_end() {
    let reported: Vec<usize> = (0..50).filter(|&i| reports_progress(i, 50, 24)).collect();
    assert_eq!(reported, vec![23, 47, 49]);
}

#[test]
fn a_film_without_frames_is_refused() {
    assert_eq!(frames_to_export(0).unwrap_err(), "La película no tiene fotogramas para renderizar");
    assert_eq!(frames_to_export(90), Ok(90));
}

#[test]
fn motion_blur_blends_only_within_a_scene() {
    assert_eq!(ONE_THOUSANDTH, 0.001f32.to_bits());
    let on = 0.2f32.to_bits();
    assert_eq!(blur_step(on, Some(3), 3), BlurStep { blend: true, remember: true });
    assert_eq!(blur_step(on, Some(2), 3), BlurStep { blend: false, remember: true });
    assert_eq!(blur_step(on, None, 0), BlurStep { blend: false, remember: true });
    assert_eq!(blur_step(0.001f32.to_bits(), Some(0), 0), BlurStep { blend: false, remember: false });
    assert_eq!(blur_step(0.0f32.to_bits(), Some(0), 0), BlurStep { blend: false, remember: false });
    assert_eq!(blur_step(f32::NAN.to_bits(), Some(0), 0), BlurStep { blend: false, remember: false });
}

#[test]
fn the_temporary_wav_goes_only_after_success() {
    let synth = audio_source(None, true, "o.mp4");
    assert!(removes_temp_wav(&synth, true));
    assert!(!removes_temp_wav(&synth, false));
    assert!(!removes_temp_wav(&audio_source(Some("a.wav"), true, "o.mp4"), true));
}
