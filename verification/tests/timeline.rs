use taller_film::contact_sheet::{layout, sample_frames, GAP};
use taller_film::timeline::{FilmTimeline, FramePick, FPS};

fn film(frames: &[usize]) -> FilmTimeline {
    let mut t = FilmTimeline::new();
    for &f in frames {
        t.add_scene(f);
    }
    t
}

#[test]
fn new_films_run_on_twos_at_24_fps() {
    let t = FilmTimeline::new();
    assert_eq!(t.fps, FPS);
    assert_eq!(FPS, 24);
    assert!(t.on_twos);
    assert_eq!(t.motion_blur, 0.0f32.to_bits());
    assert_eq!(t.total_frames(), 0);
    assert_eq!(t.scene_index_at_frame(5), 0);
    assert_eq!(t.locate(3), FramePick::Empty { frame: 2 });
}

#[test]
fn frames_map_to_their_scenes() {
    let t = film(&[48, 0, 12, 30]);
    assert_eq!(t.total_frames(), 90);
    assert_eq!(t.scene_index_at_frame(0), 0);
    assert_eq!(t.scene_index_at_frame(47), 0);
    assert_eq!(t.scene_index_at_frame(48), 2);
    assert_eq!(t.scene_index_at_frame(59), 2);
    assert_eq!(t.scene_index_at_frame(60), 3);
    assert_eq!(t.scene_index_at_frame(89), 3);
    assert_eq!(t.scene_index_at_frame(1000), 3);
    assert_eq!(t.first_frame(3), 60);
    assert_eq!(t.duration_frames(2), 12);
    assert_eq!(t.scene_count(), 4);
}

#[test]
fn key_frames_sit_in_the_middle_of_their_scenes() {
    let t = film(&[48, 13, 1]);
    let k = t.key_frames();
    assert_eq!(k, vec![24, 54, 61]);
    for (i, &f) in k.iter().enumerate() {
        assert_eq!(t.scene_index_at_frame(f), i);
    }
}

#[test]
fn ticks_land_on_drawn_frames() {
    let mut t = film(&[10, 5]);
    assert_eq!(t.frame_to_draw(7), 6);
    assert_eq!(t.locate(11), FramePick::InScene { scene: 1, local_frame: 0, frame: 10 });
    assert_eq!(t.locate(17), FramePick::PastEnd { scene: 1, frame: 16 });
    assert_eq!(t.locate(14), FramePick::InScene { scene: 1, local_frame: 4, frame: 14 });
    t.on_twos = false;
    assert_eq!(t.frame_to_draw(7), 7);
    assert_eq!(t.locate(9), FramePick::InScene { scene: 0, local_frame: 9, frame: 9 });
    assert_eq!(t.locate(15), FramePick::PastEnd { scene: 1, frame: 15 });
}

#[test]
fn contact_sheets_sample_scenes_or_spread() {
    let t = film(&[48, 24, 10]);
    assert_eq!(sample_frames(&t, 3), vec![24, 60, 77]);
    assert_eq!(sample_frames(&t, 5), vec![0, 20, 40, 60, 81]);
    assert_eq!(sample_frames(&t, 1), vec![0]);
    assert_eq!(sample_frames(&t, 0), Vec::<usize>::new());
    let short = film(&[0]);
    assert_eq!(sample_frames(&short, 1), vec![0]);
}

#[test]
fn contact_sheet_layout() {
    let l = layout(800, 450, 5, 3);
    assert_eq!(GAP, 12);
    assert_eq!(l.rows, 2);
    assert_eq!((l.thumb_width, l.thumb_height), (200, 112));
    assert_eq!(l.width, 3 * 200 + 4 * 12);
    assert_eq!(l.height, 2 * 112 + 3 * 12);
    assert_eq!(l.tile_origin(0), (12, 12));
    assert_eq!(l.tile_origin(4), (12 + 212, 12 + 124));
    for i in 0..5 {
        let (x, y) = l.tile_origin(i);
        assert!(x + l.thumb_width + GAP <= l.width);
        assert!(y + l.thumb_height + GAP <= l.height);
    }
}

#[test]
fn timelines_from_frame_counts() {
    let t = FilmTimeline::from_frames(&[48, 24]).unwrap();
    assert_eq!(t.total_frames(), 72);
    assert_eq!(t.checked_total_frames(), Some(72));
    assert_eq!(t.key_frames(), vec![24, 60]);
    assert!(t.on_twos);
    assert!(FilmTimeline::from_frames(&[usize::MAX, 1]).is_none());
    assert!(FilmTimeline::from_frames(&[usize::MAX]).is_some());
    let mut big = FilmTimeline::new();
    big.scene_frames = vec![usize::MAX, 1];
    assert_eq!(big.checked_total_frames(), None);
}
