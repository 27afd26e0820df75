use rsfx::delta::{compute_delta, FrameDiff};
use rsfx::format::{Cell, DeltaCell};
use rsfx::halfblock::pixels_to_cells;
use rsfx::playback::{apply_delta, frame_is_late, next_frame_due_us, plan_frame, play_frame, FrameAction};
use rsfx::format::FrameType;
use rsfx::render::{render_delta, render_keyframe};

fn gray(v: u8) -> Cell {
    Cell { bg_r: v, bg_g: v, bg_b: v, fg_r: v, fg_g: v, fg_b: v }
}

fn count(hay: &[u8], needle: &[u8]) -> usize {
    hay.windows(needle.len()).filter(|w| *w == needle).count()
}

fn grid_with_changes(n: usize) -> (Vec<Cell>, Vec<Cell>) {
    let prev: Vec<Cell> = (0..100).map(|_| gray(0)).collect();
    let mut curr = prev.clone();
    for i in 0..n {
        curr[i] = gray(1);
    }
    (prev, curr)
}

#[test]
fn promotion_61_changes_gives_keyframe() {
    let (prev, curr) = grid_with_changes(61);
    match compute_delta(&prev, &curr, 10, false) {
        FrameDiff::Keyframe(k) => assert_eq!(k, curr),
        FrameDiff::Delta(_) => panic!("expected a keyframe"),
    }
}

#[test]
fn promotion_60_changes_gives_delta() {
    let (prev, curr) = grid_with_changes(60);
    match compute_delta(&prev, &curr, 10, false) {
        FrameDiff::Delta(d) => {
            assert_eq!(d.len(), 60);
            assert_eq!(d[0], DeltaCell { x: 0, y: 0, cell: gray(1) });
            assert_eq!(d[59], DeltaCell { x: 9, y: 5, cell: gray(1) });
        }
        FrameDiff::Keyframe(_) => panic!("expected a delta"),
    }
}

#[test]
fn empty_delta_when_unchanged() {
    let (prev, curr) = grid_with_changes(0);
    match compute_delta(&prev, &curr, 10, false) {
        FrameDiff::Delta(d) => {
            assert!(d.is_empty());
            let mut cells = prev.clone();
            apply_delta(&mut cells, &d, 10);
            assert_eq!(cells, prev);
        }
        FrameDiff::Keyframe(_) => panic!("expected a delta"),
    }
}

#[test]
fn forced_and_first_frames_are_keyframes() {
    let (prev, curr) = grid_with_changes(3);
    assert!(matches!(compute_delta(&prev, &curr, 10, true), FrameDiff::Keyframe(_)));
    assert!(matches!(compute_delta(&[], &curr, 10, false), FrameDiff::Keyframe(_)));
}

#[test]
fn delta_applies_to_previous_grid() {
    let prev: Vec<Cell> = (0..12).map(|i| gray(i as u8)).collect();
    let mut curr = prev.clone();
    curr[5] = gray(200);
    curr[11] = gray(201);
    match compute_delta(&prev, &curr, 4, false) {
        FrameDiff::Delta(d) => {
            assert_eq!(d, vec![
                DeltaCell { x: 1, y: 1, cell: gray(200) },
                DeltaCell { x: 3, y: 2, cell: gray(201) },
            ]);
            for dc in &d {
                assert!(dc.x < 4 && dc.y < 3);
            }
            let mut cells = prev.clone();
            apply_delta(&mut cells, &d, 4);
            assert_eq!(cells, curr);
        }
        FrameDiff::Keyframe(_) => panic!("expected a delta"),
    }
}

#[test]
fn apply_delta_ignores_outside_cells() {
    let mut cells = vec![gray(0); 4];
    apply_delta(&mut cells, &[DeltaCell { x: 0, y: 2, cell: gray(9) }, DeltaCell { x: 1, y: 1, cell: gray(8) }], 2);
    assert_eq!(cells, vec![gray(0), gray(0), gray(0), gray(8)]);
}

#[test]
fn halfblock_two_by_two() {
    let rgb = [1, 2, 3, 4, 5, 6, 7, 8, 9, 10, 11, 12];
    let cells = pixels_to_cells(&rgb, 2, 2);
    assert_eq!(cells, vec![
        Cell { bg_r: 1, bg_g: 2, bg_b: 3, fg_r: 7, fg_g: 8, fg_b: 9 },
        Cell { bg_r: 4, bg_g: 5, bg_b: 6, fg_r: 10, fg_g: 11, fg_b: 12 },
    ]);
}

#[test]
fn halfblock_pixels_land_in_their_cells() {
    // 3 pixels wide, 4 tall: pixel (x, y) has red x, green y.
    let mut rgb = Vec::new();
    for y in 0..4u8 {
        for x in 0..3u8 {
            rgb.extend_from_slice(&[x, y, 7]);
        }
    }
    let cells = pixels_to_cells(&rgb, 3, 4);
    assert_eq!(cells.len(), 6);
    for row in 0..2usize {
        for col in 0..3usize {
            let c = cells[row * 3 + col];
            assert_eq!((c.bg_r, c.bg_g, c.bg_b), (col as u8, (2 * row) as u8, 7));
            assert_eq!((c.fg_r, c.fg_g, c.fg_b), (col as u8, (2 * row + 1) as u8, 7));
        }
    }
}

#[test]
fn renderer_suppression() {
    let c = Cell { bg_r: 10, bg_g: 20, bg_b: 30, fg_r: 40, fg_g: 50, fg_b: 60 };
    let mut buf = Vec::new();
    render_keyframe(&[c, c], 2, 1, &mut buf);
    assert_eq!(count(&buf, b"48;2;10;20;30"), 1);
    assert_eq!(count(&buf, b"38;2;40;50;60"), 1);
    assert_eq!(count(&buf, "▄".as_bytes()), 2);
    assert_eq!(buf, b"\x1b[H\x1b[48;2;10;20;30m\x1b[38;2;40;50;60m\xe2\x96\x84\xe2\x96\x84\x1b[0m".to_vec());
}

#[test]
fn renderer_flat_frame_of_any_size() {
    let c = gray(7);
    let cells = vec![c; 120 * 40];
    let mut buf = Vec::new();
    render_keyframe(&cells, 120, 40, &mut buf);
    assert_eq!(count(&buf, b"\x1b[48;2;"), 1);
    assert_eq!(count(&buf, b"\x1b[38;2;"), 1);
    assert_eq!(count(&buf, b"\r\n"), 39);
    assert_eq!(count(&buf, "▄".as_bytes()), 4800);
}

#[test]
fn renderer_changes_only_what_differs() {
    let a = Cell { bg_r: 1, bg_g: 1, bg_b: 1, fg_r: 2, fg_g: 2, fg_b: 2 };
    let b = Cell { bg_r: 1, bg_g: 1, bg_b: 1, fg_r: 3, fg_g: 3, fg_b: 3 };
    let mut buf = Vec::new();
    render_keyframe(&[a, b, b, a], 2, 2, &mut buf);
    let expected = b"\x1b[H\x1b[48;2;1;1;1m\x1b[38;2;2;2;2m\xe2\x96\x84\x1b[38;2;3;3;3m\xe2\x96\x84\r\n\xe2\x96\x84\x1b[38;2;2;2;2m\xe2\x96\x84\x1b[0m";
    assert_eq!(buf, expected.to_vec());
}

#[test]
fn render_delta_positions_are_one_indexed() {
    let c = Cell { bg_r: 255, bg_g: 0, bg_b: 9, fg_r: 100, fg_g: 10, fg_b: 1 };
    let mut buf = vec![1, 2, 3];
    render_delta(&[DeltaCell { x: 12344, y: 0, cell: c }, DeltaCell { x: 9, y: 998, cell: c }], &mut buf);
    let expected = "\x1b[1;12345H\x1b[48;2;255;0;9m\x1b[38;2;100;10;1m▄\x1b[999;10H\x1b[48;2;255;0;9m\x1b[38;2;100;10;1m▄";
    assert_eq!(buf, expected.as_bytes().to_vec());
}

#[test]
fn lateness_is_exact() {
    // At 30 fps frame 0 ends at 33333.3 us.
    assert!(!frame_is_late(0, 10, 30, 1, 33_333));
    assert!(frame_is_late(0, 10, 30, 1, 33_334));
    // The last frame is never late.
    assert!(!frame_is_late(9, 10, 30, 1, 1_000_000_000));
    // 30000/1001 fps: frame 0 ends at 33366.6 us.
    assert!(!frame_is_late(0, 10, 30000, 1001, 33_366));
    assert!(frame_is_late(0, 10, 30000, 1001, 33_367));
    assert_eq!(next_frame_due_us(0, 30, 1), 33_333);
    assert_eq!(next_frame_due_us(29, 30, 1), 1_000_000);
}

#[test]
fn late_frames_plan() {
    assert_eq!(plan_frame(FrameType::Delta, false), FrameAction::Render);
    assert_eq!(plan_frame(FrameType::Keyframe, false), FrameAction::Render);
    assert_eq!(plan_frame(FrameType::Keyframe, true), FrameAction::Install);
    assert_eq!(plan_frame(FrameType::Delta, true), FrameAction::Skip);
}

#[test]
fn skipped_deltas_keep_last_keyframe() {
    let k0 = vec![gray(1), gray(2)];
    let k1 = vec![gray(5), gray(6)];
    let mut current = Vec::new();
    let mut buf = Vec::new();
    let frames = vec![
        FrameDiff::Keyframe(k0.clone()),
        FrameDiff::Delta(vec![DeltaCell { x: 0, y: 0, cell: gray(9) }]),
        FrameDiff::Keyframe(k1.clone()),
        FrameDiff::Delta(vec![DeltaCell { x: 1, y: 0, cell: gray(9) }]),
    ];
    let expected = [k0.clone(), k0.clone(), k1.clone(), k1.clone()];
    for (i, f) in frames.into_iter().enumerate() {
        let late = i != 2;
        let rendered = play_frame(&mut current, f, late, 2, 1, &mut buf);
        assert_eq!(rendered, !late);
        assert_eq!(current, expected[i]);
    }
}

#[test]
fn on_time_delta_applies_and_renders() {
    let mut current = vec![gray(1), gray(2)];
    let mut buf = Vec::new();
    let d = vec![DeltaCell { x: 1, y: 0, cell: gray(3) }];
    assert!(play_frame(&mut current, FrameDiff::Delta(d), false, 2, 1, &mut buf));
    assert_eq!(current, vec![gray(1), gray(3)]);
    assert_eq!(buf, b"\x1b[1;2H\x1b[48;2;3;3;3m\x1b[38;2;3;3;3m\xe2\x96\x84".to_vec());
}

#[test]
fn render_delta_at_the_last_position() {
    let c = gray(0);
    let mut buf = Vec::new();
    render_delta(&[DeltaCell { x: 65535, y: 65535, cell: c }], &mut buf);
    let expected = "\x1b[65536;65536H\x1b[48;2;0;0;0m\x1b[38;2;0;0;0m▄";
    assert_eq!(buf, expected.as_bytes().to_vec());
}
