use innards::AppState;
use innards::grid_len;

fn pixel(frame: &[u8], width: u32, px: u32, py: u32) -> (u8, u8, u8, u8) {
    let base = (4 * (py * width + px)) as usize;
    (frame[base], frame[base + 1], frame[base + 2], frame[base + 3])
}

#[test]
fn grid_len_values() {
    assert_eq!(grid_len(100, 4), 24);
    assert_eq!(grid_len(8, 4), 1);
    assert_eq!(grid_len(4, 4), 0);
    assert_eq!(grid_len(9, 3), 2);
    assert_eq!(grid_len(9, 4), 2);
    assert_eq!(grid_len(1, 1), 0);
    assert_eq!(grid_len(10, 1), 9);
}

#[test]
fn buffer_shape() {
    let state = AppState::new(10, 7);
    let gw = grid_len(10, state.scale) as usize;
    let gh = grid_len(7, state.scale) as usize;
    let samples = vec![0u32; gw * gh];
    let frame = state.generate_image_data(&samples, &vec![(1, 2, 3)]);
    assert_eq!(frame.len(), 4 * 10 * 7);
}

#[test]
fn single_block_colors_and_alpha() {
    // 8x8 canvas, 4-pixel blocks: one visited block at the origin.
    let state = AppState::new(8, 8);
    let palette = vec![(10, 20, 30), (40, 50, 60), (70, 80, 90)];
    // Iteration count 5 picks palette entry 5 mod 3 == 2.
    let samples = vec![5u32];
    let frame = state.generate_image_data(&samples, &palette);
    assert_eq!(frame.len(), 4 * 8 * 8);
    for py in 0..4 {
        for px in 0..4 {
            assert_eq!(pixel(&frame, 8, px, py), (70, 80, 90, 255));
        }
    }
    // The trailing strips are never visited and stay zeroed.
    for py in 0..8 {
        for px in 4..8 {
            assert_eq!(pixel(&frame, 8, px, py), (0, 0, 0, 0));
        }
    }
    for py in 4..8 {
        for px in 0..8 {
            assert_eq!(pixel(&frame, 8, px, py), (0, 0, 0, 0));
        }
    }
}

#[test]
fn two_blocks_row_major() {
    // 9x5 canvas, 4-pixel blocks: two visited blocks side by side.
    let mut state = AppState::new(9, 5);
    state.set_scale(6);
    assert_eq!(state.scale, 4);
    assert_eq!(grid_len(9, 4), 2);
    assert_eq!(grid_len(5, 4), 1);
    let palette = vec![(11, 12, 13), (21, 22, 23)];
    let samples = vec![0u32, 1u32];
    let frame = state.generate_image_data(&samples, &palette);
    assert_eq!(frame.len(), 4 * 9 * 5);
    assert_eq!(pixel(&frame, 9, 0, 0), (11, 12, 13, 255));
    assert_eq!(pixel(&frame, 9, 3, 3), (11, 12, 13, 255));
    assert_eq!(pixel(&frame, 9, 4, 0), (21, 22, 23, 255));
    assert_eq!(pixel(&frame, 9, 7, 3), (21, 22, 23, 255));
    // Trailing column and row keep their zero bytes.
    assert_eq!(pixel(&frame, 9, 8, 0), (0, 0, 0, 0));
    assert_eq!(pixel(&frame, 9, 0, 4), (0, 0, 0, 0));
}

#[test]
fn sample_origins_walk_row_major() {
    let state = AppState::new(9, 9);
    // 4-pixel blocks on a 9-pixel axis: origins 0 and 4.
    let origins = state.sample_origins();
    assert_eq!(origins, vec![(0, 0), (4, 0), (0, 4), (4, 4)]);

    let state = AppState::new(1, 1);
    assert!(state.sample_origins().is_empty());
}

#[test]
fn generator_is_deterministic() {
    let state = AppState::new(100, 100);
    let palette = vec![(3, 1, 4), (1, 5, 9), (2, 6, 5)];
    let gw = grid_len(100, state.scale) as usize;
    let samples: Vec<u32> = (0..(gw * gw) as u32).collect();
    let first = state.generate_image_data(&samples, &palette);
    let second = state.generate_image_data(&samples, &palette);
    assert_eq!(first, second);
    assert_eq!(first.len(), 4 * 100 * 100);
}

#[test]
fn palette_index_wraps() {
    let state = AppState::new(8, 8);
    let palette = vec![(1, 1, 1), (2, 2, 2)];
    let frame = state.generate_image_data(&vec![900u32], &palette);
    // 900 mod 2 == 0.
    assert_eq!(pixel(&frame, 8, 0, 0), (1, 1, 1, 255));
    let frame = state.generate_image_data(&vec![901u32], &palette);
    assert_eq!(pixel(&frame, 8, 0, 0), (2, 2, 2, 255));
}

#[test]
fn tiny_canvas_stays_zero() {
    // A 1x1 canvas has no room for any 4-pixel block: nothing is painted.
    let state = AppState::new(1, 1);
    assert_eq!(grid_len(1, state.scale), 0);
    let frame = state.generate_image_data(&Vec::new(), &vec![(1, 2, 3)]);
    assert_eq!(frame, vec![0, 0, 0, 0]);
}

#[test]
fn block_larger_than_canvas_stays_zero() {
    // Quality level 0 selects 10-pixel blocks; an 8x8 canvas fits none.
    let mut state = AppState::new(8, 8);
    state.set_scale(0);
    assert_eq!(state.scale, 10);
    assert_eq!(grid_len(8, 10), 0);
    let frame = state.generate_image_data(&Vec::new(), &vec![(1, 2, 3)]);
    assert_eq!(frame.len(), 4 * 8 * 8);
    assert!(frame.iter().all(|&byte| byte == 0));
}

#[test]
fn finest_scale_covers_all_but_last_line() {
    // Block side 1: every pixel except the last row and column is painted.
    let mut state = AppState::new(3, 3);
    state.set_scale(9);
    assert_eq!(state.scale, 1);
    let palette = vec![(9, 9, 9)];
    let samples = vec![0u32; 4];
    let frame = state.generate_image_data(&samples, &palette);
    for py in 0..2 {
        for px in 0..2 {
            assert_eq!(pixel(&frame, 3, px, py), (9, 9, 9, 255));
        }
    }
    for k in 0..3 {
        assert_eq!(pixel(&frame, 3, 2, k), (0, 0, 0, 0));
        assert_eq!(pixel(&frame, 3, k, 2), (0, 0, 0, 0));
    }
}
