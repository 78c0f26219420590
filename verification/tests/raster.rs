use mykvm::raster::{cube_edge, draw_line, put_pixel, render, CLEAR_COLOR, LINE_COLOR, PIXELS};

const W: usize = 640;
const H: usize = 480;

fn blank() -> Vec<u32> {
    vec![0u32; W * H]
}

fn lit(fb: &[u32], color: u32) -> Vec<(usize, usize)> {
    let mut points = Vec::new();
    for (i, px) in fb.iter().enumerate() {
        if *px == color {
            points.push((i % W, i / W));
        }
    }
    points
}

/// The same line walked with an error term, point by point.
fn walk(x0: i64, y0: i64, x1: i64, y1: i64) -> Vec<(i64, i64)> {
    let (mut x, mut y) = (x0, y0);
    let dx = (x1 - x0).abs();
    let sx = if x0 < x1 { 1 } else { -1 };
    let dy = -(y1 - y0).abs();
    let sy = if y0 < y1 { 1 } else { -1 };
    let mut err = dx + dy;
    let mut points = Vec::new();
    loop {
        points.push((x, y));
        if x == x1 && y == y1 {
            break;
        }
        let e2 = 2 * err;
        if e2 >= dy {
            err += dy;
            x += sx;
        }
        if e2 <= dx {
            err += dx;
            y += sy;
        }
    }
    points
}

fn expected(points: &[(i64, i64)], color: u32) -> Vec<u32> {
    let mut fb = blank();
    for (x, y) in points {
        if *x >= 0 && *y >= 0 && *x < W as i64 && *y < H as i64 {
            fb[*y as usize * W + *x as usize] = color;
        }
    }
    fb
}

#[test]
fn frame_has_640_by_480_pixels() {
    assert_eq!(PIXELS, W * H);
}

#[test]
fn pixel_is_set_row_by_row() {
    let mut fb = blank();
    put_pixel(&mut fb, 0, 0, 1);
    put_pixel(&mut fb, 639, 0, 2);
    put_pixel(&mut fb, 0, 1, 3);
    put_pixel(&mut fb, 639, 479, 4);
    put_pixel(&mut fb, 17, 5, 5);
    assert_eq!(fb[0], 1);
    assert_eq!(fb[639], 2);
    assert_eq!(fb[640], 3);
    assert_eq!(fb[640 * 480 - 1], 4);
    assert_eq!(fb[5 * 640 + 17], 5);
    assert_eq!(fb.iter().filter(|px| **px != 0).count(), 5);
}

#[test]
fn pixel_outside_the_frame_is_left_out() {
    let mut fb = blank();
    for (x, y) in [(-1, 0), (0, -1), (640, 0), (0, 480), (640, 480), (i32::MIN, 5), (5, i32::MAX)] {
        put_pixel(&mut fb, x, y, 9);
    }
    assert_eq!(fb, blank());
}

#[test]
fn pixel_beyond_a_short_buffer_is_left_out() {
    let mut fb = vec![0u32; 700];
    put_pixel(&mut fb, 59, 1, 7);
    put_pixel(&mut fb, 60, 1, 8);
    put_pixel(&mut fb, 0, 2, 8);
    assert_eq!(fb[699], 7);
    assert_eq!(fb.iter().filter(|px| **px != 0).count(), 1);
    let mut none: Vec<u32> = Vec::new();
    put_pixel(&mut none, 0, 0, 1);
    assert!(none.is_empty());
}

#[test]
fn line_of_one_point() {
    let mut fb = blank();
    draw_line(&mut fb, 10, 20, 10, 20, 7);
    assert_eq!(lit(&fb, 7), vec![(10, 20)]);
}

#[test]
fn horizontal_and_vertical_lines() {
    let mut fb = blank();
    draw_line(&mut fb, 3, 4, 8, 4, 7);
    assert_eq!(lit(&fb, 7), vec![(3, 4), (4, 4), (5, 4), (6, 4), (7, 4), (8, 4)]);
    let mut fb = blank();
    draw_line(&mut fb, 8, 4, 3, 4, 7);
    assert_eq!(lit(&fb, 7), vec![(3, 4), (4, 4), (5, 4), (6, 4), (7, 4), (8, 4)]);
    let mut fb = blank();
    draw_line(&mut fb, 2, 9, 2, 6, 7);
    assert_eq!(lit(&fb, 7), vec![(2, 6), (2, 7), (2, 8), (2, 9)]);
}

#[test]
fn diagonal_line() {
    let mut fb = blank();
    draw_line(&mut fb, 1, 1, 4, 4, 7);
    assert_eq!(lit(&fb, 7), vec![(1, 1), (2, 2), (3, 3), (4, 4)]);
    let mut fb = blank();
    draw_line(&mut fb, 4, 1, 1, 4, 7);
    assert_eq!(lit(&fb, 7), vec![(4, 1), (3, 2), (2, 3), (1, 4)]);
}

#[test]
fn shallow_and_steep_lines() {
    let mut fb = blank();
    draw_line(&mut fb, 0, 0, 2, 1, 7);
    assert_eq!(lit(&fb, 7), vec![(0, 0), (1, 1), (2, 1)]);
    let mut fb = blank();
    draw_line(&mut fb, 0, 0, 1, 2, 7);
    assert_eq!(lit(&fb, 7), vec![(0, 0), (1, 1), (1, 2)]);
    let mut fb = blank();
    draw_line(&mut fb, 0, 0, 5, 2, 7);
    assert_eq!(lit(&fb, 7), vec![(0, 0), (1, 0), (2, 1), (3, 1), (4, 2), (5, 2)]);
    let mut fb = blank();
    draw_line(&mut fb, 5, 2, 0, 0, 7);
    assert_eq!(lit(&fb, 7), vec![(0, 0), (1, 0), (2, 1), (3, 1), (4, 2), (5, 2)]);
}

#[test]
fn lines_agree_with_the_error_term_walk() {
    let ends: Vec<(i32, i32, i32, i32)> = vec![
        (0, 0, 639, 479),
        (639, 479, 0, 0),
        (0, 479, 639, 0),
        (10, 10, 11, 300),
        (300, 11, 10, 10),
        (5, 5, 6, 6),
        (100, 200, 400, 201),
        (100, 200, 101, 450),
        (320, 240, 200, 120),
        (320, 240, 440, 121),
        (17, 3, 250, 60),
        (17, 300, 250, 59),
        (1, 1, 2, 4),
        (7, 0, 0, 3),
        (0, 0, 3, 1),
        (0, 0, 1, 3),
        (0, 0, 2, 2),
        (0, 0, 4, 2),
        (0, 0, 2, 4),
        (0, 0, 6, 3),
    ];
    for (x0, y0, x1, y1) in ends {
        let mut fb = blank();
        draw_line(&mut fb, x0, y0, x1, y1, 0xAB);
        let points = walk(x0 as i64, y0 as i64, x1 as i64, y1 as i64);
        assert_eq!(fb, expected(&points, 0xAB), "line {:?}", (x0, y0, x1, y1));
    }
}

#[test]
fn every_short_line_agrees_with_the_error_term_walk() {
    for x1 in -9i32..=9 {
        for y1 in -9i32..=9 {
            let mut fb = blank();
            draw_line(&mut fb, 20, 20, 20 + x1, 20 + y1, 3);
            let points = walk(20, 20, 20 + x1 as i64, 20 + y1 as i64);
            let got = lit(&fb, 3);
            let mut want: Vec<(usize, usize)> =
                points.iter().map(|(x, y)| (*x as usize, *y as usize)).collect();
            want.sort_by_key(|(x, y)| (*y, *x));
            assert_eq!(got, want, "to {:?}", (x1, y1));
        }
    }
}

#[test]
fn line_is_clipped_to_the_frame() {
    let mut fb = blank();
    draw_line(&mut fb, -5, 3, 5, 3, 7);
    assert_eq!(lit(&fb, 7), vec![(0, 3), (1, 3), (2, 3), (3, 3), (4, 3), (5, 3)]);
    let mut fb = blank();
    draw_line(&mut fb, 635, 479, 645, 489, 7);
    assert_eq!(lit(&fb, 7), vec![(635, 479)]);
    let mut fb = blank();
    draw_line(&mut fb, -100, -100, -1, -1, 7);
    assert_eq!(fb, blank());
    let mut fb = blank();
    draw_line(&mut fb, -3000, 240, 3000, 240, 7);
    assert_eq!(lit(&fb, 7).len(), 640);
}

#[test]
fn line_keeps_what_it_does_not_cover() {
    let mut fb = vec![5u32; W * H];
    draw_line(&mut fb, 0, 0, 3, 0, 7);
    assert_eq!(&fb[..5], &[7, 7, 7, 7, 5]);
    assert_eq!(fb.iter().filter(|px| **px == 5).count(), W * H - 4);
}

#[test]
fn cube_has_twelve_edges() {
    let edges: Vec<(usize, usize)> = (0..12).map(|i| cube_edge(i).unwrap()).collect();
    assert_eq!(
        edges,
        vec![(0, 1), (1, 2), (2, 3), (3, 0), (4, 5), (5, 6), (6, 7), (7, 4), (0, 4), (1, 5), (2, 6), (3, 7)]
    );
    assert_eq!(cube_edge(12), None);
    assert_eq!(cube_edge(usize::MAX), None);
}

#[test]
fn render_clears_and_draws_the_edges() {
    let proj: [(i32, i32); 8] = [
        (200, 120),
        (440, 120),
        (440, 360),
        (200, 360),
        (260, 180),
        (380, 180),
        (380, 300),
        (260, 300),
    ];
    let mut fb = vec![0x1234u32; W * H];
    render(&mut fb, &proj);
    let mut want = vec![CLEAR_COLOR; W * H];
    for e in 0..12 {
        let (a, b) = cube_edge(e).unwrap();
        draw_line(&mut want, proj[a].0, proj[a].1, proj[b].0, proj[b].1, LINE_COLOR);
    }
    assert_eq!(fb, want);
    assert_eq!(fb[120 * W + 200], LINE_COLOR);
    assert_eq!(fb[120 * W + 320], LINE_COLOR);
    assert_eq!(fb[240 * W + 320], CLEAR_COLOR);
    assert_eq!(fb[0], 0xFF00_0000);
    assert!(fb.iter().all(|px| *px == CLEAR_COLOR || *px == LINE_COLOR));
}

#[test]
fn render_leaves_what_lies_beyond_the_frame() {
    let proj = [(0, 0); 8];
    let mut fb = vec![9u32; W * H + 3];
    render(&mut fb, &proj);
    assert_eq!(fb[0], LINE_COLOR);
    assert_eq!(fb[1], CLEAR_COLOR);
    assert_eq!(&fb[W * H..], &[9, 9, 9]);
    let mut short = vec![9u32; 10];
    render(&mut short, &proj);
    assert_eq!(short[0], LINE_COLOR);
    assert_eq!(&short[1..], &[CLEAR_COLOR; 9]);
}
