use orbital::render::{blend, decay, draw_frame, splat_span, Splat, RENDER_RADIUS};

fn uniform_splat(left: usize, top: usize, cols: usize, rows: usize, c: (u8, u8, u8)) -> Splat {
    Splat { left, top, colors: vec![vec![c; cols]; rows] }
}

fn byte(width: usize, x: usize, y: usize, ch: usize) -> usize {
    (y * width + x) * 4 + ch
}

#[test]
fn decay_lowers_each_byte_by_one_and_stops_at_zero() {
    let mut px = vec![0u8, 1, 2, 255];
    decay(&mut px);
    assert_eq!(px, vec![0, 0, 1, 254]);
}

#[test]
fn blend_adds_to_channels_but_not_the_first_byte() {
    let mut px = vec![0u8; 3 * 2 * 4];
    blend(&mut px, 3, 2, &uniform_splat(1, 1, 1, 1, (10, 20, 30)));
    assert_eq!(px[byte(3, 1, 1, 0)], 0);
    assert_eq!(px[byte(3, 1, 1, 1)], 10);
    assert_eq!(px[byte(3, 1, 1, 2)], 20);
    assert_eq!(px[byte(3, 1, 1, 3)], 30);
    assert_eq!(px.iter().map(|b| *b as u32).sum::<u32>(), 60);
}

#[test]
fn blend_saturates_at_255() {
    let mut px = vec![250u8; 4];
    blend(&mut px, 1, 1, &uniform_splat(0, 0, 1, 1, (3, 10, 255)));
    assert_eq!(px, vec![250, 253, 255, 255]);
}

#[test]
fn blend_clips_pixels_outside_the_buffer() {
    let mut px = vec![0u8; 2 * 2 * 4];
    blend(&mut px, 2, 2, &uniform_splat(1, 1, 3, 3, (1, 1, 1)));
    for y in 0..2 {
        for x in 0..2 {
            let expected = if x == 1 && y == 1 { 1 } else { 0 };
            assert_eq!(px[byte(2, x, y, 1)], expected);
        }
    }
}

#[test]
fn blend_places_rows_and_columns() {
    let mut px = vec![0u8; 4 * 3 * 4];
    let s = Splat { left: 1, top: 0, colors: vec![vec![(1, 0, 0), (2, 0, 0)], vec![(3, 0, 0)]] };
    blend(&mut px, 4, 3, &s);
    assert_eq!(px[byte(4, 1, 0, 1)], 1);
    assert_eq!(px[byte(4, 2, 0, 1)], 2);
    assert_eq!(px[byte(4, 1, 1, 1)], 3);
    assert_eq!(px[byte(4, 2, 1, 1)], 0);
}

#[test]
fn draw_frame_decays_then_adds() {
    let mut px = vec![5u8; 2 * 1 * 4];
    draw_frame(&mut px, 2, 1, &vec![uniform_splat(0, 0, 1, 1, (1, 2, 3))]);
    assert_eq!(px, vec![4, 5, 6, 7, 4, 4, 4, 4]);
}

#[test]
fn draw_frame_does_not_depend_on_splat_order() {
    let a = uniform_splat(0, 0, 2, 2, (200, 7, 0));
    let b = uniform_splat(1, 1, 2, 2, (100, 9, 1));
    let mut first = vec![3u8; 3 * 3 * 4];
    let mut second = first.clone();
    draw_frame(&mut first, 3, 3, &vec![a, b]);
    let a = uniform_splat(0, 0, 2, 2, (200, 7, 0));
    let b = uniform_splat(1, 1, 2, 2, (100, 9, 1));
    draw_frame(&mut second, 3, 3, &vec![b, a]);
    assert_eq!(first, second);
    assert_eq!(first[byte(3, 1, 1, 1)], 255);
    assert_eq!(first[byte(3, 1, 1, 2)], 18);
}

#[test]
fn splat_lights_dark_buffer_then_fades_to_dark() {
    let (w, h) = (32usize, 32usize);
    let mut px = vec![0u8; w * h * 4];
    let (x0, x1) = splat_span(16, w);
    let (y0, y1) = splat_span(16, h);
    let colors = vec![vec![(40u8, 80u8, 120u8); x1 - x0]; y1 - y0];
    draw_frame(&mut px, w, h, &vec![Splat { left: x0, top: y0, colors }]);
    for y in y0..y1 {
        for x in x0..x1 {
            for ch in 1..4 {
                assert!(px[byte(w, x, y, ch)] > 0);
            }
        }
    }
    assert_eq!(px[byte(w, 0, 0, 1)], 0);
    let mut previous = px.clone();
    for _ in 0..255 {
        draw_frame(&mut px, w, h, &vec![]);
        assert!(px.iter().zip(previous.iter()).all(|(a, b)| a <= b));
        previous = px.clone();
    }
    assert!(px.iter().all(|b| *b == 0));
}

#[test]
fn splat_span_in_the_interior() {
    assert_eq!(splat_span(16, 32), (16 - RENDER_RADIUS, 16 + RENDER_RADIUS));
}

#[test]
fn splat_span_at_the_edges() {
    assert_eq!(splat_span(2, 32), (0, 7));
    assert_eq!(splat_span(30, 32), (25, 31));
    assert_eq!(splat_span(100, 32), (95, 31));
    assert_eq!(splat_span(0, 0), (0, 0));
}
