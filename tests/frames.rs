use voxel_raytracer::{render_band, row_bands, Color, Framebuffer};

fn shade(x: usize, y: usize) -> Color {
    Color::new((x * 7 % 256) as u8, (y * 13 % 256) as u8, ((x + y) % 256) as u8, 255)
}

#[test]
fn new_framebuffer_is_black_with_white_pen() {
    let mut fb = Framebuffer::new(3, 2);
    assert_eq!(fb.width(), 3);
    assert_eq!(fb.height(), 2);
    assert_eq!(fb.pixels().len(), 6);
    assert!(fb.pixels().iter().all(|c| *c == Color::black()));
    fb.set_pixel(2, 1);
    assert_eq!(fb.pixels()[5], Color::white());
}

#[test]
fn set_pixel_outside_is_ignored() {
    let mut fb = Framebuffer::new(2, 2);
    fb.set_current_color(Color::new(1, 2, 3, 4));
    fb.set_pixel(2, 0);
    fb.set_pixel(0, 2);
    assert!(fb.pixels().iter().all(|c| *c == Color::black()));
    fb.set_pixel(1, 0);
    assert_eq!(fb.pixels()[1], Color::new(1, 2, 3, 4));
}

#[test]
fn clear_fills_with_background() {
    let mut fb = Framebuffer::new(4, 4);
    fb.set_pixel(1, 1);
    fb.set_background_color(Color::new(10, 20, 30, 255));
    fb.clear();
    assert!(fb.pixels().iter().all(|c| *c == Color::new(10, 20, 30, 255)));
}

#[test]
fn pixels_mut_writes_through() {
    let mut fb = Framebuffer::new(2, 1);
    fb.pixels_mut()[1] = Color::new(9, 9, 9, 9);
    assert_eq!(fb.pixels()[1], Color::new(9, 9, 9, 9));
}

#[test]
fn bands_split_rows_by_ceiling() {
    assert_eq!(row_bands(900, 4), vec![(0, 225), (225, 450), (450, 675), (675, 900)]);
    assert_eq!(row_bands(10, 4), vec![(0, 3), (3, 6), (6, 9), (9, 10)]);
    assert_eq!(row_bands(2, 4), vec![(0, 1), (1, 2)]);
    assert_eq!(row_bands(5, 1), vec![(0, 5)]);
    assert_eq!(row_bands(0, 4), Vec::<(usize, usize)>::new());
    // ceil(7 / 6) = 2 rows each: only four bands are needed
    assert_eq!(row_bands(7, 6), vec![(0, 2), (2, 4), (4, 6), (6, 7)]);
}

#[test]
fn band_buffer_holds_shaded_rows() {
    let band = render_band(3, 2, 4, &shade);
    assert_eq!(band.len(), 6);
    assert_eq!(band[0], shade(0, 2));
    assert_eq!(band[4], shade(1, 3));
}

#[test]
fn composite_writes_band_rows_at_their_offset() {
    let mut fb = Framebuffer::new(2, 3);
    let red = Color::new(255, 0, 0, 255);
    fb.composite(&vec![(1, vec![red, red])]);
    let px = fb.pixels();
    assert_eq!(px[0], Color::black());
    assert_eq!(px[2], red);
    assert_eq!(px[3], red);
    assert_eq!(px[4], Color::black());
}

fn render_with(threads: usize, w: u32, h: u32) -> Vec<Color> {
    let mut fb = Framebuffer::new(w, h);
    let bands = row_bands(h as usize, threads);
    let mut results = Vec::new();
    for (y0, y1) in bands {
        results.push((y0, render_band(w as usize, y0, y1, &shade)));
    }
    fb.composite(&results);
    fb.pixels().to_vec()
}

#[test]
fn image_is_the_same_for_any_number_of_workers() {
    let one = render_with(1, 7, 11);
    for t in 2..13 {
        assert_eq!(render_with(t, 7, 11), one);
    }
    for (i, c) in one.iter().enumerate() {
        assert_eq!(*c, shade(i % 7, i / 7));
    }
}
