use voxel_raytracer::{BlockSelector, Color, LightKind, Palette, Texture};

#[test]
fn palette_set_get_and_replace() {
    let mut pal: Palette<&str> = Palette::new();
    assert!(pal.get('X').is_none());
    pal.set('X', "grass");
    pal.set('D', "dirt");
    assert_eq!(pal.get('X'), Some(&"grass"));
    pal.set('X', "stone");
    assert_eq!(pal.get('X'), Some(&"stone"));
    assert!(pal.contains('D'));
    assert!(!pal.contains('d'));
}

fn two_by_three() -> Texture {
    let a = Color::new(1, 0, 0, 255);
    let b = Color::new(0, 1, 0, 0);
    Texture::from_pixels(2, 3, vec![a, b, b, a, a, b]).unwrap()
}

#[test]
fn texture_needs_matching_size() {
    assert!(Texture::from_pixels(0, 1, vec![]).is_none());
    assert!(Texture::from_pixels(2, 2, vec![Color::black(); 3]).is_none());
    assert!(Texture::from_pixels(usize::MAX, 2, vec![Color::black(); 2]).is_none());
    let t = two_by_three();
    assert_eq!((t.width(), t.height()), (2, 3));
}

#[test]
fn texel_is_row_major_from_top_left() {
    let t = two_by_three();
    assert_eq!(t.texel(1, 0), Color::new(0, 1, 0, 0));
    assert_eq!(t.texel(0, 1), Color::new(0, 1, 0, 0));
    assert_eq!(t.texel(1, 2), Color::new(0, 1, 0, 0));
    assert_eq!(t.texel(0, 2), Color::new(1, 0, 0, 255));
}

#[test]
fn nearest_texel_clamps_to_the_image() {
    let t = two_by_three();
    assert_eq!(t.nearest(-4, -1), t.texel(0, 0));
    assert_eq!(t.nearest(5, 9), t.texel(1, 2));
    assert_eq!(t.nearest(i64::MAX, 1), t.texel(1, 1));
    assert_eq!(t.nearest(0, 1), t.texel(0, 1));
}

#[test]
fn selector_cycles_both_ways() {
    let mut s = BlockSelector::new(vec!['X', 'D', 'L']);
    assert_eq!(s.current_block_char(), 'X');
    s.prev();
    assert_eq!(s.current_block_char(), 'L');
    s.next();
    s.next();
    assert_eq!(s.sel_idx(), 1);
    assert_eq!(s.current_block_char(), 'D');
    s.next();
    s.next();
    assert_eq!(s.current_block_char(), 'X');
}

#[test]
fn empty_selector_falls_back_to_default_block() {
    let mut s = BlockSelector::new(vec![]);
    s.next();
    s.prev();
    assert_eq!(s.sel_idx(), 0);
    assert_eq!(s.current_block_char(), 'X');
}

#[test]
fn light_kinds_differ() {
    assert_ne!(LightKind::Point, LightKind::Directional);
}
