use voxel_raytracer::{
    is_solid, layer_placements, pad_rows, rows_of_layer, scene_placements, shape_of, Palette,
    Placement, Shape, SolidRule,
};

fn chars(s: &str) -> Vec<char> {
    s.chars().collect()
}

#[test]
fn layer_rows_drop_blank_edges_and_carriage_returns() {
    let rows = rows_of_layer("\n  \r\nXX\r\n\nX X\r\r\n \t\n");
    assert_eq!(rows, vec![chars("XX"), chars(""), chars("X X")]);
    assert_eq!(rows_of_layer(""), Vec::<Vec<char>>::new());
    assert_eq!(rows_of_layer(" \n\t\n"), Vec::<Vec<char>>::new());
    assert_eq!(rows_of_layer("ab"), vec![chars("ab")]);
}

#[test]
fn rows_are_padded_to_the_widest() {
    let (cols, rows) = pad_rows(&vec![chars("X"), chars("XXX"), chars("")]);
    assert_eq!(cols, 3);
    assert_eq!(rows, vec![chars("X  "), chars("XXX"), chars("   ")]);
}

#[test]
fn slab_characters_make_slabs() {
    assert_eq!(shape_of('_'), Shape::BottomSlab);
    assert_eq!(shape_of('-'), Shape::TopSlab);
    assert_eq!(shape_of('X'), Shape::Cube);
}

#[test]
fn solid_characters_under_palette_rule() {
    let rule = SolidRule::palette_driven();
    let mut pal: Palette<u8> = Palette::new();
    pal.set('G', 1);
    assert!(is_solid(&rule, &pal, 'X'));
    assert!(is_solid(&rule, &pal, 'G'));
    assert!(is_solid(&rule, &pal, '_'));
    assert!(!is_solid(&rule, &pal, 'Q'));
    assert!(!is_solid(&rule, &pal, ' '));
}

#[test]
fn any_non_whitespace_rule_uses_unicode_white_space() {
    let rule = SolidRule { any_non_whitespace_is_solid: true, solid_chars: vec![] };
    let pal: Palette<u8> = Palette::new();
    assert!(is_solid(&rule, &pal, 'Q'));
    assert!(is_solid(&rule, &pal, '.'));
    assert!(!is_solid(&rule, &pal, ' '));
    assert!(!is_solid(&rule, &pal, '\t'));
    assert!(!is_solid(&rule, &pal, '\u{3000}'));
    assert!(!is_solid(&rule, &pal, '\u{a0}'));
}

#[test]
fn layer_placements_in_row_major_order() {
    let rule = SolidRule::palette_driven();
    let mut pal: Palette<u8> = Palette::new();
    pal.set('D', 0);
    let out = layer_placements(2, "\nX D\n_\n", &rule, &pal);
    let p = |row, col, ch, shape| Placement { layer: 2, row, col, rows: 2, cols: 3, ch, shape };
    assert_eq!(
        out,
        vec![p(0, 0, 'X', Shape::Cube), p(0, 2, 'D', Shape::Cube), p(1, 0, '_', Shape::BottomSlab)]
    );
}

#[test]
fn scene_keeps_numbers_of_empty_layers() {
    let rule = SolidRule::palette_driven();
    let pal: Palette<u8> = Palette::new();
    let layers = vec![String::from("X"), String::from("  \n"), String::from("-X")];
    let out = scene_placements(&layers, &rule, &pal);
    assert_eq!(out.len(), 3);
    assert_eq!((out[0].layer, out[0].row, out[0].col), (0, 0, 0));
    assert_eq!((out[1].layer, out[1].col, out[1].shape), (2, 0, Shape::TopSlab));
    assert_eq!((out[2].layer, out[2].col, out[2].cols), (2, 1, 2));
}
