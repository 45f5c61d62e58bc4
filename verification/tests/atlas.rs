use rem::render::caches::{load_glyph, preload_chars, Atlas, Loaded, Placement, Size};
use rem::render::Error;

fn rect(atlas: u32, x: u32, y: u32, width: u32, height: u32) -> Placement {
    Placement { atlas, x, y, width, height }
}

fn overlap(a: &Placement, b: &Placement) -> bool {
    a.x < b.x + b.width && b.x < a.x + a.width && a.y < b.y + b.height && b.y < a.y + a.height
}

#[test]
fn new_atlas_keeps_size_and_texture() {
    let a = Atlas::new(Size::new(64, 32), 7);
    assert_eq!(a.size().x, 64);
    assert_eq!(a.size().y, 32);
    assert_eq!(a.texture_id(), 7);
}

#[test]
fn glyphs_fill_a_row_then_the_next() {
    let mut a = Atlas::new(Size::new(10, 10), 3);
    assert_eq!(a.insert(4, 3).unwrap(), rect(3, 0, 0, 4, 3));
    assert_eq!(a.insert(4, 5).unwrap(), rect(3, 4, 0, 4, 5));
    // 8 + 4 is not below 10: the next row starts under the tallest glyph
    assert_eq!(a.insert(4, 2).unwrap(), rect(3, 0, 5, 4, 2));
    assert_eq!(a.insert(5, 2).unwrap(), rect(3, 4, 5, 5, 2));
}

#[test]
fn a_glyph_reaching_exactly_the_right_edge_starts_a_new_row() {
    let mut a = Atlas::new(Size::new(10, 10), 0);
    assert_eq!(a.insert(6, 2).unwrap(), rect(0, 0, 0, 6, 2));
    // 6 + 4 == 10 is not strictly inside
    assert_eq!(a.insert(4, 2).unwrap(), rect(0, 0, 2, 4, 2));
}

#[test]
fn a_glyph_too_tall_for_the_rest_is_atlas_full() {
    let mut a = Atlas::new(Size::new(10, 10), 0);
    assert_eq!(a.insert(4, 5).unwrap(), rect(0, 0, 0, 4, 5));
    // 4 + 8 is past the edge: the next row starts at 5, and 5 + 6 > 10
    assert!(matches!(a.insert(8, 6), Err(Error::AtlasFull)));
    // the atlas moved to the next row and is still usable for a glyph that fits
    assert_eq!(a.insert(4, 5).unwrap(), rect(0, 0, 5, 4, 5));
}

#[test]
fn no_room_below_is_an_atlas_error() {
    let mut a = Atlas::new(Size::new(10, 4), 0);
    assert_eq!(a.insert(6, 4).unwrap(), rect(0, 0, 0, 6, 4));
    match a.insert(6, 1) {
        Err(Error::AtlasError(m)) => assert_eq!(m, "last line of atlas"),
        other => panic!("unexpected {:?}", other),
    }
}

#[test]
fn placements_never_overlap() {
    let mut a = Atlas::new(Size::new(32, 32), 1);
    let mut placed: Vec<Placement> = Vec::new();
    let sizes = [(5u32, 7u32), (9, 3), (12, 4), (3, 9), (8, 8), (7, 2), (10, 5), (4, 4), (6, 6), (11, 1)];
    for (w, h) in sizes.iter() {
        if let Ok(p) = a.insert(*w, *h) {
            assert!(p.x + p.width < 32);
            assert!(p.y + p.height <= 32);
            for q in placed.iter() {
                assert!(!overlap(&p, q), "{:?} overlaps {:?}", p, q);
            }
            placed.push(p);
        }
    }
    assert!(placed.len() >= 6);
}

#[test]
fn load_glyph_asks_for_a_new_atlas_when_full() {
    let mut atlases = vec![Atlas::new(Size::new(8, 8), 10)];
    let mut last = 0usize;
    match load_glyph(&mut atlases, &mut last, 4, 6).unwrap() {
        Loaded::Placed(p) => assert_eq!(p, rect(10, 0, 0, 4, 6)),
        other => panic!("unexpected {:?}", other),
    }
    match load_glyph(&mut atlases, &mut last, 5, 3).unwrap() {
        Loaded::NeedsAtlas(size) => {
            assert_eq!((size.x, size.y), (8, 8));
            assert_eq!(last, 1);
            atlases.push(Atlas::new(size, 11));
        }
        other => panic!("unexpected {:?}", other),
    }
    match load_glyph(&mut atlases, &mut last, 5, 3).unwrap() {
        Loaded::Placed(p) => assert_eq!(p, rect(11, 0, 0, 5, 3)),
        other => panic!("unexpected {:?}", other),
    }
    assert_eq!(last, 1);
}

#[test]
fn load_glyph_fills_the_current_atlas_before_later_ones() {
    let mut atlases = vec![Atlas::new(Size::new(8, 8), 1), Atlas::new(Size::new(8, 8), 2)];
    let mut last = 0usize;
    match load_glyph(&mut atlases, &mut last, 3, 3).unwrap() {
        Loaded::Placed(p) => assert_eq!(p, rect(1, 0, 0, 3, 3)),
        other => panic!("unexpected {:?}", other),
    }
    match load_glyph(&mut atlases, &mut last, 3, 9).unwrap() {
        Loaded::NeedsAtlas(size) => assert_eq!((size.x, size.y, last), (8, 8, 1)),
        other => panic!("unexpected {:?}", other),
    }
    match load_glyph(&mut atlases, &mut last, 2, 2).unwrap() {
        Loaded::Placed(p) => assert_eq!(p, rect(2, 0, 0, 2, 2)),
        other => panic!("unexpected {:?}", other),
    }
    assert_eq!(atlases.len(), 2);
}

#[test]
fn load_glyph_passes_other_errors_on() {
    let mut atlases = vec![Atlas::new(Size::new(8, 2), 4)];
    let mut last = 0usize;
    load_glyph(&mut atlases, &mut last, 6, 2).unwrap();
    assert!(matches!(load_glyph(&mut atlases, &mut last, 6, 1), Err(Error::AtlasError(_))));
    assert_eq!(last, 0);
}

#[test]
fn preloaded_characters() {
    let chars = preload_chars();
    assert_eq!(chars.len(), 190);
    assert_eq!(chars[0], 33);
    assert_eq!(chars[93], 126);
    assert_eq!(chars[94], 161);
    assert_eq!(chars[189], 256);
    let expected: Vec<u32> = (33..=126).chain(161..=256).collect();
    assert_eq!(chars, expected);
}
