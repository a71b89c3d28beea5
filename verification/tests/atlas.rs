use procmod_overlay::font::{GlyphAtlas, GlyphBox, ATLAS_SIZE, GLYPH_COUNT, OUTLINE_PAD};

fn sizes_of(w: u32, h: u32) -> Vec<(u32, u32)> {
    (0..GLYPH_COUNT)
        .map(|i| if i == 0 { (0, 0) } else { (w + (i as u32 % 5), h + (i as u32 % 3)) })
        .collect()
}

fn boxes(atlas: &GlyphAtlas) -> Vec<GlyphBox> {
    (32u8..127)
        .filter_map(|c| atlas.glyph(c as char))
        .filter(|g| g.width > 0 && g.height > 0)
        .collect()
}

#[test]
fn synthetic_atlas_creation() {
    let atlas = GlyphAtlas::new(&sizes_of(9, 12));
    assert_eq!(atlas.width, 512);
    assert_eq!(atlas.height, 512);
    assert_eq!(atlas.pixels.len(), (atlas.width * atlas.height * 2) as usize);
    assert!(atlas.pixels.iter().all(|&p| p == 0));
}

#[test]
fn synthetic_glyph_boxes_do_not_overlap() {
    let atlas = GlyphAtlas::new(&sizes_of(30, 40));
    let pad = OUTLINE_PAD;
    let boxes: Vec<(u32, u32, u32, u32)> = boxes(&atlas)
        .iter()
        .map(|g| (g.x - pad, g.y - pad, g.width + pad * 2, g.height + pad * 2))
        .collect();
    assert_eq!(boxes.len(), GLYPH_COUNT - 1);
    for (i, a) in boxes.iter().enumerate() {
        for b in &boxes[i + 1..] {
            let disjoint =
                a.0 + a.2 <= b.0 || b.0 + b.2 <= a.0 || a.1 + a.3 <= b.1 || b.1 + b.3 <= a.1;
            assert!(disjoint, "glyph boxes {a:?} and {b:?} overlap");
        }
    }
}

#[test]
fn synthetic_boxes_fit_inside_a_grown_atlas() {
    let atlas = GlyphAtlas::new(&sizes_of(60, 70));
    assert!(atlas.height > 512);
    assert_eq!(atlas.height % 512, 0);
    assert_eq!(atlas.pixels.len(), (atlas.width * atlas.height * 2) as usize);
    for g in boxes(&atlas) {
        assert!(g.x >= OUTLINE_PAD);
        assert!(g.y >= OUTLINE_PAD);
        assert!(g.x + g.width + OUTLINE_PAD <= atlas.width);
        assert!(g.y + g.height + OUTLINE_PAD <= atlas.height);
    }
}

#[test]
fn first_row_is_packed_left_to_right() {
    let atlas = GlyphAtlas::new(&sizes_of(10, 10));
    let b = atlas.glyph('!').unwrap();
    assert_eq!((b.x, b.y, b.width, b.height), (OUTLINE_PAD, OUTLINE_PAD, 11, 11));
    let c = atlas.glyph('"').unwrap();
    assert_eq!(c.x, 11 + 2 * OUTLINE_PAD + 1 + OUTLINE_PAD);
    assert_eq!(c.y, OUTLINE_PAD);
}

#[test]
fn blank_and_unknown_glyphs() {
    let atlas = GlyphAtlas::new(&sizes_of(10, 10));
    assert_eq!(
        atlas.glyph(' '),
        Some(GlyphBox { x: 0, y: 0, width: 0, height: 0 })
    );
    assert!(atlas.glyph('\u{1F600}').is_none());
    assert!(atlas.glyph('\u{7f}').is_none());
    assert!(atlas.glyph('\n').is_none());
    assert!(atlas.glyph('~').is_some());
}

#[test]
fn glyph_sets_that_cannot_be_packed() {
    assert!(GlyphAtlas::can_hold(&sizes_of(10, 10)));
    assert!(!GlyphAtlas::can_hold(&vec![(1, 1); 3]));
    let mut wide = sizes_of(10, 10);
    wide[5] = (ATLAS_SIZE, 1);
    assert!(!GlyphAtlas::can_hold(&wide));
    let mut tall = sizes_of(10, 10);
    tall[7] = (1, 5_000_000);
    assert!(!GlyphAtlas::can_hold(&tall));
}
