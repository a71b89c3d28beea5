use vstd::prelude::*;

verus! {

/// Texels of padding reserved around every glyph, and the range of the distance field.
///
/// An outline can never be wider than this, because the field is only computed inside
/// the padded box.
pub const OUTLINE_PAD: u32 = 8;

/// Width of the atlas, and its height before it grows.
pub const ATLAS_SIZE: u32 = 512;

/// First character code rasterized into the atlas (the space).
pub const FIRST_GLYPH: u32 = 32;

/// Number of printable ASCII characters rasterized into the atlas, `' '` to `'~'`.
pub const GLYPH_COUNT: usize = 95;

/// Number of entries of the glyph table: one per ASCII code.
pub const GLYPH_TABLE_LEN: usize = 128;

/// Where a glyph's bitmap sits in the atlas.
///
/// `x` and `y` locate the glyph itself. [`OUTLINE_PAD`] texels of distance field surround
/// it. A glyph without pixels, such as the space, has an all-zero box.
#[derive(Debug, Clone, Copy, PartialEq, Eq, Structural)]
pub struct GlyphBox {
    pub x: u32,
    pub y: u32,
    pub width: u32,
    pub height: u32,
}

/// The cursor of the shelf packer: `x` is where the next box may start on the current
/// row, `y` is the top of that row, `row` is the height of the tallest box on it, and
/// `need` is one more than the lowest padded box bottom so far.
pub struct Shelf {
    pub x: int,
    pub y: int,
    pub row: int,
    pub need: int,
}

pub open spec fn pad() -> int {
    OUTLINE_PAD as int
}

/// A glyph that has no pixels takes no room.
pub open spec fn is_blank(size: (u32, u32)) -> bool {
    size.0 == 0 || size.1 == 0
}

/// Width of a glyph's box with the padding on both sides.
pub open spec fn padded(extent: u32) -> int {
    extent + 2 * pad()
}

/// The box does not fit on the rest of the current row.
pub open spec fn wraps(s: Shelf, size: (u32, u32), width: int) -> bool {
    s.x + padded(size.0) + 1 > width
}

/// Top-left corner of the padded box placed next.
pub open spec fn corner(s: Shelf, size: (u32, u32), width: int) -> (int, int) {
    if wraps(s, size, width) {
        (0, s.y + s.row + 1)
    } else {
        (s.x, s.y)
    }
}

/// The packer after placing one more glyph. Boxes are one texel apart.
pub open spec fn step(s: Shelf, size: (u32, u32), width: int) -> Shelf {
    if is_blank(size) {
        s
    } else {
        let (cx, cy) = corner(s, size, width);
        let bh = padded(size.1);
        Shelf {
            x: cx + padded(size.0) + 1,
            y: cy,
            row: if wraps(s, size, width) {
                bh
            } else if s.row >= bh {
                s.row
            } else {
                bh
            },
            need: if s.need >= cy + bh + 1 {
                s.need
            } else {
                cy + bh + 1
            },
        }
    }
}

/// The packer after placing every glyph of `sizes` in order, in an atlas `width` wide.
pub open spec fn shelf(sizes: Seq<(u32, u32)>, width: int) -> Shelf
    decreases sizes.len(),
{
    if sizes.len() == 0 {
        Shelf { x: 0, y: 0, row: 0, need: 0 }
    } else {
        step(shelf(sizes.drop_last(), width), sizes.last(), width)
    }
}

/// Where glyph `i` of `sizes` lands.
pub open spec fn slot(sizes: Seq<(u32, u32)>, width: int, i: int) -> GlyphBox {
    let size = sizes[i];
    if is_blank(size) {
        GlyphBox { x: 0, y: 0, width: 0, height: 0 }
    } else {
        let (cx, cy) = corner(shelf(sizes.take(i), width), size, width);
        GlyphBox { x: (cx + pad()) as u32, y: (cy + pad()) as u32, width: size.0, height: size.1 }
    }
}

/// Height of the atlas after doubling from `height` until `need` rows fit.
pub open spec fn grown(need: int, height: int) -> int
    decreases (if need > height {
        need - height
    } else {
        0
    }),
{
    if height <= 0 || need <= height {
        height
    } else {
        grown(need, 2 * height)
    }
}

/// Final height of the atlas that holds glyphs of the given sizes.
pub open spec fn atlas_height(sizes: Seq<(u32, u32)>) -> int {
    grown(shelf(sizes, ATLAS_SIZE as int).need, ATLAS_SIZE as int)
}

/// Every padded box is narrower than the atlas.
pub open spec fn boxes_fit_width(sizes: Seq<(u32, u32)>, width: int) -> bool {
    forall|i: int|
        0 <= i < sizes.len() && !is_blank(#[trigger] sizes[i]) ==> padded(sizes[i].0) + 1 <= width
}

/// The glyph sizes can be packed: one per printable ASCII character, each box narrower
/// than the atlas, and the two bytes per texel of the grown atlas countable in 32 bits.
pub open spec fn atlas_fits(sizes: Seq<(u32, u32)>) -> bool {
    &&& sizes.len() == GLYPH_COUNT
    &&& boxes_fit_width(sizes, ATLAS_SIZE as int)
    &&& ATLAS_SIZE as int * atlas_height(sizes) * 2 <= u32::MAX
}

/// The padded boxes `a` and `b` share no texel.
pub open spec fn padded_disjoint(a: GlyphBox, b: GlyphBox) -> bool {
    let (ax, ay, aw, ah) = (a.x - pad(), a.y - pad(), a.width + 2 * pad(), a.height + 2 * pad());
    let (bx, by, bw, bh) = (b.x - pad(), b.y - pad(), b.width + 2 * pad(), b.height + 2 * pad());
    ax + aw <= bx || bx + bw <= ax || ay + ah <= by || by + bh <= ay
}

/// The shelf after a prefix is the shelf before it stepped once more.
pub proof fn lemma_shelf_take(sizes: Seq<(u32, u32)>, width: int, i: int)
    requires
        0 <= i < sizes.len(),
    ensures
        shelf(sizes.take(i + 1), width) == step(shelf(sizes.take(i), width), sizes[i], width),
{
    assert(sizes.take(i + 1).drop_last() =~= sizes.take(i));
}

/// Bounds that hold of the packer at every point, when every box fits the width.
pub proof fn lemma_shelf_bounds(sizes: Seq<(u32, u32)>, width: int)
    requires
        width >= 0,
        boxes_fit_width(sizes, width),
    ensures
        0 <= shelf(sizes, width).x <= width,
        0 <= shelf(sizes, width).y <= shelf(sizes, width).need,
        shelf(sizes, width).row >= 0,
        (shelf(sizes, width).x == 0 && shelf(sizes, width).row == 0) || (shelf(sizes, width).row
            > 0 && shelf(sizes, width).y + shelf(sizes, width).row + 1 <= shelf(
            sizes,
            width,
        ).need),
    decreases sizes.len(),
{
    if sizes.len() > 0 {
        let rest = sizes.drop_last();
        assert forall|i: int|
            0 <= i < rest.len() && !is_blank(#[trigger] rest[i]) implies padded(rest[i].0) + 1
            <= width by {
            assert(rest[i] == sizes[i]);
        }
        lemma_shelf_bounds(rest, width);
        assert(!is_blank(sizes.last()) ==> padded(sizes.last().0) + 1 <= width) by {
            assert(sizes.last() == sizes[sizes.len() - 1]);
        }
    }
}

/// The packer's `need` only grows as glyphs are placed.
pub proof fn lemma_need_grows(sizes: Seq<(u32, u32)>, width: int, i: int)
    requires
        0 <= i <= sizes.len(),
    ensures
        shelf(sizes.take(i), width).need <= shelf(sizes, width).need,
        shelf(sizes.take(i), width).need >= 0,
    decreases sizes.len() - i,
{
    if i < sizes.len() {
        lemma_shelf_take(sizes, width, i);
        lemma_need_grows(sizes, width, i + 1);
        lemma_need_nonneg(sizes.take(i), width);
    } else {
        assert(sizes.take(i) =~= sizes);
        lemma_need_nonneg(sizes, width);
    }
}

proof fn lemma_need_nonneg(sizes: Seq<(u32, u32)>, width: int)
    ensures
        shelf(sizes, width).need >= 0,
    decreases sizes.len(),
{
    if sizes.len() > 0 {
        lemma_need_nonneg(sizes.drop_last(), width);
    }
}

/// Doubling from a positive height ends at or above the need, and never below the start.
pub proof fn lemma_grown(need: int, height: int)
    requires
        height > 0,
    ensures
        grown(need, height) >= height,
        grown(need, height) >= need,
    decreases (if need > height {
        need - height
    } else {
        0
    }),
{
    if need > height {
        lemma_grown(need, 2 * height);
    }
}

/// An atlas whose bytes can be counted in 32 bits is at most four million texels tall.
pub proof fn lemma_atlas_height_bound(sizes: Seq<(u32, u32)>)
    requires
        ATLAS_SIZE as int * atlas_height(sizes) * 2 <= u32::MAX,
    ensures
        atlas_height(sizes) <= 0x40_0000,
{
    let h = atlas_height(sizes);
    assert(h <= 0x40_0000) by (nonlinear_arith)
        requires
            512 * h * 2 <= 0xffff_ffff,
    ;
}

/// A padded box with top-left `c` lies on an earlier row than the packer's cursor, or on
/// its row and wholly left of it.
pub open spec fn behind(c: (int, int), size: (u32, u32), s: Shelf) -> bool {
    ||| c.1 + padded(size.1) < s.y
    ||| (c.1 == s.y && c.0 + padded(size.0) < s.x && padded(size.1) <= s.row)
}

proof fn lemma_behind_step(c: (int, int), size: (u32, u32), s: Shelf, g: (u32, u32), width: int)
    requires
        behind(c, size, s),
        s.row >= 0,
    ensures
        behind(c, size, step(s, g, width)),
{
}

proof fn lemma_placed_behind(s: Shelf, g: (u32, u32), width: int)
    requires
        !is_blank(g),
    ensures
        behind(corner(s, g, width), g, step(s, g, width)),
{
}

proof fn lemma_behind_prefix(sizes: Seq<(u32, u32)>, width: int, i: int, k: int)
    requires
        0 <= i < k <= sizes.len(),
        !is_blank(sizes[i]),
    ensures
        behind(corner(shelf(sizes.take(i), width), sizes[i], width), sizes[i], shelf(sizes.take(k), width)),
    decreases k - i,
{
    lemma_shelf_take(sizes, width, k - 1);
    lemma_row_nonneg(sizes.take(k - 1), width);
    if k == i + 1 {
        lemma_placed_behind(shelf(sizes.take(i), width), sizes[i], width);
    } else {
        lemma_behind_prefix(sizes, width, i, k - 1);
        lemma_behind_step(
            corner(shelf(sizes.take(i), width), sizes[i], width),
            sizes[i],
            shelf(sizes.take(k - 1), width),
            sizes[k - 1],
            width,
        );
    }
}

proof fn lemma_row_nonneg(sizes: Seq<(u32, u32)>, width: int)
    ensures
        shelf(sizes, width).row >= 0,
    decreases sizes.len(),
{
    if sizes.len() > 0 {
        lemma_row_nonneg(sizes.drop_last(), width);
    }
}

/// A box behind the cursor is apart from the box placed next: wholly left of it or wholly
/// above it.
proof fn lemma_separated(c: (int, int), size: (u32, u32), s: Shelf, g: (u32, u32), width: int)
    requires
        behind(c, size, s),
        s.row >= 0,
    ensures
        c.0 + padded(size.0) <= corner(s, g, width).0 || c.1 + padded(size.1) <= corner(
            s,
            g,
            width,
        ).1,
{
}

/// The corner of a box lies inside the rows the packer has claimed so far.
proof fn lemma_corner_bounds(sizes: Seq<(u32, u32)>, width: int, i: int)
    requires
        0 <= i < sizes.len(),
        width >= 0,
        boxes_fit_width(sizes, width),
        !is_blank(sizes[i]),
    ensures
        0 <= corner(shelf(sizes.take(i), width), sizes[i], width).0,
        corner(shelf(sizes.take(i), width), sizes[i], width).0 + padded(sizes[i].0) + 1 <= width,
        0 <= corner(shelf(sizes.take(i), width), sizes[i], width).1,
        corner(shelf(sizes.take(i), width), sizes[i], width).1 + padded(sizes[i].1) + 1 <= shelf(
            sizes,
            width,
        ).need,
{
    assert forall|k: int|
        0 <= k < sizes.take(i).len() && !is_blank(#[trigger] sizes.take(i)[k]) implies padded(
        sizes.take(i)[k].0,
    ) + 1 <= width by {
        assert(sizes.take(i)[k] == sizes[k]);
    }
    lemma_shelf_bounds(sizes.take(i), width);
    lemma_shelf_take(sizes, width, i);
    lemma_need_grows(sizes, width, i + 1);
}

/// Law: the padded boxes of two different glyphs never share a texel, so no glyph's
/// distance field is written over another's.
pub proof fn lemma_glyph_boxes_disjoint(sizes: Seq<(u32, u32)>, i: int, j: int)
    requires
        atlas_fits(sizes),
        0 <= i < sizes.len(),
        0 <= j < sizes.len(),
        i != j,
        !is_blank(sizes[i]),
        !is_blank(sizes[j]),
    ensures
        padded_disjoint(slot(sizes, ATLAS_SIZE as int, i), slot(sizes, ATLAS_SIZE as int, j)),
{
    let width = ATLAS_SIZE as int;
    lemma_atlas_height_bound(sizes);
    lemma_grown(shelf(sizes, width).need, width);
    lemma_corner_bounds(sizes, width, i);
    lemma_corner_bounds(sizes, width, j);
    let (a, b) = if i < j {
        (i, j)
    } else {
        (j, i)
    };
    lemma_behind_prefix(sizes, width, a, b);
    lemma_row_nonneg(sizes.take(b), width);
    lemma_separated(
        corner(shelf(sizes.take(a), width), sizes[a], width),
        sizes[a],
        shelf(sizes.take(b), width),
        sizes[b],
        width,
    );
}

/// Law: every padded glyph box lies inside the atlas, with its padding.
pub proof fn lemma_glyph_boxes_inside(sizes: Seq<(u32, u32)>, i: int)
    requires
        atlas_fits(sizes),
        0 <= i < sizes.len(),
        !is_blank(sizes[i]),
    ensures
        slot(sizes, ATLAS_SIZE as int, i).x >= OUTLINE_PAD,
        slot(sizes, ATLAS_SIZE as int, i).y >= OUTLINE_PAD,
        slot(sizes, ATLAS_SIZE as int, i).x + slot(sizes, ATLAS_SIZE as int, i).width + OUTLINE_PAD
            <= ATLAS_SIZE,
        slot(sizes, ATLAS_SIZE as int, i).y + slot(sizes, ATLAS_SIZE as int, i).height
            + OUTLINE_PAD <= atlas_height(sizes),
{
    let width = ATLAS_SIZE as int;
    lemma_atlas_height_bound(sizes);
    lemma_grown(shelf(sizes, width).need, width);
    lemma_corner_bounds(sizes, width, i);
}

/// A texture atlas of rasterized glyphs.
///
/// Two bytes per texel: coverage for the glyph fill, and a distance field encoding the
/// distance from the texel to the glyph contour. The glyph table has one entry per ASCII
/// code; the printable characters have a box, the others none.
pub struct GlyphAtlas {
    pub width: u32,
    pub height: u32,
    pub pixels: Vec<u8>,
    pub glyphs: Vec<Option<GlyphBox>>,
}

impl GlyphAtlas {
    /// The glyph table, by character code.
    pub open spec fn table(&self) -> Seq<Option<GlyphBox>> {
        self.glyphs@
    }

    /// What the table holds once glyphs of the given sizes are packed: the box of each
    /// printable character, nothing for other codes.
    pub open spec fn packed_table(sizes: Seq<(u32, u32)>) -> Seq<Option<GlyphBox>> {
        Seq::new(
            GLYPH_TABLE_LEN as nat,
            |c: int|
                if FIRST_GLYPH <= c < FIRST_GLYPH + GLYPH_COUNT {
                    Some(slot(sizes, ATLAS_SIZE as int, c - FIRST_GLYPH))
                } else {
                    None
                },
        )
    }

    /// Blank atlas of the starting size holding the packed glyph boxes.
    ///
    /// The packer places the glyphs row by row; whenever the atlas is too short it doubles
    /// the height and starts over, so the boxes end up where `slot` puts them and the
    /// height is the first doubling that holds them all.
    pub fn new(sizes: &Vec<(u32, u32)>) -> (atlas: Self)
        requires
            atlas_fits(sizes@),
        ensures
            atlas.wf(),
            atlas.width == ATLAS_SIZE,
            atlas.height == atlas_height(sizes@),
            forall|i: int| 0 <= i < atlas.pixels@.len() ==> #[trigger] atlas.pixels@[i] == 0,
            atlas.table() == Self::packed_table(sizes@),
    {
        let size = ATLAS_SIZE;
        let mut glyphs: Vec<Option<GlyphBox>> = Vec::new();
        let mut k: usize = 0;
        while k < GLYPH_TABLE_LEN
            invariant
                k <= GLYPH_TABLE_LEN,
                glyphs@.len() == k,
                forall|j: int| 0 <= j < k ==> #[trigger] glyphs@[j] == None::<GlyphBox>,
            decreases GLYPH_TABLE_LEN - k,
        {
            glyphs.push(None);
            k = k + 1;
        }
        let mut atlas = GlyphAtlas {
            width: size,
            height: size,
            pixels: vec![0u8; (size * size * 2) as usize],
            glyphs,
        };
        proof {
            lemma_grown(shelf(sizes@, ATLAS_SIZE as int).need, ATLAS_SIZE as int);
        }
        loop
            invariant
                atlas_fits(sizes@),
                atlas.width == ATLAS_SIZE,
                atlas.wf(),
                ATLAS_SIZE <= atlas.height,
                grown(shelf(sizes@, ATLAS_SIZE as int).need, atlas.height as int) == atlas_height(
                    sizes@,
                ),
                forall|i: int| 0 <= i < atlas.pixels@.len() ==> #[trigger] atlas.pixels@[i] == 0,
                forall|c: int|
                    0 <= c < GLYPH_TABLE_LEN && !(FIRST_GLYPH <= c < FIRST_GLYPH + GLYPH_COUNT)
                        ==> #[trigger] atlas.glyphs@[c] == None::<GlyphBox>,
            decreases atlas_height(sizes@) - atlas.height,
        {
            proof {
                lemma_grown(shelf(sizes@, ATLAS_SIZE as int).need, atlas.height as int);
            }
            if atlas.place_glyphs(sizes) {
                proof {
                    assert(atlas.glyphs@ =~= Self::packed_table(sizes@));
                }
                return atlas;
            }
            proof {
                lemma_grown(shelf(sizes@, ATLAS_SIZE as int).need, 2 * atlas.height);
            }
            atlas.grow();
        }
    }

    /// The pixel buffer holds two bytes per texel and the glyph table one entry per ASCII
    /// code.
    pub open spec fn wf(&self) -> bool {
        &&& self.pixels@.len() == self.width * self.height * 2
        &&& self.width * self.height * 2 <= u32::MAX
        &&& self.table().len() == GLYPH_TABLE_LEN
    }

    /// Place every glyph, row by row, while the atlas is tall enough. Returns false as soon
    /// as a box would reach past the bottom.
    fn place_glyphs(&mut self, sizes: &Vec<(u32, u32)>) -> (placed: bool)
        requires
            atlas_fits(sizes@),
            old(self).width == ATLAS_SIZE,
            old(self).wf(),
            old(self).height as int <= atlas_height(sizes@),
            shelf(sizes@, ATLAS_SIZE as int).need <= atlas_height(sizes@),
            forall|c: int|
                0 <= c < GLYPH_TABLE_LEN && !(FIRST_GLYPH <= c < FIRST_GLYPH + GLYPH_COUNT)
                    ==> #[trigger] old(self).glyphs@[c] == None::<GlyphBox>,
        ensures
            final(self).width == old(self).width,
            final(self).height == old(self).height,
            final(self).pixels@ == old(self).pixels@,
            final(self).wf(),
            placed == (shelf(sizes@, ATLAS_SIZE as int).need <= old(self).height),
            forall|c: int|
                0 <= c < GLYPH_TABLE_LEN && !(FIRST_GLYPH <= c < FIRST_GLYPH + GLYPH_COUNT)
                    ==> #[trigger] final(self).glyphs@[c] == None::<GlyphBox>,
            placed ==> forall|c: int|
                FIRST_GLYPH <= c < FIRST_GLYPH + GLYPH_COUNT ==> #[trigger] final(self).glyphs@[c]
                    == Some(slot(sizes@, ATLAS_SIZE as int, c - FIRST_GLYPH)),
    {
        let pad = OUTLINE_PAD;
        let width = self.width;
        let mut cursor_x: u32 = 0;
        let mut cursor_y: u32 = 0;
        let mut row_height: u32 = 0;
        let mut i: usize = 0;
        proof {
            lemma_grown(shelf(sizes@, ATLAS_SIZE as int).need, ATLAS_SIZE as int);
        }
        while i < sizes.len()
            invariant
                i <= sizes.len() == GLYPH_COUNT,
                width == self.width == old(self).width == ATLAS_SIZE,
                pad == OUTLINE_PAD,
                self.height == old(self).height,
                self.pixels@ == old(self).pixels@,
                self.wf(),
                atlas_fits(sizes@),
                shelf(sizes@, ATLAS_SIZE as int).need <= atlas_height(sizes@),
                ATLAS_SIZE as int * atlas_height(sizes@) * 2 <= u32::MAX,
                shelf(sizes@.take(i as int), width as int) == (Shelf {
                    x: cursor_x as int,
                    y: cursor_y as int,
                    row: row_height as int,
                    need: shelf(sizes@.take(i as int), width as int).need,
                }),
                shelf(sizes@.take(i as int), width as int).need <= self.height,
                forall|c: int|
                    0 <= c < GLYPH_TABLE_LEN && !(FIRST_GLYPH <= c < FIRST_GLYPH + GLYPH_COUNT)
                        ==> #[trigger] self.glyphs@[c] == None::<GlyphBox>,
                forall|c: int|
                    FIRST_GLYPH <= c < FIRST_GLYPH + i ==> #[trigger] self.glyphs@[c] == Some(
                        slot(sizes@, ATLAS_SIZE as int, c - FIRST_GLYPH),
                    ),
            decreases sizes.len() - i,
        {
            proof {
                lemma_shelf_take(sizes@, width as int, i as int);
                assert(sizes@.take(i as int).len() == i);
                assert forall|k: int|
                    0 <= k < sizes@.take(i as int).len() && !is_blank(
                        #[trigger] sizes@.take(i as int)[k],
                    ) implies padded(sizes@.take(i as int)[k].0) + 1 <= width by {
                    assert(sizes@.take(i as int)[k] == sizes@[k]);
                }
                lemma_shelf_bounds(sizes@.take(i as int), width as int);
                lemma_need_grows(sizes@, width as int, i as int + 1);
                assert(sizes@.take(i as int + 1).len() == i + 1);
            }
            let (w, h) = sizes[i];
            let code = FIRST_GLYPH as usize + i;
            if w == 0 || h == 0 {
                self.glyphs.set(code, Some(GlyphBox { x: 0, y: 0, width: 0, height: 0 }));
            } else {
                assert(!is_blank(sizes@[i as int]));
                proof {
                    let before = shelf(sizes@.take(i as int), width as int);
                    let after = shelf(sizes@.take(i as int + 1), width as int);
                    assert(after.need >= corner(before, sizes@[i as int], width as int).1 + padded(
                        h,
                    ) + 1);
                    assert(corner(before, sizes@[i as int], width as int).1 >= 0);
                    assert(after.need <= shelf(sizes@, width as int).need);
                    assert(after.need <= atlas_height(sizes@));
                    lemma_atlas_height_bound(sizes@);
                    assert(h + 16 <= 0x40_0000);
                }
                let box_w = w + pad * 2;
                let box_h = h + pad * 2;
                if cursor_x > width - (box_w + 1) {
                    cursor_x = 0;
                    cursor_y = cursor_y + row_height + 1;
                    row_height = 0;
                }
                if cursor_y + box_h + 1 > self.height {
                    return false;
                }
                let x = cursor_x + pad;
                let y = cursor_y + pad;
                self.glyphs.set(code, Some(GlyphBox { x, y, width: w, height: h }));
                cursor_x = cursor_x + box_w + 1;
                if row_height < box_h {
                    row_height = box_h;
                }
            }
            i = i + 1;
        }
        proof {
            assert(sizes@.take(i as int) =~= sizes@);
        }
        true
    }

    /// Doubles the height and clears the pixels.
    fn grow(&mut self)
        requires
            old(self).wf(),
            old(self).width == ATLAS_SIZE,
            old(self).width * old(self).height * 4 <= u32::MAX,
        ensures
            final(self).wf(),
            final(self).width == old(self).width,
            final(self).height == old(self).height * 2,
            final(self).glyphs@ == old(self).glyphs@,
            forall|i: int| 0 <= i < final(self).pixels@.len() ==> #[trigger] final(self).pixels@[i] == 0,
    {
        self.height = self.height * 2;
        self.pixels.clear();
        let len = ATLAS_SIZE * self.height * 2;
        self.pixels.resize(len as usize, 0);
    }

    /// The box of a character, when the atlas has one for it.
    pub fn glyph(&self, c: char) -> (g: Option<GlyphBox>)
        ensures
            g == (if (c as int) < self.table().len() {
                self.table()[c as int]
            } else {
                None
            }),
    {
        let idx = c as u32 as usize;
        if idx < self.glyphs.len() {
            self.glyphs[idx]
        } else {
            None
        }
    }

    /// Whether glyphs of these sizes, one per printable ASCII character from the space on,
    /// can be packed into an atlas.
    pub fn can_hold(sizes: &Vec<(u32, u32)>) -> (b: bool)
        ensures
            b == atlas_fits(sizes@),
    {
        if sizes.len() != GLYPH_COUNT {
            return false;
        }
        let width = ATLAS_SIZE as u64;
        let mut x: u64 = 0;
        let mut y: u64 = 0;
        let mut row: u64 = 0;
        let mut need: u64 = 0;
        let mut i: usize = 0;
        while i < sizes.len()
            invariant
                i <= sizes.len() == GLYPH_COUNT,
                width == ATLAS_SIZE,
                boxes_fit_width(sizes@.take(i as int), width as int),
                shelf(sizes@.take(i as int), width as int) == (Shelf {
                    x: x as int,
                    y: y as int,
                    row: row as int,
                    need: need as int,
                }),
                need <= i * 0x1_0000_0020,
            decreases sizes.len() - i,
        {
            proof {
                lemma_shelf_take(sizes@, width as int, i as int);
                lemma_shelf_bounds(sizes@.take(i as int), width as int);
            }
            let (w, h) = sizes[i];
            if w != 0 && h != 0 {
                let bw = w as u64 + 2 * OUTLINE_PAD as u64;
                let bh = h as u64 + 2 * OUTLINE_PAD as u64;
                if bw + 1 > width {
                    proof {
                        assert(!is_blank(sizes@[i as int]));
                    }
                    return false;
                }
                if x + bw + 1 > width {
                    x = 0;
                    y = y + row + 1;
                    row = 0;
                }
                let bottom = y + bh + 1;
                if need < bottom {
                    need = bottom;
                }
                x = x + bw + 1;
                if row < bh {
                    row = bh;
                }
            }
            i = i + 1;
            proof {
                assert forall|k: int|
                    0 <= k < sizes@.take(i as int).len() && !is_blank(
                        #[trigger] sizes@.take(i as int)[k],
                    ) implies padded(sizes@.take(i as int)[k].0) + 1 <= width by {
                    if k < i - 1 {
                        assert(sizes@.take(i as int)[k] == sizes@.take(i - 1)[k]);
                    }
                }
            }
        }
        proof {
            assert(sizes@.take(i as int) =~= sizes@);
        }
        let mut height: u64 = ATLAS_SIZE as u64;
        while height < need
            invariant
                ATLAS_SIZE <= height <= 2 * need + ATLAS_SIZE,
                need <= 95 * 0x1_0000_0020,
                grown(need as int, height as int) == atlas_height(sizes@),
                shelf(sizes@, ATLAS_SIZE as int).need == need,
            decreases 2 * need - height,
        {
            height = height * 2;
        }
        ATLAS_SIZE as u64 * height * 2 <= 0xffff_ffff
    }
}

} // verus!
