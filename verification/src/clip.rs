use vstd::prelude::*;

verus! {

/// The viewport extent as a signed pixel count.
pub open spec fn extent(size: u32) -> i32 {
    if size > i32::MAX {
        i32::MAX
    } else {
        size as i32
    }
}

pub open spec fn clamp_to(v: i32, hi: i32) -> i32 {
    if v < 0 {
        0
    } else if v > hi {
        hi
    } else {
        v
    }
}

/// Law: the viewport extent is the size itself up to the largest signed pixel count, and
/// clamping leaves an edge inside the viewport where it is, moves one left of or above it
/// to 0, and one past it to the far edge.
pub proof fn lemma_clamp_edges(v: i32, size: u32)
    ensures
        extent(size) == if size <= i32::MAX {
            size as int
        } else {
            i32::MAX as int
        },
        0 <= v <= extent(size) ==> clamp_to(v, extent(size)) == v,
        v < 0 ==> clamp_to(v, extent(size)) == 0,
        v > extent(size) ==> clamp_to(v, extent(size)) == extent(size),
{
}

/// The scissor rectangle `[left, top, right, bottom]` for a clip rectangle whose edges
/// have already been rounded outward to whole pixels: each edge is clamped into the
/// viewport. Without a clip rectangle the whole viewport is drawn.
pub fn scissor(rounded: Option<[i32; 4]>, width: u32, height: u32) -> (s: [i32; 4])
    ensures
        rounded is None ==> s@ == seq![0i32, 0i32, extent(width), extent(height)],
        rounded matches Some(r) ==> s@ == seq![
            clamp_to(r[0], extent(width)),
            clamp_to(r[1], extent(height)),
            clamp_to(r[2], extent(width)),
            clamp_to(r[3], extent(height)),
        ],
        0 <= s[0] <= extent(width),
        0 <= s[2] <= extent(width),
        0 <= s[1] <= extent(height),
        0 <= s[3] <= extent(height),
{
    let w: i32 = if width > i32::MAX as u32 {
        i32::MAX
    } else {
        width as i32
    };
    let h: i32 = if height > i32::MAX as u32 {
        i32::MAX
    } else {
        height as i32
    };
    match rounded {
        None => {
            let s = [0, 0, w, h];
            assert(s@ =~= seq![0i32, 0i32, w, h]);
            s
        },
        Some(r) => {
            let s = [clamp(r[0], w), clamp(r[1], h), clamp(r[2], w), clamp(r[3], h)];
            assert(s@ =~= seq![
                clamp_to(r[0], w),
                clamp_to(r[1], h),
                clamp_to(r[2], w),
                clamp_to(r[3], h),
            ]);
            s
        },
    }
}

fn clamp(v: i32, hi: i32) -> (c: i32)
    requires
        hi >= 0,
    ensures
        c == clamp_to(v, hi),
{
    if v < 0 {
        0
    } else if v > hi {
        hi
    } else {
        v
    }
}

} // verus!
