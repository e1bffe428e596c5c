//! The glyph atlas of the text renderer, on the CPU side.
//!
//! Every unique glyph of a text is rasterized once per (font, size) pair
//! into an alpha mask ([`RasterGlyph`]) and packed into a shared shelf
//! [`Atlas`]; each placed glyph is then drawn as a sprite quad sampling its
//! [`Cell`] of the atlas texture.
//!
//! Atlas coordinates are pixels with the origin at the atlas's top-left
//! corner and rows top first; pixel `(px, py)` occupies bytes
//! `(py * width + px) * 4 .. + 4` of the RGBA8 buffer.

use std::collections::HashMap;
use vstd::prelude::*;

verus! {

broadcast use vstd::std_specs::hash::group_hash_axioms;

/// The fixed atlas size in pixels; a glyph that does not fit is skipped.
pub const ATLAS_SIZE: u32 = 512;

/// One packed glyph: where its mask sits in the atlas, and where that mask
/// sits in pen space.
#[derive(Clone, Copy, Debug)]
pub struct Cell {
    /// The cell's left edge, in atlas pixels.
    pub x: u32,
    /// The cell's top edge, in atlas pixels, rows top first.
    pub y: u32,
    /// The mask's width in pixels.
    pub width: u32,
    /// The mask's height in pixels.
    pub height: u32,
    /// The pen-space x of the mask's left edge, y up.
    pub left: i32,
    /// The pen-space y of the mask's top edge, y up.
    pub top: i32,
}

/// A rasterized glyph mask, ready to be packed into an [`Atlas`].
#[derive(Clone)]
pub struct RasterGlyph {
    /// The mask as RGBA8, rows top first, the 8-bit alpha replicated into
    /// every channel.
    pub data: Vec<u8>,
    /// The mask's width in pixels.
    pub width: u32,
    /// The mask's height in pixels.
    pub height: u32,
    /// The pen-space x of the mask's left edge, y up.
    pub left: i32,
    /// The pen-space y of the mask's top edge, y up.
    pub top: i32,
}

impl RasterGlyph {
    /// The mask holds its `width * height` RGBA8 pixels, top row first
    /// (any bytes past them are not read).
    pub open spec fn wf(&self) -> bool {
        self.data@.len() >= self.width as int * self.height as int * 4
    }

    /// Builds a glyph from an 8-bit alpha mask of `width` by `height`
    /// pixels, rows top first, replicating each alpha into the four RGBA
    /// channels (so the sprite shader tints and fades it like any
    /// texture), or `None` when the mask is empty (a space, for example).
    pub fn from_mask(mask: &[u8], width: u32, height: u32, left: i32, top: i32) -> (glyph: Option<
        RasterGlyph,
    >)
        requires
            mask@.len() >= width as int * height as int,
            width as int * height as int * 4 <= usize::MAX,
        ensures
            (width == 0 || height == 0) <==> glyph is None,
            glyph matches Some(g) ==> {
                &&& g.wf()
                &&& g.data@.len() == width as int * height as int * 4
                &&& g.width == width
                &&& g.height == height
                &&& g.left == left
                &&& g.top == top
                &&& forall|i: int| 0 <= i < g.data@.len() ==> #[trigger] g.data@[i] == mask@[i / 4]
            },
    {
        if width == 0 || height == 0 {
            return None;
        }
        let pixels = width as usize * height as usize;
        let mut data: Vec<u8> = Vec::with_capacity(pixels * 4);
        let mut p: usize = 0;
        while p < pixels
            invariant
                pixels == width as int * height as int,
                pixels * 4 <= usize::MAX,
                mask@.len() >= pixels,
                p <= pixels,
                data@.len() == p * 4,
                forall|i: int| 0 <= i < data@.len() ==> #[trigger] data@[i] == mask@[i / 4],
            decreases pixels - p,
        {
            let a = mask[p];
            let ghost before = data@;
            data.push(a);
            data.push(a);
            data.push(a);
            data.push(a);
            assert forall|i: int| 0 <= i < data@.len() implies #[trigger] data@[i] == mask@[i / 4] by {
                if i < p * 4 {
                    assert(data@[i] == before[i]);
                } else {
                    assert(i / 4 == p as int);
                }
            }
            p += 1;
        }
        Some(RasterGlyph { data, width, height, left, top })
    }
}


/// The abstract state of an [`Atlas`]: its pixels, its packed cells by
/// glyph id, and the shelf cursor (the x cursor along the current shelf,
/// the top of the current shelf, and the current shelf's height), with
/// the atlas's fixed size in pixels.
pub struct AtlasView {
    pub data: Seq<u8>,
    pub width: u32,
    pub height: u32,
    pub cells: Map<u16, Cell>,
    pub x: u32,
    pub y: u32,
    pub row_height: u32,
}

/// Whether byte `i` of an RGBA8 buffer `aw` pixels wide lies in the
/// `gw` by `gh` pixel rectangle whose top-left corner is `(cx, cy)`.
pub open spec fn in_rect(i: int, aw: int, cx: int, cy: int, gw: int, gh: int) -> bool {
    let p = i / 4;
    &&& cx <= p % aw < cx + gw
    &&& cy <= p / aw < cy + gh
}

/// For byte `i` of an RGBA8 buffer `aw` pixels wide, the byte of a
/// `gw`-pixel-wide mask placed with its top-left corner at `(cx, cy)` that
/// lands on it: same channel, same pixel relative to the corner.
pub open spec fn mask_offset(i: int, aw: int, cx: int, cy: int, gw: int) -> int {
    let p = i / 4;
    ((p / aw - cy) * gw + (p % aw - cx)) * 4 + i % 4
}

/// The atlas buffer `data`, `aw` pixels wide, with the mask of `g` copied
/// in at top-left corner `(cx, cy)`, top row first; every byte outside the
/// glyph's rectangle is left as it was.
pub open spec fn blit(data: Seq<u8>, aw: int, cx: int, cy: int, g: RasterGlyph) -> Seq<u8> {
    Seq::new(
        data.len(),
        |i: int|
            if in_rect(i, aw, cx, cy, g.width as int, g.height as int) {
                g.data@[mask_offset(i, aw, cx, cy, g.width as int)]
            } else {
                data[i]
            },
    )
}

/// Packing one glyph `g` with id `id` into an atlas in state `v`: the new state, and whether packing goes on with the next
/// glyph (`false` once the atlas is out of space).
///
/// An already packed id, or a glyph wider or taller than the atlas, is
/// skipped. A glyph that does not fit on the current shelf starts a new
/// shelf below it; a glyph that would need a shelf below the atlas's
/// bottom stops the packing, keeping the new shelf's cursor.
pub open spec fn pack_step(v: AtlasView, id: u16, g: RasterGlyph) -> (AtlasView, bool) {
    let w = v.width;
    let h = v.height;
    if v.cells.contains_key(id) || g.width > w || g.height > h {
        (v, true)
    } else {
        let wraps = v.x + g.width > w;
        let x: int = if wraps { 0 } else { v.x as int };
        let y: int = if wraps { v.y + v.row_height } else { v.y as int };
        let rh: int = if wraps { 0 } else { v.row_height as int };
        if y + g.height > h {
            (
                AtlasView {
                    data: v.data,
                    width: w,
                    height: h,
                    cells: v.cells,
                    x: x as u32,
                    y: y as u32,
                    row_height: rh as u32,
                },
                false,
            )
        } else {
            let cell = Cell {
                x: x as u32,
                y: y as u32,
                width: g.width,
                height: g.height,
                left: g.left,
                top: g.top,
            };
            (
                AtlasView {
                    data: blit(v.data, w as int, x, y, g),
                    width: w,
                    height: h,
                    cells: v.cells.insert(id, cell),
                    x: (x + g.width) as u32,
                    y: y as u32,
                    row_height: (if rh >= g.height { rh } else { g.height as int }) as u32,
                },
                true,
            )
        }
    }
}

/// Packing `glyphs`, in order, into an atlas in state `v`, left to right along shelves, until the glyphs run out or the atlas
/// runs out of space.
pub open spec fn pack(v: AtlasView, glyphs: Seq<(u16, RasterGlyph)>) -> AtlasView
    decreases glyphs.len(),
{
    if glyphs.len() == 0 {
        v
    } else {
        let (next, go_on) = pack_step(v, glyphs[0].0, glyphs[0].1);
        if go_on {
            pack(next, glyphs.drop_first())
        } else {
            next
        }
    }
}

/// Whether cell `c` lies inside a `w` by `h` atlas.
pub open spec fn cell_fits(c: Cell, w: int, h: int) -> bool {
    c.x + c.width <= w && c.y + c.height <= h
}

/// Whether cells `a` and `b` share no pixel.
pub open spec fn cells_disjoint(a: Cell, b: Cell) -> bool {
    ||| a.x + a.width <= b.x
    ||| b.x + b.width <= a.x
    ||| a.y + a.height <= b.y
    ||| b.y + b.height <= a.y
}

/// Whether cell `c` lies before the shelf cursor of `v`: on an earlier
/// shelf, or on the current shelf left of the x cursor and no taller than
/// the shelf.
pub open spec fn before_cursor(c: Cell, v: AtlasView) -> bool {
    ||| c.y + c.height <= v.y
    ||| (c.y == v.y && c.x + c.width <= v.x && c.height <= v.row_height)
}

/// The shelf layout of an atlas in state `v`: the buffer holds
/// `width * height` RGBA8 pixels, the cursor is inside the atlas, every cell fits in
/// the atlas and lies before the cursor, and no two cells overlap.
pub open spec fn layout_ok(v: AtlasView) -> bool {
    let w = v.width as int;
    let h = v.height as int;
    &&& v.data.len() == w * h * 4
    &&& v.x <= w
    &&& v.y + v.row_height <= h
    &&& forall|id: u16| #[trigger] v.cells.contains_key(id) ==> cell_fits(v.cells[id], w, h) && before_cursor(v.cells[id], v)
    &&& forall|a: u16, b: u16|
        #[trigger] v.cells.contains_key(a) && #[trigger] v.cells.contains_key(b) && a != b
            ==> cells_disjoint(v.cells[a], v.cells[b])
}

/// The part of `blit(data, aw, cx, cy, g)` written so far when the first
/// `progress` bytes of the mask, in its row-major order, have been copied.
spec fn blit_prefix(data: Seq<u8>, aw: int, cx: int, cy: int, g: RasterGlyph, progress: int) -> Seq<u8> {
    Seq::new(
        data.len(),
        |i: int|
            if in_rect(i, aw, cx, cy, g.width as int, g.height as int) && mask_offset(
                i,
                aw,
                cx,
                cy,
                g.width as int,
            ) < progress {
                g.data@[mask_offset(i, aw, cx, cy, g.width as int)]
            } else {
                data[i]
            },
    )
}

/// Byte `(row * width + col) * 4 + chan` of an RGBA8 grid `width` pixels
/// wide is channel `chan` of pixel `row * width + col`, which sits at
/// column `col` of row `row`.
proof fn lemma_grid_index(width: int, col: int, row: int, chan: int)
    requires
        0 <= col < width,
        0 <= row,
        0 <= chan < 4,
    ensures
        ((row * width + col) * 4 + chan) / 4 == row * width + col,
        ((row * width + col) * 4 + chan) % 4 == chan,
        (row * width + col) / width == row,
        (row * width + col) % width == col,
{
    vstd::arithmetic::div_mod::lemma_fundamental_div_mod_converse(
        (row * width + col) * 4 + chan,
        4,
        row * width + col,
        chan,
    );
    vstd::arithmetic::div_mod::lemma_fundamental_div_mod_converse(row * width + col, width, row, col);
}

/// A byte index splits into its pixel's row and column and its channel.
proof fn lemma_grid_split(i: int, width: int)
    requires
        0 <= i,
        0 < width,
    ensures
        i == ((i / 4) / width * width + (i / 4) % width) * 4 + i % 4,
        0 <= (i / 4) % width < width,
        0 <= (i / 4) / width,
        0 <= i % 4 < 4,
{
    vstd::arithmetic::div_mod::lemma_fundamental_div_mod(i, 4);
    vstd::arithmetic::div_mod::lemma_fundamental_div_mod(i / 4, width);
    vstd::arithmetic::div_mod::lemma_mod_bound(i / 4, width);
    vstd::arithmetic::div_mod::lemma_div_pos_is_pos(i / 4, width);
    vstd::arithmetic::mul::lemma_mul_is_commutative(width, (i / 4) / width);
}

/// Within a glyph's rectangle, the mask byte landing on an atlas byte is
/// in bounds of the mask, and distinct atlas bytes receive distinct mask
/// bytes.
proof fn lemma_mask_offset_bounds(i: int, aw: int, cx: int, cy: int, gw: int, gh: int)
    requires
        0 <= i,
        0 < aw,
        in_rect(i, aw, cx, cy, gw, gh),
    ensures
        0 <= mask_offset(i, aw, cx, cy, gw) < gw * gh * 4,
{
    let p = i / 4;
    let rx = p % aw - cx;
    let ry = p / aw - cy;
    vstd::arithmetic::div_mod::lemma_mod_bound(i, 4);
    assert(0 <= ry * gw) by {
        vstd::arithmetic::mul::lemma_mul_nonnegative(ry, gw);
    }
    assert(ry * gw <= (gh - 1) * gw) by {
        vstd::arithmetic::mul::lemma_mul_inequality(ry, gh - 1, gw);
    }
    assert((gh - 1) * gw + gw == gh * gw) by {
        vstd::arithmetic::mul::lemma_mul_is_distributive_add_other_way(gw, gh - 1, 1);
    }
}

/// Two atlas bytes of a glyph's rectangle that receive the same mask byte
/// are the same byte.
proof fn lemma_mask_offset_injective(i: int, j: int, aw: int, cx: int, cy: int, gw: int, gh: int)
    requires
        0 <= i,
        0 <= j,
        0 < aw,
        in_rect(i, aw, cx, cy, gw, gh),
        in_rect(j, aw, cx, cy, gw, gh),
        mask_offset(i, aw, cx, cy, gw) == mask_offset(j, aw, cx, cy, gw),
    ensures
        i == j,
{
    lemma_grid_split(i, aw);
    lemma_grid_split(j, aw);
    let pi = i / 4;
    let pj = j / 4;
    lemma_grid_index(gw, pi % aw - cx, pi / aw - cy, i % 4);
    lemma_grid_index(gw, pj % aw - cx, pj / aw - cy, j % 4);
}

/// Byte `k` of row `row` of a mask placed at `(cx, cy)` lands on atlas
/// byte `((cy + row) * aw + cx) * 4 + k`, inside the glyph's rectangle.
proof fn lemma_row_byte(aw: int, ah: int, cx: int, cy: int, gw: int, gh: int, row: int, k: int)
    requires
        0 <= cx,
        0 <= cy,
        cx + gw <= aw,
        cy + gh <= ah,
        0 <= row < gh,
        0 <= k < gw * 4,
    ensures
        ({
            let j = ((cy + row) * aw + cx) * 4 + k;
            &&& 0 <= j < aw * ah * 4
            &&& in_rect(j, aw, cx, cy, gw, gh)
            &&& mask_offset(j, aw, cx, cy, gw) == row * (gw * 4) + k
        }),
{
    let col = k / 4;
    let chan = k % 4;
    vstd::arithmetic::div_mod::lemma_fundamental_div_mod(k, 4);
    assert(col < gw);
    let j = ((cy + row) * aw + cx) * 4 + k;
    assert(j == ((cy + row) * aw + (cx + col)) * 4 + chan) by (nonlinear_arith)
        requires
            k == 4 * col + chan,
            j == ((cy + row) * aw + cx) * 4 + k,
    ;
    lemma_grid_index(aw, cx + col, cy + row, chan);
    assert(mask_offset(j, aw, cx, cy, gw) == ((row * gw + col) * 4 + chan));
    assert((row * gw + col) * 4 + chan == row * (gw * 4) + k) by (nonlinear_arith)
        requires
            k == 4 * col + chan,
    ;
    assert((cy + row) * aw + cx + col < ah * aw) by {
        vstd::arithmetic::mul::lemma_mul_inequality(cy + row + 1, ah, aw);
        vstd::arithmetic::mul::lemma_mul_is_distributive_add_other_way(aw, cy + row, 1);
    }
    assert(0 <= (cy + row) * aw) by {
        vstd::arithmetic::mul::lemma_mul_nonnegative(cy + row, aw);
    }
    assert(j < aw * ah * 4) by (nonlinear_arith)
        requires
            j == ((cy + row) * aw + (cx + col)) * 4 + chan,
            (cy + row) * aw + cx + col < ah * aw,
            chan < 4,
    ;
}

/// Copies the mask of `glyph` into the `aw` by `ah` atlas buffer `data`
/// with its top-left corner at `(cx, cy)`, top row first.
fn blit_into(data: &mut Vec<u8>, aw: u32, ah: u32, cx: u32, cy: u32, glyph: &RasterGlyph)
    requires
        old(data)@.len() == aw as int * ah as int * 4,
        glyph.wf(),
        cx as int + glyph.width as int <= aw as int,
        cy as int + glyph.height as int <= ah as int,
    ensures
        final(data)@ == blit(old(data)@, aw as int, cx as int, cy as int, *glyph),
{
    let ghost data0 = data@;
    let ghost (awi, ahi, cxi, cyi) = (aw as int, ah as int, cx as int, cy as int);
    let ghost gwi = glyph.width as int;
    let ghost ghi = glyph.height as int;
    let gw = glyph.width as usize;
    let gh = glyph.height as usize;
    let data_len = data.len();
    let glyph_len = glyph.data.len();
    let mut row: usize = 0;
    assert(data@ =~= blit_prefix(data0, awi, cxi, cyi, *glyph, 0));
    while row < gh
        invariant
            data0.len() == awi * ahi * 4,
            data@.len() == data0.len(),
            data0.len() == data_len,
            glyph.data@.len() == glyph_len,
            glyph.wf(),
            gwi == gw,
            ghi == gh,
            gw == glyph.width,
            gh == glyph.height,
            cxi + gwi <= awi,
            cyi + ghi <= ahi,
            awi == aw,
            ahi == ah,
            cxi == cx,
            cyi == cy,
            row <= gh,
            data@ == blit_prefix(data0, awi, cxi, cyi, *glyph, row * (gwi * 4)),
        decreases gh - row,
    {
        proof {
            assert(gwi * 4 <= gwi * ghi * 4) by (nonlinear_arith)
                requires
                    ghi >= 1,
                    gwi >= 0,
            ;
            assert(gwi * ghi * 4 <= glyph_len);
            assert(gw * 4 <= glyph_len);
        }
        let row_bytes = gw * 4;
        let mut k: usize = 0;
        while k < row_bytes
            invariant
                data0.len() == awi * ahi * 4,
                data@.len() == data0.len(),
                data0.len() == data_len,
                glyph.data@.len() == glyph_len,
                glyph.wf(),
                gwi == gw,
                ghi == gh,
                gw == glyph.width,
                gh == glyph.height,
                row_bytes == gw * 4,
                cxi + gwi <= awi,
                cyi + ghi <= ahi,
                awi == aw,
                ahi == ah,
                cxi == cx,
                cyi == cy,
                row < gh,
                k <= row_bytes,
                data@ == blit_prefix(data0, awi, cxi, cyi, *glyph, row * (gwi * 4) + k),
            decreases row_bytes - k,
        {
            let ghost progress = row * (gwi * 4) + k;
            proof {
                lemma_row_byte(awi, ahi, cxi, cyi, gwi, ghi, row as int, k as int);
                assert(progress < gwi * ghi * 4) by (nonlinear_arith)
                    requires
                        progress == row * (gwi * 4) + k,
                        k < gwi * 4,
                        row + 1 <= ghi,
                ;
                assert(0 <= row * (gwi * 4)) by {
                    vstd::arithmetic::mul::lemma_mul_nonnegative(row as int, gwi * 4);
                }
            }
            let dst = ((cy as usize + row) * aw as usize + cx as usize) * 4 + k;
            assert(row * row_bytes + k == progress);
            let src = row * row_bytes + k;
            let ghost j = dst as int;
            let ghost before = data@;
            let value = glyph.data[src];
            data.set(dst, value);
            proof {
                assert forall|i: int| 0 <= i < data@.len() implies #[trigger] data@[i] == blit_prefix(
                    data0,
                    awi,
                    cxi,
                    cyi,
                    *glyph,
                    progress + 1,
                )[i] by {
                    if i != j && in_rect(i, awi, cxi, cyi, gwi, ghi) && mask_offset(
                        i,
                        awi,
                        cxi,
                        cyi,
                        gwi,
                    ) == progress {
                        lemma_mask_offset_injective(i, j, awi, cxi, cyi, gwi, ghi);
                    }
                }
                assert(data@ =~= blit_prefix(data0, awi, cxi, cyi, *glyph, progress + 1));
            }
            k += 1;
        }
        proof {
            assert(row * (gwi * 4) + gwi * 4 == (row + 1) * (gwi * 4)) by (nonlinear_arith);
        }
        row += 1;
    }
    proof {
        assert forall|i: int| 0 <= i < data@.len() implies #[trigger] data@[i] == blit(
            data0,
            awi,
            cxi,
            cyi,
            *glyph,
        )[i] by {
            if in_rect(i, awi, cxi, cyi, gwi, ghi) {
                lemma_mask_offset_bounds(i, awi, cxi, cyi, gwi, ghi);
                assert(gwi * ghi * 4 == ghi * (gwi * 4)) by (nonlinear_arith);
            }
        }
        assert(data@ =~= blit(data0, awi, cxi, cyi, *glyph));
    }
}

/// One packing step keeps the shelf layout: the new cell fits, lies before
/// the advanced cursor, and overlaps no earlier cell.
pub proof fn lemma_step_keeps_layout(v: AtlasView, id: u16, g: RasterGlyph)
    requires
        layout_ok(v),
        g.wf(),
    ensures
        layout_ok(pack_step(v, id, g).0),
{
    let (next, go_on) = pack_step(v, id, g);
    if !(v.cells.contains_key(id) || g.width > v.width || g.height > v.height) {
        assert forall|k: u16| #[trigger] next.cells.contains_key(k) implies cell_fits(
            next.cells[k],
            next.width as int,
            next.height as int,
        ) && before_cursor(next.cells[k], next) by {
            if k != id {
                assert(v.cells.contains_key(k));
            }
        }
        assert forall|a: u16, b: u16|
            #[trigger] next.cells.contains_key(a) && #[trigger] next.cells.contains_key(b) && a != b
                implies cells_disjoint(next.cells[a], next.cells[b]) by {
            if a != id {
                assert(v.cells.contains_key(a));
            }
            if b != id {
                assert(v.cells.contains_key(b));
            }
        }
    }
}

/// Packing keeps the shelf layout: every cell fits in the atlas and no two
/// packed glyphs overlap, whatever glyphs are packed.
pub proof fn lemma_pack_keeps_layout(v: AtlasView, glyphs: Seq<(u16, RasterGlyph)>)
    requires
        layout_ok(v),
        forall|j: int| 0 <= j < glyphs.len() ==> (#[trigger] glyphs[j]).1.wf(),
    ensures
        layout_ok(pack(v, glyphs)),
    decreases glyphs.len(),
{
    if glyphs.len() > 0 {
        assert(glyphs[0].1.wf());
        lemma_step_keeps_layout(v, glyphs[0].0, glyphs[0].1);
        let rest = glyphs.drop_first();
        assert forall|j: int| 0 <= j < rest.len() implies (#[trigger] rest[j]).1.wf() by {
            assert(rest[j] == glyphs[j + 1]);
        }
        lemma_pack_keeps_layout(pack_step(v, glyphs[0].0, glyphs[0].1).0, rest);
    }
}

/// Packing never moves or forgets a packed glyph: every cell of `v` is
/// still in the packed atlas, unchanged.
pub proof fn lemma_pack_keeps_cells(v: AtlasView, glyphs: Seq<(u16, RasterGlyph)>)
    ensures
        forall|id: u16| #[trigger] v.cells.contains_key(id) ==> pack(v, glyphs).cells.contains_key(id)
            && pack(v, glyphs).cells[id] == v.cells[id],
    decreases glyphs.len(),
{
    if glyphs.len() > 0 {
        let next = pack_step(v, glyphs[0].0, glyphs[0].1).0;
        lemma_pack_keeps_cells(next, glyphs.drop_first());
        assert forall|id: u16| #[trigger] v.cells.contains_key(id) implies next.cells.contains_key(id)
            && next.cells[id] == v.cells[id] by {}
    }
}

/// Whether the atlas bytes `data`, `aw` pixels wide, hold the mask of `g`
/// in cell `c`, top row first.
pub open spec fn cell_holds(data: Seq<u8>, aw: int, c: Cell, g: RasterGlyph) -> bool {
    &&& g.width == c.width
    &&& g.height == c.height
    &&& forall|i: int|
        0 <= i < data.len() && #[trigger] in_rect(i, aw, c.x as int, c.y as int, c.width as int, c.height as int)
            ==> data[i] == g.data@[mask_offset(i, aw, c.x as int, c.y as int, c.width as int)]
}

/// Whether the atlas bytes `a` and `b` agree on every pixel of cell `c`.
pub open spec fn same_cell_pixels(a: Seq<u8>, b: Seq<u8>, aw: int, c: Cell) -> bool {
    forall|i: int|
        0 <= i < a.len() && #[trigger] in_rect(i, aw, c.x as int, c.y as int, c.width as int, c.height as int)
            ==> b[i] == a[i]
}

/// One packing step leaves the pixels of every earlier cell untouched.
proof fn lemma_step_keeps_cell_pixels(v: AtlasView, id: u16, g: RasterGlyph)
    requires
        layout_ok(v),
        g.wf(),
    ensures
        pack_step(v, id, g).0.data.len() == v.data.len(),
        forall|k: u16| #[trigger] v.cells.contains_key(k) ==> same_cell_pixels(
            v.data,
            pack_step(v, id, g).0.data,
            v.width as int,
            v.cells[k],
        ),
{
    let next = pack_step(v, id, g).0;
    lemma_step_keeps_layout(v, id, g);
    if next.cells.contains_key(id) && !v.cells.contains_key(id) {
        let nc = next.cells[id];
        let w = v.width as int;
        assert forall|k: u16| #[trigger] v.cells.contains_key(k) implies same_cell_pixels(
            v.data,
            next.data,
            w,
            v.cells[k],
        ) by {
            let c = v.cells[k];
            assert(next.cells.contains_key(k) && next.cells[k] == c);
            assert(cells_disjoint(c, nc));
            assert forall|i: int|
                0 <= i < v.data.len() && #[trigger] in_rect(
                    i,
                    w,
                    c.x as int,
                    c.y as int,
                    c.width as int,
                    c.height as int,
                ) implies next.data[i] == v.data[i] by {
                assert(!in_rect(i, w, nc.x as int, nc.y as int, nc.width as int, nc.height as int));
            }
        }
    }
}

/// Packing leaves the pixels of every earlier cell untouched: a glyph
/// once packed keeps its pixels whatever is packed after it.
pub proof fn lemma_pack_keeps_cell_pixels(v: AtlasView, glyphs: Seq<(u16, RasterGlyph)>)
    requires
        layout_ok(v),
        forall|j: int| 0 <= j < glyphs.len() ==> (#[trigger] glyphs[j]).1.wf(),
    ensures
        pack(v, glyphs).data.len() == v.data.len(),
        forall|k: u16| #[trigger] v.cells.contains_key(k) ==> same_cell_pixels(
            v.data,
            pack(v, glyphs).data,
            v.width as int,
            v.cells[k],
        ),
    decreases glyphs.len(),
{
    if glyphs.len() > 0 {
        let (next, go_on) = pack_step(v, glyphs[0].0, glyphs[0].1);
        assert(glyphs[0].1.wf());
        lemma_step_keeps_cell_pixels(v, glyphs[0].0, glyphs[0].1);
        if go_on {
            let rest = glyphs.drop_first();
            assert forall|j: int| 0 <= j < rest.len() implies (#[trigger] rest[j]).1.wf() by {
                assert(rest[j] == glyphs[j + 1]);
            }
            lemma_step_keeps_layout(v, glyphs[0].0, glyphs[0].1);
            lemma_pack_keeps_cell_pixels(next, rest);
            let fin = pack(next, rest);
            assert forall|k: u16| #[trigger] v.cells.contains_key(k) implies same_cell_pixels(
                v.data,
                fin.data,
                v.width as int,
                v.cells[k],
            ) by {
                let c = v.cells[k];
                assert(next.cells.contains_key(k) && next.cells[k] == c);
                assert(same_cell_pixels(next.data, fin.data, v.width as int, c));
                assert(same_cell_pixels(v.data, next.data, v.width as int, c));
            }
        }
    }
}

/// Whether glyph `g` is no wider and no taller than the atlas in state
/// `v`, so that packing does not skip it for its size.
pub open spec fn fits_atlas(v: AtlasView, g: RasterGlyph) -> bool {
    g.width <= v.width && g.height <= v.height
}

/// Every glyph that packing lands holds its mask in its cell, top row
/// first, with its pen-space offsets: each cell new in the packed atlas
/// comes from the first glyph of `glyphs` with that id that is not too big
/// for the atlas (earlier ones with the id are skipped for their size, and
/// later ones are skipped as already packed).
pub proof fn lemma_pack_places_masks(v: AtlasView, glyphs: Seq<(u16, RasterGlyph)>)
    requires
        layout_ok(v),
        forall|j: int| 0 <= j < glyphs.len() ==> (#[trigger] glyphs[j]).1.wf(),
    ensures
        forall|id: u16|
            #[trigger] pack(v, glyphs).cells.contains_key(id) && !v.cells.contains_key(id) ==> exists|j: int|
                0 <= j < glyphs.len() && glyphs[j].0 == id && fits_atlas(v, glyphs[j].1) && (forall|k: int|
                    0 <= k < j && glyphs[k].0 == id ==> !fits_atlas(v, #[trigger] glyphs[k].1))
                    && pack(v, glyphs).cells[id].left == glyphs[j].1.left && pack(v, glyphs).cells[id].top
                    == glyphs[j].1.top && cell_holds(
                    pack(v, glyphs).data,
                    v.width as int,
                    pack(v, glyphs).cells[id],
                    #[trigger] glyphs[j].1,
                ),
    decreases glyphs.len(),
{
    if glyphs.len() > 0 {
        let id0 = glyphs[0].0;
        let g0 = glyphs[0].1;
        let (next, go_on) = pack_step(v, id0, g0);
        assert(g0.wf());
        if go_on {
            let rest = glyphs.drop_first();
            assert forall|j: int| 0 <= j < rest.len() implies (#[trigger] rest[j]).1.wf() by {
                assert(rest[j] == glyphs[j + 1]);
            }
            lemma_step_keeps_layout(v, id0, g0);
            lemma_pack_places_masks(next, rest);
            lemma_pack_keeps_cells(next, rest);
            lemma_pack_keeps_cell_pixels(next, rest);
            let fin = pack(next, rest);
            let w = v.width as int;
            assert forall|id: u16|
                #[trigger] fin.cells.contains_key(id) && !v.cells.contains_key(id) implies exists|j: int|
                    0 <= j < glyphs.len() && glyphs[j].0 == id && fits_atlas(v, glyphs[j].1) && (forall|
                        k: int,
                    |
                        0 <= k < j && glyphs[k].0 == id ==> !fits_atlas(v, #[trigger] glyphs[k].1))
                        && fin.cells[id].left == glyphs[j].1.left && fin.cells[id].top == glyphs[j].1.top
                        && cell_holds(fin.data, w, fin.cells[id], #[trigger] glyphs[j].1) by {
                if next.cells.contains_key(id) {
                    // The glyph landed in this step: its mask went in with
                    // the blit, and later steps leave its cell alone.
                    assert(id == id0);
                    let c = next.cells[id];
                    assert(fin.cells[id] == c);
                    assert(same_cell_pixels(next.data, fin.data, w, c));
                    assert forall|i: int|
                        0 <= i < fin.data.len() && #[trigger] in_rect(
                            i,
                            w,
                            c.x as int,
                            c.y as int,
                            c.width as int,
                            c.height as int,
                        ) implies fin.data[i] == g0.data@[mask_offset(
                            i,
                            w,
                            c.x as int,
                            c.y as int,
                            c.width as int,
                        )] by {
                        assert(next.data[i] == g0.data@[mask_offset(
                            i,
                            w,
                            c.x as int,
                            c.y as int,
                            c.width as int,
                        )]);
                    }
                    assert(cell_holds(fin.data, w, fin.cells[id], glyphs[0].1));
                    assert(fits_atlas(v, glyphs[0].1));
                    assert(forall|k: int| 0 <= k < 0 && glyphs[k].0 == id ==> !fits_atlas(v, #[trigger] glyphs[k].1));
                } else {
                    let j = choose|j: int|
                        0 <= j < rest.len() && rest[j].0 == id && fits_atlas(next, rest[j].1) && (forall|k: int|
                            0 <= k < j && rest[k].0 == id ==> !fits_atlas(next, #[trigger] rest[k].1))
                            && fin.cells[id].left == rest[j].1.left && fin.cells[id].top == rest[j].1.top
                            && cell_holds(fin.data, next.width as int, fin.cells[id], #[trigger] rest[j].1);
                    assert(rest[j] == glyphs[j + 1]);
                    assert forall|k: int| 0 <= k < j + 1 && glyphs[k].0 == id implies !fits_atlas(
                        v,
                        #[trigger] glyphs[k].1,
                    ) by {
                        if k == 0 {
                            // Not packed in this step although packing went
                            // on: the first glyph was skipped for its size.
                            assert(!next.cells.contains_key(id));
                        } else {
                            assert(rest[k - 1] == glyphs[k]);
                            assert(!fits_atlas(next, rest[k - 1].1));
                        }
                    }
                    assert(cell_holds(fin.data, w, fin.cells[id], glyphs[j + 1].1));
                }
            }
        }
    }
}

/// How one glyph is packed, over every atlas state: a glyph already packed
/// or bigger than the atlas is skipped and packing goes on; a new glyph
/// that fits lands beside the current shelf's glyphs when the shelf has
/// room for its width, else on a new shelf that starts at the current
/// shelf's top plus the current shelf's height, which from then on is the
/// glyph's own height; the shelf height after a landing on the same shelf
/// is the taller of the shelf and the glyph. Packing stops, leaving cells
/// and pixels as they were, only when the glyph's shelf would end below
/// the atlas's bottom.
pub proof fn lemma_pack_step_shelves(v: AtlasView, id: u16, g: RasterGlyph)
    ensures
        v.cells.contains_key(id) || g.width > v.width || g.height > v.height ==> pack_step(v, id, g) == (v, true),
        !v.cells.contains_key(id) && g.width <= v.width && g.height <= v.height && v.x + g.width <= v.width
            && v.y + g.height <= v.height ==> ({
            let (n, go_on) = pack_step(v, id, g);
            &&& go_on
            &&& n.cells.contains_key(id)
            &&& n.cells[id].x == v.x && n.cells[id].y == v.y
            &&& n.cells[id].width == g.width && n.cells[id].height == g.height
            &&& n.cells[id].left == g.left && n.cells[id].top == g.top
            &&& n.cells == v.cells.insert(id, n.cells[id])
            &&& n.x == v.x + g.width && n.y == v.y
            &&& n.row_height >= v.row_height && n.row_height >= g.height
            &&& (n.row_height == v.row_height || n.row_height == g.height)
        }),
        !v.cells.contains_key(id) && g.width <= v.width && g.height <= v.height && v.x + g.width > v.width
            && v.y + v.row_height + g.height <= v.height ==> ({
            let (n, go_on) = pack_step(v, id, g);
            &&& go_on
            &&& n.cells.contains_key(id)
            &&& n.cells[id].x == 0 && n.cells[id].y == v.y + v.row_height
            &&& n.cells[id].width == g.width && n.cells[id].height == g.height
            &&& n.cells[id].left == g.left && n.cells[id].top == g.top
            &&& n.cells == v.cells.insert(id, n.cells[id])
            &&& n.x == g.width && n.y == v.y + v.row_height
            &&& n.row_height == g.height
        }),
        !v.cells.contains_key(id) && g.width <= v.width && g.height <= v.height && ((v.x + g.width <= v.width
            && v.y + g.height > v.height) || (v.x + g.width > v.width && v.y + v.row_height + g.height
            > v.height)) ==> ({
            let (n, go_on) = pack_step(v, id, g);
            &&& !go_on
            &&& n.cells == v.cells
            &&& n.data == v.data
        }),
{
}

/// Packing glyphs that are all already packed changes nothing: the
/// atlas's pixels, cells, and cursor stay as they were.
pub proof fn lemma_pack_of_packed_glyphs_changes_nothing(v: AtlasView, glyphs: Seq<(u16, RasterGlyph)>)
    requires
        forall|j: int| 0 <= j < glyphs.len() ==> v.cells.contains_key(#[trigger] glyphs[j].0),
    ensures
        pack(v, glyphs) == v,
    decreases glyphs.len(),
{
    if glyphs.len() > 0 {
        assert(v.cells.contains_key(glyphs[0].0));
        let rest = glyphs.drop_first();
        assert forall|j: int| 0 <= j < rest.len() implies v.cells.contains_key(#[trigger] rest[j].0) by {
            assert(rest[j] == glyphs[j + 1]);
        }
        lemma_pack_of_packed_glyphs_changes_nothing(v, rest);
    }
}

/// A fixed-size shelf atlas of glyph masks.
///
/// Glyphs are packed left to right along shelves; a glyph that does not
/// fit in the current shelf starts a new one. The atlas never grows, so a
/// glyph that is wider or taller than it, or that would need a shelf below
/// the last one, is skipped.
#[derive(Clone)]
pub struct Atlas {
    /// The atlas pixels, RGBA8, rows top first.
    data: Vec<u8>,
    /// The atlas's width in pixels.
    width: u32,
    /// The atlas's height in pixels.
    height: u32,
    cells: HashMap<u16, Cell>,
    /// The x cursor along the current shelf.
    x: u32,
    /// The top of the current shelf, in atlas pixels.
    y: u32,
    /// The height of the current shelf.
    row_height: u32,
    /// Counts the packing calls that landed at least one glyph, so a
    /// renderer can tell when the pixels changed.
    generation: u64,
}

impl View for Atlas {
    type V = AtlasView;

    closed spec fn view(&self) -> AtlasView {
        AtlasView {
            data: self.data@,
            width: self.width,
            height: self.height,
            cells: self.cells@,
            x: self.x,
            y: self.y,
            row_height: self.row_height,
        }
    }
}

impl Atlas {
    /// The atlas's shelf layout holds (see [`layout_ok`]).
    pub open spec fn wf(&self) -> bool {
        layout_ok(self@)
    }

    /// The number of packing calls so far that landed at least one glyph.
    pub closed spec fn generation_count(&self) -> u64 {
        self.generation
    }

    /// An empty 512 by 512 atlas: transparent black pixels, no cells, the
    /// cursor at the top-left corner.
    pub fn new() -> (atlas: Self)
        ensures
            atlas.wf(),
            atlas@.width == ATLAS_SIZE,
            atlas@.height == ATLAS_SIZE,
            atlas@.data =~= Seq::new((ATLAS_SIZE * ATLAS_SIZE * 4) as nat, |i: int| 0u8),
            atlas@.cells =~= Map::<u16, Cell>::empty(),
            atlas@.x == 0 && atlas@.y == 0 && atlas@.row_height == 0,
            atlas.generation_count() == 0,
    {
        let data = vec![0u8; (ATLAS_SIZE * ATLAS_SIZE * 4) as usize];
        let atlas = Atlas {
            data,
            width: ATLAS_SIZE,
            height: ATLAS_SIZE,
            cells: HashMap::new(),
            x: 0,
            y: 0,
            row_height: 0,
            generation: 0,
        };
        assert(atlas@.data =~= Seq::new((ATLAS_SIZE * ATLAS_SIZE * 4) as nat, |i: int| 0u8));
        atlas
    }

    /// The atlas pixels, RGBA8, rows top first: the buffer a renderer
    /// uploads as the atlas texture.
    pub fn data(&self) -> (data: &[u8])
        ensures
            data@ == self@.data,
    {
        self.data.as_slice()
    }

    /// The atlas's width in pixels.
    pub fn width(&self) -> (width: u32)
        ensures
            width == self@.width,
    {
        self.width
    }

    /// The atlas's height in pixels.
    pub fn height(&self) -> (height: u32)
        ensures
            height == self@.height,
    {
        self.height
    }

    /// Whether the glyph `id` is already packed in the atlas.
    pub fn has(&self, id: u16) -> (packed: bool)
        ensures
            packed == self@.cells.contains_key(id),
    {
        self.cells.contains_key(&id)
    }

    /// The cell of a packed glyph.
    pub fn cell(&self, id: u16) -> (cell: Option<&Cell>)
        ensures
            match cell {
                Some(c) => self@.cells.contains_key(id) && *c == self@.cells[id],
                None => !self@.cells.contains_key(id),
            },
    {
        self.cells.get(&id)
    }

    /// Packs `glyphs` into the atlas, starting a new shelf when needed, as
    /// [`pack`] states. Glyphs that are already packed, or too big for the
    /// atlas, are skipped; when a glyph would need a shelf below the
    /// atlas's bottom, packing stops and keeps what packed before it. The
    /// generation advances exactly when at least one new glyph lands.
    pub fn insert_many(&mut self, glyphs: &[(u16, RasterGlyph)])
        requires
            old(self).wf(),
            forall|j: int| 0 <= j < glyphs@.len() ==> (#[trigger] glyphs@[j]).1.wf(),
        ensures
            final(self).wf(),
            final(self)@ == pack(old(self)@, glyphs@),
            final(self).generation_count() == if final(self)@.cells == old(self)@.cells {
                old(self).generation_count()
            } else {
                vstd::wrapping::u64_specs::wrapping_add(old(self).generation_count(), 1)
            },
    {
        let ghost v0 = self@;
        let ghost target = pack(v0, glyphs@);
        let ghost g0 = self.generation;
        let data_len = self.data.len();
        let mut i: usize = 0;
        let mut changed = false;
        let mut full = false;
        assert(glyphs@.skip(0) =~= glyphs@);
        while i < glyphs.len() && !full
            invariant
                i <= glyphs@.len(),
                forall|j: int| 0 <= j < glyphs@.len() ==> (#[trigger] glyphs@[j]).1.wf(),
                self.width == v0.width,
                self.height == v0.height,
                self.data@.len() == data_len,
                data_len == self.width as int * self.height as int * 4,
                self.x <= self.width,
                self.y + self.row_height <= self.height,
                !full ==> pack(self@, glyphs@.skip(i as int)) == target,
                full ==> self@ == target,
                self.generation == g0,
                changed ==> exists|k: u16| self@.cells.contains_key(k) && !v0.cells.contains_key(k),
                !changed ==> self@.cells == v0.cells,
                forall|k: u16| #[trigger] v0.cells.contains_key(k) ==> self@.cells.contains_key(k),
            decreases glyphs@.len() - i,
        {
            let entry = &glyphs[i];
            let id = entry.0;
            let glyph = &entry.1;
            proof {
                let rest = glyphs@.skip(i as int);
                assert(rest[0] == glyphs@[i as int]);
                assert(rest.drop_first() =~= glyphs@.skip(i + 1));
                assert(glyph.wf());
            }
            let ghost v = self@;
            if self.cells.contains_key(&id) || glyph.width > self.width || glyph.height > self.height {
                // Already packed, or too big for the atlas: skipped.
            } else {
                if self.x as u64 + glyph.width as u64 > self.width as u64 {
                    self.x = 0;
                    self.y = self.y + self.row_height;
                    self.row_height = 0;
                }
                if self.y as u64 + glyph.height as u64 > self.height as u64 {
                    // Out of atlas space: keep what packed above.
                    full = true;
                } else {
                    blit_into(&mut self.data, self.width, self.height, self.x, self.y, glyph);
                    let cell = Cell {
                        x: self.x,
                        y: self.y,
                        width: glyph.width,
                        height: glyph.height,
                        left: glyph.left,
                        top: glyph.top,
                    };
                    self.cells.insert(id, cell);
                    self.x = self.x + glyph.width;
                    if glyph.height > self.row_height {
                        self.row_height = glyph.height;
                    }
                    changed = true;
                    assert(self@.cells.contains_key(id) && !v0.cells.contains_key(id));
                }
            }
            proof {
                let (next, go_on) = pack_step(v, id, *glyph);
                assert(self@ =~= next);
                assert(go_on == !full);
            }
            i += 1;
        }
        if changed {
            self.generation = self.generation.wrapping_add(1);
        }
        proof {
            if !full {
                assert(glyphs@.skip(i as int) =~= Seq::<(u16, RasterGlyph)>::empty());
            }
            lemma_pack_keeps_layout(v0, glyphs@);
        }
    }

    /// The number of packing calls so far that landed at least one glyph:
    /// it changes exactly when the atlas pixels change.
    pub fn generation(&self) -> (g: u64)
        ensures
            g == self.generation_count(),
    {
        self.generation
    }
}

impl Default for Atlas {
    /// An empty 512 by 512 atlas, as [`Atlas::new`] builds it.
    fn default() -> (atlas: Self)
        ensures
            atlas.wf(),
            atlas@.width == ATLAS_SIZE,
            atlas@.height == ATLAS_SIZE,
            atlas@.data =~= Seq::new((ATLAS_SIZE * ATLAS_SIZE * 4) as nat, |i: int| 0u8),
            atlas@.cells =~= Map::<u16, Cell>::empty(),
            atlas@.x == 0 && atlas@.y == 0 && atlas@.row_height == 0,
            atlas.generation_count() == 0,
    {
        Atlas::new()
    }
}

} // verus!
