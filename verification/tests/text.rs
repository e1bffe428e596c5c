use frost::text::{Atlas, Cell, RasterGlyph};

#[test]
fn atlas_packs_glyphs_left_to_right_top_first() {
    fn mask(width: u32, height: u32, alpha: u8) -> RasterGlyph {
        RasterGlyph {
            data: vec![alpha; (width * height * 4) as usize],
            width,
            height,
            left: 0,
            top: 0,
        }
    }
    let mut atlas = Atlas::default();
    let a = mask(10, 4, 255);
    let b = mask(6, 8, 128);
    let c = mask(20, 3, 64);
    atlas.insert_many(&[(1, a), (2, b), (3, c)]);
    assert!(atlas.has(1) && atlas.has(2) && atlas.has(3));
    let c1 = atlas.cell(1).expect("glyph 1 should be packed");
    assert_eq!((c1.x, c1.y), (0, 0));
    let c2 = atlas.cell(2).expect("glyph 2 should be packed");
    assert_eq!((c2.x, c2.y), (10, 0));
    let c3 = atlas.cell(3).expect("glyph 3 should be packed");
    // 10 + 6 + 20 = 36 <= 512, so glyph 3 stays on the first shelf.
    assert_eq!((c3.x, c3.y), (16, 0));
    let pixel = |cell: &Cell, cx: u32, cy: u32| -> usize {
        (((cell.y + cy) * atlas.width() + cell.x + cx) as usize) * 4
    };
    // The pixels landed at the cell's top-left corner, top row first.
    assert_eq!(&atlas.data()[pixel(c1, 0, 0)..pixel(c1, 0, 0) + 4], &[255; 4]);
    assert_eq!(&atlas.data()[pixel(c2, 0, 0)..pixel(c2, 0, 0) + 4], &[128; 4]);
    assert_eq!(&atlas.data()[pixel(c3, 5, 1)..pixel(c3, 5, 1) + 4], &[64; 4]);
    // Packed space outside the cells stays transparent black.
    assert_eq!(&atlas.data()[pixel(c1, 0, 5)..pixel(c1, 0, 5) + 4], &[0; 4]);
}

#[test]
fn atlas_skips_glyphs_that_do_not_fit() {
    fn mask(width: u32, height: u32) -> RasterGlyph {
        RasterGlyph {
            data: vec![255; (width * height * 4) as usize],
            width,
            height,
            left: 0,
            top: 0,
        }
    }
    let mut atlas = Atlas::default();
    atlas.insert_many(&[(1, mask(600, 4)), (2, mask(10, 4))]);
    assert!(!atlas.has(1), "the wide glyph should be skipped");
    assert!(atlas.has(2), "the following glyph should still pack");
    let c2 = atlas.cell(2).expect("glyph 2 should be packed");
    assert_eq!((c2.x, c2.y), (0, 0));
}

/// A glyph of `width` by `height` pixels whose every byte is `fill`.
fn solid(width: u32, height: u32, fill: u8) -> RasterGlyph {
    RasterGlyph {
        data: vec![fill; (width * height * 4) as usize],
        width,
        height,
        left: 3,
        top: -2,
    }
}

#[test]
fn a_glyph_that_overflows_the_shelf_starts_a_new_shelf_below_the_tallest() {
    let mut atlas = Atlas::default();
    atlas.insert_many(&[(1, solid(300, 10, 1)), (2, solid(100, 30, 2)), (3, solid(200, 5, 3))]);
    let c3 = atlas.cell(3).expect("glyph 3 should be packed");
    // 300 + 100 + 200 > 512: the third glyph wraps under the shelf, whose
    // height is its tallest glyph's.
    assert_eq!((c3.x, c3.y), (0, 30));
    assert_eq!((c3.width, c3.height, c3.left, c3.top), (200, 5, 3, -2));
}

#[test]
fn packing_stops_when_the_atlas_runs_out_of_rows() {
    let mut atlas = Atlas::default();
    // Two full-width shelves of 300 rows cannot both fit in 512 rows.
    atlas.insert_many(&[(1, solid(512, 300, 1)), (2, solid(512, 300, 2)), (3, solid(4, 4, 3))]);
    assert!(atlas.has(1));
    assert!(!atlas.has(2), "the second shelf is out of space");
    // Packing stopped at the glyph that ran out of space.
    assert!(!atlas.has(3));
}

#[test]
fn repacking_a_known_glyph_changes_nothing() {
    let mut atlas = Atlas::default();
    atlas.insert_many(&[(7, solid(8, 8, 9))]);
    let generation = atlas.generation();
    let before = atlas.data().to_vec();
    atlas.insert_many(&[(7, solid(8, 8, 200))]);
    assert_eq!(atlas.generation(), generation, "no new glyph landed");
    assert_eq!(atlas.data(), before);
    assert_eq!(atlas.data()[0], 9, "the first mask stays in its cell");
}

#[test]
fn the_generation_advances_only_when_a_glyph_lands() {
    let mut atlas = Atlas::default();
    assert_eq!(atlas.generation(), 0);
    atlas.insert_many(&[]);
    assert_eq!(atlas.generation(), 0);
    atlas.insert_many(&[(1, solid(2, 2, 1)), (2, solid(2, 2, 2))]);
    assert_eq!(atlas.generation(), 1);
    atlas.insert_many(&[(1, solid(2, 2, 1)), (3, solid(2, 2, 3))]);
    assert_eq!(atlas.generation(), 2);
}

#[test]
fn later_glyphs_never_overwrite_earlier_cells() {
    let mut atlas = Atlas::default();
    atlas.insert_many(&[(1, solid(500, 20, 11))]);
    atlas.insert_many(&[(2, solid(100, 20, 22)), (3, solid(30, 30, 33))]);
    let cells: Vec<Cell> = [1, 2, 3].iter().map(|id| *atlas.cell(*id).unwrap()).collect();
    for (i, a) in cells.iter().enumerate() {
        for b in &cells[i + 1..] {
            let apart = a.x + a.width <= b.x
                || b.x + b.width <= a.x
                || a.y + a.height <= b.y
                || b.y + b.height <= a.y;
            assert!(apart, "cells {a:?} and {b:?} overlap");
        }
    }
    let first = &cells[0];
    for row in 0..first.height {
        for col in 0..first.width {
            let at = (((first.y + row) * atlas.width() + first.x + col) * 4) as usize;
            assert_eq!(&atlas.data()[at..at + 4], &[11; 4]);
        }
    }
}

#[test]
fn a_mask_replicates_its_alpha_into_every_channel() {
    let glyph = RasterGlyph::from_mask(&[0, 10, 20, 30, 40, 50], 3, 2, -1, 7)
        .expect("a 3x2 mask has pixels");
    assert_eq!((glyph.width, glyph.height, glyph.left, glyph.top), (3, 2, -1, 7));
    assert_eq!(glyph.data.len(), 24);
    assert_eq!(&glyph.data[0..4], &[0; 4]);
    assert_eq!(&glyph.data[12..16], &[30; 4]);
    assert_eq!(&glyph.data[20..24], &[50; 4]);
}

#[test]
fn an_empty_mask_gives_no_glyph() {
    assert!(RasterGlyph::from_mask(&[], 0, 5, 0, 0).is_none());
    assert!(RasterGlyph::from_mask(&[1, 2], 2, 0, 0, 0).is_none());
}

#[test]
fn a_new_atlas_is_transparent_black_and_512_square() {
    let atlas = Atlas::new();
    assert_eq!((atlas.width(), atlas.height()), (512, 512));
    assert_eq!(atlas.data().len(), 512 * 512 * 4);
    assert!(atlas.data().iter().all(|&b| b == 0));
    assert!(!atlas.has(0));
    assert!(atlas.cell(0).is_none());
}

#[test]
fn a_repeated_id_packs_its_first_occurrence_that_fits() {
    let mut atlas = Atlas::default();
    let mut later = solid(2, 2, 77);
    later.left = 5;
    later.top = 6;
    atlas.insert_many(&[(4, solid(2, 2, 33)), (4, later.clone())]);
    let cell = *atlas.cell(4).unwrap();
    assert_eq!((cell.width, cell.height, cell.left, cell.top), (2, 2, 3, -2));
    assert_eq!(atlas.data()[((cell.y * atlas.width() + cell.x) * 4) as usize], 33);

    let mut atlas = Atlas::default();
    atlas.insert_many(&[(4, solid(600, 1, 1)), (4, later)]);
    let cell = *atlas.cell(4).unwrap();
    assert_eq!((cell.width, cell.height, cell.left, cell.top), (2, 2, 5, 6));
    assert_eq!(atlas.data()[((cell.y * atlas.width() + cell.x) * 4) as usize], 77);
}

#[test]
fn a_mask_longer_than_its_pixels_packs_only_its_pixels() {
    let mut atlas = Atlas::default();
    let mut glyph = solid(1, 1, 9);
    glyph.data.extend_from_slice(&[200; 8]);
    atlas.insert_many(&[(1, glyph)]);
    assert_eq!(&atlas.data()[0..8], &[9, 9, 9, 9, 0, 0, 0, 0]);
}
