use rich_text3d::atlas::TextAtlas;
use rich_text3d::bitmap::AtlasImage;
use rich_text3d::geometry::{PixelPoint, PixelRect};
use rich_text3d::glyph::{AtlasEntry, GlyphEntry};
use rich_text3d::raster::{blit_alpha, cache_glyph, can_draw, place_glyph};
use rich_text3d::resolver::{glyph_key, resolve, Resolution, ShapedGlyph};
use rich_text3d::style::RenderType;

type Atlas = TextAtlas<u32, (i32, i32)>;

fn entry(glyph_id: u16) -> GlyphEntry {
    GlyphEntry { font: 9, glyph_id, size: 0x42000000, weight: 400, stroke: None }
}

#[test]
fn blit_writes_the_alpha_bytes_only() {
    let mut buffer = vec![7u8; 3 * 16];
    let coverage = [1u8, 2, 3, 4, 5, 6];
    let drawn = blit_alpha(&mut buffer, 16, &coverage, 3, 2);
    assert_eq!(drawn, (3, 2));
    let mut expected = vec![7u8; 3 * 16];
    expected[3] = 1;
    expected[7] = 2;
    expected[11] = 3;
    expected[16 + 3] = 4;
    expected[16 + 7] = 5;
    expected[16 + 11] = 6;
    assert_eq!(buffer, expected);
}

#[test]
fn blit_of_an_empty_mask_writes_nothing() {
    let mut buffer = vec![7u8; 8];
    assert_eq!(blit_alpha(&mut buffer, 8, &[], 0, 5), (0, 5));
    assert_eq!(blit_alpha(&mut buffer, 8, &[], 2, 0), (2, 0));
    assert_eq!(buffer, vec![7u8; 8]);
    let mut none: Vec<u8> = Vec::new();
    assert_eq!(blit_alpha(&mut none, 0, &[], 0, 0), (0, 0));
}

#[test]
fn blit_reaches_the_last_byte() {
    let mut buffer = vec![0u8; 8 + 8];
    let drawn = blit_alpha(&mut buffer, 8, &[10, 20, 30, 40], 2, 2);
    assert_eq!(drawn, (2, 2));
    assert_eq!(buffer, vec![0, 0, 0, 10, 0, 0, 0, 20, 0, 0, 0, 30, 0, 0, 0, 40]);
}

#[test]
fn cached_glyph_lands_in_the_alpha_channel() {
    let mut atlas = Atlas::new(0);
    let mut image = Atlas::empty_image(16, 8);
    let coverage = [11u8, 12, 13, 21, 22, 23];
    assert!(can_draw(&atlas, &image, 3, 2));
    let (rect, base) = cache_glyph(&mut atlas, &mut image, entry(1), (-2, 5), &coverage, 3, 2);
    assert_eq!(
        rect,
        PixelRect { min: PixelPoint { x: 6, y: 0 }, max: PixelPoint { x: 9, y: 2 } }
    );
    assert_eq!(base, (-2, 5));
    assert_eq!(atlas.lookup(&entry(1)), Some(AtlasEntry { rect, base: (-2, 5) }));
    let mut expected = Atlas::empty_image(16, 8);
    {
        let data = expected.data.as_mut().unwrap();
        for y in 0..2 {
            for x in 0..3 {
                data[(y * 16 + 6 + x) * 4 + 3] = coverage[y * 3 + x];
            }
        }
    }
    assert!(image == expected);
    assert_eq!(image.pixel(7, 1), Some([255, 255, 255, 22]));
}

#[test]
fn cached_glyph_is_not_drawn_again() {
    let mut atlas = Atlas::new(0);
    let mut image = Atlas::empty_image(16, 8);
    let (first, _) = cache_glyph(&mut atlas, &mut image, entry(1), (0, 0), &[9, 9], 2, 1);
    let snapshot = image.clone();
    let (second, base) = cache_glyph(&mut atlas, &mut image, entry(1), (4, 4), &[1, 1, 1], 3, 1);
    assert_eq!(first, second);
    assert_eq!(base, (4, 4));
    assert!(image == snapshot);
    assert_eq!(atlas.lookup(&entry(1)), Some(AtlasEntry { rect: first, base: (0, 0) }));
}

#[test]
fn glyph_without_pixels_is_cached_too() {
    let mut atlas = Atlas::new(0);
    let mut image = Atlas::empty_image(16, 8);
    assert!(can_draw(&atlas, &image, 0, 0));
    let (rect, _) = cache_glyph(&mut atlas, &mut image, entry(32), (0, 0), &[], 0, 0);
    assert_eq!(rect.width(), 0);
    assert_eq!(rect.height(), 0);
    assert!(image == Atlas::empty_image(16, 8));
    assert!(atlas.lookup(&entry(32)).is_some());
}

#[test]
fn can_draw_refuses_what_leaves_the_bitmap() {
    let atlas = Atlas::new(0);
    let image = Atlas::empty_image(16, 8);
    assert!(can_draw(&atlas, &image, 10, 4));
    // wider than the bitmap
    assert!(!can_draw(&atlas, &image, 17, 1));
    // sixteen rows after growth are not enough for thirteen rows from row fifteen
    assert!(!can_draw(&atlas, &image, 12, 13));
    // nor can the atlas pack it
    assert!(!can_draw(&atlas, &image, usize::MAX, 1));
    // a glyph that runs over the right edge and wraps into the next row is drawn
    assert!(can_draw(&atlas, &image, 12, 2));
    let bare = AtlasImage { width: 16, height: 8, data: None };
    assert!(can_draw(&atlas, &bare, 17, 100));
}

#[test]
fn glyph_on_a_bitmap_without_storage_is_skipped() {
    let mut atlas = Atlas::new(0);
    let mut bare = AtlasImage { width: 16, height: 8, data: None };
    let (rect, base) = cache_glyph(&mut atlas, &mut bare, entry(1), (1, 1), &[5; 4], 2, 2);
    assert_eq!(rect, PixelRect::empty());
    assert_eq!(base, (1, 1));
    assert_eq!(atlas.lookup(&entry(1)), None);
}

#[test]
fn glyph_that_cannot_be_placed_is_to_be_skipped() {
    let mut atlas = Atlas::new(0);
    let mut image = Atlas::empty_image(16, 8);
    let mut bare = AtlasImage { width: 16, height: 8, data: None };
    // not cached, no storage: no placement, and nothing changes
    assert_eq!(place_glyph(&mut atlas, &mut bare, entry(1), (1, 1), &[5; 4], 2, 2), None);
    assert_eq!(atlas.lookup(&entry(1)), None);
    assert_eq!(atlas.pointer(), PixelPoint { x: 6, y: 0 });
    assert_eq!(bare, AtlasImage { width: 16, height: 8, data: None });
    assert_eq!(place_glyph(&mut atlas, &mut bare, entry(1), (1, 1), &[5; 14], 14, 1), None);
    assert_eq!(atlas.pointer(), PixelPoint { x: 6, y: 0 });
    // with storage the glyph is placed
    let rect = PixelRect { min: PixelPoint { x: 6, y: 0 }, max: PixelPoint { x: 8, y: 2 } };
    assert_eq!(
        place_glyph(&mut atlas, &mut image, entry(1), (1, 1), &[5; 4], 2, 2),
        Some(AtlasEntry { rect, base: (1, 1) })
    );
    assert_eq!(image.pixel(7, 1), Some([255, 255, 255, 5]));
    // and once cached it is found again, with the base now given, storage or not
    assert_eq!(
        place_glyph(&mut atlas, &mut bare, entry(1), (2, 2), &[5; 4], 2, 2),
        Some(AtlasEntry { rect, base: (2, 2) })
    );
    assert_eq!(
        place_glyph(&mut atlas, &mut image, entry(1), (3, 3), &[9; 4], 2, 2),
        Some(AtlasEntry { rect, base: (3, 3) })
    );
    assert_eq!(image.pixel(7, 1), Some([255, 255, 255, 5]));
    // a glyph without pixels is placed too
    let empty = place_glyph(&mut atlas, &mut image, entry(2), (0, 0), &[], 0, 0);
    assert_eq!(empty.map(|e| (e.rect.width(), e.rect.height())), Some((0, 0)));
}

#[test]
fn resolve_finds_cached_glyphs_and_names_the_others() {
    let mut atlas = Atlas::new(0);
    let mut image = Atlas::empty_image(32, 16);
    let glyph = ShapedGlyph { font: 9, glyph_id: 1, size: 0x42000000 };
    let fill = glyph_key(&glyph, 400, RenderType::Fill).unwrap();
    let stroke = glyph_key(&glyph, 400, RenderType::Stroke(5)).unwrap();
    assert_eq!(fill, entry(1));
    assert_eq!(stroke, GlyphEntry { stroke: Some(5), ..entry(1) });
    assert_eq!(glyph_key(&glyph, 400, RenderType::Background), None);
    assert_eq!(resolve(&atlas, &glyph, 400, RenderType::Fill), Resolution::Rasterize(fill));
    let (rect, _) = cache_glyph(&mut atlas, &mut image, fill, (3, 3), &[1, 2], 2, 1);
    assert_eq!(
        resolve(&atlas, &glyph, 400, RenderType::Fill),
        Resolution::Cached(AtlasEntry { rect, base: (3, 3) })
    );
    assert_eq!(
        resolve(&atlas, &glyph, 400, RenderType::Stroke(5)),
        Resolution::Rasterize(stroke)
    );
    assert_eq!(
        resolve(&atlas, &glyph, 700, RenderType::Fill),
        Resolution::Rasterize(GlyphEntry { weight: 700, ..fill })
    );
    assert_eq!(resolve(&atlas, &glyph, 400, RenderType::Background), Resolution::Swatch);
}
