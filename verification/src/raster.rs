//! From a rasterized glyph to its place in the atlas: the coverage mask of
//! the glyph is written into the alpha channel of the bitmap.

use vstd::prelude::*;
use vstd::arithmetic::div_mod::{
    lemma_fundamental_div_mod, lemma_fundamental_div_mod_converse, lemma_mod_bound,
};
use crate::atlas::{
    cache_effect, clear_of_swatch, staged_bytes, staged_height, trails, TextAtlas,
};
use crate::bitmap::{pixel_offset, AtlasImage, CHANNELS};
use crate::geometry::PixelRect;
use crate::glyph::{AtlasEntry, GlyphEntry};

verus! {

/// Whether byte `i` of a buffer whose rows are `pitch` bytes long is the
/// alpha byte of a pixel among the first `width` of one of the first
/// `height` rows.
pub open spec fn under_mask(pitch: int, width: int, height: int, i: int) -> bool {
    &&& pitch > 0
    &&& (i % pitch) % 4 == 3
    &&& (i % pitch) / 4 < width
    &&& i / pitch < height
}

/// The buffer with a mask of `width` by `height` coverage values, stored
/// row by row, written into those alpha bytes. No other byte changes.
pub open spec fn blitted(
    buffer: Seq<u8>,
    pitch: int,
    coverage: Seq<u8>,
    width: int,
    height: int,
) -> Seq<u8> {
    Seq::new(
        buffer.len(),
        |i: int|
            if under_mask(pitch, width, height, i) {
                coverage[(i / pitch) * width + (i % pitch) / 4]
            } else {
                buffer[i]
            },
    )
}

/// Whether every alpha byte under such a mask lies within `len` bytes.
pub open spec fn mask_fits(len: int, pitch: int, width: int, height: int) -> bool {
    width > 0 && height > 0 ==> (height - 1) * pitch + (width - 1) * 4 + 3 < len
}

/// The buffer while the mask is being written: columns left of `column` are
/// done, and of column `column` the rows above `row`.
spec fn blitted_part(
    buffer: Seq<u8>,
    pitch: int,
    coverage: Seq<u8>,
    width: int,
    height: int,
    column: int,
    row: int,
) -> Seq<u8> {
    Seq::new(
        buffer.len(),
        |i: int|
            if under_mask(pitch, width, height, i) && ((i % pitch) / 4 < column || ((i % pitch)
                / 4 == column && i / pitch < row)) {
                coverage[(i / pitch) * width + (i % pitch) / 4]
            } else {
                buffer[i]
            },
    )
}

/// Row and column of the alpha byte of pixel `x` of row `y`.
proof fn lemma_alpha_index(pitch: int, width: int, x: int, y: int)
    requires
        0 <= x < width,
        0 <= y,
        width * 4 <= pitch,
    ensures
        0 <= y * pitch + x * 4 + 3,
        (y * pitch + x * 4 + 3) / pitch == y,
        (y * pitch + x * 4 + 3) % pitch == x * 4 + 3,
{
    assert(0 <= y * pitch) by (nonlinear_arith)
        requires
            0 <= y,
            0 <= pitch,
    ;
    lemma_fundamental_div_mod_converse(y * pitch + x * 4 + 3, pitch, y, x * 4 + 3);
}

/// Two alpha bytes under the mask with the same row and column are one.
proof fn lemma_alpha_unique(pitch: int, i: int, x: int, y: int)
    requires
        0 < pitch,
        0 <= i,
        (i % pitch) % 4 == 3,
        (i % pitch) / 4 == x,
        i / pitch == y,
    ensures
        i == y * pitch + x * 4 + 3,
{
    lemma_fundamental_div_mod(i, pitch);
    lemma_mod_bound(i, pitch);
    assert(pitch * (i / pitch) == (i / pitch) * pitch) by (nonlinear_arith);
}

/// What [`blitted`] holds at each pixel under the mask: its alpha byte is
/// the coverage value of that pixel, its three colour bytes are untouched.
pub proof fn lemma_blitted_pixel(
    buffer: Seq<u8>,
    pitch: int,
    coverage: Seq<u8>,
    width: int,
    height: int,
    x: int,
    y: int,
    c: int,
)
    requires
        0 <= x < width,
        0 <= y < height,
        0 <= c < 4,
        width * 4 <= pitch,
        mask_fits(buffer.len() as int, pitch, width, height),
    ensures
        0 <= y * pitch + x * 4 + c < buffer.len(),
        blitted(buffer, pitch, coverage, width, height)[y * pitch + x * 4 + c] == (if c == 3 {
            coverage[y * width + x]
        } else {
            buffer[y * pitch + x * 4 + c]
        }),
{
    assert(0 <= y * pitch <= (height - 1) * pitch) by (nonlinear_arith)
        requires
            0 <= y <= height - 1,
            0 <= pitch,
    ;
    lemma_fundamental_div_mod_converse(y * pitch + x * 4 + c, pitch, y, x * 4 + c);
}

/// Writes a coverage mask of `width` by `height` values, stored row by row,
/// into the alpha bytes of `buffer`, whose first byte belongs to the pixel
/// under the mask's first value and whose rows are `pitch` bytes long.
/// Returns the size of the mask.
pub fn blit_alpha(
    buffer: &mut [u8],
    pitch: usize,
    coverage: &[u8],
    width: usize,
    height: usize,
) -> (drawn: (usize, usize))
    requires
        coverage@.len() == width * height,
        width * 4 <= pitch,
        mask_fits(old(buffer)@.len() as int, pitch as int, width as int, height as int),
    ensures
        drawn == (width, height),
        final(buffer)@ == blitted(
            old(buffer)@,
            pitch as int,
            coverage@,
            width as int,
            height as int,
        ),
{
    let ghost before = buffer@;
    let len: usize = buffer.len();
    let count: usize = coverage.len();
    assert(buffer@ =~= blitted_part(
        before,
        pitch as int,
        coverage@,
        width as int,
        height as int,
        0,
        0,
    ));
    let mut x: usize = 0;
    while x < width
        invariant
            x <= width,
            before.len() == len,
            coverage@.len() == count,
            coverage@.len() == width * height,
            width * 4 <= pitch,
            mask_fits(before.len() as int, pitch as int, width as int, height as int),
            buffer@ == blitted_part(
                before,
                pitch as int,
                coverage@,
                width as int,
                height as int,
                x as int,
                0,
            ),
        decreases width - x,
    {
        let mut y: usize = 0;
        while y < height
            invariant
                x < width,
                y <= height,
                before.len() == len,
                coverage@.len() == count,
                coverage@.len() == width * height,
                width * 4 <= pitch,
                mask_fits(before.len() as int, pitch as int, width as int, height as int),
                buffer@ == blitted_part(
                    before,
                    pitch as int,
                    coverage@,
                    width as int,
                    height as int,
                    x as int,
                    y as int,
                ),
            decreases height - y,
        {
            proof {
                lemma_alpha_index(pitch as int, width as int, x as int, y as int);
                assert(y * pitch <= (height - 1) * pitch) by (nonlinear_arith)
                    requires
                        y <= height - 1,
                        0 <= pitch,
                ;
                assert(0 <= y * width + x < width * height) by (nonlinear_arith)
                    requires
                        0 <= x < width,
                        0 <= y < height,
                ;
                assert(0 <= y * width <= y * width + x);
            }
            let target: usize = y * pitch + x * CHANNELS + 3;
            let value: u8 = coverage[y * width + x];
            let ghost earlier = buffer@;
            buffer[target] = value;
            proof {
                let next = blitted_part(
                    before,
                    pitch as int,
                    coverage@,
                    width as int,
                    height as int,
                    x as int,
                    y + 1,
                );
                assert forall|i: int| 0 <= i < before.len() implies buffer@[i] == next[i] by {
                    if under_mask(pitch as int, width as int, height as int, i) && (i % (
                    pitch as int)) / 4 == x && i / (pitch as int) == y {
                        lemma_alpha_unique(pitch as int, i, x as int, y as int);
                    }
                }
                assert(buffer@ =~= next);
            }
            y = y + 1;
        }
        assert(buffer@ =~= blitted_part(
            before,
            pitch as int,
            coverage@,
            width as int,
            height as int,
            x + 1,
            0,
        ));
        x = x + 1;
    }
    assert(buffer@ =~= blitted(before, pitch as int, coverage@, width as int, height as int));
    (width, height)
}

/// Whether the mask of a glyph `width` by `height` pixels large can be
/// written where the atlas would put the glyph: the glyph is packable, and
/// if the bitmap has storage, the mask is no wider than the bitmap and all
/// of it lies within the bitmap's bytes.
pub open spec fn drawable<H, B: Copy>(
    atlas: &TextAtlas<H, B>,
    image: &AtlasImage,
    width: usize,
    height: usize,
) -> bool {
    &&& atlas.packable(image, width, height)
    &&& image.has_storage() ==> {
        &&& width <= image.width
        &&& mask_fits(
            atlas.draw_buffer(image, width, height).len() as int,
            image.width * CHANNELS,
            width as int,
            height as int,
        )
    }
}

/// Whether [`drawable`] holds, for callers that cannot prove it.
pub fn can_draw<H, B: Copy>(
    atlas: &TextAtlas<H, B>,
    image: &AtlasImage,
    width: usize,
    height: usize,
) -> (ok: bool)
    requires
        atlas.wf(),
        image.wf(),
    ensures
        ok == drawable(atlas, image, width, height),
{
    if !atlas.can_pack(image, width, height) {
        return false;
    }
    let len: usize = match atlas.buffer_len(image, width, height) {
        Some(len) => len,
        None => { return true; },
    };
    if width > image.width {
        return false;
    }
    if width == 0 || height == 0 {
        return true;
    }
    let pitch: usize = image.width * CHANNELS;
    let last_row: usize = match (height - 1).checked_mul(pitch) {
        Some(offset) => offset,
        None => { return false; },
    };
    let last: usize = match last_row.checked_add((width - 1) * CHANNELS + 3) {
        Some(last) => last,
        None => { return false; },
    };
    last < len
}

/// Caches a rasterized glyph: `coverage` holds the glyph's alpha values,
/// `width` by `height` of them, row by row.
///
/// The glyph is cached under `entry` as [`TextAtlas::cache`] does, with the
/// mask's size as the size asked for and a callback that writes the mask
/// into the alpha channel. Returns the glyph's rectangle, and `base` as it
/// was given.
pub fn cache_glyph<H, B: Copy>(
    atlas: &mut TextAtlas<H, B>,
    image: &mut AtlasImage,
    entry: GlyphEntry,
    base: B,
    coverage: &[u8],
    width: usize,
    height: usize,
) -> (placed: (PixelRect, B))
    requires
        old(atlas).wf(),
        old(image).wf(),
        coverage@.len() == width * height,
        !old(atlas).entries().contains_key(entry) ==> drawable(
            old(atlas),
            old(image),
            width,
            height,
        ),
    ensures
        final(atlas).wf(),
        final(atlas).handle() == old(atlas).handle(),
        final(image).wf(),
        final(image).width == old(image).width,
        final(image).has_storage() == old(image).has_storage(),
        clear_of_swatch(placed.0),
        placed.1 == base,
        cache_effect(
            *old(atlas),
            *old(image),
            *final(atlas),
            *final(image),
            entry,
            base,
            width,
            height,
            placed.0,
        ),
        !old(atlas).entries().contains_key(entry) && old(image).has_storage() ==> {
            let at = old(atlas).draw_cursor(old(image), width, height);
            let offset = old(atlas).draw_offset(old(image), width, height);
            let staged = staged_bytes(old(image).bytes(), old(image).height as int, at);
            &&& placed.0.max.x == at.x + width
            &&& placed.0.max.y == at.y + height
            &&& final(image).bytes() == staged.take(offset) + blitted(
                staged.skip(offset),
                old(image).width * CHANNELS,
                coverage@,
                width as int,
                height as int,
            )
        },
{
    let draw = |buffer: &mut [u8], pitch: usize| -> (drawn: (usize, usize))
        requires
            coverage@.len() == width * height,
            width * 4 <= pitch,
            mask_fits(buffer@.len() as int, pitch as int, width as int, height as int),
        ensures
            drawn == (width, height),
            final(buffer)@ == blitted(
                old(buffer)@,
                pitch as int,
                coverage@,
                width as int,
                height as int,
            ),
        { blit_alpha(buffer, pitch, coverage, width, height) };
    let rect = atlas.cache(image, entry, base, width, height, draw);
    (rect, base)
}

/// Caches a rasterized glyph, or says that it has to be skipped.
///
/// A glyph that is not cached cannot be placed on a bitmap without
/// storage: there is no placement then, nothing changes, and the caller
/// draws nothing for the glyph in this pass. In every other case the glyph
/// is cached as [`cache_glyph`] caches it, and its rectangle comes back
/// together with `base` as it was given.
pub fn place_glyph<H, B: Copy>(
    atlas: &mut TextAtlas<H, B>,
    image: &mut AtlasImage,
    entry: GlyphEntry,
    base: B,
    coverage: &[u8],
    width: usize,
    height: usize,
) -> (placed: Option<AtlasEntry<B>>)
    requires
        old(atlas).wf(),
        old(image).wf(),
        coverage@.len() == width * height,
        !old(atlas).entries().contains_key(entry) ==> drawable(
            old(atlas),
            old(image),
            width,
            height,
        ),
    ensures
        final(atlas).wf(),
        final(atlas).handle() == old(atlas).handle(),
        final(image).wf(),
        final(image).width == old(image).width,
        final(image).has_storage() == old(image).has_storage(),
        placed is None <==> !old(atlas).entries().contains_key(entry) && !old(
            image,
        ).has_storage(),
        placed is None ==> {
            &&& final(atlas).entries() == old(atlas).entries()
            &&& final(atlas).cursor() == old(atlas).cursor()
            &&& *final(image) == *old(image)
        },
        placed is Some ==> {
            &&& placed->0.base == base
            &&& clear_of_swatch(placed->0.rect)
            &&& cache_effect(
                *old(atlas),
                *old(image),
                *final(atlas),
                *final(image),
                entry,
                base,
                width,
                height,
                placed->0.rect,
            )
        },
        !old(atlas).entries().contains_key(entry) && old(image).has_storage() ==> {
            let at = old(atlas).draw_cursor(old(image), width, height);
            let offset = old(atlas).draw_offset(old(image), width, height);
            let staged = staged_bytes(old(image).bytes(), old(image).height as int, at);
            &&& placed is Some
            &&& placed->0.rect.max.x == at.x + width
            &&& placed->0.rect.max.y == at.y + height
            &&& final(image).bytes() == staged.take(offset) + blitted(
                staged.skip(offset),
                old(image).width * CHANNELS,
                coverage@,
                width as int,
                height as int,
            )
        },
{
    let skipped: bool = image.data.is_none() && atlas.lookup(&entry).is_none();
    let (rect, base) = cache_glyph(atlas, image, entry, base, coverage, width, height);
    if skipped {
        None
    } else {
        Some(AtlasEntry { rect, base })
    }
}

/// Caching a rasterized glyph touches nothing but the glyph's own alpha
/// bytes. Where the glyph does not run over the right edge of the bitmap,
/// every byte of every pixel that the bitmap had keeps its value, except
/// the alpha bytes of the pixels in the glyph's rectangle. This holds
/// whether the bitmap grew or not.
pub proof fn lemma_glyph_keeps_other_pixels<H, B: Copy>(
    atlas: TextAtlas<H, B>,
    image_before: AtlasImage,
    image_after: AtlasImage,
    coverage: Seq<u8>,
    width: usize,
    height: usize,
    x: int,
    y: int,
    c: int,
)
    requires
        atlas.wf(),
        image_before.wf(),
        image_before.has_storage(),
        drawable(&atlas, &image_before, width, height),
        atlas.draw_cursor(&image_before, width, height).x + width <= image_before.width,
        image_after.bytes() == staged_bytes(
            image_before.bytes(),
            image_before.height as int,
            atlas.draw_cursor(&image_before, width, height),
        ).take(atlas.draw_offset(&image_before, width, height)) + blitted(
            staged_bytes(
                image_before.bytes(),
                image_before.height as int,
                atlas.draw_cursor(&image_before, width, height),
            ).skip(atlas.draw_offset(&image_before, width, height)),
            image_before.width * CHANNELS,
            coverage,
            width as int,
            height as int,
        ),
        0 <= x < image_before.width,
        0 <= y < image_before.height,
        0 <= c < 4,
        c != 3 || !({
            let at = atlas.draw_cursor(&image_before, width, height);
            at.x <= x < at.x + width && at.y <= y < at.y + height
        }),
    ensures
        0 <= pixel_offset(image_before.width as int, x, y) + c < image_before.bytes().len(),
        image_after.bytes().len() >= image_before.bytes().len(),
        image_after.bytes()[pixel_offset(image_before.width as int, x, y) + c]
            == image_before.bytes()[pixel_offset(image_before.width as int, x, y) + c],
{
    let w = image_before.width as int;
    let h = image_before.height as int;
    let at = atlas.draw_cursor(&image_before, width, height);
    let offset = atlas.draw_offset(&image_before, width, height);
    let staged = staged_bytes(image_before.bytes(), h, at);
    let rest = staged.skip(offset);
    let pitch = w * 4;
    let i = pixel_offset(w, x, y) + c;
    assert(0 <= y * w + x < w * h) by (nonlinear_arith)
        requires
            0 <= x < w,
            0 <= y < h,
    ;
    assert(image_before.bytes().len() == w * h * 4);
    assert(w * (2 * h) * 4 == 2 * (w * h * 4)) by (nonlinear_arith);
    assert(0 <= i < image_before.bytes().len() <= staged.len());
    assert(staged[i] == image_before.bytes()[i]);
    assert(0 <= at.y * w) by (nonlinear_arith)
        requires
            0 <= at.y,
            0 <= w,
    ;
    assert(staged.len() == w * staged_height(h, at) * 4);
    assert(0 <= offset <= staged.len());
    if i >= offset {
        let j = i - offset;
        let dy = y - at.y;
        let dx = x - at.x;
        assert(j == dy * pitch + dx * 4 + c) by (nonlinear_arith)
            requires
                j == (y * w + x) * 4 + c - (at.y * w + at.x) * 4,
                dy == y - at.y,
                dx == x - at.x,
                pitch == w * 4,
        ;
        if dx >= 0 {
            assert(dy >= 0) by (nonlinear_arith)
                requires
                    0 <= j,
                    j == dy * pitch + dx * 4 + c,
                    0 <= dx * 4 + c < pitch,
            ;
            lemma_fundamental_div_mod_converse(j, pitch, dy, dx * 4 + c);
            assert(!under_mask(pitch, width as int, height as int, j));
        } else {
            assert(j == (dy - 1) * pitch + (w + dx) * 4 + c) by (nonlinear_arith)
                requires
                    j == dy * pitch + dx * 4 + c,
                    pitch == w * 4,
            ;
            assert(dy - 1 >= 0) by (nonlinear_arith)
                requires
                    0 <= j,
                    j == (dy - 1) * pitch + (w + dx) * 4 + c,
                    0 <= (w + dx) * 4 + c < pitch,
            ;
            lemma_fundamental_div_mod_converse(j, pitch, dy - 1, (w + dx) * 4 + c);
            assert(!under_mask(pitch, width as int, height as int, j));
        }
        assert(rest[j] == staged[i]);
    }
}

/// Caching a rasterized glyph leaves the glyphs cached before as they
/// were. Take a glyph that the atlas holds, whose rectangle lies inside the
/// bitmap and is no taller than was asked for it. When another glyph is
/// then drawn, without running over the right edge of the bitmap, every
/// pixel of the first keeps its four bytes, whether the bitmap grew or not.
pub proof fn lemma_glyph_keeps_earlier_glyphs<H, B: Copy>(
    atlas: TextAtlas<H, B>,
    image_before: AtlasImage,
    image_after: AtlasImage,
    earlier: GlyphEntry,
    coverage: Seq<u8>,
    width: usize,
    height: usize,
    x: int,
    y: int,
    c: int,
)
    requires
        atlas.wf(),
        image_before.wf(),
        image_before.has_storage(),
        drawable(&atlas, &image_before, width, height),
        atlas.draw_cursor(&image_before, width, height).x + width <= image_before.width,
        image_after.bytes() == staged_bytes(
            image_before.bytes(),
            image_before.height as int,
            atlas.draw_cursor(&image_before, width, height),
        ).take(atlas.draw_offset(&image_before, width, height)) + blitted(
            staged_bytes(
                image_before.bytes(),
                image_before.height as int,
                atlas.draw_cursor(&image_before, width, height),
            ).skip(atlas.draw_offset(&image_before, width, height)),
            image_before.width * CHANNELS,
            coverage,
            width as int,
            height as int,
        ),
        atlas.entries().contains_key(earlier),
        atlas.entries()[earlier].rect.max.x <= image_before.width,
        atlas.entries()[earlier].rect.max.y <= image_before.height,
        atlas.entries()[earlier].rect.max.y - atlas.entries()[earlier].rect.min.y
            <= atlas.rooms()[earlier],
        atlas.entries()[earlier].rect.covers(x, y),
        0 <= c < 4,
    ensures
        0 <= pixel_offset(image_before.width as int, x, y) + c < image_before.bytes().len(),
        image_after.bytes().len() >= image_before.bytes().len(),
        image_after.bytes()[pixel_offset(image_before.width as int, x, y) + c]
            == image_before.bytes()[pixel_offset(image_before.width as int, x, y) + c],
{
    let rect = atlas.entries()[earlier].rect;
    let at = atlas.draw_cursor(&image_before, width, height);
    assert(trails(rect, atlas.rooms()[earlier], atlas.cursor()));
    assert(x < at.x || y < at.y);
    lemma_glyph_keeps_other_pixels(
        atlas,
        image_before,
        image_after,
        coverage,
        width,
        height,
        x,
        y,
        c,
    );
}

} // verus!
