//! The glyph atlas: a cache from glyph identity to the place of the glyph's
//! pixels in a shared bitmap, filled by a shelf packer.

use vstd::prelude::*;
use rustc_hash::FxHashMap;
use crate::bitmap::{clear_pixels, blank_pixels, pixel_offset, AtlasImage, CHANNELS, SWATCH};
use crate::geometry::{lemma_apart, PixelPoint, PixelRect};
use crate::glyph::{lemma_key_injective, AtlasEntry, GlyphEntry, GlyphKey};
use crate::packer::{
    advanced, crowded, placed, seated, settled, start, wrapped, Cursor, Insertion, PADDING,
};
use crate::table::{table_get, table_insert};

verus! {

/// Height of a bitmap `image_height` pixels tall once the row of `c` has
/// room in it: doubled where the row is crowded.
pub open spec fn staged_height(image_height: int, c: Cursor) -> int {
    if crowded(c, image_height) {
        2 * image_height
    } else {
        image_height
    }
}

/// Bytes of such a bitmap: where the height doubles, the old bytes followed
/// by as many bytes of transparent white.
pub open spec fn staged_bytes(bytes: Seq<u8>, image_height: int, c: Cursor) -> Seq<u8> {
    if crowded(c, image_height) {
        bytes + clear_pixels(bytes.len() as int)
    } else {
        bytes
    }
}

/// The reserved square at the origin of every bitmap.
pub open spec fn swatch() -> PixelRect {
    PixelRect { min: PixelPoint { x: 0, y: 0 }, max: PixelPoint { x: SWATCH, y: SWATCH } }
}

/// Whether the rectangle keeps off the reserved square at the origin.
pub open spec fn clear_of_swatch(rect: PixelRect) -> bool {
    forall|x: int, y: int| rect.covers(x, y) ==> x >= SWATCH || y >= SWATCH
}

/// A rectangle keeps off the reserved square exactly if the two share no
/// pixel.
pub proof fn lemma_clear_of_swatch(rect: PixelRect)
    ensures
        clear_of_swatch(rect) <==> !rect.overlaps(swatch()),
{
    if !rect.overlaps(swatch()) {
        assert forall|x: int, y: int| rect.covers(x, y) implies x >= SWATCH || y >= SWATCH by {
            if x < SWATCH && y < SWATCH {
                assert(swatch().covers(x, y));
            }
        }
    }
}

/// Whether a cached rectangle, for which a height of `room` was asked,
/// lies behind the cursor. It begins in the cursor's row or above. If in
/// the cursor's row, it ends at least a padding left of the cursor, and the
/// row is as tall as was asked. If in a row above, the cursor's row begins
/// below what was asked and a padding.
pub open spec fn trails(rect: PixelRect, room: int, c: Cursor) -> bool {
    &&& rect.min.x <= rect.max.x
    &&& rect.min.y <= rect.max.y
    &&& 0 <= room
    &&& rect.min.y <= c.y
    &&& rect.min.y == c.y ==> rect.max.x + PADDING <= c.x && room <= c.descent
    &&& rect.min.y < c.y ==> rect.min.y + room + PADDING <= c.y
}

/// Whether two rectangles that begin in the same row lie side by side with
/// at least a padding between them.
pub open spec fn apart(a: PixelRect, b: PixelRect) -> bool {
    a.min.y == b.min.y ==> a.max.x + PADDING <= b.min.x || b.max.x + PADDING <= a.min.x
}

/// Whether, of two rectangles, one that begins in a lower row begins below
/// the height asked for the other, `room`, and a padding.
pub open spec fn stacked(a: PixelRect, room: int, b: PixelRect) -> bool {
    a.min.y < b.min.y ==> a.min.y + room + PADDING <= b.min.y
}

/// What one call of [`TextAtlas::cache`] does: `before` and `image_before`
/// are the atlas and the bitmap as the call finds them, `after` and
/// `image_after` as it leaves them, `rect` is what it returns.
pub open spec fn cache_effect<H, B: Copy>(
    before: TextAtlas<H, B>,
    image_before: AtlasImage,
    after: TextAtlas<H, B>,
    image_after: AtlasImage,
    glyph: GlyphEntry,
    base: B,
    width: usize,
    height: usize,
    rect: PixelRect,
) -> bool {
    if before.entries().contains_key(glyph) {
        // a hit: the stored rectangle, and nothing changes
        &&& rect == before.entries()[glyph].rect
        &&& after.entries() == before.entries()
        &&& after.rooms() == before.rooms()
        &&& after.cursor() == before.cursor()
        &&& image_after == image_before
    } else if !image_before.has_storage() {
        // no storage: nothing happens, and the rectangle is empty
        &&& rect == (PixelRect { min: PixelPoint { x: 0, y: 0 }, max: PixelPoint { x: 0, y: 0 } })
        &&& after.entries() == before.entries()
        &&& after.rooms() == before.rooms()
        &&& after.cursor() == before.cursor()
        &&& image_after == image_before
    } else {
        // a miss: room is made, the glyph is drawn and filed; the bytes
        // before the glyph's first byte are those of the bitmap with its
        // room made
        let at = before.draw_cursor(&image_before, width, height);
        let offset = before.draw_offset(&image_before, width, height);
        let staged = staged_bytes(image_before.bytes(), image_before.height as int, at);
        &&& image_after.height == staged_height(image_before.height as int, at)
        &&& rect.min.x == at.x
        &&& rect.min.y == at.y
        &&& rect.max.x >= rect.min.x
        &&& rect.max.y >= rect.min.y
        &&& after.entries() == before.entries().insert(glyph, AtlasEntry { rect, base })
        &&& after.rooms() == before.rooms().insert(glyph, height as int)
        &&& after.cursor() == advanced(at, rect.max.x - rect.min.x)
        &&& image_after.bytes().len() == staged.len()
        &&& image_after.bytes().take(offset) == staged.take(offset)
    }
}

/// A glyph atlas over a bitmap known by the handle `H`. With each glyph it
/// keeps a base offset of the caller's type `B`.
#[derive(Clone)]
pub struct TextAtlas<H, B> {
    image: H,
    glyphs: FxHashMap<GlyphKey, AtlasEntry<B>>,
    pointer: PixelPoint,
    descent: usize,
    rooms: Ghost<Map<GlyphEntry, int>>,
}

impl<H, B: Copy> TextAtlas<H, B> {
    /// The cached glyphs and what is stored for each.
    pub closed spec fn entries(&self) -> Map<GlyphEntry, AtlasEntry<B>> {
        Map::new(
            |glyph: GlyphEntry| self.glyphs@.contains_key(glyph.key_spec()),
            |glyph: GlyphEntry| self.glyphs@[glyph.key_spec()],
        )
    }

    /// The height that was asked for each cached glyph when it was placed.
    pub closed spec fn rooms(&self) -> Map<GlyphEntry, int> {
        self.rooms@
    }

    /// The packer's state.
    pub closed spec fn cursor(&self) -> Cursor {
        Cursor {
            x: self.pointer.x as int,
            y: self.pointer.y as int,
            descent: self.descent as int,
        }
    }

    /// The handle of the backing bitmap.
    pub closed spec fn handle(&self) -> H {
        self.image
    }

    /// The cursor is one that packing from the start can reach; the cached
    /// rectangles keep off the reserved square and lie behind the cursor;
    /// any two of them that begin in the same row lie apart; and a lower
    /// row begins below what was asked for every glyph of the rows above.
    pub open spec fn wf(&self) -> bool {
        &&& settled(self.cursor())
        &&& forall|glyph: GlyphEntry| #[trigger]
            self.entries().contains_key(glyph) ==> {
                &&& self.rooms().contains_key(glyph)
                &&& clear_of_swatch(self.entries()[glyph].rect)
                &&& trails(self.entries()[glyph].rect, self.rooms()[glyph], self.cursor())
            }
        &&& forall|a: GlyphEntry, b: GlyphEntry|
            #![trigger self.entries().contains_key(a), self.entries().contains_key(b)]
            self.entries().contains_key(a) && self.entries().contains_key(b) && a != b ==> {
                &&& apart(self.entries()[a].rect, self.entries()[b].rect)
                &&& stacked(self.entries()[a].rect, self.rooms()[a], self.entries()[b].rect)
            }
    }

    /// An empty atlas over the bitmap `image`, which
    /// [`TextAtlas::empty_image`] can make. Packing starts right of the
    /// reserved square.
    pub fn new(image: H) -> (atlas: Self)
        ensures
            atlas.wf(),
            atlas.handle() == image,
            atlas.entries() == Map::<GlyphEntry, AtlasEntry<B>>::empty(),
            atlas.rooms() == Map::<GlyphEntry, int>::empty(),
            atlas.cursor() == start(),
    {
        let atlas = TextAtlas {
            image,
            glyphs: FxHashMap::default(),
            pointer: PixelPoint { x: SWATCH + PADDING, y: 0 },
            descent: 0,
            rooms: Ghost(Map::empty()),
        };
        assert(atlas.entries() =~= Map::<GlyphEntry, AtlasEntry<B>>::empty());
        atlas
    }

    /// A bitmap filled with transparent white `(255, 255, 255, 0)`, the
    /// reserved square at its origin opaque.
    pub fn empty_image(width: usize, height: usize) -> (image: AtlasImage)
        requires
            width * height * 4 <= usize::MAX,
        ensures
            image.wf(),
            image.width == width,
            image.height == height,
            image.has_storage(),
            image.bytes() == blank_pixels(width as int, height as int),
    {
        AtlasImage::blank(width, height)
    }

    /// The handle of the backing bitmap.
    pub fn image(&self) -> (image: &H)
        ensures
            *image == self.handle(),
    {
        &self.image
    }

    /// Points the atlas at another bitmap. What is cached stays as it is.
    pub fn set_image(&mut self, image: H)
        ensures
            final(self).handle() == image,
            final(self).entries() == old(self).entries(),
            final(self).rooms() == old(self).rooms(),
            final(self).cursor() == old(self).cursor(),
            old(self).wf() ==> final(self).wf(),
    {
        self.image = image;
        assert(self.entries() == old(self).entries());
    }

    /// The origin the next glyph would get if it fits the current row.
    pub fn pointer(&self) -> (pointer: PixelPoint)
        ensures
            pointer.x == self.cursor().x,
            pointer.y == self.cursor().y,
    {
        self.pointer
    }

    /// Height of the tallest glyph requested in the current row.
    pub fn descent(&self) -> (descent: usize)
        ensures
            descent == self.cursor().descent,
    {
        self.descent
    }

    /// The cursor at which a glyph of the requested size is drawn: moved to
    /// the next row if the glyph overflows this one, the row made tall
    /// enough for it.
    pub open spec fn draw_cursor(&self, image: &AtlasImage, width: usize, height: usize) -> Cursor {
        seated(
            wrapped(self.cursor(), image.width as int, width as int, height as int),
            height as int,
        )
    }

    /// Index, among the bitmap's bytes, of the first byte of the pixel at
    /// which such a glyph is drawn.
    pub open spec fn draw_offset(&self, image: &AtlasImage, width: usize, height: usize) -> int {
        let at = self.draw_cursor(image, width, height);
        pixel_offset(image.width as int, at.x, at.y)
    }

    /// The bytes handed to the drawing callback: those of the bitmap, grown
    /// where the row is crowded, from the glyph's first byte to the end.
    pub open spec fn draw_buffer(&self, image: &AtlasImage, width: usize, height: usize) -> Seq<
        u8,
    > {
        let at = self.draw_cursor(image, width, height);
        staged_bytes(image.bytes(), image.height as int, at).skip(
            self.draw_offset(image, width, height),
        )
    }

    /// Whether a glyph of the requested size can be packed without leaving
    /// the range of `usize` or the bytes of the bitmap. On a bitmap without
    /// storage nothing is packed, so nothing is asked.
    pub open spec fn packable(&self, image: &AtlasImage, width: usize, height: usize) -> bool {
        let before = self.cursor();
        let row = wrapped(before, image.width as int, width as int, height as int);
        let at = seated(row, height as int);
        image.has_storage() ==> {
            &&& before.x + width + PADDING <= usize::MAX
            &&& row.y <= usize::MAX
            &&& at.y + at.descent + PADDING <= usize::MAX
            &&& image.width * CHANNELS <= usize::MAX
            &&& crowded(at, image.height as int) ==> image.height * 2 <= usize::MAX && image.width
                * image.height * 8 <= usize::MAX
            &&& pixel_offset(image.width as int, at.x, at.y) <= image.width * staged_height(
                image.height as int,
                at,
            ) * 4
        }
    }

    /// Works out, without changing anything, whether a glyph of the
    /// requested size is packable, and if so how many bytes the drawing
    /// callback would be handed; the inner `None` says that the bitmap has
    /// no storage.
    fn survey(&self, image: &AtlasImage, width: usize, height: usize) -> (found: Option<
        Option<usize>,
    >)
        requires
            self.wf(),
            image.wf(),
        ensures
            found is Some <==> self.packable(image, width, height),
            found is Some ==> (found->0 is Some <==> image.has_storage()),
            found is Some && found->0 is Some ==> found->0->0 == self.draw_buffer(
                image,
                width,
                height,
            ).len(),
    {
        let ghost row = wrapped(self.cursor(), image.width as int, width as int, height as int);
        let ghost at = seated(row, height as int);
        let stored: usize = match &image.data {
            Some(data) => data.len(),
            None => { return Some(None); },
        };
        let reach: usize = match self.pointer.x.checked_add(width) {
            Some(end) => match end.checked_add(PADDING) {
                Some(reach) => reach,
                None => { return None; },
            },
            None => { return None; },
        };
        let mut x: usize = self.pointer.x;
        let mut y: usize = self.pointer.y;
        let mut descent: usize = self.descent;
        if reach > image.width {
            let drop: usize = if descent >= height { descent } else { height };
            y = match y.checked_add(drop) {
                Some(low) => match low.checked_add(PADDING) {
                    Some(next) => next,
                    None => { return None; },
                },
                None => { return None; },
            };
            x = if self.pointer.y == 0 { SWATCH + PADDING } else { 0 };
            descent = 0;
        }
        assert(x == row.x && y == row.y && descent == row.descent);
        if height > descent {
            descent = height;
        }
        assert(descent == at.descent);
        let bottom: usize = match y.checked_add(descent) {
            Some(low) => match low.checked_add(PADDING) {
                Some(bottom) => bottom,
                None => { return None; },
            },
            None => { return None; },
        };
        if image.width.checked_mul(CHANNELS).is_none() {
            return None;
        }
        let mut room: usize = stored;
        if bottom >= image.height {
            if image.height.checked_mul(2).is_none() {
                return None;
            }
            proof {
                assert(image.width * image.height * 8 == stored * 2) by (nonlinear_arith)
                    requires
                        stored == image.width * image.height * 4,
                ;
            }
            room = match stored.checked_mul(2) {
                Some(room) => room,
                None => { return None; },
            };
        }
        proof {
            assert(image.width * (2 * image.height) * 4 == image.width * image.height * 4 * 2)
                by (nonlinear_arith);
            assert(room == image.width * staged_height(image.height as int, at) * 4);
        }
        let first: usize = match y.checked_mul(image.width) {
            Some(row_start) => match row_start.checked_add(x) {
                Some(pixel) => pixel,
                None => { return None; },
            },
            None => {
                proof {
                    assert(y * image.width + x >= y * image.width);
                }
                return None;
            },
        };
        if first <= room / CHANNELS {
            Some(Some(room - first * CHANNELS))
        } else {
            None
        }
    }

    /// Whether [`TextAtlas::packable`] holds, for callers that cannot prove
    /// it.
    pub fn can_pack(&self, image: &AtlasImage, width: usize, height: usize) -> (ok: bool)
        requires
            self.wf(),
            image.wf(),
        ensures
            ok == self.packable(image, width, height),
    {
        self.survey(image, width, height).is_some()
    }

    /// How many bytes the drawing callback would be handed for a glyph of
    /// the requested size: the length of [`TextAtlas::draw_buffer`]. There
    /// is none where the glyph is not packable or the bitmap has no
    /// storage.
    pub fn buffer_len(&self, image: &AtlasImage, width: usize, height: usize) -> (len: Option<
        usize,
    >)
        requires
            self.wf(),
            image.wf(),
        ensures
            len is Some <==> self.packable(image, width, height) && image.has_storage(),
            len is Some ==> len->0 == self.draw_buffer(image, width, height).len(),
    {
        match self.survey(image, width, height) {
            Some(len) => len,
            None => None,
        }
    }


    /// Makes room for a glyph of the requested size and says where it goes.
    ///
    /// If the bitmap has no storage, nothing happens and there is no
    /// origin. Otherwise the cursor wraps to the next row if the glyph
    /// overflows this one, the row grows to the glyph's height, the bitmap
    /// doubles its height if the row then reaches its bottom, and the
    /// cursor's position is the origin.
    pub fn reserve(&mut self, image: &mut AtlasImage, width: usize, height: usize) -> (origin:
        Option<PixelPoint>)
        requires
            old(self).wf(),
            old(image).wf(),
            old(self).packable(old(image), width, height),
        ensures
            final(self).wf(),
            final(self).handle() == old(self).handle(),
            final(self).entries() == old(self).entries(),
            final(self).rooms() == old(self).rooms(),
            final(image).wf(),
            final(image).width == old(image).width,
            final(image).has_storage() == old(image).has_storage(),
            !old(image).has_storage() ==> {
                &&& origin is None
                &&& final(self).cursor() == old(self).cursor()
                &&& *final(image) == *old(image)
            },
            old(image).has_storage() ==> {
                let at = old(self).draw_cursor(old(image), width, height);
                &&& origin == Some(PixelPoint { x: at.x as usize, y: at.y as usize })
                &&& final(self).cursor() == at
                &&& final(image).height == staged_height(old(image).height as int, at)
                &&& final(image).bytes() == staged_bytes(
                    old(image).bytes(),
                    old(image).height as int,
                    at,
                )
            },
    {
        if image.data.is_none() {
            return None;
        }
        if self.pointer.x + width + PADDING > image.width {
            self.pointer.x = if self.pointer.y == 0 { SWATCH + PADDING } else { 0 };
            let drop: usize = if self.descent >= height { self.descent } else { height };
            self.pointer.y = self.pointer.y + drop + PADDING;
            self.descent = 0;
        }
        if height > self.descent {
            self.descent = height;
        }
        if self.pointer.y + self.descent + PADDING >= image.height {
            image.grow();
        }
        assert(self.entries() == old(self).entries());
        Some(self.pointer)
    }

    /// Files `glyph` at the cursor and moves the cursor past it.
    ///
    /// The rectangle returned starts at the cursor and has the size
    /// `drawn`. It is stored under `glyph` together with `base`, replacing
    /// what was stored there. `height` is the height that was asked for
    /// the glyph; the row must have room for it, as it has after
    /// [`TextAtlas::reserve`]. The cursor moves right by the drawn width
    /// and the padding; the row keeps its height.
    pub fn record(
        &mut self,
        glyph: GlyphEntry,
        base: B,
        height: usize,
        drawn: (usize, usize),
    ) -> (rect: PixelRect)
        requires
            old(self).wf(),
            height <= old(self).cursor().descent,
            old(self).cursor().x + drawn.0 + PADDING <= usize::MAX,
            old(self).cursor().y + drawn.1 <= usize::MAX,
        ensures
            final(self).wf(),
            final(self).handle() == old(self).handle(),
            rect.min.x == old(self).cursor().x,
            rect.min.y == old(self).cursor().y,
            rect.max.x == old(self).cursor().x + drawn.0,
            rect.max.y == old(self).cursor().y + drawn.1,
            clear_of_swatch(rect),
            final(self).entries() == old(self).entries().insert(
                glyph,
                AtlasEntry { rect, base },
            ),
            final(self).rooms() == old(self).rooms().insert(glyph, height as int),
            final(self).cursor() == advanced(old(self).cursor(), drawn.0 as int),
    {
        let rect = PixelRect {
            min: self.pointer,
            max: PixelPoint { x: self.pointer.x + drawn.0, y: self.pointer.y + drawn.1 },
        };
        let ghost before = self.entries();
        let key = glyph.key();
        table_insert(&mut self.glyphs, key, AtlasEntry { rect, base });
        self.rooms = Ghost(self.rooms@.insert(glyph, height as int));
        self.pointer.x = self.pointer.x + drawn.0 + PADDING;
        proof {
            assert forall|other: GlyphEntry| other.key_spec() == glyph.key_spec() implies other
                == glyph by {
                lemma_key_injective(other, glyph);
            }
            assert(self.entries() =~= before.insert(glyph, AtlasEntry { rect, base }));
        }
        rect
    }

    /// Caches a glyph.
    ///
    /// If `glyph` is cached already, its rectangle is returned and nothing
    /// changes: `draw` is not called. On a bitmap without storage nothing
    /// changes either, and the rectangle returned is empty. Otherwise the
    /// atlas makes room as [`TextAtlas::reserve`] does and calls `draw`
    /// once, on the bitmap's bytes from the glyph's first byte on and the
    /// length of a row in bytes, and what it returns is taken as the size
    /// drawn and filed as [`TextAtlas::record`] does.
    ///
    /// `draw` must keep the length of the slice, as every function does.
    pub fn cache<F>(
        &mut self,
        image: &mut AtlasImage,
        glyph: GlyphEntry,
        base: B,
        width: usize,
        height: usize,
        mut draw: F,
    ) -> (rect: PixelRect) where F: FnMut(&mut [u8], usize) -> (usize, usize)
        requires
            old(self).wf(),
            old(image).wf(),
            !old(self).entries().contains_key(glyph) ==> old(self).packable(
                old(image),
                width,
                height,
            ),
            !old(self).entries().contains_key(glyph) && old(image).has_storage() ==> {
                &&& forall|buffer: &mut [u8]|
                    buffer@ == old(self).draw_buffer(old(image), width, height)
                        ==> #[trigger] call_requires(
                        draw,
                        (buffer, (old(image).width * CHANNELS) as usize),
                    )
                &&& forall|buffer: &mut [u8], drawn: (usize, usize)|
                    buffer@ == old(self).draw_buffer(old(image), width, height)
                        && #[trigger] call_ensures(
                        draw,
                        (buffer, (old(image).width * CHANNELS) as usize),
                        drawn,
                    ) ==> {
                        &&& final(buffer)@.len() == buffer@.len()
                        &&& old(self).draw_cursor(old(image), width, height).x + drawn.0 + PADDING
                            <= usize::MAX
                        &&& old(self).draw_cursor(old(image), width, height).y + drawn.1
                            <= usize::MAX
                    }
            },
        ensures
            final(self).wf(),
            final(self).handle() == old(self).handle(),
            final(image).wf(),
            final(image).width == old(image).width,
            final(image).has_storage() == old(image).has_storage(),
            clear_of_swatch(rect),
            cache_effect(
                *old(self),
                *old(image),
                *final(self),
                *final(image),
                glyph,
                base,
                width,
                height,
                rect,
            ),
            !old(self).entries().contains_key(glyph) && old(image).has_storage() ==> exists|
                buffer: &mut [u8],
            |
                {
                    &&& buffer@ == old(self).draw_buffer(old(image), width, height)
                    &&& #[trigger] call_ensures(
                        draw,
                        (buffer, (old(image).width * CHANNELS) as usize),
                        ((rect.max.x - rect.min.x) as usize, (rect.max.y - rect.min.y) as usize),
                    )
                    &&& final(image).bytes() == staged_bytes(
                        old(image).bytes(),
                        old(image).height as int,
                        old(self).draw_cursor(old(image), width, height),
                    ).take(old(self).draw_offset(old(image), width, height)) + final(buffer)@
                },
    {
        let key = glyph.key();
        match table_get(&self.glyphs, &key) {
            Some(entry) => {
                assert(self.entries().contains_key(glyph));
                return entry.rect;
            },
            None => {},
        }
        let ghost staged = staged_bytes(
            image.bytes(),
            image.height as int,
            self.draw_cursor(image, width, height),
        );
        let origin = self.reserve(image, width, height);
        match origin {
            None => PixelRect::empty(),
            Some(origin) => {
                let pitch: usize = image.width * CHANNELS;
                proof {
                    assert((origin.y * image.width + origin.x) * 4 == pixel_offset(
                        image.width as int,
                        origin.x as int,
                        origin.y as int,
                    ));
                    assert(image.width * image.height * 4 == image.bytes().len());
                    assert(image.bytes().len() == image.data.unwrap().len() <= usize::MAX);
                    assert(origin.y * image.width <= (origin.y * image.width + origin.x) * 4)
                        by (nonlinear_arith)
                        requires
                            origin.y * image.width >= 0,
                            origin.x >= 0,
                    ;
                }
                let offset: usize = (origin.y * image.width + origin.x) * CHANNELS;
                let drawn: (usize, usize) = match &mut image.data {
                    Some(data) => {
                        let (head, tail) = data.as_mut_slice().split_at_mut(offset);
                        assert(tail@ == staged.skip(offset as int));
                        draw(tail, pitch)
                    },
                    None => {
                        // an origin is given only where there is storage
                        assert(false);
                        (0, 0)
                    },
                };
                let rect = self.record(glyph, base, height, drawn);
                assert(drawn == ((rect.max.x - rect.min.x) as usize, (rect.max.y - rect.min.y) as usize));
                assert(image.bytes().take(offset as int) =~= staged.take(offset as int));
                rect
            },
        }
    }

    /// Forgets every cached glyph, puts the cursor back at the start and
    /// repaints the bitmap, if one is given, transparent white with the
    /// reserved square opaque. The bitmap keeps its size.
    pub fn clear(&mut self, image: Option<&mut AtlasImage>)
        requires
            match image {
                Some(image) => image.wf(),
                None => true,
            },
        ensures
            final(self).wf(),
            final(self).handle() == old(self).handle(),
            final(self).entries() == Map::<GlyphEntry, AtlasEntry<B>>::empty(),
            final(self).rooms() == Map::<GlyphEntry, int>::empty(),
            final(self).cursor() == start(),
            match image {
                Some(image) => {
                    &&& final(image).wf()
                    &&& final(image).width == image.width
                    &&& final(image).height == image.height
                    &&& final(image).has_storage() == image.has_storage()
                    &&& final(image).has_storage() ==> final(image).bytes() == blank_pixels(
                        image.width as int,
                        image.height as int,
                    )
                },
                None => true,
            },
    {
        self.pointer = PixelPoint { x: SWATCH + PADDING, y: 0 };
        self.descent = 0;
        self.glyphs.clear();
        self.rooms = Ghost(Map::empty());
        assert(self.entries() =~= Map::<GlyphEntry, AtlasEntry<B>>::empty());
        match image {
            Some(image) => {
                image.repaint();
            },
            None => {},
        }
    }

    /// What is cached for `glyph`, if anything.
    pub fn lookup(&self, glyph: &GlyphEntry) -> (found: Option<AtlasEntry<B>>)
        ensures
            found == (if self.entries().contains_key(*glyph) {
                Some(self.entries()[*glyph])
            } else {
                None
            }),
    {
        let key = glyph.key();
        match table_get(&self.glyphs, &key) {
            Some(entry) => Some(*entry),
            None => None,
        }
    }
}

/// Caching is idempotent. Of two calls of `cache` in a row for the same
/// glyph, the second, whatever size it asks for and whatever callback it
/// brings, returns the rectangle that the first returned and changes
/// neither atlas nor bitmap. Where the first call filed the glyph, the
/// second callback is not called: nothing is asked of it, not even that it
/// can be.
pub proof fn lemma_cache_idempotent<H, B: Copy>(
    before: TextAtlas<H, B>,
    image_before: AtlasImage,
    between: TextAtlas<H, B>,
    image_between: AtlasImage,
    after: TextAtlas<H, B>,
    image_after: AtlasImage,
    glyph: GlyphEntry,
    first: (B, usize, usize, PixelRect),
    second: (B, usize, usize, PixelRect),
)
    requires
        cache_effect(
            before,
            image_before,
            between,
            image_between,
            glyph,
            first.0,
            first.1,
            first.2,
            first.3,
        ),
        cache_effect(
            between,
            image_between,
            after,
            image_after,
            glyph,
            second.0,
            second.1,
            second.2,
            second.3,
        ),
    ensures
        second.3 == first.3,
        after.entries() == between.entries(),
        after.cursor() == between.cursor(),
        image_after == image_between,
{
}

/// No two cached glyphs of one row overlap. Two different glyphs of an
/// atlas whose rectangles begin in the same row lie side by side, at least
/// a padding apart, and share no pixel.
pub proof fn lemma_same_row_apart<H, B: Copy>(atlas: TextAtlas<H, B>, a: GlyphEntry, b: GlyphEntry)
    requires
        atlas.wf(),
        atlas.entries().contains_key(a),
        atlas.entries().contains_key(b),
        a != b,
        atlas.entries()[a].rect.min.y == atlas.entries()[b].rect.min.y,
    ensures
        atlas.entries()[a].rect.max.x + PADDING <= atlas.entries()[b].rect.min.x
            || atlas.entries()[b].rect.max.x + PADDING <= atlas.entries()[a].rect.min.x,
        !atlas.entries()[a].rect.overlaps(atlas.entries()[b].rect),
{
    let first = atlas.entries()[a].rect;
    let second = atlas.entries()[b].rect;
    assert(apart(first, second));
    if first.max.x + PADDING <= second.min.x {
        lemma_apart(first, second);
    } else {
        lemma_apart(second, first);
    }
}

/// A new row begins below the whole of the rows above. Of two cached glyphs
/// of which one begins in a lower row than the other, the lower one begins
/// below the height that was asked for the upper one, and a padding. If the
/// upper one was drawn no taller than was asked, the two share no pixel.
pub proof fn lemma_rows_stacked<H, B: Copy>(atlas: TextAtlas<H, B>, a: GlyphEntry, b: GlyphEntry)
    requires
        atlas.wf(),
        atlas.entries().contains_key(a),
        atlas.entries().contains_key(b),
        atlas.entries()[a].rect.min.y < atlas.entries()[b].rect.min.y,
    ensures
        atlas.rooms().contains_key(a),
        atlas.entries()[a].rect.min.y + atlas.rooms()[a] + PADDING
            <= atlas.entries()[b].rect.min.y,
        atlas.entries()[a].rect.max.y - atlas.entries()[a].rect.min.y <= atlas.rooms()[a]
            ==> !atlas.entries()[a].rect.overlaps(atlas.entries()[b].rect),
{
    let upper = atlas.entries()[a].rect;
    let lower = atlas.entries()[b].rect;
    assert(a != b);
    assert(stacked(upper, atlas.rooms()[a], lower));
    if upper.max.y - upper.min.y <= atlas.rooms()[a] {
        lemma_apart(upper, lower);
    }
}

/// A call of `cache` that draws a glyph is one step of the packer: the
/// glyph's rectangle begins where [`placed`] puts the glyph, and the cursor
/// ends where [`advanced`] leaves it. So what holds of every sequence of
/// such steps holds of every sequence of such calls on one bitmap width.
pub proof fn lemma_cache_packs<H, B: Copy>(
    before: TextAtlas<H, B>,
    image_before: AtlasImage,
    after: TextAtlas<H, B>,
    image_after: AtlasImage,
    glyph: GlyphEntry,
    drawn: (B, usize, usize, PixelRect),
)
    requires
        image_before.has_storage(),
        !before.entries().contains_key(glyph),
        cache_effect(
            before,
            image_before,
            after,
            image_after,
            glyph,
            drawn.0,
            drawn.1,
            drawn.2,
            drawn.3,
        ),
    ensures
        ({
            let item = Insertion {
                width: drawn.1 as nat,
                height: drawn.2 as nat,
                drawn_width: (drawn.3.max.x - drawn.3.min.x) as nat,
            };
            let at = placed(before.cursor(), image_before.width as int, item);
            &&& drawn.3.min.x == at.x
            &&& drawn.3.min.y == at.y
            &&& after.cursor() == advanced(at, item.drawn_width as int)
            &&& after.rooms()[glyph] == item.height
        }),
{
}

/// Caching a new glyph leaves the rows above it alone. When a call of
/// `cache` draws a glyph, every pixel of the bitmap that lies in a row above
/// the glyph's origin keeps its four bytes, whether the bitmap grew or not.
pub proof fn lemma_cache_keeps_rows_above<H, B: Copy>(
    before: TextAtlas<H, B>,
    image_before: AtlasImage,
    after: TextAtlas<H, B>,
    image_after: AtlasImage,
    glyph: GlyphEntry,
    placed: (B, usize, usize, PixelRect),
    x: int,
    y: int,
    c: int,
)
    requires
        image_before.wf(),
        image_before.has_storage(),
        !before.entries().contains_key(glyph),
        before.packable(&image_before, placed.1, placed.2),
        cache_effect(
            before,
            image_before,
            after,
            image_after,
            glyph,
            placed.0,
            placed.1,
            placed.2,
            placed.3,
        ),
        0 <= x < image_before.width,
        0 <= y < image_before.height,
        y < placed.3.min.y,
        0 <= c < 4,
    ensures
        pixel_offset(image_before.width as int, x, y) + c < image_after.bytes().len(),
        image_after.bytes()[pixel_offset(image_before.width as int, x, y) + c]
            == image_before.bytes()[pixel_offset(image_before.width as int, x, y) + c],
{
    let width = image_before.width as int;
    let at = before.draw_cursor(&image_before, placed.1, placed.2);
    let offset = before.draw_offset(&image_before, placed.1, placed.2);
    let staged = staged_bytes(image_before.bytes(), image_before.height as int, at);
    let i = pixel_offset(width, x, y) + c;
    assert(0 <= y * width + x < image_before.height * width) by (nonlinear_arith)
        requires
            0 <= x < width,
            0 <= y < image_before.height,
    ;
    assert(image_before.bytes().len() == image_before.width * image_before.height * 4);
    assert(image_before.height * width == image_before.width * image_before.height)
        by (nonlinear_arith)
        requires
            width == image_before.width,
    ;
    assert(y * width + x < at.y * width + at.x) by (nonlinear_arith)
        requires
            0 <= x < width,
            0 <= y < at.y,
            0 <= at.x,
    ;
    assert(image_before.width * (2 * image_before.height) * 4 == 2 * (image_before.width
        * image_before.height * 4)) by (nonlinear_arith);
    assert(staged.len() == image_before.width * staged_height(image_before.height as int, at) * 4);
    assert(0 <= i < offset <= staged.len());
    assert(staged[i] == image_before.bytes()[i]);
    assert(image_after.bytes().take(offset)[i] == staged.take(offset)[i]);
}

/// Growth keeps what was placed. When a bitmap of `width` by `height`
/// pixels doubles its height, every pixel it had keeps its place among the
/// bytes and its four bytes, so a rectangle that lay inside the bitmap
/// still covers the same content.
pub proof fn lemma_growth_keeps_pixels(
    bytes: Seq<u8>,
    width: int,
    height: int,
    rect: PixelRect,
    x: int,
    y: int,
    c: int,
)
    requires
        0 <= width,
        0 <= height,
        bytes.len() == width * height * 4,
        rect.max.x <= width,
        rect.max.y <= height,
        rect.covers(x, y),
        0 <= c < 4,
    ensures
        0 <= pixel_offset(width, x, y) + c < bytes.len(),
        (bytes + clear_pixels(bytes.len() as int)).len() == width * (2 * height) * 4,
        (bytes + clear_pixels(bytes.len() as int))[pixel_offset(width, x, y) + c]
            == bytes[pixel_offset(width, x, y) + c],
{
    assert(0 <= y * width + x < width * height) by (nonlinear_arith)
        requires
            0 <= x < width,
            0 <= y < height,
    ;
    assert(width * (2 * height) * 4 == width * height * 4 + width * height * 4)
        by (nonlinear_arith);
}

} // verus!
