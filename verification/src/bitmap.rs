//! The backing bitmap of an atlas: eight bits per channel, four channels per
//! pixel, rows stored top to bottom.

use vstd::prelude::*;
use vstd::arithmetic::div_mod::lemma_fundamental_div_mod_converse;

verus! {

/// Bytes per pixel: red, green, blue, alpha.
pub const CHANNELS: usize = 4;

/// Side, in pixels, of the opaque square kept at the bitmap's origin.
pub const SWATCH: usize = 4;

/// A bitmap whose pixel storage may be absent.
#[derive(Clone, Debug, PartialEq, Eq)]
pub struct AtlasImage {
    pub width: usize,
    pub height: usize,
    pub data: Option<Vec<u8>>,
}

/// Index of the first byte of the pixel in column `x`, row `y` of a bitmap
/// `width` pixels wide.
pub open spec fn pixel_offset(width: int, x: int, y: int) -> int {
    (y * width + x) * 4
}

/// Whether pixel number `pixel`, counted row by row, belongs to the opaque
/// square of a bitmap `width` pixels wide.
pub open spec fn in_swatch(width: int, pixel: int) -> bool {
    width > 0 && pixel % width < 4 && pixel / width < 4
}

/// Byte `i` of a repainted bitmap: white everywhere, opaque inside the
/// reserved square and transparent outside it.
pub open spec fn blank_byte(width: int, i: int) -> u8 {
    if i % 4 == 3 && !in_swatch(width, i / 4) {
        0u8
    } else {
        255u8
    }
}

/// The bytes of a repainted bitmap of `width` by `height` pixels.
pub open spec fn blank_pixels(width: int, height: int) -> Seq<u8> {
    Seq::new((width * height * 4) as nat, |i: int| blank_byte(width, i))
}

/// Byte `i` of a run of transparent white pixels.
pub open spec fn clear_byte(i: int) -> u8 {
    if i % 4 == 3 {
        0u8
    } else {
        255u8
    }
}

/// `len` bytes of transparent white pixels.
pub open spec fn clear_pixels(len: int) -> Seq<u8> {
    Seq::new(len as nat, |i: int| clear_byte(i))
}

impl AtlasImage {
    /// The storage, where present, holds exactly four bytes per pixel.
    pub open spec fn wf(&self) -> bool {
        match self.data {
            Some(bytes) => bytes@.len() == self.width * self.height * 4,
            None => true,
        }
    }

    /// Whether pixel storage is allocated.
    pub open spec fn has_storage(&self) -> bool {
        self.data is Some
    }

    /// The stored bytes; empty where there is no storage.
    pub open spec fn bytes(&self) -> Seq<u8> {
        match self.data {
            Some(bytes) => bytes@,
            None => Seq::empty(),
        }
    }

    /// Channel `c` of the pixel in column `x`, row `y`.
    pub open spec fn channel(&self, x: int, y: int, c: int) -> u8
        recommends
            self.wf(),
            self.has_storage(),
            0 <= x < self.width,
            0 <= y < self.height,
            0 <= c < 4,
    {
        self.bytes()[pixel_offset(self.width as int, x, y) + c]
    }

    /// Whether `wf` holds, for callers that cannot prove it.
    pub fn is_well_formed(&self) -> (ok: bool)
        ensures
            ok == self.wf(),
    {
        match &self.data {
            Some(bytes) => {
                let stored: usize = bytes.len();
                match self.width.checked_mul(self.height) {
                    Some(pixels) => match pixels.checked_mul(CHANNELS) {
                        Some(len) => stored == len,
                        None => false,
                    },
                    None => {
                        proof {
                            let pixels = self.width * self.height;
                            assert(pixels * 4 >= pixels) by (nonlinear_arith)
                                requires
                                    pixels >= 0,
                            ;
                        }
                        false
                    },
                }
            },
            None => true,
        }
    }

    /// The four bytes of the pixel in column `x`, row `y`: red, green,
    /// blue, alpha. There is none outside the bitmap or without storage.
    pub fn pixel(&self, x: usize, y: usize) -> (found: Option<[u8; 4]>)
        requires
            self.wf(),
        ensures
            found is Some <==> self.has_storage() && x < self.width && y < self.height,
            found is Some ==> forall|c: int|
                0 <= c < 4 ==> #[trigger] found->0[c] == self.channel(x as int, y as int, c),
    {
        match &self.data {
            Some(data) => {
                if x < self.width && y < self.height {
                    proof {
                        let len = data@.len() as int;
                        assert(0 <= y * self.width + x < self.width * self.height)
                            by (nonlinear_arith)
                            requires
                                0 <= x < self.width,
                                0 <= y < self.height,
                        ;
                        assert(0 <= y * self.width <= y * self.width + x);
                        assert(len == data.len());
                    }
                    let first: usize = (y * self.width + x) * CHANNELS;
                    Some([data[first], data[first + 1], data[first + 2], data[first + 3]])
                } else {
                    None
                }
            },
            None => None,
        }
    }

    /// A bitmap of `width` by `height` pixels painted transparent white
    /// `(255, 255, 255, 0)`, with the reserved square at the origin opaque.
    pub fn blank(width: usize, height: usize) -> (image: AtlasImage)
        requires
            width * height * 4 <= usize::MAX,
        ensures
            image.wf(),
            image.width == width,
            image.height == height,
            image.data is Some,
            image.bytes() == blank_pixels(width as int, height as int),
    {
        proof {
            assert(width * height <= width * height * 4) by (nonlinear_arith)
                requires
                    width * height >= 0,
            ;
        }
        let pixels: usize = width * height;
        let mut data: Vec<u8> = Vec::new();
        let mut p: usize = 0;
        while p < pixels
            invariant
                p <= pixels,
                pixels * 4 <= usize::MAX,
                pixels > 0 ==> width > 0,
                data@.len() == 4 * p,
                forall|i: int| 0 <= i < 4 * p ==> data@[i] == blank_byte(width as int, i),
            decreases pixels - p,
        {
            let alpha: u8 = if p % width < SWATCH && p / width < SWATCH { 255 } else { 0 };
            data.push(255);
            data.push(255);
            data.push(255);
            data.push(alpha);
            p = p + 1;
        }
        assert(data@ =~= blank_pixels(width as int, height as int));
        AtlasImage { width, height, data: Some(data) }
    }

    /// Repaints every pixel as [`AtlasImage::blank`] paints it; the size
    /// stays. Without storage nothing happens.
    pub fn repaint(&mut self)
        requires
            old(self).wf(),
        ensures
            final(self).wf(),
            final(self).width == old(self).width,
            final(self).height == old(self).height,
            final(self).has_storage() == old(self).has_storage(),
            final(self).has_storage() ==> final(self).bytes() == blank_pixels(
                old(self).width as int,
                old(self).height as int,
            ),
    {
        let width = self.width;
        match &mut self.data {
            Some(data) => {
                let len: usize = data.len();
                let mut i: usize = 0;
                proof {
                    assert(width == 0 ==> width * self.height * 4 == 0) by (nonlinear_arith);
                }
                while i < len
                    invariant
                        i <= len,
                        len > 0 ==> width > 0,
                        data@.len() == len,
                        forall|k: int| 0 <= k < i ==> data@[k] == blank_byte(width as int, k),
                    decreases len - i,
                {
                    let pixel: usize = i / CHANNELS;
                    let value: u8 = if i % CHANNELS == 3 && !(pixel % width < SWATCH && pixel / width
                        < SWATCH) {
                        0
                    } else {
                        255
                    };
                    data[i] = value;
                    i = i + 1;
                }
                assert(data@ =~= blank_pixels(width as int, self.height as int));
            },
            None => {},
        }
    }

    /// Doubles the height in place. The rows already there keep their
    /// bytes; the rows added are transparent white.
    pub fn grow(&mut self)
        requires
            old(self).wf(),
            old(self).has_storage(),
            old(self).height * 2 <= usize::MAX,
            old(self).width * old(self).height * 8 <= usize::MAX,
        ensures
            final(self).wf(),
            final(self).has_storage(),
            final(self).width == old(self).width,
            final(self).height == 2 * old(self).height,
            final(self).bytes() == old(self).bytes() + clear_pixels(old(self).bytes().len() as int),
    {
        proof {
            assert(self.width * (2 * self.height) * 4 == self.width * self.height * 8)
                by (nonlinear_arith);
            assert(self.width * self.height * 4 + self.width * self.height * 4 == self.width
                * self.height * 8) by (nonlinear_arith);
        }
        let ghost before = self.bytes();
        self.height = self.height * 2;
        match &mut self.data {
            Some(data) => {
                let old_len: usize = data.len();
                let mut i: usize = 0;
                while i < old_len
                    invariant
                        i <= old_len,
                        old_len == before.len(),
                        old_len * 2 <= usize::MAX,
                        data@.len() == old_len + i,
                        data@.subrange(0, old_len as int) == before,
                        forall|k: int| 0 <= k < i ==> data@[old_len + k] == clear_byte(k),
                    decreases old_len - i,
                {
                    let value: u8 = if i % CHANNELS == 3 { 0 } else { 255 };
                    data.push(value);
                    assert(data@.subrange(0, old_len as int) =~= before);
                    i = i + 1;
                }
                assert(data@ =~= before + clear_pixels(before.len() as int));
            },
            None => {},
        }
    }
}

/// In a repainted bitmap every pixel is white; it is opaque inside the
/// reserved square and transparent everywhere else.
pub proof fn lemma_blank_pixel(width: int, height: int, x: int, y: int, c: int)
    requires
        0 <= x < width,
        0 <= y < height,
        0 <= c < 4,
    ensures
        0 <= pixel_offset(width, x, y) + c < blank_pixels(width, height).len(),
        blank_pixels(width, height)[pixel_offset(width, x, y) + c] == (if c == 3 && !(x < 4 && y
            < 4) {
            0u8
        } else {
            255u8
        }),
{
    let p = y * width + x;
    assert(0 <= p < width * height) by (nonlinear_arith)
        requires
            0 <= x < width,
            0 <= y < height,
            p == y * width + x,
    ;
    lemma_fundamental_div_mod_converse(p, width, y, x);
    assert((p * 4 + c) / 4 == p);
    assert((p * 4 + c) % 4 == c);
}

} // verus!
