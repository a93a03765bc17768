//! The shelf packer as arithmetic: a cursor that walks a row from left to
//! right and drops to a new row when the next glyph would not fit.

use vstd::prelude::*;
use crate::bitmap::SWATCH;

verus! {

/// Gap, in pixels, kept after every glyph and between rows, so that
/// filtered sampling of one glyph never reaches its neighbour.
pub const PADDING: usize = 2;

/// State of the packer: the next free origin and the height of the tallest
/// glyph requested so far in the row of that origin.
pub struct Cursor {
    pub x: int,
    pub y: int,
    pub descent: int,
}

/// The larger of two integers.
pub open spec fn larger(a: int, b: int) -> int {
    if a >= b {
        a
    } else {
        b
    }
}

/// Where packing starts: on row zero, right of the reserved square.
pub open spec fn start() -> Cursor {
    Cursor { x: SWATCH + PADDING, y: 0, descent: 0 }
}

/// Whether a glyph `width` pixels wide, with its padding, would end beyond
/// the right edge of a bitmap `image_width` pixels wide.
pub open spec fn overflows_row(c: Cursor, image_width: int, width: int) -> bool {
    c.x + width + PADDING > image_width
}

/// The cursor moved to the next row where the glyph overflows the current
/// one, and left alone where it does not. The new row lies below the
/// tallest glyph of the old one and below the height asked for now. It
/// starts at the left edge, except for the row that follows row zero, which
/// starts right of the reserved square as row zero does.
pub open spec fn wrapped(c: Cursor, image_width: int, width: int, height: int) -> Cursor {
    if overflows_row(c, image_width, width) {
        Cursor {
            x: if c.y == 0 {
                SWATCH + PADDING
            } else {
                0
            },
            y: c.y + larger(c.descent, height) + PADDING,
            descent: 0,
        }
    } else {
        c
    }
}

/// The cursor once the row has made room for a glyph `height` pixels tall.
pub open spec fn seated(c: Cursor, height: int) -> Cursor {
    Cursor { descent: larger(c.descent, height), ..c }
}

/// Whether the row of the cursor, with its padding, reaches the bottom of a
/// bitmap `image_height` pixels tall.
pub open spec fn crowded(c: Cursor, image_height: int) -> bool {
    c.y + c.descent + PADDING >= image_height
}

/// The cursor moved right past a glyph drawn `drawn_width` pixels wide.
pub open spec fn advanced(c: Cursor, drawn_width: int) -> Cursor {
    Cursor { x: c.x + drawn_width + PADDING, ..c }
}

/// What every cursor reached from [`start`] satisfies: rows other than row
/// zero begin at least one padding down, and a cursor left of the reserved
/// square's right edge plus padding lies below the square.
pub open spec fn settled(c: Cursor) -> bool {
    &&& 0 <= c.x
    &&& 0 <= c.descent
    &&& (c.y == 0 || c.y >= PADDING)
    &&& (c.x >= SWATCH + PADDING || c.y >= SWATCH)
}

/// A glyph as the packer sees it: the size asked for, and the width that
/// was then drawn.
pub struct Insertion {
    pub width: nat,
    pub height: nat,
    pub drawn_width: nat,
}

/// The cursor at which `item` is drawn when the packer stands at `c`.
pub open spec fn placed(c: Cursor, image_width: int, item: Insertion) -> Cursor {
    seated(wrapped(c, image_width, item.width as int, item.height as int), item.height as int)
}

/// The cursor after `items` were packed, one after the other, into a
/// bitmap `image_width` pixels wide, beginning at [`start`].
pub open spec fn packed(image_width: int, items: Seq<Insertion>) -> Cursor
    decreases items.len(),
{
    if items.len() == 0 {
        start()
    } else {
        advanced(
            placed(packed(image_width, items.drop_last()), image_width, items.last()),
            items.last().drawn_width as int,
        )
    }
}

/// The cursor at which item `i` of `items` is drawn.
pub open spec fn origin(image_width: int, items: Seq<Insertion>, i: int) -> Cursor
    recommends
        0 <= i < items.len(),
{
    placed(packed(image_width, items.take(i)), image_width, items[i])
}

/// How a glyph drawn at `at` lies to a cursor `c` that the packer reached
/// later: not below it; if in its row, left of it by the drawn width and
/// the padding, and no taller than the row; if in a row above, above it by
/// the height asked for and the padding.
pub open spec fn behind(at: Cursor, item: Insertion, c: Cursor) -> bool {
    &&& at.y <= c.y
    &&& at.y == c.y ==> at.x + item.drawn_width + PADDING <= c.x && item.height <= c.descent
    &&& at.y < c.y ==> at.y + item.height + PADDING <= c.y
}

/// Every step keeps the cursor among those reachable from the start.
pub proof fn lemma_step_settled(c: Cursor, image_width: int, item: Insertion)
    requires
        settled(c),
    ensures
        settled(wrapped(c, image_width, item.width as int, item.height as int)),
        settled(placed(c, image_width, item)),
        settled(advanced(placed(c, image_width, item), item.drawn_width as int)),
{
}

/// A glyph that lies behind the cursor lies behind the place of the next
/// glyph too, and behind the cursor after that glyph.
pub proof fn lemma_step_behind(
    at: Cursor,
    item: Insertion,
    c: Cursor,
    image_width: int,
    next: Insertion,
)
    requires
        behind(at, item, c),
        0 <= c.descent,
    ensures
        behind(at, item, placed(c, image_width, next)),
        behind(at, item, advanced(placed(c, image_width, next), next.drawn_width as int)),
        at.y == placed(c, image_width, next).y ==> at.x + item.drawn_width + PADDING <= placed(
            c,
            image_width,
            next,
        ).x,
{
}

/// The cursor after any sequence of glyphs is reachable from the start.
pub proof fn lemma_packed_settled(image_width: int, items: Seq<Insertion>)
    ensures
        settled(packed(image_width, items)),
    decreases items.len(),
{
    if items.len() > 0 {
        lemma_packed_settled(image_width, items.drop_last());
        lemma_step_settled(packed(image_width, items.drop_last()), image_width, items.last());
    }
}

/// Every glyph of a sequence lies behind the cursor that the sequence
/// leaves.
pub proof fn lemma_packed_behind(image_width: int, items: Seq<Insertion>, i: int)
    requires
        0 <= i < items.len(),
    ensures
        behind(origin(image_width, items, i), items[i], packed(image_width, items)),
    decreases items.len(),
{
    let earlier = items.drop_last();
    if i == items.len() - 1 {
        assert(items.take(i) =~= earlier);
        lemma_packed_settled(image_width, earlier);
    } else {
        assert(items.take(i) =~= earlier.take(i));
        lemma_packed_behind(image_width, earlier, i);
        lemma_packed_settled(image_width, earlier);
        lemma_step_behind(
            origin(image_width, earlier, i),
            items[i],
            packed(image_width, earlier),
            image_width,
            items.last(),
        );
    }
}

/// No glyph is drawn over the reserved square: whatever is packed from the
/// start, each glyph begins right of the square or below it.
pub proof fn lemma_origin_clear_of_swatch(image_width: int, items: Seq<Insertion>, i: int)
    requires
        0 <= i < items.len(),
    ensures
        origin(image_width, items, i).x >= SWATCH + PADDING || origin(image_width, items, i).y
            >= SWATCH,
        0 <= origin(image_width, items, i).y,
{
    lemma_packed_settled(image_width, items.take(i));
    lemma_step_settled(packed(image_width, items.take(i)), image_width, items[i]);
}

/// Rows are laid out correctly. Of two glyphs of a sequence, the later one
/// is never drawn above the earlier one. If both are in one row, the later
/// one begins right of the earlier one's drawn width and padding, so the
/// two do not overlap. If the later one is in a row further down, that row
/// begins below the earlier glyph's requested height and padding: a new row
/// starts below everything in the rows before it.
pub proof fn lemma_rows(image_width: int, items: Seq<Insertion>, i: int, j: int)
    requires
        0 <= i < j < items.len(),
    ensures
        ({
            let a = origin(image_width, items, i);
            let b = origin(image_width, items, j);
            &&& a.y <= b.y
            &&& a.y == b.y ==> a.x + items[i].drawn_width + PADDING <= b.x
            &&& a.y < b.y ==> a.y + items[i].height + PADDING <= b.y
        }),
{
    let upto = items.take(j);
    assert(upto.take(i) =~= items.take(i));
    lemma_packed_behind(image_width, upto, i);
    lemma_packed_settled(image_width, upto);
    lemma_step_behind(
        origin(image_width, upto, i),
        items[i],
        packed(image_width, upto),
        image_width,
        items[j],
    );
}

/// A glyph goes to a new row exactly when it overflows the current one:
/// when the cursor, the width asked for and the padding together pass the
/// right edge of the bitmap. The new row then begins below the cursor's row
/// by the taller of the row's height and the height asked for, and the
/// padding.
pub proof fn lemma_wrap(c: Cursor, image_width: int, item: Insertion)
    requires
        settled(c),
    ensures
        placed(c, image_width, item).y != c.y <==> c.x + item.width + PADDING > image_width,
        c.x + item.width + PADDING > image_width ==> placed(c, image_width, item).y == c.y
            + larger(c.descent, item.height as int) + PADDING,
        c.x + item.width + PADDING <= image_width ==> placed(c, image_width, item).x == c.x,
{
}

} // verus!
