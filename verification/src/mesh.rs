//! Mesh buffers made of quads: four vertices and two triangles per quad.
//!
//! The buffers are generic in the scalar `S` of the vertex attributes. They
//! fix which value goes where; computing the values is the caller's part.

use vstd::prelude::*;
use crate::meta::{channel_value, quad_meta, GlyphMeta, MetaValues};

verus! {

/// The most quads a mesh can hold: its indices are sixteen bits wide.
pub const MAX_QUADS: usize = 16384;

/// Vertex attributes and triangle indices of a mesh.
#[derive(Clone, Debug, PartialEq)]
pub struct MeshBuffers<S> {
    pub positions: Vec<[S; 3]>,
    pub normals: Vec<[S; 3]>,
    pub uv0: Vec<[S; 2]>,
    pub uv1: Vec<[S; 2]>,
    pub colors: Vec<[S; 4]>,
    pub indices: Vec<u16>,
}

/// The four corners of a rectangle as a grid of two by two: first the two
/// on the `min` side of the second axis, and of each pair first the one on
/// the `min` side of the first axis.
pub open spec fn corners_of<S>(min: [S; 2], max: [S; 2]) -> Seq<[S; 2]> {
    seq![[min[0], min[1]], [max[0], min[1]], [min[0], max[1]], [max[0], max[1]]]
}

/// The positions of a quad over such a rectangle, all at depth `z`.
pub open spec fn positions_of<S>(min: [S; 2], max: [S; 2], z: S) -> Seq<[S; 3]> {
    seq![[min[0], min[1], z], [max[0], min[1], z], [min[0], max[1], z], [max[0], max[1], z]]
}

/// The six indices of quad number `quad`: two triangles over its four
/// vertices, wound `0, 1, 2` and `1, 3, 2`.
pub open spec fn indices_of(quad: int) -> Seq<u16> {
    seq![
        (4 * quad) as u16,
        (4 * quad + 1) as u16,
        (4 * quad + 2) as u16,
        (4 * quad + 1) as u16,
        (4 * quad + 3) as u16,
        (4 * quad + 2) as u16,
    ]
}

/// Four copies of one value.
pub open spec fn four<T>(value: T) -> Seq<T> {
    seq![value, value, value, value]
}

/// The corners of a rectangle in the order of a quad's vertices.
pub fn corners<S: Copy>(min: [S; 2], max: [S; 2]) -> (grid: [[S; 2]; 4])
    ensures
        grid@ == corners_of(min, max),
{
    let grid = [[min[0], min[1]], [max[0], min[1]], [min[0], max[1]], [max[0], max[1]]];
    assert(grid@ =~= corners_of(min, max));
    grid
}

impl<S: Copy> MeshBuffers<S> {
    /// Number of quads held.
    pub open spec fn quads(&self) -> int {
        self.positions@.len() as int / 4
    }

    /// Every attribute has four entries per quad, and the indices are those
    /// of the quads in order.
    pub open spec fn wf(&self) -> bool {
        &&& self.positions@.len() % 4 == 0
        &&& self.quads() <= MAX_QUADS
        &&& self.normals@.len() == self.positions@.len()
        &&& self.uv0@.len() == self.positions@.len()
        &&& self.uv1@.len() == self.positions@.len()
        &&& self.colors@.len() == self.positions@.len()
        &&& self.indices@.len() == 6 * self.quads()
        &&& forall|quad: int|
            0 <= quad < self.quads() ==> #[trigger] self.indices@.subrange(6 * quad, 6 * quad + 6)
                == indices_of(quad)
    }

    /// Empty buffers.
    pub fn new() -> (mesh: Self)
        ensures
            mesh.wf(),
            mesh.quads() == 0,
            mesh.positions@.len() == 0,
    {
        MeshBuffers {
            positions: Vec::new(),
            normals: Vec::new(),
            uv0: Vec::new(),
            uv1: Vec::new(),
            colors: Vec::new(),
            indices: Vec::new(),
        }
    }

    /// Empties the buffers and keeps what they have allocated.
    pub fn recycle(&mut self)
        ensures
            final(self).wf(),
            final(self).quads() == 0,
            final(self).positions@.len() == 0,
    {
        self.positions.clear();
        self.normals.clear();
        self.uv0.clear();
        self.uv1.clear();
        self.colors.clear();
        self.indices.clear();
    }

    /// Number of quads held.
    pub fn quad_count(&self) -> (count: usize)
        requires
            self.wf(),
        ensures
            count == self.quads(),
    {
        self.positions.len() / 4
    }

    /// Appends a quad over the rectangle from `min` to `max` at depth `z`.
    ///
    /// Its four vertices are the corners in grid order; all four get the
    /// normal and the colour given; vertex `k` gets `uv0[k]` and `uv1[k]`.
    /// Its six indices are those of its number.
    pub fn push_quad(
        &mut self,
        min: [S; 2],
        max: [S; 2],
        z: S,
        normal: [S; 3],
        uv0: [[S; 2]; 4],
        uv1: [[S; 2]; 4],
        color: [S; 4],
    )
        requires
            old(self).wf(),
            old(self).quads() < MAX_QUADS,
        ensures
            final(self).wf(),
            final(self).quads() == old(self).quads() + 1,
            final(self).positions@ == old(self).positions@ + positions_of(min, max, z),
            final(self).normals@ == old(self).normals@ + four(normal),
            final(self).uv0@ == old(self).uv0@ + uv0@,
            final(self).uv1@ == old(self).uv1@ + uv1@,
            final(self).colors@ == old(self).colors@ + four(color),
            final(self).indices@ == old(self).indices@ + indices_of(old(self).quads()),
    {
        let count: usize = self.positions.len() / 4;
        let first: u16 = (count * 4) as u16;
        self.positions.push([min[0], min[1], z]);
        self.positions.push([max[0], min[1], z]);
        self.positions.push([min[0], max[1], z]);
        self.positions.push([max[0], max[1], z]);
        self.normals.push(normal);
        self.normals.push(normal);
        self.normals.push(normal);
        self.normals.push(normal);
        self.uv0.push(uv0[0]);
        self.uv0.push(uv0[1]);
        self.uv0.push(uv0[2]);
        self.uv0.push(uv0[3]);
        self.uv1.push(uv1[0]);
        self.uv1.push(uv1[1]);
        self.uv1.push(uv1[2]);
        self.uv1.push(uv1[3]);
        self.colors.push(color);
        self.colors.push(color);
        self.colors.push(color);
        self.colors.push(color);
        self.indices.push(first);
        self.indices.push(first + 1);
        self.indices.push(first + 2);
        self.indices.push(first + 1);
        self.indices.push(first + 3);
        self.indices.push(first + 2);
        proof {
            let q = old(self).quads();
            assert(self.positions@ =~= old(self).positions@ + positions_of(min, max, z));
            assert(self.normals@ =~= old(self).normals@ + four(normal));
            assert(self.uv0@ =~= old(self).uv0@ + uv0@);
            assert(self.uv1@ =~= old(self).uv1@ + uv1@);
            assert(self.colors@ =~= old(self).colors@ + four(color));
            assert(self.indices@ =~= old(self).indices@ + indices_of(q));
            assert forall|quad: int| 0 <= quad < self.quads() implies #[trigger] self.indices@.subrange(
                6 * quad,
                6 * quad + 6,
            ) == indices_of(quad) by {
                if quad < q {
                    assert(self.indices@.subrange(6 * quad, 6 * quad + 6) =~= old(
                        self,
                    ).indices@.subrange(6 * quad, 6 * quad + 6));
                } else {
                    assert(self.indices@.subrange(6 * quad, 6 * quad + 6) =~= indices_of(q));
                }
            }
        }
    }

    /// Makes the mesh fit to hand on. A mesh that holds quads is left as it
    /// is. One that holds none gets three vertices at `zero` with the
    /// normal `(zero, one, zero)`, every other attribute `zero`, and the
    /// one triangle `0, 1, 2`: a triangle without area in place of an empty
    /// mesh.
    pub fn finish(&mut self, zero: S, one: S)
        requires
            old(self).wf(),
        ensures
            old(self).quads() > 0 ==> *final(self) == *old(self),
            old(self).quads() == 0 ==> {
                &&& final(self).positions@ == seq![[zero, zero, zero]; 3]
                &&& final(self).normals@ == seq![[zero, one, zero]; 3]
                &&& final(self).uv0@ == seq![[zero, zero]; 3]
                &&& final(self).uv1@ == seq![[zero, zero]; 3]
                &&& final(self).colors@ == seq![[zero, zero, zero, zero]; 3]
                &&& final(self).indices@ == seq![0u16, 1u16, 2u16]
            },
    {
        if self.positions.len() == 0 {
            let mut k: usize = 0;
            while k < 3
                invariant
                    k <= 3,
                    self.positions@ == Seq::new(k as nat, |i: int| [zero, zero, zero]),
                    self.normals@ == Seq::new(k as nat, |i: int| [zero, one, zero]),
                    self.uv0@ == Seq::new(k as nat, |i: int| [zero, zero]),
                    self.uv1@ == Seq::new(k as nat, |i: int| [zero, zero]),
                    self.colors@ == Seq::new(k as nat, |i: int| [zero, zero, zero, zero]),
                    self.indices@ == Seq::new(k as nat, |i: int| i as u16),
                decreases 3 - k,
            {
                self.positions.push([zero, zero, zero]);
                self.normals.push([zero, one, zero]);
                self.uv0.push([zero, zero]);
                self.uv1.push([zero, zero]);
                self.colors.push([zero, zero, zero, zero]);
                self.indices.push(k as u16);
                k = k + 1;
                assert(self.positions@ =~= Seq::new(k as nat, |i: int| [zero, zero, zero]));
                assert(self.normals@ =~= Seq::new(k as nat, |i: int| [zero, one, zero]));
                assert(self.uv0@ =~= Seq::new(k as nat, |i: int| [zero, zero]));
                assert(self.uv1@ =~= Seq::new(k as nat, |i: int| [zero, zero]));
                assert(self.colors@ =~= Seq::new(k as nat, |i: int| [zero, zero, zero, zero]));
                assert(self.indices@ =~= Seq::new(k as nat, |i: int| i as u16));
            }
            assert(self.positions@ =~= seq![[zero, zero, zero]; 3]);
            assert(self.normals@ =~= seq![[zero, one, zero]; 3]);
            assert(self.uv0@ =~= seq![[zero, zero]; 3]);
            assert(self.uv1@ =~= seq![[zero, zero]; 3]);
            assert(self.colors@ =~= seq![[zero, zero, zero, zero]; 3]);
            assert(self.indices@ =~= seq![0u16, 1u16, 2u16]);
        }
    }
}

/// What a pass over the bounding box leaves in channel `channel` of the
/// second texture coordinate of a vertex at `position`: `after` relates to
/// `before` as the channel's kind says.
pub open spec fn bounds_channel<S, R: Fn(S) -> S, C: Fn(S) -> S>(
    kind: GlyphMeta,
    position: [S; 3],
    before: S,
    after: S,
    row_x: R,
    col_y: C,
) -> bool {
    match kind {
        GlyphMeta::RowX => call_ensures(row_x, (position[0],), after),
        GlyphMeta::ColY => call_ensures(col_y, (position[1],), after),
        _ => after == before,
    }
}

impl<S: Copy> MeshBuffers<S> {
    /// Moves every vertex: its first coordinate becomes `dx` of it, its
    /// second `dy` of it, its third stays.
    pub fn translate<X: Fn(S) -> S, Y: Fn(S) -> S>(&mut self, dx: X, dy: Y)
        requires
            forall|v: int|
                0 <= v < old(self).positions@.len() ==> call_requires(
                    dx,
                    (#[trigger] old(self).positions@[v][0],),
                ),
            forall|v: int|
                0 <= v < old(self).positions@.len() ==> call_requires(
                    dy,
                    (#[trigger] old(self).positions@[v][1],),
                ),
        ensures
            final(self).positions@.len() == old(self).positions@.len(),
            forall|v: int|
                #![trigger final(self).positions@[v]]
                0 <= v < old(self).positions@.len() ==> {
                    &&& call_ensures(
                        dx,
                        (old(self).positions@[v][0],),
                        final(self).positions@[v][0],
                    )
                    &&& call_ensures(
                        dy,
                        (old(self).positions@[v][1],),
                        final(self).positions@[v][1],
                    )
                    &&& final(self).positions@[v][2] == old(self).positions@[v][2]
                },
            final(self).normals == old(self).normals,
            final(self).uv0 == old(self).uv0,
            final(self).uv1 == old(self).uv1,
            final(self).colors == old(self).colors,
            final(self).indices == old(self).indices,
    {
        let count: usize = self.positions.len();
        let mut v: usize = 0;
        while v < count
            invariant
                v <= count,
                count == old(self).positions@.len(),
                self.positions@.len() == count,
                forall|k: int|
                    0 <= k < count ==> call_requires(dx, (#[trigger] old(self).positions@[k][0],)),
                forall|k: int|
                    0 <= k < count ==> call_requires(dy, (#[trigger] old(self).positions@[k][1],)),
                forall|k: int| v <= k < count ==> self.positions@[k] == old(self).positions@[k],
                forall|k: int|
                    #![trigger self.positions@[k]]
                    0 <= k < v ==> {
                        &&& call_ensures(dx, (old(self).positions@[k][0],), self.positions@[k][0])
                        &&& call_ensures(dy, (old(self).positions@[k][1],), self.positions@[k][1])
                        &&& self.positions@[k][2] == old(self).positions@[k][2]
                    },
                self.normals == old(self).normals,
                self.uv0 == old(self).uv0,
                self.uv1 == old(self).uv1,
                self.colors == old(self).colors,
                self.indices == old(self).indices,
            decreases count - v,
        {
            let at = self.positions[v];
            assert(at == old(self).positions@[v as int]);
            let moved = [dx(at[0]), dy(at[1]), at[2]];
            self.positions[v] = moved;
            v = v + 1;
        }
    }

    /// Rescales the first texture coordinate of every vertex: its first
    /// channel becomes `fx` of it, its second `fy` of it.
    pub fn rescale_uv0<X: Fn(S) -> S, Y: Fn(S) -> S>(&mut self, fx: X, fy: Y)
        requires
            forall|v: int|
                0 <= v < old(self).uv0@.len() ==> call_requires(
                    fx,
                    (#[trigger] old(self).uv0@[v][0],),
                ),
            forall|v: int|
                0 <= v < old(self).uv0@.len() ==> call_requires(
                    fy,
                    (#[trigger] old(self).uv0@[v][1],),
                ),
        ensures
            final(self).uv0@.len() == old(self).uv0@.len(),
            forall|v: int|
                #![trigger final(self).uv0@[v]]
                0 <= v < old(self).uv0@.len() ==> {
                    &&& call_ensures(fx, (old(self).uv0@[v][0],), final(self).uv0@[v][0])
                    &&& call_ensures(fy, (old(self).uv0@[v][1],), final(self).uv0@[v][1])
                },
            final(self).positions == old(self).positions,
            final(self).normals == old(self).normals,
            final(self).uv1 == old(self).uv1,
            final(self).colors == old(self).colors,
            final(self).indices == old(self).indices,
    {
        let count: usize = self.uv0.len();
        let mut v: usize = 0;
        while v < count
            invariant
                v <= count,
                count == old(self).uv0@.len(),
                self.uv0@.len() == count,
                forall|k: int|
                    0 <= k < count ==> call_requires(fx, (#[trigger] old(self).uv0@[k][0],)),
                forall|k: int|
                    0 <= k < count ==> call_requires(fy, (#[trigger] old(self).uv0@[k][1],)),
                forall|k: int| v <= k < count ==> self.uv0@[k] == old(self).uv0@[k],
                forall|k: int|
                    #![trigger self.uv0@[k]]
                    0 <= k < v ==> {
                        &&& call_ensures(fx, (old(self).uv0@[k][0],), self.uv0@[k][0])
                        &&& call_ensures(fy, (old(self).uv0@[k][1],), self.uv0@[k][1])
                    },
                self.positions == old(self).positions,
                self.normals == old(self).normals,
                self.uv1 == old(self).uv1,
                self.colors == old(self).colors,
                self.indices == old(self).indices,
            decreases count - v,
        {
            let at = self.uv0[v];
            assert(at == old(self).uv0@[v as int]);
            let scaled = [fx(at[0]), fy(at[1])];
            self.uv0[v] = scaled;
            v = v + 1;
        }
    }

    /// Fills the channels of the second texture coordinate that depend on
    /// the bounding box. In a channel of kind `RowX` every vertex gets
    /// `row_x` of its first position coordinate, in one of kind `ColY`
    /// `col_y` of its second. Channels of other kinds keep their values.
    pub fn fill_bounds<R: Fn(S) -> S, C: Fn(S) -> S>(
        &mut self,
        kinds: (GlyphMeta, GlyphMeta),
        row_x: R,
        col_y: C,
    )
        requires
            old(self).uv1@.len() == old(self).positions@.len(),
            forall|v: int|
                0 <= v < old(self).positions@.len() ==> call_requires(
                    row_x,
                    (#[trigger] old(self).positions@[v][0],),
                ),
            forall|v: int|
                0 <= v < old(self).positions@.len() ==> call_requires(
                    col_y,
                    (#[trigger] old(self).positions@[v][1],),
                ),
        ensures
            final(self).uv1@.len() == old(self).uv1@.len(),
            forall|v: int|
                #![trigger final(self).uv1@[v]]
                0 <= v < old(self).uv1@.len() ==> {
                    &&& bounds_channel(
                        kinds.0,
                        old(self).positions@[v],
                        old(self).uv1@[v][0],
                        final(self).uv1@[v][0],
                        row_x,
                        col_y,
                    )
                    &&& bounds_channel(
                        kinds.1,
                        old(self).positions@[v],
                        old(self).uv1@[v][1],
                        final(self).uv1@[v][1],
                        row_x,
                        col_y,
                    )
                },
            final(self).positions == old(self).positions,
            final(self).normals == old(self).normals,
            final(self).uv0 == old(self).uv0,
            final(self).colors == old(self).colors,
            final(self).indices == old(self).indices,
    {
        let count: usize = self.uv1.len();
        let mut v: usize = 0;
        while v < count
            invariant
                v <= count,
                count == old(self).uv1@.len(),
                count == self.positions@.len(),
                self.uv1@.len() == count,
                forall|k: int|
                    0 <= k < count ==> call_requires(
                        row_x,
                        (#[trigger] old(self).positions@[k][0],),
                    ),
                forall|k: int|
                    0 <= k < count ==> call_requires(
                        col_y,
                        (#[trigger] old(self).positions@[k][1],),
                    ),
                forall|k: int| v <= k < count ==> self.uv1@[k] == old(self).uv1@[k],
                forall|k: int|
                    #![trigger self.uv1@[k]]
                    0 <= k < v ==> {
                        &&& bounds_channel(
                            kinds.0,
                            old(self).positions@[k],
                            old(self).uv1@[k][0],
                            self.uv1@[k][0],
                            row_x,
                            col_y,
                        )
                        &&& bounds_channel(
                            kinds.1,
                            old(self).positions@[k],
                            old(self).uv1@[k][1],
                            self.uv1@[k][1],
                            row_x,
                            col_y,
                        )
                    },
                self.positions == old(self).positions,
                self.normals == old(self).normals,
                self.uv0 == old(self).uv0,
                self.colors == old(self).colors,
                self.indices == old(self).indices,
            decreases count - v,
        {
            let at = self.positions[v];
            let pair = self.uv1[v];
            assert(at == old(self).positions@[v as int]);
            let first: S = match kinds.0 {
                GlyphMeta::RowX => row_x(at[0]),
                GlyphMeta::ColY => col_y(at[1]),
                _ => pair[0],
            };
            let second: S = match kinds.1 {
                GlyphMeta::RowX => row_x(at[0]),
                GlyphMeta::ColY => col_y(at[1]),
                _ => pair[1],
            };
            self.uv1[v] = [first, second];
            v = v + 1;
        }
    }

    /// The first position coordinate of corner `corner` of every quad, in
    /// the order of the quads. The left edge of a text is found among
    /// those of corner 0, its right edge among those of corner 3.
    pub fn corner_column(&self, corner: usize) -> (column: Vec<S>)
        requires
            self.wf(),
            corner < 4,
        ensures
            column@.len() == self.quads(),
            forall|quad: int|
                0 <= quad < self.quads() ==> #[trigger] column@[quad] == self.positions@[4 * quad
                    + corner][0],
    {
        let total: usize = self.positions.len();
        let count: usize = total / 4;
        let mut column: Vec<S> = Vec::new();
        let mut quad: usize = 0;
        while quad < count
            invariant
                quad <= count,
                corner < 4,
                total == 4 * count,
                count == self.quads(),
                self.positions@.len() == 4 * count,
                column@.len() == quad,
                forall|k: int|
                    0 <= k < quad ==> #[trigger] column@[k] == self.positions@[4 * k + corner][0],
            decreases count - quad,
        {
            let vertex = self.positions[quad * 4 + corner];
            column.push(vertex[0]);
            quad = quad + 1;
        }
        column
    }
}

/// The scalars that the layout of a quad needs as they are.
#[derive(Clone, Copy, Debug)]
pub struct Scalars<S> {
    /// Zero.
    pub zero: S,
    /// One.
    pub one: S,
    /// The coordinate, in pixels, of the middle of the reserved square.
    pub swatch: S,
}

/// What is drawn in a quad: a flat background, or a glyph whose pixels lie
/// in the atlas between `uv_min` and `uv_max`.
#[derive(Clone, Copy, Debug)]
pub enum Ink<S> {
    Background,
    Glyph { uv_min: [S; 2], uv_max: [S; 2] },
}

/// The first texture coordinates of a quad: the middle of the reserved
/// square at all four vertices for a background, the corners of the
/// glyph's rectangle for a glyph.
pub open spec fn uv0_of<S>(ink: Ink<S>, scalars: Scalars<S>) -> Seq<[S; 2]> {
    match ink {
        Ink::Background => four([scalars.swatch, scalars.swatch]),
        Ink::Glyph { uv_min, uv_max } => corners_of(uv_min, uv_max),
    }
}

impl<S: Copy> MeshBuffers<S> {
    /// Appends the quad of one way of drawing a glyph.
    ///
    /// The quad spans `min` to `max` at depth `z`, faces along the third
    /// axis and has one colour. Its first texture coordinates are
    /// [`uv0_of`] its ink; its second carry, in both channels and at all
    /// four vertices, the value of the channel's kind.
    pub fn emit(
        &mut self,
        ink: Ink<S>,
        min: [S; 2],
        max: [S; 2],
        z: S,
        color: [S; 4],
        kinds: (GlyphMeta, GlyphMeta),
        values: &MetaValues<S>,
        scalars: &Scalars<S>,
    )
        requires
            old(self).wf(),
            old(self).quads() < MAX_QUADS,
        ensures
            final(self).wf(),
            final(self).quads() == old(self).quads() + 1,
            final(self).positions@ == old(self).positions@ + positions_of(min, max, z),
            final(self).normals@ == old(self).normals@ + four(
                [scalars.zero, scalars.zero, scalars.one],
            ),
            final(self).uv0@ == old(self).uv0@ + uv0_of(ink, *scalars),
            final(self).uv1@ == old(self).uv1@ + four(
                [
                    channel_value(kinds.0, ink is Background, *values, scalars.zero),
                    channel_value(kinds.1, ink is Background, *values, scalars.zero),
                ],
            ),
            final(self).colors@ == old(self).colors@ + four(color),
            final(self).indices@ == old(self).indices@ + indices_of(old(self).quads()),
    {
        let normal = [scalars.zero, scalars.zero, scalars.one];
        match ink {
            Ink::Background => {
                let middle = [scalars.swatch, scalars.swatch];
                let uv0 = [middle, middle, middle, middle];
                assert(uv0@ =~= four(middle));
                let uv1 = quad_meta(kinds, true, values, scalars.zero);
                self.push_quad(min, max, z, normal, uv0, uv1, color);
            },
            Ink::Glyph { uv_min, uv_max } => {
                let uv0 = corners(uv_min, uv_max);
                let uv1 = quad_meta(kinds, false, values, scalars.zero);
                self.push_quad(min, max, z, normal, uv0, uv1, color);
            },
        }
    }
}

/// The quad invariant. A mesh of quads has four vertices and six indices
/// per quad, and the six indices of each quad form two triangles over the
/// quad's own four vertices, wound `0, 1, 2` and `1, 3, 2`.
pub proof fn lemma_quad_invariant<S: Copy>(mesh: MeshBuffers<S>, quad: int)
    requires
        mesh.wf(),
        0 <= quad < mesh.quads(),
    ensures
        mesh.positions@.len() % 4 == 0,
        mesh.indices@.len() == mesh.positions@.len() / 4 * 6,
        mesh.indices@[6 * quad] == 4 * quad,
        mesh.indices@[6 * quad + 1] == 4 * quad + 1,
        mesh.indices@[6 * quad + 2] == 4 * quad + 2,
        mesh.indices@[6 * quad + 3] == 4 * quad + 1,
        mesh.indices@[6 * quad + 4] == 4 * quad + 3,
        mesh.indices@[6 * quad + 5] == 4 * quad + 2,
        4 * quad + 3 < mesh.positions@.len(),
{
    let six = mesh.indices@.subrange(6 * quad, 6 * quad + 6);
    assert(six == indices_of(quad));
    assert(six[0] == mesh.indices@[6 * quad]);
    assert(six[1] == mesh.indices@[6 * quad + 1]);
    assert(six[2] == mesh.indices@[6 * quad + 2]);
    assert(six[3] == mesh.indices@[6 * quad + 3]);
    assert(six[4] == mesh.indices@[6 * quad + 4]);
    assert(six[5] == mesh.indices@[6 * quad + 5]);
}

} // verus!
