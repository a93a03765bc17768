use rich_text3d::gate::{choose_pass, Changes, Dimension, Pass};
use rich_text3d::mesh::{corners, Ink, MeshBuffers, Scalars, MAX_QUADS};
use rich_text3d::meta::{channel, quad_meta, GlyphMeta, MetaValues};
use rich_text3d::style::{
    render_variants, resolved_weight, Depth, RenderType, SegmentStyle, Styling, Variant,
};

const SCALARS: Scalars<f32> = Scalars { zero: 0.0, one: 1.0, swatch: 2.0 };

const VALUES: MetaValues<f32> =
    MetaValues { index: 3.0, advance: 0.25, per_glyph_advance: 0.5, magic_number: 42.0 };

fn quiet() -> Changes {
    Changes { renderer: false, text: false, bounds: false, styling: false, segments: false }
}

fn styling() -> Styling<u8> {
    Styling {
        fill: true,
        stroke: None,
        color: 1,
        stroke_color: 2,
        weight: 400,
        offset_positive: false,
    }
}

fn segment() -> SegmentStyle<u8> {
    SegmentStyle {
        fill: None,
        stroke: None,
        fill_color: None,
        stroke_color: None,
        background_color: None,
        weight: None,
    }
}

fn kinds(renders: &[Variant<u8>]) -> Vec<(RenderType, u8, Depth)> {
    renders.iter().map(|v| (v.kind, v.color, v.depth)).collect()
}

#[test]
fn corners_form_a_grid() {
    assert_eq!(corners([1.0, 2.0], [3.0, 4.0]), [[1.0, 2.0], [3.0, 2.0], [1.0, 4.0], [3.0, 4.0]]);
}

#[test]
fn empty_text_gives_a_placeholder_triangle() {
    let mut mesh: MeshBuffers<f32> = MeshBuffers::new();
    assert_eq!(mesh.quad_count(), 0);
    mesh.finish(0.0, 1.0);
    assert_eq!(mesh.positions, vec![[0.0, 0.0, 0.0]; 3]);
    assert_eq!(mesh.normals, vec![[0.0, 1.0, 0.0]; 3]);
    assert_eq!(mesh.colors, vec![[0.0, 0.0, 0.0, 0.0]; 3]);
    assert_eq!(mesh.uv0, vec![[0.0, 0.0]; 3]);
    assert_eq!(mesh.uv1, vec![[0.0, 0.0]; 3]);
    assert_eq!(mesh.indices, vec![0, 1, 2]);
}

#[test]
fn finish_leaves_a_mesh_with_quads_alone() {
    let mut mesh: MeshBuffers<f32> = MeshBuffers::new();
    mesh.push_quad(
        [0.0, 0.0],
        [1.0, 1.0],
        0.0,
        [0.0, 0.0, 1.0],
        [[0.0; 2]; 4],
        [[0.0; 2]; 4],
        [1.0; 4],
    );
    let before = mesh.clone();
    mesh.finish(0.0, 1.0);
    assert_eq!(mesh, before);
}

#[test]
fn push_quad_appends_four_vertices_and_two_triangles() {
    let mut mesh: MeshBuffers<f32> = MeshBuffers::new();
    mesh.push_quad(
        [1.0, 2.0],
        [3.0, 5.0],
        -1.0,
        [0.0, 0.0, 1.0],
        [[0.1, 0.2], [0.3, 0.2], [0.1, 0.4], [0.3, 0.4]],
        [[7.0, 8.0], [7.5, 8.0], [7.0, 8.5], [7.5, 8.5]],
        [0.5, 0.6, 0.7, 1.0],
    );
    assert_eq!(mesh.quad_count(), 1);
    assert_eq!(
        mesh.positions,
        vec![[1.0, 2.0, -1.0], [3.0, 2.0, -1.0], [1.0, 5.0, -1.0], [3.0, 5.0, -1.0]]
    );
    assert_eq!(mesh.normals, vec![[0.0, 0.0, 1.0]; 4]);
    assert_eq!(mesh.uv0, vec![[0.1, 0.2], [0.3, 0.2], [0.1, 0.4], [0.3, 0.4]]);
    assert_eq!(mesh.uv1, vec![[7.0, 8.0], [7.5, 8.0], [7.0, 8.5], [7.5, 8.5]]);
    assert_eq!(mesh.colors, vec![[0.5, 0.6, 0.7, 1.0]; 4]);
    assert_eq!(mesh.indices, vec![0, 1, 2, 1, 3, 2]);
}

#[test]
fn every_quad_has_six_indices_over_its_own_vertices() {
    let mut mesh: MeshBuffers<f32> = MeshBuffers::new();
    for n in 0..5 {
        let at = n as f32;
        mesh.emit(
            Ink::Glyph { uv_min: [at, 0.0], uv_max: [at + 1.0, 1.0] },
            [at, 0.0],
            [at + 1.0, 1.0],
            0.0,
            [1.0; 4],
            (GlyphMeta::Index, GlyphMeta::Advance),
            &VALUES,
            &SCALARS,
        );
    }
    assert_eq!(mesh.quad_count(), 5);
    assert_eq!(mesh.positions.len() % 4, 0);
    assert_eq!(mesh.positions.len(), 20);
    assert_eq!(mesh.normals.len(), 20);
    assert_eq!(mesh.uv0.len(), 20);
    assert_eq!(mesh.uv1.len(), 20);
    assert_eq!(mesh.colors.len(), 20);
    assert_eq!(mesh.indices.len(), mesh.positions.len() / 4 * 6);
    for quad in 0..5u16 {
        let six = &mesh.indices[quad as usize * 6..quad as usize * 6 + 6];
        let first = quad * 4;
        assert_eq!(six, &[first, first + 1, first + 2, first + 1, first + 3, first + 2]);
    }
}

#[test]
fn last_quad_uses_the_last_index() {
    let mut mesh: MeshBuffers<u8> = MeshBuffers::new();
    for _ in 0..MAX_QUADS {
        mesh.push_quad([0, 0], [1, 1], 0, [0, 0, 1], [[0; 2]; 4], [[0; 2]; 4], [0; 4]);
    }
    assert_eq!(mesh.quad_count(), 16384);
    assert_eq!(mesh.indices.len(), 16384 * 6);
    assert_eq!(&mesh.indices[16383 * 6..], &[65532, 65533, 65534, 65533, 65535, 65534]);
}

#[test]
fn recycle_empties_the_buffers() {
    let mut mesh: MeshBuffers<f32> = MeshBuffers::new();
    mesh.push_quad([0.0; 2], [1.0; 2], 0.0, [0.0; 3], [[0.0; 2]; 4], [[0.0; 2]; 4], [0.0; 4]);
    mesh.recycle();
    assert_eq!(mesh, MeshBuffers::new());
    assert_eq!(mesh.quad_count(), 0);
    mesh.push_quad([0.0; 2], [1.0; 2], 0.0, [0.0; 3], [[0.0; 2]; 4], [[0.0; 2]; 4], [0.0; 4]);
    assert_eq!(mesh.indices, vec![0, 1, 2, 1, 3, 2]);
}

#[test]
fn background_quad_samples_the_swatch() {
    let mut mesh: MeshBuffers<f32> = MeshBuffers::new();
    mesh.emit(
        Ink::Background,
        [0.0, -4.0],
        [10.0, 16.0],
        -1.0,
        [0.1, 0.2, 0.3, 1.0],
        (GlyphMeta::Advance, GlyphMeta::MagicNumber),
        &VALUES,
        &SCALARS,
    );
    assert_eq!(mesh.uv0, vec![[2.0, 2.0]; 4]);
    assert_eq!(mesh.uv1, vec![[0.0, 42.0]; 4]);
    assert_eq!(mesh.normals, vec![[0.0, 0.0, 1.0]; 4]);
    assert_eq!(
        mesh.positions,
        vec![[0.0, -4.0, -1.0], [10.0, -4.0, -1.0], [0.0, 16.0, -1.0], [10.0, 16.0, -1.0]]
    );
    assert_eq!(mesh.colors, vec![[0.1, 0.2, 0.3, 1.0]; 4]);
}

#[test]
fn glyph_quad_samples_its_rectangle() {
    let mut mesh: MeshBuffers<f32> = MeshBuffers::new();
    mesh.emit(
        Ink::Glyph { uv_min: [6.0, 12.0], uv_max: [56.0, 22.0] },
        [1.0, 2.0],
        [26.0, 7.0],
        0.5,
        [1.0; 4],
        (GlyphMeta::PerGlyphAdvance, GlyphMeta::RowX),
        &VALUES,
        &SCALARS,
    );
    assert_eq!(mesh.uv0, vec![[6.0, 12.0], [56.0, 12.0], [6.0, 22.0], [56.0, 22.0]]);
    assert_eq!(mesh.uv1, vec![[0.5, 0.0]; 4]);
    assert_eq!(
        mesh.positions,
        vec![[1.0, 2.0, 0.5], [26.0, 2.0, 0.5], [1.0, 7.0, 0.5], [26.0, 7.0, 0.5]]
    );
}

#[test]
fn channels_carry_what_their_kind_says() {
    for background in [false, true] {
        assert_eq!(channel(GlyphMeta::Index, background, &VALUES, 0.0), 3.0);
        assert_eq!(channel(GlyphMeta::MagicNumber, background, &VALUES, 0.0), 42.0);
        assert_eq!(channel(GlyphMeta::RowX, background, &VALUES, 0.0), 0.0);
        assert_eq!(channel(GlyphMeta::ColY, background, &VALUES, 0.0), 0.0);
    }
    assert_eq!(channel(GlyphMeta::Advance, false, &VALUES, 0.0), 0.25);
    assert_eq!(channel(GlyphMeta::Advance, true, &VALUES, 0.0), 0.0);
    assert_eq!(channel(GlyphMeta::PerGlyphAdvance, false, &VALUES, 0.0), 0.5);
    assert_eq!(channel(GlyphMeta::PerGlyphAdvance, true, &VALUES, 0.0), 0.0);
    assert_eq!(
        quad_meta((GlyphMeta::Advance, GlyphMeta::Index), false, &VALUES, 0.0),
        [[0.25, 3.0]; 4]
    );
    assert_eq!(
        quad_meta((GlyphMeta::Advance, GlyphMeta::Index), true, &VALUES, 0.0),
        [[0.0, 3.0]; 4]
    );
}

fn two_quads() -> MeshBuffers<f32> {
    let mut mesh: MeshBuffers<f32> = MeshBuffers::new();
    for n in 0..2 {
        let at = 10.0 * n as f32;
        mesh.emit(
            Ink::Glyph { uv_min: [at, 4.0], uv_max: [at + 8.0, 12.0] },
            [at, -2.0],
            [at + 8.0, 6.0],
            n as f32,
            [1.0; 4],
            (GlyphMeta::RowX, GlyphMeta::Index),
            &VALUES,
            &SCALARS,
        );
    }
    mesh
}

#[test]
fn translate_moves_the_first_two_coordinates() {
    let mut mesh = two_quads();
    let before = mesh.clone();
    mesh.translate(|x| x + 100.0, |y| y - 1.0);
    assert_eq!(mesh.positions[0], [100.0, -3.0, 0.0]);
    assert_eq!(mesh.positions[3], [108.0, 5.0, 0.0]);
    assert_eq!(mesh.positions[7], [118.0, 5.0, 1.0]);
    for v in 0..8 {
        assert_eq!(mesh.positions[v][0], before.positions[v][0] + 100.0);
        assert_eq!(mesh.positions[v][1], before.positions[v][1] - 1.0);
        assert_eq!(mesh.positions[v][2], before.positions[v][2]);
    }
    assert_eq!(mesh.uv0, before.uv0);
    assert_eq!(mesh.uv1, before.uv1);
    assert_eq!(mesh.indices, before.indices);
}

#[test]
fn rescale_scales_both_channels_of_uv0() {
    let mut mesh = two_quads();
    let before = mesh.clone();
    mesh.rescale_uv0(|u| u * 0.5, |v| v * 0.25);
    assert_eq!(mesh.uv0[0], [0.0, 1.0]);
    assert_eq!(mesh.uv0[7], [9.0, 3.0]);
    for v in 0..8 {
        assert_eq!(mesh.uv0[v], [before.uv0[v][0] * 0.5, before.uv0[v][1] * 0.25]);
    }
    assert_eq!(mesh.positions, before.positions);
    assert_eq!(mesh.uv1, before.uv1);
}

#[test]
fn rescale_by_the_ratio_of_sizes() {
    let mut mesh: MeshBuffers<f32> = MeshBuffers::new();
    mesh.emit(
        Ink::Glyph { uv_min: [6.0, 12.0], uv_max: [56.0, 22.0] },
        [0.0; 2],
        [1.0; 2],
        0.0,
        [1.0; 4],
        (GlyphMeta::Index, GlyphMeta::Index),
        &VALUES,
        &SCALARS,
    );
    mesh.rescale_uv0(|u| u * (1.0 / 64.0), |v| v * (1.0 / 64.0));
    let laid_out = mesh.uv0.clone();
    let (old, new) = ((64.0f32, 64.0f32), (64.0f32, 128.0f32));
    mesh.rescale_uv0(|u| u * (old.0 / new.0), |v| v * (old.1 / new.1));
    for v in 0..4 {
        assert_eq!(mesh.uv0[v][0], laid_out[v][0] * old.0 / new.0);
        assert_eq!(mesh.uv0[v][1], laid_out[v][1] * old.1 / new.1);
    }
    assert_eq!(mesh.uv0[3], [56.0 / 64.0, 22.0 / 128.0]);
}

#[test]
fn bounds_pass_fills_only_the_channels_that_ask_for_it() {
    let mut mesh = two_quads();
    mesh.fill_bounds((GlyphMeta::RowX, GlyphMeta::Index), |x| x / 18.0, |y| y + 1000.0);
    for v in 0..8 {
        assert_eq!(mesh.uv1[v], [mesh.positions[v][0] / 18.0, 3.0]);
    }
    mesh.fill_bounds((GlyphMeta::ColY, GlyphMeta::RowX), |x| x * 2.0, |y| y + 2.0);
    for v in 0..8 {
        assert_eq!(mesh.uv1[v], [mesh.positions[v][1] + 2.0, mesh.positions[v][0] * 2.0]);
    }
    let before = mesh.clone();
    mesh.fill_bounds((GlyphMeta::Advance, GlyphMeta::MagicNumber), |x| x * 2.0, |y| y + 2.0);
    assert_eq!(mesh, before);
}

#[test]
fn corner_columns_list_one_corner_of_every_quad() {
    let mesh = two_quads();
    assert_eq!(mesh.corner_column(0), vec![0.0, 10.0]);
    assert_eq!(mesh.corner_column(1), vec![8.0, 18.0]);
    assert_eq!(mesh.corner_column(2), vec![0.0, 10.0]);
    assert_eq!(mesh.corner_column(3), vec![8.0, 18.0]);
    let none: MeshBuffers<f32> = MeshBuffers::new();
    assert_eq!(none.corner_column(3), Vec::<f32>::new());
}

#[test]
fn fill_alone() {
    let renders = render_variants(&segment(), &styling());
    assert_eq!(kinds(&renders), vec![(RenderType::Fill, 1, Depth::Level)]);
}

#[test]
fn stroke_alone() {
    let style = Styling { fill: false, stroke: Some(3), ..styling() };
    let renders = render_variants(&segment(), &style);
    assert_eq!(kinds(&renders), vec![(RenderType::Stroke(3), 2, Depth::Level)]);
}

#[test]
fn fill_in_front_of_stroke_when_the_offset_is_positive() {
    let style = Styling { stroke: Some(3), offset_positive: true, ..styling() };
    let renders = render_variants(&segment(), &style);
    assert_eq!(
        kinds(&renders),
        vec![(RenderType::Fill, 1, Depth::Offset), (RenderType::Stroke(3), 2, Depth::Level)]
    );
}

#[test]
fn stroke_moved_when_the_offset_is_not_positive() {
    let style = Styling { stroke: Some(3), offset_positive: false, ..styling() };
    let renders = render_variants(&segment(), &style);
    assert_eq!(
        kinds(&renders),
        vec![(RenderType::Stroke(3), 2, Depth::NegatedOffset), (RenderType::Fill, 1, Depth::Level)]
    );
}

#[test]
fn neither_fill_nor_stroke() {
    let style = Styling { fill: false, ..styling() };
    assert!(render_variants(&segment(), &style).is_empty());
    let only_background = SegmentStyle { background_color: Some(9), ..segment() };
    assert_eq!(
        kinds(&render_variants(&only_background, &style)),
        vec![(RenderType::Background, 9, Depth::Behind)]
    );
}

#[test]
fn segment_overrides_the_styling() {
    let seg = SegmentStyle {
        fill: Some(true),
        stroke: Some(8),
        fill_color: Some(11),
        stroke_color: Some(12),
        background_color: Some(13),
        weight: Some(700),
    };
    let style = Styling { fill: false, stroke: Some(3), offset_positive: true, ..styling() };
    assert_eq!(
        kinds(&render_variants(&seg, &style)),
        vec![
            (RenderType::Background, 13, Depth::Behind),
            (RenderType::Fill, 11, Depth::Offset),
            (RenderType::Stroke(8), 12, Depth::Level),
        ]
    );
    assert_eq!(resolved_weight(&seg, &style), 700);
    assert_eq!(resolved_weight(&segment(), &style), 400);
    let unfilled = SegmentStyle { fill: Some(false), ..segment() };
    assert!(render_variants(&unfilled, &styling()).is_empty());
}

#[test]
fn nothing_changed_and_same_size_skips() {
    let size = Dimension { width: 64, height: 64 };
    assert_eq!(choose_pass(quiet(), size, size), Pass::Skip);
}

#[test]
fn only_the_size_changed_rescales() {
    let old = Dimension { width: 64, height: 64 };
    assert_eq!(choose_pass(quiet(), old, Dimension { width: 64, height: 128 }), Pass::Rescale);
    assert_eq!(choose_pass(quiet(), old, Dimension { width: 32, height: 64 }), Pass::Rescale);
    assert_eq!(choose_pass(quiet(), Dimension { width: 0, height: 0 }, old), Pass::Rescale);
}

#[test]
fn any_change_lays_out_again() {
    let size = Dimension { width: 64, height: 64 };
    let grown = Dimension { width: 64, height: 128 };
    let each = [
        Changes { renderer: true, ..quiet() },
        Changes { text: true, ..quiet() },
        Changes { bounds: true, ..quiet() },
        Changes { styling: true, ..quiet() },
        Changes { segments: true, ..quiet() },
    ];
    for changes in each {
        assert_eq!(choose_pass(changes, size, size), Pass::Relayout);
        assert_eq!(choose_pass(changes, size, grown), Pass::Relayout);
    }
}
