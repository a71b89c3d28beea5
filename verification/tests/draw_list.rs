use procmod_overlay::vertex::{CommandKind, DrawList};

#[derive(Clone, Copy, Debug, PartialEq)]
struct Vertex {
    position: [f32; 2],
    uv: [f32; 2],
}

impl Vertex {
    fn new(x: f32, y: f32) -> Self {
        Vertex { position: [x, y], uv: [0.0, 0.0] }
    }

    fn with_uv(x: f32, y: f32, u: f32, v: f32) -> Self {
        Vertex { position: [x, y], uv: [u, v] }
    }
}

fn quad(dl: &mut DrawList<Vertex>) {
    dl.add_solid_quad(
        Vertex::new(0.0, 0.0),
        Vertex::new(1.0, 0.0),
        Vertex::new(1.0, 1.0),
        Vertex::new(0.0, 1.0),
    );
}

fn glyph_quad(dl: &mut DrawList<Vertex>) {
    dl.add_glyph_quad(
        Vertex::with_uv(0.0, 0.0, 0.0, 0.0),
        Vertex::with_uv(1.0, 0.0, 1.0, 0.0),
        Vertex::with_uv(1.0, 1.0, 1.0, 1.0),
        Vertex::with_uv(0.0, 1.0, 0.0, 1.0),
    );
}

#[test]
fn draw_list_solid_quad_indices() {
    let mut dl = DrawList::new();
    quad(&mut dl);
    assert_eq!(dl.vertices.len(), 4);
    assert_eq!(dl.indices, vec![0, 1, 2, 0, 2, 3]);
    assert_eq!(dl.commands.len(), 1);
}

#[test]
fn draw_list_second_quad_offsets_indices() {
    let mut dl = DrawList::new();
    quad(&mut dl);
    quad(&mut dl);
    assert_eq!(dl.vertices.len(), 8);
    assert_eq!(&dl.indices[6..], &[4, 5, 6, 4, 6, 7]);
}

#[test]
fn draw_list_clear_resets() {
    let mut dl = DrawList::new();
    quad(&mut dl);
    dl.clear();
    assert!(dl.vertices.is_empty());
    assert!(dl.indices.is_empty());
    assert!(dl.commands.is_empty());
}

#[test]
fn solid_triangles_offsets_correctly() {
    let mut dl = DrawList::new();
    quad(&mut dl);
    dl.add_solid_triangles(
        &[
            Vertex::new(0.0, 0.0),
            Vertex::new(1.0, 0.0),
            Vertex::new(0.5, 1.0),
        ],
        &[0, 1, 2],
    );
    assert_eq!(dl.indices.last(), Some(&6));
}

#[test]
fn matching_commands_merge() {
    let mut dl = DrawList::new();
    quad(&mut dl);
    quad(&mut dl);
    quad(&mut dl);
    assert_eq!(dl.commands.len(), 1);
    assert_eq!(dl.commands[0].index_count, 18);
    assert_eq!(dl.commands[0].index_offset, 0);
}

#[test]
fn differing_commands_do_not_merge() {
    let mut dl = DrawList::new();
    quad(&mut dl);
    glyph_quad(&mut dl);
    quad(&mut dl);
    assert_eq!(dl.commands.len(), 3);
    assert_eq!(dl.commands[1].kind, CommandKind::Glyph);
    assert_eq!(dl.commands[1].index_offset, 6);
    assert_eq!(dl.commands[2].index_offset, 12);
}

#[test]
fn merged_commands_cover_every_index() {
    let mut dl = DrawList::new();
    quad(&mut dl);
    glyph_quad(&mut dl);
    glyph_quad(&mut dl);
    dl.add_solid_triangles(
        &[
            Vertex::new(0.0, 0.0),
            Vertex::new(1.0, 0.0),
            Vertex::new(0.5, 1.0),
        ],
        &[0, 1, 2],
    );

    let covered: u32 = dl.commands.iter().map(|c| c.index_count).sum();
    assert_eq!(covered as usize, dl.indices.len());

    let mut expected = 0;
    for command in &dl.commands {
        assert_eq!(command.index_offset, expected);
        expected += command.index_count;
    }
}

#[test]
fn outline_quads_use_the_outline_pipeline() {
    let mut dl = DrawList::new();
    dl.add_glyph_outline_quad(
        Vertex::with_uv(0.0, 0.0, 0.0, 0.0),
        Vertex::with_uv(1.0, 0.0, 1.0, 0.0),
        Vertex::with_uv(1.0, 1.0, 1.0, 1.0),
        Vertex::with_uv(0.0, 1.0, 0.0, 1.0),
    );
    assert_eq!(dl.commands[0].kind, CommandKind::GlyphOutline);
    assert_eq!(dl.vertices[2].uv, [1.0, 1.0]);
    glyph_quad(&mut dl);
    assert_eq!(dl.commands.len(), 2);
    assert_eq!(dl.commands[1].kind, CommandKind::Glyph);
}

#[test]
fn empty_triangle_batch_adds_an_empty_run() {
    let mut dl: DrawList<Vertex> = DrawList::new();
    dl.add_solid_triangles(&[], &[]);
    assert_eq!(dl.commands.len(), 1);
    assert_eq!(dl.commands[0].index_count, 0);
    quad(&mut dl);
    assert_eq!(dl.commands.len(), 1);
    assert_eq!(dl.commands[0].index_count, 6);
}

#[test]
fn triangles_keep_their_vertices_in_order() {
    let mut dl = DrawList::new();
    glyph_quad(&mut dl);
    let verts = [Vertex::new(5.0, 6.0), Vertex::new(7.0, 8.0)];
    dl.add_solid_triangles(&verts, &[1, 0, 1]);
    assert_eq!(dl.vertices[4], verts[0]);
    assert_eq!(dl.vertices[5], verts[1]);
    assert_eq!(&dl.indices[6..], &[5, 4, 5]);
    assert_eq!(dl.commands[1].kind, CommandKind::Solid);
    assert_eq!(dl.commands[1].index_offset, 6);
    assert_eq!(dl.commands[1].index_count, 3);
}

#[test]
fn pushing_a_command_extends_or_adds_a_run() {
    let mut dl: DrawList<Vertex> = DrawList::new();
    dl.indices.extend_from_slice(&[0, 1, 2]);
    dl.push_command(CommandKind::Solid, 3);
    assert_eq!(dl.commands.len(), 1);
    dl.indices.extend_from_slice(&[0, 1, 2]);
    dl.push_command(CommandKind::Solid, 3);
    assert_eq!(dl.commands.len(), 1);
    assert_eq!(dl.commands[0].index_count, 6);
    dl.indices.extend_from_slice(&[0, 1, 2]);
    dl.push_command(CommandKind::Glyph, 3);
    assert_eq!(dl.commands.len(), 2);
    assert_eq!(dl.commands[1].index_offset, 6);
    assert_eq!(dl.commands[1].kind, CommandKind::Glyph);
}
