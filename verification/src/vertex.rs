use vstd::prelude::*;

verus! {

/// Which pipeline state a run of indices needs.
#[derive(Debug, Clone, Copy, PartialEq, Eq, Structural)]
pub enum CommandKind {
    Solid,
    Glyph,
    GlyphOutline,
}

/// A run of indices drawn with one pipeline state.
#[derive(Debug, Clone, Copy, PartialEq, Eq, Structural)]
pub struct DrawCommand {
    pub kind: CommandKind,
    pub index_offset: u32,
    pub index_count: u32,
}

/// Accumulates vertices and indices during a frame.
///
/// The vertex type is left open: the draw list only counts vertices and hands their
/// positions in the vertex buffer to the index buffer.
pub struct DrawList<V> {
    pub vertices: Vec<V>,
    pub indices: Vec<u32>,
    pub commands: Vec<DrawCommand>,
}

/// `b` starts where `a` ends.
pub open spec fn follows(a: DrawCommand, b: DrawCommand) -> bool {
    b.index_offset == a.index_offset + a.index_count
}

/// `a` and `b` need different pipeline states.
pub open spec fn differs(a: DrawCommand, b: DrawCommand) -> bool {
    a.kind != b.kind
}

/// The commands cover the index range `0..n` run after run, in order, and two neighbouring
/// runs never need the same pipeline state.
pub open spec fn tiles(cmds: Seq<DrawCommand>, n: int) -> bool {
    &&& cmds.len() == 0 ==> n == 0
    &&& cmds.len() > 0 ==> cmds[0].index_offset == 0
    &&& cmds.len() > 0 ==> cmds.last().index_offset + cmds.last().index_count == n
    &&& forall|i: int| 0 <= i < cmds.len() - 1 ==> #[trigger] follows(cmds[i], cmds[i + 1])
    &&& forall|i: int| 0 <= i < cmds.len() - 1 ==> #[trigger] differs(cmds[i], cmds[i + 1])
}

/// The command list after appending a run of `count` indices starting at `offset`: the last
/// run grows when it has the same state and ends where the new run starts, otherwise a new
/// run is added.
pub open spec fn after_run(
    cmds: Seq<DrawCommand>,
    kind: CommandKind,
    offset: int,
    count: int,
) -> Seq<DrawCommand> {
    if cmds.len() > 0 && cmds.last().kind == kind && cmds.last().index_offset
        + cmds.last().index_count == offset {
        cmds.update(
            cmds.len() - 1,
            DrawCommand {
                kind,
                index_offset: cmds.last().index_offset,
                index_count: (cmds.last().index_count + count) as u32,
            },
        )
    } else {
        cmds.push(DrawCommand { kind, index_offset: offset as u32, index_count: count as u32 })
    }
}

/// The six indices of a quad whose first vertex sits at `base`: two triangles sharing the
/// diagonal from the first to the third corner.
pub open spec fn quad_indices(base: int) -> Seq<u32> {
    seq![
        base as u32,
        (base + 1) as u32,
        (base + 2) as u32,
        base as u32,
        (base + 2) as u32,
        (base + 3) as u32,
    ]
}

/// The indices `idxs`, each moved past the first `base` vertices.
pub open spec fn shifted(idxs: Seq<u32>, base: int) -> Seq<u32> {
    idxs.map_values(|i: u32| (i + base) as u32)
}

/// Number of indices the commands draw, all runs together.
pub open spec fn total_count(cmds: Seq<DrawCommand>) -> int
    decreases cmds.len(),
{
    if cmds.len() == 0 {
        0
    } else {
        total_count(cmds.drop_last()) + cmds.last().index_count
    }
}

/// Law: commands that tile `n` indices draw exactly `n` indices, each once.
pub proof fn lemma_commands_cover_indices(cmds: Seq<DrawCommand>, n: int)
    requires
        tiles(cmds, n),
    ensures
        total_count(cmds) == n,
    decreases cmds.len(),
{
    if cmds.len() > 0 {
        let prefix = cmds.drop_last();
        let m = cmds.last().index_offset as int;
        if prefix.len() > 0 {
            let i = cmds.len() - 2;
            assert(follows(cmds[i], cmds[i + 1]));
        }
        assert forall|i: int| 0 <= i < prefix.len() - 1 implies #[trigger] follows(
            prefix[i],
            prefix[i + 1],
        ) by {
            assert(follows(cmds[i], cmds[i + 1]));
        }
        assert forall|i: int| 0 <= i < prefix.len() - 1 implies #[trigger] differs(
            prefix[i],
            prefix[i + 1],
        ) by {
            assert(differs(cmds[i], cmds[i + 1]));
        }
        lemma_commands_cover_indices(prefix, m);
    }
}

/// Law: a run drawn with the same state as the last command joins it instead of adding a
/// command; a run with another state adds exactly one.
pub proof fn lemma_run_merges(cmds: Seq<DrawCommand>, kind: CommandKind, n: int, count: int)
    requires
        tiles(cmds, n),
    ensures
        cmds.len() > 0 && cmds.last().kind == kind ==> after_run(cmds, kind, n, count).len()
            == cmds.len(),
        !(cmds.len() > 0 && cmds.last().kind == kind) ==> after_run(cmds, kind, n, count).len()
            == cmds.len() + 1,
{
}

/// Law: appending a run of `count` indices to commands that tile the first `n` indices
/// gives commands that tile all `n + count`, ending with a command of the run's state;
/// there is one command more exactly when the last command was absent or of another state.
pub proof fn lemma_after_run_tiles(cmds: Seq<DrawCommand>, kind: CommandKind, n: int, count: int)
    requires
        tiles(cmds, n),
        0 <= count,
        n + count <= u32::MAX,
    ensures
        tiles(after_run(cmds, kind, n, count), n + count),
        after_run(cmds, kind, n, count).last().kind == kind,
        (after_run(cmds, kind, n, count).len() == cmds.len() + 1) == (cmds.len() == 0
            || cmds.last().kind != kind),
        (after_run(cmds, kind, n, count).len() == cmds.len()) == (cmds.len() > 0
            && cmds.last().kind == kind),
{
    let c = after_run(cmds, kind, n, count);
    if cmds.len() > 0 && cmds.last().kind == kind {
        assert forall|i: int| 0 <= i < c.len() - 1 implies #[trigger] follows(c[i], c[i + 1]) by {
            assert(follows(cmds[i], cmds[i + 1]));
        }
        assert forall|i: int| 0 <= i < c.len() - 1 implies #[trigger] differs(c[i], c[i + 1]) by {
            assert(differs(cmds[i], cmds[i + 1]));
        }
    } else {
        assert forall|i: int| 0 <= i < c.len() - 1 implies #[trigger] follows(c[i], c[i + 1]) by {
            if i < cmds.len() - 1 {
                assert(follows(cmds[i], cmds[i + 1]));
            }
        }
        assert forall|i: int| 0 <= i < c.len() - 1 implies #[trigger] differs(c[i], c[i + 1]) by {
            if i < cmds.len() - 1 {
                assert(differs(cmds[i], cmds[i + 1]));
            }
        }
    }
}

/// Law: appending a run keeps every command before the last one; the last one either
/// grows by the run, when it needs the same state, or stays and is followed by a new
/// command for the run, starting where the earlier indices end.
pub proof fn lemma_run_contents(cmds: Seq<DrawCommand>, kind: CommandKind, n: int, count: int)
    requires
        tiles(cmds, n),
        0 <= count,
        n + count <= u32::MAX,
    ensures
        forall|i: int|
            0 <= i < cmds.len() - 1 ==> #[trigger] after_run(cmds, kind, n, count)[i] == cmds[i],
        cmds.len() > 0 && cmds.last().kind == kind ==> {
            &&& after_run(cmds, kind, n, count).len() == cmds.len()
            &&& after_run(cmds, kind, n, count).last() == DrawCommand {
                kind,
                index_offset: cmds.last().index_offset,
                index_count: (cmds.last().index_count + count) as u32,
            }
            &&& cmds.last().index_count + count <= u32::MAX
        },
        !(cmds.len() > 0 && cmds.last().kind == kind) ==> {
            &&& after_run(cmds, kind, n, count) == cmds.push(
                DrawCommand { kind, index_offset: n as u32, index_count: count as u32 },
            )
            &&& n == n as u32 && count == count as u32
        },
{
    if cmds.len() > 0 {
        assert(cmds.last().index_offset + cmds.last().index_count == n);
    }
}

/// Law: a quad's six indices are the two triangles `(b, b+1, b+2)` and `(b, b+2, b+3)` over
/// its four vertices starting at `b`; appended triangles keep their indices, each moved
/// past the `base` vertices already there.
pub proof fn lemma_quad_and_shift(b: int, idxs: Seq<u32>, base: int)
    requires
        0 <= b,
        b + 3 <= u32::MAX,
        0 <= base,
        forall|i: int| 0 <= i < idxs.len() ==> #[trigger] idxs[i] + base <= u32::MAX,
    ensures
        quad_indices(b).len() == 6,
        quad_indices(b)[0] == b && quad_indices(b)[1] == b + 1 && quad_indices(b)[2] == b + 2,
        quad_indices(b)[3] == b && quad_indices(b)[4] == b + 2 && quad_indices(b)[5] == b + 3,
        shifted(idxs, base).len() == idxs.len(),
        forall|i: int|
            0 <= i < idxs.len() ==> #[trigger] shifted(idxs, base)[i] == idxs[i] + base,
{
}

impl<V> DrawList<V> {
    /// Counts fit the 32-bit index format and the commands tile the indices.
    pub open spec fn wf(&self) -> bool {
        &&& self.vertices.len() <= u32::MAX
        &&& self.indices.len() <= u32::MAX
        &&& tiles(self.commands@, self.indices.len() as int)
    }

    /// Every index names a vertex of the list.
    pub open spec fn indices_in_range(&self) -> bool {
        forall|i: int| 0 <= i < self.indices.len() ==> #[trigger] self.indices[i] < self.vertices.len()
    }

    pub fn new() -> (dl: Self)
        ensures
            dl.wf(),
            dl.vertices@.len() == 0,
            dl.indices@.len() == 0,
            dl.commands@.len() == 0,
    {
        DrawList { vertices: Vec::new(), indices: Vec::new(), commands: Vec::new() }
    }

    pub fn clear(&mut self)
        ensures
            final(self).wf(),
            final(self).vertices@.len() == 0,
            final(self).indices@.len() == 0,
            final(self).commands@.len() == 0,
    {
        self.vertices.clear();
        self.indices.clear();
        self.commands.clear();
    }

    pub fn add_solid_quad(&mut self, v0: V, v1: V, v2: V, v3: V)
        requires
            old(self).wf(),
            old(self).vertices.len() + 4 <= u32::MAX,
            old(self).indices.len() + 6 <= u32::MAX,
        ensures
            final(self).wf(),
            final(self).vertices@ == old(self).vertices@ + seq![v0, v1, v2, v3],
            final(self).indices@ == old(self).indices@ + quad_indices(
                old(self).vertices.len() as int,
            ),
            final(self).commands@ == after_run(
                old(self).commands@,
                CommandKind::Solid,
                old(self).indices.len() as int,
                6,
            ),
            old(self).indices_in_range() ==> final(self).indices_in_range(),
    {
        self.push_quad(CommandKind::Solid, v0, v1, v2, v3);
    }

    pub fn add_glyph_quad(&mut self, v0: V, v1: V, v2: V, v3: V)
        requires
            old(self).wf(),
            old(self).vertices.len() + 4 <= u32::MAX,
            old(self).indices.len() + 6 <= u32::MAX,
        ensures
            final(self).wf(),
            final(self).vertices@ == old(self).vertices@ + seq![v0, v1, v2, v3],
            final(self).indices@ == old(self).indices@ + quad_indices(
                old(self).vertices.len() as int,
            ),
            final(self).commands@ == after_run(
                old(self).commands@,
                CommandKind::Glyph,
                old(self).indices.len() as int,
                6,
            ),
            old(self).indices_in_range() ==> final(self).indices_in_range(),
    {
        self.push_quad(CommandKind::Glyph, v0, v1, v2, v3);
    }

    /// Appends an outline quad. The caller stamps the outline width and scale on the four
    /// vertices; the quad is drawn with the outline pipeline.
    pub fn add_glyph_outline_quad(&mut self, v0: V, v1: V, v2: V, v3: V)
        requires
            old(self).wf(),
            old(self).vertices.len() + 4 <= u32::MAX,
            old(self).indices.len() + 6 <= u32::MAX,
        ensures
            final(self).wf(),
            final(self).vertices@ == old(self).vertices@ + seq![v0, v1, v2, v3],
            final(self).indices@ == old(self).indices@ + quad_indices(
                old(self).vertices.len() as int,
            ),
            final(self).commands@ == after_run(
                old(self).commands@,
                CommandKind::GlyphOutline,
                old(self).indices.len() as int,
                6,
            ),
            old(self).indices_in_range() ==> final(self).indices_in_range(),
    {
        self.push_quad(CommandKind::GlyphOutline, v0, v1, v2, v3);
    }

    fn push_quad(&mut self, kind: CommandKind, v0: V, v1: V, v2: V, v3: V)
        requires
            old(self).wf(),
            old(self).vertices.len() + 4 <= u32::MAX,
            old(self).indices.len() + 6 <= u32::MAX,
        ensures
            final(self).wf(),
            final(self).vertices@ == old(self).vertices@ + seq![v0, v1, v2, v3],
            final(self).indices@ == old(self).indices@ + quad_indices(
                old(self).vertices.len() as int,
            ),
            final(self).commands@ == after_run(
                old(self).commands@,
                kind,
                old(self).indices.len() as int,
                6,
            ),
            old(self).indices_in_range() ==> final(self).indices_in_range(),
    {
        let base = self.vertices.len() as u32;
        self.vertices.push(v0);
        self.vertices.push(v1);
        self.vertices.push(v2);
        self.vertices.push(v3);
        self.indices.push(base);
        self.indices.push(base + 1);
        self.indices.push(base + 2);
        self.indices.push(base);
        self.indices.push(base + 2);
        self.indices.push(base + 3);
        proof {
            assert(self.vertices@ =~= old(self).vertices@ + seq![v0, v1, v2, v3]);
            assert(self.indices@ =~= old(self).indices@ + quad_indices(
                old(self).vertices.len() as int,
            ));
        }
        self.push_command(kind, 6);
    }

    /// Append a run of indices, extending the previous command when it needs the same state.
    ///
    /// The last `index_count` indices are the new run; the commands before the call tile
    /// the indices before it.
    pub fn push_command(&mut self, kind: CommandKind, index_count: u32)
        requires
            old(self).vertices.len() <= u32::MAX,
            old(self).indices.len() <= u32::MAX,
            index_count <= old(self).indices.len(),
            tiles(old(self).commands@, old(self).indices.len() - index_count),
        ensures
            final(self).wf(),
            final(self).vertices@ == old(self).vertices@,
            final(self).indices@ == old(self).indices@,
            final(self).commands@ == after_run(
                old(self).commands@,
                kind,
                old(self).indices.len() - index_count,
                index_count as int,
            ),
            final(self).commands@.last().kind == kind,
            (final(self).commands@.len() == old(self).commands@.len() + 1) == (old(
                self,
            ).commands@.len() == 0 || old(self).commands@.last().kind != kind),
    {
        proof {
            lemma_after_run_tiles(
                self.commands@,
                kind,
                self.indices.len() - index_count,
                index_count as int,
            );
        }
        let index_offset = self.indices.len() as u32 - index_count;
        let n = self.commands.len();
        if n > 0 {
            let last = self.commands[n - 1];
            if last.kind == kind && last.index_offset + last.index_count == index_offset {
                let merged = DrawCommand {
                    kind,
                    index_offset: last.index_offset,
                    index_count: last.index_count + index_count,
                };
                self.commands.set(n - 1, merged);
                return;
            }
        }
        self.commands.push(DrawCommand { kind, index_offset, index_count });
    }
}

impl<V: Copy> DrawList<V> {
    /// Appends triangles: the vertices go to the end of the vertex list and each index is
    /// moved past the vertices that were already there.
    pub fn add_solid_triangles(&mut self, verts: &[V], idxs: &[u32])
        requires
            old(self).wf(),
            old(self).vertices.len() + verts.len() <= u32::MAX,
            old(self).indices.len() + idxs.len() <= u32::MAX,
            forall|i: int|
                0 <= i < idxs.len() ==> #[trigger] idxs[i] + old(self).vertices.len() <= u32::MAX,
        ensures
            final(self).wf(),
            final(self).vertices@ == old(self).vertices@ + verts@,
            final(self).indices@ == old(self).indices@ + shifted(
                idxs@,
                old(self).vertices.len() as int,
            ),
            final(self).commands@ == after_run(
                old(self).commands@,
                CommandKind::Solid,
                old(self).indices.len() as int,
                idxs.len() as int,
            ),
            old(self).indices_in_range() && (forall|i: int|
                0 <= i < idxs.len() ==> #[trigger] idxs[i] < verts.len())
                ==> final(self).indices_in_range(),
    {
        let base = self.vertices.len() as u32;
        let mut k: usize = 0;
        while k < verts.len()
            invariant
                k <= verts.len(),
                self.vertices@ == old(self).vertices@ + verts@.subrange(0, k as int),
                self.indices@ == old(self).indices@,
                self.commands@ == old(self).commands@,
            decreases verts.len() - k,
        {
            self.vertices.push(verts[k]);
            k = k + 1;
            proof {
                assert(verts@.subrange(0, k as int) =~= verts@.subrange(0, k - 1).push(
                    verts@[k - 1],
                ));
            }
        }
        assert(verts@.subrange(0, verts.len() as int) =~= verts@);
        let mut j: usize = 0;
        while j < idxs.len()
            invariant
                j <= idxs.len(),
                base == old(self).vertices.len(),
                self.vertices@ == old(self).vertices@ + verts@,
                self.indices@ == old(self).indices@ + shifted(idxs@.subrange(0, j as int), base as int),
                self.commands@ == old(self).commands@,
                forall|i: int|
                    0 <= i < idxs.len() ==> #[trigger] idxs[i] + old(self).vertices.len() <= u32::MAX,
            decreases idxs.len() - j,
        {
            self.indices.push(idxs[j] + base);
            j = j + 1;
            proof {
                assert(shifted(idxs@.subrange(0, j as int), base as int) =~= shifted(
                    idxs@.subrange(0, j - 1),
                    base as int,
                ).push((idxs@[j - 1] + base) as u32));
            }
        }
        assert(idxs@.subrange(0, idxs.len() as int) =~= idxs@);
        proof {
            if old(self).indices_in_range() && (forall|i: int|
                0 <= i < idxs.len() ==> #[trigger] idxs[i] < verts.len()) {
                assert forall|i: int| 0 <= i < self.indices.len() implies #[trigger] self.indices[i]
                    < self.vertices.len() by {
                    if i >= old(self).indices.len() {
                        let t = i - old(self).indices.len();
                        assert(idxs[t] < verts.len());
                    }
                }
            }
        }
        self.push_command(CommandKind::Solid, idxs.len() as u32);
    }
}

} // verus!
