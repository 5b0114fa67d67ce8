//! Resources that a script declares while it runs: handles are handed out
//! at once, and the uploads wait in buffers until the host drains them.
use crate::handles::{HandleAllocator, Mesh, Shader};
use crate::pipeline::{primitive_named, PipelineModel, PrimitiveKind, UniquePipeline};
use crate::tracker::jobs_view;
use vstd::prelude::*;
use vstd::string::*;

verus! {

/// The lower-case form of a string, as `str::to_lowercase` computes it.
pub uninterp spec fn lower_of(s: Seq<char>) -> Seq<char>;

/// Relies on `str::to_lowercase`: the result depends on the characters of
/// `s` alone.
#[verifier::external_body]
fn lowercase(s: &str) -> (r: String)
    ensures
        r@ == lower_of(s@),
{
    s.to_lowercase()
}

/// One vertex: position and colour, each component the bit pattern of a
/// single-precision float.
#[derive(Clone, Copy, Debug, PartialEq)]
pub struct Vertex {
    pub pos: [u32; 3],
    pub color: [u32; 3],
}

/// The vertices and indices of a mesh.
pub type MeshData = (Vec<Vertex>, Vec<u32>);

/// `vs` holds one vertex for each whole group of six components of `c`, in
/// order: three of position, then three of colour. A trailing partial group
/// is dropped.
pub open spec fn vertices_from(vs: Seq<Vertex>, c: Seq<u32>) -> bool {
    &&& vs.len() == c.len() / 6
    &&& forall|i: int|
        0 <= i < vs.len() ==> {
            &&& (#[trigger] vs[i]).pos@ == c.subrange(6 * i, 6 * i + 3)
            &&& vs[i].color@ == c.subrange(6 * i + 3, 6 * i + 6)
        }
}

/// Groups flat components into vertices, six at a time.
pub fn vertices_of(c: &Vec<u32>) -> (r: Vec<Vertex>)
    ensures
        vertices_from(r@, c@),
{
    let mut out: Vec<Vertex> = Vec::new();
    let mut base: usize = 0;
    let mut i: usize = 0;
    while c.len() - base >= 6
        invariant
            base <= c.len(),
            base == 6 * i,
            out.len() == i,
            forall|k: int|
                0 <= k < i ==> {
                    &&& (#[trigger] out@[k]).pos@ == c@.subrange(6 * k, 6 * k + 3)
                    &&& out@[k].color@ == c@.subrange(6 * k + 3, 6 * k + 6)
                },
        decreases c.len() - base,
    {
        let v = Vertex {
            pos: [c[base], c[base + 1], c[base + 2]],
            color: [c[base + 3], c[base + 4], c[base + 5]],
        };
        assert(v.pos@ =~= c@.subrange(6 * i, 6 * i + 3));
        assert(v.color@ =~= c@.subrange(6 * i + 3, 6 * i + 6));
        out.push(v);
        base = base + 6;
        i = i + 1;
    }
    assert(i == c.len() / 6) by (nonlinear_arith)
        requires
            base == 6 * i,
            base <= c.len(),
            c.len() - base < 6,
    ;
    out
}

/// A mesh upload waiting in the buffer, as mathematical values.
pub open spec fn mesh_view(m: (Mesh, MeshData)) -> (Mesh, Seq<Vertex>, Seq<u32>) {
    (m.0, m.1.0@, m.1.1@)
}

/// Deferred resource declarations of the running script.
pub struct NewDataLua {
    meshes: HandleAllocator,
    shaders: HandleAllocator,
    added_meshes: Vec<(Mesh, MeshData)>,
    tracked_shaders: Vec<(Shader, UniquePipeline)>,
}

impl NewDataLua {
    /// Mesh keys handed out so far.
    pub closed spec fn mesh_keys(&self) -> Set<u64> {
        self.meshes.live()
    }

    /// Shader keys handed out so far.
    pub closed spec fn shader_keys(&self) -> Set<u64> {
        self.shaders.live()
    }

    /// Mesh uploads not yet drained, oldest first.
    pub closed spec fn pending_meshes(&self) -> Seq<(Mesh, Seq<Vertex>, Seq<u32>)> {
        self.added_meshes@.map_values(|m: (Mesh, MeshData)| mesh_view(m))
    }

    /// Shader declarations not yet drained, oldest first.
    pub closed spec fn pending_shaders(&self) -> Seq<(Shader, PipelineModel)> {
        jobs_view(self.tracked_shaders@)
    }

    /// Whether another mesh handle can be handed out.
    pub open spec fn mesh_room(&self) -> bool {
        self.mesh_keys().len() + 2 < u32::MAX
    }

    /// Whether another shader handle can be handed out.
    pub open spec fn shader_room(&self) -> bool {
        self.shader_keys().len() + 2 < u32::MAX
    }

    pub fn new() -> (r: Self)
        ensures
            r.mesh_keys() == Set::<u64>::empty(),
            r.shader_keys() == Set::<u64>::empty(),
            r.pending_meshes() == Seq::<(Mesh, Seq<Vertex>, Seq<u32>)>::empty(),
            r.pending_shaders() == Seq::<(Shader, PipelineModel)>::empty(),
    {
        let r = NewDataLua {
            meshes: HandleAllocator::new(),
            shaders: HandleAllocator::new(),
            added_meshes: Vec::new(),
            tracked_shaders: Vec::new(),
        };
        assert(r.pending_meshes() =~= Seq::<(Mesh, Seq<Vertex>, Seq<u32>)>::empty());
        assert(r.pending_shaders() =~= Seq::<(Shader, PipelineModel)>::empty());
        r
    }

    pub fn has_mesh_room(&self) -> (r: bool)
        ensures
            r == self.mesh_room(),
    {
        self.meshes.has_room()
    }

    pub fn has_shader_room(&self) -> (r: bool)
        ensures
            r == self.shader_room(),
    {
        self.shaders.has_room()
    }

    /// Hands out a fresh mesh handle and queues the upload of `vertices`
    /// (flat, six components per vertex) and `indices` under it.
    pub fn add_mesh(&mut self, vertices: Vec<u32>, indices: Vec<u32>) -> (r: Mesh)
        requires
            old(self).mesh_room(),
        ensures
            !old(self).mesh_keys().contains(r.key),
            final(self).mesh_keys() == old(self).mesh_keys().insert(r.key),
            final(self).shader_keys() == old(self).shader_keys(),
            final(self).pending_shaders() == old(self).pending_shaders(),
            final(self).pending_meshes().len() == old(self).pending_meshes().len() + 1,
            final(self).pending_meshes().drop_last() == old(self).pending_meshes(),
            final(self).pending_meshes().last().0 == r,
            vertices_from(final(self).pending_meshes().last().1, vertices@),
            final(self).pending_meshes().last().2 == indices@,
    {
        let verts = vertices_of(&vertices);
        let key = self.meshes.allocate();
        let mesh = Mesh { key };
        self.added_meshes.push((mesh, (verts, indices)));
        assert(self.pending_meshes().drop_last() =~= old(self).pending_meshes());
        mesh
    }

    /// Hands out a fresh shader handle and queues its descriptor, unless
    /// the primitive name, read without regard to case, is none of
    /// `triangles`, `tri`, `points`, `lines`: then nothing changes and the
    /// error names it.
    pub fn track_shader(&mut self, vertex_path: String, fragment_path: String, primitive: String) -> (r: Result<Shader, String>)
        requires
            old(self).shader_room(),
        ensures
            final(self).mesh_keys() == old(self).mesh_keys(),
            final(self).pending_meshes() == old(self).pending_meshes(),
            match primitive_named(lower_of(primitive@)) {
                None => {
                    &&& r is Err
                    &&& r->Err_0@ == "Unrecognized primitive type "@ + primitive@
                    &&& final(self).shader_keys() == old(self).shader_keys()
                    &&& final(self).pending_shaders() == old(self).pending_shaders()
                },
                Some(kind) => {
                    &&& r is Ok
                    &&& !old(self).shader_keys().contains(r->Ok_0.key)
                    &&& final(self).shader_keys() == old(self).shader_keys().insert(r->Ok_0.key)
                    &&& final(self).pending_shaders() == old(self).pending_shaders().push(
                        (
                            r->Ok_0,
                            PipelineModel {
                                vertex: vertex_path@,
                                fragment: fragment_path@,
                                primitive: kind,
                            },
                        ),
                    )
                },
            },
    {
        let lowered = lowercase(primitive.as_str());
        let kind = match PrimitiveKind::from_lowercase_name(&lowered) {
            Some(k) => k,
            None => {
                let msg = String::from_str("Unrecognized primitive type ").concat(primitive.as_str());
                return Err(msg);
            },
        };
        let key = self.shaders.allocate();
        let shader = Shader { key };
        let unique = UniquePipeline { vertex_path, fragment_path, primitive: kind };
        self.tracked_shaders.push((shader, unique));
        assert(self.pending_shaders() =~= old(self).pending_shaders().push(
            (shader, PipelineModel { vertex: vertex_path@, fragment: fragment_path@, primitive: kind }),
        ));
        Ok(shader)
    }

    /// Takes both buffers, oldest first, and leaves them empty.
    pub fn dump_render_updates(&mut self) -> (r: (Vec<(Mesh, MeshData)>, Vec<(Shader, UniquePipeline)>))
        ensures
            final(self).mesh_keys() == old(self).mesh_keys(),
            final(self).shader_keys() == old(self).shader_keys(),
            r.0@.map_values(|m: (Mesh, MeshData)| mesh_view(m)) == old(self).pending_meshes(),
            jobs_view(r.1@) == old(self).pending_shaders(),
            final(self).pending_meshes() == Seq::<(Mesh, Seq<Vertex>, Seq<u32>)>::empty(),
            final(self).pending_shaders() == Seq::<(Shader, PipelineModel)>::empty(),
    {
        let mut meshes: Vec<(Mesh, MeshData)> = Vec::new();
        let mut shaders: Vec<(Shader, UniquePipeline)> = Vec::new();
        std::mem::swap(&mut meshes, &mut self.added_meshes);
        std::mem::swap(&mut shaders, &mut self.tracked_shaders);
        assert(self.pending_meshes() =~= Seq::<(Mesh, Seq<Vertex>, Seq<u32>)>::empty());
        assert(self.pending_shaders() =~= Seq::<(Shader, PipelineModel)>::empty());
        (meshes, shaders)
    }
}

} // verus!
