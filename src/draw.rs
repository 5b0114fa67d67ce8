//! Draw commands and their decoding from what a script's `frame()` returned.
use crate::handles::{Mesh, Shader};
use vstd::prelude::*;

verus! {

/// A column-major 4x4 matrix; each entry is the bit pattern of a Lua number
/// (a double).
pub type Transform = [u64; 16];

/// Where the vertices of a draw come from.
#[derive(Clone, Copy, Debug, PartialEq)]
pub enum DrawGeometry {
    /// Draw a mesh; `max_idx` caps the number of indices drawn.
    Mesh { mesh: Mesh, max_idx: Option<u32> },
    /// Draw `n_verts` vertices generated by the vertex shader.
    Procedural { n_verts: u32 },
}

/// A single object to be drawn.
#[derive(Clone, Copy, Debug, PartialEq)]
pub struct DrawCmd {
    pub shader: Shader,
    pub geometry: DrawGeometry,
    pub transform: Option<Transform>,
}

/// The fields of one draw-command record as the script wrote them; `None`
/// where the field is absent or of the wrong type.
#[derive(Clone, Debug)]
pub struct RawDrawCmd {
    pub trans: Option<Vec<u64>>,
    pub mesh: Option<Mesh>,
    pub n_indices: Option<u32>,
    pub shader: Option<Shader>,
}

/// Why a draw-command record could not be decoded.
#[derive(Clone, Copy, Debug, PartialEq, Eq, Structural)]
pub enum DecodeError {
    /// The record has no `shader`.
    MissingShader,
    /// `trans` does not hold exactly sixteen numbers.
    MalformedTransform,
    /// The record has neither `mesh` nor `n_indices`.
    MissingGeometry,
}

/// The draw command a record decodes to, or the first defect found in it:
/// a missing shader, then a transform of the wrong length, then missing
/// geometry. With a mesh, `n_indices` caps the indices drawn.
pub open spec fn decode_spec(raw: RawDrawCmd) -> Result<DrawCmd, DecodeError> {
    if raw.shader.is_none() {
        Err(DecodeError::MissingShader)
    } else if raw.trans.is_some() && raw.trans.unwrap()@.len() != 16 {
        Err(DecodeError::MalformedTransform)
    } else if raw.mesh.is_none() && raw.n_indices.is_none() {
        Err(DecodeError::MissingGeometry)
    } else {
        Ok(
            DrawCmd {
                shader: raw.shader.unwrap(),
                geometry: if raw.mesh.is_some() {
                    DrawGeometry::Mesh { mesh: raw.mesh.unwrap(), max_idx: raw.n_indices }
                } else {
                    DrawGeometry::Procedural { n_verts: raw.n_indices.unwrap() }
                },
                transform: if raw.trans.is_some() {
                    Some(transform_of(raw.trans.unwrap()@))
                } else {
                    None
                },
            },
        )
    }
}

/// The matrix whose entries, in order, are the sixteen numbers of `s`.
pub open spec fn transform_of(s: Seq<u64>) -> Transform {
    choose|t: Transform| t@ == s
}

fn to_transform(v: &Vec<u64>) -> (r: Transform)
    requires
        v@.len() == 16,
    ensures
        r@ == v@,
{
    let r: Transform = [
        v[0], v[1], v[2], v[3], v[4], v[5], v[6], v[7],
        v[8], v[9], v[10], v[11], v[12], v[13], v[14], v[15],
    ];
    assert(r@ =~= v@);
    r
}

/// Decodes one draw-command record.
pub fn decode_draw_cmd(raw: &RawDrawCmd) -> (r: Result<DrawCmd, DecodeError>)
    ensures
        r == decode_spec(*raw),
{
    let shader = match raw.shader {
        Some(s) => s,
        None => return Err(DecodeError::MissingShader),
    };
    let transform = match &raw.trans {
        Some(t) => {
            if t.len() != 16 {
                return Err(DecodeError::MalformedTransform);
            }
            let m = to_transform(t);
            proof {
                assert(m@ == t@);
                let c = transform_of(t@);
                assert(c@ == t@);
                assert(c@ =~= m@);
                assert(c == m);
            }
            Some(m)
        },
        None => None,
    };
    let geometry = match (raw.mesh, raw.n_indices) {
        (Some(mesh), max_idx) => DrawGeometry::Mesh { mesh, max_idx },
        (None, Some(n_verts)) => DrawGeometry::Procedural { n_verts },
        (None, None) => return Err(DecodeError::MissingGeometry),
    };
    Ok(DrawCmd { shader, geometry, transform })
}

/// What decoding a whole frame gives: every record decoded, in order, or
/// the error of the first record that fails.
pub open spec fn decode_all_spec(raws: Seq<RawDrawCmd>) -> Result<Seq<DrawCmd>, DecodeError>
    decreases raws.len(),
{
    if raws.len() == 0 {
        Ok(Seq::empty())
    } else {
        match decode_all_spec(raws.drop_last()) {
            Err(e) => Err(e),
            Ok(cmds) => match decode_spec(raws.last()) {
                Err(e) => Err(e),
                Ok(c) => Ok(cmds.push(c)),
            },
        }
    }
}

/// Decodes the records of a frame, in order; stops at the first that fails.
pub fn decode_draw_table(raws: &Vec<RawDrawCmd>) -> (r: Result<Vec<DrawCmd>, DecodeError>)
    ensures
        match r {
            Ok(cmds) => decode_all_spec(raws@) == Ok::<Seq<DrawCmd>, DecodeError>(cmds@),
            Err(e) => decode_all_spec(raws@) == Err::<Seq<DrawCmd>, DecodeError>(e),
        },
{
    let mut cmds: Vec<DrawCmd> = Vec::new();
    let mut i: usize = 0;
    while i < raws.len()
        invariant
            i <= raws.len(),
            decode_all_spec(raws@.subrange(0, i as int)) == Ok::<Seq<DrawCmd>, DecodeError>(cmds@),
        decreases raws.len() - i,
    {
        let c = decode_draw_cmd(&raws[i]);
        proof {
            assert(raws@.subrange(0, i + 1).drop_last() =~= raws@.subrange(0, i as int));
            assert(raws@.subrange(0, i + 1).last() == raws@[i as int]);
        }
        match c {
            Ok(c) => cmds.push(c),
            Err(e) => {
                proof {
                    lemma_decode_all_err_extends(raws@, i as int + 1, e);
                }
                return Err(e);
            },
        }
        i = i + 1;
    }
    proof {
        assert(raws@.subrange(0, raws.len() as int) =~= raws@);
    }
    Ok(cmds)
}

proof fn lemma_decode_all_err_extends(raws: Seq<RawDrawCmd>, n: int, e: DecodeError)
    requires
        0 < n <= raws.len(),
        decode_all_spec(raws.subrange(0, n)) == Err::<Seq<DrawCmd>, DecodeError>(e),
    ensures
        decode_all_spec(raws) == Err::<Seq<DrawCmd>, DecodeError>(e),
    decreases raws.len() - n,
{
    if n == raws.len() {
        assert(raws.subrange(0, n) =~= raws);
    } else {
        let m = n + 1;
        assert(raws.subrange(0, m).drop_last() =~= raws.subrange(0, n));
        lemma_decode_all_err_extends(raws, m, e);
    }
}

/// Decoding a frame fails as soon as any of its records lacks a shader.
pub proof fn lemma_missing_shader_fails(raws: Seq<RawDrawCmd>, i: int)
    requires
        0 <= i < raws.len(),
        raws[i].shader.is_none(),
    ensures
        decode_all_spec(raws) is Err,
    decreases raws.len(),
{
    if i < raws.len() - 1 {
        lemma_missing_shader_fails(raws.drop_last(), i);
    }
}

} // verus!
