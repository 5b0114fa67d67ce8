//! Pipeline descriptors: the two shader source paths and the primitive kind.
use vstd::prelude::*;
use vstd::string::*;

verus! {

/// Primitive topology that a pipeline draws with.
#[derive(Clone, Copy, Debug, PartialEq, Eq, Hash, Structural)]
pub enum PrimitiveKind {
    TriangleList,
    PointList,
    LineList,
}

/// The primitive kind a lower-case name stands for, if any.
pub open spec fn primitive_named(s: Seq<char>) -> Option<PrimitiveKind> {
    if s == "triangles"@ || s == "tri"@ {
        Some(PrimitiveKind::TriangleList)
    } else if s == "points"@ {
        Some(PrimitiveKind::PointList)
    } else if s == "lines"@ {
        Some(PrimitiveKind::LineList)
    } else {
        None
    }
}

impl PrimitiveKind {
    /// Reads an already lower-cased primitive name: `triangles` or `tri`,
    /// `points`, `lines`.
    pub fn from_lowercase_name(s: &String) -> (r: Option<PrimitiveKind>)
        ensures
            r == primitive_named(s@),
    {
        if *s == String::from_str("triangles") || *s == String::from_str("tri") {
            Some(PrimitiveKind::TriangleList)
        } else if *s == String::from_str("points") {
            Some(PrimitiveKind::PointList)
        } else if *s == String::from_str("lines") {
            Some(PrimitiveKind::LineList)
        } else {
            None
        }
    }
}

/// What a pipeline descriptor holds, as mathematical values.
pub struct PipelineModel {
    pub vertex: Seq<char>,
    pub fragment: Seq<char>,
    pub primitive: PrimitiveKind,
}

/// Whether a pipeline reads the source file at `path`.
pub open spec fn uses_path(d: PipelineModel, path: Seq<char>) -> bool {
    d.vertex == path || d.fragment == path
}

/// A pipeline descriptor: vertex source path, fragment source path and
/// primitive kind. Equal descriptors compile to the same pipeline.
#[derive(Debug)]
pub struct UniquePipeline {
    pub vertex_path: String,
    pub fragment_path: String,
    pub primitive: PrimitiveKind,
}

impl View for UniquePipeline {
    type V = PipelineModel;

    open spec fn view(&self) -> PipelineModel {
        PipelineModel {
            vertex: self.vertex_path@,
            fragment: self.fragment_path@,
            primitive: self.primitive,
        }
    }
}

impl Clone for UniquePipeline {
    fn clone(&self) -> (r: Self)
        ensures
            r@ == self@,
    {
        UniquePipeline {
            vertex_path: self.vertex_path.clone(),
            fragment_path: self.fragment_path.clone(),
            primitive: self.primitive,
        }
    }
}

} // verus!
