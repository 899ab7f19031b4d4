//! Node classification and coalescing types.
//!
//! Nodes are never reordered: they execute in the order the user declared
//! them. [`NodeRole`] is a type tag that tells the pipeline bridge which
//! planner a node feeds into; the bridge walks the node list left to right,
//! accumulating runs of compatible nodes and flushing when the role changes.
//! Adjacent nodes with the same [`CoalesceInfo::group`] are fused into one
//! operation, always equivalent to sequential execution.

use vstd::prelude::*;

verus! {

/// What role a node plays in the pipeline. Not a sort key: user ordering is
/// always preserved.
#[non_exhaustive]
#[derive(Clone, Copy, Debug, PartialEq, Eq, Hash, Structural)]
pub enum NodeRole {
    /// Source decoding and I/O configuration.
    Decode,
    /// Geometric operations: crop, resize, orient, pad, region.
    Geometry,
    /// Orientation sub-role of geometry (EXIF orient, flip, rotate).
    Orient,
    /// Resize sub-role of geometry (constrain, scale, expand canvas).
    Resize,
    /// Per-pixel filter operations: exposure, contrast, color, sharpen, etc.
    Filter,
    /// Compositing operations: blend, watermark, overlay.
    Composite,
    /// Analysis operations: face detection, saliency, quality metrics.
    Analysis,
    /// Quantization: palette reduction.
    Quantize,
    /// Encoding configuration: format selection, quality, codec params.
    Encode,
}

/// Whether a role belongs to geometry (the geometry role or one of its
/// orient/resize sub-roles).
pub open spec fn geometry_role(r: NodeRole) -> bool {
    r == NodeRole::Geometry || r == NodeRole::Orient || r == NodeRole::Resize
}

impl NodeRole {
    /// Whether this role represents a geometry operation (including
    /// orient/resize sub-roles).
    pub fn is_geometry(self) -> (r: bool)
        ensures
            r == geometry_role(self),
    {
        match self {
            NodeRole::Geometry | NodeRole::Orient | NodeRole::Resize => true,
            _ => false,
        }
    }
}

/// How a node can be fused/coalesced with adjacent operations.
///
/// Coalescing only happens between adjacent nodes in the user's declared
/// order that share the same `group` name.
#[derive(Clone, Debug, PartialEq, Eq)]
pub struct CoalesceInfo {
    /// Named group (e.g., `"layout_plan"`, `"fused_adjust"`).
    pub group: &'static str,
    /// This node contributes parameters to the coalesced operation.
    pub fusable: bool,
    /// This node IS the coalesced target (e.g., FusedAdjust itself).
    pub is_target: bool,
}

} // verus!
