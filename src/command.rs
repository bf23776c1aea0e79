//! The commands that the library records for the graphics backend.

use vstd::prelude::*;

use crate::geometry::{Extent, Tint, Vector2};
use crate::handles::{Program, Texture, VertexAttributeArray};

verus! {

/// One step of work for the graphics backend. The host executes a recorded
/// list of these in order.
#[derive(Debug, Clone, Copy, PartialEq, Eq)]
pub enum RenderCommand {
    /// Make `program` the current shader program.
    UseProgram(Program),
    /// Set the integer uniform `name` of `program`.
    SetInteger { program: Program, name: &'static str, value: i32 },
    /// Set the matrix uniform `name` of `program` to the left-handed
    /// orthographic projection of the pixel rectangle `[0, width] x [height, 0]`
    /// with its near and far planes at -1 and 1 (y inverted, origin at the top
    /// left).
    SetProjection { program: Program, name: &'static str, width: u32, height: u32 },
    /// Set the matrix uniform `name` of `program` to the model transform
    /// `translate(position) * translate(size / 2) * rotate_z(rotation)
    /// * translate(-size / 2) * scale(size)`, with `rotation` in degrees:
    /// the unit quad is stretched to `size` and turned about its own centre.
    SetModel { program: Program, name: &'static str, position: Vector2, size: Extent, rotation: i32 },
    /// Set the colour uniform `name` of `program` to `color`.
    SetTint { program: Program, name: &'static str, color: Tint },
    /// Select texture unit `unit` as the active one.
    ActiveTexture(u32),
    /// Bind `texture` as the 2D texture of the active unit.
    BindTexture(Texture),
    /// Bind the vertex array `vao`.
    BindVertexArray(VertexAttributeArray),
    /// Draw `count` vertices of the bound vertex array as a triangle list,
    /// starting at vertex `first`.
    DrawTriangles { first: u32, count: u32 },
}

} // verus!
