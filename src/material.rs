//! A compiled shader program and the uniform settings recorded on it.

use vstd::prelude::*;

use crate::command::RenderCommand;
use crate::geometry::{Extent, Tint, Vector2};
use crate::handles::Program;

verus! {

/// A linked shader program. Copying a material copies the handle only; the
/// program itself exists once in the driver.
#[derive(Debug, Clone, Copy, PartialEq, Eq, Structural)]
pub struct Material {
    pub program: Program,
}

impl Material {
    /// Wraps a program that the backend has compiled and linked.
    pub fn new(program: Program) -> (r: Material)
        ensures
            r.program == program,
    {
        Material { program }
    }

    /// Records that this material's program becomes the current one.
    pub fn use_(&self, out: &mut Vec<RenderCommand>)
        ensures
            final(out)@ == old(out)@.push(RenderCommand::UseProgram(self.program)),
    {
        out.push(RenderCommand::UseProgram(self.program));
    }

    /// Records the setting of the integer uniform `name` to `value`.
    pub fn set_integer(&self, name: &'static str, value: i32, out: &mut Vec<RenderCommand>)
        ensures
            final(out)@ == old(out)@.push(
                RenderCommand::SetInteger { program: self.program, name, value },
            ),
    {
        out.push(RenderCommand::SetInteger { program: self.program, name, value });
    }

    /// Records the setting of the matrix uniform `name` to the pixel-space
    /// orthographic projection of a `width` by `height` window.
    pub fn set_projection(
        &self,
        name: &'static str,
        width: u32,
        height: u32,
        out: &mut Vec<RenderCommand>,
    )
        ensures
            final(out)@ == old(out)@.push(
                RenderCommand::SetProjection { program: self.program, name, width, height },
            ),
    {
        out.push(RenderCommand::SetProjection { program: self.program, name, width, height });
    }

    /// Records the setting of the matrix uniform `name` to the model transform
    /// of a sprite at `position`, of `size`, turned by `rotation` degrees.
    pub fn set_model(
        &self,
        name: &'static str,
        position: Vector2,
        size: Extent,
        rotation: i32,
        out: &mut Vec<RenderCommand>,
    )
        ensures
            final(out)@ == old(out)@.push(
                RenderCommand::SetModel { program: self.program, name, position, size, rotation },
            ),
    {
        out.push(RenderCommand::SetModel { program: self.program, name, position, size, rotation });
    }

    /// Records the setting of the colour uniform `name` to `color`.
    pub fn set_tint(&self, name: &'static str, color: Tint, out: &mut Vec<RenderCommand>)
        ensures
            final(out)@ == old(out)@.push(
                RenderCommand::SetTint { program: self.program, name, color },
            ),
    {
        out.push(RenderCommand::SetTint { program: self.program, name, color });
    }
}

} // verus!
