//! Drawing of textured, tinted, rotated and scaled quads.

use vstd::prelude::*;

use crate::command::RenderCommand;
use crate::geometry::{Extent, Tint, Vector2};
use crate::handles::VertexAttributeArray;
use crate::material::Material;
use crate::texture2d::Texture2D;

verus! {

/// Name of the sprite shader's model-matrix uniform.
pub const MODEL_UNIFORM: &'static str = "model";

/// Name of the sprite shader's tint uniform.
pub const TINT_UNIFORM: &'static str = "spriteColor";

/// The texture unit sprites are sampled from.
pub const SPRITE_TEXTURE_UNIT: u32 = 0;

/// Vertices of the unit quad: two triangles.
pub const QUAD_VERTEX_COUNT: u32 = 6;

/// Draws every sprite with one shared material and one shared unit quad,
/// created once by the backend: a sprite costs a fixed handful of binds and a
/// single draw call, and no geometry is made per sprite.
#[derive(Debug, Clone, Copy, PartialEq, Eq, Structural)]
pub struct SpriteRenderer {
    pub material: Material,
    /// Vertex array of the unit square as two triangles, positions only.
    pub quad_vao: VertexAttributeArray,
}

impl SpriteRenderer {
    pub fn new(material: Material, quad_vao: VertexAttributeArray) -> (r: SpriteRenderer)
        ensures
            r.material == material,
            r.quad_vao == quad_vao,
    {
        SpriteRenderer { material, quad_vao }
    }

    /// The commands that draw one sprite: use the material, set the model
    /// transform and the tint, bind the texture to the sprite unit, bind the
    /// quad and draw its six vertices.
    pub open spec fn sprite_commands(
        self,
        texture: Texture2D,
        position: Vector2,
        size: Extent,
        rotate: i32,
        color: Tint,
    ) -> Seq<RenderCommand> {
        let program = self.material.program;
        seq![
            RenderCommand::UseProgram(program),
            RenderCommand::SetModel {
                program,
                name: MODEL_UNIFORM,
                position,
                size,
                rotation: rotate,
            },
            RenderCommand::SetTint { program, name: TINT_UNIFORM, color },
            RenderCommand::ActiveTexture(SPRITE_TEXTURE_UNIT),
            RenderCommand::BindTexture(texture.texture),
            RenderCommand::BindVertexArray(self.quad_vao),
            RenderCommand::DrawTriangles { first: 0, count: QUAD_VERTEX_COUNT },
        ]
    }

    /// Records the drawing of `texture` over the rectangle at `position` of
    /// `size`, turned by `rotate` degrees about its centre and tinted `color`.
    pub fn draw(
        &self,
        texture: &Texture2D,
        position: Vector2,
        size: Extent,
        rotate: i32,
        color: Tint,
        out: &mut Vec<RenderCommand>,
    )
        ensures
            final(out)@ == old(out)@ + self.sprite_commands(*texture, position, size, rotate, color),
    {
        self.material.use_(out);
        self.material.set_model(MODEL_UNIFORM, position, size, rotate, out);
        self.material.set_tint(TINT_UNIFORM, color, out);
        out.push(RenderCommand::ActiveTexture(SPRITE_TEXTURE_UNIT));
        texture.bind(out);
        out.push(RenderCommand::BindVertexArray(self.quad_vao));
        out.push(RenderCommand::DrawTriangles { first: 0, count: QUAD_VERTEX_COUNT });
        assert(out@ =~= old(out)@ + self.sprite_commands(*texture, position, size, rotate, color));
    }
}

} // verus!
