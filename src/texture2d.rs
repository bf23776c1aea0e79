//! A texture handle together with the sampling parameters it was created with.

use vstd::prelude::*;

use crate::command::RenderCommand;
use crate::handles::Texture;

verus! {

/// Channel layout of texture pixels.
#[derive(Debug, Clone, Copy, PartialEq, Eq, Structural)]
pub enum PixelFormat {
    /// Three channels: red, green, blue.
    Rgb,
    /// Four channels: red, green, blue, alpha.
    Rgba,
}

/// What sampling does outside the unit square of texture coordinates.
#[derive(Debug, Clone, Copy, PartialEq, Eq, Structural)]
pub enum WrapMode {
    Repeat,
    ClampToEdge,
}

/// How texels are combined when a texture is magnified or minified.
#[derive(Debug, Clone, Copy, PartialEq, Eq, Structural)]
pub enum FilterMode {
    Linear,
    Nearest,
}

/// A texture in the driver and the parameters it is sampled with. Copying it
/// copies the handle; pixel data is uploaded once, when the texture is made.
#[derive(Debug, Clone, Copy, PartialEq, Eq, Structural)]
pub struct Texture2D {
    pub texture: Texture,
    pub internal_format: PixelFormat,
    pub image_format: PixelFormat,
    pub wrap_s: WrapMode,
    pub wrap_t: WrapMode,
    pub filter_min: FilterMode,
    pub filter_mag: FilterMode,
}

impl Texture2D {
    pub fn new(
        texture: Texture,
        internal_format: PixelFormat,
        image_format: PixelFormat,
        wrap_s: WrapMode,
        wrap_t: WrapMode,
        filter_min: FilterMode,
        filter_mag: FilterMode,
    ) -> (r: Texture2D)
        ensures
            r == (Texture2D {
                texture,
                internal_format,
                image_format,
                wrap_s,
                wrap_t,
                filter_min,
                filter_mag,
            }),
    {
        Texture2D { texture, internal_format, image_format, wrap_s, wrap_t, filter_min, filter_mag }
    }

    /// The parameters every cached texture is made with: four channels when the
    /// image has alpha, three otherwise; repeating wrap; linear filtering.
    pub open spec fn spec_for_image(texture: Texture, alpha: bool) -> Texture2D {
        let format = if alpha {
            PixelFormat::Rgba
        } else {
            PixelFormat::Rgb
        };
        Texture2D {
            texture,
            internal_format: format,
            image_format: format,
            wrap_s: WrapMode::Repeat,
            wrap_t: WrapMode::Repeat,
            filter_min: FilterMode::Linear,
            filter_mag: FilterMode::Linear,
        }
    }

    /// Describes `texture` with the parameters used for every cached image.
    pub fn for_image(texture: Texture, alpha: bool) -> (r: Texture2D)
        ensures
            r == Texture2D::spec_for_image(texture, alpha),
    {
        let format = if alpha {
            PixelFormat::Rgba
        } else {
            PixelFormat::Rgb
        };
        Texture2D::new(
            texture,
            format,
            format,
            WrapMode::Repeat,
            WrapMode::Repeat,
            FilterMode::Linear,
            FilterMode::Linear,
        )
    }

    /// Records the binding of this texture to the active texture unit.
    pub fn bind(&self, out: &mut Vec<RenderCommand>)
        ensures
            final(out)@ == old(out)@.push(RenderCommand::BindTexture(self.texture)),
    {
        out.push(RenderCommand::BindTexture(self.texture));
    }
}

} // verus!
