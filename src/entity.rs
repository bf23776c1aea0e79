//! A drawable, positioned rectangle with physics and lifecycle flags.

use vstd::prelude::*;

use crate::command::RenderCommand;
use crate::geometry::{Extent, Tint, Vector2};
use crate::sprite_renderer::SpriteRenderer;
use crate::texture2d::Texture2D;

verus! {

/// What an [`Entity`] holds.
pub struct EntityView {
    pub position: Vector2,
    pub size: Extent,
    pub velocity: Vector2,
    pub color: Tint,
    /// Rotation in degrees.
    pub rotation: i32,
    pub sprite: Texture2D,
    pub is_solid: bool,
    pub is_destroyed: bool,
}

/// A textured rectangle of the game world: a brick or the paddle.
#[derive(Debug, Clone, Copy)]
pub struct Entity {
    position: Vector2,
    size: Extent,
    velocity: Vector2,
    color: Tint,
    rotation: i32,
    sprite: Texture2D,
    is_solid: bool,
    is_destroyed: bool,
}

impl View for Entity {
    type V = EntityView;

    closed spec fn view(&self) -> EntityView {
        EntityView {
            position: self.position,
            size: self.size,
            velocity: self.velocity,
            color: self.color,
            rotation: self.rotation,
            sprite: self.sprite,
            is_solid: self.is_solid,
            is_destroyed: self.is_destroyed,
        }
    }
}

impl Entity {
    /// An entity at rest: no velocity, no rotation, neither solid nor destroyed.
    pub fn new(position: Vector2, size: Extent, sprite: Texture2D, color: Tint) -> (r: Entity)
        ensures
            r@ == (EntityView {
                position,
                size,
                velocity: Vector2 { x: 0, y: 0 },
                color,
                rotation: 0,
                sprite,
                is_solid: false,
                is_destroyed: false,
            }),
    {
        Entity {
            position,
            size,
            velocity: Vector2 { x: 0, y: 0 },
            color,
            rotation: 0,
            sprite,
            is_solid: false,
            is_destroyed: false,
        }
    }

    /// Records the drawing of this entity as one sprite. Whether a destroyed
    /// entity is drawn is for the caller to decide.
    pub fn draw(&self, renderer: &SpriteRenderer, out: &mut Vec<RenderCommand>)
        ensures
            final(out)@ == old(out)@ + renderer.sprite_commands(
                self@.sprite,
                self@.position,
                self@.size,
                self@.rotation,
                self@.color,
            ),
    {
        renderer.draw(&self.sprite, self.position, self.size, self.rotation, self.color, out);
    }

    pub fn is_destroyed(&self) -> (r: bool)
        ensures
            r == self@.is_destroyed,
    {
        self.is_destroyed
    }

    pub fn is_solid(&self) -> (r: bool)
        ensures
            r == self@.is_solid,
    {
        self.is_solid
    }

    /// Marks the entity as destroyed, unless it is solid: solid entities are
    /// indestructible.
    pub fn destroy(&mut self)
        ensures
            final(self)@ == (EntityView {
                is_destroyed: old(self)@.is_destroyed || !old(self)@.is_solid,
                ..old(self)@
            }),
    {
        if !self.is_solid {
            self.is_destroyed = true;
        }
    }

    pub fn set_solid(&mut self, is_solid: bool)
        ensures
            final(self)@ == (EntityView { is_solid, ..old(self)@ }),
    {
        self.is_solid = is_solid;
    }

    pub fn set_position(&mut self, position: Vector2)
        ensures
            final(self)@ == (EntityView { position, ..old(self)@ }),
    {
        self.position = position;
    }

    pub fn set_velocity(&mut self, velocity: Vector2)
        ensures
            final(self)@ == (EntityView { velocity, ..old(self)@ }),
    {
        self.velocity = velocity;
    }

    pub fn position(&self) -> (r: Vector2)
        ensures
            r == self@.position,
    {
        self.position
    }

    pub fn size(&self) -> (r: Extent)
        ensures
            r == self@.size,
    {
        self.size
    }

    pub fn velocity(&self) -> (r: Vector2)
        ensures
            r == self@.velocity,
    {
        self.velocity
    }

    pub fn color(&self) -> (r: Tint)
        ensures
            r == self@.color,
    {
        self.color
    }

    pub fn rotation(&self) -> (r: i32)
        ensures
            r == self@.rotation,
    {
        self.rotation
    }

    pub fn sprite(&self) -> (r: Texture2D)
        ensures
            r == self@.sprite,
    {
        self.sprite
    }
}

} // verus!
