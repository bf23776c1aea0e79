//! Plain handles of objects that live in the graphics driver.

use vstd::prelude::*;

verus! {

/// A linked shader program, named by the id the driver gave it.
#[derive(Debug, Clone, Copy, PartialEq, Eq, Structural)]
pub struct Program {
    pub id: u32,
}

/// A texture object, named by the id the driver gave it.
#[derive(Debug, Clone, Copy, PartialEq, Eq, Structural)]
pub struct Texture {
    pub id: u32,
}

/// A vertex array object, named by the id the driver gave it.
#[derive(Debug, Clone, Copy, PartialEq, Eq, Structural)]
pub struct VertexAttributeArray {
    pub id: u32,
}

impl Program {
    pub fn new(id: u32) -> (r: Program)
        ensures
            r.id == id,
    {
        Program { id }
    }
}

impl Texture {
    pub fn new(id: u32) -> (r: Texture)
        ensures
            r.id == id,
    {
        Texture { id }
    }
}

impl VertexAttributeArray {
    pub fn new(id: u32) -> (r: VertexAttributeArray)
        ensures
            r.id == id,
    {
        VertexAttributeArray { id }
    }
}

} // verus!
