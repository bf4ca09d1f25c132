//! The table of loaded textures, indexed by the texture ids that cubes carry.
use vstd::prelude::*;

verus! {

/// Renderer handles of loaded textures, in load order.
#[derive(Clone, Debug)]
pub struct TextureLoader {
    textures: Vec<u32>,
}

impl View for TextureLoader {
    type V = Seq<u32>;

    closed spec fn view(&self) -> Seq<u32> {
        self.textures@
    }
}

impl TextureLoader {
    pub fn new() -> (r: TextureLoader)
        ensures
            r@ == Seq::<u32>::empty(),
    {
        TextureLoader { textures: Vec::new() }
    }

    /// Appends the handle of a texture the renderer has loaded; its index is
    /// the previous length.
    pub fn load(&mut self, texture: u32)
        ensures
            final(self)@ == old(self)@.push(texture),
    {
        self.textures.push(texture);
    }

    /// The number of loaded textures.
    pub fn len(&self) -> (r: usize)
        ensures
            r == self@.len(),
    {
        self.textures.len()
    }

    /// The handle at `index`.
    pub fn get(&self, index: u32) -> (r: u32)
        requires
            index < self@.len(),
        ensures
            r == self@[index as int],
    {
        self.textures[index as usize]
    }
}

} // verus!
