//! The handles of the text font: its shader program, its texture, and the
//! texture's uniform location in the shader.
use vstd::prelude::*;

verus! {

#[derive(Clone, Copy, Debug, PartialEq, Eq, Structural)]
pub struct Font {
    prog_id: u32,
    tex_id: u32,
    tex_uniform: i32,
}

impl Font {
    pub closed spec fn prog_spec(self) -> u32 {
        self.prog_id
    }

    pub closed spec fn tex_spec(self) -> u32 {
        self.tex_id
    }

    pub closed spec fn uniform_spec(self) -> i32 {
        self.tex_uniform
    }

    /// A font from the handles the renderer created for it.
    pub fn new(prog_id: u32, tex_id: u32, tex_uniform: i32) -> (r: Font)
        ensures
            r.prog_spec() == prog_id,
            r.tex_spec() == tex_id,
            r.uniform_spec() == tex_uniform,
    {
        Font { prog_id, tex_id, tex_uniform }
    }

    pub fn get_progid(&self) -> (r: u32)
        ensures
            r == self.prog_spec(),
    {
        self.prog_id
    }

    pub fn get_texid(&self) -> (r: u32)
        ensures
            r == self.tex_spec(),
    {
        self.tex_id
    }

    pub fn get_texuniform(&self) -> (r: i32)
        ensures
            r == self.uniform_spec(),
    {
        self.tex_uniform
    }
}

} // verus!
