//! Screen text laid out as one textured quad per byte, from a 16 × 16 glyph atlas.
use vstd::prelude::*;
use crate::fixed::{in_range, ONE};
use crate::vec::Vec2;

verus! {

/// The side of one glyph cell in the atlas: 1/16.
pub const GLYPH_UV: i32 = 4096;

/// The largest glyph size in pixels whose quads are representable.
pub const MAX_SIZE: u32 = 32767;

/// Corner `k` of the quad of glyph `i`, two triangles of three corners each.
pub open spec fn corner(position: Vec2, side: int, i: int, k: int) -> Vec2 {
    let left = position.x + i * side;
    let (x, y) = if k == 0 {
        (left, position.y + side)
    } else if k == 1 {
        (left, position.y as int)
    } else if k == 2 {
        (left + side, position.y + side)
    } else if k == 3 {
        (left + side, position.y as int)
    } else if k == 4 {
        (left + side, position.y + side)
    } else {
        (left, position.y as int)
    };
    Vec2 { x: x as i32, y: y as i32 }
}

/// Corner `k` of the atlas cell of byte `c`: column `c % 16`, row `c / 16`
/// counted from the top.
pub open spec fn uv_corner(c: u8, k: int) -> Vec2 {
    let (u, v) = ((c % 16) * GLYPH_UV, (c / 16) * GLYPH_UV);
    let (x, y) = if k == 0 {
        (u, ONE - v)
    } else if k == 1 {
        (u, ONE - (v + GLYPH_UV))
    } else if k == 2 {
        (u + GLYPH_UV, ONE - v)
    } else if k == 3 {
        (u + GLYPH_UV, ONE - (v + GLYPH_UV))
    } else if k == 4 {
        (u + GLYPH_UV, ONE - v)
    } else {
        (u, ONE - (v + GLYPH_UV))
    };
    Vec2 { x: x as i32, y: y as i32 }
}

/// The vertices of `n` glyphs, six per glyph.
pub open spec fn layout_vertices(position: Vec2, size: u32, n: int) -> Seq<Vec2> {
    Seq::new((6 * n) as nat, |j: int| corner(position, size * ONE, j / 6, j % 6))
}

/// The atlas coordinates of the glyphs of `text`, six per byte.
pub open spec fn layout_uvs(text: Seq<u8>) -> Seq<Vec2> {
    Seq::new((6 * text.len()) as nat, |j: int| uv_corner(text[j / 6], j % 6))
}

/// Whether the quads of `n` glyphs at `position` of `size` pixels are representable.
pub open spec fn layout_fits(position: Vec2, size: u32, n: int) -> bool {
    &&& size <= MAX_SIZE
    &&& in_range(position.x + (n + 1) * (size * ONE))
    &&& in_range(position.y + size * ONE)
}

/// A line of text and its quads.
#[derive(Clone, Debug)]
pub struct Text {
    pub text: Option<Vec<u8>>,
    pub position: Vec2,
    /// Glyph size, in pixels.
    pub size: u32,
    pub vertices: Vec<Vec2>,
    pub tex_coords: Vec<Vec2>,
}

proof fn lemma_split_index(j: int, i: int)
    requires
        6 * i <= j < 6 * i + 6,
    ensures
        j / 6 == i,
        j % 6 == j - 6 * i,
{
    vstd::arithmetic::div_mod::lemma_fundamental_div_mod_converse(j, 6, i, j - 6 * i);
}

/// The quads and atlas coordinates of `text` at `position`, `size` pixels per glyph.
pub fn layout(position: &Vec2, size: u32, text: &Vec<u8>) -> (r: (Vec<Vec2>, Vec<Vec2>))
    requires
        layout_fits(*position, size, text@.len() as int),
    ensures
        r.0@ == layout_vertices(*position, size, text@.len() as int),
        r.1@ == layout_uvs(text@),
{
    let side: i32 = (size as i32) * ONE;
    let mut vertices: Vec<Vec2> = Vec::new();
    let mut tex_coords: Vec<Vec2> = Vec::new();
    let mut i: usize = 0;
    let mut left: i32 = position.x;
    while i < text.len()
        invariant
            i <= text@.len(),
            side == size * ONE,
            layout_fits(*position, size, text@.len() as int),
            left == position.x + i * side,
            vertices@ == layout_vertices(*position, size, i as int),
            tex_coords@ == layout_uvs(text@.subrange(0, i as int)),
        decreases text@.len() - i,
    {
        proof {
            assert(0 <= i * side <= text@.len() * side) by (nonlinear_arith)
                requires
                    0 <= i <= text@.len(),
                    side >= 0,
            ;
            assert((text@.len() + 1) * side == text@.len() * side + side) by (nonlinear_arith);
            assert((i + 1) * side == i * side + side) by (nonlinear_arith);
        }
        let top = position.y + side;
        let right = left + side;
        let c = text[i];
        let u: i32 = ((c % 16) as i32) * GLYPH_UV;
        let v: i32 = ((c / 16) as i32) * GLYPH_UV;
        let ghost (vs, ts) = (vertices@, tex_coords@);
        vertices.push(Vec2 { x: left, y: top });
        vertices.push(Vec2 { x: left, y: position.y });
        vertices.push(Vec2 { x: right, y: top });
        vertices.push(Vec2 { x: right, y: position.y });
        vertices.push(Vec2 { x: right, y: top });
        vertices.push(Vec2 { x: left, y: position.y });
        tex_coords.push(Vec2 { x: u, y: ONE - v });
        tex_coords.push(Vec2 { x: u, y: ONE - (v + GLYPH_UV) });
        tex_coords.push(Vec2 { x: u + GLYPH_UV, y: ONE - v });
        tex_coords.push(Vec2 { x: u + GLYPH_UV, y: ONE - (v + GLYPH_UV) });
        tex_coords.push(Vec2 { x: u + GLYPH_UV, y: ONE - v });
        tex_coords.push(Vec2 { x: u, y: ONE - (v + GLYPH_UV) });
        proof {
            let n = i as int;
            let next = layout_vertices(*position, size, n + 1);
            assert forall|j: int| 0 <= j < 6 * n + 6 implies #[trigger] vertices@[j] == next[j] by {
                if j >= 6 * n {
                    lemma_split_index(j, n);
                } else {
                    assert(vertices@[j] == vs[j]);
                }
            }
            assert(vertices@ =~= next);
            let prefix = text@.subrange(0, n + 1);
            let next_uv = layout_uvs(prefix);
            assert forall|j: int| 0 <= j < 6 * n + 6 implies #[trigger] tex_coords@[j] == next_uv[j] by {
                if j >= 6 * n {
                    lemma_split_index(j, n);
                } else {
                    let g = j / 6;
                    vstd::arithmetic::div_mod::lemma_fundamental_div_mod(j, 6);
                    vstd::arithmetic::div_mod::lemma_mod_bound(j, 6);
                    assert(g < n);
                    assert(tex_coords@[j] == ts[j]);
                    assert(prefix[g] == text@[g]);
                }
            }
            assert(tex_coords@ =~= next_uv);
        }
        left = right;
        i += 1;
    }
    proof {
        assert(text@.subrange(0, text@.len() as int) =~= text@);
    }
    (vertices, tex_coords)
}

impl Text {
    /// A line of text at `text_position`, laid out at the default size of 12 pixels.
    pub fn new(text: Option<Vec<u8>>, text_position: Vec2) -> (r: Text)
        requires
            text is Some,
            layout_fits(text_position, 12, text->0@.len() as int),
        ensures
            r.text == text,
            r.position == text_position,
            r.size == 12,
            r.vertices@ == layout_vertices(text_position, 12, text->0@.len() as int),
            r.tex_coords@ == layout_uvs(text->0@),
    {
        let content = match &text {
            Some(t) => t,
            None => {
                return Text {
                    text: None,
                    position: text_position,
                    size: 12,
                    vertices: Vec::new(),
                    tex_coords: Vec::new(),
                };
            },
        };
        let (vertices, tex_coords) = layout(&text_position, 12, content);
        Text { text, position: text_position, size: 12, vertices, tex_coords }
    }

    /// Forgets the text; the quads stay until the next `set_text`.
    pub fn clear(&mut self)
        ensures
            *final(self) == (Text { text: None, ..*old(self) }),
    {
        self.text = None;
    }

    pub fn set_size(&mut self, new_size: u32)
        ensures
            *final(self) == (Text { size: new_size, ..*old(self) }),
    {
        self.size = new_size;
    }

    pub fn set_position(&mut self, new_position: &Vec2)
        ensures
            *final(self) == (Text { position: *new_position, ..*old(self) }),
    {
        self.position = *new_position;
    }

    /// Lays out new quads for `text` at the current position and size.
    pub fn set_text(&mut self, text: Vec<u8>)
        requires
            layout_fits(old(self).position, old(self).size, text@.len() as int),
        ensures
            final(self).text == old(self).text,
            final(self).position == old(self).position,
            final(self).size == old(self).size,
            final(self).vertices@ == layout_vertices(
                old(self).position,
                old(self).size,
                text@.len() as int,
            ),
            final(self).tex_coords@ == layout_uvs(text@),
    {
        let (vertices, tex_coords) = layout(&self.position, self.size, &text);
        self.vertices = vertices;
        self.tex_coords = tex_coords;
    }

    /// The number of vertices to draw.
    pub fn vertices_size(&self) -> (r: usize)
        ensures
            r == self.vertices@.len(),
    {
        self.vertices.len()
    }
}

} // verus!
