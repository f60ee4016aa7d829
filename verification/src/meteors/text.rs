//! The integer side of drawing text: which slot of the glyph table a character takes, and the
//! indices that draw a glyph's outline.
use vstd::prelude::*;

use crate::meteors::graphics::generate_triangle_strip_indices;

verus! {

/// How the points of a character's outline are joined into triangles.
pub enum Topology {
    Triangles,
    TriangleStrip,
}

/// The number of slots of the glyph table: one for each character from `' '` to `'Z'`.
pub const CHARACTER_COUNT: usize = 59;

/// The slot of the glyph table that `character` takes, counted from `' '`, or `None` when it
/// lies past the table.
pub fn character_slot(character: char) -> (r: Option<usize>)
    requires
        character as int >= 32,
    ensures
        character as int - 32 < CHARACTER_COUNT ==> r == Some((character as int - 32) as usize),
        character as int - 32 >= CHARACTER_COUNT ==> r is None,
{
    let code = (character as u32 - 32) as usize;
    if code < CHARACTER_COUNT {
        Some(code)
    } else {
        None
    }
}

/// The indices that draw `vertex_count` outline points (counted modulo 65536) joined as
/// `topology` says: each point once, in order, for separate triangles; the triangles of the
/// strip for a strip.
pub fn topology_indices(topology: &Topology, vertex_count: usize) -> (r: Vec<u16>)
    requires
        *topology is TriangleStrip && vertex_count > 2 ==> vertex_count % 65536 >= 2,
    ensures
        *topology is Triangles ==> r@.len() == vertex_count % 65536 && forall|i: int|
            0 <= i < r@.len() ==> #[trigger] r@[i] == i,
        *topology is TriangleStrip && vertex_count <= 2 ==> r@.len() == 0,
        *topology is TriangleStrip && vertex_count > 2 ==> r@.len() == 3 * (vertex_count % 65536
            - 2),
        *topology is TriangleStrip ==> forall|i: int|
            0 <= i < r@.len() ==> #[trigger] r@[i] == i / 3 + i % 3,
{
    match topology {
        Topology::Triangles => {
            let count: u16 = (vertex_count % 65536) as u16;
            let mut indices: Vec<u16> = Vec::new();
            let mut next: u16 = 0;
            while next < count
                invariant
                    count == vertex_count % 65536,
                    0 <= next <= count,
                    indices@.len() == next,
                    forall|i: int| 0 <= i < indices@.len() ==> #[trigger] indices@[i] == i,
                decreases count - next,
            {
                indices.push(next);
                next += 1;
            }
            indices
        },
        Topology::TriangleStrip => generate_triangle_strip_indices(vertex_count),
    }
}

} // verus!
